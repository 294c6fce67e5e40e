use rusqlite::Connection;
use rss_desktop_widget::models::{FeedInput, ItemQuery, ParsedItem};
use rss_desktop_widget::queries;
use rss_desktop_widget::store::{bool_to_i64, flag_from_i64, item_filter, item_link, new_feed};
use rss_desktop_widget::error::AppError;

fn connection() -> Connection {
    let conn = Connection::open_in_memory().unwrap();
    conn.pragma_update(None, "foreign_keys", "ON").unwrap();
    conn.execute_batch(queries::SCHEMA).unwrap();
    conn
}

fn insert_items(conn: &mut Connection, feed_id: i64, items: &[ParsedItem]) -> usize {
    let tx = conn.transaction().unwrap();
    let mut inserted = 0;
    for item in items {
        inserted += tx
            .execute(
                queries::INSERT_ITEM,
                (
                    feed_id,
                    &item.guid,
                    &item.title,
                    &item.link,
                    &item.author,
                    &item.published_at,
                    &item.content_text,
                    &item.content_html,
                    "2024-01-01T00:00:00+00:00",
                ),
            )
            .unwrap();
    }
    tx.execute(queries::PRUNE_ITEMS, []).unwrap();
    tx.commit().unwrap();
    inserted
}

#[test]
fn item_insert_deduplicates_by_feed_and_guid() {
    let mut conn = connection();
    let values = new_feed(
        &FeedInput {
            title: Some("Feed".to_string()),
            url: "https://example.com/rss.xml".to_string(),
            refresh_interval_minutes: Some(15),
        },
        "Feed",
    );
    conn.execute(
        queries::INSERT_FEED,
        (&values.title, &values.url, values.refresh_interval_minutes, "now"),
    )
    .unwrap();
    let feed_id = conn.last_insert_rowid();
    let item = ParsedItem {
        guid: "one".to_string(),
        title: "Title".to_string(),
        link: Some("https://example.com/1".to_string()),
        author: None,
        published_at: None,
        content_html: None,
        content_text: "Body".to_string(),
    };

    assert_eq!(insert_items(&mut conn, feed_id, &[item.clone()]), 1);
    assert_eq!(insert_items(&mut conn, feed_id, &[item]), 0);
}

#[test]
fn refresh_log_keeps_error_message() {
    let conn = connection();
    conn.execute(
        queries::INSERT_REFRESH_LOG,
        (None::<i64>, "error", Some("network timeout"), "now"),
    )
    .unwrap();
    conn.execute(queries::PRUNE_REFRESH_LOGS, []).unwrap();
    let mut stmt = conn.prepare(queries::LIST_REFRESH_LOGS).unwrap();
    let logs: Vec<(String, Option<String>)> = stmt
        .query_map([], |row| Ok((row.get(3)?, row.get(4)?)))
        .unwrap()
        .collect::<Result<_, _>>()
        .unwrap();

    assert_eq!(logs.len(), 1);
    assert_eq!(logs[0].0, "error");
    assert_eq!(logs[0].1.as_deref(), Some("network timeout"));
}

#[test]
fn new_feed_values() {
    let values = new_feed(
        &FeedInput { title: Some("   ".to_string()), url: " https://x/ ".to_string(), refresh_interval_minutes: None },
        "  Inferred  ",
    );
    assert_eq!(values.title, "Inferred");
    assert_eq!(values.url, "https://x/");
    assert_eq!(values.refresh_interval_minutes, 15);
    let values = new_feed(
        &FeedInput { title: Some(" Mine ".to_string()), url: "u".to_string(), refresh_interval_minutes: Some(1000) },
        "Inferred",
    );
    assert_eq!(values.title, "Mine");
    assert_eq!(values.refresh_interval_minutes, 240);
}

#[test]
fn item_filter_is_made_safe() {
    let f = item_filter(&ItemQuery {
        mode: "weird".to_string(),
        search: Some("  rust ".to_string()),
        feed_id: Some(3),
        limit: 1000,
        offset: -5,
    });
    assert_eq!(f.mode, "all");
    assert_eq!(f.search.as_deref(), Some("rust"));
    assert_eq!(f.feed_id, Some(3));
    assert_eq!(f.limit, 200);
    assert_eq!(f.offset, 0);
    let f = item_filter(&ItemQuery {
        mode: "unread".to_string(),
        search: Some("   ".to_string()),
        feed_id: None,
        limit: 0,
        offset: 7,
    });
    assert_eq!(f.mode, "unread");
    assert_eq!(f.search, None);
    assert_eq!(f.limit, 1);
    assert_eq!(f.offset, 7);
}

#[test]
fn flags_and_links() {
    assert_eq!(bool_to_i64(true), 1);
    assert_eq!(bool_to_i64(false), 0);
    assert!(flag_from_i64(2));
    assert!(!flag_from_i64(0));
    assert_eq!(item_link(Some(Some("l".to_string()))), Ok("l".to_string()));
    assert_eq!(item_link(Some(None)), Err(AppError::ItemHasNoLink));
    assert_eq!(item_link(None), Err(AppError::ItemHasNoLink));
    assert_eq!(AppError::ItemHasNoLink.message(), "item has no link");
}
