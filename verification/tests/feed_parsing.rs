use rss_desktop_widget::html::{tidy_rendering, MAX_TEXT_CHARS};
use rss_desktop_widget::error::AppError;
use rss_desktop_widget::feed::{
    feed_from_document, parse_entry, parse_feed, select_link, RawEntry, RawFeed, RawLink,
    MAX_ITEMS,
};
use rss_desktop_widget::html::html_to_text;

#[test]
fn parse_rss_extracts_summary_text() {
    let rss = br#"<?xml version="1.0" encoding="UTF-8" ?>
        <rss version="2.0">
          <channel>
            <title>Demo Feed</title>
            <link>https://example.com</link>
            <item>
              <title>Demo Item</title>
              <description><![CDATA[<p>Hello <strong>RSS</strong></p>]]></description>
              <link>https://example.com/item</link>
              <guid>demo-item</guid>
            </item>
          </channel>
        </rss>"#;

    let parsed = parse_feed("https://example.com/rss.xml", rss).unwrap();

    assert_eq!(parsed.title, "Demo Feed");
    assert_eq!(parsed.items.len(), 1);
    assert_eq!(parsed.items[0].guid, "demo-item");
    assert!(parsed.items[0].content_text.contains("Hello"));
}

#[test]
fn rss_item_fields_are_normalized() {
    let rss = br#"<?xml version="1.0" encoding="UTF-8" ?>
        <rss version="2.0">
          <channel>
            <title>  Spaced
               Feed   Title </title>
            <item>
              <title>  Many    spaces
              here </title>
              <description><![CDATA[<p>Hello <strong>RSS</strong></p>]]></description>
              <link>https://example.com/item</link>
              <guid>demo-item</guid>
            </item>
          </channel>
        </rss>"#;
    let parsed = parse_feed("https://example.com/rss.xml", rss).unwrap();
    assert_eq!(parsed.title, "Spaced Feed Title");
    let item = &parsed.items[0];
    assert_eq!(item.title, "Many spaces here");
    assert_eq!(item.link.as_deref(), Some("https://example.com/item"));
    assert_eq!(item.content_html.as_deref(), Some("<p>Hello <strong>RSS</strong></p>"));
    assert!(!item.content_text.contains("<p>"));
    assert!(item.content_text.contains("RSS"));
}

#[test]
fn untitled_feed_takes_source_url_and_untitled_item_takes_link() {
    let rss = br#"<?xml version="1.0" encoding="UTF-8" ?>
        <rss version="2.0">
          <channel>
            <item>
              <link>https://example.com/only-link</link>
              <guid>g1</guid>
            </item>
          </channel>
        </rss>"#;
    let parsed = parse_feed("https://example.com/rss.xml", rss).unwrap();
    assert_eq!(parsed.title, "https://example.com/rss.xml");
    assert_eq!(parsed.items[0].title, "https://example.com/only-link");
    // Without content, the plain text is the title.
    assert_eq!(parsed.items[0].content_text, "https://example.com/only-link");
    assert_eq!(parsed.items[0].content_html, None);
}

#[test]
fn atom_feed_keeps_author_and_dates() {
    let atom = br#"<?xml version="1.0" encoding="utf-8"?>
        <feed xmlns="http://www.w3.org/2005/Atom">
          <title>Atom Demo</title>
          <id>urn:feed</id>
          <updated>2024-01-02T03:04:05Z</updated>
          <entry>
            <title>First</title>
            <id>urn:entry:1</id>
            <updated>2024-01-02T03:04:05Z</updated>
            <author><name>  Jane   Doe </name></author>
            <link rel="related" href="https://example.com/related"/>
            <link rel="alternate" href="https://example.com/first"/>
            <content type="html">&lt;p&gt;Body text&lt;/p&gt;</content>
          </entry>
        </feed>"#;
    let parsed = parse_feed("https://example.com/atom.xml", atom).unwrap();
    assert_eq!(parsed.title, "Atom Demo");
    let item = &parsed.items[0];
    assert_eq!(item.guid, "urn:entry:1");
    assert_eq!(item.author.as_deref(), Some("Jane Doe"));
    assert_eq!(item.link.as_deref(), Some("https://example.com/first"));
    assert_eq!(item.published_at.as_deref(), Some("2024-01-02T03:04:05+00:00"));
    assert!(item.content_text.contains("Body text"));
}

#[test]
fn invalid_document_is_a_parse_error() {
    let err = parse_feed("https://example.com/rss.xml", b"not a feed").unwrap_err();
    assert_eq!(err, AppError::FeedParse);
    assert_eq!(err.message(), "RSS/Atom/JSON Feed 解析失败");
}

fn entry(id: &str, title: Option<&str>, links: Vec<RawLink>) -> RawEntry {
    RawEntry {
        id: id.to_string(),
        title: title.map(|t| t.to_string()),
        published: None,
        updated: None,
        authors: vec![],
        content_body: None,
        summary: None,
        links,
    }
}

fn link(href: &str, rel: Option<&str>) -> RawLink {
    RawLink { href: href.to_string(), rel: rel.map(|r| r.to_string()) }
}

#[test]
fn blank_identifier_gets_stable_hash() {
    let e = entry("   ", Some("Title"), vec![link("https://example.com/a", None)]);
    let item = parse_entry("https://example.com/feed", &e);
    assert_eq!(item.guid.len(), 64);
    assert!(item.guid.chars().all(|c| c.is_ascii_hexdigit() && !c.is_ascii_uppercase()));
    let again = parse_entry("https://example.com/feed", &e);
    assert_eq!(item.guid, again.guid);
    let other = parse_entry("https://example.com/other", &e);
    assert_ne!(item.guid, other.guid);
}

#[test]
fn link_selection_prefers_alternate() {
    let links = vec![
        link("https://example.com/enclosure", Some("enclosure")),
        link("https://example.com/page", Some("alternate")),
    ];
    assert_eq!(select_link(&links).as_deref(), Some("https://example.com/page"));
    let links = vec![
        link("https://example.com/enclosure", Some("enclosure")),
        link("https://example.com/self", None),
    ];
    assert_eq!(select_link(&links).as_deref(), Some("https://example.com/self"));
    let links = vec![link("https://example.com/enclosure", Some("enclosure"))];
    assert_eq!(select_link(&links).as_deref(), Some("https://example.com/enclosure"));
    assert_eq!(select_link(&vec![]), None);
}

#[test]
fn entry_without_title_or_link_gets_placeholder() {
    let e = entry("x", Some("   "), vec![]);
    let item = parse_entry("https://example.com/feed", &e);
    assert_eq!(item.title, "未命名条目");
    assert_eq!(item.content_text, "未命名条目");
}

#[test]
fn content_prefers_body_over_summary_and_is_bounded() {
    let mut e = entry("x", Some("T"), vec![]);
    e.summary = Some("summary".to_string());
    e.content_body = Some("  body  ".to_string());
    let item = parse_entry("s", &e);
    assert_eq!(item.content_html.as_deref(), Some("body"));
    e.content_body = None;
    let item = parse_entry("s", &e);
    assert_eq!(item.content_html.as_deref(), Some("summary"));
    e.summary = Some("x".repeat(150_000));
    let item = parse_entry("s", &e);
    assert_eq!(item.content_html.as_ref().unwrap().chars().count(), 100_000);
    assert!(item.content_text.chars().count() <= 20_000);
    e.summary = Some("   ".to_string());
    let item = parse_entry("s", &e);
    assert_eq!(item.content_html, None);
}

#[test]
fn published_falls_back_to_updated() {
    let mut e = entry("x", Some("T"), vec![]);
    e.updated = Some("2024-05-06T00:00:00+00:00".to_string());
    assert_eq!(parse_entry("s", &e).published_at.as_deref(), Some("2024-05-06T00:00:00+00:00"));
    e.published = Some("2024-01-01T00:00:00+00:00".to_string());
    assert_eq!(parse_entry("s", &e).published_at.as_deref(), Some("2024-01-01T00:00:00+00:00"));
}

#[test]
fn feed_keeps_at_most_two_hundred_items() {
    let entries = (0..250).map(|i| entry(&format!("id-{i}"), Some("T"), vec![])).collect();
    let doc = RawFeed { title: Some("Big".to_string()), entries };
    let parsed = feed_from_document("https://example.com/feed", &doc);
    assert_eq!(parsed.items.len(), MAX_ITEMS);
    assert_eq!(parsed.items[199].guid, "id-199");
}

#[test]
fn html_to_text_drops_tags_and_blank_lines() {
    let text = html_to_text("<p>First</p>\n\n<p>   Second  </p>");
    assert!(!text.contains('<'));
    assert!(text.contains("First"));
    assert!(text.contains("Second"));
    assert!(!text.contains("\n\n"));
    assert_eq!(text.trim(), text);
}

#[test]
fn tidy_rendering_trims_lines_and_bounds_length() {
    assert_eq!(tidy_rendering("  a  \n\n \t\n b\r\n"), "a\nb");
    assert_eq!(tidy_rendering(""), "");
    let long = "y".repeat(MAX_TEXT_CHARS + 10);
    assert_eq!(tidy_rendering(&long).chars().count(), MAX_TEXT_CHARS);
}
