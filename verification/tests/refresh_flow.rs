use rss_desktop_widget::schedule::is_due_after;
use rss_desktop_widget::error::AppError;
use rss_desktop_widget::fetch::{retry_delay_for_attempt, FetchRetry, FetchStep, MAX_FEED_BYTES};
use rss_desktop_widget::models::{Feed, RefreshSummary};
use rss_desktop_widget::refresh::{any_inserted, success_log_message};
use rss_desktop_widget::schedule::{due_feeds, is_due};

#[test]
fn retry_delays_grow() {
    assert_eq!(retry_delay_for_attempt(1), 400);
    assert_eq!(retry_delay_for_attempt(2), 800);
}

#[test]
fn three_failed_attempts_give_up_with_the_last_error() {
    let mut f = FetchRetry::start("https://example.com/rss".to_string());
    assert_eq!(f.attempt(), 1);
    assert_eq!(f.on_send_error("timeout".to_string()), FetchStep::RetryAfter(400));
    assert_eq!(f.attempt(), 2);
    assert_eq!(f.on_response(503, None), FetchStep::RetryAfter(800));
    assert_eq!(f.attempt(), 3);
    let step = f.on_body_error("reset");
    let expected = AppError::FetchFailed {
        url: "https://example.com/rss".to_string(),
        last_error: "读取订阅源内容失败：reset".to_string(),
    };
    assert_eq!(step, FetchStep::Fail(expected.clone()));
    assert_eq!(f.attempt(), 3);
    assert_eq!(expected.message(), "请求订阅源失败：https://example.com/rss；读取订阅源内容失败：reset");
}

#[test]
fn status_failure_message() {
    let mut f = FetchRetry::start("u".to_string());
    f.on_send_error("a".to_string());
    f.on_send_error("b".to_string());
    match f.on_response(404, Some(10)) {
        FetchStep::Fail(e) => assert_eq!(e.message(), "请求订阅源失败：u；订阅源返回 HTTP 404"),
        other => panic!("unexpected {other:?}"),
    }
}

#[test]
fn oversized_feeds_fail_at_once() {
    let mut f = FetchRetry::start("u".to_string());
    assert_eq!(f.on_response(200, Some(MAX_FEED_BYTES + 1)), FetchStep::Fail(AppError::FeedTooLarge));
    assert_eq!(f.attempt(), 1);
    assert_eq!(f.on_response(200, Some(MAX_FEED_BYTES)), FetchStep::ReadBody);
    assert_eq!(f.on_response(204, None), FetchStep::ReadBody);
    assert_eq!(f.on_body(2_000_000), FetchStep::Accept);
    assert_eq!(f.on_body(2_000_001), FetchStep::Fail(AppError::FeedTooLarge));
    assert_eq!(AppError::FeedTooLarge.message(), "订阅源内容超过 2MB 限制");
}

fn feed(last_checked_at: Option<&str>, interval: i64) -> Feed {
    Feed {
        id: 1,
        title: "F".to_string(),
        url: "https://example.com".to_string(),
        enabled: true,
        refresh_interval_minutes: interval,
        last_checked_at: last_checked_at.map(|s| s.to_string()),
        last_error: None,
        created_at: "c".to_string(),
        updated_at: "u".to_string(),
    }
}

#[test]
fn due_feeds_follow_their_interval() {
    // 2024-01-01T00:00:00Z
    let base = 1_704_067_200i64;
    assert!(is_due(&feed(None, 15), base, 0));
    assert!(is_due(&feed(Some("garbage"), 15), base, 0));
    let f = feed(Some("2024-01-01T00:00:00+00:00"), 15);
    assert!(!is_due(&f, base + 15 * 60 - 1, 999_999_999));
    assert!(is_due(&f, base + 15 * 60, 0));
    // Intervals below five minutes count as five.
    let f = feed(Some("2024-01-01T01:00:00+01:00"), 1);
    assert!(!is_due(&f, base + 4 * 60, 0));
    assert!(is_due(&f, base + 5 * 60, 0));
    let feeds = vec![feed(None, 15), feed(Some("2024-01-01T00:00:00Z"), 15)];
    let due = due_feeds(feeds, base + 60, 0);
    assert_eq!(due.len(), 1);
    assert_eq!(due[0].last_checked_at, None);
}

#[test]
fn unread_check_times_allow_any_interval() {
    let base = 1_704_067_200i64;
    assert!(is_due(&feed(None, i64::MAX), base, 0));
    assert!(is_due(&feed(Some("not a time"), i64::MAX), base, 0));
    let feeds = vec![feed(None, i64::MAX), feed(Some("2024-01-01T00:00:00Z"), 15)];
    let due = due_feeds(feeds, base + 60, 0);
    assert_eq!(due.len(), 1);
    assert_eq!(due[0].refresh_interval_minutes, i64::MAX);
    assert!(is_due_after(None, i64::MAX, 0, 0));
}

#[test]
fn refresh_summaries_and_messages() {
    let s = RefreshSummary::succeeded(feed(None, 15), 50, 3);
    assert_eq!((s.fetched, s.inserted, s.error.clone()), (50, 3, None));
    let f = RefreshSummary::failed(feed(None, 15), "boom".to_string());
    assert_eq!((f.fetched, f.inserted, f.error.as_deref()), (0, 0, Some("boom")));
    assert!(any_inserted(&vec![f.clone(), s.clone()]));
    assert!(!any_inserted(&vec![f]));
    assert!(!any_inserted(&vec![]));
    assert_eq!(success_log_message(50, 3), "解析 50 条，新增 3 条");
}

#[test]
fn due_after_compares_elapsed_time() {
    assert!(is_due_after(None, 15, 0, 0));
    assert!(is_due_after(Some((0, 0)), 15, 900, 0));
    assert!(!is_due_after(Some((0, 1)), 15, 900, 0));
    assert!(is_due_after(Some((0, 0)), -3, 300, 0));
    assert!(!is_due_after(Some((0, 0)), -3, 299, 999_999_999));
}
