use rss_desktop_widget::commands::{check_feed_update, checked_feed_input};
use rss_desktop_widget::error::AppError;
use rss_desktop_widget::models::{FeedInput, FeedUpdate};
use rss_desktop_widget::urls::{accept_http_url, validate_http_url};

#[test]
fn rejects_non_http_urls() {
    assert!(validate_http_url("file:///tmp/feed.xml").is_err());
}

#[test]
fn accepts_and_serializes_http_urls() {
    assert_eq!(validate_http_url("  HTTPS://Example.COM  ").unwrap(), "https://example.com/");
    assert_eq!(
        validate_http_url("http://example.com/feed.xml").unwrap(),
        "http://example.com/feed.xml"
    );
}

#[test]
fn url_errors_are_told_apart() {
    assert_eq!(validate_http_url("not a url"), Err(AppError::InvalidUrl));
    assert_eq!(validate_http_url("ftp://example.com/x"), Err(AppError::UnsupportedScheme));
    assert_eq!(AppError::UnsupportedScheme.message(), "仅支持 http 或 https RSS 地址");
    assert_eq!(AppError::InvalidUrl.message(), "URL 格式无效");
}

#[test]
fn accept_http_url_decides_on_the_scheme() {
    let ok = Ok(("http".to_string(), "http://a/".to_string()));
    assert_eq!(accept_http_url(ok).unwrap(), "http://a/");
    let other = Ok(("mailto".to_string(), "mailto:a@b".to_string()));
    assert_eq!(accept_http_url(other), Err(AppError::UnsupportedScheme));
    let bad = url::Url::parse("::").map(|u| (u.scheme().to_string(), String::from(u)));
    assert_eq!(accept_http_url(bad), Err(AppError::InvalidUrl));
}

#[test]
fn feed_update_needs_title_and_http_url() {
    let mut update = FeedUpdate {
        id: 1,
        title: "  ".to_string(),
        url: "https://example.com/rss".to_string(),
        enabled: true,
        refresh_interval_minutes: 15,
    };
    assert_eq!(check_feed_update(&update), Err(AppError::EmptyFeedTitle));
    assert_eq!(AppError::EmptyFeedTitle.message(), "订阅源名称不能为空");
    update.title = "Feed".to_string();
    assert_eq!(check_feed_update(&update), Ok(()));
    update.url = "file:///x".to_string();
    assert_eq!(check_feed_update(&update), Err(AppError::UnsupportedScheme));
}

#[test]
fn new_subscription_address_is_checked() {
    let input = FeedInput {
        title: None,
        url: " https://example.com ".to_string(),
        refresh_interval_minutes: Some(30),
    };
    let checked = checked_feed_input(input).unwrap();
    assert_eq!(checked.url, "https://example.com/");
    assert_eq!(checked.refresh_interval_minutes, Some(30));
}
