use rss_desktop_widget::commands::{feed_test_result, with_default_interval};
use rss_desktop_widget::error::{to_command_error, AppError};
use rss_desktop_widget::models::{FeedInput, ParsedFeed};
use rss_desktop_widget::tray::{menu_action, should_show_main, TrayAction, TrayPointer};

#[test]
fn tray_menu_ids() {
    assert_eq!(menu_action("show"), Some(TrayAction::ShowMain));
    assert_eq!(menu_action("settings"), Some(TrayAction::OpenSettings));
    assert_eq!(menu_action("refresh"), Some(TrayAction::RefreshAll));
    assert_eq!(menu_action("quit"), Some(TrayAction::Quit));
    assert_eq!(menu_action("other"), None);
}

#[test]
fn tray_clicks() {
    assert!(should_show_main(TrayPointer::Click { left: true, released: true }));
    assert!(!should_show_main(TrayPointer::Click { left: true, released: false }));
    assert!(!should_show_main(TrayPointer::Click { left: false, released: true }));
    assert!(should_show_main(TrayPointer::DoubleClick { left: true }));
    assert!(!should_show_main(TrayPointer::Other));
}

#[test]
fn command_helpers() {
    let input = FeedInput { title: None, url: "u".to_string(), refresh_interval_minutes: None };
    assert_eq!(with_default_interval(input, 30).refresh_interval_minutes, Some(30));
    let input = FeedInput { title: None, url: "u".to_string(), refresh_interval_minutes: Some(7) };
    assert_eq!(with_default_interval(input, 30).refresh_interval_minutes, Some(7));
    let parsed = ParsedFeed { title: "T".to_string(), items: vec![] };
    let r = feed_test_result("https://x/".to_string(), &parsed);
    assert_eq!((r.title.as_str(), r.url.as_str(), r.item_count), ("T", "https://x/", 0));
    assert_eq!(to_command_error(&AppError::Storage("disk full".to_string())), "disk full");
    assert_eq!(to_command_error(&AppError::FeedNotFound), "feed not found");
}
