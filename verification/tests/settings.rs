use rss_desktop_widget::error::AppError;
use rss_desktop_widget::models::{normalize_refresh_interval, normalize_settings, AppSettings};
use rss_desktop_widget::settings::{setting_entries, settings_from_entries};

fn save(settings: AppSettings) -> (AppSettings, Vec<(String, String)>) {
    let saved = normalize_settings(settings);
    let rows = setting_entries(&saved);
    (saved, rows)
}

#[test]
fn settings_round_trip_normalizes_values() {
    let (saved, rows) = save(AppSettings {
        window_width: 100,
        window_height: 2000,
        opacity: 10,
        margin_top: -1,
        margin_right: 500,
        global_refresh_interval_minutes: 1,
        max_items: 500,
    });

    assert_eq!(saved.window_width, 360);
    assert_eq!(saved.window_height, 1100);
    assert_eq!(saved.opacity, 45);
    assert_eq!(saved.margin_top, 0);
    assert_eq!(saved.margin_right, 200);
    assert_eq!(saved.global_refresh_interval_minutes, 5);
    assert_eq!(saved.max_items, 200);

    let read = settings_from_entries(&rows).unwrap();
    assert_eq!(read, saved);
}

#[test]
fn stored_settings_are_decimal_rows() {
    let rows = setting_entries(&AppSettings::default());
    let keys: Vec<&str> = rows.iter().map(|(k, _)| k.as_str()).collect();
    assert_eq!(
        keys,
        vec![
            "window_width",
            "window_height",
            "opacity",
            "margin_top",
            "margin_right",
            "global_refresh_interval_minutes",
            "max_items"
        ]
    );
    assert_eq!(rows[0].1, "520");
    assert_eq!(rows[6].1, "80");
}

#[test]
fn missing_settings_take_defaults() {
    let read = settings_from_entries(&vec![]).unwrap();
    assert_eq!(read, AppSettings::default());
    let read = settings_from_entries(&vec![("opacity".to_string(), "-3".to_string())]).unwrap();
    assert_eq!(read.opacity, 45);
    assert_eq!(read.window_width, 520);
}

#[test]
fn invalid_stored_setting_is_an_error() {
    let rows = vec![("max_items".to_string(), "many".to_string())];
    assert_eq!(settings_from_entries(&rows), Err(AppError::InvalidNumericSetting));
    let rows = vec![("unrelated".to_string(), "many".to_string())];
    assert!(settings_from_entries(&rows).is_ok());
}

#[test]
fn default_settings_values() {
    let d = AppSettings::default();
    assert_eq!(
        d,
        AppSettings {
            window_width: 520,
            window_height: 720,
            opacity: 86,
            margin_top: 18,
            margin_right: 18,
            global_refresh_interval_minutes: 15,
            max_items: 80,
        }
    );
    assert_eq!(normalize_settings(d), d);
}

#[test]
fn refresh_interval_is_clamped() {
    assert_eq!(normalize_refresh_interval(1), 5);
    assert_eq!(normalize_refresh_interval(60), 60);
    assert_eq!(normalize_refresh_interval(1000), 240);
    assert_eq!(normalize_refresh_interval(i64::MIN), 5);
}

#[test]
fn settings_read_back_in_any_row_order() {
    let (saved, mut rows) = save(AppSettings {
        window_width: 500,
        window_height: 700,
        opacity: 80,
        margin_top: 12,
        margin_right: 30,
        global_refresh_interval_minutes: 45,
        max_items: 120,
    });
    rows.reverse();
    rows.swap(1, 4);
    assert_eq!(settings_from_entries(&rows).unwrap(), saved);
}
