//! The records the widget stores and shows, and the bounds that settings keep.
use vstd::prelude::*;

verus! {

/// A subscribed feed.
#[derive(Debug, Clone, PartialEq, Eq)]
pub struct Feed {
    pub id: i64,
    pub title: String,
    pub url: String,
    pub enabled: bool,
    pub refresh_interval_minutes: i64,
    pub last_checked_at: Option<String>,
    pub last_error: Option<String>,
    pub created_at: String,
    pub updated_at: String,
}

/// A stored feed item, with the title of its feed.
#[derive(Debug, Clone, PartialEq, Eq)]
pub struct Item {
    pub id: i64,
    pub feed_id: i64,
    pub feed_title: String,
    pub title: String,
    pub link: Option<String>,
    pub author: Option<String>,
    pub published_at: Option<String>,
    pub content_text: String,
    pub content_html: Option<String>,
    pub read: bool,
    pub favorite: bool,
    pub guid: String,
    pub created_at: String,
}

/// Window and refresh preferences.
#[derive(Debug, Clone, Copy, PartialEq, Eq, Structural)]
pub struct AppSettings {
    pub window_width: i64,
    pub window_height: i64,
    pub opacity: i64,
    pub margin_top: i64,
    pub margin_right: i64,
    pub global_refresh_interval_minutes: i64,
    pub max_items: i64,
}

/// A new subscription as the user enters it.
#[derive(Debug, Clone, PartialEq, Eq)]
pub struct FeedInput {
    pub title: Option<String>,
    pub url: String,
    pub refresh_interval_minutes: Option<i64>,
}

/// The edited fields of an existing subscription.
#[derive(Debug, Clone, PartialEq, Eq)]
pub struct FeedUpdate {
    pub id: i64,
    pub title: String,
    pub url: String,
    pub enabled: bool,
    pub refresh_interval_minutes: i64,
}

/// A request for a page of items.
#[derive(Debug, Clone, PartialEq, Eq)]
pub struct ItemQuery {
    pub mode: String,
    pub search: Option<String>,
    pub feed_id: Option<i64>,
    pub limit: i64,
    pub offset: i64,
}

/// What one feed refresh did.
#[derive(Debug, Clone, PartialEq, Eq)]
pub struct RefreshSummary {
    pub feed_id: i64,
    pub feed_title: String,
    pub fetched: usize,
    pub inserted: usize,
    pub error: Option<String>,
}

/// What a trial fetch of a feed address found.
#[derive(Debug, Clone, PartialEq, Eq)]
pub struct FeedTestResult {
    pub title: String,
    pub url: String,
    pub item_count: usize,
}

/// One entry of the refresh log.
#[derive(Debug, Clone, PartialEq, Eq)]
pub struct RefreshLog {
    pub id: i64,
    pub feed_id: Option<i64>,
    pub feed_title: Option<String>,
    pub status: String,
    pub message: Option<String>,
    pub created_at: String,
}

/// A feed document reduced to what the widget keeps.
#[derive(Debug, Clone, PartialEq, Eq)]
pub struct ParsedFeed {
    pub title: String,
    pub items: Vec<ParsedItem>,
}

/// One entry of a feed document, ready to be stored.
#[derive(Debug, Clone, PartialEq, Eq)]
pub struct ParsedItem {
    pub guid: String,
    pub title: String,
    pub link: Option<String>,
    pub author: Option<String>,
    pub published_at: Option<String>,
    pub content_html: Option<String>,
    pub content_text: String,
}

/// The text of an optional string.
pub open spec fn opt_view(s: Option<String>) -> Option<Seq<char>> {
    match s {
        Some(t) => Some(t@),
        None => None,
    }
}

/// A parsed item as text values.
pub struct ParsedItemView {
    pub guid: Seq<char>,
    pub title: Seq<char>,
    pub link: Option<Seq<char>>,
    pub author: Option<Seq<char>>,
    pub published_at: Option<Seq<char>>,
    pub content_html: Option<Seq<char>>,
    pub content_text: Seq<char>,
}

/// A parsed feed as text values.
pub struct ParsedFeedView {
    pub title: Seq<char>,
    pub items: Seq<ParsedItemView>,
}

impl View for ParsedItem {
    type V = ParsedItemView;

    open spec fn view(&self) -> ParsedItemView {
        ParsedItemView {
            guid: self.guid@,
            title: self.title@,
            link: opt_view(self.link),
            author: opt_view(self.author),
            published_at: opt_view(self.published_at),
            content_html: opt_view(self.content_html),
            content_text: self.content_text@,
        }
    }
}

impl View for ParsedFeed {
    type V = ParsedFeedView;

    open spec fn view(&self) -> ParsedFeedView {
        ParsedFeedView { title: self.title@, items: self.items@.map_values(|i: ParsedItem| i@) }
    }
}

/// The settings a fresh installation starts with.
pub open spec fn default_settings() -> AppSettings {
    AppSettings {
        window_width: 520,
        window_height: 720,
        opacity: 86,
        margin_top: 18,
        margin_right: 18,
        global_refresh_interval_minutes: 15,
        max_items: 80,
    }
}

impl Default for AppSettings {
    fn default() -> (r: Self)
        ensures
            r == default_settings(),
    {
        AppSettings {
            window_width: 520,
            window_height: 720,
            opacity: 86,
            margin_top: 18,
            margin_right: 18,
            global_refresh_interval_minutes: 15,
            max_items: 80,
        }
    }
}

/// `value` raised to `min`, then lowered to `max` (`value.max(min).min(max)`).
pub open spec fn clamp_spec(value: int, min: int, max: int) -> int {
    let raised = if value >= min {
        value
    } else {
        min
    };
    if raised <= max {
        raised
    } else {
        max
    }
}

/// Every setting brought into its allowed range.
pub open spec fn normalize_settings_spec(s: AppSettings) -> AppSettings {
    AppSettings {
        window_width: clamp_spec(s.window_width as int, 360, 900) as i64,
        window_height: clamp_spec(s.window_height as int, 420, 1100) as i64,
        opacity: clamp_spec(s.opacity as int, 45, 100) as i64,
        margin_top: clamp_spec(s.margin_top as int, 0, 200) as i64,
        margin_right: clamp_spec(s.margin_right as int, 0, 200) as i64,
        global_refresh_interval_minutes: clamp_spec(
            s.global_refresh_interval_minutes as int,
            5,
            240,
        ) as i64,
        max_items: clamp_spec(s.max_items as int, 20, 200) as i64,
    }
}

/// Whether every setting lies in its allowed range.
pub open spec fn settings_in_range(s: AppSettings) -> bool {
    &&& 360 <= s.window_width <= 900
    &&& 420 <= s.window_height <= 1100
    &&& 45 <= s.opacity <= 100
    &&& 0 <= s.margin_top <= 200
    &&& 0 <= s.margin_right <= 200
    &&& 5 <= s.global_refresh_interval_minutes <= 240
    &&& 20 <= s.max_items <= 200
}

/// `value.max(min).min(max)`.
pub fn clamp(value: i64, min: i64, max: i64) -> (r: i64)
    ensures
        r == clamp_spec(value as int, min as int, max as int),
{
    let raised = if value >= min {
        value
    } else {
        min
    };
    if raised <= max {
        raised
    } else {
        max
    }
}

/// Brings every setting into its allowed range.
pub fn normalize_settings(settings: AppSettings) -> (r: AppSettings)
    ensures
        r == normalize_settings_spec(settings),
        settings_in_range(r),
{
    AppSettings {
        window_width: clamp(settings.window_width, 360, 900),
        window_height: clamp(settings.window_height, 420, 1100),
        opacity: clamp(settings.opacity, 45, 100),
        margin_top: clamp(settings.margin_top, 0, 200),
        margin_right: clamp(settings.margin_right, 0, 200),
        global_refresh_interval_minutes: clamp(settings.global_refresh_interval_minutes, 5, 240),
        max_items: clamp(settings.max_items, 20, 200),
    }
}

/// A refresh interval brought into 5 to 240 minutes.
pub fn normalize_refresh_interval(value: i64) -> (r: i64)
    ensures
        r == clamp_spec(value as int, 5, 240),
        5 <= r <= 240,
{
    clamp(value, 5, 240)
}

/// Normalized settings lie in their ranges, and settings that lie in their
/// ranges are left as they are; so normalizing twice is normalizing once.
pub proof fn lemma_normalize_settings(s: AppSettings)
    ensures
        settings_in_range(normalize_settings_spec(s)),
        settings_in_range(s) ==> normalize_settings_spec(s) == s,
        normalize_settings_spec(normalize_settings_spec(s)) == normalize_settings_spec(s),
{
}

/// The default settings already lie in their ranges.
pub proof fn lemma_default_settings_in_range()
    ensures
        settings_in_range(default_settings()),
        normalize_settings_spec(default_settings()) == default_settings(),
{
}

/// A normalized refresh interval lies in 5 to 240 minutes, and one that
/// already does is kept.
pub proof fn lemma_normalize_refresh_interval(value: i64)
    ensures
        5 <= clamp_spec(value as int, 5, 240) <= 240,
        5 <= value <= 240 ==> clamp_spec(value as int, 5, 240) == value,
        clamp_spec(clamp_spec(value as int, 5, 240), 5, 240) == clamp_spec(value as int, 5, 240),
{
}

/// Clamping keeps a value that lies between the bounds, and takes a value
/// below the lower bound to the lower bound and one above the upper bound to
/// the upper bound.
pub proof fn lemma_clamp(value: int, min: int, max: int)
    requires
        min <= max,
    ensures
        min <= clamp_spec(value, min, max) <= max,
        value < min ==> clamp_spec(value, min, max) == min,
        value > max ==> clamp_spec(value, min, max) == max,
        min <= value <= max ==> clamp_spec(value, min, max) == value,
{
}

/// Each setting is brought into its own range, field by field: the window
/// 360 to 900 wide and 420 to 1100 high, the opacity 45 to 100, both margins
/// 0 to 200, the refresh interval 5 to 240 minutes and the item count 20 to
/// 200; a value outside its range becomes the nearer bound.
pub proof fn lemma_normalize_settings_fields(s: AppSettings)
    ensures
        normalize_settings_spec(s).window_width == clamp_spec(s.window_width as int, 360, 900),
        normalize_settings_spec(s).window_height == clamp_spec(s.window_height as int, 420, 1100),
        normalize_settings_spec(s).opacity == clamp_spec(s.opacity as int, 45, 100),
        normalize_settings_spec(s).margin_top == clamp_spec(s.margin_top as int, 0, 200),
        normalize_settings_spec(s).margin_right == clamp_spec(s.margin_right as int, 0, 200),
        normalize_settings_spec(s).global_refresh_interval_minutes == clamp_spec(
            s.global_refresh_interval_minutes as int,
            5,
            240,
        ),
        normalize_settings_spec(s).max_items == clamp_spec(s.max_items as int, 20, 200),
        s.window_width < 360 ==> normalize_settings_spec(s).window_width == 360,
        s.window_width > 900 ==> normalize_settings_spec(s).window_width == 900,
        s.max_items < 20 ==> normalize_settings_spec(s).max_items == 20,
        s.max_items > 200 ==> normalize_settings_spec(s).max_items == 200,
        s.opacity < 45 ==> normalize_settings_spec(s).opacity == 45,
        s.global_refresh_interval_minutes < 5 ==> normalize_settings_spec(
            s,
        ).global_refresh_interval_minutes == 5,
        s.global_refresh_interval_minutes > 240 ==> normalize_settings_spec(
            s,
        ).global_refresh_interval_minutes == 240,
{
}

/// The settings a fresh installation starts with: a 520 by 720 window at 86
/// percent opacity, 18 from the top and right edges, refreshing every 15
/// minutes and showing 80 items.
pub proof fn lemma_default_settings_values()
    ensures
        default_settings().window_width == 520,
        default_settings().window_height == 720,
        default_settings().opacity == 86,
        default_settings().margin_top == 18,
        default_settings().margin_right == 18,
        default_settings().global_refresh_interval_minutes == 15,
        default_settings().max_items == 80,
{
}

} // verus!
