//! The values the widget writes to its data store and how it reads stored
//! flags back: new and edited feeds, item page requests, item links.
use vstd::prelude::*;
use crate::error::AppError;
use crate::models::{clamp, clamp_spec, normalize_refresh_interval, FeedInput, FeedUpdate, Feed, ItemQuery};
use crate::text::{copy_string, text_is, trim, trim_text};

verus! {

/// The refresh interval of a new feed when none is given, in minutes.
pub const DEFAULT_REFRESH_MINUTES: i64 = 15;

/// An item page holds at most this many items.
pub const MAX_PAGE_ITEMS: i64 = 200;

/// `1` for true and `0` for false, as the store keeps flags.
pub fn bool_to_i64(value: bool) -> (r: i64)
    ensures
        r == if value {
            1i64
        } else {
            0i64
        },
{
    if value {
        1
    } else {
        0
    }
}

/// A stored flag read back: any value but `0` is true.
pub fn flag_from_i64(value: i64) -> (r: bool)
    ensures
        r == (value != 0),
{
    value != 0
}

/// The values stored for a new feed.
#[derive(Debug, Clone, PartialEq, Eq)]
pub struct NewFeed {
    pub title: String,
    pub url: String,
    pub refresh_interval_minutes: i64,
}

/// The title of a new feed: the given title trimmed, unless that is blank,
/// else the title read from the feed, trimmed.
pub open spec fn new_feed_title(given: Option<Seq<char>>, inferred: Seq<char>) -> Seq<char> {
    match given {
        Some(t) => if trim(t).len() > 0 {
            trim(t)
        } else {
            trim(inferred)
        },
        None => trim(inferred),
    }
}

/// The values stored for a new feed: the chosen title, the trimmed address,
/// and the interval (15 minutes when none is given) brought into 5 to 240.
pub fn new_feed(input: &FeedInput, inferred_title: &str) -> (r: NewFeed)
    ensures
        input.title is None ==> r.title@ == trim(inferred_title@),
        input.title is Some && trim(input.title->0@).len() == 0 ==> r.title@ == trim(
            inferred_title@,
        ),
        input.title is Some && trim(input.title->0@).len() > 0 ==> r.title@ == trim(
            input.title->0@,
        ),
        r.title@ == new_feed_title(
            match input.title {
                Some(t) => Some(t@),
                None => None,
            },
            inferred_title@,
        ),
        r.url@ == trim(input.url@),
        r.refresh_interval_minutes == clamp_spec(
            match input.refresh_interval_minutes {
                Some(m) => m as int,
                None => DEFAULT_REFRESH_MINUTES as int,
            },
            5,
            240,
        ),
{
    let title = match &input.title {
        Some(t) => {
            let trimmed = trim_text(t.as_str());
            if trimmed.as_str().is_empty() {
                trim_text(inferred_title)
            } else {
                trimmed
            }
        },
        None => trim_text(inferred_title),
    };
    let interval = match input.refresh_interval_minutes {
        Some(m) => m,
        None => DEFAULT_REFRESH_MINUTES,
    };
    NewFeed {
        title,
        url: trim_text(input.url.as_str()),
        refresh_interval_minutes: normalize_refresh_interval(interval),
    }
}

/// The values stored for an edited feed.
#[derive(Debug, Clone, PartialEq, Eq)]
pub struct FeedChanges {
    pub id: i64,
    pub title: String,
    pub url: String,
    pub enabled: i64,
    pub refresh_interval_minutes: i64,
}

/// The values stored for an edited feed: trimmed title and address, the
/// enabled flag as a number, the interval brought into 5 to 240.
pub fn feed_changes(feed: &FeedUpdate) -> (r: FeedChanges)
    ensures
        r.id == feed.id,
        r.title@ == trim(feed.title@),
        r.url@ == trim(feed.url@),
        r.enabled == if feed.enabled {
            1i64
        } else {
            0i64
        },
        r.refresh_interval_minutes == clamp_spec(feed.refresh_interval_minutes as int, 5, 240),
{
    FeedChanges {
        id: feed.id,
        title: trim_text(feed.title.as_str()),
        url: trim_text(feed.url.as_str()),
        enabled: bool_to_i64(feed.enabled),
        refresh_interval_minutes: normalize_refresh_interval(feed.refresh_interval_minutes),
    }
}

/// The parameters of an item page request as the store receives them.
#[derive(Debug, Clone, PartialEq, Eq)]
pub struct ItemFilter {
    pub feed_id: Option<i64>,
    pub mode: String,
    pub search: Option<String>,
    pub limit: i64,
    pub offset: i64,
}

/// The mode of a page request: `unread` and `favorite` are kept, anything
/// else means `all`.
pub open spec fn filter_mode(mode: Seq<char>) -> Seq<char> {
    if mode == "unread"@ || mode == "favorite"@ {
        mode
    } else {
        "all"@
    }
}

/// An item page request made safe: the limit brought into 1 to 200, a
/// negative offset raised to 0, an unknown mode read as `all`, and the search
/// text trimmed, dropped when blank.
pub fn item_filter(query: &ItemQuery) -> (r: ItemFilter)
    ensures
        r.feed_id == query.feed_id,
        r.mode@ == filter_mode(query.mode@),
        query.mode@ == "favorite"@ ==> r.mode@ == "favorite"@,
        query.mode@ == "unread"@ ==> r.mode@ == "unread"@,
        query.mode@ != "favorite"@ && query.mode@ != "unread"@ ==> r.mode@ == "all"@,
        r.search is Some <==> (query.search is Some && trim(query.search->0@).len() > 0),
        r.search is Some ==> r.search->0@ == trim(query.search->0@),
        r.limit == clamp_spec(query.limit as int, 1, MAX_PAGE_ITEMS as int),
        r.offset == if query.offset >= 0 {
            query.offset
        } else {
            0i64
        },
{
    let mode = if text_is(query.mode.as_str(), "unread") || text_is(query.mode.as_str(), "favorite") {
        copy_string(&query.mode)
    } else {
        String::from_str("all")
    };
    let search = match &query.search {
        Some(s) => {
            let t = trim_text(s.as_str());
            if t.as_str().is_empty() {
                None
            } else {
                Some(t)
            }
        },
        None => None,
    };
    ItemFilter {
        feed_id: query.feed_id,
        mode,
        search,
        limit: clamp(query.limit, 1, MAX_PAGE_ITEMS),
        offset: if query.offset >= 0 {
            query.offset
        } else {
            0
        },
    }
}

/// The link of an item read from the store: missing when there is no such
/// item (`None`) or it has no link (`Some(None)`).
pub fn item_link(stored: Option<Option<String>>) -> (r: Result<String, AppError>)
    ensures
        match stored {
            Some(Some(link)) => r == Ok::<String, AppError>(link),
            _ => r == Err::<String, AppError>(AppError::ItemHasNoLink),
        },
{
    match stored {
        Some(Some(link)) => Ok(link),
        _ => Err(AppError::ItemHasNoLink),
    }
}

/// A feed read from the store by id: missing when there is no such feed.
pub fn found_feed(stored: Option<Feed>) -> (r: Result<Feed, AppError>)
    ensures
        match stored {
            Some(feed) => r == Ok::<Feed, AppError>(feed),
            None => r == Err::<Feed, AppError>(AppError::FeedNotFound),
        },
{
    match stored {
        Some(feed) => Ok(feed),
        None => Err(AppError::FeedNotFound),
    }
}

/// A new feed's title: the given title, trimmed, when it is not blank;
/// otherwise (no title, or a blank one) the title read from the feed,
/// trimmed.
pub proof fn lemma_new_feed_title(given: Option<Seq<char>>, inferred: Seq<char>)
    ensures
        given is None ==> new_feed_title(given, inferred) == trim(inferred),
        given is Some && trim(given->0).len() == 0 ==> new_feed_title(given, inferred) == trim(
            inferred,
        ),
        given is Some && trim(given->0).len() > 0 ==> new_feed_title(given, inferred) == trim(
            given->0,
        ),
{
}

/// The mode of a page request: `favorite` stays `favorite`, `unread` stays
/// `unread`, and every other mode becomes `all`; so the result is always one
/// of the three modes.
pub proof fn lemma_filter_modes(mode: Seq<char>)
    ensures
        filter_mode("favorite"@) == "favorite"@,
        filter_mode("unread"@) == "unread"@,
        mode != "favorite"@ && mode != "unread"@ ==> filter_mode(mode) == "all"@,
        filter_mode(mode) == "favorite"@ || filter_mode(mode) == "unread"@ || filter_mode(mode)
            == "all"@,
        filter_mode(mode) == "favorite"@ <==> mode == "favorite"@,
        filter_mode(mode) == "unread"@ <==> mode == "unread"@,
{
    reveal_strlit("favorite");
    reveal_strlit("unread");
    reveal_strlit("all");
}

} // verus!
