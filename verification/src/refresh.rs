//! What a feed refresh reports and records.
use vstd::prelude::*;
use crate::models::{Feed, RefreshSummary};
use crate::number::{decimal, decimal_u64};
use crate::text::string_of;

verus! {

/// The log status of a refresh that stored the feed's items.
pub const LOG_STATUS_SUCCESS: &'static str = "success";

/// The log status of a refresh that failed.
pub const LOG_STATUS_ERROR: &'static str = "error";

/// The log message of a successful refresh.
pub open spec fn success_message_spec(fetched: usize, inserted: usize) -> Seq<char> {
    "解析 "@ + decimal(fetched as int) + " 条，新增 "@ + decimal(inserted as int) + " 条"@
}

/// The log message of a successful refresh: how many items the feed held
/// and how many of them were new.
pub fn success_log_message(fetched: usize, inserted: usize) -> (r: String)
    ensures
        r@ == success_message_spec(fetched, inserted),
{
    let mut r = String::from_str("解析 ");
    r.append(string_of(&decimal_u64(fetched as u64)).as_str());
    r.append(" 条，新增 ");
    r.append(string_of(&decimal_u64(inserted as u64)).as_str());
    r.append(" 条");
    r
}

impl RefreshSummary {
    /// The summary of a refresh of `feed` that read `fetched` items and
    /// stored `inserted` new ones.
    pub fn succeeded(feed: Feed, fetched: usize, inserted: usize) -> (r: RefreshSummary)
        ensures
            r.feed_id == feed.id,
            r.feed_title == feed.title,
            r.fetched == fetched,
            r.inserted == inserted,
            r.error is None,
    {
        RefreshSummary { feed_id: feed.id, feed_title: feed.title, fetched, inserted, error: None }
    }

    /// The summary of a refresh of `feed` that failed with `message`.
    pub fn failed(feed: Feed, message: String) -> (r: RefreshSummary)
        ensures
            r.feed_id == feed.id,
            r.feed_title == feed.title,
            r.fetched == 0,
            r.inserted == 0,
            r.error == Some(message),
    {
        RefreshSummary {
            feed_id: feed.id,
            feed_title: feed.title,
            fetched: 0,
            inserted: 0,
            error: Some(message),
        }
    }
}

/// Whether any refresh stored a new item (the widget then announces that its
/// items changed).
pub fn any_inserted(summaries: &Vec<RefreshSummary>) -> (r: bool)
    ensures
        r == exists|i: int| 0 <= i < summaries@.len() && #[trigger] summaries@[i].inserted > 0,
{
    let mut i: usize = 0;
    while i < summaries.len()
        invariant
            i <= summaries.len(),
            forall|k: int| 0 <= k < i ==> #[trigger] summaries@[k].inserted == 0,
        decreases summaries.len() - i,
    {
        if summaries[i].inserted > 0 {
            return true;
        }
        i += 1;
    }
    false
}

} // verus!
