//! When a feed is due for its next scheduled refresh.
use vstd::prelude::*;
use crate::models::Feed;

verus! {

/// The shortest interval between scheduled refreshes of a feed, in minutes.
pub const MIN_REFRESH_MINUTES: i64 = 5;

/// The longest interval, in minutes, that a duration can hold
/// (`chrono::TimeDelta::minutes` panics beyond it). It bounds a feed's
/// interval only where the interval is used: when its check time can be read.
pub const MAX_INTERVAL_MINUTES: i64 = 153_722_867_280_912;

/// The error of `chrono::DateTime::parse_from_rfc3339`.
#[verifier::external_type_specification]
#[verifier::external_body]
pub struct ExChronoParseError(chrono::ParseError);

/// The instant that `chrono::DateTime::parse_from_rfc3339` reads from `text`,
/// as seconds since the Unix epoch and the nanoseconds past that second;
/// `None` when parsing fails.
pub uninterp spec fn rfc3339_instant(text: Seq<char>) -> Option<(i64, u32)>;

/// Calls `chrono::DateTime::parse_from_rfc3339` and returns the instant's
/// `timestamp()` and `timestamp_subsec_nanos()`. Claimed: the result is
/// `rfc3339_instant(text)`, a function of the text alone.
#[verifier::external_body]
fn parse_rfc3339(text: &str) -> (r: Result<(i64, u32), chrono::ParseError>)
    ensures
        match r {
            Ok(t) => rfc3339_instant(text@) == Some(t),
            Err(_) => rfc3339_instant(text@) is None,
        },
{
    chrono::DateTime::parse_from_rfc3339(text).map(|d| (d.timestamp(), d.timestamp_subsec_nanos()))
}

/// An instant in nanoseconds since the Unix epoch.
pub open spec fn instant_nanos(secs: i64, nanos: u32) -> int {
    secs * 1_000_000_000 + nanos
}

/// The time from the instant `checked` to the instant `now`, in nanoseconds.
pub open spec fn elapsed_nanos(checked: (i64, u32), now_secs: i64, now_nanos: u32) -> int {
    instant_nanos(now_secs, now_nanos) - instant_nanos(checked.0, checked.1)
}

/// How long a feed with the given interval waits between scheduled
/// refreshes, in nanoseconds: the interval, or five minutes if it is shorter.
pub open spec fn wait_nanos(interval_minutes: i64) -> int {
    if interval_minutes > 5 {
        interval_minutes * 60_000_000_000
    } else {
        300_000_000_000
    }
}

/// Whether a feed last checked at `last_checked_at`, with the given refresh
/// interval, is due at the instant `now`: a feed never checked, or whose
/// check time cannot be read, is due; otherwise it is due once the interval
/// (at least `MIN_REFRESH_MINUTES`) has passed.
pub open spec fn is_due_spec(
    last_checked_at: Option<Seq<char>>,
    interval_minutes: i64,
    now_secs: i64,
    now_nanos: u32,
) -> bool {
    match last_checked_at {
        None => true,
        Some(text) => match rfc3339_instant(text) {
            None => true,
            Some((secs, nanos)) => {
                let minutes = if interval_minutes >= MIN_REFRESH_MINUTES {
                    interval_minutes as int
                } else {
                    MIN_REFRESH_MINUTES as int
                };
                instant_nanos(now_secs, now_nanos) - instant_nanos(secs, nanos) >= minutes * 60
                    * 1_000_000_000
            },
        },
    }
}

/// Decides, from the time of the last check read back from its text, whether
/// the feed is due at the instant `now`.
pub fn is_due_after(
    checked: Option<(i64, u32)>,
    interval_minutes: i64,
    now_secs: i64,
    now_nanos: u32,
) -> (r: bool)
    requires
        checked is Some ==> interval_minutes <= MAX_INTERVAL_MINUTES,
    ensures
        r == match checked {
            None => true,
            Some((secs, nanos)) => {
                let minutes = if interval_minutes >= MIN_REFRESH_MINUTES {
                    interval_minutes as int
                } else {
                    MIN_REFRESH_MINUTES as int
                };
                instant_nanos(now_secs, now_nanos) - instant_nanos(secs, nanos) >= minutes * 60
                    * 1_000_000_000
            },
        },
{
    match checked {
        None => true,
        Some((secs, nanos)) => {
            let minutes: i128 = if interval_minutes >= MIN_REFRESH_MINUTES {
                interval_minutes as i128
            } else {
                MIN_REFRESH_MINUTES as i128
            };
            let now = now_secs as i128 * 1_000_000_000 + now_nanos as i128;
            let then = secs as i128 * 1_000_000_000 + nanos as i128;
            now - then >= minutes * 60 * 1_000_000_000
        },
    }
}

/// Whether the refresh interval of `f` is within what a duration can hold
/// wherever it is used: when the feed's check time can be read.
pub open spec fn interval_in_range(f: Feed) -> bool {
    f.last_checked_at matches Some(t) && rfc3339_instant(t@) is Some
        ==> f.refresh_interval_minutes <= MAX_INTERVAL_MINUTES
}

/// Whether `feed` is due for a scheduled refresh at the instant `now`.
pub fn is_due(feed: &Feed, now_secs: i64, now_nanos: u32) -> (r: bool)
    requires
        interval_in_range(*feed),
    ensures
        r == feed_is_due(*feed, now_secs, now_nanos),
        feed.last_checked_at is None ==> r,
        feed.last_checked_at is Some && rfc3339_instant(feed.last_checked_at->0@) is None ==> r,
        feed.last_checked_at is Some && rfc3339_instant(feed.last_checked_at->0@) is Some ==> (r
            <==> elapsed_nanos(rfc3339_instant(feed.last_checked_at->0@)->0, now_secs, now_nanos)
            >= wait_nanos(feed.refresh_interval_minutes)),
{
    match &feed.last_checked_at {
        None => true,
        Some(text) => {
            let checked = match parse_rfc3339(text.as_str()) {
                Ok(t) => Some(t),
                Err(_) => None,
            };
            is_due_after(checked, feed.refresh_interval_minutes, now_secs, now_nanos)
        },
    }
}

/// Whether the feed `f` is due at the instant `now`.
pub open spec fn feed_is_due(f: Feed, now_secs: i64, now_nanos: u32) -> bool {
    is_due_spec(
        match f.last_checked_at {
            Some(t) => Some(t@),
            None => None,
        },
        f.refresh_interval_minutes,
        now_secs,
        now_nanos,
    )
}

/// The feeds of `feeds` that are due at the instant `now`, in their order.
pub fn due_feeds(feeds: Vec<Feed>, now_secs: i64, now_nanos: u32) -> (r: Vec<Feed>)
    requires
        forall|i: int| 0 <= i < feeds.len() ==> #[trigger] interval_in_range(feeds[i]),
    ensures
        r@ == feeds@.filter(|f: Feed| feed_is_due(f, now_secs, now_nanos)),
{
    let ghost pred = |f: Feed| feed_is_due(f, now_secs, now_nanos);
    let ghost all = feeds@;
    let mut out: Vec<Feed> = Vec::new();
    for feed in it: feeds.into_iter()
        invariant
            it.seq() == all,
            forall|i: int| 0 <= i < all.len() ==> #[trigger] interval_in_range(all[i]),
            pred == (|f: Feed| feed_is_due(f, now_secs, now_nanos)),
            out@ == all.take(it.index() as int).filter(pred),
    {
        let ghost k = it.index();
        proof {
            reveal_with_fuel(Seq::<_>::filter, 1);
            assert(all.take(k + 1).drop_last() =~= all.take(k as int));
            assert(all[k as int] == feed);
        }
        let due = is_due(&feed, now_secs, now_nanos);
        proof {
            let t = all.take(k + 1);
            assert(t.last() == feed);
            assert(due == pred(feed));
            assert(t.filter(pred) == if pred(feed) {
                all.take(k as int).filter(pred).push(feed)
            } else {
                all.take(k as int).filter(pred)
            });
        }
        if due {
            out.push(feed);
        }
    }
    assert(all.take(all.len() as int) =~= all);
    out
}

/// A feed whose check time reads as the instant `t` is due at `now` exactly
/// when at least its interval (five minutes at the least) has passed since
/// `t`, whatever the interval; a feed never checked, or whose check time
/// cannot be read, is always due.
pub proof fn lemma_due_after_interval(
    last_checked_at: Option<Seq<char>>,
    interval_minutes: i64,
    now_secs: i64,
    now_nanos: u32,
)
    ensures
        last_checked_at is None ==> is_due_spec(last_checked_at, interval_minutes, now_secs, now_nanos),
        last_checked_at is Some && rfc3339_instant(last_checked_at->0) is None ==> is_due_spec(
            last_checked_at,
            interval_minutes,
            now_secs,
            now_nanos,
        ),
        last_checked_at is Some && rfc3339_instant(last_checked_at->0) is Some ==> (is_due_spec(
            last_checked_at,
            interval_minutes,
            now_secs,
            now_nanos,
        ) <==> elapsed_nanos(rfc3339_instant(last_checked_at->0)->0, now_secs, now_nanos)
            >= wait_nanos(interval_minutes)),
{
}

/// A longer interval never makes a feed due sooner: if a feed is due with
/// some interval, it is due with any shorter one.
pub proof fn lemma_due_monotone(
    last_checked_at: Option<Seq<char>>,
    shorter: i64,
    longer: i64,
    now_secs: i64,
    now_nanos: u32,
)
    requires
        shorter <= longer,
        is_due_spec(last_checked_at, longer, now_secs, now_nanos),
    ensures
        is_due_spec(last_checked_at, shorter, now_secs, now_nanos),
{
}

} // verus!
