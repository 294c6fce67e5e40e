//! The checks and results of the widget's user commands.
use vstd::prelude::*;
use crate::error::AppError;
use crate::models::{FeedInput, FeedTestResult, FeedUpdate, ParsedFeed};
use crate::text::{copy_string, trim, trim_text};
use crate::urls::{validate_http_url, validate_http_url_spec};

verus! {

/// Checks an edited feed before it is stored: its title must not be blank
/// and its address must be an http or https URL.
pub fn check_feed_update(feed: &FeedUpdate) -> (r: Result<(), AppError>)
    ensures
        trim(feed.title@).len() == 0 ==> r == Err::<(), AppError>(AppError::EmptyFeedTitle),
        trim(feed.title@).len() > 0 ==> match validate_http_url_spec(feed.url@) {
            Ok(_) => r == Ok::<(), AppError>(()),
            Err(e) => r == Err::<(), AppError>(e),
        },
{
    let title = trim_text(feed.title.as_str());
    if title.as_str().is_empty() {
        return Err(AppError::EmptyFeedTitle);
    }
    match validate_http_url(feed.url.as_str()) {
        Ok(_) => Ok(()),
        Err(e) => Err(e),
    }
}

/// A new subscription with its address checked and replaced by the URL's
/// serialization.
pub fn checked_feed_input(input: FeedInput) -> (r: Result<FeedInput, AppError>)
    ensures
        match validate_http_url_spec(input.url@) {
            Ok(text) => r matches Ok(checked) && checked.url@ == text && checked.title
                == input.title && checked.refresh_interval_minutes
                == input.refresh_interval_minutes,
            Err(e) => r == Err::<FeedInput, AppError>(e),
        },
{
    let url = validate_http_url(input.url.as_str())?;
    Ok(FeedInput { title: input.title, url, refresh_interval_minutes: input.refresh_interval_minutes })
}

/// A new subscription without an interval takes the global refresh interval.
pub fn with_default_interval(input: FeedInput, global_minutes: i64) -> (r: FeedInput)
    ensures
        r.title == input.title,
        r.url == input.url,
        r.refresh_interval_minutes == match input.refresh_interval_minutes {
            Some(m) => Some(m),
            None => Some(global_minutes),
        },
{
    match input.refresh_interval_minutes {
        Some(_) => input,
        None => FeedInput {
            title: input.title,
            url: input.url,
            refresh_interval_minutes: Some(global_minutes),
        },
    }
}

/// What a trial fetch of `url` reports: the feed's title and item count.
pub fn feed_test_result(url: String, parsed: &ParsedFeed) -> (r: FeedTestResult)
    ensures
        r.title@ == parsed.title@,
        r.url == url,
        r.item_count == parsed.items@.len(),
{
    FeedTestResult { title: copy_string(&parsed.title), url, item_count: parsed.items.len() }
}

} // verus!
