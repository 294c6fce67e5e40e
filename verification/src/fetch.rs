//! The decisions of fetching a feed over HTTP: a bounded number of attempts
//! with growing pauses between them, and a size limit on what is accepted.
//! The caller performs each request and reports what happened; each report
//! returns the next step.
use vstd::prelude::*;
use crate::error::AppError;
use crate::number::{decimal, decimal_u64};
use crate::text::string_of;

verus! {

/// A feed larger than this many bytes is refused.
pub const MAX_FEED_BYTES: u64 = 2_000_000;

/// A feed is requested at most this many times.
pub const MAX_FETCH_ATTEMPTS: u32 = 3;

/// The `Accept` header sent with every feed request.
pub const FEED_ACCEPT: &'static str =
    "application/rss+xml, application/atom+xml, application/xml, text/xml;q=0.9, */*;q=0.8";

/// The pause in milliseconds after the failed attempt number `attempt`.
pub fn retry_delay_for_attempt(attempt: u32) -> (ms: u64)
    ensures
        ms == 400 * attempt,
{
    400 * attempt as u64
}

/// What the caller does next.
#[derive(Debug, Clone, PartialEq, Eq)]
pub enum FetchStep {
    /// Read the response body, then report it.
    ReadBody,
    /// Keep the body that was read: the fetch succeeded.
    Accept,
    /// Wait this many milliseconds, then send the next request.
    RetryAfter(u64),
    /// Stop: the fetch failed.
    Fail(AppError),
}

/// The state of one feed fetch: the address, the number of the current
/// attempt, and the last failure seen.
pub struct FetchRetry {
    url: String,
    attempt: u32,
    last_error: String,
}

impl FetchRetry {
    #[verifier::type_invariant]
    spec fn attempts_in_range(self) -> bool {
        1 <= self.attempt <= MAX_FETCH_ATTEMPTS
    }

    /// The number of the current attempt; it is also the number of requests
    /// sent so far.
    pub closed spec fn attempt_spec(self) -> u32 {
        self.attempt
    }

    /// The address being fetched.
    pub closed spec fn url_spec(self) -> Seq<char> {
        self.url@
    }

    /// The last failure seen.
    pub closed spec fn last_error_spec(self) -> Seq<char> {
        self.last_error@
    }

    /// Starts a fetch of `url` at its first attempt.
    pub fn start(url: String) -> (r: FetchRetry)
        ensures
            r.attempt_spec() == 1,
            r.url_spec() == url@,
            r.last_error_spec() == "未知网络错误"@,
    {
        FetchRetry { url, attempt: 1, last_error: String::from_str("未知网络错误") }
    }

    /// The number of the current attempt, between 1 and `MAX_FETCH_ATTEMPTS`.
    pub fn attempt(&self) -> (r: u32)
        ensures
            r == self.attempt_spec(),
            1 <= r <= MAX_FETCH_ATTEMPTS,
    {
        proof {
            use_type_invariant(self);
        }
        self.attempt
    }

    /// Records a failed attempt: another attempt follows after a pause while
    /// attempts are left, otherwise the fetch fails with the last failure.
    fn record_failure(&mut self, message: String) -> (step: FetchStep)
        ensures
            final(self).url_spec() == old(self).url_spec(),
            final(self).last_error_spec() == message@,
            old(self).attempt_spec() < MAX_FETCH_ATTEMPTS ==> {
                &&& step == FetchStep::RetryAfter((400 * old(self).attempt_spec()) as u64)
                &&& final(self).attempt_spec() == old(self).attempt_spec() + 1
            },
            old(self).attempt_spec() == MAX_FETCH_ATTEMPTS ==> {
                &&& step matches FetchStep::Fail(AppError::FetchFailed { url, last_error })
                &&& url@ == old(self).url_spec()
                &&& last_error@ == message@
                &&& final(self).attempt_spec() == old(self).attempt_spec()
            },
    {
        proof {
            use_type_invariant(&*self);
        }
        let attempt = self.attempt;
        if attempt < MAX_FETCH_ATTEMPTS {
            self.last_error = message;
            self.attempt = attempt + 1;
            FetchStep::RetryAfter(retry_delay_for_attempt(attempt))
        } else {
            let url = self.url.clone();
            let last_error = message.clone();
            self.last_error = message;
            FetchStep::Fail(AppError::FetchFailed { url, last_error })
        }
    }

    /// The request could not be sent or answered; `message` says why.
    pub fn on_send_error(&mut self, message: String) -> (step: FetchStep)
        ensures
            final(self).url_spec() == old(self).url_spec(),
            final(self).last_error_spec() == message@,
            old(self).attempt_spec() < MAX_FETCH_ATTEMPTS ==> {
                &&& step == FetchStep::RetryAfter((400 * old(self).attempt_spec()) as u64)
                &&& final(self).attempt_spec() == old(self).attempt_spec() + 1
            },
            old(self).attempt_spec() == MAX_FETCH_ATTEMPTS ==> {
                &&& step matches FetchStep::Fail(AppError::FetchFailed { url, last_error })
                &&& url@ == old(self).url_spec()
                &&& last_error@ == message@
                &&& final(self).attempt_spec() == old(self).attempt_spec()
            },
    {
        self.record_failure(message)
    }

    /// A response arrived with HTTP status `status` and, when the server gave
    /// one, the declared body length. A status outside 200 to 299 is a failed
    /// attempt; a declared length over `MAX_FEED_BYTES` ends the fetch at
    /// once; otherwise the body is to be read.
    pub fn on_response(&mut self, status: u16, content_length: Option<u64>) -> (step: FetchStep)
        ensures
            final(self).url_spec() == old(self).url_spec(),
            !(200 <= status <= 299) ==> {
                let message = "订阅源返回 HTTP "@ + decimal(status as int);
                &&& final(self).last_error_spec() == message
                &&& old(self).attempt_spec() < MAX_FETCH_ATTEMPTS ==> {
                    &&& step == FetchStep::RetryAfter((400 * old(self).attempt_spec()) as u64)
                    &&& final(self).attempt_spec() == old(self).attempt_spec() + 1
                }
                &&& old(self).attempt_spec() == MAX_FETCH_ATTEMPTS ==> {
                    &&& step matches FetchStep::Fail(AppError::FetchFailed { url, last_error })
                    &&& url@ == old(self).url_spec()
                    &&& last_error@ == message
                    &&& final(self).attempt_spec() == old(self).attempt_spec()
                }
            },
            200 <= status <= 299 ==> {
                &&& final(self).attempt_spec() == old(self).attempt_spec()
                &&& final(self).last_error_spec() == old(self).last_error_spec()
                &&& step == if content_length matches Some(n) && n > MAX_FEED_BYTES {
                    FetchStep::Fail(AppError::FeedTooLarge)
                } else {
                    FetchStep::ReadBody
                }
            },
    {
        if status < 200 || status > 299 {
            let mut message = String::from_str("订阅源返回 HTTP ");
            let digits = string_of(&decimal_u64(status as u64));
            message.append(digits.as_str());
            return self.record_failure(message);
        }
        match content_length {
            Some(n) => if n > MAX_FEED_BYTES {
                FetchStep::Fail(AppError::FeedTooLarge)
            } else {
                FetchStep::ReadBody
            },
            None => FetchStep::ReadBody,
        }
    }

    /// The body was read and is `len` bytes long: it is kept when it is at
    /// most `MAX_FEED_BYTES` long, and the fetch fails otherwise.
    pub fn on_body(&self, len: usize) -> (step: FetchStep)
        ensures
            step == if len <= MAX_FEED_BYTES {
                FetchStep::Accept
            } else {
                FetchStep::Fail(AppError::FeedTooLarge)
            },
    {
        if len as u64 <= MAX_FEED_BYTES {
            FetchStep::Accept
        } else {
            FetchStep::Fail(AppError::FeedTooLarge)
        }
    }

    /// Reading the body failed; `message` says why. This is a failed attempt.
    pub fn on_body_error(&mut self, message: &str) -> (step: FetchStep)
        ensures
            final(self).url_spec() == old(self).url_spec(),
            final(self).last_error_spec() == "读取订阅源内容失败："@ + message@,
            old(self).attempt_spec() < MAX_FETCH_ATTEMPTS ==> {
                &&& step == FetchStep::RetryAfter((400 * old(self).attempt_spec()) as u64)
                &&& final(self).attempt_spec() == old(self).attempt_spec() + 1
            },
            old(self).attempt_spec() == MAX_FETCH_ATTEMPTS ==> {
                &&& step matches FetchStep::Fail(AppError::FetchFailed { url, last_error })
                &&& url@ == old(self).url_spec()
                &&& last_error@ == "读取订阅源内容失败："@ + message@
                &&& final(self).attempt_spec() == old(self).attempt_spec()
            },
    {
        let mut full = String::from_str("读取订阅源内容失败：");
        full.append(message);
        self.record_failure(full)
    }
}

} // verus!
