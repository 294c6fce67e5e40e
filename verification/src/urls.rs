//! Checking that a feed address is an absolute http or https URL.
use vstd::prelude::*;
use crate::error::AppError;
use crate::text::{trim, trim_text, text_is};

verus! {

/// The error of `url::Url::parse`.
#[verifier::external_type_specification]
#[verifier::external_body]
pub struct ExUrlParseError(url::ParseError);

/// What `url::Url::parse` makes of `input`: `None` when it fails, otherwise
/// the URL's scheme and its serialization.
pub uninterp spec fn url_parts(input: Seq<char>) -> Option<(Seq<char>, Seq<char>)>;

/// Calls `url::Url::parse` and returns the parsed URL's scheme and its
/// serialization. Claimed: the result is `url_parts(input)`, a function of the
/// input alone.
#[verifier::external_body]
fn parse_url(input: &str) -> (r: Result<(String, String), url::ParseError>)
    ensures
        match r {
            Ok((scheme, text)) => url_parts(input@) == Some((scheme@, text@)),
            Err(_) => url_parts(input@) is None,
        },
{
    url::Url::parse(input).map(|u| (u.scheme().to_string(), String::from(u)))
}

/// The result of checking a feed address `raw`.
pub open spec fn validate_http_url_spec(raw: Seq<char>) -> Result<Seq<char>, AppError> {
    match url_parts(trim(raw)) {
        None => Err(AppError::InvalidUrl),
        Some((scheme, text)) => if scheme == "http"@ || scheme == "https"@ {
            Ok(text)
        } else {
            Err(AppError::UnsupportedScheme)
        },
    }
}

/// Decides on a parsed address: only `http` and `https` are accepted, and the
/// URL's serialization is kept.
pub fn accept_http_url(parsed: Result<(String, String), url::ParseError>) -> (r: Result<
    String,
    AppError,
>)
    ensures
        match parsed {
            Err(_) => r == Err::<String, AppError>(AppError::InvalidUrl),
            Ok((scheme, text)) => if scheme@ == "http"@ || scheme@ == "https"@ {
                r matches Ok(t) && t@ == text@
            } else {
                r == Err::<String, AppError>(AppError::UnsupportedScheme)
            },
        },
{
    match parsed {
        Err(_) => Err(AppError::InvalidUrl),
        Ok((scheme, text)) => {
            if text_is(scheme.as_str(), "http") || text_is(scheme.as_str(), "https") {
                Ok(text)
            } else {
                Err(AppError::UnsupportedScheme)
            }
        },
    }
}

/// Checks that `raw`, trimmed, is an absolute `http` or `https` URL, and
/// returns its serialization.
pub fn validate_http_url(raw: &str) -> (r: Result<String, AppError>)
    ensures
        match validate_http_url_spec(raw@) {
            Ok(text) => r matches Ok(t) && t@ == text,
            Err(e) => r == Err::<String, AppError>(e),
        },
{
    let trimmed = trim_text(raw);
    let parsed = parse_url(trimmed.as_str());
    accept_http_url(parsed)
}

/// An address is accepted exactly when the URL parser reads it, trimmed, as
/// an `http` or `https` URL, and then its serialization is returned; one the
/// parser refuses is an invalid URL, and one with any other scheme (such as
/// `ftp` or `file`) is refused as unsupported.
pub proof fn lemma_http_only(raw: Seq<char>)
    ensures
        match url_parts(trim(raw)) {
            None => validate_http_url_spec(raw) == Err::<Seq<char>, AppError>(AppError::InvalidUrl),
            Some((scheme, text)) => {
                &&& (scheme == "http"@ || scheme == "https"@) ==> validate_http_url_spec(raw)
                    == Ok::<Seq<char>, AppError>(text)
                &&& (scheme != "http"@ && scheme != "https"@) ==> validate_http_url_spec(raw)
                    == Err::<Seq<char>, AppError>(AppError::UnsupportedScheme)
            },
        },
{
}

} // verus!
