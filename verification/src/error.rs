//! The errors the widget reports, and the text the user sees for each.
use vstd::prelude::*;

verus! {

/// Why an operation failed.
#[derive(Debug, Clone, PartialEq, Eq)]
pub enum AppError {
    /// The text is not a URL.
    InvalidUrl,
    /// The URL's scheme is neither `http` nor `https`.
    UnsupportedScheme,
    /// The bytes are not an RSS, Atom or JSON feed.
    FeedParse,
    /// The feed is larger than the size limit.
    FeedTooLarge,
    /// Every attempt to fetch the feed failed; the last failure is kept.
    FetchFailed { url: String, last_error: String },
    /// A feed was given a blank title.
    EmptyFeedTitle,
    /// A stored setting is not a decimal integer.
    InvalidNumericSetting,
    /// The item has no link to open.
    ItemHasNoLink,
    /// No feed has the requested id.
    FeedNotFound,
    /// The data store reported a failure.
    Storage(String),
}

/// The text shown for `e`.
pub open spec fn error_message(e: AppError) -> Seq<char> {
    match e {
        AppError::InvalidUrl => "URL 格式无效"@,
        AppError::UnsupportedScheme => "仅支持 http 或 https RSS 地址"@,
        AppError::FeedParse => "RSS/Atom/JSON Feed 解析失败"@,
        AppError::FeedTooLarge => "订阅源内容超过 2MB 限制"@,
        AppError::FetchFailed { url, last_error } => "请求订阅源失败："@ + url@ + "；"@
            + last_error@,
        AppError::EmptyFeedTitle => "订阅源名称不能为空"@,
        AppError::InvalidNumericSetting => "invalid numeric setting"@,
        AppError::ItemHasNoLink => "item has no link"@,
        AppError::FeedNotFound => "feed not found"@,
        AppError::Storage(message) => message@,
    }
}

impl AppError {
    /// The text shown for this error.
    pub fn message(&self) -> (r: String)
        ensures
            r@ == error_message(*self),
    {
        match self {
            AppError::InvalidUrl => String::from_str("URL 格式无效"),
            AppError::UnsupportedScheme => String::from_str("仅支持 http 或 https RSS 地址"),
            AppError::FeedParse => String::from_str("RSS/Atom/JSON Feed 解析失败"),
            AppError::FeedTooLarge => String::from_str("订阅源内容超过 2MB 限制"),
            AppError::FetchFailed { url, last_error } => {
                let mut r = String::from_str("请求订阅源失败：");
                r.append(url.as_str());
                r.append("；");
                r.append(last_error.as_str());
                r
            },
            AppError::EmptyFeedTitle => String::from_str("订阅源名称不能为空"),
            AppError::InvalidNumericSetting => String::from_str("invalid numeric setting"),
            AppError::ItemHasNoLink => String::from_str("item has no link"),
            AppError::FeedNotFound => String::from_str("feed not found"),
            AppError::Storage(message) => message.clone(),
        }
    }
}

/// The text a command reports for `error`.
pub fn to_command_error(error: &AppError) -> (r: String)
    ensures
        r@ == error_message(*error),
{
    error.message()
}

} // verus!
