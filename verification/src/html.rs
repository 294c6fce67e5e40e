//! Plain text for an item's HTML content.
use vstd::prelude::*;
use crate::digest::utf8;
use crate::markup::{spans_are_safe, spans_safe};
use crate::text::{chars_of, clamp_chars_spec, nonblank_lines, nonblank_lines_spec};

verus! {

/// Text lines are wrapped at this many columns.
pub const TEXT_WIDTH: usize = 100;

/// Plain text is cut to this many characters.
pub const MAX_TEXT_CHARS: usize = 20_000;

/// The error of `html2text::from_read`.
#[verifier::external_type_specification]
#[verifier::external_body]
pub struct ExHtmlError(html2text::Error);

/// What `html2text::from_read` renders from the HTML bytes `html` at `width`
/// columns: `None` when it fails.
pub uninterp spec fn html_rendering(html: Seq<u8>, width: usize) -> Option<Seq<char>>;

/// Calls `html2text::from_read` on `html` with `width` columns. Claimed: the
/// result is `html_rendering(html, width)`, a function of the arguments alone.
/// A table cell whose `colspan` reads as 0 makes the call panic (and a huge
/// one can overflow the column count), so it is made only on HTML that
/// `spans_safe` accepts.
#[verifier::external_body]
fn render_html(html: &[u8], width: usize) -> (r: Result<String, html2text::Error>)
    requires
        spans_safe(html@),
    ensures
        match r {
            Ok(text) => html_rendering(html@, width) == Some(text@),
            Err(_) => html_rendering(html@, width) is None,
        },
{
    html2text::from_read(html, width)
}

/// The rendered text of `html`, or `html` itself when rendering fails or
/// is not attempted (a `colspan` that may read as 0 or as a number of ten or
/// more digits).
pub open spec fn rendered_or_source(html: Seq<char>) -> Seq<char> {
    if spans_safe(utf8(html)) {
        match html_rendering(utf8(html), TEXT_WIDTH) {
            Some(text) => text,
            None => html,
        }
    } else {
        html
    }
}

/// The plain text of `html`: its rendering, with each line trimmed, blank
/// lines dropped, and the result cut to `MAX_TEXT_CHARS` characters.
pub open spec fn html_to_text_spec(html: Seq<char>) -> Seq<char> {
    clamp_chars_spec(nonblank_lines_spec(rendered_or_source(html)), MAX_TEXT_CHARS as nat)
}

/// Cleans a rendering: each line trimmed, blank lines dropped, at most
/// `MAX_TEXT_CHARS` characters.
pub fn tidy_rendering(text: &str) -> (r: String)
    ensures
        r@ == clamp_chars_spec(nonblank_lines_spec(text@), MAX_TEXT_CHARS as nat),
        r@.len() <= MAX_TEXT_CHARS,
{
    let cs = chars_of(text);
    let lines = nonblank_lines(&cs);
    let mut out = String::new();
    let mut i: usize = 0;
    let n = if lines.len() <= MAX_TEXT_CHARS {
        lines.len()
    } else {
        MAX_TEXT_CHARS
    };
    while i < n
        invariant
            i <= n <= lines.len(),
            n <= MAX_TEXT_CHARS,
            out@ == lines@.take(i as int),
        decreases n - i,
    {
        out.push(lines[i]);
        i += 1;
    }
    assert(lines@.len() <= MAX_TEXT_CHARS ==> lines@.take(n as int) =~= lines@);
    out
}

/// The plain text of an item's HTML content. HTML with a `colspan` that may
/// read as 0 or as a number of ten or more digits is not rendered: its own
/// text is kept.
pub fn html_to_text(html: &str) -> (r: String)
    ensures
        r@ == html_to_text_spec(html@),
        r@.len() <= MAX_TEXT_CHARS,
        spans_safe(utf8(html@)) && html_rendering(utf8(html@), TEXT_WIDTH) is Some ==> r@
            == clamp_chars_spec(
            nonblank_lines_spec(html_rendering(utf8(html@), TEXT_WIDTH)->0),
            MAX_TEXT_CHARS as nat,
        ),
        !(spans_safe(utf8(html@)) && html_rendering(utf8(html@), TEXT_WIDTH) is Some) ==> r@
            == clamp_chars_spec(nonblank_lines_spec(html@), MAX_TEXT_CHARS as nat),
{
    let bytes = html.as_bytes();
    if spans_are_safe(bytes) {
        match render_html(bytes, TEXT_WIDTH) {
            Ok(text) => tidy_rendering(text.as_str()),
            Err(_) => tidy_rendering(html),
        }
    } else {
        tidy_rendering(html)
    }
}

/// The plain text of HTML is its rendering, tidied, whenever its spans are
/// safe and the renderer reads it, whatever characters it holds; the HTML's
/// own text, tidied, is used only when a span is unsafe or rendering fails.
pub proof fn lemma_html_text_is_rendering(html: Seq<char>)
    ensures
        spans_safe(utf8(html)) && html_rendering(utf8(html), TEXT_WIDTH) is Some
            ==> html_to_text_spec(html) == clamp_chars_spec(
            nonblank_lines_spec(html_rendering(utf8(html), TEXT_WIDTH)->0),
            MAX_TEXT_CHARS as nat,
        ),
        !(spans_safe(utf8(html)) && html_rendering(utf8(html), TEXT_WIDTH) is Some)
            ==> html_to_text_spec(html) == clamp_chars_spec(
            nonblank_lines_spec(html),
            MAX_TEXT_CHARS as nat,
        ),
{
}

} // verus!
