//! Byte-level scans of HTML and XML text that find the few spots the
//! rendering and feed parsing crates cannot handle: a table cell span that
//! reads as 0 (or as a number large enough to overflow the column count), and
//! a play time (an element text named `duration`, or a `start`, `end` or
//! `time` attribute of an element named `text` or `thumbnail`) that holds a
//! decimal digit other than an ASCII one, or a run of 16 or more digits.
//!
//! The scans follow how the markup is read: quoted values, character
//! references, CDATA sections, comments and processing instructions, UTF-8
//! text, and a document whose declared encoding is not UTF-8.
use vstd::prelude::*;

verus! {

/// `b` with an ASCII capital letter turned into its small letter.
pub open spec fn ascii_lower(b: u8) -> u8 {
    if 65 <= b <= 90 {
        (b + 32) as u8
    } else {
        b
    }
}

/// Whether `s` holds `pat` (written in small letters) at position `p`,
/// ignoring ASCII case.
pub open spec fn matches_at(s: Seq<u8>, p: int, pat: Seq<u8>) -> bool {
    &&& 0 <= p
    &&& p + pat.len() <= s.len()
    &&& forall|k: int| 0 <= k < pat.len() ==> ascii_lower(#[trigger] s[p + k]) == pat[k]
}

/// The first position at or after `p` where `pat` starts (or the end).
pub open spec fn find_pat(s: Seq<u8>, p: int, pat: Seq<u8>) -> int
    decreases s.len() - p,
{
    if p < 0 || p >= s.len() {
        s.len() as int
    } else if matches_at(s, p, pat) {
        p
    } else {
        find_pat(s, p + 1, pat)
    }
}

/// The first position at or after `p` that holds the byte `b` (or the end).
pub open spec fn find_byte(s: Seq<u8>, p: int, b: u8) -> int
    decreases s.len() - p,
{
    if p < 0 || p >= s.len() {
        s.len() as int
    } else if s[p] == b {
        p
    } else {
        find_byte(s, p + 1, b)
    }
}

/// HTML whitespace: tab, line feed, form feed, carriage return and space.
pub open spec fn is_space(b: u8) -> bool {
    b == 9 || b == 10 || b == 12 || b == 13 || b == 32
}

/// XML whitespace: tab, line feed, carriage return and space.
pub open spec fn is_xml_space(b: u8) -> bool {
    b == 9 || b == 10 || b == 13 || b == 32
}

/// A quote byte: `"` or `'`.
pub open spec fn is_quote(b: u8) -> bool {
    b == 34 || b == 39
}

/// An ASCII digit.
pub open spec fn is_ascii_digit(b: u8) -> bool {
    48 <= b <= 57
}

/// An ASCII hexadecimal digit, in either case.
pub open spec fn is_hex_byte(b: u8) -> bool {
    is_ascii_digit(b) || 97 <= b <= 102 || 65 <= b <= 70
}

/// The value of a hexadecimal digit byte.
pub open spec fn hex_byte_value(b: u8) -> int {
    if is_ascii_digit(b) {
        b - 48
    } else if 97 <= b <= 102 {
        b - 87
    } else {
        b - 55
    }
}

/// The first position at or after `p` that is not HTML whitespace.
pub open spec fn skip_space(s: Seq<u8>, p: int) -> int
    decreases s.len() - p,
{
    if 0 <= p < s.len() && is_space(s[p]) {
        skip_space(s, p + 1)
    } else {
        p
    }
}

/// The first position at or after `p` that is not XML whitespace.
pub open spec fn skip_xml_space(s: Seq<u8>, p: int) -> int
    decreases s.len() - p,
{
    if 0 <= p < s.len() && is_xml_space(s[p]) {
        skip_xml_space(s, p + 1)
    } else {
        p
    }
}

/// The first position at or after `p` that is not an ASCII digit.
pub open spec fn digits_end(s: Seq<u8>, p: int) -> int
    decreases s.len() - p,
{
    if 0 <= p < s.len() && is_ascii_digit(s[p]) {
        digits_end(s, p + 1)
    } else {
        p
    }
}

/// The first position at or after `p` that is not a hexadecimal digit.
pub open spec fn hex_end(s: Seq<u8>, p: int) -> int
    decreases s.len() - p,
{
    if 0 <= p < s.len() && is_hex_byte(s[p]) {
        hex_end(s, p + 1)
    } else {
        p
    }
}

/// The number that the decimal digits `s[a..e]` write.
pub open spec fn decimal_value(s: Seq<u8>, a: int, e: int) -> int
    decreases e - a,
{
    if e <= a {
        0
    } else {
        decimal_value(s, a, e - 1) * 10 + (s[e - 1] - 48)
    }
}

/// The number that the hexadecimal digits `s[a..e]` write.
pub open spec fn hex_value(s: Seq<u8>, a: int, e: int) -> int
    decreases e - a,
{
    if e <= a {
        0
    } else {
        hex_value(s, a, e - 1) * 16 + hex_byte_value(s[e - 1])
    }
}

// ---------------------------------------------------------------------------
// Table cell spans in HTML.

/// `colspan`.
pub open spec fn colspan_name() -> Seq<u8> {
    seq![99u8, 111u8, 108u8, 115u8, 112u8, 97u8, 110u8]
}

/// A byte after which an attribute name can start in a tag: whitespace, `/`,
/// or the closing quote of a value.
pub open spec fn attribute_lead(b: u8) -> bool {
    is_space(b) || b == 47 || is_quote(b)
}

/// A byte that ends an attribute name: whitespace, `/`, `>` or `=`.
pub open spec fn attribute_name_stop(b: u8) -> bool {
    is_space(b) || b == 47 || b == 62 || b == 61
}

/// Whether an attribute named `colspan` (in any ASCII case) starts at `p`.
pub open spec fn colspan_at(s: Seq<u8>, p: int) -> bool {
    &&& 1 <= p
    &&& attribute_lead(s[p - 1])
    &&& matches_at(s, p, colspan_name())
    &&& p + 7 < s.len()
    &&& attribute_name_stop(s[p + 7])
}

/// The first position at or after `p` that ends an unquoted attribute value.
pub open spec fn unquoted_end(s: Seq<u8>, p: int) -> int
    decreases s.len() - p,
{
    if 0 <= p < s.len() && !is_space(s[p]) && s[p] != 62 {
        unquoted_end(s, p + 1)
    } else {
        p
    }
}

/// The bounds of the value of the attribute whose name ends at `q`: empty
/// when no `=` follows, the text between the quotes of a quoted value, or an
/// unquoted value up to whitespace or `>`.
pub open spec fn attribute_value(s: Seq<u8>, q: int) -> (int, int) {
    let a = skip_space(s, q);
    if a < s.len() && s[a] == 61 {
        let b = skip_space(s, a + 1);
        if b < s.len() && is_quote(s[b]) {
            (b + 1, find_byte(s, b + 1, s[b]))
        } else {
            (b, unquoted_end(s, b))
        }
    } else {
        (a, a)
    }
}

/// Whether `s[a..e]` holds only `0` digits.
pub open spec fn all_zeros(s: Seq<u8>, a: int, e: int) -> bool {
    forall|k: int| a <= k < e ==> #[trigger] s[k] == 48
}

/// Whether `s[a..e]` holds an `&` (a character reference, which the HTML
/// reader decodes before the span is read).
pub open spec fn holds_reference(s: Seq<u8>, a: int, e: int) -> bool {
    exists|k: int| a <= k < e && #[trigger] s[k] == 38
}

/// Whether a span value `s[a..e]` may read as 0 or as a number of ten or
/// more digits: it holds a character reference, or it is an optional `+`
/// and ASCII digits that are all `0` or ten or more.
pub open spec fn span_risky(s: Seq<u8>, a: int, e: int) -> bool {
    let d = if a < e && s[a] == 43 {
        a + 1
    } else {
        a
    };
    ||| holds_reference(s, a, e)
    ||| (d < e && digits_end(s, d) >= e && (all_zeros(s, d, e) || e - d >= 10))
}

/// Whether no `colspan` attribute of the HTML bytes `s` may read as 0 or as
/// a number large enough to overflow the table's column count.
pub open spec fn spans_safe(s: Seq<u8>) -> bool {
    forall|p: int| #[trigger] colspan_at(s, p) ==> {
        let v = attribute_value(s, p + 7);
        !span_risky(s, v.0, v.1)
    }
}

// ---------------------------------------------------------------------------
// Play times in XML.

/// `<!--`.
pub open spec fn comment_open() -> Seq<u8> {
    seq![60u8, 33u8, 45u8, 45u8]
}

/// `-->`.
pub open spec fn comment_close() -> Seq<u8> {
    seq![45u8, 45u8, 62u8]
}

/// `<![CDATA[`, with its letters in small case (the match ignores case).
pub open spec fn cdata_open() -> Seq<u8> {
    seq![60u8, 33u8, 91u8, 99u8, 100u8, 97u8, 116u8, 97u8, 91u8]
}

/// `]]>`.
pub open spec fn cdata_close() -> Seq<u8> {
    seq![93u8, 93u8, 62u8]
}

/// `<?`.
pub open spec fn pi_open() -> Seq<u8> {
    seq![60u8, 63u8]
}

/// `?>`.
pub open spec fn pi_close() -> Seq<u8> {
    seq![63u8, 62u8]
}

/// `duration`.
pub open spec fn duration_name() -> Seq<u8> {
    seq![100u8, 117u8, 114u8, 97u8, 116u8, 105u8, 111u8, 110u8]
}

/// `text`.
pub open spec fn text_name() -> Seq<u8> {
    seq![116u8, 101u8, 120u8, 116u8]
}

/// `thumbnail`.
pub open spec fn thumbnail_name() -> Seq<u8> {
    seq![116u8, 104u8, 117u8, 109u8, 98u8, 110u8, 97u8, 105u8, 108u8]
}

/// `start`.
pub open spec fn start_name() -> Seq<u8> {
    seq![115u8, 116u8, 97u8, 114u8, 116u8]
}

/// `end`.
pub open spec fn end_name() -> Seq<u8> {
    seq![101u8, 110u8, 100u8]
}

/// `time`.
pub open spec fn time_name() -> Seq<u8> {
    seq![116u8, 105u8, 109u8, 101u8]
}

/// `encoding`.
pub open spec fn encoding_name() -> Seq<u8> {
    seq![101u8, 110u8, 99u8, 111u8, 100u8, 105u8, 110u8, 103u8]
}

/// `utf-8`.
pub open spec fn utf8_label() -> Seq<u8> {
    seq![117u8, 116u8, 102u8, 45u8, 56u8]
}

/// `utf8`.
pub open spec fn utf8_short_label() -> Seq<u8> {
    seq![117u8, 116u8, 102u8, 56u8]
}

/// A Unicode decimal digit (general category `Nd`) other than an ASCII one,
/// as the regular expression class `\d` knows them (Unicode 16).
pub open spec fn non_ascii_decimal(c: int) -> bool {
    ||| 0x660 <= c <= 0x669
    ||| 0x6F0 <= c <= 0x6F9
    ||| 0x7C0 <= c <= 0x7C9
    ||| 0x966 <= c <= 0x96F
    ||| 0x9E6 <= c <= 0x9EF
    ||| 0xA66 <= c <= 0xA6F
    ||| 0xAE6 <= c <= 0xAEF
    ||| 0xB66 <= c <= 0xB6F
    ||| 0xBE6 <= c <= 0xBEF
    ||| 0xC66 <= c <= 0xC6F
    ||| 0xCE6 <= c <= 0xCEF
    ||| 0xD66 <= c <= 0xD6F
    ||| 0xDE6 <= c <= 0xDEF
    ||| 0xE50 <= c <= 0xE59
    ||| 0xED0 <= c <= 0xED9
    ||| 0xF20 <= c <= 0xF29
    ||| 0x1040 <= c <= 0x1049
    ||| 0x1090 <= c <= 0x1099
    ||| 0x17E0 <= c <= 0x17E9
    ||| 0x1810 <= c <= 0x1819
    ||| 0x1946 <= c <= 0x194F
    ||| 0x19D0 <= c <= 0x19D9
    ||| 0x1A80 <= c <= 0x1A89
    ||| 0x1A90 <= c <= 0x1A99
    ||| 0x1B50 <= c <= 0x1B59
    ||| 0x1BB0 <= c <= 0x1BB9
    ||| 0x1C40 <= c <= 0x1C49
    ||| 0x1C50 <= c <= 0x1C59
    ||| 0xA620 <= c <= 0xA629
    ||| 0xA8D0 <= c <= 0xA8D9
    ||| 0xA900 <= c <= 0xA909
    ||| 0xA9D0 <= c <= 0xA9D9
    ||| 0xA9F0 <= c <= 0xA9F9
    ||| 0xAA50 <= c <= 0xAA59
    ||| 0xABF0 <= c <= 0xABF9
    ||| 0xFF10 <= c <= 0xFF19
    ||| 0x104A0 <= c <= 0x104A9
    ||| 0x10D30 <= c <= 0x10D39
    ||| 0x10D40 <= c <= 0x10D49
    ||| 0x11066 <= c <= 0x1106F
    ||| 0x110F0 <= c <= 0x110F9
    ||| 0x11136 <= c <= 0x1113F
    ||| 0x111D0 <= c <= 0x111D9
    ||| 0x112F0 <= c <= 0x112F9
    ||| 0x11450 <= c <= 0x11459
    ||| 0x114D0 <= c <= 0x114D9
    ||| 0x11650 <= c <= 0x11659
    ||| 0x116C0 <= c <= 0x116C9
    ||| 0x116D0 <= c <= 0x116E3
    ||| 0x11730 <= c <= 0x11739
    ||| 0x118E0 <= c <= 0x118E9
    ||| 0x11950 <= c <= 0x11959
    ||| 0x11BF0 <= c <= 0x11BF9
    ||| 0x11C50 <= c <= 0x11C59
    ||| 0x11D50 <= c <= 0x11D59
    ||| 0x11DA0 <= c <= 0x11DA9
    ||| 0x11F50 <= c <= 0x11F59
    ||| 0x16130 <= c <= 0x16139
    ||| 0x16A60 <= c <= 0x16A69
    ||| 0x16AC0 <= c <= 0x16AC9
    ||| 0x16B50 <= c <= 0x16B59
    ||| 0x16D70 <= c <= 0x16D79
    ||| 0x1CCF0 <= c <= 0x1CCF9
    ||| 0x1D7CE <= c <= 0x1D7FF
    ||| 0x1E140 <= c <= 0x1E149
    ||| 0x1E2F0 <= c <= 0x1E2F9
    ||| 0x1E4F0 <= c <= 0x1E4F9
    ||| 0x1E5F1 <= c <= 0x1E5FA
    ||| 0x1E950 <= c <= 0x1E959
    ||| 0x1FBF0 <= c <= 0x1FBF9
}

/// How a character counts in a play time: 1 for an ASCII digit, 2 for
/// another decimal digit, 0 for anything else.
pub open spec fn digit_kind(c: int) -> int {
    if 48 <= c <= 57 {
        1
    } else if non_ascii_decimal(c) {
        2
    } else {
        0
    }
}

/// The character reference `&#...;` at `p`: its kind (2 when it is not a
/// short well-formed reference) and the position after it.
pub open spec fn reference_unit(s: Seq<u8>, p: int) -> (int, int) {
    if p + 2 < s.len() && s[p + 2] == 120 {
        let d = hex_end(s, p + 3);
        if 1 <= d - (p + 3) <= 6 && d < s.len() && s[d] == 59 {
            (digit_kind(hex_value(s, p + 3, d)), d + 1)
        } else {
            (2, p + 1)
        }
    } else {
        let d = digits_end(s, p + 2);
        if 1 <= d - (p + 2) <= 7 && d < s.len() && s[d] == 59 {
            (digit_kind(decimal_value(s, p + 2, d)), d + 1)
        } else {
            (2, p + 1)
        }
    }
}

/// The UTF-8 character that starts with the byte at `p`: its kind and the
/// position after it. A byte that starts no character counts as one
/// character of kind 0 (the reader refuses such text before reading a play
/// time from it).
pub open spec fn utf8_unit(s: Seq<u8>, p: int) -> (int, int) {
    let b = s[p] as int;
    if 0xC0 <= b <= 0xDF && p + 1 < s.len() {
        (digit_kind((b % 32) * 64 + s[p + 1] % 64), p + 2)
    } else if 0xE0 <= b <= 0xEF && p + 2 < s.len() {
        (digit_kind((b % 16) * 4096 + (s[p + 1] % 64) * 64 + s[p + 2] % 64), p + 3)
    } else if 0xF0 <= b <= 0xF7 && p + 3 < s.len() {
        (
            digit_kind(
                (b % 8) * 262144 + (s[p + 1] % 64) * 4096 + (s[p + 2] % 64) * 64 + s[p + 3] % 64,
            ),
            p + 4,
        )
    } else {
        (0, p + 1)
    }
}

/// The character of text at `p` (0 <= p < s.len()): its kind and the
/// position after it. With `refs`, a character reference counts as the
/// character it writes. In a document not read as UTF-8 (`foreign`), every
/// byte above ASCII counts as a possible decimal digit.
pub open spec fn unit_at(s: Seq<u8>, p: int, foreign: bool, refs: bool) -> (int, int) {
    let b = s[p];
    if refs && b == 38 && p + 1 < s.len() && s[p + 1] == 35 {
        reference_unit(s, p)
    } else if b < 128 {
        (
            if is_ascii_digit(b) {
                1
            } else {
                0
            },
            p + 1,
        )
    } else if foreign {
        (2, p + 1)
    } else {
        utf8_unit(s, p)
    }
}

/// The position after the unit at `p`, at least one byte on.
pub open spec fn unit_next(s: Seq<u8>, p: int, foreign: bool, refs: bool) -> int {
    let q = unit_at(s, p, foreign, refs).1;
    if q > p {
        q
    } else {
        p + 1
    }
}

/// Whether the element text from `p` on (inside a CDATA section when
/// `cdata`; `run` digits just before `p`) holds no decimal digit other than
/// an ASCII one and no run of 16 or more digits. Comments and processing
/// instructions are skipped, CDATA sections read, and the text ends at the
/// next tag; any other markup declaration counts as unsafe.
pub open spec fn text_safe(s: Seq<u8>, p: int, run: int, foreign: bool, cdata: bool) -> bool
    decreases s.len() - p,
{
    if p < 0 || p >= s.len() {
        true
    } else if cdata && matches_at(s, p, cdata_close()) {
        text_safe(s, p + 3, run, foreign, false)
    } else if !cdata && s[p] == 60 {
        if matches_at(s, p, comment_open()) {
            let e = find_pat(s, p + 4, comment_close());
            e >= s.len() || e < p || e + 3 > s.len() || text_safe(s, e + 3, run, foreign, false)
        } else if matches_at(s, p, cdata_open()) {
            text_safe(s, p + 9, run, foreign, true)
        } else if matches_at(s, p, pi_open()) {
            let e = find_pat(s, p + 2, pi_close());
            e >= s.len() || e < p || e + 2 > s.len() || text_safe(s, e + 2, run, foreign, false)
        } else {
            !(p + 1 < s.len() && s[p + 1] == 33)
        }
    } else {
        let k = unit_at(s, p, foreign, !cdata).0;
        let q = unit_next(s, p, foreign, !cdata);
        if k == 2 {
            false
        } else if k == 1 {
            run + 1 < 16 && text_safe(s, q, run + 1, foreign, cdata)
        } else {
            text_safe(s, q, 0, foreign, cdata)
        }
    }
}

/// Whether the attribute value `s[p..e]` (`run` digits just before `p`)
/// holds no decimal digit other than an ASCII one and no run of 16 or more
/// digits, reading character references when `refs`.
pub open spec fn value_safe(s: Seq<u8>, p: int, e: int, run: int, foreign: bool, refs: bool) -> bool
    decreases s.len() - p,
{
    if p < 0 || p >= e || p >= s.len() {
        true
    } else {
        let k = unit_at(s, p, foreign, refs).0;
        let q = unit_next(s, p, foreign, refs);
        if k == 2 {
            false
        } else if k == 1 {
            run + 1 < 16 && value_safe(s, q, e, run + 1, foreign, refs)
        } else {
            value_safe(s, q, e, 0, foreign, refs)
        }
    }
}

/// The end of a tag from `p` on: the first `>` outside quoted values (or the
/// end); `quote` is the quote that `p` is inside of, or 0.
pub open spec fn tag_end(s: Seq<u8>, p: int, quote: u8) -> int
    decreases s.len() - p,
{
    if p < 0 || p >= s.len() {
        s.len() as int
    } else if quote != 0 {
        if s[p] == quote {
            tag_end(s, p + 1, 0)
        } else {
            tag_end(s, p + 1, quote)
        }
    } else if s[p] == 62 {
        p
    } else if is_quote(s[p]) {
        tag_end(s, p + 1, s[p])
    } else {
        tag_end(s, p + 1, 0)
    }
}

/// The end of the element name that starts at `p`: the first whitespace,
/// `>` or `/>` outside quotes (or the end).
pub open spec fn xml_name_end(s: Seq<u8>, p: int, quote: u8) -> int
    decreases s.len() - p,
{
    if p < 0 || p >= s.len() {
        s.len() as int
    } else if quote != 0 {
        if s[p] == quote {
            xml_name_end(s, p + 1, 0)
        } else {
            xml_name_end(s, p + 1, quote)
        }
    } else if is_xml_space(s[p]) || s[p] == 62 || (s[p] == 47 && p + 1 < s.len() && s[p + 1]
        == 62) {
        p
    } else if is_quote(s[p]) {
        xml_name_end(s, p + 1, s[p])
    } else {
        xml_name_end(s, p + 1, 0)
    }
}

/// Where the local part of the name `s[a..j]` starts: after its last `:`.
pub open spec fn local_start(s: Seq<u8>, a: int, j: int) -> int
    decreases j - a,
{
    if j <= a {
        a
    } else if s[j - 1] == 58 {
        j
    } else {
        local_start(s, a, j - 1)
    }
}

/// Whether the local name `s[l..j]` is `pat` (ignoring ASCII case).
pub open spec fn local_is(s: Seq<u8>, l: int, j: int, pat: Seq<u8>) -> bool {
    j - l == pat.len() && matches_at(s, l, pat)
}

/// Whether the element text of a start tag whose name ends at `j` is a safe
/// play time: the tag never closes, closes as an empty element, or is
/// followed by safe text.
pub open spec fn element_text_safe(s: Seq<u8>, j: int, foreign: bool) -> bool {
    let c = tag_end(s, j, 0);
    c >= s.len() || (c >= 1 && s[c - 1] == 47) || text_safe(s, c + 1, 0, foreign, false)
}

/// A byte after which an attribute name may start in an XML tag.
pub open spec fn key_lead(b: u8) -> bool {
    is_xml_space(b) || is_quote(b) || b == 61 || b == 47
}

/// Whether an attribute named `pat` (ignoring ASCII case) starts at `p`.
pub open spec fn key_at(s: Seq<u8>, p: int, pat: Seq<u8>) -> bool {
    &&& 1 <= p
    &&& key_lead(s[p - 1])
    &&& matches_at(s, p, pat)
    &&& p + pat.len() < s.len()
    &&& (is_xml_space(s[p + pat.len()]) || s[p + pat.len()] == 61)
}

/// Whether the value of the attribute whose name ends at `q` is a safe play
/// time, read with and without its character references (the reader keeps
/// the raw value when a reference cannot be read).
pub open spec fn attribute_value_safe(s: Seq<u8>, q: int, foreign: bool) -> bool {
    let a = skip_xml_space(s, q);
    (a < s.len() && s[a] == 61) ==> {
        let b = skip_xml_space(s, a + 1);
        (b < s.len() && is_quote(s[b])) ==> {
            let e = find_byte(s, b + 1, s[b]);
            e < s.len() ==> value_safe(s, b + 1, e, 0, foreign, true) && value_safe(
                s,
                b + 1,
                e,
                0,
                foreign,
                false,
            )
        }
    }
}

/// Whether the play-time attributes of a tag, from `p` on, are safe: `time`
/// for a thumbnail, `start` and `end` otherwise; `quote` is the quote that
/// `p` is inside of, or 0.
pub open spec fn attributes_safe(s: Seq<u8>, p: int, quote: u8, foreign: bool, thumbnail: bool) -> bool
    decreases s.len() - p,
{
    if p < 0 || p >= s.len() {
        true
    } else if quote != 0 {
        if s[p] == quote {
            attributes_safe(s, p + 1, 0, foreign, thumbnail)
        } else {
            attributes_safe(s, p + 1, quote, foreign, thumbnail)
        }
    } else if s[p] == 62 {
        true
    } else if is_quote(s[p]) {
        attributes_safe(s, p + 1, s[p], foreign, thumbnail)
    } else {
        &&& (thumbnail && key_at(s, p, time_name())) ==> attribute_value_safe(s, p + 4, foreign)
        &&& (!thumbnail && key_at(s, p, start_name())) ==> attribute_value_safe(s, p + 5, foreign)
        &&& (!thumbnail && key_at(s, p, end_name())) ==> attribute_value_safe(s, p + 3, foreign)
        &&& attributes_safe(s, p + 1, 0, foreign, thumbnail)
    }
}

/// Whether the tag that may start at `i` holds a safe play time: an element
/// whose local name is `duration` has safe text, and one named `text` or
/// `thumbnail` has safe play-time attributes.
pub open spec fn tag_ok(s: Seq<u8>, i: int, foreign: bool) -> bool {
    (0 <= i && i + 1 < s.len() && s[i] == 60 && s[i + 1] != 47 && s[i + 1] != 33 && s[i + 1]
        != 63) ==> {
        let j = xml_name_end(s, i + 1, 0);
        let l = local_start(s, i + 1, j);
        &&& local_is(s, l, j, duration_name()) ==> element_text_safe(s, j, foreign)
        &&& local_is(s, l, j, text_name()) ==> attributes_safe(s, j, 0, foreign, false)
        &&& local_is(s, l, j, thumbnail_name()) ==> attributes_safe(s, j, 0, foreign, true)
    }
}

/// Whether an `encoding` pseudo-attribute at `p` names an encoding other
/// than UTF-8.
pub open spec fn other_encoding_at(s: Seq<u8>, p: int) -> bool {
    let a = skip_xml_space(s, p + 8);
    let b = skip_xml_space(s, a + 1);
    let e = find_byte(s, b + 1, s[b]);
    &&& matches_at(s, p, encoding_name())
    &&& a < s.len()
    &&& s[a] == 61
    &&& b < s.len()
    &&& is_quote(s[b])
    &&& e < s.len()
    &&& !local_is(s, b + 1, e, utf8_label())
    &&& !local_is(s, b + 1, e, utf8_short_label())
}

/// Whether the document starts as UTF-16 text: a UTF-16 byte order mark, or
/// `<?` written in two bytes per character.
pub open spec fn utf16_start(s: Seq<u8>) -> bool {
    ||| (s.len() >= 2 && s[0] == 0xFE && s[1] == 0xFF)
    ||| (s.len() >= 2 && s[0] == 0xFF && s[1] == 0xFE)
    ||| (s.len() >= 4 && s[0] == 0 && s[1] == 60 && s[2] == 0 && s[3] == 63)
    ||| (s.len() >= 4 && s[0] == 60 && s[1] == 0 && s[2] == 63 && s[3] == 0)
}

/// Whether the document may be read in an encoding other than UTF-8.
pub open spec fn foreign_encoding(s: Seq<u8>) -> bool {
    utf16_start(s) || exists|p: int| #[trigger] other_encoding_at(s, p)
}

/// Whether every play time of the XML bytes `s` is within reach of the feed
/// parser: no play time holds a decimal digit other than an ASCII one or a
/// run of 16 or more digits, and a document that may be read in another
/// encoding than UTF-8 holds no NUL or escape byte (with those, a play time
/// could be written in a way that this scan does not read).
pub open spec fn play_times_safe(s: Seq<u8>) -> bool {
    let f = foreign_encoding(s);
    &&& f ==> forall|k: int| 0 <= k < s.len() ==> #[trigger] s[k] != 0 && s[k] != 27
    &&& forall|i: int| 0 <= i < s.len() ==> #[trigger] tag_ok(s, i, f)
}

// ---------------------------------------------------------------------------
// The scans.

fn lower(b: u8) -> (r: u8)
    ensures
        r == ascii_lower(b),
{
    if 65 <= b && b <= 90 {
        b + 32
    } else {
        b
    }
}

fn space(b: u8) -> (r: bool)
    ensures
        r == is_space(b),
{
    b == 9 || b == 10 || b == 12 || b == 13 || b == 32
}

fn xml_space(b: u8) -> (r: bool)
    ensures
        r == is_xml_space(b),
{
    b == 9 || b == 10 || b == 13 || b == 32
}

fn quote(b: u8) -> (r: bool)
    ensures
        r == is_quote(b),
{
    b == 34 || b == 39
}

fn digit(b: u8) -> (r: bool)
    ensures
        r == is_ascii_digit(b),
{
    48 <= b && b <= 57
}

fn hex_byte(b: u8) -> (r: bool)
    ensures
        r == is_hex_byte(b),
{
    (48 <= b && b <= 57) || (97 <= b && b <= 102) || (65 <= b && b <= 70)
}

fn matches(s: &[u8], p: usize, pat: &[u8]) -> (r: bool)
    ensures
        r == matches_at(s@, p as int, pat@),
{
    if p > s.len() || pat.len() > s.len() - p {
        return false;
    }
    let mut k: usize = 0;
    while k < pat.len()
        invariant
            p + pat.len() <= s.len(),
            k <= pat.len(),
            forall|m: int| 0 <= m < k ==> ascii_lower(#[trigger] s@[p + m]) == pat@[m],
        decreases pat.len() - k,
    {
        if lower(s[p + k]) != pat[k] {
            return false;
        }
        k += 1;
    }
    true
}

fn find_pattern(s: &[u8], p: usize, pat: &[u8]) -> (r: usize)
    requires
        p <= s.len(),
    ensures
        r == find_pat(s@, p as int, pat@),
        p <= r <= s.len(),
        r < s.len() ==> matches_at(s@, r as int, pat@),
{
    let mut i = p;
    while i < s.len() && !matches(s, i, pat)
        invariant
            p <= i,
            find_pat(s@, i as int, pat@) == find_pat(s@, p as int, pat@),
        decreases s.len() - i,
    {
        i += 1;
    }
    if i >= s.len() {
        s.len()
    } else {
        i
    }
}

fn find_byte_from(s: &[u8], p: usize, b: u8) -> (r: usize)
    requires
        p <= s.len(),
    ensures
        r == find_byte(s@, p as int, b),
        p <= r <= s.len(),
{
    let mut i = p;
    while i < s.len() && s[i] != b
        invariant
            p <= i,
            find_byte(s@, i as int, b) == find_byte(s@, p as int, b),
        decreases s.len() - i,
    {
        i += 1;
    }
    if i >= s.len() {
        s.len()
    } else {
        i
    }
}

fn skip_spaces(s: &[u8], p: usize) -> (r: usize)
    requires
        p <= s.len(),
    ensures
        r == skip_space(s@, p as int),
        p <= r <= s.len(),
{
    let mut i = p;
    while i < s.len() && space(s[i])
        invariant
            p <= i <= s.len(),
            skip_space(s@, i as int) == skip_space(s@, p as int),
        decreases s.len() - i,
    {
        i += 1;
    }
    i
}

fn skip_xml_spaces(s: &[u8], p: usize) -> (r: usize)
    requires
        p <= s.len(),
    ensures
        r == skip_xml_space(s@, p as int),
        p <= r <= s.len(),
{
    let mut i = p;
    while i < s.len() && xml_space(s[i])
        invariant
            p <= i <= s.len(),
            skip_xml_space(s@, i as int) == skip_xml_space(s@, p as int),
        decreases s.len() - i,
    {
        i += 1;
    }
    i
}

fn end_of_digits(s: &[u8], p: usize) -> (r: usize)
    requires
        p <= s.len(),
    ensures
        r == digits_end(s@, p as int),
        p <= r <= s.len(),
        forall|k: int| p <= k < r ==> is_ascii_digit(#[trigger] s@[k]),
{
    let mut i = p;
    while i < s.len() && digit(s[i])
        invariant
            p <= i <= s.len(),
            digits_end(s@, i as int) == digits_end(s@, p as int),
            forall|k: int| p <= k < i ==> is_ascii_digit(#[trigger] s@[k]),
        decreases s.len() - i,
    {
        i += 1;
    }
    i
}

fn end_of_hex(s: &[u8], p: usize) -> (r: usize)
    requires
        p <= s.len(),
    ensures
        r == hex_end(s@, p as int),
        p <= r <= s.len(),
        forall|k: int| p <= k < r ==> is_hex_byte(#[trigger] s@[k]),
{
    let mut i = p;
    while i < s.len() && hex_byte(s[i])
        invariant
            p <= i <= s.len(),
            hex_end(s@, i as int) == hex_end(s@, p as int),
            forall|k: int| p <= k < i ==> is_hex_byte(#[trigger] s@[k]),
        decreases s.len() - i,
    {
        i += 1;
    }
    i
}

fn decimal_of(s: &[u8], a: usize, e: usize) -> (r: u32)
    requires
        a <= e <= s.len(),
        e - a <= 7,
        forall|k: int| a <= k < e ==> is_ascii_digit(#[trigger] s@[k]),
    ensures
        r as int == decimal_value(s@, a as int, e as int),
{
    let mut v: u32 = 0;
    let mut k = a;
    while k < e
        invariant
            a <= k <= e <= s.len(),
            e - a <= 7,
            forall|m: int| a <= m < e ==> is_ascii_digit(#[trigger] s@[m]),
            v as int == decimal_value(s@, a as int, k as int),
            k - a <= 1 ==> v <= 9,
            k - a <= 2 ==> v <= 99,
            k - a <= 3 ==> v <= 999,
            k - a <= 4 ==> v <= 9_999,
            k - a <= 5 ==> v <= 99_999,
            k - a <= 6 ==> v <= 999_999,
            v <= 9_999_999,
        decreases e - k,
    {
        let d = s[k] - 48;
        assert(is_ascii_digit(s@[k as int]));
        v = v * 10 + d as u32;
        k += 1;
    }
    v
}

fn hex_digit_value(b: u8) -> (r: u32)
    requires
        is_hex_byte(b),
    ensures
        r as int == hex_byte_value(b),
        r < 16,
{
    if 48 <= b && b <= 57 {
        (b - 48) as u32
    } else if 97 <= b && b <= 102 {
        (b - 87) as u32
    } else {
        (b - 55) as u32
    }
}

fn hex_of(s: &[u8], a: usize, e: usize) -> (r: u32)
    requires
        a <= e <= s.len(),
        e - a <= 6,
        forall|k: int| a <= k < e ==> is_hex_byte(#[trigger] s@[k]),
    ensures
        r as int == hex_value(s@, a as int, e as int),
{
    let mut v: u32 = 0;
    let mut k = a;
    while k < e
        invariant
            a <= k <= e <= s.len(),
            e - a <= 6,
            forall|m: int| a <= m < e ==> is_hex_byte(#[trigger] s@[m]),
            v as int == hex_value(s@, a as int, k as int),
            k - a <= 1 ==> v <= 0xF,
            k - a <= 2 ==> v <= 0xFF,
            k - a <= 3 ==> v <= 0xFFF,
            k - a <= 4 ==> v <= 0xFFFF,
            k - a <= 5 ==> v <= 0xFFFFF,
            v <= 0xFFFFFF,
        decreases e - k,
    {
        assert(is_hex_byte(s@[k as int]));
        let d = hex_digit_value(s[k]);
        v = v * 16 + d;
        k += 1;
    }
    v
}

fn non_ascii_decimal_code(c: u32) -> (r: bool)
    ensures
        r == non_ascii_decimal(c as int),
{
    let c = c;
        (0x660 <= c && c <= 0x669) ||
        (0x6F0 <= c && c <= 0x6F9) ||
        (0x7C0 <= c && c <= 0x7C9) ||
        (0x966 <= c && c <= 0x96F) ||
        (0x9E6 <= c && c <= 0x9EF) ||
        (0xA66 <= c && c <= 0xA6F) ||
        (0xAE6 <= c && c <= 0xAEF) ||
        (0xB66 <= c && c <= 0xB6F) ||
        (0xBE6 <= c && c <= 0xBEF) ||
        (0xC66 <= c && c <= 0xC6F) ||
        (0xCE6 <= c && c <= 0xCEF) ||
        (0xD66 <= c && c <= 0xD6F) ||
        (0xDE6 <= c && c <= 0xDEF) ||
        (0xE50 <= c && c <= 0xE59) ||
        (0xED0 <= c && c <= 0xED9) ||
        (0xF20 <= c && c <= 0xF29) ||
        (0x1040 <= c && c <= 0x1049) ||
        (0x1090 <= c && c <= 0x1099) ||
        (0x17E0 <= c && c <= 0x17E9) ||
        (0x1810 <= c && c <= 0x1819) ||
        (0x1946 <= c && c <= 0x194F) ||
        (0x19D0 <= c && c <= 0x19D9) ||
        (0x1A80 <= c && c <= 0x1A89) ||
        (0x1A90 <= c && c <= 0x1A99) ||
        (0x1B50 <= c && c <= 0x1B59) ||
        (0x1BB0 <= c && c <= 0x1BB9) ||
        (0x1C40 <= c && c <= 0x1C49) ||
        (0x1C50 <= c && c <= 0x1C59) ||
        (0xA620 <= c && c <= 0xA629) ||
        (0xA8D0 <= c && c <= 0xA8D9) ||
        (0xA900 <= c && c <= 0xA909) ||
        (0xA9D0 <= c && c <= 0xA9D9) ||
        (0xA9F0 <= c && c <= 0xA9F9) ||
        (0xAA50 <= c && c <= 0xAA59) ||
        (0xABF0 <= c && c <= 0xABF9) ||
        (0xFF10 <= c && c <= 0xFF19) ||
        (0x104A0 <= c && c <= 0x104A9) ||
        (0x10D30 <= c && c <= 0x10D39) ||
        (0x10D40 <= c && c <= 0x10D49) ||
        (0x11066 <= c && c <= 0x1106F) ||
        (0x110F0 <= c && c <= 0x110F9) ||
        (0x11136 <= c && c <= 0x1113F) ||
        (0x111D0 <= c && c <= 0x111D9) ||
        (0x112F0 <= c && c <= 0x112F9) ||
        (0x11450 <= c && c <= 0x11459) ||
        (0x114D0 <= c && c <= 0x114D9) ||
        (0x11650 <= c && c <= 0x11659) ||
        (0x116C0 <= c && c <= 0x116C9) ||
        (0x116D0 <= c && c <= 0x116E3) ||
        (0x11730 <= c && c <= 0x11739) ||
        (0x118E0 <= c && c <= 0x118E9) ||
        (0x11950 <= c && c <= 0x11959) ||
        (0x11BF0 <= c && c <= 0x11BF9) ||
        (0x11C50 <= c && c <= 0x11C59) ||
        (0x11D50 <= c && c <= 0x11D59) ||
        (0x11DA0 <= c && c <= 0x11DA9) ||
        (0x11F50 <= c && c <= 0x11F59) ||
        (0x16130 <= c && c <= 0x16139) ||
        (0x16A60 <= c && c <= 0x16A69) ||
        (0x16AC0 <= c && c <= 0x16AC9) ||
        (0x16B50 <= c && c <= 0x16B59) ||
        (0x16D70 <= c && c <= 0x16D79) ||
        (0x1CCF0 <= c && c <= 0x1CCF9) ||
        (0x1D7CE <= c && c <= 0x1D7FF) ||
        (0x1E140 <= c && c <= 0x1E149) ||
        (0x1E2F0 <= c && c <= 0x1E2F9) ||
        (0x1E4F0 <= c && c <= 0x1E4F9) ||
        (0x1E5F1 <= c && c <= 0x1E5FA) ||
        (0x1E950 <= c && c <= 0x1E959) ||
        (0x1FBF0 <= c && c <= 0x1FBF9)
}

fn kind_of(c: u32) -> (r: u8)
    ensures
        r as int == digit_kind(c as int),
{
    if 48 <= c && c <= 57 {
        1
    } else if non_ascii_decimal_code(c) {
        2
    } else {
        0
    }
}

fn reference_kind(s: &[u8], p: usize) -> (r: (u8, usize))
    requires
        p + 1 < s.len(),
    ensures
        r.0 as int == reference_unit(s@, p as int).0,
        r.1 as int == reference_unit(s@, p as int).1,
        r.1 <= s.len(),
{
    if p + 2 < s.len() && s[p + 2] == 120 {
        let d = end_of_hex(s, p + 3);
        if 1 <= d - (p + 3) && d - (p + 3) <= 6 && d < s.len() && s[d] == 59 {
            (kind_of(hex_of(s, p + 3, d)), d + 1)
        } else {
            (2, p + 1)
        }
    } else {
        let d = end_of_digits(s, p + 2);
        if 1 <= d - (p + 2) && d - (p + 2) <= 7 && d < s.len() && s[d] == 59 {
            (kind_of(decimal_of(s, p + 2, d)), d + 1)
        } else {
            (2, p + 1)
        }
    }
}

fn utf8_kind(s: &[u8], p: usize) -> (r: (u8, usize))
    requires
        p < s.len(),
    ensures
        r.0 as int == utf8_unit(s@, p as int).0,
        r.1 as int == utf8_unit(s@, p as int).1,
        r.1 <= s.len(),
{
    let b = s[p] as u32;
    if 0xC0 <= b && b <= 0xDF && p + 1 < s.len() {
        (kind_of((b % 32) * 64 + (s[p + 1] % 64) as u32), p + 2)
    } else if 0xE0 <= b && b <= 0xEF && s.len() - p > 2 {
        (kind_of((b % 16) * 4096 + (s[p + 1] % 64) as u32 * 64 + (s[p + 2] % 64) as u32), p + 3)
    } else if 0xF0 <= b && b <= 0xF7 && s.len() - p > 3 {
        (
            kind_of(
                (b % 8) * 262144 + (s[p + 1] % 64) as u32 * 4096 + (s[p + 2] % 64) as u32 * 64 + (s[p
                    + 3] % 64) as u32,
            ),
            p + 4,
        )
    } else {
        (0, p + 1)
    }
}

fn unit(s: &[u8], p: usize, foreign: bool, refs: bool) -> (r: (u8, usize))
    requires
        p < s.len(),
    ensures
        r.0 as int == unit_at(s@, p as int, foreign, refs).0,
        r.1 as int == unit_next(s@, p as int, foreign, refs),
        p < r.1 <= s.len(),
{
    let b = s[p];
    let (k, q) = if refs && b == 38 && p + 1 < s.len() && s[p + 1] == 35 {
        reference_kind(s, p)
    } else if b < 128 {
        (
            if digit(b) {
                1
            } else {
                0
            },
            p + 1,
        )
    } else if foreign {
        (2, p + 1)
    } else {
        utf8_kind(s, p)
    };
    if q > p {
        (k, q)
    } else {
        (k, p + 1)
    }
}

fn text_is_safe(s: &[u8], p: usize, foreign: bool) -> (r: bool)
    ensures
        r == text_safe(s@, p as int, 0, foreign, false),
{
    let commentopen_bytes: Vec<u8> = vec![60, 33, 45, 45];
    let commentclose_bytes: Vec<u8> = vec![45, 45, 62];
    let cdataopen_bytes: Vec<u8> = vec![60, 33, 91, 99, 100, 97, 116, 97, 91];
    let cdataclose_bytes: Vec<u8> = vec![93, 93, 62];
    let piopen_bytes: Vec<u8> = vec![60, 63];
    let piclose_bytes: Vec<u8> = vec![63, 62];
    assert(commentopen_bytes@ =~= comment_open());
    assert(commentclose_bytes@ =~= comment_close());
    assert(cdataopen_bytes@ =~= cdata_open());
    assert(cdataclose_bytes@ =~= cdata_close());
    assert(piopen_bytes@ =~= pi_open());
    assert(piclose_bytes@ =~= pi_close());
    let mut i = p;
    let mut run: usize = 0;
    let mut cdata = false;
    while i < s.len()
        invariant
            p <= i,
            run < 16,
            commentopen_bytes@ == comment_open(),
            commentclose_bytes@ == comment_close(),
            cdataopen_bytes@ == cdata_open(),
            cdataclose_bytes@ == cdata_close(),
            piopen_bytes@ == pi_open(),
            piclose_bytes@ == pi_close(),
            text_safe(s@, i as int, run as int, foreign, cdata) == text_safe(
                s@,
                p as int,
                0,
                foreign,
                false,
            ),
        decreases s.len() - i,
    {
        if cdata && matches(s, i, cdataclose_bytes.as_slice()) {
            i = i + 3;
            cdata = false;
        } else if !cdata && s[i] == 60 {
            if matches(s, i, commentopen_bytes.as_slice()) {
                let e = find_pattern(s, i + 4, commentclose_bytes.as_slice());
                if e >= s.len() {
                    return true;
                }
                i = e + 3;
            } else if matches(s, i, cdataopen_bytes.as_slice()) {
                i = i + 9;
                cdata = true;
            } else if matches(s, i, piopen_bytes.as_slice()) {
                let e = find_pattern(s, i + 2, piclose_bytes.as_slice());
                if e >= s.len() {
                    return true;
                }
                i = e + 2;
            } else {
                return !(i + 1 < s.len() && s[i + 1] == 33);
            }
        } else {
            let (k, q) = unit(s, i, foreign, !cdata);
            if k == 2 {
                return false;
            } else if k == 1 {
                if run + 1 >= 16 {
                    return false;
                }
                run = run + 1;
            } else {
                run = 0;
            }
            i = q;
        }
    }
    true
}

fn value_is_safe(s: &[u8], p: usize, e: usize, foreign: bool, refs: bool) -> (r: bool)
    ensures
        r == value_safe(s@, p as int, e as int, 0, foreign, refs),
{
    let mut i = p;
    let mut run: usize = 0;
    while i < e && i < s.len()
        invariant
            p <= i,
            run < 16,
            value_safe(s@, i as int, e as int, run as int, foreign, refs) == value_safe(
                s@,
                p as int,
                e as int,
                0,
                foreign,
                refs,
            ),
        decreases s.len() - i,
    {
        let (k, q) = unit(s, i, foreign, refs);
        if k == 2 {
            return false;
        } else if k == 1 {
            if run + 1 >= 16 {
                return false;
            }
            run = run + 1;
        } else {
            run = 0;
        }
        i = q;
    }
    true
}

fn end_of_tag(s: &[u8], p: usize) -> (r: usize)
    ensures
        r == tag_end(s@, p as int, 0),
        r <= s.len(),
{
    let mut i = p;
    let mut q: u8 = 0;
    while i < s.len()
        invariant
            p <= i,
            tag_end(s@, i as int, q) == tag_end(s@, p as int, 0),
        decreases s.len() - i,
    {
        let b = s[i];
        if q != 0 {
            if b == q {
                q = 0;
            }
        } else if b == 62 {
            return i;
        } else if quote(b) {
            q = b;
        }
        i += 1;
    }
    s.len()
}

fn end_of_name(s: &[u8], p: usize) -> (r: usize)
    requires
        p <= s.len(),
    ensures
        r == xml_name_end(s@, p as int, 0),
        p <= r <= s.len(),
{
    let mut i = p;
    let mut q: u8 = 0;
    while i < s.len()
        invariant
            p <= i <= s.len(),
            xml_name_end(s@, i as int, q) == xml_name_end(s@, p as int, 0),
        decreases s.len() - i,
    {
        let b = s[i];
        if q != 0 {
            if b == q {
                q = 0;
            }
        } else if xml_space(b) || b == 62 || (b == 47 && i + 1 < s.len() && s[i + 1] == 62) {
            return i;
        } else if quote(b) {
            q = b;
        }
        i += 1;
    }
    s.len()
}

fn start_of_local(s: &[u8], a: usize, j: usize) -> (r: usize)
    requires
        a <= j <= s.len(),
    ensures
        r == local_start(s@, a as int, j as int),
        a <= r <= j,
{
    let mut k = j;
    while k > a && s[k - 1] != 58
        invariant
            a <= k <= j <= s.len(),
            local_start(s@, a as int, k as int) == local_start(s@, a as int, j as int),
        decreases k - a,
    {
        k -= 1;
    }
    k
}

fn local_name_is(s: &[u8], l: usize, j: usize, pat: &[u8]) -> (r: bool)
    requires
        l <= j,
    ensures
        r == local_is(s@, l as int, j as int, pat@),
{
    j - l == pat.len() && matches(s, l, pat)
}

fn element_text_is_safe(s: &[u8], j: usize, foreign: bool) -> (r: bool)
    ensures
        r == element_text_safe(s@, j as int, foreign),
{
    let c = end_of_tag(s, j);
    if c >= s.len() || (c >= 1 && s[c - 1] == 47) {
        true
    } else {
        text_is_safe(s, c + 1, foreign)
    }
}

fn key_is_at(s: &[u8], p: usize, pat: &[u8]) -> (r: bool)
    requires
        p < s.len(),
    ensures
        r == key_at(s@, p as int, pat@),
{
    if p < 1 {
        return false;
    }
    let b = s[p - 1];
    if !(xml_space(b) || quote(b) || b == 61 || b == 47) || !matches(s, p, pat) {
        return false;
    }
    if p + pat.len() >= s.len() {
        return false;
    }
    let c = s[p + pat.len()];
    xml_space(c) || c == 61
}

fn attribute_value_is_safe(s: &[u8], q: usize, foreign: bool) -> (r: bool)
    requires
        q <= s.len(),
    ensures
        r == attribute_value_safe(s@, q as int, foreign),
{
    let a = skip_xml_spaces(s, q);
    if !(a < s.len() && s[a] == 61) {
        return true;
    }
    let b = skip_xml_spaces(s, a + 1);
    if !(b < s.len() && quote(s[b])) {
        return true;
    }
    let e = find_byte_from(s, b + 1, s[b]);
    if e >= s.len() {
        return true;
    }
    value_is_safe(s, b + 1, e, foreign, true) && value_is_safe(s, b + 1, e, foreign, false)
}

fn attributes_are_safe(s: &[u8], p: usize, foreign: bool, thumbnail: bool) -> (r: bool)
    ensures
        r == attributes_safe(s@, p as int, 0, foreign, thumbnail),
{
    let start: Vec<u8> = vec![115, 116, 97, 114, 116];
    let end: Vec<u8> = vec![101, 110, 100];
    let time: Vec<u8> = vec![116, 105, 109, 101];
    assert(start@ =~= start_name());
    assert(end@ =~= end_name());
    assert(time@ =~= time_name());
    let mut i = p;
    let mut q: u8 = 0;
    while i < s.len()
        invariant
            p <= i,
            start@ == start_name(),
            end@ == end_name(),
            time@ == time_name(),
            attributes_safe(s@, i as int, q, foreign, thumbnail) == attributes_safe(
                s@,
                p as int,
                0,
                foreign,
                thumbnail,
            ),
        decreases s.len() - i,
    {
        let b = s[i];
        if q != 0 {
            if b == q {
                q = 0;
            }
        } else if b == 62 {
            return true;
        } else if quote(b) {
            q = b;
        } else {
            if thumbnail && key_is_at(s, i, time.as_slice()) {
                if !attribute_value_is_safe(s, i + 4, foreign) {
                    return false;
                }
            }
            if !thumbnail && key_is_at(s, i, start.as_slice()) {
                if !attribute_value_is_safe(s, i + 5, foreign) {
                    return false;
                }
            }
            if !thumbnail && key_is_at(s, i, end.as_slice()) {
                if !attribute_value_is_safe(s, i + 3, foreign) {
                    return false;
                }
            }
        }
        i += 1;
    }
    true
}

fn tag_is_ok(s: &[u8], i: usize, foreign: bool) -> (r: bool)
    requires
        i < s.len(),
    ensures
        r == tag_ok(s@, i as int, foreign),
{
    if !(i + 1 < s.len() && s[i] == 60 && s[i + 1] != 47 && s[i + 1] != 33 && s[i + 1] != 63) {
        return true;
    }
    let duration: Vec<u8> = vec![100, 117, 114, 97, 116, 105, 111, 110];
    let text: Vec<u8> = vec![116, 101, 120, 116];
    let thumbnail: Vec<u8> = vec![116, 104, 117, 109, 98, 110, 97, 105, 108];
    assert(duration@ =~= duration_name());
    assert(text@ =~= text_name());
    assert(thumbnail@ =~= thumbnail_name());
    let j = end_of_name(s, i + 1);
    let l = start_of_local(s, i + 1, j);
    if local_name_is(s, l, j, duration.as_slice()) && !element_text_is_safe(s, j, foreign) {
        return false;
    }
    if local_name_is(s, l, j, text.as_slice()) && !attributes_are_safe(s, j, foreign, false) {
        return false;
    }
    if local_name_is(s, l, j, thumbnail.as_slice()) && !attributes_are_safe(s, j, foreign, true) {
        return false;
    }
    true
}

fn other_encoding_is_at(s: &[u8], p: usize) -> (r: bool)
    requires
        p < s.len(),
    ensures
        r == other_encoding_at(s@, p as int),
{
    let encoding: Vec<u8> = vec![101, 110, 99, 111, 100, 105, 110, 103];
    let utf8: Vec<u8> = vec![117, 116, 102, 45, 56];
    let utf8_short: Vec<u8> = vec![117, 116, 102, 56];
    assert(encoding@ =~= encoding_name());
    assert(utf8@ =~= utf8_label());
    assert(utf8_short@ =~= utf8_short_label());
    if !matches(s, p, encoding.as_slice()) {
        return false;
    }
    let a = skip_xml_spaces(s, p + 8);
    if !(a < s.len() && s[a] == 61) {
        return false;
    }
    let b = skip_xml_spaces(s, a + 1);
    if !(b < s.len() && quote(s[b])) {
        return false;
    }
    let e = find_byte_from(s, b + 1, s[b]);
    e < s.len() && !local_name_is(s, b + 1, e, utf8.as_slice()) && !local_name_is(
        s,
        b + 1,
        e,
        utf8_short.as_slice(),
    )
}

fn encoding_is_foreign(s: &[u8]) -> (r: bool)
    ensures
        r == foreign_encoding(s@),
{
    if s.len() >= 2 && ((s[0] == 0xFE && s[1] == 0xFF) || (s[0] == 0xFF && s[1] == 0xFE)) {
        return true;
    }
    if s.len() >= 4 && ((s[0] == 0 && s[1] == 60 && s[2] == 0 && s[3] == 63) || (s[0] == 60
        && s[1] == 0 && s[2] == 63 && s[3] == 0)) {
        return true;
    }
    let mut i: usize = 0;
    while i < s.len()
        invariant
            i <= s.len(),
            !utf16_start(s@),
            forall|k: int| 0 <= k < i ==> !#[trigger] other_encoding_at(s@, k),
        decreases s.len() - i,
    {
        if other_encoding_is_at(s, i) {
            return true;
        }
        i += 1;
    }
    assert forall|k: int| !#[trigger] other_encoding_at(s@, k) by {
        if 0 <= k < s.len() {
        } else {
            assert(!matches_at(s@, k, encoding_name()));
        }
    }
    false
}

/// Whether every play time of the XML bytes `s` is within reach of the feed
/// parser (see `play_times_safe`).
pub fn play_times_are_safe(s: &[u8]) -> (r: bool)
    ensures
        r == play_times_safe(s@),
{
    let foreign = encoding_is_foreign(s);
    let mut i: usize = 0;
    while i < s.len()
        invariant
            i <= s.len(),
            foreign == foreign_encoding(s@),
            foreign ==> forall|k: int| 0 <= k < i ==> #[trigger] s@[k] != 0 && s@[k] != 27,
            forall|k: int| 0 <= k < i ==> #[trigger] tag_ok(s@, k, foreign),
        decreases s.len() - i,
    {
        if foreign && (s[i] == 0 || s[i] == 27) {
            return false;
        }
        if !tag_is_ok(s, i, foreign) {
            return false;
        }
        i += 1;
    }
    true
}

fn colspan_is_at(s: &[u8], p: usize, pat: &[u8]) -> (r: bool)
    requires
        p < s.len(),
        pat@ == colspan_name(),
    ensures
        r == colspan_at(s@, p as int),
{
    if p < 1 {
        return false;
    }
    let b = s[p - 1];
    if !(space(b) || b == 47 || quote(b)) || !matches(s, p, pat) || p + 7 >= s.len() {
        return false;
    }
    let c = s[p + 7];
    space(c) || c == 47 || c == 62 || c == 61
}

fn end_unquoted(s: &[u8], p: usize) -> (r: usize)
    requires
        p <= s.len(),
    ensures
        r == unquoted_end(s@, p as int),
        p <= r <= s.len(),
{
    let mut i = p;
    while i < s.len() && !space(s[i]) && s[i] != 62
        invariant
            p <= i <= s.len(),
            unquoted_end(s@, i as int) == unquoted_end(s@, p as int),
        decreases s.len() - i,
    {
        i += 1;
    }
    i
}

fn value_bounds(s: &[u8], q: usize) -> (r: (usize, usize))
    requires
        q <= s.len(),
    ensures
        r.0 as int == attribute_value(s@, q as int).0,
        r.1 as int == attribute_value(s@, q as int).1,
        r.0 <= s.len(),
        r.1 <= s.len(),
{
    let a = skip_spaces(s, q);
    if a < s.len() && s[a] == 61 {
        let b = skip_spaces(s, a + 1);
        if b < s.len() && quote(s[b]) {
            (b + 1, find_byte_from(s, b + 1, s[b]))
        } else {
            (b, end_unquoted(s, b))
        }
    } else {
        (a, a)
    }
}

fn span_is_risky(s: &[u8], a: usize, e: usize) -> (r: bool)
    requires
        a <= s.len(),
        e <= s.len(),
    ensures
        r == span_risky(s@, a as int, e as int),
{
    let mut k = a;
    while k < e
        invariant
            a <= k,
            e <= s.len(),
            forall|m: int| a <= m < k ==> #[trigger] s@[m] != 38,
        decreases e - k,
    {
        if s[k] == 38 {
            return true;
        }
        k += 1;
    }
    let d = if a < e && s[a] == 43 {
        a + 1
    } else {
        a
    };
    assert(!holds_reference(s@, a as int, e as int));
    if !(d < e && end_of_digits(s, d) >= e) {
        return false;
    }
    if e - d >= 10 {
        return true;
    }
    let mut k = d;
    while k < e
        invariant
            d <= k,
            e <= s.len(),
            e - d < 10,
            d as int == (if a < e && s@[a as int] == 43 {
                a + 1
            } else {
                a as int
            }),
            !holds_reference(s@, a as int, e as int),
            forall|m: int| d <= m < k ==> #[trigger] s@[m] == 48,
        decreases e - k,
    {
        if s[k] != 48 {
            assert(!all_zeros(s@, d as int, e as int));
            return false;
        }
        k += 1;
    }
    true
}

/// Whether no `colspan` attribute of the HTML bytes `s` may read as 0 or as
/// a number large enough to overflow the table's column count.
pub fn spans_are_safe(s: &[u8]) -> (r: bool)
    ensures
        r == spans_safe(s@),
{
    let pat: Vec<u8> = vec![99, 111, 108, 115, 112, 97, 110];
    assert(pat@ =~= colspan_name());
    let mut i: usize = 0;
    while i < s.len()
        invariant
            i <= s.len(),
            pat@ == colspan_name(),
            forall|p: int| 0 <= p < i ==> #[trigger] colspan_at(s@, p) ==> {
                let v = attribute_value(s@, p + 7);
                !span_risky(s@, v.0, v.1)
            },
        decreases s.len() - i,
    {
        if colspan_is_at(s, i, pat.as_slice()) {
            let (a, e) = value_bounds(s, i + 7);
            if span_is_risky(s, a, e) {
                return false;
            }
        }
        i += 1;
    }
    true
}

/// A `colspan` attribute whose quoted value is `0` makes HTML unsafe to
/// render, wherever it stands.
pub proof fn lemma_zero_span_is_unsafe(s: Seq<u8>, p: int)
    requires
        colspan_at(s, p),
        p + 10 < s.len(),
        s[p + 7] == 61,
        s[p + 8] == 34,
        s[p + 9] == 48,
        s[p + 10] == 34,
    ensures
        !spans_safe(s),
{
    assert(skip_space(s, p + 7) == p + 7);
    assert(skip_space(s, p + 8) == p + 8);
    assert(find_byte(s, p + 9, 34) == p + 10) by {
        assert(find_byte(s, p + 10, 34) == p + 10);
    }
    assert(digits_end(s, p + 9) == p + 10) by {
        assert(digits_end(s, p + 10) == p + 10);
    }
    assert(all_zeros(s, p + 9, p + 10));
}

/// A `duration` element (of any prefix) whose text starts with the UTF-8
/// form of a decimal digit other than an ASCII one (here U+0663, ARABIC-INDIC
/// DIGIT THREE) makes a document unsafe to parse, wherever it stands.
pub proof fn lemma_foreign_digit_duration_is_unsafe(s: Seq<u8>, i: int)
    requires
        0 <= i,
        i + 11 < s.len(),
        s[i] == 60,
        s.subrange(i + 1, i + 9) == duration_name(),
        s[i + 9] == 62,
        s[i + 10] == 0xD9,
        s[i + 11] == 0xA3,
    ensures
        !play_times_safe(s),
{
    let f = foreign_encoding(s);
    assert(s[i + 1] == duration_name()[0]);
    assert forall|k: int| 0 <= k < 8 implies ascii_lower(#[trigger] s[i + 1 + k])
        == duration_name()[k] by {
        assert(s[i + 1 + k] == s.subrange(i + 1, i + 9)[k]);
    }
    let j = i + 9;
    assert(xml_name_end(s, j, 0) == j);
    assert forall|q: int| i + 1 <= q <= j implies xml_name_end(s, q, 0) == j by {
        lemma_name_runs_to(s, q, j);
    }
    assert(local_start(s, i + 1, j) == i + 1) by {
        lemma_no_colon_local(s, i + 1, j);
    }
    assert(tag_end(s, j, 0) == j);
    assert(unit_at(s, i + 10, f, true).0 == 2);
    assert(!text_safe(s, i + 10, 0, f, false));
    assert(!tag_ok(s, i, f));
}

proof fn lemma_name_runs_to(s: Seq<u8>, q: int, j: int)
    requires
        0 <= q <= j < s.len(),
        s[j] == 62,
        forall|k: int| q <= k < j ==> !is_xml_space(#[trigger] s[k]) && s[k] != 62 && s[k] != 47
            && !is_quote(s[k]),
    ensures
        xml_name_end(s, q, 0) == j,
    decreases j - q,
{
    if q < j {
        lemma_name_runs_to(s, q + 1, j);
    }
}

proof fn lemma_no_colon_local(s: Seq<u8>, a: int, j: int)
    requires
        0 <= a <= j <= s.len(),
        forall|k: int| a <= k < j ==> #[trigger] s[k] != 58,
    ensures
        local_start(s, a, j) == a,
    decreases j - a,
{
    if a < j {
        lemma_no_colon_local(s, a, j - 1);
    }
}

proof fn lemma_digit_run_unsafe(s: Seq<u8>, p: int, m: int, run: int, foreign: bool)
    requires
        0 <= p,
        0 <= run,
        m >= 1,
        run + m >= 16,
        p + m <= s.len(),
        forall|k: int| p <= k < p + m ==> is_ascii_digit(#[trigger] s[k]),
    ensures
        !text_safe(s, p, run, foreign, false),
    decreases m,
{
    assert(is_ascii_digit(s[p]));
    assert(unit_at(s, p, foreign, true).0 == 1);
    assert(unit_next(s, p, foreign, true) == p + 1);
    if run + 1 < 16 {
        lemma_digit_run_unsafe(s, p + 1, m - 1, run + 1, foreign);
    }
}

/// A `duration` element (of any prefix) whose text starts with a run of 16
/// ASCII digits makes a document unsafe to parse, wherever it stands.
pub proof fn lemma_long_duration_is_unsafe(s: Seq<u8>, i: int)
    requires
        0 <= i,
        i + 26 <= s.len(),
        s[i] == 60,
        s.subrange(i + 1, i + 9) == duration_name(),
        s[i + 9] == 62,
        forall|k: int| i + 10 <= k < i + 26 ==> is_ascii_digit(#[trigger] s[k]),
    ensures
        !play_times_safe(s),
{
    let f = foreign_encoding(s);
    assert forall|k: int| 0 <= k < 8 implies ascii_lower(#[trigger] s[i + 1 + k])
        == duration_name()[k] by {
        assert(s[i + 1 + k] == s.subrange(i + 1, i + 9)[k]);
    }
    let j = i + 9;
    assert forall|q: int| i + 1 <= q <= j implies xml_name_end(s, q, 0) == j by {
        lemma_name_runs_to(s, q, j);
    }
    lemma_no_colon_local(s, i + 1, j);
    assert(tag_end(s, j, 0) == j);
    lemma_digit_run_unsafe(s, i + 10, 16, 0, f);
    assert(!tag_ok(s, i, f));
}

/// Text without any tag, NUL or escape byte holds no play time and is safe
/// to parse.
pub proof fn lemma_tagless_text_is_safe(s: Seq<u8>)
    requires
        forall|k: int| 0 <= k < s.len() ==> #[trigger] s[k] != 60 && s[k] != 0 && s[k] != 27,
    ensures
        play_times_safe(s),
{
    assert forall|i: int| 0 <= i < s.len() implies #[trigger] tag_ok(s, i, foreign_encoding(s)) by {
        assert(s[i] != 60);
    }
}

/// HTML without any `=` gives no attribute a value, so no span is unsafe.
pub proof fn lemma_valueless_html_is_safe(s: Seq<u8>)
    requires
        forall|k: int| 0 <= k < s.len() ==> #[trigger] s[k] != 61,
    ensures
        spans_safe(s),
{
    assert forall|p: int| #[trigger] colspan_at(s, p) implies !span_risky(
        s,
        attribute_value(s, p + 7).0,
        attribute_value(s, p + 7).1,
    ) by {
        let a = skip_space(s, p + 7);
        lemma_skip_space_bounds(s, p + 7);
        if a < s.len() {
            assert(s[a] != 61);
        }
    }
}

proof fn lemma_skip_space_bounds(s: Seq<u8>, p: int)
    requires
        0 <= p,
    ensures
        p <= skip_space(s, p),
        skip_space(s, p) < s.len() || skip_space(s, p) == p || skip_space(s, p) == s.len(),
    decreases s.len() - p,
{
    if 0 <= p < s.len() && is_space(s[p]) {
        lemma_skip_space_bounds(s, p + 1);
    }
}

} // verus!
