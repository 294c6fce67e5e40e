//! Reading an RSS, Atom or JSON feed document into the items the widget
//! stores: titles and authors on one line, a chosen link, bounded content,
//! plain text for display, and an identifier for every item.
use vstd::prelude::*;
use chrono::DateTime;
use feed_rs::parser::{parse, ParseFeedError};
use crate::digest::{identity_bytes, sha256_of, stable_hash, stable_hash_spec};
use crate::number::{is_hex_digit, lemma_hex_digits};
use crate::error::AppError;
use crate::markup::{play_times_are_safe, play_times_safe};
use crate::html::{html_to_text, html_to_text_spec, MAX_TEXT_CHARS};
use crate::models::{opt_view, ParsedFeed, ParsedFeedView, ParsedItem, ParsedItemView};
use crate::text::{
    chars_of, clamp_chars, clamp_chars_spec, copy_optional, copy_string, is_one_line,
    lemma_normalize_inline_one_line,
    is_whitespace, normalize_inline_chars, normalize_inline_spec, string_of, text_is, trim,
    trim_text,
};

verus! {

/// A feed keeps at most this many items.
pub const MAX_ITEMS: usize = 200;

/// An item's HTML content is cut to this many characters.
pub const MAX_CONTENT_CHARS: usize = 100_000;

/// A link of a feed entry.
#[derive(Debug, Clone, PartialEq, Eq)]
pub struct RawLink {
    pub href: String,
    pub rel: Option<String>,
}

/// The parts of a feed entry that the widget reads; dates are in RFC 3339.
#[derive(Debug, Clone, PartialEq, Eq)]
pub struct RawEntry {
    pub id: String,
    pub title: Option<String>,
    pub published: Option<String>,
    pub updated: Option<String>,
    pub authors: Vec<String>,
    pub content_body: Option<String>,
    pub summary: Option<String>,
    pub links: Vec<RawLink>,
}

/// The parts of a feed document that the widget reads.
#[derive(Debug, Clone, PartialEq, Eq)]
pub struct RawFeed {
    pub title: Option<String>,
    pub entries: Vec<RawEntry>,
}

/// A link as text values.
pub struct LinkView {
    pub href: Seq<char>,
    pub rel: Option<Seq<char>>,
}

/// An entry as text values.
pub struct EntryView {
    pub id: Seq<char>,
    pub title: Option<Seq<char>>,
    pub published: Option<Seq<char>>,
    pub updated: Option<Seq<char>>,
    pub authors: Seq<Seq<char>>,
    pub content_body: Option<Seq<char>>,
    pub summary: Option<Seq<char>>,
    pub links: Seq<LinkView>,
}

/// A feed document as text values.
pub struct DocumentView {
    pub title: Option<Seq<char>>,
    pub entries: Seq<EntryView>,
}

impl View for RawLink {
    type V = LinkView;

    open spec fn view(&self) -> LinkView {
        LinkView { href: self.href@, rel: opt_view(self.rel) }
    }
}

impl View for RawEntry {
    type V = EntryView;

    open spec fn view(&self) -> EntryView {
        EntryView {
            id: self.id@,
            title: opt_view(self.title),
            published: opt_view(self.published),
            updated: opt_view(self.updated),
            authors: self.authors@.map_values(|a: String| a@),
            content_body: opt_view(self.content_body),
            summary: opt_view(self.summary),
            links: self.links@.map_values(|l: RawLink| l@),
        }
    }
}

impl View for RawFeed {
    type V = DocumentView;

    open spec fn view(&self) -> DocumentView {
        DocumentView {
            title: opt_view(self.title),
            entries: self.entries@.map_values(|e: RawEntry| e@),
        }
    }
}

/// The error of `feed_rs::parser::parse`.
#[verifier::external_type_specification]
#[verifier::external_body]
pub struct ExParseFeedError(ParseFeedError);

/// The document that `feed_rs::parser::parse` reads from `bytes` (`None`
/// when it fails), with each entry's identifier as the document writes it
/// (empty when it writes none).
pub uninterp spec fn feed_document(bytes: Seq<u8>) -> Option<DocumentView>;

/// The identifier `feed_rs::parser::generate_id_from_link_and_title` makes
/// from a link address and an entry title.
pub uninterp spec fn link_title_id(href: Seq<char>, title: Option<Seq<char>>) -> Seq<char>;

/// `read` is the document `named` after the parser filled in missing entry
/// identifiers: everything is kept, an identifier the document wrote stays,
/// and an entry without one but with a link gets the link-and-title
/// identifier `generated_id` makes of them. (An entry with neither gets a random UUID, which is left
/// unstated.)
pub open spec fn ids_assigned(
    named: DocumentView,
    read: DocumentView,
    generated_id: spec_fn(Seq<char>, Option<Seq<char>>) -> Seq<char>,
) -> bool {
    &&& read.title == named.title
    &&& read.entries.len() == named.entries.len()
    &&& forall|i: int| #![trigger read.entries[i]] 0 <= i < read.entries.len() ==> {
        let n = named.entries[i];
        let r = read.entries[i];
        &&& r.title == n.title
        &&& r.published == n.published
        &&& r.updated == n.updated
        &&& r.authors == n.authors
        &&& r.content_body == n.content_body
        &&& r.summary == n.summary
        &&& r.links == n.links
        &&& n.id.len() > 0 ==> r.id == n.id
        &&& n.id.len() == 0 && n.links.len() > 0 ==> r.id == generated_id(
            n.links[0].href,
            n.title,
        )
    }
}

/// Calls `feed_rs::parser::parse` on `bytes` and keeps, of each entry, its id,
/// title, dates (as RFC 3339 text), author names, content body, summary and
/// links. Claimed: parsing fails exactly when `feed_document(bytes)` is
/// `None`, and otherwise the result is that document with identifiers filled
/// in as `ids_assigned` says. A play time (an iTunes `duration` text, or a
/// Media RSS `start`, `end` or `time` attribute) whose number overflows the
/// parser's 64-bit arithmetic, or that holds a decimal digit other than an
/// ASCII one, makes the parser panic, so the call is made only on documents
/// that `play_times_safe` accepts.
#[verifier::external_body]
fn read_feed_document(bytes: &[u8]) -> (r: Result<RawFeed, ParseFeedError>)
    requires
        play_times_safe(bytes@),
    ensures
        match r {
            Ok(doc) => feed_document(bytes@) matches Some(named) && ids_assigned(
                named,
                doc@,
                |href: Seq<char>, title: Option<Seq<char>>| link_title_id(href, title),
            ),
            Err(_) => feed_document(bytes@) is None,
        },
{
    parse(bytes).map(|feed| RawFeed {
        title: feed.title.map(|t| t.content),
        entries: feed.entries.into_iter().map(|e| RawEntry {
            id: e.id,
            title: e.title.map(|t| t.content),
            published: e.published.as_ref().map(DateTime::to_rfc3339),
            updated: e.updated.as_ref().map(DateTime::to_rfc3339),
            authors: e.authors.into_iter().map(|p| p.name).collect(),
            content_body: e.content.and_then(|c| c.body),
            summary: e.summary.map(|t| t.content),
            links: e.links.into_iter().map(|l| RawLink { href: l.href, rel: l.rel }).collect()
        }).collect()
    })
}

/// Whether a link points at the entry itself: its relation is `alternate`,
/// or it has none.
pub open spec fn is_alternate(l: LinkView) -> bool {
    match l.rel {
        Some(rel) => rel == "alternate"@,
        None => true,
    }
}

/// The first link that points at the entry itself.
pub open spec fn first_alternate(links: Seq<LinkView>) -> Option<LinkView>
    decreases links.len(),
{
    if links.len() == 0 {
        None
    } else if is_alternate(links[0]) {
        Some(links[0])
    } else {
        first_alternate(links.drop_first())
    }
}

/// An entry's link: the first that points at the entry itself, else the first
/// link of all.
pub open spec fn entry_link(links: Seq<LinkView>) -> Option<Seq<char>> {
    match first_alternate(links) {
        Some(l) => Some(l.href),
        None => if links.len() > 0 {
            Some(links[0].href)
        } else {
            None
        },
    }
}

/// A text on one line, unless that leaves nothing.
pub open spec fn one_line(t: Option<Seq<char>>) -> Option<Seq<char>> {
    match t {
        Some(x) => if normalize_inline_spec(x).len() > 0 {
            Some(normalize_inline_spec(x))
        } else {
            None
        },
        None => None,
    }
}

/// The feed's title on one line, else the address it was read from.
pub open spec fn feed_title_spec(source_url: Seq<char>, doc: DocumentView) -> Seq<char> {
    match one_line(doc.title) {
        Some(t) => t,
        None => source_url,
    }
}

/// An entry's title on one line, else its link, else a placeholder.
pub open spec fn entry_title(e: EntryView) -> Seq<char> {
    match one_line(e.title) {
        Some(t) => t,
        None => match entry_link(e.links) {
            Some(l) => l,
            None => "未命名条目"@,
        },
    }
}

/// The first author's name on one line.
pub open spec fn entry_author(e: EntryView) -> Option<Seq<char>> {
    if e.authors.len() > 0 {
        one_line(Some(e.authors[0]))
    } else {
        None
    }
}

/// The publication date, else the update date.
pub open spec fn entry_published(e: EntryView) -> Option<Seq<char>> {
    if e.published is Some {
        e.published
    } else {
        e.updated
    }
}

/// The content body, else the summary; trimmed, cut to `MAX_CONTENT_CHARS`,
/// and absent when that leaves nothing.
pub open spec fn entry_content_html(e: EntryView) -> Option<Seq<char>> {
    let raw = if e.content_body is Some {
        e.content_body
    } else {
        e.summary
    };
    match raw {
        Some(v) => {
            let c = clamp_chars_spec(trim(v), MAX_CONTENT_CHARS as nat);
            if c.len() > 0 {
                Some(c)
            } else {
                None
            }
        },
        None => None,
    }
}

/// The plain text of the content, else the title.
pub open spec fn entry_content_text(e: EntryView) -> Seq<char> {
    match entry_content_html(e) {
        Some(h) => if html_to_text_spec(h).len() > 0 {
            html_to_text_spec(h)
        } else {
            entry_title(e)
        },
        None => entry_title(e),
    }
}

/// The entry's own identifier, or the stable hash when it is blank.
pub open spec fn entry_guid(source_url: Seq<char>, e: EntryView) -> Seq<char> {
    if trim(e.id).len() == 0 {
        stable_hash_spec(source_url, entry_link(e.links), entry_title(e))
    } else {
        e.id
    }
}

/// What holds of a stored identifier made for an entry whose own identifier
/// is `id`: it is never blank, and one made by hashing is 64 lowercase
/// hexadecimal digits.
pub open spec fn guid_shape(id: Seq<char>, guid: Seq<char>) -> bool {
    &&& trim(guid).len() > 0
    &&& trim(id).len() == 0 ==> guid.len() == 64 && forall|k: int|
        0 <= k < guid.len() ==> is_hex_digit(#[trigger] guid[k])
}

/// The stored form of one entry.
pub open spec fn parsed_item_spec(source_url: Seq<char>, e: EntryView) -> ParsedItemView {
    ParsedItemView {
        guid: entry_guid(source_url, e),
        title: entry_title(e),
        link: entry_link(e.links),
        author: entry_author(e),
        published_at: entry_published(e),
        content_html: entry_content_html(e),
        content_text: entry_content_text(e),
    }
}

/// The stored form of a document: its title and its first `MAX_ITEMS`
/// entries.
pub open spec fn parsed_feed_spec(source_url: Seq<char>, doc: DocumentView) -> ParsedFeedView {
    let n = if doc.entries.len() <= MAX_ITEMS {
        doc.entries.len()
    } else {
        MAX_ITEMS as nat
    };
    ParsedFeedView {
        title: feed_title_spec(source_url, doc),
        items: Seq::new(n, |i: int| parsed_item_spec(source_url, doc.entries[i])),
    }
}

proof fn lemma_first_alternate_skip(links: Seq<LinkView>, i: int)
    requires
        0 <= i <= links.len(),
        forall|k: int| 0 <= k < i ==> !is_alternate(#[trigger] links[k]),
    ensures
        first_alternate(links) == first_alternate(links.skip(i)),
    decreases i,
{
    if i > 0 {
        assert(!is_alternate(links[0]));
        let t = links.drop_first();
        assert forall|k: int| 0 <= k < i - 1 implies !is_alternate(#[trigger] t[k]) by {
            assert(t[k] == links[k + 1]);
        }
        lemma_first_alternate_skip(t, i - 1);
        assert(t.skip(i - 1) =~= links.skip(i));
    } else {
        assert(links.skip(0) =~= links);
    }
}

/// An entry's link: the first that points at the entry itself, else the first
/// link of all.
pub fn select_link(links: &Vec<RawLink>) -> (r: Option<String>)
    ensures
        opt_view(r) == entry_link(links@.map_values(|l: RawLink| l@)),
{
    let ghost views = links@.map_values(|l: RawLink| l@);
    let mut i: usize = 0;
    while i < links.len()
        invariant
            i <= links.len(),
            views == links@.map_values(|l: RawLink| l@),
            forall|k: int| 0 <= k < i ==> !is_alternate(#[trigger] views[k]),
        decreases links.len() - i,
    {
        let alternate = match &links[i].rel {
            Some(rel) => text_is(rel.as_str(), "alternate"),
            None => true,
        };
        assert(views[i as int] == links@[i as int]@);
        if alternate {
            proof {
                lemma_first_alternate_skip(views, i as int);
                assert(views.skip(i as int)[0] == views[i as int]);
            }
            return Some(copy_string(&links[i].href));
        }
        i += 1;
    }
    proof {
        lemma_first_alternate_skip(views, links.len() as int);
        assert(views.skip(links.len() as int).len() == 0);
    }
    if links.len() > 0 {
        assert(views[0] == links@[0]@);
        Some(copy_string(&links[0].href))
    } else {
        None
    }
}

/// A text on one line, unless that leaves nothing.
fn one_line_text(t: Option<&String>) -> (r: Option<String>)
    ensures
        opt_view(r) == one_line(
            match t {
                Some(x) => Some(x@),
                None => None,
            },
        ),
{
    match t {
        Some(x) => {
            let cs = chars_of(x.as_str());
            let n = normalize_inline_chars(&cs);
            if n.len() > 0 {
                Some(string_of(&n))
            } else {
                None
            }
        },
        None => None,
    }
}

/// The stored form of one entry.
pub fn parse_entry(source_url: &str, e: &RawEntry) -> (r: ParsedItem)
    ensures
        r@ == parsed_item_spec(source_url@, e@),
        guid_shape(e.id@, r.guid@),
        e.authors@.len() == 0 ==> r@.author is None,
        e.authors@.len() > 0 && normalize_inline_spec(e.authors@[0]@).len() > 0 ==> r@.author
            == Some(normalize_inline_spec(e.authors@[0]@)),
        e.authors@.len() > 0 && normalize_inline_spec(e.authors@[0]@).len() == 0 ==> r@.author
            is None,
{
    let ghost ev = e@;
    let link = select_link(&e.links);
    let title = match one_line_text(e.title.as_ref()) {
        Some(t) => t,
        None => match &link {
            Some(l) => copy_string(l),
            None => String::from_str("未命名条目"),
        },
    };
    let author = if e.authors.len() > 0 {
        assert(ev.authors[0] == e.authors@[0]@);
        one_line_text(Some(&e.authors[0]))
    } else {
        None
    };
    let published_at = if e.published.is_some() {
        copy_optional(&e.published)
    } else {
        copy_optional(&e.updated)
    };
    let raw = if e.content_body.is_some() {
        &e.content_body
    } else {
        &e.summary
    };
    let content_html = match raw {
        Some(v) => {
            let trimmed = trim_text(v.as_str());
            let c = clamp_chars(trimmed.as_str(), MAX_CONTENT_CHARS);
            if c.as_str().is_empty() {
                None
            } else {
                Some(c)
            }
        },
        None => None,
    };
    let content_text = match &content_html {
        Some(h) => {
            let t = html_to_text(h.as_str());
            if t.as_str().is_empty() {
                copy_string(&title)
            } else {
                t
            }
        },
        None => copy_string(&title),
    };
    let id_trimmed = trim_text(e.id.as_str());
    let guid = if id_trimmed.as_str().is_empty() {
        let link_text: Option<&str> = match &link {
            Some(l) => Some(l.as_str()),
            None => None,
        };
        let h = stable_hash(source_url, link_text, title.as_str());
        proof {
            let digest = sha256_of(
                identity_bytes(source_url@, match link_text {
                    Some(l) => Some(l@),
                    None => None,
                }, title@),
            );
            lemma_hex_digits(digest);
            assert(!is_whitespace(h@[0]));
            assert(!is_whitespace(h@.last()));
            assert(trim(h@) == h@);
        }
        h
    } else {
        copy_string(&e.id)
    };
    ParsedItem { guid, title, link, author, published_at, content_html, content_text }
}

/// The stored form of a document read from `source_url`: its title and its
/// first `MAX_ITEMS` entries.
pub fn feed_from_document(source_url: &str, doc: &RawFeed) -> (r: ParsedFeed)
    ensures
        r@ == parsed_feed_spec(source_url@, doc@),
        r.items@.len() <= MAX_ITEMS,
        forall|k: int|
            0 <= k < r.items@.len() ==> guid_shape(doc@.entries[k].id, #[trigger] r.items@[k].guid@),
{
    let ghost dv = doc@;
    let title = match one_line_text(doc.title.as_ref()) {
        Some(t) => t,
        None => String::from_str(source_url),
    };
    let n = if doc.entries.len() <= MAX_ITEMS {
        doc.entries.len()
    } else {
        MAX_ITEMS
    };
    let mut items: Vec<ParsedItem> = Vec::new();
    let mut i: usize = 0;
    while i < n
        invariant
            i <= n <= doc.entries.len(),
            n <= MAX_ITEMS,
            dv == doc@,
            items@.len() == i,
            forall|k: int|
                0 <= k < i ==> #[trigger] items@[k]@ == parsed_item_spec(
                    source_url@,
                    dv.entries[k],
                ),
            forall|k: int| 0 <= k < i ==> guid_shape(dv.entries[k].id, #[trigger] items@[k].guid@),
        decreases n - i,
    {
        let item = parse_entry(source_url, &doc.entries[i]);
        assert(dv.entries[i as int] == doc.entries@[i as int]@);
        items.push(item);
        i += 1;
    }
    let r = ParsedFeed { title, items };
    assert(r@.items =~= parsed_feed_spec(source_url@, dv).items);
    r
}

/// Reads the feed document `bytes`, fetched from `source_url`, into the form
/// the widget stores. It succeeds exactly when the parser reads the document
/// and `play_times_safe` holds of it: a document with a play time that holds
/// a decimal digit other than an ASCII one, or a run of 16 or more digits,
/// is refused as unreadable, since the parser would panic on it.
pub fn parse_feed(source_url: &str, bytes: &[u8]) -> (r: Result<ParsedFeed, AppError>)
    ensures
        match r {
            Ok(feed) => play_times_safe(bytes@) && exists|doc: DocumentView|
                #![trigger parsed_feed_spec(source_url@, doc)]
                feed_document(bytes@) matches Some(named) && ids_assigned(
                    named,
                    doc,
                    |href: Seq<char>, title: Option<Seq<char>>| link_title_id(href, title),
                ) && feed@ == parsed_feed_spec(source_url@, doc) && forall|k: int|
                    0 <= k < feed.items@.len() ==> guid_shape(
                        doc.entries[k].id,
                        #[trigger] feed.items@[k].guid@,
                    ),
            Err(e) => e == AppError::FeedParse && (!play_times_safe(bytes@) || feed_document(
                bytes@,
            ) is None),
        },
        r is Ok <==> play_times_safe(bytes@) && feed_document(bytes@) is Some,
        r matches Ok(feed) ==> feed.items@.len() <= MAX_ITEMS,
        r matches Ok(feed) ==> forall|k: int|
            0 <= k < feed.items@.len() ==> trim(#[trigger] feed.items@[k].guid@).len() > 0,
{
    if !play_times_are_safe(bytes) {
        return Err(AppError::FeedParse);
    }
    match read_feed_document(bytes) {
        Ok(doc) => {
            let feed = feed_from_document(source_url, &doc);
            assert(feed@ == parsed_feed_spec(source_url@, doc@));
            Ok(feed)
        },
        Err(_) => Err(AppError::FeedParse),
    }
}

/// Every stored item keeps within the widget's bounds: its HTML content,
/// when present, is not empty and at most `MAX_CONTENT_CHARS` characters;
/// text made from that content is at most `MAX_TEXT_CHARS` characters; a
/// title or author taken from the document is on one line.
pub proof fn lemma_parsed_item_bounds(source_url: Seq<char>, e: EntryView)
    ensures
        parsed_item_spec(source_url, e).content_html matches Some(h) ==> 0 < h.len()
            <= MAX_CONTENT_CHARS,
        entry_content_html(e) matches Some(h) && html_to_text_spec(h).len() > 0 ==> parsed_item_spec(
            source_url,
            e,
        ).content_text.len() <= MAX_TEXT_CHARS,
        one_line(e.title) is Some ==> is_one_line(parsed_item_spec(source_url, e).title),
        parsed_item_spec(source_url, e).author matches Some(a) ==> is_one_line(a),
{
    if let Some(t) = e.title {
        lemma_normalize_inline_one_line(t);
    }
    if e.authors.len() > 0 {
        lemma_normalize_inline_one_line(e.authors[0]);
    }
}

/// A stored item's author is its entry's first author, on one line: absent
/// when the entry names no author or the first name is blank, whatever the
/// other authors are.
pub proof fn lemma_item_author_is_first(source_url: Seq<char>, e: EntryView)
    ensures
        e.authors.len() == 0 ==> parsed_item_spec(source_url, e).author is None,
        e.authors.len() > 0 && normalize_inline_spec(e.authors[0]).len() > 0 ==> parsed_item_spec(
            source_url,
            e,
        ).author == Some(normalize_inline_spec(e.authors[0])),
        e.authors.len() > 0 && normalize_inline_spec(e.authors[0]).len() == 0 ==> parsed_item_spec(
            source_url,
            e,
        ).author is None,
{
}

/// A stored item's link is the address of the first link whose relation is
/// `alternate` or missing; when no link is such, the first link's address;
/// and none when the entry has no link.
pub proof fn lemma_item_link(links: Seq<LinkView>, i: int)
    requires
        0 <= i < links.len(),
        forall|k: int| 0 <= k < i ==> !is_alternate(#[trigger] links[k]),
    ensures
        (links[i].rel is None || links[i].rel == Some("alternate"@)) ==> entry_link(links) == Some(
            links[i].href,
        ),
        (forall|k: int| 0 <= k < links.len() ==> !is_alternate(#[trigger] links[k]))
            ==> entry_link(links) == Some(links[0].href),
{
    lemma_first_alternate_skip(links, i);
    assert(links.skip(i)[0] == links[i]);
    if forall|k: int| 0 <= k < links.len() ==> !is_alternate(#[trigger] links[k]) {
        lemma_first_alternate_skip(links, links.len() as int);
        assert(links.skip(links.len() as int).len() == 0);
    }
}

/// An entry without links gives an item without a link.
pub proof fn lemma_item_without_links(links: Seq<LinkView>)
    requires
        links.len() == 0,
    ensures
        entry_link(links) is None,
{
}

/// A stored item's fields, from the entry it is read from: the title is the
/// entry's title on one line when that is not blank, else the link, else the
/// placeholder; the date is the publication date, else the update date; the
/// HTML content is the body (else the summary), trimmed and cut to its first
/// `MAX_CONTENT_CHARS` characters, absent when nothing is left; the text is
/// the plain text of that content when not empty, else the title.
pub proof fn lemma_item_fields(source_url: Seq<char>, e: EntryView)
    ensures
        e.title is Some && normalize_inline_spec(e.title->0).len() > 0 ==> parsed_item_spec(
            source_url,
            e,
        ).title == normalize_inline_spec(e.title->0),
        (e.title is None || normalize_inline_spec(e.title->0).len() == 0) ==> parsed_item_spec(
            source_url,
            e,
        ).title == match entry_link(e.links) {
            Some(l) => l,
            None => "未命名条目"@,
        },
        e.published is Some ==> parsed_item_spec(source_url, e).published_at == e.published,
        e.published is None ==> parsed_item_spec(source_url, e).published_at == e.updated,
        e.content_body is Some ==> parsed_item_spec(source_url, e).content_html == if trim(
            e.content_body->0,
        ).len() == 0 {
            None::<Seq<char>>
        } else if trim(e.content_body->0).len() <= MAX_CONTENT_CHARS {
            Some(trim(e.content_body->0))
        } else {
            Some(trim(e.content_body->0).take(MAX_CONTENT_CHARS as int))
        },
        e.content_body is None && e.summary is Some ==> parsed_item_spec(source_url, e).content_html
            == if trim(e.summary->0).len() == 0 {
            None::<Seq<char>>
        } else if trim(e.summary->0).len() <= MAX_CONTENT_CHARS {
            Some(trim(e.summary->0))
        } else {
            Some(trim(e.summary->0).take(MAX_CONTENT_CHARS as int))
        },
        e.content_body is None && e.summary is None ==> parsed_item_spec(source_url, e).content_html
            is None,
        parsed_item_spec(source_url, e).content_html is Some && html_to_text_spec(
            parsed_item_spec(source_url, e).content_html->0,
        ).len() > 0 ==> parsed_item_spec(source_url, e).content_text == html_to_text_spec(
            parsed_item_spec(source_url, e).content_html->0,
        ),
        (parsed_item_spec(source_url, e).content_html is None || html_to_text_spec(
            parsed_item_spec(source_url, e).content_html->0,
        ).len() == 0) ==> parsed_item_spec(source_url, e).content_text == parsed_item_spec(
            source_url,
            e,
        ).title,
{
}

/// The stored feed keeps the first `MAX_ITEMS` entries, in order, each read
/// from the entry at the same place; its title is the document's title on
/// one line when not blank, else the address the feed was read from.
pub proof fn lemma_feed_items_in_order(source_url: Seq<char>, doc: DocumentView)
    ensures
        parsed_feed_spec(source_url, doc).items.len() == if doc.entries.len() <= MAX_ITEMS {
            doc.entries.len()
        } else {
            MAX_ITEMS as nat
        },
        forall|i: int|
            0 <= i < parsed_feed_spec(source_url, doc).items.len() ==> #[trigger] parsed_feed_spec(
                source_url,
                doc,
            ).items[i] == parsed_item_spec(source_url, doc.entries[i]),
        doc.title is Some && normalize_inline_spec(doc.title->0).len() > 0 ==> parsed_feed_spec(
            source_url,
            doc,
        ).title == normalize_inline_spec(doc.title->0),
        (doc.title is None || normalize_inline_spec(doc.title->0).len() == 0) ==> parsed_feed_spec(
            source_url,
            doc,
        ).title == source_url,
{
}

} // verus!
