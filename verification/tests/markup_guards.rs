use rss_desktop_widget::error::AppError;
use rss_desktop_widget::feed::parse_feed;
use rss_desktop_widget::html::html_to_text;
use rss_desktop_widget::markup::{play_times_are_safe, spans_are_safe};

#[test]
fn ordinary_spans_are_safe() {
    assert!(spans_are_safe(b"<p>no table here</p>"));
    assert!(spans_are_safe(b"<p>the colspan attribute</p>"));
    assert!(spans_are_safe(b"<td colspan=\"2\">a</td>"));
    assert!(spans_are_safe(b"<td COLSPAN = '12'>a</td>"));
    assert!(spans_are_safe(b"<td colspan=3>a</td>"));
    assert!(spans_are_safe(b"<td colspan=\"abc\">a</td>"));
    assert!(spans_are_safe(b"<td colspan=1000>a</td>"));
    assert!(spans_are_safe(b"<td colspan>a</td>"));
    assert!(spans_are_safe(b"<td colspan=\"\">a</td>"));
    assert!(spans_are_safe(b"<td data-colspan=\"0\">a</td>"));
}

#[test]
fn zero_or_huge_spans_are_not_safe() {
    assert!(!spans_are_safe(b"<td colspan=\"0\">a</td>"));
    assert!(!spans_are_safe(b"<td colspan=00>a</td>"));
    assert!(!spans_are_safe(b"<td colspan='+0'>a</td>"));
    assert!(!spans_are_safe(b"<td colspan=\"&#48;\">a</td>"));
    assert!(!spans_are_safe(b"<td colspan=\"1234567890\">a</td>"));
}

#[test]
fn zero_colspan_keeps_the_source_text() {
    let html = "<table><tr><td colspan=\"0\">x</td></tr></table>";
    assert_eq!(html_to_text(html), html);
}

#[test]
fn table_with_spans_is_rendered() {
    let html = "<table><tr><td colspan=\"2\">wide</td></tr><tr><td>b</td><td>c</td></tr></table>";
    let text = html_to_text(html);
    assert!(text.contains("wide"));
    assert!(!text.contains("<td"));
}

#[test]
fn prose_about_colspan_is_rendered() {
    let html = "<p>Set <b>colspan</b> to merge cells</p>";
    assert_eq!(html_to_text(html), "Set **colspan** to merge cells");
}

#[test]
fn ordinary_play_times_are_safe() {
    assert!(play_times_are_safe(
        b"<item><itunes:duration>00:45:12</itunes:duration><media:thumbnail url=\"u\" width=\"480\"/></item>"
    ));
    assert!(play_times_are_safe(b"<media:text start=\"00:00:01\" end=\"00:00:09.5\">hi</media:text>"));
    assert!(play_times_are_safe(b"<media:thumbnail url=\"u\" time=\"12:00:00\"/>"));
    assert!(play_times_are_safe(b"<itunes:duration><![CDATA[1234]]></itunes:duration>"));
    assert!(play_times_are_safe(b"<itunes:duration>&#49;2<!-- note -->34</itunes:duration>"));
    assert!(play_times_are_safe(b"<itunes:duration>\xe7\xba\xa6 30 \xe5\x88\x86</itunes:duration>"));
    assert!(play_times_are_safe(b"<itunes:duration/>"));
    assert!(play_times_are_safe(b"<rss>\0</rss>"));
    assert!(play_times_are_safe(
        b"<?xml version=\"1.0\" encoding=\"gbk\"?><itunes:duration>30</itunes:duration>"
    ));
}

#[test]
fn oversized_or_foreign_digit_play_times_are_not_safe() {
    assert!(!play_times_are_safe(b"<itunes:duration>123456789012345678901</itunes:duration>"));
    assert!(!play_times_are_safe(
        b"<itunes:duration><![CDATA[12345678]]>90123456</itunes:duration>"
    ));
    assert!(!play_times_are_safe(
        b"<itunes:duration>12345678<!-- x -->90123456</itunes:duration>"
    ));
    assert!(!play_times_are_safe(b"<itunes:duration>\xd9\xa3</itunes:duration>"));
    assert!(!play_times_are_safe(b"<itunes:duration>&#1635;</itunes:duration>"));
    assert!(!play_times_are_safe(
        b"<media:thumbnail url=\"u\" time=\"99999999999999999999\"/>"
    ));
    assert!(!play_times_are_safe(b"<media:text start=\"&#x663;\">hi</media:text>"));
    assert!(!play_times_are_safe(
        b"<?xml version=\"1.0\" encoding=\"gbk\"?><itunes:duration>\xa3\xb0</itunes:duration>"
    ));
}

#[test]
fn utf16_documents_are_not_read_by_the_parser() {
    let mut bytes = vec![0xFF, 0xFE];
    for unit in "<?xml version=\"1.0\" encoding=\"UTF-16\"?><rss version=\"2.0\"><channel><title>T</title></channel></rss>".encode_utf16() {
        bytes.extend_from_slice(&unit.to_le_bytes());
    }
    assert!(feed_rs::parser::parse(bytes.as_slice()).is_err());
    assert!(!play_times_are_safe(&bytes));
    assert!(matches!(parse_feed("https://example.com/u16.xml", &bytes), Err(AppError::FeedParse)));
}

fn podcast(duration: &str) -> String {
    format!(
        r#"<?xml version="1.0" encoding="UTF-8" ?>
        <rss version="2.0" xmlns:itunes="http://www.itunes.com/dtds/podcast-1.0.dtd"
             xmlns:media="http://search.yahoo.com/mrss/">
          <channel>
            <title>Cast</title>
            <item>
              <title>Episode</title>
              <link>https://example.com/ep</link>
              <guid>ep-1</guid>
              <itunes:duration>{}</itunes:duration>
              <media:text start="00:00:01" end="00:00:05">Intro</media:text>
            </item>
          </channel>
        </rss>"#,
        duration
    )
}

#[test]
fn podcast_with_plain_duration_parses() {
    let parsed = parse_feed("https://example.com/cast.xml", podcast("00:45:12").as_bytes()).unwrap();
    assert_eq!(parsed.items.len(), 1);
    assert_eq!(parsed.items[0].guid, "ep-1");
    let cdata = parse_feed("https://example.com/cast.xml", podcast("<![CDATA[2712]]>").as_bytes());
    assert_eq!(cdata.unwrap().title, "Cast");
}

#[test]
fn podcast_with_oversized_duration_is_refused() {
    let r = parse_feed(
        "https://example.com/cast.xml",
        podcast("123456789012345678901").as_bytes(),
    );
    assert!(matches!(r, Err(AppError::FeedParse)));
}
