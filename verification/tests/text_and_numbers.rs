use rss_desktop_widget::digest::stable_hash;
use rss_desktop_widget::number::{decimal_i64, hex_string, parse_i64};
use rss_desktop_widget::text::{clamp_chars, normalize_inline, trim_text};

fn chars(s: &str) -> Vec<char> {
    s.chars().collect()
}

#[test]
fn normalize_inline_collapses_whitespace() {
    assert_eq!(normalize_inline("  a \t b\n\nc  "), "a b c");
    assert_eq!(normalize_inline("   "), "");
    assert_eq!(normalize_inline("one"), "one");
    assert_eq!(normalize_inline("x\u{3000}y\u{00A0}z"), "x y z");
}

#[test]
fn trim_matches_std() {
    for s in ["", "  ", " a ", "\u{2028}b\u{205F}", "a b", "\r\nline\r\n"] {
        assert_eq!(trim_text(s), s.trim());
    }
}

#[test]
fn clamp_chars_counts_characters() {
    assert_eq!(clamp_chars("héllo", 3), "hél");
    assert_eq!(clamp_chars("héllo", 5), "héllo");
    assert_eq!(clamp_chars("héllo", 10), "héllo");
    assert_eq!(clamp_chars("订阅源", 2), "订阅");
}

#[test]
fn decimal_and_parse_agree_with_std() {
    for n in [0i64, 7, -7, 10, 1234567890, i64::MAX, i64::MIN] {
        let d: String = decimal_i64(n).into_iter().collect();
        assert_eq!(d, n.to_string());
        assert_eq!(parse_i64(&chars(&d)), Some(n));
    }
    for s in ["", "-", "+", "1a", " 1", "9223372036854775808", "-9223372036854775809", "+12", "-0", "007"] {
        assert_eq!(parse_i64(&chars(s)), s.parse::<i64>().ok(), "{s:?}");
    }
}

#[test]
fn hex_is_lowercase_two_digits_per_byte() {
    assert_eq!(hex_string(&vec![0x00, 0x0f, 0xa0, 0xff]), "000fa0ff");
}

#[test]
fn stable_hash_is_sha256_of_the_parts() {
    // SHA-256("abc")
    let expected = "ba7816bf8f01cfea414140de5dae2223b00361a396177a9cb410ff61f20015ad";
    assert_eq!(stable_hash("a", Some("b"), "c"), expected);
    assert_eq!(stable_hash("ab", None, "c"), expected);
    assert_ne!(stable_hash("a", Some("b"), "d"), expected);
}
