use canmore::escape::{class_token, escape, escape_js};
use canmore::ids::{format_id, millis_from_reading, new_id, now_stamp, unix_millis, validate_id};
use canmore::text::{fmt_u128, parse_usize, str_lt, trim, trim_end};

#[test]
fn escape_replaces_markup() {
    assert_eq!(escape("<a href=\"x\">Tom & Jerry's</a>"), "&lt;a href=&quot;x&quot;&gt;Tom &amp; Jerry&#39;s&lt;/a&gt;");
    assert_eq!(escape("&lt;"), "&amp;lt;");
    assert_eq!(escape(""), "");
    assert_eq!(escape("plain ü"), "plain ü");
}

#[test]
fn escape_js_escapes_string_breakers() {
    assert_eq!(escape_js("a\"b\\c\nd\re"), "a\\\"b\\\\c\\nd\\re");
    assert_eq!(escape_js("surface_1_2"), "surface_1_2");
}

#[test]
fn class_tokens() {
    assert_eq!(class_token("image_gen"), "image-gen");
    assert_eq!(class_token("Diagram"), "diagram");
    assert_eq!(class_token("  Big Chart!! "), "big-chart");
    assert_eq!(class_token("---"), "surface");
    assert_eq!(class_token(""), "surface");
    assert_eq!(class_token("Ünï"), "n");
}

#[test]
fn ids_are_validated() {
    assert!(validate_id("surface_123_4").is_ok());
    assert!(validate_id("A-b_9").is_ok());
    assert_eq!(validate_id("").unwrap_err(), "invalid id");
    assert_eq!(validate_id("../etc").unwrap_err(), "invalid id");
    assert_eq!(validate_id("a b").unwrap_err(), "invalid id");
    assert_eq!(validate_id("é").unwrap_err(), "invalid id");
}

#[test]
fn new_ids_have_prefix_time_and_count() {
    assert_eq!(format_id("surface", 1700000000123, 7), "surface_1700000000123_7");
    let id = new_id("event", 42);
    assert!(id.starts_with("event_"));
    assert!(id.ends_with("_42"));
    assert!(validate_id(&id).is_ok());
    let stamp = now_stamp();
    assert!(!stamp.is_empty() && stamp.chars().all(|c| c.is_ascii_digit()));
    assert!(unix_millis() > 1_600_000_000_000);
}

#[test]
fn decimal_formatting_and_parsing() {
    assert_eq!(fmt_u128(0), "0");
    assert_eq!(fmt_u128(10), "10");
    assert_eq!(fmt_u128(u128::MAX), u128::MAX.to_string());
    assert_eq!(parse_usize("42"), Some(42));
    assert_eq!(parse_usize("+7"), Some(7));
    assert_eq!(parse_usize("007"), Some(7));
    assert_eq!(parse_usize(""), None);
    assert_eq!(parse_usize("+"), None);
    assert_eq!(parse_usize("-1"), None);
    assert_eq!(parse_usize("1 2"), None);
    assert_eq!(parse_usize("99999999999999999999999"), None);
    assert_eq!(parse_usize(&usize::MAX.to_string()), Some(usize::MAX));
}

#[test]
fn trimming_and_order() {
    assert_eq!(trim(" \u{a0}x y\u{2003}\n"), "x y");
    assert_eq!(trim_end("x \r\n"), "x");
    assert!(str_lt("100", "99"));
    assert!(!str_lt("b", "a"));
    assert!(str_lt("", "a"));
    assert!(!str_lt("a", "a"));
}

#[test]
fn escaping_keeps_texts_apart() {
    // the literal text "&lt;" and the character "<" escape differently
    assert_ne!(escape("&lt;"), escape("<"));
    assert_ne!(escape_js("\\n"), escape_js("\n"));
    for s in ["a<b", "\"'", "&amp;", "x\n"] {
        let e = escape(s);
        assert!(!e.contains('<') && !e.contains('>') && !e.contains('"') && !e.contains('\''));
        let j = escape_js(s);
        assert!(!j.contains('\n') && !j.contains('\r'));
    }
}

#[test]
fn valid_ids_need_no_escaping() {
    let id = format_id("surface", 1700000000000, 12);
    assert!(validate_id(&id).is_ok());
    assert_eq!(escape(&id), id);
    assert_eq!(escape_js(&id), id);
}

#[test]
fn class_token_shape() {
    for s in ["-A b-", "***", "x", "Ä_b_C"] {
        let t = class_token(s);
        assert!(!t.is_empty());
        assert!(!t.starts_with('-') && !t.ends_with('-'));
        assert!(t.chars().all(|c| c.is_ascii_lowercase() || c.is_ascii_digit() || c == '-'));
    }
}

#[test]
fn unix_millis_reads_the_clock() {
    let before = std::time::SystemTime::now()
        .duration_since(std::time::UNIX_EPOCH)
        .unwrap()
        .as_millis();
    let m = unix_millis();
    let after = std::time::SystemTime::now()
        .duration_since(std::time::UNIX_EPOCH)
        .unwrap()
        .as_millis();
    assert!(before <= m && m <= after);
}

#[test]
fn clock_readings_become_milliseconds() {
    assert_eq!(millis_from_reading(Some((2, 999_999_999))), 2999);
    assert_eq!(millis_from_reading(Some((1_700_000_000, 123_456_789))), 1_700_000_000_123);
    assert_eq!(millis_from_reading(None), 0);
}
