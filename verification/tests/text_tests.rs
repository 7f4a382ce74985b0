use m_reader::text::{format_usize, parse_usize, str_equal, strip_prefix};

#[test]
fn parse_usize_accepts_digits_and_plus() {
    assert_eq!(parse_usize("0"), Some(0));
    assert_eq!(parse_usize("42"), Some(42));
    assert_eq!(parse_usize("007"), Some(7));
    assert_eq!(parse_usize("+5"), Some(5));
    assert_eq!(parse_usize(&usize::MAX.to_string()), Some(usize::MAX));
}

#[test]
fn parse_usize_rejects_what_std_rejects() {
    for s in ["", "+", "-", "-1", "1 ", " 1", "1a", "++1", "١", "1.0"] {
        assert_eq!(parse_usize(s), None, "{s:?}");
        assert_eq!(s.parse::<usize>().ok(), None, "{s:?}");
    }
    let too_big = format!("{}0", usize::MAX);
    assert_eq!(parse_usize(&too_big), None);
    assert_eq!(parse_usize("99999999999999999999999999"), None);
}

#[test]
fn parse_usize_matches_std_on_samples() {
    for s in ["0", "9", "10", "+0", "18446744073709551615", "18446744073709551616", "4294967296"] {
        assert_eq!(parse_usize(s), s.parse::<usize>().ok(), "{s:?}");
    }
}

#[test]
fn format_usize_writes_decimal() {
    assert_eq!(format_usize(0), "0");
    assert_eq!(format_usize(7), "7");
    assert_eq!(format_usize(10), "10");
    assert_eq!(format_usize(1234), "1234");
    assert_eq!(format_usize(usize::MAX), usize::MAX.to_string());
}

#[test]
fn format_then_parse_round_trips() {
    for n in [0usize, 1, 9, 10, 99, 100, 65535, 1 << 40, usize::MAX] {
        assert_eq!(parse_usize(&format_usize(n)), Some(n));
    }
}

#[test]
fn strip_prefix_and_equality() {
    assert_eq!(strip_prefix("mreader.recent.3", "mreader.recent."), Some("3"));
    assert_eq!(strip_prefix("mreader.recent.", "mreader.recent."), Some(""));
    assert_eq!(strip_prefix("mreader.rec", "mreader.recent."), None);
    assert_eq!(strip_prefix("héllo", "hé"), Some("llo"));
    assert!(str_equal("abc", "abc"));
    assert!(!str_equal("abc", "abd"));
    assert!(!str_equal("abc", "ab"));
    assert!(str_equal("", ""));
}
