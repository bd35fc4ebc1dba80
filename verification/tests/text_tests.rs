use hygg::text::{chars_of, decimal, parse_usize, push_decimal, text_contains, trim_text};

#[test]
fn decimal_writes_numbers_like_to_string() {
    assert_eq!(decimal(0), "0");
    assert_eq!(decimal(7), "7");
    assert_eq!(decimal(10), "10");
    assert_eq!(decimal(1234567890), "1234567890");
    assert_eq!(decimal(u64::MAX), u64::MAX.to_string());
    let mut s = String::from("Line ");
    push_decimal(&mut s, 42);
    assert_eq!(s, "Line 42");
}

#[test]
fn parse_usize_reads_like_from_str() {
    assert_eq!(parse_usize("42"), Some(42));
    assert_eq!(parse_usize("007"), Some(7));
    assert_eq!(parse_usize("+7"), Some(7));
    assert_eq!(parse_usize(""), None);
    assert_eq!(parse_usize("+"), None);
    assert_eq!(parse_usize("-1"), None);
    assert_eq!(parse_usize("12a"), None);
    assert_eq!(parse_usize(" 12"), None);
    assert_eq!(parse_usize(&usize::MAX.to_string()), Some(usize::MAX));
    let too_big = format!("{}0", usize::MAX);
    assert_eq!(parse_usize(&too_big), None);
    for s in ["0", "+0", "99", "+-3", "1_000", "18446744073709551616"] {
        assert_eq!(parse_usize(s), s.parse::<usize>().ok(), "{}", s);
    }
}

#[test]
fn parse_reads_back_decimal() {
    for n in [0u64, 1, 9, 10, 99, 100, 65535, 4294967296] {
        assert_eq!(parse_usize(&decimal(n)), Some(n as usize));
    }
}

#[test]
fn chars_and_contains() {
    assert_eq!(chars_of("héllo"), vec!['h', 'é', 'l', 'l', 'o']);
    assert!(text_contains("error decoding response body", "response"));
    assert!(!text_contains("abc", "abd"));
    assert!(text_contains("abc", ""));
}

#[test]
fn trim_removes_unicode_white_space_at_both_ends() {
    assert_eq!(trim_text("  o 12 \t\n"), "o 12");
    assert_eq!(trim_text("\u{3000}quit\u{85}"), "quit");
    assert_eq!(trim_text("   "), "");
    assert_eq!(trim_text(""), "");
    assert_eq!(trim_text("a  b"), "a  b");
    for s in ["  x y ", "\u{2028}é\u{A0}", "\t\t", "z"] {
        assert_eq!(trim_text(s), s.trim());
    }
}
