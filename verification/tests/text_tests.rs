use wally::text::{
    chars_of, contains_str, decimal_string, join_strings, parse_u32_str, split_chars, trim_str,
};

#[test]
fn trim_removes_unicode_whitespace() {
    assert_eq!(trim_str("  a b \t\n"), "a b");
    assert_eq!(trim_str("\u{3000}x\u{a0}"), "x");
    assert_eq!(trim_str("   "), "");
    assert_eq!(trim_str(""), "");
}

#[test]
fn split_keeps_empty_pieces() {
    let v = chars_of("a,,b,");
    let parts = split_chars(&v, ',');
    let texts: Vec<String> = parts.iter().map(|p| p.iter().collect()).collect();
    assert_eq!(texts, vec!["a", "", "b", ""]);
    let empty = split_chars(&Vec::new(), ',');
    assert_eq!(empty.len(), 1);
    assert!(empty[0].is_empty());
}

#[test]
fn join_puts_separator_between() {
    let parts = vec!["a".to_string(), "b".to_string(), "c".to_string()];
    assert_eq!(join_strings(&parts, " "), "a b c");
    assert_eq!(join_strings(&Vec::new(), "+"), "");
    assert_eq!(join_strings(&vec!["x".to_string()], "+"), "x");
}

#[test]
fn contains_finds_substrings() {
    assert!(contains_str("https://wallhaven.cc/w/abc", "wallhaven.cc"));
    assert!(!contains_str("https://example.com", "wallhaven.cc"));
    assert!(contains_str("abc", ""));
    assert!(!contains_str("ab", "abc"));
}

#[test]
fn decimal_matches_display() {
    for n in [0u64, 7, 10, 1920, 4294967295, u64::MAX] {
        assert_eq!(decimal_string(n), n.to_string());
    }
}

#[test]
fn parse_u32_matches_std() {
    for s in ["", "+", "-", "0", "+12", "-1", "4294967295", "4294967296", "12a", " 1", "007", "99999999999"] {
        assert_eq!(parse_u32_str(s), s.parse::<u32>().ok(), "input {:?}", s);
    }
}
