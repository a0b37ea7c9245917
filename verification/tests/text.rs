use dprint_plugin_golangci::text::{
    contains_str, ends_with_str, eq_str, is_blank_str, is_white_space_char, push_decimal,
};

#[test]
fn decimal_digits() {
    for n in [0u32, 7, 10, 99, 100, 12345, u32::MAX] {
        let mut s = String::from("n=");
        push_decimal(&mut s, n);
        assert_eq!(s, format!("n={}", n));
    }
}

#[test]
fn substring_search() {
    assert!(contains_str("abc version v2.0", "version v2"));
    assert!(contains_str("abc", ""));
    assert!(!contains_str("ab", "abc"));
    assert!(!contains_str("version 1.2", "version 2."));
    assert!(ends_with_str("a.go", ".go"));
    assert!(!ends_with_str("a.gox", ".go"));
    assert!(eq_str("fix", "fix"));
    assert!(!eq_str("fix", "fi"));
}

#[test]
fn white_space_matches_std() {
    for c in ['\t', '\n', ' ', '\u{85}', '\u{a0}', '\u{2003}', '\u{3000}', 'a', '_', '\u{200b}'] {
        assert_eq!(is_white_space_char(c), c.is_whitespace());
    }
    assert!(is_blank_str(" \r\n"));
    assert!(is_blank_str(""));
    assert!(!is_blank_str(" x "));
}
