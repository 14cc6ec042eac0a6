use s3_downloader::text::{blank, contains, decimal_string, sort_dedup, str_less, trimmed};

#[test]
fn trims_unicode_whitespace() {
    assert_eq!(trimmed("  a b \t\r\n"), "a b");
    assert_eq!(trimmed("\u{3000}x\u{a0}"), "x");
    assert_eq!(trimmed(""), "");
    assert!(blank(" \u{2028}\t"));
    assert!(!blank(" x "));
}

#[test]
fn orders_like_strings() {
    assert!(str_less("alpha", "beta"));
    assert!(str_less("ab", "abc"));
    assert!(!str_less("abc", "abc"));
    assert!(str_less("Z", "a"));
    assert!(str_less("z", "\u{e9}"));
}

#[test]
fn sorts_and_removes_duplicates() {
    let items = vec!["b".to_string(), "a".to_string(), "b".to_string(), "c".to_string()];
    assert_eq!(sort_dedup(items), vec!["a", "b", "c"]);
    assert!(sort_dedup(Vec::new()).is_empty());
}

#[test]
fn renders_decimal_numbers() {
    assert_eq!(decimal_string(0), "0");
    assert_eq!(decimal_string(7), "7");
    assert_eq!(decimal_string(10), "10");
    assert_eq!(decimal_string(12345), "12345");
    assert_eq!(decimal_string(usize::MAX), usize::MAX.to_string());
}

#[test]
fn finds_substrings() {
    assert!(contains("xxAccessDeniedxx", "AccessDenied"));
    assert!(contains("abc", ""));
    assert!(!contains("Access Denied", "AccessDenied"));
}
