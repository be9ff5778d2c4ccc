use prism_proxy::strs::{split_line, strip_prefix};
use prism_proxy::text::{
    bytes_contain, bytes_eq, bytes_occur_at, bytes_start_with, push_decimal, push_hex,
    str_contains, str_eq, str_eq_ignore_ascii_case,
};

fn decimal(n: u64) -> String {
    let mut s = String::new();
    push_decimal(&mut s, n);
    s
}

#[test]
fn texts_compare_by_their_characters() {
    assert!(str_eq("", ""));
    assert!(str_eq("abc", "abc"));
    assert!(!str_eq("abc", "abd"));
    assert!(!str_eq("abc", "ab"));
    assert!(str_eq("é中", "é中"));
    assert!(bytes_eq(b"", b""));
    assert!(!bytes_eq(b"a", b""));
}

#[test]
fn search_finds_every_position() {
    assert!(str_contains("anthropic.com", "anthropic.com"));
    assert!(str_contains("xxab", "ab"));
    assert!(str_contains("abxx", "ab"));
    assert!(str_contains("ab", ""));
    assert!(str_contains("", ""));
    assert!(!str_contains("", "a"));
    assert!(!str_contains("aab", "abb"));
    assert!(bytes_contain(b"aaab", b"aab"));
    assert!(bytes_occur_at(b"abc", b"bc", 1));
    assert!(bytes_occur_at(b"abc", b"", 3));
    assert!(!bytes_occur_at(b"abc", b"", 4));
    assert!(!bytes_occur_at(b"abc", b"bc", 2));
    assert!(bytes_start_with(b"abc", b"ab"));
    assert!(!bytes_start_with(b"ab", b"abc"));
}

#[test]
fn ascii_case_is_ignored_for_letters_only() {
    assert!(str_eq_ignore_ascii_case("Content-Type", "content-type"));
    assert!(str_eq_ignore_ascii_case("", ""));
    assert!(!str_eq_ignore_ascii_case("a", "ab"));
    assert!(!str_eq_ignore_ascii_case("@", "`"));
    assert!(!str_eq_ignore_ascii_case("[", "{"));
    assert!(!str_eq_ignore_ascii_case("É", "é"));
}

#[test]
fn numbers_are_written_in_decimal() {
    assert_eq!(decimal(0), "0");
    assert_eq!(decimal(7), "7");
    assert_eq!(decimal(10), "10");
    assert_eq!(decimal(15288), "15288");
    assert_eq!(decimal(u64::MAX), "18446744073709551615");
    let mut s = "x".to_string();
    push_decimal(&mut s, 54200);
    assert_eq!(s, "x54200");
}

#[test]
fn bytes_are_written_in_lower_hex() {
    let mut s = String::new();
    push_hex(&mut s, &[0x00, 0x0a, 0xff, 0x9c]);
    assert_eq!(s, "000aff9c");
}

#[test]
fn prefix_is_removed_between_characters() {
    assert_eq!(strip_prefix("Bearer key", "Bearer "), Some("key"));
    assert_eq!(strip_prefix("Bearer ", "Bearer "), Some(""));
    assert_eq!(strip_prefix("Bearer", "Bearer "), None);
    assert_eq!(strip_prefix("bearer key", "Bearer "), None);
    assert_eq!(strip_prefix("éa", "é"), Some("a"));
    assert_eq!(strip_prefix("x", ""), Some("x"));
    assert_eq!(strip_prefix("data: é", "data: "), Some("é"));
}

#[test]
fn lines_are_split_at_line_feeds() {
    assert_eq!(split_line("a\nb\nc"), ("a", "b\nc"));
    assert_eq!(split_line("a\r\nb"), ("a", "b"));
    assert_eq!(split_line("a\r"), ("a\r", ""));
    assert_eq!(split_line("\n"), ("", ""));
    assert_eq!(split_line("\r\n\r\n"), ("", "\r\n"));
    assert_eq!(split_line(""), ("", ""));
    assert_eq!(split_line("é\n中"), ("é", "中"));
    assert_eq!(split_line("a\r\r\n"), ("a\r", ""));
}
