use ferro::text::collapse_ws;
use ferro::text::contains_str_ci;
use ferro::text::equal_str_ci;
use ferro::text::find_sub;
use ferro::text::replace_all;
use ferro::text::starts_with_str_ci;
use ferro::text::str_eq;
use ferro::text::strip_tags;
use ferro::text::trim_bytes;
use ferro::text::u64_to_string;

#[test]
fn test_contains_ci() {
    assert!(contains_str_ci("Windows 11 Home/Pro/Edu", "home"));
    assert!(contains_str_ci("Windows 11", "WINDOWS"));
    assert!(contains_str_ci("anything", ""));
    assert!(!contains_str_ci("Windows 10", "Windows 11"));
}

#[test]
fn test_equal_and_prefix_ci() {
    assert!(equal_str_ci("X64", "x64"));
    assert!(!equal_str_ci("x64", "x86"));
    assert!(starts_with_str_ci("EN-us", "en"));
    assert!(!starts_with_str_ci("fr-fr", "en"));
    assert!(str_eq("abc", "abc"));
    assert!(!str_eq("abc", "abd"));
}

#[test]
fn test_find_sub() {
    assert_eq!(find_sub(b"abcabc", b"bc"), Some(1));
    assert_eq!(find_sub(b"abcabc", b"zz"), None);
    assert_eq!(find_sub(b"abc", b""), Some(0));
}

#[test]
fn test_replace_all() {
    assert_eq!(replace_all(b"a&lt;b&lt;c", b"&lt;", b"<"), b"a<b<c");
    assert_eq!(replace_all(b"none here", b"&gt;", b">"), b"none here");
}

#[test]
fn test_strip_tags() {
    assert_eq!(strip_tags(b"a<b>c</b>d"), b"acd");
    assert_eq!(strip_tags(b"no tags"), b"no tags");
    assert_eq!(strip_tags(b"a<>b"), b"a<>b");
    assert_eq!(strip_tags(b"open<unclosed"), b"open<unclosed");
}

#[test]
fn test_collapse_and_trim() {
    assert_eq!(collapse_ws(b"a  b\t\nc"), b"a b c");
    assert_eq!(trim_bytes(b"  hello  "), b"hello");
    assert_eq!(trim_bytes(b" \t "), b"");
}

#[test]
fn test_u64_to_string() {
    assert_eq!(u64_to_string(0), "0");
    assert_eq!(u64_to_string(7), "7");
    assert_eq!(u64_to_string(1234567890), "1234567890");
}
