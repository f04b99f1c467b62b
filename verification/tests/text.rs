use lightning_offline::text::{decimal_string, remove_char, starts_with, take_leading};

#[test]
fn decimal_numerals() {
    assert_eq!(decimal_string(0), "0");
    assert_eq!(decimal_string(7), "7");
    assert_eq!(decimal_string(10), "10");
    assert_eq!(decimal_string(40_000), "40000");
    assert_eq!(decimal_string(u64::MAX), "18446744073709551615");
}

#[test]
fn prefixes() {
    assert!(starts_with("12D3KooW", "12D3"));
    assert!(!starts_with("12D", "12D3"));
    assert!(!starts_with("02abcd", "12D3"));
    assert!(starts_with("anything", ""));
}

#[test]
fn removing_and_cutting() {
    assert_eq!(remove_char("a-b--c", '-'), "abc");
    assert_eq!(remove_char("", '-'), "");
    assert_eq!(take_leading("abcdef", 3), "abc");
    assert_eq!(take_leading("ab", 3), "ab");
}
