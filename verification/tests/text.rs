use agend_daemon::text::{
    chars_of, contains, i64_text, list_contains, parse_at_most, same, split_ascii_space, split_on, starts_with, to_ascii_lower,
    trim, u64_text,
};

#[test]
fn texts_are_compared_and_searched() {
    assert!(same("abc", "abc") && !same("abc", "abd") && !same("ab", "abc"));
    assert!(contains("hello", "ell") && contains("hello", "") && !contains("hello", "elo"));
    assert!(starts_with("hello", "he") && !starts_with("hello", "el"));
    assert!(list_contains(&vec!["a".to_string(), "b".to_string()], "b"));
    assert_eq!(chars_of("a\u{203a}"), vec!['a', '\u{203a}']);
}

#[test]
fn texts_are_trimmed_and_split() {
    assert_eq!(trim(" \t a b \u{a0}\n"), "a b");
    assert_eq!(split_on("a::b:", ':'), vec!["a", "", "b", ""]);
    assert_eq!(split_ascii_space("  a \t b\n"), vec!["a", "b"]);
    assert_eq!(to_ascii_lower("AbÇ9"), "abÇ9");
}

#[test]
fn numbers_are_written_and_read() {
    assert_eq!(u64_text(0), "0");
    assert_eq!(u64_text(u64::MAX), "18446744073709551615");
    assert_eq!(i64_text(i64::MIN), "-9223372036854775808");
    assert_eq!(parse_at_most("42", 100), Some(42));
    assert_eq!(parse_at_most("+42", 100), Some(42));
    assert_eq!(parse_at_most("101", 100), None);
    assert_eq!(parse_at_most("", 100), None);
    assert_eq!(parse_at_most("-1", 100), None);
    assert_eq!(parse_at_most("18446744073709551616", u64::MAX), None);
}
