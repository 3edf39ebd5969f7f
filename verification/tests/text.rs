use ts_bind::order::str_lt;
use ts_bind::ts::utils::sorter;
use ts_bind::text::{
    chars_of, decimal, eq_str, join, remove_char, replace_char, str_contains, string_from_chars, trim,
};

#[test]
fn trim_removes_surrounding_white_space() {
    assert_eq!(trim("  a b \n\t"), "a b");
    assert_eq!(trim("\u{3000}x\u{a0}"), "x");
    assert_eq!(trim(" \n "), "");
    assert_eq!(trim(""), "");
    assert_eq!(trim("abc"), "abc");
}

#[test]
fn decimal_writes_digits() {
    assert_eq!(decimal(0), "0");
    assert_eq!(decimal(7), "7");
    assert_eq!(decimal(10), "10");
    assert_eq!(decimal(1234567), "1234567");
}

#[test]
fn join_puts_separator_between() {
    let v = vec!["a".to_string(), "b".to_string(), "c".to_string()];
    assert_eq!(join(&v, "\n"), "a\nb\nc");
    assert_eq!(join(&vec!["only".to_string()], ", "), "only");
    assert_eq!(join(&Vec::new(), ", "), "");
}

#[test]
fn contains_finds_substrings() {
    assert!(str_contains("import type", "import"));
    assert!(str_contains("abc", ""));
    assert!(str_contains("abc", "abc"));
    assert!(!str_contains("ab", "abc"));
    assert!(!str_contains("impor t", "import"));
    assert!(str_contains("xxconst", "const"));
}

#[test]
fn character_helpers() {
    assert_eq!(replace_char("a-b-c", '-', '_'), "a_b_c");
    assert_eq!(remove_char("\"camelCase\"", '"'), "camelCase");
    assert_eq!(chars_of("héllo"), vec!['h', 'é', 'l', 'l', 'o']);
    assert_eq!(string_from_chars(&vec!['x', 'y']), "xy");
    assert!(eq_str("same", "same"));
    assert!(!eq_str("same", "Same"));
}

#[test]
fn strings_order_like_str() {
    assert!(str_lt("a", "b"));
    assert!(str_lt("ab", "abc"));
    assert!(!str_lt("abc", "ab"));
    assert!(!str_lt("x", "x"));
    assert!(str_lt("Z", "a"));
    assert!(str_lt("z", "é"));
}

#[test]
fn sorter_sorts_and_removes_duplicates() {
    let v = vec!["b".to_string(), "a".to_string(), "c".to_string(), "a".to_string(), "b".to_string()];
    assert_eq!(sorter(v), vec!["a".to_string(), "b".to_string(), "c".to_string()]);
    assert_eq!(sorter(Vec::new()), Vec::<String>::new());
    let mut expected = vec!["Users".to_string(), "Posts".to_string(), "posts".to_string(), "Post".to_string()];
    let got = sorter(expected.clone());
    expected.sort();
    expected.dedup();
    assert_eq!(got, expected);
}
