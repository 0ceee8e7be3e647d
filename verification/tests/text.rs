use phronesis::text::{
    after_last_str, char_count, concat3, join_strs, push_decimal, push_hex, replace_char_str,
    split_char_str, split_ws_str, str_contains, str_ends_with, str_has_char, str_lt,
    str_starts_with, trim_non_alnum_str, trim_str, trim_suffix_all_str,
    underscore_non_alnum_str,
};

#[test]
fn trimming() {
    assert_eq!(trim_str("  a b \n"), "a b");
    assert_eq!(trim_str("\u{3000}x\u{a0}"), "x");
    assert_eq!(trim_str("   "), "");
    assert_eq!(trim_non_alnum_str("--Hello, world!!"), "Hello, world");
    assert_eq!(trim_suffix_all_str("a.md.md", ".md"), "a");
}

#[test]
fn searching() {
    assert!(str_contains("hello world", "o w"));
    assert!(str_contains("abc", ""));
    assert!(!str_contains("abc", "abcd"));
    assert!(str_starts_with("abc", "ab"));
    assert!(str_ends_with("abc", "bc"));
    assert!(!str_ends_with("c", "bc"));
    assert!(str_has_char("a\\b", '\\'));
    assert!(str_lt("2026-01-01", "2026-01-02"));
    assert!(str_lt("ab", "abc"));
    assert!(!str_lt("abc", "abc"));
}

#[test]
fn splitting_and_joining() {
    assert_eq!(split_char_str("a/b//c", '/'), vec!["a", "b", "", "c"]);
    assert_eq!(split_ws_str("  a \t b\n"), vec!["a", "b"]);
    assert!(split_ws_str("   ").is_empty());
    let parts = vec!["x".to_string(), "y".to_string(), "z".to_string()];
    assert_eq!(join_strs(&parts, ", "), "x, y, z");
    assert_eq!(join_strs(&vec![], ", "), "");
    assert_eq!(after_last_str("a/b/c.md", '/'), "c.md");
    assert_eq!(after_last_str("plain", '/'), "plain");
    assert_eq!(concat3("a", ":", "b"), "a:b");
}

#[test]
fn character_mapping() {
    assert_eq!(replace_char_str("a_b_c", '_', ' '), "a b c");
    assert_eq!(underscore_non_alnum_str("raw/semantic-x.md"), "raw_semantic_x_md");
    assert_eq!(char_count("한국어"), 3);
}

#[test]
fn numbers() {
    let mut s = String::from("claim_");
    push_decimal(&mut s, 120);
    assert_eq!(s, "claim_120");
    let mut z = String::new();
    push_decimal(&mut z, 0);
    assert_eq!(z, "0");
    let mut h = String::new();
    push_hex(&mut h, 0xab, 4);
    assert_eq!(h, "00ab");
    let mut f = String::new();
    push_hex(&mut f, u64::MAX, 16);
    assert_eq!(f, "ffffffffffffffff");
}
