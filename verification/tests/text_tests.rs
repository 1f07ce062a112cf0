use smms_mirror::text::{
    chars_of, concat2, concat3, contains_text, decimal_i64, decimal_u64, decimal_usize,
    escape_sql, join_with, quote_sql, split_last,
};

#[test]
fn escape_doubles_single_quotes() {
    assert_eq!(escape_sql("it's"), "it''s");
    assert_eq!(escape_sql("''"), "''''");
    assert_eq!(escape_sql(""), "");
    assert_eq!(escape_sql("plain"), "plain");
}

#[test]
fn quote_wraps_in_single_quotes() {
    assert_eq!(quote_sql("a'b"), "'a''b'");
    assert_eq!(quote_sql(""), "''");
}

#[test]
fn decimal_matches_standard_formatting() {
    for n in [0i64, 1, 9, 10, 11, 99, 100, 12345, -1, -10, -987, i64::MAX, i64::MIN] {
        assert_eq!(decimal_i64(n), n.to_string());
    }
    for n in [0u64, 7, 10, 1000, u64::MAX] {
        assert_eq!(decimal_u64(n), n.to_string());
    }
    assert_eq!(decimal_usize(123), "123");
}

#[test]
fn join_puts_separator_between_parts() {
    let parts = vec!["a".to_string(), "b".to_string(), "c".to_string()];
    assert_eq!(join_with(&parts, "; "), "a; b; c");
    assert_eq!(join_with(&vec!["only".to_string()], ", "), "only");
    assert_eq!(join_with(&Vec::new(), ", "), "");
}

#[test]
fn split_last_takes_what_follows_the_separator() {
    assert_eq!(split_last("a.b.PNG", '.'), ("PNG".to_string(), true));
    assert_eq!(split_last("noext", '.'), ("noext".to_string(), false));
    assert_eq!(split_last("trailing.", '.'), (String::new(), true));
    assert_eq!(split_last("", '.'), (String::new(), false));
    assert_eq!(split_last("https://sm.ms/delete/abc", '/'), ("abc".to_string(), true));
}

#[test]
fn contains_text_finds_runs() {
    assert!(contains_text("file already deleted.", "already deleted"));
    assert!(contains_text("already deleted", "already deleted"));
    assert!(!contains_text("already delete", "already deleted"));
    assert!(contains_text("anything", ""));
    assert!(!contains_text("", "x"));
    assert!(contains_text("aab", "ab"));
}

#[test]
fn chars_and_concat() {
    assert_eq!(chars_of("héllo"), vec!['h', 'é', 'l', 'l', 'o']);
    assert_eq!(concat2("ab", "cd"), "abcd");
    assert_eq!(concat3("a", "b", "c"), "abc");
}
