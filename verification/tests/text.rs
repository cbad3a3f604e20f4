use cedict_lookup::text::{chars_of, join_strings, trim};

#[test]
fn trim_removes_unicode_whitespace_at_both_ends() {
    assert_eq!(trim("  你好  "), "你好");
    assert_eq!(trim("\t\n hello world \r\n"), "hello world");
    assert_eq!(trim("\u{3000}\u{A0}書\u{2003}"), "書");
    assert_eq!(trim("   "), "");
    assert_eq!(trim(""), "");
    assert_eq!(trim("a  b"), "a  b");
}

#[test]
fn padding_a_query_does_not_change_its_trim() {
    for q in ["hello", " a b ", "", "你 好", "\u{3000}"] {
        assert_eq!(trim(&format!(" \t{q}\n\u{3000}")), trim(q));
    }
}

#[test]
fn chars_of_keeps_every_character() {
    assert_eq!(chars_of("a書\u{20000}"), vec!['a', '書', '\u{20000}']);
    assert!(chars_of("").is_empty());
}

#[test]
fn join_strings_puts_the_separator_between_neighbours() {
    assert_eq!(join_strings(&vec![], " "), "");
    assert_eq!(join_strings(&vec!["a".to_string()], ", "), "a");
    assert_eq!(join_strings(&vec!["a".to_string(), "b".to_string(), "c".to_string()], ", "), "a, b, c");
}
