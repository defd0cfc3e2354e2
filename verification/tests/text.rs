use aura::text::{
    contains, eq_ignore_ascii_case, is_whitespace, join_from, split_newlines, split_whitespace, starts_with, str_eq,
    trim,
};

#[test]
fn whitespace_matches_std() {
    for c in ['\t', '\n', ' ', '\u{A0}', '\u{2003}', '\u{3000}', 'a', '0', '\u{200B}', '\u{FEFF}'] {
        assert_eq!(is_whitespace(c), c.is_whitespace(), "{:?}", c);
    }
}

#[test]
fn split_whitespace_matches_std() {
    for s in ["", "  ", "a", " a  b\tc\n", "x\u{3000}y"] {
        let ours = split_whitespace(s);
        let std: Vec<String> = s.split_whitespace().map(|w| w.to_string()).collect();
        assert_eq!(ours, std);
    }
}

#[test]
fn newline_segments() {
    assert_eq!(split_newlines("a\nb\n"), vec!["a", "b", ""]);
    assert_eq!(split_newlines(""), vec![""]);
}

#[test]
fn join_and_compare() {
    let parts: Vec<String> = vec!["a".into(), "b".into(), "c".into()];
    assert_eq!(join_from(&parts, 1, " "), "b c");
    assert_eq!(join_from(&parts, 3, " "), "");
    assert!(str_eq("abc", "abc"));
    assert!(!str_eq("abc", "abd"));
    assert!(starts_with("firefox", "fire"));
    assert!(!starts_with("fire", "firefox"));
    assert!(contains("hello world", "o w"));
    assert!(contains("abc", ""));
    assert!(!contains("abc", "abcd"));
}

#[test]
fn trim_and_case() {
    assert_eq!(trim("  a b \n"), "a b");
    assert_eq!(trim(" \u{3000}"), "");
    assert!(eq_ignore_ascii_case("FireFox", "firefox"));
    assert!(!eq_ignore_ascii_case("firefox", "firefo"));
}

#[test]
fn words_are_nonempty_and_free_of_whitespace() {
    for s in ["", " a\u{A0}b  c ", "\t\n", "x"] {
        for w in split_whitespace(s) {
            assert!(!w.is_empty());
            assert!(!w.chars().any(|c| c.is_whitespace()));
        }
    }
}
