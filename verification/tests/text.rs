use rush::text::{contains_pat, split_all_lines};

#[test]
fn contains_finds_inner_substrings() {
    assert!(contains_pat("hello world", "lo w"));
    assert!(contains_pat("hello", "hello"));
    assert!(contains_pat("hello", "h"));
    assert!(contains_pat("hello", "o"));
}

#[test]
fn contains_rejects_absent_and_oversized_patterns() {
    assert!(!contains_pat("hello", "xyz"));
    assert!(!contains_pat("hello", "hello!"));
    assert!(!contains_pat("", "a"));
}

#[test]
fn empty_pattern_is_contained_everywhere() {
    assert!(contains_pat("hello", ""));
    assert!(contains_pat("", ""));
}

#[test]
fn contains_is_case_sensitive() {
    assert!(!contains_pat("hello", "Hello"));
}

#[test]
fn split_separates_at_newlines() {
    assert_eq!(split_all_lines("a\nb\nc"), vec!["a", "b", "c"]);
}

#[test]
fn split_of_empty_text_has_no_lines() {
    assert!(split_all_lines("").is_empty());
}

#[test]
fn split_ignores_one_trailing_newline() {
    assert_eq!(split_all_lines("a\nb\n"), vec!["a", "b"]);
    assert_eq!(split_all_lines("\n"), vec![""]);
}

#[test]
fn split_strips_carriage_return_only_before_a_newline() {
    assert_eq!(split_all_lines("a\r\nb\r"), vec!["a", "b\r"]);
    assert_eq!(split_all_lines("a\n\r\n"), vec!["a", ""]);
}
