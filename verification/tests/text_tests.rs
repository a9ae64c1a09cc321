use jaime::text::selection_key;
use jaime::text::split_lines;
use jaime::text::str_contains;
use jaime::text::str_eq;
use jaime::text::strip_trailing_newline;

#[test]
fn key_splits_on_first_colon() {
    assert_eq!(selection_key("A: a:b"), "A");
}

#[test]
fn key_without_colon_is_whole() {
    assert_eq!(selection_key("plain"), "plain");
}

#[test]
fn key_with_leading_colon_is_empty() {
    assert_eq!(selection_key(":x"), "");
}

#[test]
fn key_of_empty() {
    assert_eq!(selection_key(""), "");
}

#[test]
fn lines_trailing_newline() {
    assert_eq!(split_lines("x\ny\n"), vec!["x", "y"]);
}

#[test]
fn lines_no_trailing_newline() {
    assert_eq!(split_lines("x\ny"), vec!["x", "y"]);
}

#[test]
fn lines_empty_input() {
    assert_eq!(split_lines(""), Vec::<String>::new());
}

#[test]
fn lines_keep_inner_empty_line() {
    assert_eq!(split_lines("a\n\nb"), vec!["a", "", "b"]);
}

#[test]
fn lines_lone_newline() {
    assert_eq!(split_lines("\n"), vec![""]);
}

#[test]
fn strip_one_trailing_newline() {
    assert_eq!(strip_trailing_newline("sel\n"), "sel");
    assert_eq!(strip_trailing_newline("sel"), "sel");
    assert_eq!(strip_trailing_newline("a\n\n"), "a\n");
    assert_eq!(strip_trailing_newline(""), "");
}

#[test]
fn contains_finds_substrings() {
    assert!(str_contains("--margin=5%", "--margin"));
    assert!(str_contains("abc", ""));
    assert!(!str_contains("ab", "abc"));
    assert!(str_contains("xxabyy", "ab"));
    assert!(!str_contains("a-b", "ab"));
}

#[test]
fn str_eq_compares_characters() {
    assert!(str_eq("zsh", "zsh"));
    assert!(!str_eq("zsh", "bash"));
    assert!(!str_eq("zs", "zsh"));
}
