use clip_registry::matcher::fuzzy_matches;
use clip_registry::query::{parse_query, QueryMode};
use clip_registry::text::{parse_usize, str_eq, str_is_blank};

#[test]
fn empty_search_matches_every_name() {
    assert!(fuzzy_matches("Robot Notes", ""));
    assert!(fuzzy_matches("", ""));
    assert!(fuzzy_matches("Grüße 日本", ""));
}

#[test]
fn case_insensitive_substring_matches() {
    assert!(fuzzy_matches("Robot Notes", "robot"));
    assert!(fuzzy_matches("Robot Notes", "NOTES"));
    assert!(fuzzy_matches("Robot Notes", "robot notes"));
}

#[test]
fn unrelated_search_does_not_match() {
    assert!(!fuzzy_matches("Robot Notes", "zzz"));
}

#[test]
fn empty_input_is_a_default_query() {
    let q = parse_query("");
    assert_eq!(q.mode, QueryMode::Default);
    assert_eq!(q.search_text, "");
}

#[test]
fn edit_keyword_is_stripped() {
    let q = parse_query("e snippet");
    assert_eq!(q.mode, QueryMode::Edit);
    assert_eq!(q.search_text, "snippet");
    let q = parse_query("edit robot notes");
    assert_eq!(q.mode, QueryMode::Edit);
    assert_eq!(q.search_text, "robot notes");
}

#[test]
fn delete_keyword_is_stripped() {
    let q = parse_query("d pic");
    assert_eq!(q.mode, QueryMode::Delete);
    assert_eq!(q.search_text, "pic");
    let q = parse_query("delete pic");
    assert_eq!(q.mode, QueryMode::Delete);
    assert_eq!(q.search_text, "pic");
}

#[test]
fn unrecognized_leading_token_keeps_whole_input() {
    let q = parse_query("editing snippets");
    assert_eq!(q.mode, QueryMode::Default);
    assert_eq!(q.search_text, "editing snippets");
    let q = parse_query("E snippet");
    assert_eq!(q.mode, QueryMode::Default);
    assert_eq!(q.search_text, "E snippet");
}

#[test]
fn keyword_without_remainder_is_plain_search_text() {
    let q = parse_query("e");
    assert_eq!(q.mode, QueryMode::Default);
    assert_eq!(q.search_text, "e");
    let q = parse_query("e ");
    assert_eq!(q.mode, QueryMode::Edit);
    assert_eq!(q.search_text, "");
}

#[test]
fn parse_usize_accepts_digit_strings_only() {
    assert_eq!(parse_usize("0"), Some(0));
    assert_eq!(parse_usize("42"), Some(42));
    assert_eq!(parse_usize("007"), Some(7));
    assert_eq!(parse_usize(""), None);
    assert_eq!(parse_usize("-1"), None);
    assert_eq!(parse_usize("4x2"), None);
    assert_eq!(parse_usize("99999999999999999999999999"), None);
}

#[test]
fn str_helpers() {
    assert!(str_eq("abc", "abc"));
    assert!(!str_eq("abc", "abd"));
    assert!(str_is_blank(""));
    assert!(str_is_blank(" \t\r\n"));
    assert!(!str_is_blank(" a "));
}
