use caller_modpath_aggregator::text::{extract_first_quoted, find_from, split_on_token, str_eq};

#[test]
fn splitting_yields_one_more_segment_than_occurrences() {
    assert_eq!(split_on_token("aXbXc", "X"), vec!["a", "b", "c"]);
    assert_eq!(split_on_token("no token here", "X"), vec!["no token here"]);
    assert_eq!(split_on_token("XatXstart", "X"), vec!["", "at", "start"]);
    assert_eq!(split_on_token("trailingX", "X"), vec!["trailing", ""]);
}

#[test]
fn splitting_is_leftmost_and_non_overlapping() {
    assert_eq!(split_on_token("aaa", "aa"), vec!["", "a"]);
    assert_eq!(split_on_token("abab", "ab"), vec!["", "", ""]);
}

#[test]
fn finding_returns_the_leftmost_occurrence_at_or_after_the_start() {
    assert_eq!(find_from("abcabc", "bc", 0), Some(1));
    assert_eq!(find_from("abcabc", "bc", 2), Some(4));
    assert_eq!(find_from("abcabc", "zz", 0), None);
}

#[test]
fn the_first_quoted_piece_is_extracted() {
    assert_eq!(extract_first_quoted("x \"abc\" y \"z\""), "abc");
    assert_eq!(extract_first_quoted("no quotes"), "");
    assert_eq!(extract_first_quoted("open \"unclosed rest"), "unclosed rest");
    assert_eq!(extract_first_quoted("empty \"\" here"), "");
}

#[test]
fn string_equality_is_by_characters() {
    assert!(str_eq("same", "same"));
    assert!(!str_eq("same", "Same"));
    assert!(!str_eq("short", "shorter"));
    assert!(str_eq("", ""));
}
