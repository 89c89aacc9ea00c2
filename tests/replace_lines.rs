use line_replace::pass::{process_lines, Tally};
use line_replace::text::{has_match, replace_match};

fn lines(v: &[&str]) -> Vec<String> {
    v.iter().map(|s| s.to_string()).collect()
}

#[test]
fn sensitive_match_is_literal_substring() {
    assert!(has_match("apple pie", "pie", true));
    assert!(has_match("apple pie", "e p", true));
    assert!(!has_match("APPLE tart", "apple", true));
    assert!(!has_match("ab", "abc", true));
}

#[test]
fn insensitive_match_ignores_case() {
    assert!(has_match("APPLE tart", "apple", false));
    assert!(has_match("apple pie", "APPLE", false));
    assert!(!has_match("banana", "apple", false));
    assert_eq!(
        has_match("MiXeD", "mixed", false),
        has_match(&"MiXeD".to_lowercase(), &"mixed".to_lowercase(), true)
    );
}

#[test]
fn empty_search_matches_every_line() {
    assert!(has_match("", "", true));
    assert!(has_match("anything", "", true));
    assert!(has_match("", "", false));
}

#[test]
fn sensitive_replace_all_occurrences() {
    assert_eq!(replace_match("a-a-a", "a", "bb", true), "bb-bb-bb");
    assert_eq!(replace_match("aaa", "aa", "x", true), "xa");
    assert_eq!(replace_match("Apple apple", "apple", "pear", true), "Apple pear");
}

#[test]
fn insensitive_replace_lowercases_whole_line() {
    assert_eq!(replace_match("APPLE Tart", "apple", "orange", false), "orange tart");
    assert_eq!(replace_match("Big APPLE", "Apple", "X", false), "big X");
}

#[test]
fn empty_search_replace_inserts_everywhere() {
    assert_eq!(replace_match("ab", "", "x", true), "xaxbx");
    assert_eq!(replace_match("", "", "x", true), "x");
}

#[test]
fn absent_search_leaves_line_unchanged() {
    assert_eq!(replace_match("banana", "apple", "orange", true), "banana");
    let mut t = Tally::new();
    let out = t.record("banana", "apple", "orange", true);
    assert_eq!(out, "banana");
    assert_eq!(t.total, 1);
    assert_eq!(t.changed, 0);
}

#[test]
fn replace_by_itself_keeps_content_but_counts() {
    let input = lines(&["apple pie", "banana", "apple apple"]);
    let (out, tally) = process_lines(&input, "apple", "apple", true);
    assert_eq!(out, input);
    assert_eq!(tally.total, 3);
    assert_eq!(tally.changed, 2);
}

#[test]
fn scenario_case_insensitive() {
    let input = lines(&["apple pie", "banana", "APPLE tart"]);
    let (out, tally) = process_lines(&input, "apple", "orange", false);
    assert_eq!(out, lines(&["orange pie", "banana", "orange tart"]));
    assert_eq!(tally.changed, 2);
    assert_eq!(tally.total, 3);
}

#[test]
fn scenario_case_sensitive() {
    let input = lines(&["apple pie", "banana", "APPLE tart"]);
    let (out, tally) = process_lines(&input, "apple", "orange", true);
    assert_eq!(out, lines(&["orange pie", "banana", "APPLE tart"]));
    assert_eq!(tally.changed, 1);
    assert_eq!(tally.total, 3);
}

#[test]
fn scenario_empty_input() {
    let (out, tally) = process_lines(&Vec::new(), "apple", "orange", false);
    assert!(out.is_empty());
    assert_eq!(tally.total, 0);
    assert_eq!(tally.changed, 0);
}

#[test]
fn line_count_is_kept() {
    let input = lines(&["", "x", "", "apple", "y"]);
    let (out, tally) = process_lines(&input, "apple", "", true);
    assert_eq!(out.len(), 5);
    assert_eq!(out, lines(&["", "x", "", "", "y"]));
    assert_eq!(tally.total, 5);
    assert!(tally.changed <= tally.total);
    assert_eq!(tally.changed, 1);
}

#[test]
fn record_counts_each_line() {
    let mut t = Tally::new();
    assert_eq!(t.record("Apple", "apple", "pear", false), "pear");
    assert_eq!(t.record("plum", "apple", "pear", false), "plum");
    assert_eq!(t.total, 2);
    assert_eq!(t.changed, 1);
}
