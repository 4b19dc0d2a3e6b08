use tico::buffer::{Buffer, Pos};
use tico::editor::{
    action_changes_something, expand_backreferences, expand_replacement, find_in_lines, find_next_match_for_replace, insert_prompt_label,
    join_lines, search_prompt_label, SearchState,
};
use tico::keymap::Action;
use tico::pattern::Pattern;

fn groups(re: &str, text: &str) -> Vec<Option<String>> {
    Pattern::new(re).unwrap().captures(text).unwrap()
}

#[test]
fn backreference_expansion_basic() {
    let caps = groups(r"(\w+)@(\w+)", "alice@example");
    assert_eq!(expand_backreferences(r"\2:\1", &caps), "example:alice");
}

#[test]
fn backreference_nonparticipating_group_is_empty() {
    let caps = groups(r"(a)|(b)", "b");
    assert_eq!(expand_backreferences(r"[\1][\2]", &caps), "[][b]");
}

#[test]
fn backreference_out_of_range_is_literal() {
    let caps = groups(r"(a)", "a");
    assert_eq!(expand_backreferences(r"\5-\1", &caps), r"\5-a");
}

#[test]
fn search_labels_show_the_toggles_and_the_last_term() {
    let mut s = SearchState::default();
    assert_eq!(search_prompt_label("Search", "", &s), "Search");
    s.case_sensitive = true;
    s.use_regex = true;
    s.last_pattern = Some("apple".to_string());
    assert_eq!(search_prompt_label("Search", " (to replace)", &s), "Search [Case Sensitive] [Regexp] (to replace) [apple]");
    s.backwards = true;
    s.use_regex = false;
    s.last_pattern = Some(String::new());
    assert_eq!(search_prompt_label("Search", "", &s), "Search [Case Sensitive] [Backwards]");
}

#[test]
fn insert_labels_follow_both_toggles() {
    assert_eq!(insert_prompt_label(false, false), "File to insert [from ./]");
    assert_eq!(insert_prompt_label(true, false), "File to read into new buffer [from ./]");
    assert_eq!(insert_prompt_label(false, true), "Command to execute");
    assert_eq!(insert_prompt_label(true, true), "Command to execute in new buffer");
}

#[test]
fn only_editing_actions_change_something() {
    assert!(action_changes_something(Action::Cut));
    assert!(action_changes_something(Action::Replace));
    assert!(!action_changes_something(Action::WhereIs));
    assert!(!action_changes_something(Action::Help));
}

#[test]
fn lines_join_with_line_feeds() {
    let lines: Vec<Vec<char>> = vec!["ab".chars().collect(), vec![], "c".chars().collect()];
    assert_eq!(join_lines(&lines), "ab\n\nc");
    assert_eq!(join_lines(&[]), "");
}

fn owned(lines: &[&str]) -> Vec<String> {
    lines.iter().map(|s| s.to_string()).collect()
}

#[test]
fn search_moves_forward_and_wraps_around() {
    let lines = owned(&["foo bar\n", "bar baz\n", "qux\n"]);
    assert_eq!(find_in_lines(&lines, Pos::new(0, 0), "bar", false, true, false), Some((Pos::new(0, 4), 3)));
    assert_eq!(find_in_lines(&lines, Pos::new(0, 4), "bar", false, true, false), Some((Pos::new(1, 0), 3)));
    assert_eq!(find_in_lines(&lines, Pos::new(2, 0), "foo", false, true, false), Some((Pos::new(0, 0), 3)));
    assert_eq!(find_in_lines(&lines, Pos::new(0, 0), "zzz", false, true, false), None);
}

#[test]
fn search_backwards_takes_the_nearest_earlier_match() {
    let lines = owned(&["ab ab\n", "ab\n"]);
    assert_eq!(find_in_lines(&lines, Pos::new(0, 4), "ab", true, true, false), Some((Pos::new(0, 3), 2)));
    assert_eq!(find_in_lines(&lines, Pos::new(0, 3), "ab", true, true, false), Some((Pos::new(0, 0), 2)));
    assert_eq!(find_in_lines(&lines, Pos::new(0, 0), "ab", true, true, false), Some((Pos::new(1, 0), 2)));
}

#[test]
fn search_ignores_case_and_reads_regexes() {
    let lines = owned(&["Hello World\n"]);
    assert_eq!(find_in_lines(&lines, Pos::new(0, 0), "world", false, false, false), Some((Pos::new(0, 6), 5)));
    assert_eq!(find_in_lines(&lines, Pos::new(0, 0), "world", false, true, false), None);
    assert_eq!(find_in_lines(&lines, Pos::new(0, 0), "W.r", false, true, true), Some((Pos::new(0, 6), 3)));
    // An invalid regex is searched for as text.
    assert_eq!(find_in_lines(&owned(&["a(b\n"]), Pos::new(0, 0), "(", false, true, true), Some((Pos::new(0, 1), 1)));
}

#[test]
fn replace_search_wraps_once_and_respects_the_region() {
    let buf = Buffer::from_text("x one\none x\nx", None);
    let r = find_next_match_for_replace(&buf, Pos::new(1, 5), Pos::new(1, 5), false, None, "x", true, false);
    assert_eq!(r, Ok(Some((Pos::new(2, 0), 1, false))));
    let r = find_next_match_for_replace(&buf, Pos::new(2, 1), Pos::new(1, 5), false, None, "x", true, false);
    assert_eq!(r, Ok(Some((Pos::new(0, 0), 1, true))));
    let r = find_next_match_for_replace(&buf, Pos::new(2, 1), Pos::new(1, 5), true, None, "x", true, false);
    assert_eq!(r, Ok(None));
    let r = find_next_match_for_replace(&buf, Pos::new(0, 1), Pos::new(0, 0), false, Some(Pos::new(1, 4)), "x", true, false);
    assert_eq!(r, Ok(None));
    let r = find_next_match_for_replace(&buf, Pos::new(0, 0), Pos::new(0, 0), false, None, "(", true, true);
    assert!(r.is_err());
}

#[test]
fn replacements_expand_groups_of_the_matched_text() {
    let buf = Buffer::from_text("name: alice@example\n", None);
    let r = expand_replacement(&buf, r"(\w+)@(\w+)", r"\2/\1", Pos::new(0, 6), 13, true, true);
    assert_eq!(r, "example/alice");
    let lit = expand_replacement(&buf, "alice", r"\1", Pos::new(0, 6), 5, true, false);
    assert_eq!(lit, r"\1");
}
