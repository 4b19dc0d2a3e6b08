use tico::justify::{break_line, find_paragraph, justify_all, justify_at, justify_paragraph, rewrap, squeeze, wrap_at};
use tico::pattern::Pattern;

fn chars(text: &str) -> Vec<Vec<char>> {
    text.lines().map(|l| l.chars().collect()).collect()
}

fn to_strings(lines: &[Vec<char>]) -> Vec<String> {
    lines.iter().map(|l| l.iter().collect()).collect()
}

#[test]
fn wrap_at_matches_nano_defaults() {
    assert_eq!(wrap_at(-8, 80), 72);
    assert_eq!(wrap_at(40, 80), 40);
    assert_eq!(wrap_at(-200, 80), 0);
}

#[test]
fn find_paragraph_skips_blank_lines_and_stops_at_the_next_blank() {
    let lines = chars("\none two three\nfour five\n\nnext para\n");
    let found = find_paragraph(&lines, 0, None);
    assert_eq!(found, Some((1, 2)));
}

#[test]
fn find_paragraph_returns_none_past_the_last_paragraph() {
    let lines = chars("text\n\n");
    assert_eq!(find_paragraph(&lines, 2, None), None);
}

#[test]
fn justify_paragraph_wraps_to_the_fill_width() {
    let lines = chars("one two three four five six seven eight nine ten");
    let out = justify_paragraph(&lines, 0, 1, None, "", "", 20, false);
    assert_eq!(
        to_strings(&out),
        vec!["one two three four ".to_string(), "five six seven eight ".to_string(), "nine ten".to_string(),]
    );
}

#[test]
fn justify_paragraph_joins_multiple_lines_into_one_before_rewrapping() {
    let lines = chars("one two\nthree four\nfive six");
    let out = justify_paragraph(&lines, 0, 3, None, "", "", 80, false);
    assert_eq!(to_strings(&out), vec!["one two three four five six".to_string()]);
}

#[test]
fn justify_paragraph_preserves_a_quote_prefix_on_every_line() {
    let quote_re = Pattern::new("^(> )+").unwrap();
    let lines = chars("> one two three four five six seven eight nine ten");
    let out = justify_paragraph(&lines, 0, 1, Some(&quote_re), "", "", 15, false);
    let strings = to_strings(&out);
    assert!(strings.len() > 1);
    assert!(strings.iter().all(|l| l.starts_with("> ")));
}

#[test]
fn squeeze_collapses_runs_of_blanks_and_trims_trailing_ones() {
    let line: Vec<char> = "  a    b   ".chars().collect();
    assert_eq!(to_strings(&[squeeze(&line, 0, "", "")]), vec![" a b".to_string()]);
}

#[test]
fn squeeze_keeps_up_to_two_spaces_after_punctuation() {
    let line: Vec<char> = "end.   next".chars().collect();
    assert_eq!(to_strings(&[squeeze(&line, 0, ".", "")]), vec!["end.  next".to_string()]);
}

#[test]
fn rewrapping_only_turns_blanks_into_breaks() {
    let text: Vec<char> = "aa bb cc dd ee".chars().collect();
    let out = rewrap(text.clone(), &[], 6, false);
    let joined: String = to_strings(&out).join(" ");
    let squashed: String = joined.split_whitespace().collect::<Vec<_>>().join(" ");
    assert_eq!(squashed, "aa bb cc dd ee");
    assert!(out.len() > 1);
}

#[test]
fn break_line_finds_the_last_blank_before_the_goal() {
    let text: Vec<char> = "one two three".chars().collect();
    assert_eq!(break_line(&text, 9), Some(8));
    let word: Vec<char> = "unbreakable".chars().collect();
    assert_eq!(break_line(&word, 4), None);
}

#[test]
fn full_justify_reflows_every_paragraph() {
    let lines = chars("one two\nthree\n\nfour five six\nseven\n");
    let out = justify_all(lines, None, "", "", 80, false).unwrap();
    assert_eq!(to_strings(&out), vec!["one two three".to_string(), "".to_string(), "four five six seven".to_string()]);
    assert_eq!(justify_all(chars("\n\n"), None, "", "", 80, false), None);
}

#[test]
fn justify_at_the_cursor_takes_its_paragraph_from_the_start() {
    let lines = chars("alpha beta\ngamma\n\ndelta");
    let (start, count, new_lines) = justify_at(&lines, 1, None, "", "", 80, false).unwrap();
    assert_eq!((start, count), (0, 2));
    assert_eq!(to_strings(&new_lines), vec!["alpha beta gamma".to_string()]);
    let (start, count, _) = justify_at(&lines, 2, None, "", "", 80, false).unwrap();
    assert_eq!((start, count), (3, 1));
    assert_eq!(justify_at(&chars("x\n\n"), 1, None, "", "", 80, false), None);
}
