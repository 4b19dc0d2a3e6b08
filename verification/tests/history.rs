use tico::history::{HistoryStore, MAX_HISTORY};

#[test]
fn add_deduplicates_by_moving_to_end() {
    let mut h = HistoryStore::new();
    h.add_search("one");
    h.add_search("two");
    h.add_search("one");
    assert_eq!(h.search, vec!["two".to_string(), "one".to_string()]);
}

#[test]
fn add_caps_at_max_history() {
    let mut h = HistoryStore::new();
    for i in 0..(MAX_HISTORY + 10) {
        h.add_search(&format!("item{i}"));
    }
    assert_eq!(h.search.len(), MAX_HISTORY);
    assert_eq!(h.search.first(), Some(&"item10".to_string()));
    assert_eq!(h.search.last(), Some(&format!("item{}", MAX_HISTORY + 9)));
}

#[test]
fn empty_entries_are_ignored() {
    let mut h = HistoryStore::new();
    h.add_search("");
    assert!(h.search.is_empty());
}

#[test]
fn history_text_reads_back_the_same_lists() {
    let mut h = HistoryStore::new();
    h.add_search("foo");
    h.add_search("bar");
    h.add_replace("baz");
    h.add_execute("ls -l");
    assert!(h.changed);
    let text = h.to_text();
    assert_eq!(text, "foo\nbar\n\nbaz\n\nls -l\n");
    let back = HistoryStore::from_text(&text);
    assert_eq!(back.search, h.search);
    assert_eq!(back.replace, h.replace);
    assert_eq!(back.execute, h.execute);
    assert!(!back.changed);
}

#[test]
fn history_file_with_crlf_and_repeats_is_cleaned_on_read() {
    let back = HistoryStore::from_text("a\r\nb\r\na\r\n\r\nr\n");
    assert_eq!(back.search, vec!["b".to_string(), "a".to_string()]);
    assert_eq!(back.replace, vec!["r".to_string()]);
    assert!(back.execute.is_empty());
}

#[test]
fn history_text_reads_back_what_was_written() {
    let mut h = HistoryStore::new();
    h.search = vec!["foo".to_string(), "bar baz".to_string()];
    h.replace = vec![];
    h.execute = vec!["make".to_string()];
    let text = h.to_text();
    assert_eq!(text, "foo\nbar baz\n\n\nmake\n");
    let back = HistoryStore::from_text(&text);
    assert_eq!(back.search, h.search);
    assert_eq!(back.replace, h.replace);
    assert_eq!(back.execute, h.execute);
    assert!(!back.changed);
}
