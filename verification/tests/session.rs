use tico::buffer::{Buffer, Pos};
use tico::editor::{Mode, Prompt, PromptKind, ReplaceChoice, ReplaceLoopState};
use tico::keymap::{Action, KeyMap};
use tico::options::Options;
use tico::session::{display_width, word_left_pos, word_right_pos, Editor, Request};

fn test_editor(text: &str) -> Editor {
    let mut ed = Editor::new(Options::default(), KeyMap::new());
    ed.buffers[0] = Buffer::from_text(text, None);
    ed
}

fn confirm_state(ed: &Editor) -> ReplaceLoopState {
    match &ed.mode {
        Mode::Prompt(Prompt { kind: PromptKind::ReplaceConfirm(s), .. }) => s.clone(),
        _ => panic!("expected a replace-confirm prompt"),
    }
}

#[test]
fn exiting_the_last_unmodified_buffer_does_not_panic() {
    let mut ed = test_editor("hello");
    ed.execute(Action::Exit);
    assert!(matches!(ed.mode, Mode::Quit));
    assert!(ed.buffers.is_empty());
}

#[test]
fn lock_flag_update_on_empty_buffers_does_not_panic() {
    let mut ed = test_editor("hello");
    ed.buffers.clear();
    ed.maybe_update_lock_modified_flag();
}

#[test]
fn justify_leaves_cursor_on_the_line_after_the_paragraph_not_its_last_line() {
    let mut ed = test_editor("one two three four five six seven eight\n\nSecond paragraph.\n");
    ed.options.fill = -65;
    ed.execute(Action::Justify);
    assert_eq!(ed.buf().cursor.col, 0);
    assert_eq!(ed.buf().line(ed.buf().cursor.line), "");
    assert!(
        ed.buf().cursor.line > 1,
        "the one-line paragraph should have been rewrapped into several lines first"
    );
}

#[test]
fn toggle_mark_sets_and_unsets_with_status_messages() {
    let mut ed = test_editor("hello world");
    ed.buf_mut().cursor = Pos::new(0, 3);
    ed.execute(Action::Mark);
    assert_eq!(ed.buf().mark, Some(Pos::new(0, 3)));
    assert!(!ed.buf().softmark, "^^ sets a hard mark, not a soft one");
    assert_eq!(ed.status.as_deref(), Some("Mark Set"));

    ed.execute(Action::Mark);
    assert_eq!(ed.buf().mark, None);
    assert_eq!(ed.status.as_deref(), Some("Mark Unset"));
}

#[test]
fn replace_loop_restricted_to_marked_region_only() {
    let mut ed = test_editor("foo one\nfoo two\nfoo three\n");
    ed.buf_mut().cursor = Pos::new(1, 0);
    ed.buf_mut().mark = Some(Pos::new(2, 0));
    ed.begin_replace_loop("foo".to_string(), "bar".to_string());
    let Mode::Prompt(prompt) = &ed.mode else {
        panic!("expected the replace-confirm prompt to be open");
    };
    let Prompt { kind: PromptKind::ReplaceConfirm(state), .. } = prompt.clone() else {
        panic!("expected PromptKind::ReplaceConfirm");
    };
    assert_eq!(state.match_pos, Pos::new(1, 0));
    assert!(ed.buf().mark.is_none(), "the mark is a one-shot restriction, cleared once replacing begins");
    ed.replace_choice(state, ReplaceChoice::All);
    assert_eq!(ed.buf().to_string(), "foo one\nbar two\nfoo three\n");
}

#[test]
fn justify_selection_treats_marked_lines_as_one_paragraph() {
    let mut ed = test_editor("one two three\nfour five six\n\nnot selected\n");
    ed.buf_mut().mark = Some(Pos::new(0, 0));
    ed.buf_mut().cursor = Pos::new(2, 0);
    ed.execute(Action::Justify);
    assert_eq!(ed.buf().to_string(), "one two three four five six\n\nnot selected\n");
    assert!(ed.buf().mark.is_none());
    assert_eq!(ed.status.as_deref(), Some("Justified selection"));
}

#[test]
fn justify_selection_reports_when_empty() {
    let mut ed = test_editor("hello");
    ed.buf_mut().mark = Some(Pos::new(0, 0));
    ed.buf_mut().cursor = Pos::new(0, 0);
    ed.execute(Action::Justify);
    assert_eq!(ed.status.as_deref(), Some("Selection is empty"));
    assert_eq!(ed.buf().to_string(), "hello");
}

#[test]
fn view_mode_blocks_edits_but_allows_movement_and_search() {
    let mut ed = test_editor("hello world");
    ed.options.view = true;

    ed.execute(Action::Cut);
    assert_eq!(ed.buf().to_string(), "hello world");
    assert_eq!(ed.status.as_deref(), Some("Key is invalid in view mode"));

    ed.execute(Action::Backspace);
    assert_eq!(ed.buf().to_string(), "hello world");

    ed.execute(Action::Delete);
    assert_eq!(ed.buf().to_string(), "hello world");

    ed.execute(Action::Right);
    assert_eq!(ed.buf().cursor, Pos::new(0, 1));
    ed.execute(Action::Copy);
    assert_eq!(ed.cutbuffer, "hello world\n");
    ed.execute(Action::Mark);
    assert_eq!(ed.status.as_deref(), Some("Mark Set"));
}

#[test]
fn view_mode_allows_read_file_but_blocks_execute_command() {
    let mut ed = test_editor("hello");
    ed.options.view = true;
    ed.execute(Action::Insert);
    assert!(
        matches!(ed.mode, Mode::Prompt(_)),
        "^R Read File isn't in nano's changes_something list, so it stays available"
    );
    ed.mode = Mode::Editing;

    ed.execute(Action::Execute);
    assert!(matches!(ed.mode, Mode::Editing));
    assert_eq!(ed.status.as_deref(), Some("Key is invalid in view mode"));
}

#[test]
fn search_scrolls_offscreen_match_into_view() {
    let text = (0..50).map(|i| format!("line{i}\n")).collect::<String>();
    let mut ed = test_editor(&text);
    ed.screen_rows = 24;
    ed.buf_mut().cursor = Pos::new(0, 0);
    ed.buf_mut().top_line = 0;
    ed.run_search("line45".to_string().as_str(), false);
    assert_eq!(ed.buf().cursor.line, 45);
    let rows = ed.text_rows();
    assert!(
        ed.buf().top_line <= 45 && 45 < ed.buf().top_line + rows,
        "match at line 45 should be within the scrolled viewport (top_line={}, rows={rows})",
        ed.buf().top_line
    );
}

#[test]
fn search_centers_offscreen_match_like_nano() {
    let text = (0..50).map(|i| format!("line{i}\n")).collect::<String>();
    let mut ed = test_editor(&text);
    ed.screen_rows = 24;
    ed.buf_mut().cursor = Pos::new(0, 0);
    ed.buf_mut().top_line = 0;
    ed.run_search("line45".to_string().as_str(), false);
    let rows = ed.text_rows();
    assert_eq!(ed.buf().top_line, 45 - rows / 2);
}

#[test]
fn search_does_not_scroll_when_match_already_visible() {
    let text = (0..50).map(|i| format!("line{i}\n")).collect::<String>();
    let mut ed = test_editor(&text);
    ed.screen_rows = 24;
    ed.buf_mut().cursor = Pos::new(0, 0);
    ed.buf_mut().top_line = 0;
    ed.run_search("line3".to_string().as_str(), false);
    assert_eq!(ed.buf().top_line, 0, "already-visible match shouldn't move the viewport");
}

#[test]
fn config_options_seed_initial_search_state() {
    let mut opts = Options::default();
    opts.casesensitive = true;
    opts.regexp = true;
    let ed = Editor::new(opts, KeyMap::new());
    assert!(ed.search.case_sensitive);
    assert!(ed.search.use_regex);
}

#[test]
fn replace_all_literal_case_insensitive() {
    let mut ed = test_editor("Foo bar foo BAR foo");
    ed.buf_mut().cursor = Pos::new(0, 0);
    ed.begin_replace_loop("foo".to_string(), "X".to_string());
    let state = confirm_state(&ed);
    assert_eq!(state.match_pos, Pos::new(0, 0));
    ed.replace_choice(state, ReplaceChoice::All);
    assert_eq!(ed.buf().to_string(), "X bar X BAR X");
    assert!(matches!(ed.mode, Mode::Editing));
}

#[test]
fn replace_yes_no_skips_and_replaces_selectively() {
    let mut ed = test_editor("cat cat cat");
    ed.buf_mut().cursor = Pos::new(0, 0);
    ed.begin_replace_loop("cat".to_string(), "dog".to_string());
    let state = confirm_state(&ed);
    ed.replace_choice(state, ReplaceChoice::No);
    let state = confirm_state(&ed);
    ed.replace_choice(state, ReplaceChoice::Yes);
    assert_eq!(ed.buf().to_string(), "cat dog cat");
    let state = confirm_state(&ed);
    ed.replace_choice(state, ReplaceChoice::Cancel);
    assert_eq!(ed.buf().to_string(), "cat dog cat");
    assert!(matches!(ed.mode, Mode::Editing));
}

#[test]
fn replace_regex_with_backreferences() {
    let mut ed = test_editor("2024-01-15");
    ed.buf_mut().cursor = Pos::new(0, 0);
    ed.search.use_regex = true;
    ed.begin_replace_loop(r"(\d+)-(\d+)-(\d+)".to_string(), r"\3/\2/\1".to_string());
    let state = confirm_state(&ed);
    ed.replace_choice(state, ReplaceChoice::Yes);
    assert_eq!(ed.buf().to_string(), "15/01/2024");
}

#[test]
fn replace_wraps_around_once_then_stops() {
    let mut ed = test_editor("x y x");
    ed.buf_mut().cursor = Pos::new(0, 4);
    ed.begin_replace_loop("x".to_string(), "Z".to_string());
    let state = confirm_state(&ed);
    assert_eq!(state.match_pos, Pos::new(0, 4));
    ed.replace_choice(state, ReplaceChoice::All);
    assert_eq!(ed.buf().to_string(), "Z y Z");
    assert!(matches!(ed.mode, Mode::Editing));
}

#[test]
fn replace_not_found_reports_status() {
    let mut ed = test_editor("hello world");
    ed.begin_replace_loop("zzz".to_string(), "y".to_string());
    assert!(matches!(ed.mode, Mode::Editing));
    assert_eq!(ed.status.as_deref(), Some("\"zzz\" not found"));
}

#[test]
fn invalid_regex_reports_status_not_panic() {
    let mut ed = test_editor("hello world");
    ed.search.use_regex = true;
    ed.begin_replace_loop("(unclosed".to_string(), "y".to_string());
    assert!(matches!(ed.mode, Mode::Editing));
    assert!(ed.status.as_deref().unwrap_or("").starts_with("Invalid regex"));
}

#[test]
fn short_line_never_scrolls_horizontally() {
    let mut ed = test_editor("short");
    ed.screen_cols = 60;
    ed.buf_mut().cursor.col = 5;
    ed.scroll_to_cursor();
    assert_eq!(ed.buf().left_col, 0);
}

#[test]
fn long_line_scrolls_to_keep_cursor_visible() {
    let mut ed = test_editor(&"x".repeat(200));
    ed.screen_cols = 60;
    for _ in 0..65 {
        ed.execute(Action::Right);
    }
    assert_eq!(ed.buf().cursor.col, 65);
    assert!(ed.buf().left_col > 0, "cursor at column 65 in a 60-wide view should have scrolled");
    assert!(
        ed.buf().cursor.col > ed.buf().left_col && ed.buf().cursor.col < ed.buf().left_col + ed.screen_cols,
        "cursor (col={}) should be inside the scrolled window (left_col={})",
        ed.buf().cursor.col,
        ed.buf().left_col
    );
}

#[test]
fn scroll_resets_when_cursor_returns_near_start() {
    let mut ed = test_editor(&"x".repeat(200));
    ed.screen_cols = 60;
    for _ in 0..65 {
        ed.execute(Action::Right);
    }
    assert!(ed.buf().left_col > 0);
    ed.buf_mut().cursor.col = 0;
    ed.scroll_to_cursor();
    assert_eq!(ed.buf().left_col, 0);
}

#[test]
fn narrow_screen_does_not_panic() {
    let mut ed = test_editor(&"x".repeat(50));
    ed.screen_cols = 3;
    for _ in 0..20 {
        ed.execute(Action::Right);
    }
}

// ---------------------------------------------------------------------
// Further cases.
// ---------------------------------------------------------------------

#[test]
fn consecutive_cuts_add_up_and_other_actions_break_the_chain() {
    let mut ed = test_editor("a\nb\nc\n");
    ed.execute(Action::Cut);
    ed.execute(Action::Cut);
    assert_eq!(ed.cutbuffer, "a\nb\n");
    assert_eq!(ed.buf().to_string(), "c\n");
    ed.execute(Action::Right);
    ed.execute(Action::Cut);
    assert_eq!(ed.cutbuffer, "c\n");
}

#[test]
fn paste_types_the_cut_buffer_at_the_cursor() {
    let mut ed = test_editor("one\ntwo\n");
    ed.execute(Action::Cut);
    ed.execute(Action::Down);
    ed.execute(Action::Paste);
    assert_eq!(ed.buf().to_string(), "two\none\n");
    assert_eq!(ed.status.as_deref(), Some("Pasted"));
}

#[test]
fn undo_and_redo_report_on_the_status_bar() {
    let mut ed = test_editor("ab");
    ed.execute(Action::Undo);
    assert_eq!(ed.status.as_deref(), Some("Nothing to undo"));
    ed.execute(Action::Delete);
    assert_eq!(ed.buf().to_string(), "b");
    ed.execute(Action::Undo);
    assert_eq!(ed.buf().to_string(), "ab");
    assert_eq!(ed.status.as_deref(), Some("Undo"));
    ed.execute(Action::Redo);
    assert_eq!(ed.buf().to_string(), "b");
    assert_eq!(ed.status.as_deref(), Some("Redo"));
}

#[test]
fn location_and_word_count_messages() {
    let mut ed = test_editor("hello big world\nsecond line");
    ed.buf_mut().cursor = Pos::new(1, 3);
    ed.execute(Action::Location);
    assert_eq!(ed.status.as_deref(), Some("line 2/2, col 4"));
    ed.execute(Action::WordCount);
    assert_eq!(ed.status.as_deref(), Some("2 lines, 5 words, 27 characters"));
}

#[test]
fn word_movement_stops_at_word_starts() {
    let buf = Buffer::from_text("foo_bar  baz\n\nqux", None);
    assert_eq!(word_right_pos(&buf, Pos::new(0, 0)), Pos::new(0, 9));
    assert_eq!(word_right_pos(&buf, Pos::new(0, 9)), Pos::new(1, 0));
    assert_eq!(word_left_pos(&buf, Pos::new(0, 12)), Pos::new(0, 9));
    assert_eq!(word_left_pos(&buf, Pos::new(0, 9)), Pos::new(0, 0));
    assert_eq!(word_left_pos(&buf, Pos::new(2, 0)), Pos::new(1, 0));
}

#[test]
fn enter_keeps_the_indentation_with_autoindent() {
    let mut ed = test_editor("  \tindented");
    ed.options.autoindent = true;
    ed.buf_mut().cursor = Pos::new(0, 11);
    ed.execute(Action::Enter);
    assert_eq!(ed.buf().to_string(), "  \tindented\n  \t");
    assert_eq!(ed.buf().cursor, Pos::new(1, 3));
}

#[test]
fn tab_as_spaces_types_tabsize_spaces() {
    let mut ed = test_editor("");
    ed.options.tabstospaces = true;
    ed.options.tabsize = 4;
    ed.insert_char('\t');
    assert_eq!(ed.buf().to_string(), "    ");
    ed.options.tabstospaces = false;
    ed.insert_char('\t');
    assert_eq!(ed.buf().to_string(), "    \t");
}

#[test]
fn toggles_flip_options_and_search_settings() {
    let mut ed = test_editor("x");
    let before = ed.options.linenumbers;
    ed.execute(Action::LineNumbers);
    assert_eq!(ed.options.linenumbers, !before);
    ed.execute(Action::CaseSens);
    assert!(ed.search.case_sensitive);
    ed.execute(Action::Backwards);
    assert!(ed.search.backwards);
}

#[test]
fn gutter_and_text_rows_follow_the_options() {
    let mut ed = test_editor(&"x\n".repeat(120));
    assert_eq!(ed.gutter_width(), 0);
    ed.options.linenumbers = true;
    assert_eq!(ed.gutter_width(), 4);
    assert_eq!(ed.text_rows(), 20);
    ed.options.nohelp = true;
    assert_eq!(ed.text_rows(), 22);
    ed.options.minibar = true;
    assert_eq!(ed.text_rows(), 23);
    ed.options.zero = true;
    assert_eq!(ed.text_rows(), 24);
    ed.screen_rows = 0;
    assert_eq!(ed.text_rows(), 1);
}

#[test]
fn display_width_expands_tabs() {
    assert_eq!(display_width("a\tb", 3, 8), 9);
    assert_eq!(display_width("abc", 2, 8), 2);
    assert_eq!(display_width("abc", 10, 8), 3);
    assert_eq!(display_width("\t\t", 2, 4), 8);
}

#[test]
fn status_countdown_wipes_the_message() {
    let mut ed = test_editor("x");
    ed.options.quickblank = true;
    ed.set_status("hi");
    assert!(ed.tick_status_countdown());
    assert_eq!(ed.status, None);
    assert!(!ed.tick_status_countdown());
}

#[test]
fn save_is_handed_back_or_opens_write_out() {
    let mut ed = test_editor("x");
    assert!(ed.execute(Action::SaveFile).is_none());
    assert!(matches!(ed.mode, Mode::Prompt(Prompt { kind: PromptKind::WriteOut { exiting: false }, .. })));
    ed.mode = Mode::Editing;
    ed.buffers[0].path = Some("f.txt".to_string());
    assert!(matches!(ed.execute(Action::SaveFile), Some(Request::Save(p)) if p == "f.txt"));
    ed.report_save("f.txt", None);
    assert_eq!(ed.status.as_deref(), Some("Wrote f.txt"));
    ed.report_save("f.txt", Some("denied"));
    assert_eq!(ed.status.as_deref(), Some("Error writing f.txt: denied"));
}

#[test]
fn exit_hands_back_the_lock_and_asks_when_modified() {
    let mut ed = test_editor("x");
    ed.buffers[0].lock_filename = Some(".x.swp".to_string());
    ed.buffers[0].modified = true;
    assert!(ed.execute(Action::Exit).is_none());
    assert!(matches!(&ed.mode, Mode::Prompt(p) if p.label == "Save modified buffer? "));
    ed.mode = Mode::Editing;
    ed.buffers[0].modified = false;
    assert!(matches!(ed.execute(Action::Exit), Some(Request::DeleteLock(l)) if l == ".x.swp"));
    assert!(matches!(ed.mode, Mode::Quit));
}

#[test]
fn lock_flag_is_rewritten_once_after_a_change() {
    let mut ed = test_editor("x");
    ed.buffers[0].lock_filename = Some(".f.swp".to_string());
    ed.buffers[0].path = Some("f".to_string());
    assert!(ed.maybe_update_lock_modified_flag().is_none());
    ed.insert_char('y');
    assert_eq!(ed.maybe_update_lock_modified_flag(), Some((".f.swp".to_string(), "f".to_string())));
    assert!(ed.maybe_update_lock_modified_flag().is_none());
}

#[test]
fn merge_preview_opens_the_diff_viewer() {
    let mut ed = test_editor("a\nb\n");
    ed.begin_merge_preview(Some("a\nb\nc\n"));
    assert!(matches!(ed.mode, Mode::Editing), "a buffer without a path has nothing to merge with");
    ed.buffers[0].path = Some("f".to_string());
    ed.begin_merge_preview(None);
    assert_eq!(ed.status.as_deref(), Some("Could not re-read file from disk"));
    ed.begin_merge_preview(Some("a\nb\nc\n"));
    match &ed.mode {
        Mode::Diff { lines, top, outcome } => {
            assert_eq!(*top, 0);
            assert_eq!(lines[0], "Merge preview -- [A]pply  [C]ancel");
            assert!(matches!(outcome, tico::editor::DiffOutcome::ApplyMerge { merged_text } if merged_text == "a\nb\nc\n"));
        }
        _ => panic!("expected the diff viewer"),
    }
}

#[test]
fn full_justify_rewraps_every_paragraph() {
    let mut ed = test_editor("one two\nthree\n\nfour\nfive\n");
    ed.execute(Action::FullJustify);
    assert_eq!(ed.buf().to_string(), "one two three\n\nfour five\n");
    assert_eq!(ed.status.as_deref(), Some("Justified file"));
    let mut ed = test_editor("\n\n");
    ed.execute(Action::FullJustify);
    assert_eq!(ed.status.as_deref(), Some("Nothing to justify"));
}

#[test]
fn replace_counts_what_it_replaced() {
    let mut ed = test_editor("a a a");
    ed.begin_replace_loop("a".to_string(), "b".to_string());
    let state = confirm_state(&ed);
    ed.replace_choice(state, ReplaceChoice::All);
    assert_eq!(ed.status.as_deref(), Some("Replaced 3 occurrences"));
    let mut ed = test_editor("a");
    ed.begin_replace_loop("a".to_string(), "b".to_string());
    let state = confirm_state(&ed);
    ed.replace_choice(state, ReplaceChoice::Cancel);
    assert_eq!(ed.status.as_deref(), Some("No replacements made"));
}

#[test]
fn switching_buffers_goes_round() {
    let mut ed = test_editor("first");
    ed.buffers.push(Buffer::from_text("second", None));
    ed.execute(Action::NextBuf);
    assert_eq!(ed.current, 1);
    ed.execute(Action::NextBuf);
    assert_eq!(ed.current, 0);
    ed.execute(Action::PrevBuf);
    assert_eq!(ed.current, 1);
}

#[test]
fn only_a_timed_highlight_goes_out_when_its_time_comes() {
    let mut ed = test_editor("find me");
    ed.set_spotlight_persistent(Pos::new(0, 0), 4);
    assert!(!ed.expire_spotlight(true));
    assert_eq!(ed.spotlight, Some((Pos::new(0, 0), 4)));
    ed.run_search("me", false);
    assert!(ed.spotlight_deadline.is_some());
    assert!(!ed.expire_spotlight(false));
    assert_eq!(ed.spotlight, Some((Pos::new(0, 5), 2)));
    assert!(ed.expire_spotlight(true));
    assert_eq!(ed.spotlight, None);
    assert!(ed.spotlight_deadline.is_none());
}
