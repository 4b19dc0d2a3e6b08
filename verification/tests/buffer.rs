use tico::buffer::{Buffer, Pos};

#[test]
fn insert_and_backspace() {
    let mut b = Buffer::from_text("hello\nworld", None);
    b.cursor = Pos::new(0, 5);
    b.insert_str(" there");
    assert_eq!(b.to_string(), "hello there\nworld");
    b.backspace();
    assert_eq!(b.to_string(), "hello ther\nworld");
    assert_eq!(b.cursor, Pos::new(0, 10));
}

#[test]
fn insert_newline_moves_to_next_line_col0() {
    let mut b = Buffer::from_text("ab", None);
    b.cursor = Pos::new(0, 1);
    b.insert_char('\n');
    assert_eq!(b.to_string(), "a\nb");
    assert_eq!(b.cursor, Pos::new(1, 0));
}

#[test]
fn backspace_at_line_start_joins_lines() {
    let mut b = Buffer::from_text("foo\nbar", None);
    b.cursor = Pos::new(1, 0);
    b.backspace();
    assert_eq!(b.to_string(), "foobar");
    assert_eq!(b.cursor, Pos::new(0, 3));
}

#[test]
fn delete_forward_at_eol_joins_next_line() {
    let mut b = Buffer::from_text("foo\nbar", None);
    b.cursor = Pos::new(0, 3);
    b.delete_forward();
    assert_eq!(b.to_string(), "foobar");
}

#[test]
fn undo_redo_roundtrip() {
    let mut b = Buffer::from_text("abc", None);
    b.cursor = Pos::new(0, 3);
    b.insert_str("def");
    assert_eq!(b.to_string(), "abcdef");
    assert!(b.undo());
    assert_eq!(b.to_string(), "abc");
    assert_eq!(b.cursor, Pos::new(0, 3));
    assert!(b.redo());
    assert_eq!(b.to_string(), "abcdef");
}

#[test]
fn delete_range_marked_region() {
    let mut b = Buffer::from_text("hello world", None);
    let removed = b.delete_range(Pos::new(0, 0), Pos::new(0, 6));
    assert_eq!(removed, "hello ");
    assert_eq!(b.to_string(), "world");
}

#[test]
fn move_up_down_clamps_column() {
    let mut b = Buffer::from_text("longline\nhi", None);
    b.cursor = Pos::new(0, 8);
    b.move_down();
    assert_eq!(b.cursor, Pos::new(1, 2));
    b.move_up();
    assert_eq!(b.cursor, Pos::new(0, 8));
}

#[test]
fn undo_with_nothing_done_reports_false_and_keeps_the_text() {
    let mut b = Buffer::from_text("abc", None);
    assert!(!b.undo());
    assert!(!b.redo());
    assert_eq!(b.to_string(), "abc");
}

#[test]
fn undo_of_a_deletion_restores_the_text() {
    let mut b = Buffer::from_text("one\ntwo", None);
    let removed = b.delete_range(Pos::new(0, 1), Pos::new(1, 1));
    assert_eq!(removed, "ne\nt");
    assert_eq!(b.to_string(), "owo");
    assert!(b.undo());
    assert_eq!(b.to_string(), "one\ntwo");
    assert!(b.redo());
    assert_eq!(b.to_string(), "owo");
}

#[test]
fn lines_are_read_without_their_breaks() {
    let b = Buffer::from_text("a\nbc\n", None);
    assert_eq!(b.line_count(), 3);
    assert_eq!(b.line(0), "a");
    assert_eq!(b.line(1), "bc");
    assert_eq!(b.line(2), "");
    assert_eq!(b.line(7), "");
}

#[test]
fn text_range_copies_without_changing() {
    let b = Buffer::from_text("hello\nworld", None);
    assert_eq!(b.text_range(Pos::new(0, 3), Pos::new(1, 2)), "lo\nwo");
    assert_eq!(b.to_string(), "hello\nworld");
}
