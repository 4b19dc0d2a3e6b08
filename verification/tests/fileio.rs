use tico::buffer::LineFormat::{Dos, Mac, Unix};
use tico::buffer::{Buffer, LineFormat};
use tico::editor::StatusLevel;
use tico::fileio::{
    convert_line_endings, describe_read, expand_tilde, home_request, open_message, serialized, three_way_merge, HomeRequest,
    MergeResult, PathState,
};

fn conv(raw: &str) -> (String, LineFormat) {
    convert_line_endings(raw, false)
}

#[test]
fn read_line_count_matches_nano() {
    assert_eq!(describe_read("a\nb\n", Unix), "Read 2 lines");
    assert_eq!(describe_read("a\nb", Unix), "Read 2 lines");
    assert_eq!(describe_read("a\nb\nc\n", Unix), "Read 3 lines");
    assert_eq!(describe_read("onlyline", Unix), "Read 1 line");
    assert_eq!(describe_read("", Unix), "Read 0 lines");
    assert_eq!(describe_read("a\nb\n", Dos), "Read 2 lines (converted from DOS format)");
    assert_eq!(describe_read("a", Mac), "Read 1 line (converted from Mac format)");
}

#[test]
fn crlf_is_stripped_and_the_first_line_break_decides_dos_format() {
    assert_eq!(conv("a\r\nb\r\n"), ("a\nb\n".to_string(), Dos));
    assert_eq!(conv("a\nb\r\n"), ("a\nb\n".to_string(), Unix));
    assert_eq!(conv("a\r\r\n"), ("a\n\n".to_string(), Mac));
    assert_eq!(conv("a\r\nb\r\r\n"), ("a\nb\r\n".to_string(), Dos));
    assert_eq!(conv(""), (String::new(), Unix));
    assert_eq!(conv("no newline"), ("no newline".to_string(), Unix));
    assert_eq!(conv("\r\n"), ("\n".to_string(), Dos));
}

#[test]
fn bare_cr_line_breaks_make_mac_format_only_from_the_first_line() {
    assert_eq!(conv("a\rb\r"), ("a\nb\n".to_string(), Mac));
    assert_eq!(conv("a\rb\rc"), ("a\nb\nc".to_string(), Mac));
    assert_eq!(conv("a\rb\r\nc"), ("a\nb\nc".to_string(), Mac));
    assert_eq!(conv("a\nb\rc\n"), ("a\nb\rc\n".to_string(), Unix));
    assert_eq!(conv("a\r\nb\rc\r\n"), ("a\nb\rc\n".to_string(), Dos));
    assert_eq!(conv("a\r"), ("a\n".to_string(), Mac));
    assert_eq!(conv("\r"), ("\n".to_string(), Mac));
    assert_eq!(conv("a\nb\r"), ("a\nb\n".to_string(), Unix));
}

#[test]
fn noconvert_keeps_the_bytes_and_never_reports_a_format() {
    assert_eq!(convert_line_endings("a\r\nb\rc", true), ("a\r\nb\rc".to_string(), LineFormat::Unix));
}

#[test]
fn buffers_serialize_with_their_formats_line_endings() {
    let mut buf = Buffer::from_text("a\nb\n", None);
    assert_eq!(serialized(&buf), "a\nb\n", "Unspecified writes as Unix");
    buf.format = LineFormat::Dos;
    assert_eq!(serialized(&buf), "a\r\nb\r\n");
    buf.format = LineFormat::Mac;
    assert_eq!(serialized(&buf), "a\rb\r");
    buf.format = LineFormat::Unix;
    assert_eq!(serialized(&buf), "a\nb\n");
}

#[test]
fn adopt_format_follows_nano() {
    let mut buf = Buffer::empty();
    buf.adopt_format(Dos, false);
    assert_eq!(buf.format, Dos, "a fresh buffer takes the file's");
    buf.adopt_format(Mac, false);
    assert_eq!(buf.format, Dos, "an existing format sticks");
    buf.adopt_format(Dos, true);
    assert_eq!(buf.format, Unix, "`set unix` overrides");
    let mut buf = Buffer::empty();
    buf.adopt_format(Unix, false);
    assert_eq!(buf.format, Unix);
}

#[test]
fn merges_non_overlapping_edits() {
    let base = "one\ntwo\nthree\nfour\n";
    let ours = "one\nTWO\nthree\nfour\n";
    let theirs = "one\ntwo\nthree\nFOUR\n";
    match three_way_merge(base, ours, theirs) {
        MergeResult::Clean { text, .. } => {
            assert_eq!(text, "one\nTWO\nthree\nFOUR\n");
        }
        MergeResult::Conflict { diff } => panic!("expected clean merge, got conflict:\n{diff}"),
    }
}

#[test]
fn detects_overlapping_conflict() {
    let base = "one\ntwo\nthree\n";
    let ours = "one\nTWO-ours\nthree\n";
    let theirs = "one\nTWO-theirs\nthree\n";
    match three_way_merge(base, ours, theirs) {
        MergeResult::Clean { text, .. } => panic!("expected conflict, got clean merge: {text}"),
        MergeResult::Conflict { .. } => {}
    }
}

#[test]
fn unchanged_when_no_diffs() {
    let base = "same\n";
    match three_way_merge(base, base, base) {
        MergeResult::Clean { text, .. } => assert_eq!(text, base),
        MergeResult::Conflict { diff } => panic!("unexpected conflict:\n{diff}"),
    }
}

#[test]
fn text_without_carriage_returns_reads_back_unchanged() {
    for raw in ["", "plain", "a\nb\n", "x\n\ny"] {
        assert_eq!(conv(raw), (raw.to_string(), LineFormat::Unix));
    }
}

#[test]
fn dos_and_mac_serialization_converts_back_to_the_buffer_text() {
    let mut buf = Buffer::from_text("one\ntwo\n", None);
    buf.format = LineFormat::Dos;
    let written = serialized(&buf);
    assert_eq!(conv(&written), ("one\ntwo\n".to_string(), LineFormat::Dos));
    buf.format = LineFormat::Mac;
    let written = serialized(&buf);
    assert_eq!(conv(&written), ("one\ntwo\n".to_string(), LineFormat::Mac));
}

#[test]
fn merge_takes_our_side_when_theirs_is_the_base() {
    let base = "a\nb\nc\n";
    let ours = "a\nB\nc\nd\n";
    match three_way_merge(base, ours, base) {
        MergeResult::Clean { text, .. } => assert_eq!(text, ours),
        MergeResult::Conflict { diff } => panic!("unexpected conflict:\n{diff}"),
    }
}

#[test]
fn theirs_unchanged_merges_to_ours_and_ours_unchanged_to_theirs() {
    let base = "a\nb\n";
    let edited = "a\nB\nc\n";
    match three_way_merge(base, base, edited) {
        MergeResult::Clean { text, .. } => assert_eq!(text, edited),
        MergeResult::Conflict { diff } => panic!("unexpected conflict:\n{diff}"),
    }
}

#[test]
fn tilde_paths_ask_for_the_right_home() {
    assert_eq!(home_request("plain/path"), HomeRequest::NoTilde);
    assert_eq!(home_request("~"), HomeRequest::Current);
    assert_eq!(home_request("~/x"), HomeRequest::Current);
    assert_eq!(home_request("~bob/x/y"), HomeRequest::User("bob".to_string()));
    assert_eq!(home_request("~bob"), HomeRequest::User("bob".to_string()));
}

#[test]
fn tilde_expansion_puts_the_home_in_front() {
    assert_eq!(expand_tilde("~", Some("/home/me")), "/home/me");
    assert_eq!(expand_tilde("~/foo/bar", Some("/home/me")), "/home/me/foo/bar");
    assert_eq!(expand_tilde("~bob/x", Some("/home/bob")), "/home/bob/x");
    assert_eq!(expand_tilde("~bob", Some("/home/bob")), "/home/bob");
    assert_eq!(expand_tilde("~nobody/x", None), "~nobody/x");
    assert_eq!(expand_tilde("relative/path", None), "relative/path");
    assert_eq!(expand_tilde("/absolute/path", Some("/home/me")), "/absolute/path");
}

#[test]
fn opening_reports_what_was_found() {
    assert_eq!(open_message("d", &PathState::Directory, false), ("'d' is a directory".to_string(), StatusLevel::Alert));
    let missing = PathState::Missing { parent: "/ro".to_string(), parent_unwritable: true };
    assert_eq!(open_message("/ro/f", &missing, true), ("Directory '/ro' is not writable".to_string(), StatusLevel::Mild));
    assert_eq!(open_message("/ro/f", &missing, false), ("New File".to_string(), StatusLevel::Normal));
    let read = PathState::Read { text: "a\nb\n".to_string(), detected: LineFormat::Dos, writable: true };
    assert_eq!(open_message("f", &read, false), ("Read 2 lines (converted from DOS format)".to_string(), StatusLevel::Normal));
    let ro = PathState::Read { text: String::new(), detected: LineFormat::Unix, writable: false };
    assert_eq!(open_message("f", &ro, false), ("File 'f' is unwritable".to_string(), StatusLevel::Alert));
    let bad = PathState::Unreadable { error: "denied".to_string() };
    assert_eq!(open_message("f", &bad, false), ("Error reading f: denied".to_string(), StatusLevel::Alert));
}

#[test]
fn the_first_line_break_decides_the_format() {
    assert_eq!(convert_line_endings("a\r\nb\rc", false).1, LineFormat::Dos);
    assert_eq!(convert_line_endings("a\rb\r\n", false), ("a\nb\n".to_string(), LineFormat::Mac));
    assert_eq!(convert_line_endings("a\nb\r\n", false).1, LineFormat::Unix);
    assert_eq!(convert_line_endings("abc\r", false), ("abc\n".to_string(), LineFormat::Mac));
    assert_eq!(convert_line_endings("abc", false), ("abc".to_string(), LineFormat::Unix));
}
