//! Reading and writing files' text: line-ending conversion on read, the
//! bytes written on save, the read summary, noticing that the file changed
//! on disk, and three-way merging local edits with such a change.

use crate::buffer::{Buffer, DiskState, FileTime, LineFormat, Pos};
use crate::editor::StatusLevel;
use crate::text::{decimal, find_char, first_index, push_all, push_decimal, push_str, str_chars, string_from_chars, sub_chars};
use vstd::prelude::*;

verus! {

// ---------------------------------------------------------------------------
// Line-ending conversion on read
// ---------------------------------------------------------------------------

/// The reader's state after some prefix of the raw text: the converted text
/// so far, the pending (unterminated) line, whether a line break has been
/// seen yet, and the format detected so far.
pub type ConvState = (Seq<char>, Seq<char>, bool, LineFormat);

pub open spec fn ends_with_cr(line: Seq<char>) -> bool {
    line.len() > 0 && line.last() == '\r'
}

/// One character of nano's read loop.
pub open spec fn conv_step(st: ConvState, c: char) -> ConvState {
    let (out, line, broke, fmt) = st;
    if c == '\n' {
        let fmt2 = if ends_with_cr(line) && !broke { LineFormat::Dos } else { fmt };
        let line2 = if ends_with_cr(line) { line.drop_last() } else { line };
        (out + line2 + seq!['\n'], Seq::empty(), true, fmt2)
    } else if (!broke || fmt == LineFormat::Mac) && ends_with_cr(line) {
        (out + line.drop_last() + seq!['\n'], seq![c], true, LineFormat::Mac)
    } else {
        (out, line.push(c), broke, fmt)
    }
}

/// The reader's state after all of `raw`.
pub open spec fn conv_fold(raw: Seq<char>) -> ConvState
    decreases raw.len(),
{
    if raw.len() == 0 {
        (Seq::empty(), Seq::empty(), false, LineFormat::Unix)
    } else {
        conv_step(conv_fold(raw.drop_last()), raw.last())
    }
}

/// The end of the read: a pending line is flushed, and a CR ending the file
/// is a line break (which, before any other break, means Mac format).
pub open spec fn conv_finish(st: ConvState) -> (Seq<char>, LineFormat) {
    let (out, line, broke, fmt) = st;
    if line.len() == 0 {
        (out, fmt)
    } else if ends_with_cr(line) {
        (out + line.drop_last() + seq!['\n'], if !broke { LineFormat::Mac } else { fmt })
    } else {
        (out + line, fmt)
    }
}

/// The converted text and detected format of `raw`, as nano reads a file.
pub open spec fn converted(raw: Seq<char>, noconvert: bool) -> (Seq<char>, LineFormat) {
    if noconvert {
        (raw, LineFormat::Unix)
    } else {
        conv_finish(conv_fold(raw))
    }
}

/// nano's line-ending conversion on read, returning the converted text and
/// the format it found. Unless `noconvert` (which returns the text untouched
/// and reports Unix): a CR directly before an LF is dropped, and the file is
/// DOS format when its first line break was such a CR LF; a bare CR followed
/// by another character is a line break only on the first line or once the
/// file is known to be Mac format; a CR ending the file is a line break too.
pub fn convert_line_endings(raw: &str, noconvert: bool) -> (r: (String, LineFormat))
    ensures
        (r.0@, r.1) == converted(raw@, noconvert),
{
    let cs = str_chars(raw);
    if noconvert {
        return (string_from_chars(cs.as_slice()), LineFormat::Unix);
    }
    let mut out: Vec<char> = Vec::new();
    let mut line: Vec<char> = Vec::new();
    let mut broke = false;
    let mut fmt = LineFormat::Unix;
    let mut i: usize = 0;
    while i < cs.len()
        invariant
            i <= cs.len(),
            cs@ == raw@,
            (out@, line@, broke, fmt) == conv_fold(cs@.take(i as int)),
        decreases cs.len() - i,
    {
        let c = cs[i];
        proof {
            assert(cs@.take(i + 1).drop_last() =~= cs@.take(i as int));
            assert(cs@.take(i + 1).last() == c);
        }
        let n = line.len();
        let cr_end = n > 0 && line[n - 1] == '\r';
        if c == '\n' {
            if cr_end {
                if !broke {
                    fmt = LineFormat::Dos;
                }
                line.pop();
            }
            push_all(&mut out, line.as_slice());
            out.push('\n');
            broke = true;
            line = Vec::new();
        } else if (!broke || matches!(fmt, LineFormat::Mac)) && cr_end {
            fmt = LineFormat::Mac;
            line.pop();
            push_all(&mut out, line.as_slice());
            out.push('\n');
            broke = true;
            line = Vec::new();
            line.push(c);
        } else {
            line.push(c);
        }
        proof {
            assert(line@ == conv_fold(cs@.take(i + 1)).1);
        }
        i += 1;
    }
    proof {
        assert(cs@.take(cs.len() as int) =~= cs@);
    }
    let n = line.len();
    if n > 0 {
        if line[n - 1] == '\r' {
            if !broke {
                fmt = LineFormat::Mac;
            }
            line.pop();
            push_all(&mut out, line.as_slice());
            out.push('\n');
        } else {
            push_all(&mut out, line.as_slice());
        }
    }
    (string_from_chars(out.as_slice()), fmt)
}

/// The state the reader is in on text without any CR: everything but the
/// pending line has been written out unchanged, and the format is Unix.
proof fn conv_fold_without_cr(raw: Seq<char>)
    requires
        !raw.contains('\r'),
    ensures
        conv_fold(raw).0 + conv_fold(raw).1 == raw,
        !conv_fold(raw).1.contains('\r'),
        conv_fold(raw).3 == LineFormat::Unix,
    decreases raw.len(),
{
    if raw.len() > 0 {
        let init = raw.drop_last();
        assert forall|k: int| 0 <= k < init.len() implies init[k] != '\r' by {
            assert(raw[k] == init[k]);
        }
        conv_fold_without_cr(init);
        let st = conv_fold(init);
        assert(!ends_with_cr(st.1)) by {
            if st.1.len() > 0 {
                assert(st.1.contains(st.1.last()));
            }
        }
        let c = raw.last();
        assert(raw.contains(c));
        assert(raw =~= init.push(c));
        if c == '\n' {
            assert(st.0 + st.1 + seq!['\n'] =~= raw);
        } else {
            assert(st.0 + st.1.push(c) =~= raw);
            assert forall|k: int| 0 <= k < st.1.push(c).len() implies st.1.push(c)[k] != '\r' by {
                if k < st.1.len() {
                    assert(st.1.contains(st.1[k]));
                }
            }
        }
    }
}

/// Text without a carriage return reads back unchanged, as Unix format.
pub proof fn text_without_cr_reads_unchanged(raw: Seq<char>, noconvert: bool)
    requires
        !raw.contains('\r'),
    ensures
        converted(raw, noconvert) == (raw, LineFormat::Unix),
{
    if !noconvert {
        conv_fold_without_cr(raw);
        let st = conv_fold(raw);
        assert(!ends_with_cr(st.1)) by {
            if st.1.len() > 0 {
                assert(st.1.contains(st.1.last()));
            }
        }
        if st.1.len() == 0 {
            assert(st.0 =~= raw);
        }
    }
}

/// The index of the first line-break character (`\r` or `\n`) of `s`.
pub open spec fn first_break(s: Seq<char>) -> Option<int>
    decreases s.len(),
{
    if s.len() == 0 {
        None
    } else {
        match first_break(s.drop_last()) {
            Some(i) => Some(i),
            None => if s.last() == '\r' || s.last() == '\n' {
                Some(s.len() - 1)
            } else {
                None
            },
        }
    }
}

/// The format the first line break of `s` shows: DOS for a CR LF, Mac for
/// a CR followed by anything else or ending the text, Unix for an LF or no
/// break at all.
pub open spec fn format_of_first_break(s: Seq<char>) -> LineFormat {
    match first_break(s) {
        None => LineFormat::Unix,
        Some(i) => if s[i] == '\n' {
            LineFormat::Unix
        } else if i + 1 < s.len() && s[i + 1] == '\n' {
            LineFormat::Dos
        } else {
            LineFormat::Mac
        },
    }
}

/// No carriage return in `s`.
pub open spec fn cr_free(s: Seq<char>) -> bool {
    forall|j: int| 0 <= j < s.len() ==> s[j] != '\r'
}

/// No carriage return in `s` but perhaps its last character.
pub open spec fn cr_only_last(s: Seq<char>) -> bool {
    forall|j: int| 0 <= j < s.len() - 1 ==> s[j] != '\r'
}

proof fn lemma_first_break_found(s: Seq<char>)
    ensures
        match first_break(s) {
            Some(i) => 0 <= i < s.len() && (s[i] == '\r' || s[i] == '\n') && forall|j: int| 0 <= j < i ==> s[j] != '\r' && s[j] != '\n',
            None => forall|j: int| 0 <= j < s.len() ==> s[j] != '\r' && s[j] != '\n',
        },
    decreases s.len(),
{
    if s.len() > 0 {
        let t = s.drop_last();
        lemma_first_break_found(t);
        assert forall|j: int| 0 <= j < t.len() implies s[j] == t[j] by {}
    }
}

proof fn lemma_fold_by_first_break(s: Seq<char>)
    ensures
        ({
            let (out, line, broke, fmt) = conv_fold(s);
            &&& out.len() + line.len() <= s.len()
            &&& match first_break(s) {
                None => out == Seq::<char>::empty() && line == s && !broke && fmt == LineFormat::Unix,
                Some(i) => if i == s.len() - 1 && s[i] == '\r' {
                    out == Seq::<char>::empty() && line == s && !broke && fmt == LineFormat::Unix
                } else {
                    &&& broke
                    &&& fmt == format_of_first_break(s)
                    &&& fmt == LineFormat::Mac ==> cr_free(out) && cr_only_last(line)
                },
            }
        }),
    decreases s.len(),
{
    if s.len() > 0 {
        let t = s.drop_last();
        let c = s.last();
        lemma_fold_by_first_break(t);
        lemma_first_break_found(t);
        lemma_first_break_found(s);
        let (out, line, broke, fmt) = conv_fold(t);
        assert(conv_fold(s) == conv_step(conv_fold(t), c));
        assert forall|j: int| 0 <= j < t.len() implies s[j] == t[j] by {}
        match first_break(t) {
            None => {
                if line.len() > 0 {
                    assert(line.last() == t[t.len() - 1]);
                }
                if c == '\r' {
                    assert(first_break(s) == Some(s.len() - 1));
                    assert(line.push(c) =~= s);
                } else if c == '\n' {
                    assert(first_break(s) == Some(s.len() - 1));
                } else {
                    assert(line.push(c) =~= s);
                }
            },
            Some(i) => {
                assert(first_break(s) == Some(i));
                if i == t.len() - 1 && t[i] == '\r' {
                    assert(ends_with_cr(line));
                    assert forall|j: int| 0 <= j < line.drop_last().len() implies line.drop_last()[j] != '\r' by {
                        assert(line.drop_last()[j] == t[j]);
                    }
                    assert(s[i + 1] == c);
                    if c != '\n' {
                        let out2 = out + line.drop_last() + seq!['\n'];
                        assert forall|j: int| 0 <= j < out2.len() implies out2[j] != '\r' by {
                            if j < line.drop_last().len() {
                                assert(out2[j] == line.drop_last()[j]);
                            }
                        }
                    }
                } else {
                    assert(i + 1 < t.len() ==> s[i + 1] == t[i + 1]);
                    assert(format_of_first_break(s) == format_of_first_break(t));
                    if fmt == LineFormat::Mac {
                        let l0 = line.drop_last();
                        if c == '\n' {
                            let line2 = if ends_with_cr(line) { l0 } else { line };
                            assert forall|j: int| 0 <= j < line2.len() implies line2[j] != '\r' by {
                                assert(line2[j] == line[j]);
                            }
                            let out2 = out + line2 + seq!['\n'];
                            assert forall|j: int| 0 <= j < out2.len() implies out2[j] != '\r' by {
                                if j < out.len() {
                                    assert(out2[j] == out[j]);
                                } else if j < out.len() + line2.len() {
                                    assert(out2[j] == line2[j - out.len()]);
                                }
                            }
                        } else if ends_with_cr(line) {
                            let out2 = out + l0 + seq!['\n'];
                            assert forall|j: int| 0 <= j < out2.len() implies out2[j] != '\r' by {
                                if j < out.len() {
                                    assert(out2[j] == out[j]);
                                } else if j < out.len() + l0.len() {
                                    assert(out2[j] == l0[j - out.len()]);
                                    assert(l0[j - out.len()] == line[j - out.len()]);
                                }
                            }
                        } else {
                            assert(cr_free(line));
                            assert forall|j: int| 0 <= j < line.push(c).len() - 1 implies line.push(c)[j] != '\r' by {
                                assert(line.push(c)[j] == line[j]);
                            }
                        }
                    }
                }
            },
        }
    }
}

/// The format nano reads a text in is the one its first line break shows
/// (DOS for CR LF, Mac for a lone CR, Unix for LF or none); the converted
/// text is never longer than the raw one, and a text read as Mac format
/// keeps no carriage return.
pub proof fn law_format_is_the_first_breaks(raw: Seq<char>)
    ensures
        converted(raw, false).1 == format_of_first_break(raw),
        converted(raw, false).0.len() <= raw.len(),
        converted(raw, false).1 == LineFormat::Mac ==> cr_free(converted(raw, false).0),
{
    lemma_fold_by_first_break(raw);
    lemma_first_break_found(raw);
    let (out, line, broke, fmt) = conv_fold(raw);
    if line.len() > 0 {
        assert(line.last() == line[line.len() - 1]);
        let l0 = line.drop_last();
        if first_break(raw) is None {
            assert(line[line.len() - 1] == raw[raw.len() - 1]);
        }
        if ends_with_cr(line) {
            let out2 = out + l0 + seq!['\n'];
            if fmt == LineFormat::Mac || !broke {
                assert forall|j: int| 0 <= j < l0.len() implies l0[j] != '\r' by {
                    assert(l0[j] == line[j]);
                    if !broke {
                        assert(l0[j] == raw[j]);
                    }
                }
                assert forall|j: int| 0 <= j < out2.len() implies out2[j] != '\r' by {
                    if j < out.len() {
                        assert(out2[j] == out[j]);
                    } else if j < out.len() + l0.len() {
                        assert(out2[j] == l0[j - out.len()]);
                    }
                }
            }
        } else if fmt == LineFormat::Mac {
            assert(cr_free(line));
            let out2 = out + line;
            assert forall|j: int| 0 <= j < out2.len() implies out2[j] != '\r' by {
                if j < out.len() {
                    assert(out2[j] == out[j]);
                } else {
                    assert(out2[j] == line[j - out.len()]);
                }
            }
        }
    }
}

// ---------------------------------------------------------------------------
// The read summary
// ---------------------------------------------------------------------------

/// The number of '\n' characters in `s`.
pub open spec fn newline_count(s: Seq<char>) -> nat
    decreases s.len(),
{
    if s.len() == 0 {
        0
    } else {
        newline_count(s.drop_last()) + if s.last() == '\n' { 1nat } else { 0nat }
    }
}

/// Lines of content as nano counts them: a final line without a newline
/// counts, an empty line after a final newline does not.
pub open spec fn nano_line_count(s: Seq<char>) -> nat {
    if s.len() == 0 {
        0
    } else if s.last() == '\n' {
        newline_count(s)
    } else {
        newline_count(s) + 1
    }
}

proof fn newline_count_bounded(s: Seq<char>)
    ensures
        newline_count(s) <= s.len(),
    decreases s.len(),
{
    if s.len() > 0 {
        newline_count_bounded(s.drop_last());
    }
}

fn nano_style_line_count(text: &str) -> (n: usize)
    ensures
        n == nano_line_count(text@),
{
    let cs = str_chars(text);
    let mut count: usize = 0;
    let mut i: usize = 0;
    while i < cs.len()
        invariant
            i <= cs.len(),
            cs@ == text@,
            count == newline_count(cs@.take(i as int)),
        decreases cs.len() - i,
    {
        proof {
            assert(cs@.take(i + 1).drop_last() =~= cs@.take(i as int));
            newline_count_bounded(cs@.take(i as int));
        }
        if cs[i] == '\n' {
            count += 1;
        }
        i += 1;
    }
    proof {
        assert(cs@.take(cs.len() as int) =~= cs@);
        newline_count_bounded(cs@);
    }
    let n = cs.len();
    proof {
        if n > 0 {
            newline_count_bounded(cs@.drop_last());
        }
    }
    if n == 0 {
        0
    } else if cs[n - 1] == '\n' {
        count
    } else {
        count + 1
    }
}

/// The "(converted from ... format)" note for a detected format.
pub open spec fn format_note(detected: LineFormat) -> Seq<char> {
    match detected {
        LineFormat::Dos => " (converted from DOS format)"@,
        LineFormat::Mac => " (converted from Mac format)"@,
        _ => Seq::empty(),
    }
}

/// nano's message after loading `text`: "Read N line(s)", plus the format
/// note for a converted file.
pub open spec fn read_summary(text: Seq<char>, detected: LineFormat) -> Seq<char> {
    let n = nano_line_count(text);
    "Read "@ + decimal(n) + (if n == 1 { " line"@ } else { " lines"@ }) + format_note(detected)
}

/// A human-readable summary of a freshly loaded file's size, matching nano's
/// post-load status message, with the note for the format
/// `convert_line_endings` detected.
pub fn describe_read(text: &str, detected: LineFormat) -> (s: String)
    ensures
        s@ == read_summary(text@, detected),
{
    let n = nano_style_line_count(text);
    let mut out: Vec<char> = Vec::new();
    push_str(&mut out, "Read ");
    push_decimal(&mut out, n);
    if n == 1 {
        push_str(&mut out, " line");
    } else {
        push_str(&mut out, " lines");
    }
    match detected {
        LineFormat::Dos => push_str(&mut out, " (converted from DOS format)"),
        LineFormat::Mac => push_str(&mut out, " (converted from Mac format)"),
        _ => {},
    }
    proof {
        let note = format_note(detected);
        assert(out@ =~= read_summary(text@, detected));
    }
    string_from_chars(out.as_slice())
}

// ---------------------------------------------------------------------------
// Writing
// ---------------------------------------------------------------------------

/// The characters a line feed of the buffer is written as.
pub open spec fn line_break(format: LineFormat) -> Seq<char> {
    match format {
        LineFormat::Dos => seq!['\r', '\n'],
        LineFormat::Mac => seq!['\r'],
        _ => seq!['\n'],
    }
}

/// The text written for buffer text `t` in `format`: every line feed
/// written as CR LF for DOS format and as a bare CR for Mac format.
pub open spec fn serialized_text(t: Seq<char>, format: LineFormat) -> Seq<char>
    decreases t.len(),
{
    if t.len() == 0 {
        Seq::empty()
    } else {
        serialized_text(t.drop_last(), format) + if t.last() == '\n' { line_break(format) } else { seq![t.last()] }
    }
}

/// The text `save_file` writes for `buffer`: its text, with every line break
/// written as CR LF for a DOS-format buffer or a bare CR for a Mac one (as
/// nano writes them).
pub fn serialized(buffer: &Buffer) -> (s: String)
    ensures
        s@ == serialized_text(buffer.text(), buffer.format),
{
    let text = buffer.to_string();
    let cs = str_chars(text.as_str());
    let mut out: Vec<char> = Vec::new();
    let mut i: usize = 0;
    while i < cs.len()
        invariant
            i <= cs@.len(),
            cs@ == buffer.text(),
            out@ == serialized_text(cs@.take(i as int), buffer.format),
        decreases cs.len() - i,
    {
        proof {
            assert(cs@.take(i + 1).drop_last() =~= cs@.take(i as int));
        }
        let c = cs[i];
        if c == '\n' {
            match buffer.format {
                LineFormat::Dos => {
                    out.push('\r');
                    out.push('\n');
                },
                LineFormat::Mac => out.push('\r'),
                _ => out.push('\n'),
            }
        } else {
            out.push(c);
        }
        proof {
            assert(out@ =~= serialized_text(cs@.take(i + 1), buffer.format));
        }
        i += 1;
    }
    proof {
        assert(cs@.take(cs@.len() as int) =~= cs@);
    }
    string_from_chars(out.as_slice())
}

// ---------------------------------------------------------------------------
// Changes on disk
// ---------------------------------------------------------------------------

/// Whether a file changed on disk since it was loaded or saved here.
#[derive(Debug, Clone, Copy, PartialEq, Eq, Structural)]
pub enum ExternalChange {
    Unchanged,
    /// Disk changed, buffer has no local edits: safe to reload silently.
    ChangedNoLocalEdits,
    /// Disk changed and there are local edits: the user must choose.
    ChangedWithLocalEdits,
}

/// Whether the file's size and modification time are still the ones seen
/// when it was loaded or saved (the cheap check made before re-reading it).
pub open spec fn same_stat(known: DiskState, len: u64, mtime: Option<FileTime>) -> bool {
    len == known.len && mtime == known.mtime
}

pub fn stat_unchanged(known: &DiskState, len: u64, mtime: Option<FileTime>) -> (r: bool)
    ensures
        r == same_stat(*known, len, mtime),
{
    len == known.len && mtime == known.mtime
}

/// The verdict on a file that has a path and a known disk state, given the
/// stat taken now (`None` when it failed), the state read now (`None` when
/// reading failed), and whether the buffer has local edits: unchanged when
/// the size and time match, when it cannot be read, or when its content
/// hashes as before; otherwise changed, with or without local edits.
pub open spec fn change_verdict(
    known: DiskState,
    stat: Option<(u64, Option<FileTime>)>,
    current: Option<DiskState>,
    modified: bool,
) -> ExternalChange {
    if stat matches Some((len, mtime)) && same_stat(known, len, mtime) {
        ExternalChange::Unchanged
    } else {
        match current {
            None => ExternalChange::Unchanged,
            Some(c) => if c.content_hash == known.content_hash {
                ExternalChange::Unchanged
            } else if modified {
                ExternalChange::ChangedWithLocalEdits
            } else {
                ExternalChange::ChangedNoLocalEdits
            },
        }
    }
}

/// Decide whether the file changed on disk (see `change_verdict`). A buffer
/// without a path or without a known disk state is unchanged.
pub fn check_external_change(
    has_path: bool,
    known: Option<&DiskState>,
    stat: Option<(u64, Option<FileTime>)>,
    current: Option<&DiskState>,
    modified: bool,
) -> (r: ExternalChange)
    ensures
        r == match known {
            Some(k) if has_path => change_verdict(
                *k,
                stat,
                match current {
                    Some(c) => Some(*c),
                    None => None,
                },
                modified,
            ),
            _ => ExternalChange::Unchanged,
        },
{
    if !has_path {
        return ExternalChange::Unchanged;
    }
    let known = match known {
        Some(k) => k,
        None => return ExternalChange::Unchanged,
    };
    if let Some((len, mtime)) = stat {
        if stat_unchanged(known, len, mtime) {
            return ExternalChange::Unchanged;
        }
    }
    match current {
        None => ExternalChange::Unchanged,
        Some(c) => if c.content_hash == known.content_hash {
            ExternalChange::Unchanged
        } else if modified {
            ExternalChange::ChangedWithLocalEdits
        } else {
            ExternalChange::ChangedNoLocalEdits
        },
    }
}

/// Reload a buffer in place from the text now on disk (`raw`, as read):
/// converted and its format settled as on load, local state discarded
/// (history cleared, unmodified, the text the new merge base), and the
/// cursor kept where possible, clamped to the new text.
pub fn reload_text(buffer: &mut Buffer, raw: &str, noconvert: bool, unix: bool, disk_state: Option<DiskState>)
    ensures
        ({
            let (text, detected) = converted(raw@, noconvert);
            &&& final(buffer).text() == text
            &&& final(buffer).original_content@ == text
            &&& !final(buffer).modified
            &&& final(buffer).undo_stack@.len() == 0
            &&& final(buffer).redo_stack@.len() == 0
            &&& final(buffer).disk_state == disk_state
            &&& final(buffer).format == if unix { LineFormat::Unix } else if old(buffer).format == LineFormat::Unspecified {
                detected
            } else {
                old(buffer).format
            }
            &&& {
                let last = (crate::buffer::rope_line_count(text) - 1) as nat;
                let line = if old(buffer).cursor.line < last { old(buffer).cursor.line as nat } else { last };
                let len = crate::buffer::line_of(text, line).len();
                final(buffer).cursor == (Pos {
                    line: line as usize,
                    col: if old(buffer).cursor.col < len { old(buffer).cursor.col } else { len as usize },
                })
            }
        }),
{
    let (text, detected) = convert_line_endings(raw, noconvert);
    buffer.adopt_format(detected, unix);
    let cursor = buffer.cursor;
    let fresh = Buffer::from_text(text.as_str(), None);
    let n = fresh.line_count();
    let line = if cursor.line < n - 1 { cursor.line } else { n - 1 };
    let line_text = fresh.line(line);
    let len = str_chars(line_text.as_str()).len();
    buffer.rope = fresh.rope;
    buffer.original_content = text;
    buffer.modified = false;
    buffer.undo_stack = Vec::new();
    buffer.redo_stack = Vec::new();
    buffer.disk_state = disk_state;
    buffer.cursor = Pos::new(line, if cursor.col < len { cursor.col } else { len });
}

// ---------------------------------------------------------------------------
// Three-way merge
// ---------------------------------------------------------------------------

/// The kind of one diff operation (`similar::DiffTag`).
#[derive(Debug, Clone, Copy, PartialEq, Eq, Structural)]
pub enum OpKind {
    Equal,
    Delete,
    Insert,
    Replace,
}

/// One diff operation between an old and a new list of lines: the old lines
/// `old_start..old_end` correspond to the new lines `new_start..new_end`.
#[derive(Debug, Clone, Copy, PartialEq, Eq, Structural)]
pub struct LineOp {
    pub kind: OpKind,
    pub old_start: usize,
    pub old_end: usize,
    pub new_start: usize,
    pub new_end: usize,
}

/// The kind of one line of a flattened diff (`similar::ChangeTag`).
#[derive(Debug, Clone, Copy, PartialEq, Eq, Structural)]
pub enum ChangeKind {
    Equal,
    Delete,
    Insert,
}

/// The lines `similar` splits `text` into for a line diff.
pub uninterp spec fn diff_lines_of(text: Seq<char>) -> Seq<Seq<char>>;

/// The operations of `similar`'s line diff from `old` to `new`.
pub uninterp spec fn diff_line_ops(old: Seq<char>, new: Seq<char>) -> Seq<LineOp>;

/// The flattened changes of `similar`'s line diff from `old` to `new`.
pub uninterp spec fn diff_changes(old: Seq<char>, new: Seq<char>) -> Seq<(ChangeKind, Seq<char>)>;

/// `op` lies within `old_n` old lines and `new_n` new lines.
pub open spec fn op_in_bounds(op: LineOp, old_n: nat, new_n: nat) -> bool {
    op.old_start <= op.old_end <= old_n && op.new_start <= op.new_end <= new_n
}

pub open spec fn ops_in_bounds(ops: Seq<LineOp>, old_n: nat, new_n: nat) -> bool {
    forall|k: int| 0 <= k < ops.len() ==> #[trigger] op_in_bounds(ops[k], old_n, new_n)
}

/// `ops` is an edit script turning the lines `ol` into the lines `nl`: the
/// operations cover both sides in order, without gaps, each kind has its
/// shape, and an `Equal` operation pairs equal lines.
pub open spec fn ops_script(ops: Seq<LineOp>, ol: Seq<Seq<char>>, nl: Seq<Seq<char>>) -> bool {
    &&& ops_in_bounds(ops, ol.len(), nl.len())
    &&& forall|k: int|
        0 <= k < ops.len() ==> match #[trigger] ops[k].kind {
            OpKind::Equal => ops[k].old_end - ops[k].old_start == ops[k].new_end - ops[k].new_start
                && ol.subrange(ops[k].old_start as int, ops[k].old_end as int) == nl.subrange(
                ops[k].new_start as int,
                ops[k].new_end as int,
            ),
            OpKind::Delete => ops[k].new_start == ops[k].new_end,
            OpKind::Insert => ops[k].old_start == ops[k].old_end,
            OpKind::Replace => true,
        }
    &&& forall|k: int|
        0 <= k < ops.len() - 1 ==> #[trigger] ops[k + 1].old_start == ops[k].old_end
            && ops[k + 1].new_start == ops[k].new_end
    &&& ops.len() == 0 ==> ol.len() == 0 && nl.len() == 0
    &&& ops.len() > 0 ==> ops[0].old_start == 0 && ops[0].new_start == 0 && ops.last().old_end
        == ol.len() && ops.last().new_end == nl.len()
}

/// `similar::DiffableStr::tokenize_lines`: `text` cut after each line break
/// (LF, CR LF, or a CR not before an LF). The contract claims the result is
/// the named split of `text`, and that the pieces put together give `text`.
#[verifier::external_body]
fn diff_lines(text: &str) -> (lines: Vec<String>)
    ensures
        lines@.map_values(|l: String| l@) == diff_lines_of(text@),
        crate::text::join(lines@.map_values(|l: String| l@)) == text@,
{
    similar::DiffableStr::tokenize_lines(text).into_iter().map(|l| l.to_string()).collect()
}

/// `similar::TextDiff::from_lines(old, new).ops()`, each operation taken by
/// `DiffOp::as_tag_tuple`. The contract claims the result is the named diff
/// of `old` and `new`; that it is an edit script between their lines (what
/// `similar` documents an op list to be: the ops tile both sides in order,
/// and an `Equal` op pairs equal lines); and that diffing a text against
/// itself finds only equal lines (Myers' algorithm first strips the common
/// prefix, which is then everything).
#[verifier::external_body]
fn line_diff_ops(old: &str, new: &str) -> (ops: Vec<LineOp>)
    ensures
        ops@ == diff_line_ops(old@, new@),
        ops_script(ops@, diff_lines_of(old@), diff_lines_of(new@)),
        old@ == new@ ==> forall|k: int| 0 <= k < ops@.len() ==> (#[trigger] ops@[k]).kind == OpKind::Equal,
{
    let diff = similar::TextDiff::from_lines(old, new);
    diff.ops().iter().map(|op| {
        let (tag, o, n) = op.as_tag_tuple();
        let kind = match tag {
            similar::DiffTag::Equal => OpKind::Equal,
            similar::DiffTag::Delete => OpKind::Delete,
            similar::DiffTag::Insert => OpKind::Insert,
            similar::DiffTag::Replace => OpKind::Replace,
        };
        LineOp { kind, old_start: o.start, old_end: o.end, new_start: n.start, new_end: n.end }
    }).collect()
}

/// `similar::TextDiff::from_lines(old, new).iter_all_changes()`, each change
/// taken as its tag and its text. The contract claims only that the result
/// is the named flattened diff of `old` and `new`.
#[verifier::external_body]
fn line_diff_changes(old: &str, new: &str) -> (cs: Vec<(ChangeKind, String)>)
    ensures
        cs@.map_values(|c: (ChangeKind, String)| (c.0, c.1@)) == diff_changes(old@, new@),
{
    let diff = similar::TextDiff::from_lines(old, new);
    diff.iter_all_changes().map(|c| {
        let kind = match c.tag() {
            similar::ChangeTag::Equal => ChangeKind::Equal,
            similar::ChangeTag::Delete => ChangeKind::Delete,
            similar::ChangeTag::Insert => ChangeKind::Insert,
        };
        (kind, c.value().to_string())
    }).collect()
}

/// One side's change to the base: the base lines `start..end` are replaced
/// by that side's lines `from..to` (`theirs` tells the side).
pub type Change = (usize, usize, bool, usize, usize);

/// The changes an edit script makes to the base, in the script's order;
/// equal stretches make none.
pub open spec fn changes_of(ops: Seq<LineOp>, theirs: bool) -> Seq<Change>
    decreases ops.len(),
{
    if ops.len() == 0 {
        Seq::empty()
    } else {
        let rest = changes_of(ops.drop_last(), theirs);
        let op = ops.last();
        match op.kind {
            OpKind::Equal => rest,
            OpKind::Delete => rest.push((op.old_start, op.old_end, theirs, 0usize, 0usize)),
            OpKind::Insert => rest.push((op.old_start, op.old_start, theirs, op.new_start, op.new_end)),
            OpKind::Replace => rest.push((op.old_start, op.old_end, theirs, op.new_start, op.new_end)),
        }
    }
}

/// Whether two changes touch the same stretch of the base: two pure
/// insertions at the same place do, as do two replaced ranges that overlap.
pub open spec fn changes_overlap(a: Change, b: Change) -> bool {
    if a.0 == a.1 && b.0 == b.1 {
        a.0 == b.0
    } else {
        a.0 < b.1 && b.0 < a.1
    }
}

pub open spec fn changes_conflict(oc: Seq<Change>, tc: Seq<Change>) -> bool {
    exists|i: int, j: int|
        0 <= i < oc.len() && 0 <= j < tc.len() && #[trigger] changes_overlap(oc[i], tc[j]) && oc[i] == oc[i] && tc[j] == tc[j]
}

/// `a` sorts after `b` by (start, end).
pub open spec fn sorts_after(a: Change, b: Change) -> bool {
    a.0 > b.0 || (a.0 == b.0 && a.1 > b.1)
}

/// `x` inserted into `s` before the first change that sorts after it.
pub open spec fn sorted_insert(s: Seq<Change>, x: Change) -> Seq<Change>
    decreases s.len(),
{
    if s.len() == 0 {
        seq![x]
    } else if sorts_after(s[0], x) {
        seq![x] + s
    } else {
        seq![s[0]] + sorted_insert(s.drop_first(), x)
    }
}

/// The stable sort of `s` by (start, end): changes with equal keys keep their
/// order.
pub open spec fn stable_sort(s: Seq<Change>) -> Seq<Change>
    decreases s.len(),
{
    if s.len() == 0 {
        Seq::empty()
    } else {
        sorted_insert(stable_sort(s.drop_last()), s.last())
    }
}

/// The replacement lines of change `c`.
pub open spec fn replacement(c: Change, ol: Seq<Seq<char>>, tl: Seq<Seq<char>>) -> Seq<Seq<char>> {
    (if c.2 { tl } else { ol }).subrange(c.3 as int, c.4 as int)
}

/// The base lines from `pos` on, with the changes `cs` applied in order: the
/// base lines before each change's start are kept, its replacement is put in,
/// and the base resumes at its end.
pub open spec fn apply_changes(
    base: Seq<Seq<char>>,
    ol: Seq<Seq<char>>,
    tl: Seq<Seq<char>>,
    cs: Seq<Change>,
    pos: int,
) -> Seq<Seq<char>>
    decreases cs.len(),
{
    if cs.len() == 0 {
        if pos < base.len() {
            base.subrange(pos, base.len() as int)
        } else {
            Seq::empty()
        }
    } else {
        let c = cs[0];
        let kept = if pos < c.0 { base.subrange(pos, c.0 as int) } else { Seq::empty() };
        kept + replacement(c, ol, tl) + apply_changes(base, ol, tl, cs.drop_first(), c.1 as int)
    }
}

/// The merged lines, or `None` when the two sides' changes overlap.
pub open spec fn merged_lines(
    base: Seq<Seq<char>>,
    ours_ops: Seq<LineOp>,
    ours: Seq<Seq<char>>,
    theirs_ops: Seq<LineOp>,
    theirs: Seq<Seq<char>>,
) -> Option<Seq<Seq<char>>> {
    let oc = changes_of(ours_ops, false);
    let tc = changes_of(theirs_ops, true);
    if changes_conflict(oc, tc) {
        None
    } else {
        Some(apply_changes(base, ours, theirs, stable_sort(oc + tc), 0))
    }
}

pub open spec fn strings_view(v: Seq<String>) -> Seq<Seq<char>> {
    v.map_values(|s: String| s@)
}

fn extract_changes(ops: &[LineOp], theirs: bool) -> (cs: Vec<Change>)
    ensures
        cs@ == changes_of(ops@, theirs),
{
    let mut cs: Vec<Change> = Vec::new();
    let mut i: usize = 0;
    while i < ops.len()
        invariant
            i <= ops.len(),
            cs@ == changes_of(ops@.take(i as int), theirs),
        decreases ops.len() - i,
    {
        proof {
            assert(ops@.take(i + 1).drop_last() =~= ops@.take(i as int));
        }
        let op = ops[i];
        match op.kind {
            OpKind::Equal => {},
            OpKind::Delete => cs.push((op.old_start, op.old_end, theirs, 0, 0)),
            OpKind::Insert => cs.push((op.old_start, op.old_start, theirs, op.new_start, op.new_end)),
            OpKind::Replace => cs.push((op.old_start, op.old_end, theirs, op.new_start, op.new_end)),
        }
        i += 1;
    }
    proof {
        assert(ops@.take(ops.len() as int) =~= ops@);
    }
    cs
}

fn overlap(a: Change, b: Change) -> (r: bool)
    ensures
        r == changes_overlap(a, b),
{
    if a.0 == a.1 && b.0 == b.1 {
        a.0 == b.0
    } else {
        a.0 < b.1 && b.0 < a.1
    }
}

fn any_conflict(oc: &[Change], tc: &[Change]) -> (r: bool)
    ensures
        r == changes_conflict(oc@, tc@),
{
    let mut i: usize = 0;
    while i < oc.len()
        invariant
            i <= oc.len(),
            forall|a: int, b: int| 0 <= a < i && 0 <= b < tc@.len() ==> !changes_overlap(oc@[a], tc@[b]),
        decreases oc.len() - i,
    {
        let mut j: usize = 0;
        while j < tc.len()
            invariant
                i < oc.len(),
                j <= tc.len(),
                forall|a: int, b: int| 0 <= a < i && 0 <= b < tc@.len() ==> !changes_overlap(oc@[a], tc@[b]),
                forall|b: int| 0 <= b < j ==> !changes_overlap(oc@[i as int], tc@[b]),
            decreases tc.len() - j,
        {
            if overlap(oc[i], tc[j]) {
                assert(changes_overlap(oc@[i as int], tc@[j as int]));
                return true;
            }
            j += 1;
        }
        i += 1;
    }
    false
}

proof fn lemma_sorted_insert_at(s: Seq<Change>, x: Change, k: int)
    requires
        0 <= k <= s.len(),
        forall|j: int| 0 <= j < k ==> !sorts_after(#[trigger] s[j], x),
        k < s.len() ==> sorts_after(s[k], x),
    ensures
        sorted_insert(s, x) == s.take(k) + seq![x] + s.skip(k),
    decreases s.len(),
{
    if s.len() == 0 {
        assert(s.take(k) + seq![x] + s.skip(k) =~= seq![x]);
    } else if k == 0 {
        assert(s.take(0) + seq![x] + s.skip(0) =~= seq![x] + s);
    } else {
        let t = s.drop_first();
        assert forall|j: int| 0 <= j < k - 1 implies !sorts_after(#[trigger] t[j], x) by {
            assert(t[j] == s[j + 1]);
        }
        lemma_sorted_insert_at(t, x, k - 1);
        assert(s.take(k) + seq![x] + s.skip(k) =~= seq![s[0]] + (t.take(k - 1) + seq![x] + t.skip(k - 1)));
    }
}

fn sorts_after_exec(a: Change, b: Change) -> (r: bool)
    ensures
        r == sorts_after(a, b),
{
    a.0 > b.0 || (a.0 == b.0 && a.1 > b.1)
}

fn insert_sorted(v: &mut Vec<Change>, x: Change)
    ensures
        final(v)@ == sorted_insert(old(v)@, x),
{
    let mut k: usize = 0;
    while k < v.len() && !sorts_after_exec(v[k], x)
        invariant
            k <= v.len(),
            v@ == old(v)@,
            forall|j: int| 0 <= j < k ==> !sorts_after(#[trigger] v@[j], x),
        decreases v.len() - k,
    {
        k += 1;
    }
    proof {
        lemma_sorted_insert_at(v@, x, k as int);
    }
    v.insert(k, x);
    proof {
        assert(v@ =~= old(v)@.take(k as int) + seq![x] + old(v)@.skip(k as int));
    }
}

fn sort_changes(all: &[Change]) -> (sorted: Vec<Change>)
    ensures
        sorted@ == stable_sort(all@),
{
    let mut v: Vec<Change> = Vec::new();
    let mut i: usize = 0;
    while i < all.len()
        invariant
            i <= all.len(),
            v@ == stable_sort(all@.take(i as int)),
        decreases all.len() - i,
    {
        proof {
            assert(all@.take(i + 1).drop_last() =~= all@.take(i as int));
        }
        insert_sorted(&mut v, all[i]);
        i += 1;
    }
    proof {
        assert(all@.take(all.len() as int) =~= all@);
    }
    v
}

/// Change `c` lies within the base and its side's lines.
pub open spec fn change_in_bounds(c: Change, base_n: nat, ours_n: nat, theirs_n: nat) -> bool {
    c.0 <= c.1 <= base_n && c.3 <= c.4 <= (if c.2 { theirs_n } else { ours_n })
}

pub open spec fn changes_in_bounds(cs: Seq<Change>, base_n: nat, ours_n: nat, theirs_n: nat) -> bool {
    forall|k: int| 0 <= k < cs.len() ==> #[trigger] change_in_bounds(cs[k], base_n, ours_n, theirs_n)
}

proof fn lemma_changes_in_bounds(ops: Seq<LineOp>, theirs: bool, base_n: nat, ours_n: nat, theirs_n: nat)
    requires
        ops_in_bounds(ops, base_n, if theirs { theirs_n } else { ours_n }),
    ensures
        changes_in_bounds(changes_of(ops, theirs), base_n, ours_n, theirs_n),
    decreases ops.len(),
{
    if ops.len() > 0 {
        let side_n: nat = if theirs { theirs_n } else { ours_n };
        assert(ops_in_bounds(ops.drop_last(), base_n, side_n)) by {
            assert forall|k: int| 0 <= k < ops.drop_last().len() implies #[trigger] op_in_bounds(
                ops.drop_last()[k],
                base_n,
                side_n,
            ) by {
                assert(op_in_bounds(ops[k], base_n, side_n));
            }
        }
        lemma_changes_in_bounds(ops.drop_last(), theirs, base_n, ours_n, theirs_n);
        assert(op_in_bounds(ops[ops.len() - 1], base_n, side_n));
        let rest = changes_of(ops.drop_last(), theirs);
        let cs = changes_of(ops, theirs);
        assert forall|k: int| 0 <= k < cs.len() implies #[trigger] change_in_bounds(cs[k], base_n, ours_n, theirs_n) by {
            if k < rest.len() {
                assert(cs[k] == rest[k]);
                assert(change_in_bounds(rest[k], base_n, ours_n, theirs_n));
            }
        }
    }
}

proof fn lemma_sorted_insert_bounds(s: Seq<Change>, x: Change, base_n: nat, ours_n: nat, theirs_n: nat)
    requires
        changes_in_bounds(s, base_n, ours_n, theirs_n),
        change_in_bounds(x, base_n, ours_n, theirs_n),
    ensures
        changes_in_bounds(sorted_insert(s, x), base_n, ours_n, theirs_n),
    decreases s.len(),
{
    let r = sorted_insert(s, x);
    if s.len() == 0 {
        assert(r =~= seq![x]);
        assert forall|k: int| 0 <= k < r.len() implies #[trigger] change_in_bounds(r[k], base_n, ours_n, theirs_n) by {
            assert(r[k] == x);
        }
    } else if sorts_after(s[0], x) {
        assert forall|k: int| 0 <= k < r.len() implies #[trigger] change_in_bounds(r[k], base_n, ours_n, theirs_n) by {
            if k > 0 {
                assert(r[k] == s[k - 1]);
                assert(change_in_bounds(s[k - 1], base_n, ours_n, theirs_n));
            }
        }
    } else {
        let t = s.drop_first();
        assert forall|k: int| 0 <= k < t.len() implies #[trigger] change_in_bounds(t[k], base_n, ours_n, theirs_n) by {
            assert(t[k] == s[k + 1]);
            assert(change_in_bounds(s[k + 1], base_n, ours_n, theirs_n));
        }
        lemma_sorted_insert_bounds(t, x, base_n, ours_n, theirs_n);
        let rt = sorted_insert(t, x);
        assert(change_in_bounds(s[0], base_n, ours_n, theirs_n));
        assert forall|k: int| 0 <= k < r.len() implies #[trigger] change_in_bounds(r[k], base_n, ours_n, theirs_n) by {
            if k > 0 {
                assert(r[k] == rt[k - 1]);
                assert(change_in_bounds(rt[k - 1], base_n, ours_n, theirs_n));
            }
        }
    }
}

proof fn lemma_in_bounds_sorted(s: Seq<Change>, base_n: nat, ours_n: nat, theirs_n: nat)
    requires
        changes_in_bounds(s, base_n, ours_n, theirs_n),
    ensures
        changes_in_bounds(stable_sort(s), base_n, ours_n, theirs_n),
    decreases s.len(),
{
    if s.len() > 0 {
        let t = s.drop_last();
        assert forall|k: int| 0 <= k < t.len() implies #[trigger] change_in_bounds(t[k], base_n, ours_n, theirs_n) by {
            assert(t[k] == s[k]);
            assert(change_in_bounds(s[k], base_n, ours_n, theirs_n));
        }
        lemma_in_bounds_sorted(t, base_n, ours_n, theirs_n);
        assert(change_in_bounds(s[s.len() - 1], base_n, ours_n, theirs_n));
        lemma_sorted_insert_bounds(stable_sort(t), s.last(), base_n, ours_n, theirs_n);
    }
}

proof fn lemma_apply_step(
    base: Seq<Seq<char>>,
    ol: Seq<Seq<char>>,
    tl: Seq<Seq<char>>,
    cs: Seq<Change>,
    pos: int,
)
    requires
        cs.len() > 0,
    ensures
        apply_changes(base, ol, tl, cs, pos) == (if pos < cs[0].0 { base.subrange(pos, cs[0].0 as int) } else { Seq::empty() })
            + replacement(cs[0], ol, tl) + apply_changes(base, ol, tl, cs.drop_first(), cs[0].1 as int),
{
}

/// Apply the (sorted) changes to the base, giving the merged text.
fn apply_sorted(base: &[String], ours: &[String], theirs: &[String], cs: &[Change]) -> (text: Vec<char>)
    requires
        changes_in_bounds(cs@, base@.len(), ours@.len(), theirs@.len()),
    ensures
        text@ == crate::text::join(
            apply_changes(strings_view(base@), strings_view(ours@), strings_view(theirs@), cs@, 0),
        ),
{
    let ghost bl = strings_view(base@);
    let ghost ol = strings_view(ours@);
    let ghost tl = strings_view(theirs@);
    let ghost total = apply_changes(bl, ol, tl, cs@, 0);
    let ghost mut acc: Seq<Seq<char>> = Seq::empty();
    let mut out: Vec<char> = Vec::new();
    let mut pos: usize = 0;
    let mut i: usize = 0;
    proof {
        assert(cs@.skip(0) =~= cs@);
    }
    while i < cs.len()
        invariant
            i <= cs.len(),
            changes_in_bounds(cs@, base@.len(), ours@.len(), theirs@.len()),
            bl == strings_view(base@),
            ol == strings_view(ours@),
            tl == strings_view(theirs@),
            total == apply_changes(bl, ol, tl, cs@, 0),
            acc + apply_changes(bl, ol, tl, cs@.skip(i as int), pos as int) == total,
            out@ == crate::text::join(acc),
        decreases cs.len() - i,
    {
        let c = cs[i];
        assert(c == cs@[i as int]);
        assert(change_in_bounds(cs@[i as int], base@.len(), ours@.len(), theirs@.len()));
        let ghost rest = cs@.skip(i as int);
        proof {
            assert(rest[0] == c);
            assert(rest.drop_first() =~= cs@.skip(i + 1));
            lemma_apply_step(bl, ol, tl, rest, pos as int);
        }
        let ghost pos0 = pos;
        let ghost acc0 = acc;
        let ghost kept = if pos0 < c.0 { bl.subrange(pos0 as int, c.0 as int) } else { Seq::<Seq<char>>::empty() };
        while pos < c.0
            invariant
                pos0 <= pos <= c.0 || (pos == pos0 && pos0 >= c.0),
                c.0 <= base@.len(),
                bl == strings_view(base@),
                out@ == crate::text::join(acc0) + crate::text::join(
                    if pos0 < pos { bl.subrange(pos0 as int, pos as int) } else { Seq::empty() },
                ),
            decreases c.0 - pos,
        {
            proof {
                let before = if pos0 < pos { bl.subrange(pos0 as int, pos as int) } else { Seq::empty() };
                assert(bl.subrange(pos0 as int, pos + 1) =~= before.push(bl[pos as int]));
                assert(before.push(bl[pos as int]).drop_last() =~= before);
                assert(bl[pos as int] == base@[pos as int]@);
            }
            crate::text::push_str(&mut out, base[pos].as_str());
            pos += 1;
        }
        proof {
            assert(out@ == crate::text::join(acc0) + crate::text::join(kept)) by {
                if pos0 >= c.0 {
                    assert(crate::text::join(Seq::<Seq<char>>::empty()) =~= Seq::<char>::empty());
                }
            }
            crate::text::lemma_join_append(acc0, kept);
        }
        let side: &[String] = if c.2 { theirs } else { ours };
        let ghost sv = if c.2 { tl } else { ol };
        let ghost mid = acc0 + kept;
        let mut k = c.3;
        proof {
            assert(sv == strings_view(side@));
            assert(c.3 <= c.4 <= side@.len());
        }
        while k < c.4
            invariant
                c.3 <= k <= c.4,
                c.4 <= side@.len(),
                sv == strings_view(side@),
                out@ == crate::text::join(mid) + crate::text::join(sv.subrange(c.3 as int, k as int)),
            decreases c.4 - k,
        {
            proof {
                let before = sv.subrange(c.3 as int, k as int);
                assert(sv.subrange(c.3 as int, k + 1) =~= before.push(sv[k as int]));
                assert(before.push(sv[k as int]).drop_last() =~= before);
                assert(sv[k as int] == side@[k as int]@);
            }
            crate::text::push_str(&mut out, side[k].as_str());
            k += 1;
        }
        proof {
            let rep = replacement(c, ol, tl);
            assert(rep == sv.subrange(c.3 as int, c.4 as int));
            crate::text::lemma_join_append(mid, rep);
            acc = mid + rep;
            assert(acc0 + kept + rep + apply_changes(bl, ol, tl, cs@.skip(i + 1), c.1 as int) == total);
        }
        pos = c.1;
        i += 1;
    }
    proof {
        assert(cs@.skip(cs.len() as int).len() == 0);
    }
    let ghost before_tail = out@;
    let ghost pos0 = pos;
    while pos < base.len()
        invariant
            pos0 <= pos <= base.len() || (pos == pos0 && pos0 >= base.len()),
            bl == strings_view(base@),
            out@ == before_tail + crate::text::join(
                if pos0 < pos { bl.subrange(pos0 as int, pos as int) } else { Seq::empty() },
            ),
        decreases base.len() - pos,
    {
        proof {
            let before = if pos0 < pos { bl.subrange(pos0 as int, pos as int) } else { Seq::empty() };
            assert(bl.subrange(pos0 as int, pos + 1) =~= before.push(bl[pos as int]));
            assert(before.push(bl[pos as int]).drop_last() =~= before);
            assert(bl[pos as int] == base@[pos as int]@);
        }
        crate::text::push_str(&mut out, base[pos].as_str());
        pos += 1;
    }
    proof {
        let tail = apply_changes(bl, ol, tl, cs@.skip(cs.len() as int), pos0 as int);
        if pos0 >= base.len() {
            assert(crate::text::join(Seq::<Seq<char>>::empty()) =~= Seq::<char>::empty());
        }
        crate::text::lemma_join_append(acc, tail);
    }
    out
}

/// The merge of two sides' line diffs against a common base: `None` when a
/// change of ours and a change of theirs touch the same stretch of the base,
/// else the base with both sides' changes applied in (start, end) order.
pub fn merge_lines(
    base: &[String],
    ours_ops: &[LineOp],
    ours: &[String],
    theirs_ops: &[LineOp],
    theirs: &[String],
) -> (r: Option<String>)
    requires
        ops_in_bounds(ours_ops@, base@.len(), ours@.len()),
        ops_in_bounds(theirs_ops@, base@.len(), theirs@.len()),
    ensures
        match merged_lines(strings_view(base@), ours_ops@, strings_view(ours@), theirs_ops@, strings_view(theirs@)) {
            None => r is None,
            Some(lines) => r matches Some(t) && t@ == crate::text::join(lines),
        },
{
    let oc = extract_changes(ours_ops, false);
    let tc = extract_changes(theirs_ops, true);
    if any_conflict(oc.as_slice(), tc.as_slice()) {
        return None;
    }
    let ghost ocv = oc@;
    let ghost tcv = tc@;
    let mut all = oc;
    let mut tc2 = tc;
    all.append(&mut tc2);
    proof {
        assert(all@ =~= ocv + tcv);
        lemma_changes_in_bounds(ours_ops@, false, base@.len(), ours@.len(), theirs@.len());
        lemma_changes_in_bounds(theirs_ops@, true, base@.len(), ours@.len(), theirs@.len());
        assert(changes_in_bounds(all@, base@.len(), ours@.len(), theirs@.len())) by {
            assert forall|k: int| 0 <= k < all@.len() implies #[trigger] change_in_bounds(
                all@[k],
                base@.len(),
                ours@.len(),
                theirs@.len(),
            ) by {
                if k < ocv.len() {
                    assert(all@[k] == ocv[k]);
                    assert(change_in_bounds(ocv[k], base@.len(), ours@.len(), theirs@.len()));
                } else {
                    assert(all@[k] == tcv[k - ocv.len()]);
                    assert(change_in_bounds(tcv[k - ocv.len()], base@.len(), ours@.len(), theirs@.len()));
                }
            }
        }
    }
    let sorted = sort_changes(all.as_slice());
    proof {
        lemma_in_bounds_sorted(all@, base@.len(), ours@.len(), theirs@.len());
    }
    let text = apply_sorted(base, ours, theirs, sorted.as_slice());
    Some(string_from_chars(text.as_slice()))
}

/// The marker for a line of a diff preview.
pub open spec fn change_sign(k: ChangeKind) -> Seq<char> {
    match k {
        ChangeKind::Delete => "-"@,
        ChangeKind::Insert => "+"@,
        ChangeKind::Equal => " "@,
    }
}

/// One line of a diff preview: the marker, the line, and a newline if the
/// line has none.
pub open spec fn preview_line(c: (ChangeKind, Seq<char>)) -> Seq<char> {
    change_sign(c.0) + c.1 + (if c.1.len() > 0 && c.1.last() == '\n' { Seq::empty() } else { seq!['\n'] })
}

/// The preview lines of `changes`, one after another.
pub open spec fn preview_lines(changes: Seq<(ChangeKind, Seq<char>)>) -> Seq<char>
    decreases changes.len(),
{
    if changes.len() == 0 {
        Seq::empty()
    } else {
        preview_lines(changes.drop_last()) + preview_line(changes.last())
    }
}

/// A diff preview: a two-line header naming the sides, then each change.
pub open spec fn preview_text(label: Seq<char>, changes: Seq<(ChangeKind, Seq<char>)>) -> Seq<char> {
    "--- base\n+++ "@ + label + "\n"@ + preview_lines(changes)
}

/// Render a diff preview of `changes` against the base, labelled `label`.
pub fn render_diff(label: &str, changes: &[(ChangeKind, String)]) -> (s: String)
    ensures
        s@ == preview_text(label@, changes@.map_values(|c: (ChangeKind, String)| (c.0, c.1@))),
{
    let ghost cv = changes@.map_values(|c: (ChangeKind, String)| (c.0, c.1@));
    let mut out: Vec<char> = Vec::new();
    push_str(&mut out, "--- base\n+++ ");
    push_str(&mut out, label);
    push_str(&mut out, "\n");
    let ghost head = out@;
    let mut i: usize = 0;
    while i < changes.len()
        invariant
            i <= changes.len(),
            cv == changes@.map_values(|c: (ChangeKind, String)| (c.0, c.1@)),
            out@ == head + preview_lines(cv.take(i as int)),
        decreases changes.len() - i,
    {
        let kind = changes[i].0;
        let line = changes[i].1.as_str();
        match kind {
            ChangeKind::Delete => push_str(&mut out, "-"),
            ChangeKind::Insert => push_str(&mut out, "+"),
            ChangeKind::Equal => push_str(&mut out, " "),
        }
        push_str(&mut out, line);
        let lc = str_chars(line);
        let n = lc.len();
        if !(n > 0 && lc[n - 1] == '\n') {
            out.push('\n');
        }
        proof {
            assert(cv[i as int] == (kind, line@));
            assert(cv.take(i + 1).drop_last() =~= cv.take(i as int));
            assert(out@ =~= head + preview_lines(cv.take(i as int)) + preview_line(cv[i as int]));
        }
        i += 1;
    }
    proof {
        assert(cv.take(changes.len() as int) =~= cv);
    }
    string_from_chars(out.as_slice())
}

/// The outcome of merging local edits with a change made on disk.
pub enum MergeResult {
    /// Merged cleanly: the merged text, and a preview of how it differs from
    /// the base.
    Clean { text: String, diff: String },
    /// The two sides changed the same stretch of the base: previews of both.
    Conflict { diff: String },
}

/// What `three_way_merge` gives for the base, local and on-disk texts.
pub open spec fn merge_outcome(base: Seq<char>, ours: Seq<char>, theirs: Seq<char>) -> (bool, Seq<char>, Seq<char>) {
    match merged_lines(
        diff_lines_of(base),
        diff_line_ops(base, ours),
        diff_lines_of(ours),
        diff_line_ops(base, theirs),
        diff_lines_of(theirs),
    ) {
        None => (
            false,
            Seq::empty(),
            preview_text("theirs (on disk)"@, diff_changes(base, theirs)) + "\n"@ + preview_text(
                "ours (local edits)"@,
                diff_changes(base, ours),
            ),
        ),
        Some(lines) => {
            let text = crate::text::join(lines);
            (true, text, preview_text("merged"@, diff_changes(base, text)))
        },
    }
}

/// The change `c` replaces base line `k`.
pub open spec fn replaces_line(c: Change, k: int) -> bool {
    c.0 <= k < c.1
}

/// Two changes to the base share ground: a base line both replace, a pure
/// insertion of each at the same place, or an insertion of one strictly
/// inside the lines the other replaces.
pub open spec fn share_ground(a: Change, b: Change) -> bool {
    ||| exists|k: int| #[trigger] replaces_line(a, k) && replaces_line(b, k)
    ||| (a.0 == a.1 && b.0 == b.1 && a.0 == b.0)
    ||| (a.0 == a.1 && b.0 < a.0 && a.0 < b.1)
    ||| (b.0 == b.1 && a.0 < b.0 && b.0 < a.1)
}

/// Each change starts no later than it ends.
pub open spec fn ranges_ordered(cs: Seq<Change>) -> bool {
    forall|i: int| 0 <= i < cs.len() ==> (#[trigger] cs[i]).0 <= cs[i].1
}

proof fn lemma_changes_ordered(ops: Seq<LineOp>, side: bool, on: nat, nn: nat)
    requires
        ops_in_bounds(ops, on, nn),
    ensures
        ranges_ordered(changes_of(ops, side)),
    decreases ops.len(),
{
    if ops.len() > 0 {
        let p = ops.drop_last();
        assert forall|k: int| 0 <= k < p.len() implies #[trigger] op_in_bounds(p[k], on, nn) by {
            assert(p[k] == ops[k]);
        }
        lemma_changes_ordered(p, side, on, nn);
        assert(op_in_bounds(ops[ops.len() - 1], on, nn));
        let r = changes_of(p, side);
        let c = changes_of(ops, side);
        assert forall|i: int| 0 <= i < c.len() implies (#[trigger] c[i]).0 <= c[i].1 by {
            if i < r.len() {
                assert(c[i] == r[i]);
            }
        }
    }
}

proof fn lemma_overlap_is_shared_ground(a: Change, b: Change)
    requires
        a.0 <= a.1,
        b.0 <= b.1,
    ensures
        changes_overlap(a, b) <==> share_ground(a, b),
{
    if a.0 < a.1 && b.0 < b.1 && a.0 < b.1 && b.0 < a.1 {
        let k: int = if a.0 < b.0 { b.0 as int } else { a.0 as int };
        assert(replaces_line(a, k) && replaces_line(b, k));
    }
}

/// A three-way merge is refused exactly when a change of ours and a change
/// of theirs share ground in the base, two insertions at the same place
/// included; otherwise both sides' changes are merged. (Each side's diff is
/// an edit script, as `line_diff_ops` promises.)
pub proof fn law_merge_conflicts_exactly_on_shared_ground(base: Seq<char>, ours: Seq<char>, theirs: Seq<char>)
    requires
        ops_script(diff_line_ops(base, ours), diff_lines_of(base), diff_lines_of(ours)),
        ops_script(diff_line_ops(base, theirs), diff_lines_of(base), diff_lines_of(theirs)),
    ensures
        ({
            let oc = changes_of(diff_line_ops(base, ours), false);
            let tc = changes_of(diff_line_ops(base, theirs), true);
            !merge_outcome(base, ours, theirs).0 <==> exists|i: int, j: int|
                0 <= i < oc.len() && 0 <= j < tc.len() && #[trigger] share_ground(oc[i], tc[j])
        }),
{
    let oc = changes_of(diff_line_ops(base, ours), false);
    let tc = changes_of(diff_line_ops(base, theirs), true);
    lemma_changes_ordered(diff_line_ops(base, ours), false, diff_lines_of(base).len(), diff_lines_of(ours).len());
    lemma_changes_ordered(diff_line_ops(base, theirs), true, diff_lines_of(base).len(), diff_lines_of(theirs).len());
    if changes_conflict(oc, tc) {
        let (i, j) = choose|i: int, j: int|
            0 <= i < oc.len() && 0 <= j < tc.len() && #[trigger] changes_overlap(oc[i], tc[j]) && oc[i] == oc[i] && tc[j]
                == tc[j];
        lemma_overlap_is_shared_ground(oc[i], tc[j]);
        assert(share_ground(oc[i], tc[j]));
    } else {
        assert forall|i: int, j: int| 0 <= i < oc.len() && 0 <= j < tc.len() implies !share_ground(oc[i], tc[j]) by {
            lemma_overlap_is_shared_ground(oc[i], tc[j]);
            if changes_overlap(oc[i], tc[j]) {
                assert(changes_conflict(oc, tc));
            }
        }
    }
}

pub open spec fn merge_result_view(r: MergeResult) -> (bool, Seq<char>, Seq<char>) {
    match r {
        MergeResult::Clean { text, diff } => (true, text@, diff@),
        MergeResult::Conflict { diff } => (false, Seq::empty(), diff@),
    }
}

/// Attempt a three-way merge: `base` is the text as originally loaded,
/// `ours` the current (local, unsaved) text, `theirs` the text now on disk.
/// Both sides are line-diffed against the base; if no change of ours touches
/// the stretch of the base a change of theirs touches, both are applied.
pub fn three_way_merge(base: &str, ours: &str, theirs: &str) -> (r: MergeResult)
    ensures
        merge_result_view(r) == merge_outcome(base@, ours@, theirs@),
        theirs@ == base@ ==> (r matches MergeResult::Clean { text, .. } && text@ == ours@),
        ours@ == base@ ==> (r matches MergeResult::Clean { text, .. } && text@ == theirs@),
{
    let base_lines = diff_lines(base);
    let ours_lines = diff_lines(ours);
    let theirs_lines = diff_lines(theirs);
    let ours_ops = line_diff_ops(base, ours);
    let theirs_ops = line_diff_ops(base, theirs);
    proof {
        if theirs@ == base@ {
            lemma_one_sided_merge(
                diff_lines_of(base@),
                ours_ops@,
                diff_lines_of(ours@),
                theirs_ops@,
                diff_lines_of(theirs@),
                true,
            );
        }
        if ours@ == base@ {
            lemma_one_sided_merge(
                diff_lines_of(base@),
                ours_ops@,
                diff_lines_of(ours@),
                theirs_ops@,
                diff_lines_of(theirs@),
                false,
            );
        }
    }
    match merge_lines(
        base_lines.as_slice(),
        ours_ops.as_slice(),
        ours_lines.as_slice(),
        theirs_ops.as_slice(),
        theirs_lines.as_slice(),
    ) {
        None => {
            let t = line_diff_changes(base, theirs);
            let o = line_diff_changes(base, ours);
            let mut out: Vec<char> = Vec::new();
            let d1 = render_diff("theirs (on disk)", t.as_slice());
            push_str(&mut out, d1.as_str());
            push_str(&mut out, "\n");
            let d2 = render_diff("ours (local edits)", o.as_slice());
            push_str(&mut out, d2.as_str());
            proof {
                assert(out@ =~= d1@ + "\n"@ + d2@);
            }
            MergeResult::Conflict { diff: string_from_chars(out.as_slice()) }
        },
        Some(text) => {
            let cs = line_diff_changes(base, text.as_str());
            let diff = render_diff("merged", cs.as_slice());
            MergeResult::Clean { text, diff }
        },
    }
}

// ---------------------------------------------------------------------------
// Tilde expansion
// ---------------------------------------------------------------------------

/// Whose home directory a path's leading `~` asks for.
#[derive(Debug, Clone, PartialEq, Eq)]
pub enum HomeRequest {
    /// The path does not start with `~`.
    NoTilde,
    /// `~` or `~/...`: the current user's.
    Current,
    /// `~name` or `~name/...`: that user's.
    User(String),
}

/// The user name after a leading `~`, up to the first '/'.
pub open spec fn tilde_user(rest: Seq<char>) -> Seq<char> {
    match first_index(rest, '/') {
        Some(i) => rest.take(i),
        None => rest,
    }
}

/// What follows a `~name`: from the first '/' on, or nothing.
pub open spec fn tilde_tail(rest: Seq<char>) -> Seq<char> {
    match first_index(rest, '/') {
        Some(i) => rest.skip(i),
        None => Seq::empty(),
    }
}

/// Whose home directory `path` asks for (nano's `expand_leading_tilde`).
pub open spec fn home_request_of(path: Seq<char>) -> Option<Option<Seq<char>>> {
    if path.len() == 0 || path[0] != '~' {
        None
    } else if path.len() == 1 || path[1] == '/' {
        Some(None)
    } else {
        Some(Some(tilde_user(path.drop_first())))
    }
}

pub open spec fn request_view(r: HomeRequest) -> Option<Option<Seq<char>>> {
    match r {
        HomeRequest::NoTilde => None,
        HomeRequest::Current => Some(None),
        HomeRequest::User(n) => Some(Some(n@)),
    }
}

/// `path` with its leading `~` or `~name` replaced by `home`, the home
/// directory it asks for; unchanged without a `~`, or when that home
/// directory is unknown (`None`), as nano leaves `~baduser/x`.
pub open spec fn tilde_expanded(path: Seq<char>, home: Option<Seq<char>>) -> Seq<char> {
    match home_request_of(path) {
        None => path,
        Some(None) => match home {
            Some(h) => h + path.drop_first(),
            None => path,
        },
        Some(Some(_)) => match home {
            Some(h) => h + tilde_tail(path.drop_first()),
            None => path,
        },
    }
}

/// Whose home directory `path`'s leading `~` asks for.
pub fn home_request(path: &str) -> (r: HomeRequest)
    ensures
        request_view(r) == home_request_of(path@),
{
    let cs = str_chars(path);
    if cs.len() == 0 || cs[0] != '~' {
        return HomeRequest::NoTilde;
    }
    if cs.len() == 1 || cs[1] == '/' {
        return HomeRequest::Current;
    }
    let rest = sub_chars(cs.as_slice(), 1, cs.len());
    assert(rest@ =~= path@.drop_first());
    let name = match find_char(rest.as_slice(), '/') {
        Some(i) => {
            let n = sub_chars(rest.as_slice(), 0, i);
            assert(n@ =~= rest@.take(i as int));
            n
        },
        None => rest,
    };
    HomeRequest::User(string_from_chars(name.as_slice()))
}

/// Expand a leading `~` in `path` with `home`, the home directory
/// `home_request(path)` asks for (`None` when it is unknown).
pub fn expand_tilde(path: &str, home: Option<&str>) -> (r: String)
    ensures
        r@ == tilde_expanded(path@, match home { Some(h) => Some(h@), None => None }),
{
    let cs = str_chars(path);
    let h = match home {
        Some(h) => h,
        None => return string_from_chars(cs.as_slice()),
    };
    if cs.len() == 0 || cs[0] != '~' {
        return string_from_chars(cs.as_slice());
    }
    let rest = sub_chars(cs.as_slice(), 1, cs.len());
    assert(rest@ =~= path@.drop_first());
    let mut out: Vec<char> = Vec::new();
    push_str(&mut out, h);
    if cs.len() == 1 || cs[1] == '/' {
        push_all(&mut out, rest.as_slice());
    } else {
        match find_char(rest.as_slice(), '/') {
            Some(i) => {
                let t = sub_chars(rest.as_slice(), i, rest.len());
                assert(t@ =~= rest@.skip(i as int));
                push_all(&mut out, t.as_slice());
            },
            None => {},
        }
    }
    proof {
        if !(cs@.len() == 1 || cs@[1] == '/') {
            assert(out@ =~= h@ + tilde_tail(path@.drop_first()));
        }
    }
    string_from_chars(out.as_slice())
}

// ---------------------------------------------------------------------------
// Opening a file argument
// ---------------------------------------------------------------------------

/// What was found at a file argument's path when opening it.
pub enum PathState {
    Directory,
    /// Nothing there yet; `parent` is its directory (`.` for a bare name),
    /// `parent_unwritable` whether that directory exists and cannot be
    /// written to.
    Missing { parent: String, parent_unwritable: bool },
    /// A file that could not be read, and why.
    Unreadable { error: String },
    /// A file read (already converted), the format detected, and whether
    /// it can be written back.
    Read { text: String, detected: LineFormat, writable: bool },
}

/// The status message, and its level, for opening `path` as nano words it:
/// a directory is refused; a new file is announced (with a warning about an
/// unwritable directory when locking is on); a file read is summarized, or
/// flagged when it cannot be written back; a read error is reported.
pub open spec fn open_message_of(path: Seq<char>, state: PathState, locking: bool) -> (Seq<char>, StatusLevel) {
    match state {
        PathState::Directory => ("'"@ + path + "' is a directory"@, StatusLevel::Alert),
        PathState::Missing { parent, parent_unwritable } => if locking && parent_unwritable {
            ("Directory '"@ + parent@ + "' is not writable"@, StatusLevel::Mild)
        } else {
            ("New File"@, StatusLevel::Normal)
        },
        PathState::Unreadable { error } => ("Error reading "@ + path + ": "@ + error@, StatusLevel::Alert),
        PathState::Read { text, detected, writable } => if !writable {
            ("File '"@ + path + "' is unwritable"@, StatusLevel::Alert)
        } else {
            (read_summary(text@, detected), StatusLevel::Normal)
        },
    }
}

/// The status message and level for opening `path` (see `open_message_of`).
pub fn open_message(path: &str, state: &PathState, locking: bool) -> (r: (String, StatusLevel))
    ensures
        (r.0@, r.1) == open_message_of(path@, *state, locking),
{
    let mut out: Vec<char> = Vec::new();
    match state {
        PathState::Directory => {
            push_str(&mut out, "'");
            push_str(&mut out, path);
            push_str(&mut out, "' is a directory");
            (string_from_chars(out.as_slice()), StatusLevel::Alert)
        },
        PathState::Missing { parent, parent_unwritable } => {
            if locking && *parent_unwritable {
                push_str(&mut out, "Directory '");
                push_str(&mut out, parent.as_str());
                push_str(&mut out, "' is not writable");
                (string_from_chars(out.as_slice()), StatusLevel::Mild)
            } else {
                push_str(&mut out, "New File");
                (string_from_chars(out.as_slice()), StatusLevel::Normal)
            }
        },
        PathState::Unreadable { error } => {
            push_str(&mut out, "Error reading ");
            push_str(&mut out, path);
            push_str(&mut out, ": ");
            push_str(&mut out, error.as_str());
            (string_from_chars(out.as_slice()), StatusLevel::Alert)
        },
        PathState::Read { text, detected, writable } => {
            if !*writable {
                push_str(&mut out, "File '");
                push_str(&mut out, path);
                push_str(&mut out, "' is unwritable");
                (string_from_chars(out.as_slice()), StatusLevel::Alert)
            } else {
                (describe_read(text.as_str(), *detected), StatusLevel::Normal)
            }
        },
    }
}

// ---------------------------------------------------------------------------
// Writing and reading back
// ---------------------------------------------------------------------------

/// The index of the last line feed of `t`, if any.
pub open spec fn last_break(t: Seq<char>) -> Option<int>
    decreases t.len(),
{
    if t.len() == 0 {
        None
    } else if t.last() == '\n' {
        Some(t.len() - 1)
    } else {
        last_break(t.drop_last())
    }
}

proof fn lemma_last_break(t: Seq<char>)
    ensures
        match last_break(t) {
            Some(i) => 0 <= i < t.len() && t[i] == '\n' && forall|k: int| i < k < t.len() ==> t[k] != '\n',
            None => forall|k: int| 0 <= k < t.len() ==> t[k] != '\n',
        },
    decreases t.len(),
{
    if t.len() > 0 && t.last() != '\n' {
        lemma_last_break(t.drop_last());
        assert forall|k: int| 0 <= k < t.len() - 1 implies t[k] == t.drop_last()[k] by {}
    }
}

/// The reader's state after the DOS-format text written for `t`.
pub open spec fn dos_read_state(t: Seq<char>) -> ConvState {
    match last_break(t) {
        None => (Seq::empty(), t, false, LineFormat::Unix),
        Some(i) => (t.take(i + 1), t.skip(i + 1), true, LineFormat::Dos),
    }
}

/// The reader's state after the Mac-format text written for `t`: a CR
/// ending what was read so far is only taken for a line break at the next
/// character (or at the end).
pub open spec fn mac_read_state(t: Seq<char>) -> ConvState {
    if t.len() > 0 && t.last() == '\n' {
        let p = t.drop_last();
        match last_break(p) {
            None => (Seq::empty(), p.push('\r'), false, LineFormat::Unix),
            Some(i) => (p.take(i + 1), p.skip(i + 1).push('\r'), true, LineFormat::Mac),
        }
    } else {
        match last_break(t) {
            None => (Seq::empty(), t, false, LineFormat::Unix),
            Some(i) => (t.take(i + 1), t.skip(i + 1), true, LineFormat::Mac),
        }
    }
}

proof fn lemma_no_cr_parts(t: Seq<char>, i: int)
    requires
        !t.contains('\r'),
        0 <= i <= t.len(),
    ensures
        !ends_with_cr(t.skip(i)),
        !ends_with_cr(t),
        !t.drop_last().contains('\r') || t.len() == 0,
{
    if t.skip(i).len() > 0 {
        assert(t.skip(i).last() == t[t.len() - 1]);
        assert(t.contains(t[t.len() - 1]));
    }
    if t.len() > 0 {
        assert(t.contains(t.last()));
        if t.drop_last().contains('\r') {
            let k = choose|k: int| 0 <= k < t.drop_last().len() && t.drop_last()[k] == '\r';
            assert(t[k] == '\r');
        }
    }
}

proof fn lemma_dos_fold(t: Seq<char>)
    requires
        !t.contains('\r'),
    ensures
        conv_fold(serialized_text(t, LineFormat::Dos)) == dos_read_state(t),
    decreases t.len(),
{
    if t.len() > 0 {
        let p = t.drop_last();
        let c = t.last();
        lemma_no_cr_parts(t, 0);
        lemma_dos_fold(p);
        lemma_last_break(p);
        let x = serialized_text(p, LineFormat::Dos);
        let st = conv_fold(x);
        match last_break(p) {
            Some(i) => lemma_no_cr_parts(p, i + 1),
            None => lemma_no_cr_parts(p, 0),
        }
        assert(!ends_with_cr(st.1));
        assert(c != '\r') by {
            assert(t.contains(c));
        }
        if c == '\n' {
            let y = x.push('\r');
            assert(serialized_text(t, LineFormat::Dos) =~= y.push('\n'));
            assert(y.push('\n').drop_last() =~= y);
            assert(y.drop_last() =~= x);
            assert(conv_fold(y) == conv_step(st, '\r'));
            assert(st.0 + st.1 =~= p) by {
                match last_break(p) {
                    Some(i) => {
                        assert(p.take(i + 1) + p.skip(i + 1) =~= p);
                    },
                    None => {},
                }
            }
            assert(t.take(t.len() as int) =~= t);
            assert(t.skip(t.len() as int) =~= Seq::<char>::empty());
            assert(st.0 + st.1 + seq!['\n'] =~= t);
        } else {
            assert(serialized_text(t, LineFormat::Dos) =~= x.push(c));
            assert(x.push(c).drop_last() =~= x);
            assert(last_break(t) == last_break(p));
            match last_break(p) {
                Some(i) => {
                    assert(t.take(i + 1) =~= p.take(i + 1));
                    assert(t.skip(i + 1) =~= p.skip(i + 1).push(c));
                },
                None => {
                    assert(p.push(c) =~= t);
                },
            }
        }
    }
}

#[verifier::rlimit(40)]
proof fn lemma_mac_fold(t: Seq<char>)
    requires
        !t.contains('\r'),
    ensures
        conv_fold(serialized_text(t, LineFormat::Mac)) == mac_read_state(t),
    decreases t.len(),
{
    if t.len() > 0 {
        let p = t.drop_last();
        let c = t.last();
        lemma_no_cr_parts(t, 0);
        lemma_mac_fold(p);
        lemma_last_break(p);
        let x = serialized_text(p, LineFormat::Mac);
        let st = conv_fold(x);
        assert(c != '\r') by {
            assert(t.contains(c));
        }
        let w = if c == '\n' { '\r' } else { c };
        assert(serialized_text(t, LineFormat::Mac) =~= x.push(w));
        assert(x.push(w).drop_last() =~= x);
        if p.len() > 0 && p.last() == '\n' {
            // The CR written for p's last line feed is pending.
            let q = p.drop_last();
            lemma_last_break(q);
            lemma_no_cr_parts(p, 0);
            assert(st.0 + st.1.drop_last() =~= q) by {
                match last_break(q) {
                    Some(i) => {
                        assert(q.take(i + 1) + q.skip(i + 1) =~= q);
                    },
                    None => {},
                }
            }
            assert(last_break(p) == Some(p.len() - 1));
            if c == '\n' {
                assert(t.drop_last() =~= p);
                assert(p.take(p.len() as int) =~= p);
                assert(p.skip(p.len() as int) =~= Seq::<char>::empty());
                assert(st.0 + st.1.drop_last() + seq!['\n'] =~= p);
            } else {
                assert(last_break(t) == Some(p.len() - 1));
                assert(t.take(p.len() as int) =~= p);
                assert(t.skip(p.len() as int) =~= seq![c]);
                assert(st.0 + st.1.drop_last() + seq!['\n'] =~= p);
            }
        } else {
            match last_break(p) {
                Some(i) => lemma_no_cr_parts(p, i + 1),
                None => lemma_no_cr_parts(p, 0),
            }
            assert(!ends_with_cr(st.1));
            if c == '\n' {
                assert(t.drop_last() =~= p);
            } else {
                assert(last_break(t) == last_break(p));
                match last_break(p) {
                    Some(i) => {
                        assert(t.take(i + 1) =~= p.take(i + 1));
                        assert(t.skip(i + 1) =~= p.skip(i + 1).push(c));
                    },
                    None => {
                        assert(p.push(c) =~= t);
                    },
                }
            }
        }
    }
}

proof fn lemma_unix_written_as_is(t: Seq<char>, format: LineFormat)
    requires
        !(format is Dos || format is Mac),
    ensures
        serialized_text(t, format) == t,
    decreases t.len(),
{
    if t.len() > 0 {
        lemma_unix_written_as_is(t.drop_last(), format);
        assert(t.drop_last().push(t.last()) =~= t);
    }
}

/// Text without carriage returns, written in a format and read back,
/// comes back as it was, in that format (DOS and Mac format being
/// recognized only from a line break, so the text must have one; the
/// other formats write and read back as Unix format).
pub proof fn law_written_text_reads_back(t: Seq<char>, format: LineFormat)
    requires
        !t.contains('\r'),
        (format is Dos || format is Mac) ==> t.contains('\n'),
    ensures
        converted(serialized_text(t, format), false) == (
            t,
            if format is Dos || format is Mac { format } else { LineFormat::Unix },
        ),
{
    lemma_last_break(t);
    if format is Dos {
        lemma_dos_fold(t);
        let i = last_break(t).unwrap();
        assert(last_break(t) is Some) by {
            let k = choose|k: int| 0 <= k < t.len() && t[k] == '\n';
        }
        lemma_no_cr_parts(t, last_break(t).unwrap() + 1);
        assert(t.take(last_break(t).unwrap() + 1) + t.skip(last_break(t).unwrap() + 1) =~= t);
    } else if format is Mac {
        lemma_mac_fold(t);
        if t.last() == '\n' {
            let p = t.drop_last();
            lemma_last_break(p);
            lemma_no_cr_parts(t, 0);
            match last_break(p) {
                Some(i) => {
                    assert(p.take(i + 1) + p.skip(i + 1).push('\r').drop_last() + seq!['\n'] =~= t);
                },
                None => {
                    assert(p.push('\r').drop_last() + seq!['\n'] =~= t);
                },
            }
        } else {
            assert(last_break(t) is Some) by {
                let k = choose|k: int| 0 <= k < t.len() && t[k] == '\n';
            }
            lemma_no_cr_parts(t, last_break(t).unwrap() + 1);
            assert(t.take(last_break(t).unwrap() + 1) + t.skip(last_break(t).unwrap() + 1) =~= t);
        }
    } else {
        lemma_unix_written_as_is(t, format);
        text_without_cr_reads_unchanged(t, false);
    }
}

// ---------------------------------------------------------------------------
// A merge with one side unchanged
// ---------------------------------------------------------------------------

/// Changes that follow each other along the base, none reaching past the
/// start of the next.
pub open spec fn along_base(cs: Seq<Change>) -> bool {
    &&& forall|i: int| 0 <= i < cs.len() ==> (#[trigger] cs[i]).0 <= cs[i].1
    &&& forall|i: int, j: int| 0 <= i < j < cs.len() ==> (#[trigger] cs[i]).1 <= (#[trigger] cs[j]).0
}

/// Operations that follow each other along both sides.
pub open spec fn consecutive(ops: Seq<LineOp>) -> bool {
    forall|k: int|
        0 <= k < ops.len() - 1 ==> #[trigger] ops[k + 1].old_start == ops[k].old_end && ops[k + 1].new_start
            == ops[k].new_end
}

proof fn lemma_changes_along(ops: Seq<LineOp>, side: bool, bn: nat, nn: nat)
    requires
        ops_in_bounds(ops, bn, nn),
        consecutive(ops),
    ensures
        along_base(changes_of(ops, side)),
        ops.len() > 0 ==> ops[0].old_start <= ops.last().old_start,
        ops.len() > 0 ==> forall|i: int|
            0 <= i < changes_of(ops, side).len() ==> ops[0].old_start <= (#[trigger] changes_of(ops, side)[i]).0
                && changes_of(ops, side)[i].1 <= ops.last().old_end,
    decreases ops.len(),
{
    if ops.len() > 0 {
        let p = ops.drop_last();
        let op = ops.last();
        assert(ops_in_bounds(p, bn, nn)) by {
            assert forall|k: int| 0 <= k < p.len() implies #[trigger] op_in_bounds(p[k], bn, nn) by {
                assert(op_in_bounds(ops[k], bn, nn));
            }
        }
        assert(consecutive(p)) by {
            assert forall|k: int| 0 <= k < p.len() - 1 implies #[trigger] p[k + 1].old_start == p[k].old_end
                && p[k + 1].new_start == p[k].new_end by {
                assert(ops[k + 1].old_start == ops[k].old_end && ops[k + 1].new_start == ops[k].new_end);
            }
        }
        lemma_changes_along(p, side, bn, nn);
        assert(op_in_bounds(ops[ops.len() - 1], bn, nn));
        if p.len() > 0 {
            assert(op_in_bounds(ops[p.len() - 1], bn, nn));
            let j = p.len() - 1;
            assert(ops[j + 1].old_start == ops[j].old_end);
        }
        let rest = changes_of(p, side);
        let cs = changes_of(ops, side);
        assert(forall|i: int| 0 <= i < rest.len() ==> cs[i] == rest[i]);
    }
}

proof fn lemma_sorted_insert_last(s: Seq<Change>, x: Change)
    requires
        along_base(s.push(x)),
    ensures
        sorted_insert(s, x) == s.push(x),
    decreases s.len(),
{
    let t = s.push(x);
    if s.len() > 0 {
        assert(t[0] == s[0]);
        assert(t[s.len() as int] == x);
        assert(t[0].1 <= t[s.len() as int].0);
        assert(!sorts_after(s[0], x));
        let u = s.drop_first().push(x);
        assert(along_base(u)) by {
            assert forall|i: int| 0 <= i < u.len() implies (#[trigger] u[i]).0 <= u[i].1 by {
                assert(u[i] == t[i + 1]);
            }
            assert forall|i: int, j: int| 0 <= i < j < u.len() implies (#[trigger] u[i]).1 <= (#[trigger] u[j]).0 by {
                assert(u[i] == t[i + 1]);
                assert(u[j] == t[j + 1]);
            }
        }
        lemma_sorted_insert_last(s.drop_first(), x);
        assert(seq![s[0]] + u =~= t);
    }
}

proof fn lemma_stable_sort_along(s: Seq<Change>)
    requires
        along_base(s),
    ensures
        stable_sort(s) == s,
    decreases s.len(),
{
    if s.len() > 0 {
        let p = s.drop_last();
        assert(along_base(p)) by {
            assert forall|i: int| 0 <= i < p.len() implies (#[trigger] p[i]).0 <= p[i].1 by {
                assert(p[i] == s[i]);
            }
            assert forall|i: int, j: int| 0 <= i < j < p.len() implies (#[trigger] p[i]).1 <= (#[trigger] p[j]).0 by {
                assert(p[i] == s[i]);
                assert(p[j] == s[j]);
            }
        }
        lemma_stable_sort_along(p);
        assert(p.push(s.last()) =~= s);
        lemma_sorted_insert_last(p, s.last());
    }
}

proof fn lemma_changes_split(a: Seq<LineOp>, b: Seq<LineOp>, side: bool)
    ensures
        changes_of(a + b, side) == changes_of(a, side) + changes_of(b, side),
    decreases b.len(),
{
    if b.len() == 0 {
        assert(a + b =~= a);
        assert(changes_of(a, side) + changes_of(b, side) =~= changes_of(a, side));
    } else {
        lemma_changes_split(a, b.drop_last(), side);
        assert((a + b).drop_last() =~= a + b.drop_last());
        assert((a + b).last() == b.last());
        let x = changes_of(a, side);
        let y = changes_of(b.drop_last(), side);
        match b.last().kind {
            OpKind::Equal => {},
            _ => {
                assert((x + y).push(changes_of(b, side).last()) =~= x + y.push(changes_of(b, side).last()));
            },
        }
    }
}

proof fn lemma_apply_from_earlier(
    base: Seq<Seq<char>>,
    ol: Seq<Seq<char>>,
    tl: Seq<Seq<char>>,
    cs: Seq<Change>,
    p: int,
    q: int,
)
    requires
        0 <= p <= q <= base.len(),
        cs.len() > 0 ==> q <= cs[0].0 <= base.len(),
    ensures
        apply_changes(base, ol, tl, cs, p) == base.subrange(p, q) + apply_changes(base, ol, tl, cs, q),
{
    if cs.len() == 0 {
        assert(base.subrange(p, base.len() as int) =~= base.subrange(p, q) + base.subrange(q, base.len() as int));
        if q == base.len() {
            assert(base.subrange(p, q) + Seq::<Seq<char>>::empty() =~= base.subrange(p, q));
        }
    } else {
        let c = cs[0];
        let rest = apply_changes(base, ol, tl, cs.drop_first(), c.1 as int);
        let r = replacement(c, ol, tl);
        if p < c.0 {
            assert(base.subrange(p, c.0 as int) =~= base.subrange(p, q) + (if q < c.0 {
                base.subrange(q, c.0 as int)
            } else {
                Seq::empty()
            }));
        }
        assert(apply_changes(base, ol, tl, cs, q) == (if q < c.0 { base.subrange(q, c.0 as int) } else { Seq::empty() }) + r
            + rest);
        assert(apply_changes(base, ol, tl, cs, p) == (if p < c.0 { base.subrange(p, c.0 as int) } else { Seq::empty() }) + r
            + rest);
        if p == q {
            assert(base.subrange(p, q) =~= Seq::<Seq<char>>::empty());
        }
        assert(apply_changes(base, ol, tl, cs, p) =~= base.subrange(p, q) + apply_changes(base, ol, tl, cs, q));
    }
}

/// Where the `k`-th operation starts in the base (the base's end past the
/// last one).
pub open spec fn old_at(ops: Seq<LineOp>, k: int, bn: nat) -> int {
    if k < ops.len() { ops[k].old_start as int } else { bn as int }
}

/// Where the `k`-th operation starts in the other side (its end past the
/// last one).
pub open spec fn new_at(ops: Seq<LineOp>, k: int, nn: nat) -> int {
    if k < ops.len() { ops[k].new_start as int } else { nn as int }
}

proof fn lemma_apply_script_from(
    base: Seq<Seq<char>>,
    ol: Seq<Seq<char>>,
    tl: Seq<Seq<char>>,
    ops: Seq<LineOp>,
    side: bool,
    k: int,
)
    requires
        ops_script(ops, base, if side { tl } else { ol }),
        0 <= k <= ops.len(),
    ensures
        apply_changes(base, ol, tl, changes_of(ops.skip(k), side), old_at(ops, k, base.len())) == (if side {
            tl
        } else {
            ol
        }).subrange(new_at(ops, k, (if side { tl } else { ol }).len()), (if side { tl } else { ol }).len() as int),
    decreases ops.len() - k,
{
    let n = if side { tl } else { ol };
    let s = ops.skip(k);
    if k == ops.len() {
        assert(s.len() == 0);
        assert(changes_of(s, side) =~= Seq::<Change>::empty());
        assert(n.subrange(n.len() as int, n.len() as int) =~= Seq::<Seq<char>>::empty());
    } else {
        lemma_apply_script_from(base, ol, tl, ops, side, k + 1);
        let op = ops[k];
        let s1 = ops.skip(k + 1);
        assert(s =~= seq![op] + s1);
        lemma_changes_split(seq![op], s1, side);
        assert(seq![op].drop_last() =~= Seq::<LineOp>::empty());
        assert(changes_of(Seq::<LineOp>::empty(), side) == Seq::<Change>::empty());
        assert(seq![op].last() == op);
        assert(op_in_bounds(ops[k], base.len(), n.len()));
        let rest = changes_of(s1, side);
        // The next operation starts where this one ends.
        assert(old_at(ops, k + 1, base.len()) == op.old_end && new_at(ops, k + 1, n.len()) == op.new_end) by {
            if k + 1 < ops.len() {
                assert(ops[k + 1].old_start == ops[k].old_end && ops[k + 1].new_start == ops[k].new_end);
            }
        }
        assert(ops_in_bounds(s1, base.len(), n.len()) && consecutive(s1)) by {
            assert forall|j: int| 0 <= j < s1.len() implies #[trigger] op_in_bounds(s1[j], base.len(), n.len()) by {
                assert(s1[j] == ops[k + 1 + j]);
                assert(op_in_bounds(ops[k + 1 + j], base.len(), n.len()));
            }
            assert forall|j: int| 0 <= j < s1.len() - 1 implies #[trigger] s1[j + 1].old_start == s1[j].old_end
                && s1[j + 1].new_start == s1[j].new_end by {
                assert(s1[j] == ops[k + 1 + j]);
                assert(s1[j + 1] == ops[k + 1 + j + 1]);
                assert(ops[k + 1 + j + 1].old_start == ops[k + 1 + j].old_end);
            }
        }
        lemma_changes_along(s1, side, base.len(), n.len());
        if s1.len() > 0 {
            assert(s1[0] == ops[k + 1]);
        }
        assert(rest.len() > 0 ==> op.old_end <= rest[0].0 && rest[0].0 <= base.len()) by {
            if rest.len() > 0 {
                assert(s1.len() > 0);
                assert(op_in_bounds(s1[s1.len() - 1], base.len(), n.len()));
                assert(rest[0].0 <= rest[0].1);
            }
        }
        match op.kind {
            OpKind::Equal => {
                assert(changes_of(seq![op], side) == Seq::<Change>::empty());
                assert(changes_of(s, side) =~= rest);
                lemma_apply_from_earlier(base, ol, tl, rest, op.old_start as int, op.old_end as int);
                assert(base.subrange(op.old_start as int, op.old_end as int) == n.subrange(
                    op.new_start as int,
                    op.new_end as int,
                ));
                assert(n.subrange(op.new_start as int, n.len() as int) =~= n.subrange(
                    op.new_start as int,
                    op.new_end as int,
                ) + n.subrange(op.new_end as int, n.len() as int));
            },
            _ => {
                let c = changes_of(seq![op], side)[0];
                assert(changes_of(seq![op], side) =~= seq![c]);
                assert(changes_of(s, side) =~= seq![c] + rest);
                assert((seq![c] + rest).drop_first() =~= rest);
                assert(c.0 == op.old_start);
                assert(c.2 == side);
                assert(n.subrange(op.new_start as int, n.len() as int) =~= n.subrange(
                    op.new_start as int,
                    op.new_end as int,
                ) + n.subrange(op.new_end as int, n.len() as int));
                if op.kind == OpKind::Delete {
                    assert(n.subrange(op.new_start as int, op.new_end as int) =~= Seq::<Seq<char>>::empty());
                    assert(replacement(c, ol, tl) =~= Seq::<Seq<char>>::empty());
                }
                assert(Seq::<Seq<char>>::empty() + replacement(c, ol, tl) + apply_changes(base, ol, tl, rest, c.1 as int)
                    =~= replacement(c, ol, tl) + apply_changes(base, ol, tl, rest, c.1 as int));
            },
        }
    }
}

proof fn lemma_equal_ops_change_nothing(ops: Seq<LineOp>, side: bool)
    requires
        forall|k: int| 0 <= k < ops.len() ==> (#[trigger] ops[k]).kind == OpKind::Equal,
    ensures
        changes_of(ops, side) == Seq::<Change>::empty(),
    decreases ops.len(),
{
    if ops.len() > 0 {
        assert(ops.last() == ops[ops.len() - 1]);
        lemma_equal_ops_change_nothing(ops.drop_last(), side);
    }
}

/// When only one side changed the base, merging gives that side's lines.
proof fn lemma_one_sided_merge(
    base: Seq<Seq<char>>,
    ours_ops: Seq<LineOp>,
    ours: Seq<Seq<char>>,
    theirs_ops: Seq<LineOp>,
    theirs: Seq<Seq<char>>,
    theirs_unchanged: bool,
)
    requires
        ops_script(ours_ops, base, ours),
        ops_script(theirs_ops, base, theirs),
        theirs_unchanged ==> forall|k: int| 0 <= k < theirs_ops.len() ==> (#[trigger] theirs_ops[k]).kind == OpKind::Equal,
        !theirs_unchanged ==> forall|k: int| 0 <= k < ours_ops.len() ==> (#[trigger] ours_ops[k]).kind == OpKind::Equal,
    ensures
        merged_lines(base, ours_ops, ours, theirs_ops, theirs) == Some(if theirs_unchanged { ours } else { theirs }),
{
    let oc = changes_of(ours_ops, false);
    let tc = changes_of(theirs_ops, true);
    let (ops, side, n) = if theirs_unchanged { (ours_ops, false, ours) } else { (theirs_ops, true, theirs) };
    if theirs_unchanged {
        lemma_equal_ops_change_nothing(theirs_ops, true);
        assert(oc + tc =~= oc);
    } else {
        lemma_equal_ops_change_nothing(ours_ops, false);
        assert(oc + tc =~= tc);
    }
    assert(!changes_conflict(oc, tc));
    assert(ops_in_bounds(ops, base.len(), n.len()) && consecutive(ops)) by {
        assert forall|k: int| 0 <= k < ops.len() - 1 implies #[trigger] ops[k + 1].old_start == ops[k].old_end
            && ops[k + 1].new_start == ops[k].new_end by {}
    }
    lemma_changes_along(ops, side, base.len(), n.len());
    lemma_stable_sort_along(changes_of(ops, side));
    lemma_apply_script_from(base, ours, theirs, ops, side, 0);
    assert(ops.skip(0) =~= ops);
    assert(n.subrange(0, n.len() as int) =~= n);
    if ops.len() == 0 {
        assert(old_at(ops, 0, base.len()) == 0);
    }
}

} // verus!
