//! A single edited file: its text (a `ropey` rope), cursor and mark,
//! undo/redo history, and the on-disk facts needed to notice external
//! changes.

use crate::text::{push_str, str_chars, string_from_chars};
use vstd::prelude::*;

verus! {

// ---------------------------------------------------------------------------
// The rope
// ---------------------------------------------------------------------------

#[verifier::external_type_specification]
#[verifier::external_body]
pub struct ExRope(ropey::Rope);

/// The characters a rope holds.
pub uninterp spec fn rope_chars(r: ropey::Rope) -> Seq<char>;

/// `ropey::Rope::len_lines` of a rope holding `text`.
pub uninterp spec fn rope_line_count(text: Seq<char>) -> nat;

/// `ropey::Rope::line_to_char` of a rope holding `text`: where line `line`
/// starts.
pub uninterp spec fn rope_line_start(text: Seq<char>, line: nat) -> nat;

/// Where line `line` of rope `r` starts.
pub open spec fn line_start_of(r: ropey::Rope, line: nat) -> int {
    rope_line_start(rope_chars(r), line) as int
}

/// `ropey::Rope::new`: a rope holding nothing.
#[verifier::external_body]
fn rope_new() -> (r: ropey::Rope)
    ensures
        rope_chars(r) == Seq::<char>::empty(),
{
    ropey::Rope::new()
}

/// `ropey::Rope::from_str`: a rope holding exactly `text`.
#[verifier::external_body]
fn rope_from_str(text: &str) -> (r: ropey::Rope)
    ensures
        rope_chars(r) == text@,
{
    ropey::Rope::from_str(text)
}

/// `ropey::Rope::len_chars`: the number of characters held.
#[verifier::external_body]
fn rope_len_chars(r: &ropey::Rope) -> (n: usize)
    ensures
        n == rope_chars(*r).len(),
{
    r.len_chars()
}

/// `ropey::Rope::len_lines`: the number of lines, which the crate documents
/// as at least one (an empty rope has one empty line).
#[verifier::external_body]
fn rope_len_lines(r: &ropey::Rope) -> (n: usize)
    ensures
        n == rope_line_count(rope_chars(*r)),
        n >= 1,
{
    r.len_lines()
}

/// `ropey::Rope::line_to_char` (which panics past one-past-the-last line):
/// the named start of `line`, which is 0 for the first line, the length of
/// the text for one past the last line, and within the text in between.
#[verifier::external_body]
fn rope_line_to_char(r: &ropey::Rope, line: usize) -> (c: usize)
    requires
        line <= rope_line_count(rope_chars(*r)),
    ensures
        c == rope_line_start(rope_chars(*r), line as nat),
        c <= rope_chars(*r).len(),
        line == 0 ==> c == 0,
        line == rope_line_count(rope_chars(*r)) ==> c == rope_chars(*r).len(),
{
    r.line_to_char(line)
}

/// `ropey::Rope::line(line).to_string()` (which panics past the last line):
/// the characters from the start of `line` to the start of the next one,
/// line break included, as `ropey` documents a line to be.
#[verifier::external_body]
fn rope_line(r: &ropey::Rope, line: usize) -> (s: String)
    requires
        line < rope_line_count(rope_chars(*r)),
    ensures
        s@ == rope_chars(*r).subrange(line_start_of(*r, line as nat), line_start_of(*r, line as nat + 1)),
        s@.len() + line_start_of(*r, line as nat) <= rope_chars(*r).len(),
{
    r.line(line).to_string()
}

/// `ropey::Rope::slice(lo..hi).to_string()`: the characters `lo..hi`.
#[verifier::external_body]
fn rope_slice(r: &ropey::Rope, lo: usize, hi: usize) -> (s: String)
    requires
        lo <= hi <= rope_chars(*r).len(),
    ensures
        s@ == rope_chars(*r).subrange(lo as int, hi as int),
{
    r.slice(lo..hi).to_string()
}

/// `ropey::Rope::remove(lo..hi)`: the characters `lo..hi` are taken out.
#[verifier::external_body]
fn rope_remove(r: &mut ropey::Rope, lo: usize, hi: usize)
    requires
        lo <= hi <= rope_chars(*old(r)).len(),
    ensures
        rope_chars(*final(r)) == rope_chars(*old(r)).take(lo as int) + rope_chars(*old(r)).skip(hi as int),
{
    r.remove(lo..hi)
}

/// `ropey::Rope::insert(at, text)`: `text` is put in before character `at`.
#[verifier::external_body]
fn rope_insert(r: &mut ropey::Rope, at: usize, text: &str)
    requires
        at <= rope_chars(*old(r)).len(),
    ensures
        rope_chars(*final(r)) == rope_chars(*old(r)).take(at as int) + text@ + rope_chars(*old(r)).skip(at as int),
{
    r.insert(at, text)
}

/// `ropey::Rope`'s `to_string`: the characters held.
#[verifier::external_body]
fn rope_text(r: &ropey::Rope) -> (s: String)
    ensures
        s@ == rope_chars(*r),
{
    r.to_string()
}

// ---------------------------------------------------------------------------
// Positions, edits, disk state
// ---------------------------------------------------------------------------

/// A position in a buffer: a line index and a character offset in that line.
#[derive(Debug, Clone, Copy, PartialEq, Eq, Structural)]
pub struct Pos {
    pub line: usize,
    pub col: usize,
}

impl Pos {
    pub fn new(line: usize, col: usize) -> (p: Pos)
        ensures
            p.line == line,
            p.col == col,
    {
        Pos { line, col }
    }
}

/// The line-break convention a file was read in, or is to be written in.
#[derive(Debug, Clone, Copy, PartialEq, Eq, Structural)]
pub enum LineFormat {
    Unix,
    Dos,
    Mac,
    Unspecified,
}

/// One undoable edit: the text `removed` at character `start_char` (in the
/// buffer before the edit) was replaced by `inserted`. Undo puts `removed`
/// back; redo puts `inserted` in again.
#[derive(Debug, Clone)]
pub struct Edit {
    pub start_char: usize,
    pub removed: String,
    pub inserted: String,
    pub cursor_before: Pos,
    pub cursor_after: Pos,
}

/// An edit as a mathematical value.
pub struct EditView {
    pub start: int,
    pub removed: Seq<char>,
    pub inserted: Seq<char>,
    pub before: Pos,
    pub after: Pos,
}

impl View for Edit {
    type V = EditView;

    open spec fn view(&self) -> EditView {
        EditView {
            start: self.start_char as int,
            removed: self.removed@,
            inserted: self.inserted@,
            before: self.cursor_before,
            after: self.cursor_after,
        }
    }
}

pub open spec fn edits_view(v: Seq<Edit>) -> Seq<EditView> {
    v.map_values(|e: Edit| e@)
}

/// A file's modification time, as seconds and nanoseconds since the Unix
/// epoch.
#[derive(Debug, Clone, Copy, PartialEq, Eq, Structural)]
pub struct FileTime {
    pub secs: u64,
    pub nanos: u32,
}

/// What a file on disk looked like when it was last loaded or saved here,
/// to notice a change made to it meanwhile.
#[derive(Debug, Clone, Copy, PartialEq, Eq, Structural)]
pub struct DiskState {
    pub mtime: Option<FileTime>,
    pub len: u64,
    pub content_hash: u64,
}

// ---------------------------------------------------------------------------
// Text arithmetic
// ---------------------------------------------------------------------------

/// `t` with the characters `s..e` replaced by `ins`.
pub open spec fn splice(t: Seq<char>, s: int, e: int, ins: Seq<char>) -> Seq<char> {
    t.take(s) + ins + t.skip(e)
}

/// Whether `ed` can be undone on `t`: its inserted text is there at its start.
pub open spec fn undoable(t: Seq<char>, ed: EditView) -> bool {
    0 <= ed.start && ed.start + ed.inserted.len() <= t.len() && t.subrange(ed.start, ed.start + ed.inserted.len()) == ed.inserted
}

/// Whether `ed` can be redone on `t`: its removed text is there at its start.
pub open spec fn redoable(t: Seq<char>, ed: EditView) -> bool {
    0 <= ed.start && ed.start + ed.removed.len() <= t.len() && t.subrange(ed.start, ed.start + ed.removed.len()) == ed.removed
}

/// `t` with `ed` undone: its inserted text replaced by its removed text.
pub open spec fn undone(t: Seq<char>, ed: EditView) -> Seq<char> {
    splice(t, ed.start, ed.start + ed.inserted.len(), ed.removed)
}

/// `t` with `ed` redone: its removed text replaced by its inserted text.
pub open spec fn redone(t: Seq<char>, ed: EditView) -> Seq<char> {
    splice(t, ed.start, ed.start + ed.removed.len(), ed.inserted)
}

/// An edit can be undone right after it is made, and undoing it gives the
/// text back as it was.
pub proof fn law_undo_restores_edit(t: Seq<char>, s: nat, e: nat, ins: Seq<char>, before: Pos, after: Pos)
    requires
        s <= e <= t.len(),
    ensures
        ({
            let ed = EditView { start: s as int, removed: t.subrange(s as int, e as int), inserted: ins, before, after };
            undoable(splice(t, s as int, e as int, ins), ed) && undone(splice(t, s as int, e as int, ins), ed) == t
        }),
{
    let ed = EditView { start: s as int, removed: t.subrange(s as int, e as int), inserted: ins, before, after };
    let u = splice(t, s as int, e as int, ins);
    assert(u.subrange(s as int, (s + ins.len()) as int) =~= ins);
    assert(undone(u, ed) =~= t);
}

/// An undone edit can be redone, and redoing it gives back the text it was
/// undone from.
pub proof fn law_redo_restores_undone(t: Seq<char>, ed: EditView)
    requires
        undoable(t, ed),
    ensures
        redoable(undone(t, ed), ed),
        redone(undone(t, ed), ed) == t,
{
    let u = undone(t, ed);
    assert(u.subrange(ed.start, ed.start + ed.removed.len()) =~= ed.removed);
    assert(redone(u, ed) =~= t.take(ed.start) + ed.inserted + t.skip(ed.start + ed.inserted.len()));
    assert(t.take(ed.start) + t.subrange(ed.start, ed.start + ed.inserted.len()) + t.skip(
        ed.start + ed.inserted.len(),
    ) =~= t);
}

/// A line without its trailing line-break characters.
pub open spec fn trim_breaks(s: Seq<char>) -> Seq<char>
    decreases s.len(),
{
    if s.len() > 0 && (s.last() == '\n' || s.last() == '\r') {
        trim_breaks(s.drop_last())
    } else {
        s
    }
}

/// The text of line `idx`, without its line break; empty past the last line.
pub open spec fn line_of(t: Seq<char>, idx: nat) -> Seq<char> {
    if idx < rope_line_count(t) {
        trim_breaks(t.subrange(rope_line_start(t, idx) as int, rope_line_start(t, idx + 1) as int))
    } else {
        Seq::empty()
    }
}

/// The character index of a position: the start of its line (the last line,
/// for a line past it) plus its column.
pub open spec fn char_index(t: Seq<char>, p: Pos) -> int {
    let last = (rope_line_count(t) - 1) as nat;
    rope_line_start(t, if p.line < last { p.line as nat } else { last }) + p.col
}

/// The number of line feeds in `s`.
pub open spec fn count_lf(s: Seq<char>) -> nat
    decreases s.len(),
{
    if s.len() == 0 {
        0
    } else {
        count_lf(s.drop_last()) + if s.last() == '\n' { 1nat } else { 0nat }
    }
}

/// The text after the last line feed of `s` (all of it, without one).
pub open spec fn after_last_lf(s: Seq<char>) -> Seq<char>
    decreases s.len(),
{
    if s.len() == 0 {
        s
    } else if s.last() == '\n' {
        Seq::empty()
    } else {
        after_last_lf(s.drop_last()).push(s.last())
    }
}

/// Where the cursor ends up after typing `text` at `p`.
pub open spec fn pos_after_typing(p: Pos, text: Seq<char>) -> Pos {
    let n = count_lf(text);
    if n == 0 {
        Pos { line: p.line, col: (p.col + text.len()) as usize }
    } else {
        Pos { line: (p.line + n) as usize, col: after_last_lf(text).len() as usize }
    }
}

proof fn lemma_count_lf_bounded(s: Seq<char>)
    ensures
        count_lf(s) <= s.len(),
        after_last_lf(s).len() <= s.len(),
    decreases s.len(),
{
    if s.len() > 0 {
        lemma_count_lf_bounded(s.drop_last());
    }
}

// ---------------------------------------------------------------------------
// The buffer
// ---------------------------------------------------------------------------

/// An edited file.
pub struct Buffer {
    pub rope: ropey::Rope,
    /// The file's path, if it has one.
    pub path: Option<String>,
    pub cursor: Pos,
    pub mark: Option<Pos>,
    pub modified: bool,
    pub undo_stack: Vec<Edit>,
    pub redo_stack: Vec<Edit>,
    pub disk_state: Option<DiskState>,
    /// The text as loaded: the base of a three-way merge when the file
    /// changes on disk while there are local edits.
    pub original_content: String,
    pub top_line: usize,
    pub language: Option<String>,
    /// The line-break convention the buffer is written in.
    pub format: LineFormat,
    /// The column remembered across consecutive up/down moves through
    /// shorter lines; any horizontal move or edit forgets it (as in nano).
    pub goal_col: Option<usize>,
    /// Whether the mark was set by a shifted movement (a soft mark, which
    /// the next plain movement clears) rather than by Set Mark.
    pub softmark: bool,
    /// The display column at which the cursor's line is drawn from, when
    /// it is scrolled sideways.
    pub left_col: usize,
    /// The lock file this session holds for the buffer's file, if any.
    pub lock_filename: Option<String>,
    /// Whether the lock file has been rewritten with the "modified" flag.
    pub lock_modified_written: bool,
}

/// `a` and `b` agree on all but the text, the cursor, the undo and redo
/// histories, the modified flag and the remembered column.
pub open spec fn keeps_meta(a: Buffer, b: Buffer) -> bool {
    &&& a.path == b.path
    &&& a.mark == b.mark
    &&& a.disk_state == b.disk_state
    &&& a.original_content == b.original_content
    &&& a.top_line == b.top_line
    &&& a.language == b.language
    &&& a.format == b.format
    &&& a.softmark == b.softmark
    &&& a.left_col == b.left_col
    &&& a.lock_filename == b.lock_filename
    &&& a.lock_modified_written == b.lock_modified_written
}

/// `b` is `a` with at most its cursor and remembered column changed.
pub open spec fn moved_only(a: Buffer, b: Buffer) -> bool {
    &&& keeps_meta(a, b)
    &&& a.rope == b.rope
    &&& a.undo_stack@ == b.undo_stack@
    &&& a.redo_stack@ == b.redo_stack@
    &&& a.modified == b.modified
}

/// `b` is `a` with `c` typed at the cursor (see `insert_char`).
pub open spec fn char_typed(a: Buffer, b: Buffer, c: char) -> bool {
    keeps_meta(a, b) && {
        let t = a.text();
        let p = a.cursor;
        let ci = char_index(t, p);
        let after = if c == '\n' { Pos { line: (p.line + 1) as usize, col: 0 } } else { Pos { line: p.line, col: (p.col + 1) as usize } };
        if ci <= t.len() && t.len() + 1 <= usize::MAX && p.line < usize::MAX && p.col < usize::MAX {
            &&& b.text() == splice(t, ci, ci, seq![c])
            &&& b.cursor == after
            &&& edits_view(b.undo_stack@) == edits_view(a.undo_stack@).push(
                EditView { start: ci, removed: Seq::empty(), inserted: seq![c], before: p, after },
            )
            &&& b.redo_stack@.len() == 0
            &&& b.modified
        } else {
            b == a
        }
    }
}

/// `b` is `a` with `text` typed at the cursor (see `insert_str`).
pub open spec fn str_typed(a: Buffer, b: Buffer, text: Seq<char>) -> bool {
    keeps_meta(a, b) && {
        let t = a.text();
        let p = a.cursor;
        let ci = char_index(t, p);
        let after = pos_after_typing(p, text);
        if ci <= t.len() && t.len() + text.len() <= usize::MAX && p.line + text.len() <= usize::MAX && p.col
            + text.len() <= usize::MAX {
            &&& b.text() == splice(t, ci, ci, text)
            &&& b.cursor == after
            &&& edits_view(b.undo_stack@) == edits_view(a.undo_stack@).push(
                EditView { start: ci, removed: Seq::empty(), inserted: text, before: p, after },
            )
            &&& b.redo_stack@.len() == 0
            &&& b.modified
        } else {
            b == a
        }
    }
}

/// `b` is `a` with the text between `start` and `end` cut, which was
/// `removed` (see `delete_range`).
pub open spec fn range_cut(a: Buffer, b: Buffer, start: Pos, end: Pos, removed: Seq<char>) -> bool {
    keeps_meta(a, b) && {
        let t = a.text();
        let first = if start.line < end.line || (start.line == end.line && start.col <= end.col) { start } else { end };
        let second = if start.line < end.line || (start.line == end.line && start.col <= end.col) { end } else { start };
        let s = char_index(t, first);
        let e = char_index(t, second);
        if s <= e <= t.len() {
            &&& removed == t.subrange(s, e)
            &&& b.text() == splice(t, s, e, Seq::empty())
            &&& b.cursor == first
            &&& edits_view(b.undo_stack@) == edits_view(a.undo_stack@).push(
                EditView { start: s, removed: t.subrange(s, e), inserted: Seq::empty(), before: a.cursor, after: first },
            )
            &&& b.redo_stack@.len() == 0
            &&& b.modified
        } else {
            removed == Seq::<char>::empty() && b == a
        }
    }
}

impl Buffer {
    /// The buffer's text.
    pub open spec fn text(&self) -> Seq<char> {
        rope_chars(self.rope)
    }

    /// An empty, unnamed, unmodified buffer.
    pub fn empty() -> (b: Buffer)
        ensures
            b.text() == Seq::<char>::empty(),
            b.path is None,
            b.cursor == (Pos { line: 0, col: 0 }),
            b.mark is None,
            !b.modified,
            b.undo_stack@.len() == 0,
            b.redo_stack@.len() == 0,
            b.disk_state is None,
            b.original_content@ == Seq::<char>::empty(),
            b.top_line == 0,
            b.language is None,
            b.format == LineFormat::Unspecified,
            b.goal_col is None,
            !b.softmark,
            b.left_col == 0,
            b.lock_filename is None,
            !b.lock_modified_written,
    {
        Buffer {
            rope: rope_new(),
            path: None,
            cursor: Pos::new(0, 0),
            mark: None,
            modified: false,
            undo_stack: Vec::new(),
            redo_stack: Vec::new(),
            disk_state: None,
            original_content: String::new(),
            top_line: 0,
            language: None,
            format: LineFormat::Unspecified,
            goal_col: None,
            softmark: false,
            left_col: 0,
            lock_filename: None,
            lock_modified_written: false,
        }
    }

    /// A buffer holding `text`, which is also its merge base.
    pub fn from_text(text: &str, path: Option<String>) -> (b: Buffer)
        ensures
            b.text() == text@,
            b.original_content@ == text@,
            b.path == path,
            b.cursor == (Pos { line: 0, col: 0 }),
            b.mark is None,
            !b.modified,
            b.undo_stack@.len() == 0,
            b.redo_stack@.len() == 0,
            b.disk_state is None,
            b.format == LineFormat::Unspecified,
            b.goal_col is None,
            b.top_line == 0,
            !b.softmark,
            b.left_col == 0,
            b.lock_filename is None,
            !b.lock_modified_written,
    {
        let mut b = Buffer::empty();
        b.rope = rope_from_str(text);
        b.original_content = string_from_chars(str_chars(text).as_slice());
        b.path = path;
        b
    }

    /// Settle the buffer's format for a file read in format `detected`: a
    /// format already chosen stays, except that `unix` (`set unix`) forces
    /// Unix.
    pub fn adopt_format(&mut self, detected: LineFormat, unix: bool)
        ensures
            final(self).format == if unix { LineFormat::Unix } else if old(self).format == LineFormat::Unspecified {
                detected
            } else {
                old(self).format
            },
            final(self).text() == old(self).text(),
            final(self).cursor == old(self).cursor,
    {
        if unix {
            self.format = LineFormat::Unix;
        } else if matches!(self.format, LineFormat::Unspecified) {
            self.format = detected;
        }
    }

    /// The number of lines (`ropey`'s count: a final line break is followed
    /// by an empty last line).
    pub fn line_count(&self) -> (n: usize)
        ensures
            n == rope_line_count(self.text()),
            n >= 1,
    {
        rope_len_lines(&self.rope)
    }

    /// The text of line `idx` without its line break; empty past the last
    /// line.
    pub fn line(&self, idx: usize) -> (s: String)
        ensures
            s@ == line_of(self.text(), idx as nat),
    {
        if idx >= rope_len_lines(&self.rope) {
            return String::new();
        }
        let raw = rope_line(&self.rope, idx);
        let cs = str_chars(raw.as_str());
        let mut n = cs.len();
        proof {
            assert(cs@.take(n as int) =~= cs@);
        }
        while n > 0 && (cs[n - 1] == '\n' || cs[n - 1] == '\r')
            invariant
                n <= cs@.len(),
                trim_breaks(cs@) == trim_breaks(cs@.take(n as int)),
            decreases n,
        {
            proof {
                assert(cs@.take(n as int).drop_last() =~= cs@.take(n - 1));
            }
            n -= 1;
        }
        proof {
            assert(cs@.take(cs@.len() as int) =~= cs@);
        }
        string_from_chars(crate::text::sub_chars(cs.as_slice(), 0, n).as_slice())
    }

    /// The character index of `pos`, when it lies within the text.
    fn char_idx(&self, pos: Pos) -> (r: Option<usize>)
        ensures
            r matches Some(i) ==> i == char_index(self.text(), pos) && i <= self.text().len(),
            r is None ==> char_index(self.text(), pos) > self.text().len(),
    {
        let n = rope_len_lines(&self.rope);
        let last = n - 1;
        let line = if pos.line < last { pos.line } else { last };
        let start = rope_line_to_char(&self.rope, line);
        let len = rope_len_chars(&self.rope);
        if pos.col > len - start {
            None
        } else {
            Some(start + pos.col)
        }
    }

    /// Replace the characters between `start` and `end` with `text`,
    /// recording an undo entry, clearing the redo history, and moving the
    /// cursor to `cursor_after`; nothing happens unless `start` is at or
    /// before `end` within the text.
    fn replace_range(&mut self, start: Pos, end: Pos, text: &str, cursor_after: Pos) -> (done: bool)
        ensures
            done == (char_index(old(self).text(), start) <= char_index(old(self).text(), end) <= old(self).text().len()
                && old(self).text().len() + text@.len() <= usize::MAX),
            done ==> {
                let t = old(self).text();
                let s = char_index(t, start);
                let e = char_index(t, end);
                &&& final(self).text() == splice(t, s, e, text@)
                &&& edits_view(final(self).undo_stack@) == edits_view(old(self).undo_stack@).push(
                    EditView { start: s, removed: t.subrange(s, e), inserted: text@, before: old(self).cursor, after: cursor_after },
                )
                &&& final(self).redo_stack@.len() == 0
                &&& final(self).modified
                &&& final(self).cursor == cursor_after
                &&& final(self).goal_col is None
            },
            !done ==> *final(self) == *old(self),
            old(self).text().len() <= usize::MAX,
            final(self).mark == old(self).mark,
            final(self).format == old(self).format,
            final(self).path == old(self).path,
            keeps_meta(*old(self), *final(self)),
    {
        let len = rope_len_chars(&self.rope);
        let start_c = match self.char_idx(start) {
            Some(c) => c,
            None => return false,
        };
        let end_c = match self.char_idx(end) {
            Some(c) => c,
            None => return false,
        };
        let tlen = str_chars(text).len();
        if start_c > end_c || tlen > usize::MAX - len {
            return false;
        }
        let removed = rope_slice(&self.rope, start_c, end_c);
        rope_remove(&mut self.rope, start_c, end_c);
        rope_insert(&mut self.rope, start_c, text);
        let inserted = string_from_chars(str_chars(text).as_slice());
        let ghost old_undo = edits_view(self.undo_stack@);
        self.undo_stack.push(Edit { start_char: start_c, removed, inserted, cursor_before: self.cursor, cursor_after });
        proof {
            assert(edits_view(self.undo_stack@) =~= old_undo.push(self.undo_stack@.last()@));
            let t = old(self).text();
            assert(t.take(start_c as int).take(start_c as int) =~= t.take(start_c as int));
            assert((t.take(start_c as int) + t.skip(end_c as int)).take(start_c as int) =~= t.take(start_c as int));
            assert((t.take(start_c as int) + t.skip(end_c as int)).skip(start_c as int) =~= t.skip(end_c as int));
        }
        self.redo_stack = Vec::new();
        self.modified = true;
        self.cursor = cursor_after;
        self.goal_col = None;
        true
    }

    /// Type `c` at the cursor: the cursor moves past it (to the start of the
    /// next line for a line feed).
    pub fn insert_char(&mut self, c: char)
        ensures
            char_typed(*old(self), *final(self), c),
    {
        let pos = self.cursor;
        if pos.line == usize::MAX || pos.col == usize::MAX {
            return;
        }
        let after = if c == '\n' { Pos::new(pos.line + 1, 0) } else { Pos::new(pos.line, pos.col + 1) };
        let mut s: Vec<char> = Vec::new();
        s.push(c);
        let st = string_from_chars(s.as_slice());
        proof {
            assert(st@ =~= seq![c]);
        }
        let done = self.replace_range(pos, pos, st.as_str(), after);
        proof {
            if done {
                assert(old(self).text().subrange(char_index(old(self).text(), pos), char_index(old(self).text(), pos))
                    =~= Seq::<char>::empty());
            }
        }
    }

    /// Type `text` at the cursor, which moves to its end.
    pub fn insert_str(&mut self, text: &str)
        ensures
            str_typed(*old(self), *final(self), text@),
    {
        let pos = self.cursor;
        let cs = str_chars(text);
        let n = cs.len();
        if pos.line > usize::MAX - n || pos.col > usize::MAX - n {
            return;
        }
        let mut newlines: usize = 0;
        let mut tail: usize = 0;
        let mut i: usize = 0;
        while i < n
            invariant
                i <= n,
                n == cs@.len(),
                cs@ == text@,
                newlines == count_lf(cs@.take(i as int)),
                tail == after_last_lf(cs@.take(i as int)).len(),
            decreases n - i,
        {
            proof {
                assert(cs@.take(i + 1).drop_last() =~= cs@.take(i as int));
                lemma_count_lf_bounded(cs@.take(i as int));
            }
            if cs[i] == '\n' {
                newlines += 1;
                tail = 0;
            } else {
                tail += 1;
            }
            i += 1;
        }
        proof {
            assert(cs@.take(n as int) =~= cs@);
            lemma_count_lf_bounded(cs@);
        }
        let after = if newlines == 0 { Pos::new(pos.line, pos.col + n) } else { Pos::new(pos.line + newlines, tail) };
        let done = self.replace_range(pos, pos, text, after);
        proof {
            if done {
                assert(old(self).text().subrange(char_index(old(self).text(), pos), char_index(old(self).text(), pos))
                    =~= Seq::<char>::empty());
            }
        }
    }

    /// `b` is `a` after Backspace (see `backspace`).
    pub open spec fn backspaced(a: Buffer, b: Buffer) -> bool {
        &&& ({
            let t = a.text();
            let p = a.cursor;
            let before = if p.col == 0 {
                Pos { line: (p.line - 1) as usize, col: line_of(t, (p.line - 1) as nat).len() as usize }
            } else {
                Pos { line: p.line, col: (p.col - 1) as usize }
            };
            let s = char_index(t, before);
            let e = char_index(t, p);
            if (p.line == 0 && p.col == 0) || !(s <= e <= t.len()) {
                b == a
            } else {
                &&& b.text() == splice(t, s, e, Seq::empty())
                &&& b.cursor == before
                &&& edits_view(b.undo_stack@) == edits_view(a.undo_stack@).push(
                    EditView { start: s, removed: t.subrange(s, e), inserted: Seq::empty(), before: p, after: before },
                )
                &&& b.redo_stack@.len() == 0
                &&& b.modified
            }
        })
        &&& keeps_meta(a, b)
    }

    /// Delete the character before the cursor (joining the line with the
    /// previous one at a line's start); nothing at the very start.
    pub fn backspace(&mut self)
        ensures
            Self::backspaced(*old(self), *final(self)),
    {
        let pos = self.cursor;
        if pos.col == 0 && pos.line == 0 {
            return;
        }
        let before = if pos.col == 0 {
            let prev = self.line(pos.line - 1);
            let prev_len = str_chars(prev.as_str()).len();
            Pos::new(pos.line - 1, prev_len)
        } else {
            Pos::new(pos.line, pos.col - 1)
        };
        let nothing = String::new();
        self.replace_range(before, pos, nothing.as_str(), before);
    }

    /// `b` is `a` after Delete (see `delete_forward`).
    pub open spec fn forward_deleted(a: Buffer, b: Buffer) -> bool {
        &&& ({
            let t = a.text();
            let p = a.cursor;
            let at_eol = p.col >= line_of(t, p.line as nat).len();
            let after = if at_eol { Pos { line: (p.line + 1) as usize, col: 0 } } else { Pos { line: p.line, col: (p.col + 1) as usize } };
            let s = char_index(t, p);
            let e = char_index(t, after);
            if (at_eol && p.line + 1 >= rope_line_count(t)) || !(s <= e <= t.len()) {
                b == a
            } else {
                &&& b.text() == splice(t, s, e, Seq::empty())
                &&& b.cursor == p
                &&& edits_view(b.undo_stack@) == edits_view(a.undo_stack@).push(
                    EditView { start: s, removed: t.subrange(s, e), inserted: Seq::empty(), before: p, after: p },
                )
                &&& b.redo_stack@.len() == 0
                &&& b.modified
            }
        })
        &&& keeps_meta(a, b)
    }

    /// Delete the character under the cursor (joining the next line at a
    /// line's end); nothing at the very end.
    pub fn delete_forward(&mut self)
        ensures
            Self::forward_deleted(*old(self), *final(self)),
    {
        let pos = self.cursor;
        let line = self.line(pos.line);
        let line_len = str_chars(line.as_str()).len();
        let after = if pos.col >= line_len {
            if pos.line >= rope_len_lines(&self.rope) - 1 {
                return;
            }
            Pos::new(pos.line + 1, 0)
        } else {
            Pos::new(pos.line, pos.col + 1)
        };
        let nothing = String::new();
        self.replace_range(pos, after, nothing.as_str(), pos);
    }

    /// Cut the text between two positions (in either order), returning it;
    /// the cursor goes to the earlier one. Nothing happens, and the result
    /// is empty, unless both lie within the text.
    pub fn delete_range(&mut self, start: Pos, end: Pos) -> (removed: String)
        ensures
            range_cut(*old(self), *final(self), start, end, removed@),
    {
        let (first, second) = if start.line < end.line || (start.line == end.line && start.col <= end.col) {
            (start, end)
        } else {
            (end, start)
        };
        let s = match self.char_idx(first) {
            Some(c) => c,
            None => return String::new(),
        };
        let e = match self.char_idx(second) {
            Some(c) => c,
            None => return String::new(),
        };
        if s > e {
            return String::new();
        }
        let removed = rope_slice(&self.rope, s, e);
        let nothing = String::new();
        self.replace_range(first, second, nothing.as_str(), first);
        removed
    }

    /// The text between two positions (in either order); empty unless both
    /// lie within the text.
    pub fn text_range(&self, start: Pos, end: Pos) -> (r: String)
        ensures
            ({
                let t = self.text();
                let first = if start.line < end.line || (start.line == end.line && start.col <= end.col) { start } else { end };
                let second = if start.line < end.line || (start.line == end.line && start.col <= end.col) { end } else { start };
                let s = char_index(t, first);
                let e = char_index(t, second);
                r@ == if s <= e <= t.len() { t.subrange(s, e) } else { Seq::empty() }
            }),
    {
        let (first, second) = if start.line < end.line || (start.line == end.line && start.col <= end.col) {
            (start, end)
        } else {
            (end, start)
        };
        let s = match self.char_idx(first) {
            Some(c) => c,
            None => return String::new(),
        };
        let e = match self.char_idx(second) {
            Some(c) => c,
            None => return String::new(),
        };
        if s > e {
            return String::new();
        }
        rope_slice(&self.rope, s, e)
    }

    /// `b` is `a` after Undo, which answered `done` (see `undo`).
    pub open spec fn undo_done(a: Buffer, b: Buffer, done: bool) -> bool {
        &&& ({
            let t = a.text();
            let u = edits_view(a.undo_stack@);
            if u.len() > 0 && undoable(t, u.last()) {
                &&& done
                &&& b.text() == undone(t, u.last())
                &&& b.cursor == u.last().before
                &&& edits_view(b.undo_stack@) == u.drop_last()
                &&& edits_view(b.redo_stack@) == edits_view(a.redo_stack@).push(u.last())
                &&& b.modified == (u.len() > 1)
            } else {
                !done && b == a
            }
        })
        &&& keeps_meta(a, b)
    }

    /// Undoing right after a character is typed gives back the text, the
    /// cursor and the undo history from before it was typed.
    pub proof fn law_undo_after_typing(a: Buffer, b: Buffer, c: Buffer, ch: char, done: bool)
        requires
            char_typed(a, b, ch),
            Buffer::undo_done(b, c, done),
            char_index(a.text(), a.cursor) <= a.text().len(),
            a.text().len() + 1 <= usize::MAX,
            a.cursor.line < usize::MAX,
            a.cursor.col < usize::MAX,
        ensures
            done,
            c.text() == a.text(),
            c.cursor == a.cursor,
            edits_view(c.undo_stack@) == edits_view(a.undo_stack@),
    {
        let t = a.text();
        let ci = char_index(t, a.cursor);
        let u = edits_view(b.undo_stack@);
        assert(u.drop_last() =~= edits_view(a.undo_stack@));
        let ed = u.last();
        law_undo_restores_edit(t, ci as nat, ci as nat, seq![ch], ed.before, ed.after);
        assert(t.subrange(ci, ci) =~= Seq::<char>::empty());
    }

    /// Undoing right after a stretch of text is cut gives back the text and
    /// the undo history from before the cut, with the cursor where it was.
    pub proof fn law_undo_after_cut(a: Buffer, b: Buffer, c: Buffer, start: Pos, end: Pos, removed: Seq<char>, done: bool)
        requires
            range_cut(a, b, start, end, removed),
            Buffer::undo_done(b, c, done),
            b != a,
        ensures
            done,
            c.text() == a.text(),
            c.cursor == a.cursor,
            edits_view(c.undo_stack@) == edits_view(a.undo_stack@),
    {
        let t = a.text();
        let first = if start.line < end.line || (start.line == end.line && start.col <= end.col) { start } else { end };
        let second = if start.line < end.line || (start.line == end.line && start.col <= end.col) { end } else { start };
        let s = char_index(t, first);
        let e = char_index(t, second);
        let u = edits_view(b.undo_stack@);
        assert(u.drop_last() =~= edits_view(a.undo_stack@));
        law_undo_restores_edit(t, s as nat, e as nat, Seq::empty(), a.cursor, first);
    }

    /// Undo the latest edit: its inserted text is replaced by the text it
    /// removed, the cursor goes back to where it was before it, and it moves
    /// to the redo history. `false` (and nothing changes) when there is
    /// nothing to undo, or the latest edit's text is not where it was made.
    pub fn undo(&mut self) -> (done: bool)
        ensures
            Self::undo_done(*old(self), *final(self), done),
    {
        let n = self.undo_stack.len();
        if n == 0 {
            return false;
        }
        let len = rope_len_chars(&self.rope);
        let start = self.undo_stack[n - 1].start_char;
        let ins = str_chars(self.undo_stack[n - 1].inserted.as_str());
        if start > len || ins.len() > len - start {
            return false;
        }
        let here = rope_slice(&self.rope, start, start + ins.len());
        if !crate::text::str_eq(here.as_str(), self.undo_stack[n - 1].inserted.as_str()) {
            return false;
        }
        let ghost u = edits_view(self.undo_stack@);
        let ghost r = edits_view(self.redo_stack@);
        let edit = self.undo_stack.pop().unwrap();
        proof {
            assert(edits_view(self.undo_stack@) =~= u.drop_last());
            assert(edit@ == u.last());
        }
        rope_remove(&mut self.rope, start, start + ins.len());
        rope_insert(&mut self.rope, start, edit.removed.as_str());
        proof {
            let t = old(self).text();
            assert((t.take(start as int) + t.skip(start + ins.len())).take(start as int) =~= t.take(start as int));
            assert((t.take(start as int) + t.skip(start + ins.len())).skip(start as int) =~= t.skip(start + ins.len()));
        }
        self.cursor = edit.cursor_before;
        self.redo_stack.push(edit);
        proof {
            assert(edits_view(self.redo_stack@) =~= r.push(u.last()));
        }
        self.modified = self.undo_stack.len() > 0;
        self.goal_col = None;
        true
    }

    /// `b` is `a` after Redo, which answered `done` (see `redo`).
    pub open spec fn redo_done(a: Buffer, b: Buffer, done: bool) -> bool {
        &&& ({
            let t = a.text();
            let r = edits_view(a.redo_stack@);
            if r.len() > 0 && redoable(t, r.last()) {
                &&& done
                &&& b.text() == redone(t, r.last())
                &&& b.cursor == r.last().after
                &&& edits_view(b.redo_stack@) == r.drop_last()
                &&& edits_view(b.undo_stack@) == edits_view(a.undo_stack@).push(r.last())
                &&& b.modified
            } else {
                !done && b == a
            }
        })
        &&& keeps_meta(a, b)
    }

    /// Redo the latest undone edit: its removed text is replaced by the text
    /// it inserted, the cursor goes to where it was after it, and it moves
    /// back to the undo history. `false` (and nothing changes) when there is
    /// nothing to redo, or its text is not where it was undone.
    pub fn redo(&mut self) -> (done: bool)
        ensures
            Self::redo_done(*old(self), *final(self), done),
    {
        let n = self.redo_stack.len();
        if n == 0 {
            return false;
        }
        let len = rope_len_chars(&self.rope);
        let start = self.redo_stack[n - 1].start_char;
        let rem = str_chars(self.redo_stack[n - 1].removed.as_str());
        if start > len || rem.len() > len - start {
            return false;
        }
        let here = rope_slice(&self.rope, start, start + rem.len());
        if !crate::text::str_eq(here.as_str(), self.redo_stack[n - 1].removed.as_str()) {
            return false;
        }
        let ghost u = edits_view(self.undo_stack@);
        let ghost r = edits_view(self.redo_stack@);
        let edit = self.redo_stack.pop().unwrap();
        proof {
            assert(edits_view(self.redo_stack@) =~= r.drop_last());
            assert(edit@ == r.last());
        }
        rope_remove(&mut self.rope, start, start + rem.len());
        rope_insert(&mut self.rope, start, edit.inserted.as_str());
        proof {
            let t = old(self).text();
            assert((t.take(start as int) + t.skip(start + rem.len())).take(start as int) =~= t.take(start as int));
            assert((t.take(start as int) + t.skip(start + rem.len())).skip(start as int) =~= t.skip(start + rem.len()));
        }
        self.cursor = edit.cursor_after;
        self.undo_stack.push(edit);
        proof {
            assert(edits_view(self.undo_stack@) =~= u.push(r.last()));
        }
        self.modified = true;
        self.goal_col = None;
        true
    }

    /// `b` is `a` after Left (see `move_left`).
    pub open spec fn left_moved(a: Buffer, b: Buffer) -> bool {
        &&& b.cursor == if a.cursor.col > 0 {
            Pos { line: a.cursor.line, col: (a.cursor.col - 1) as usize }
        } else if a.cursor.line > 0 {
            Pos {
                line: (a.cursor.line - 1) as usize,
                col: line_of(a.text(), (a.cursor.line - 1) as nat).len() as usize,
            }
        } else {
            a.cursor
        }
        &&& b.text() == a.text()
        &&& b.goal_col is None
        &&& moved_only(a, b)
    }

    /// Moving left and then right comes back to where it started, from any
    /// place on a line of the text but its very start.
    pub proof fn law_left_then_right_returns(a: Buffer, b: Buffer, c: Buffer)
        requires
            Buffer::left_moved(a, b),
            Buffer::right_moved(b, c),
            a.cursor.line < rope_line_count(a.text()),
            a.cursor.col <= line_of(a.text(), a.cursor.line as nat).len(),
            a.cursor.line > 0 || a.cursor.col > 0,
            a.cursor.line > 0 ==> line_of(a.text(), (a.cursor.line - 1) as nat).len() <= usize::MAX,
        ensures
            c.cursor == a.cursor,
    {
    }

    /// Moving right and then left comes back to where it started, from any
    /// place on a line of the text but its very end.
    pub proof fn law_right_then_left_returns(a: Buffer, b: Buffer, c: Buffer)
        requires
            Buffer::right_moved(a, b),
            Buffer::left_moved(b, c),
            a.cursor.line < rope_line_count(a.text()),
            a.cursor.col <= line_of(a.text(), a.cursor.line as nat).len(),
            a.cursor.line + 1 < rope_line_count(a.text()) || a.cursor.col < line_of(a.text(), a.cursor.line as nat).len(),
            rope_line_count(a.text()) <= usize::MAX,
            line_of(a.text(), a.cursor.line as nat).len() <= usize::MAX,
        ensures
            c.cursor == a.cursor,
    {
    }

    /// Move one character left, to the end of the previous line from a
    /// line's start.
    pub fn move_left(&mut self)
        ensures
            Self::left_moved(*old(self), *final(self)),
    {
        self.goal_col = None;
        if self.cursor.col > 0 {
            self.cursor.col = self.cursor.col - 1;
        } else if self.cursor.line > 0 {
            let l = self.cursor.line - 1;
            let s = self.line(l);
            self.cursor = Pos::new(l, str_chars(s.as_str()).len());
        }
    }

    /// `b` is `a` after Right (see `move_right`).
    pub open spec fn right_moved(a: Buffer, b: Buffer) -> bool {
        &&& b.cursor == if a.cursor.col < line_of(a.text(), a.cursor.line as nat).len() {
            Pos { line: a.cursor.line, col: (a.cursor.col + 1) as usize }
        } else if a.cursor.line + 1 < rope_line_count(a.text()) {
            Pos { line: (a.cursor.line + 1) as usize, col: 0 }
        } else {
            a.cursor
        }
        &&& b.text() == a.text()
        &&& b.goal_col is None
        &&& moved_only(a, b)
    }

    /// Move one character right, to the start of the next line from a
    /// line's end (if there is a next line).
    pub fn move_right(&mut self)
        ensures
            Self::right_moved(*old(self), *final(self)),
    {
        self.goal_col = None;
        let s = self.line(self.cursor.line);
        let len = str_chars(s.as_str()).len();
        let n = rope_len_lines(&self.rope);
        if self.cursor.col < len {
            self.cursor.col = self.cursor.col + 1;
        } else if self.cursor.line < n - 1 {
            self.cursor = Pos::new(self.cursor.line + 1, 0);
        }
    }

    /// `pos` clamped to the text: its line to the last line, its column to
    /// that line's length.
    fn clamp_pos(&self, pos: Pos) -> (p: Pos)
        ensures
            ({
                let last = (rope_line_count(self.text()) - 1) as nat;
                let line = if pos.line < last { pos.line as nat } else { last };
                let len = line_of(self.text(), line).len();
                p == Pos { line: line as usize, col: if pos.col < len { pos.col } else { len as usize } }
            }),
    {
        let n = rope_len_lines(&self.rope);
        let line = if pos.line < n - 1 { pos.line } else { n - 1 };
        let s = self.line(line);
        let len = str_chars(s.as_str()).len();
        Pos::new(line, if pos.col < len { pos.col } else { len })
    }

    /// `b` is `a` after Up (see `move_up`).
    pub open spec fn up_moved(a: Buffer, b: Buffer) -> bool {
        &&& ({
            let p = a.cursor;
            let goal = match a.goal_col { Some(g) => g, None => p.col };
            if p.line > 0 {
                let len = line_of(a.text(), (p.line - 1) as nat).len();
                b.cursor == Pos { line: (p.line - 1) as usize, col: if goal < len { goal } else { len as usize } }
                    && b.goal_col == Some(goal)
            } else {
                b.cursor == p && b.goal_col == a.goal_col
            }
        })
        &&& b.text() == a.text()
        &&& moved_only(a, b)
    }

    /// Move one line up, keeping to the remembered column where the line is
    /// long enough.
    pub fn move_up(&mut self)
        ensures
            Self::up_moved(*old(self), *final(self)),
    {
        if self.cursor.line > 0 {
            let goal = match self.goal_col {
                Some(g) => g,
                None => self.cursor.col,
            };
            let n = rope_len_lines(&self.rope);
            let line = self.cursor.line - 1;
            proof {
                assert(line < n - 1 || line >= n - 1);
            }
            let s = self.line(line);
            let len = str_chars(s.as_str()).len();
            self.cursor = Pos::new(line, if goal < len { goal } else { len });
            self.goal_col = Some(goal);
        }
    }

    /// `b` is `a` after Down (see `move_down`).
    pub open spec fn down_moved(a: Buffer, b: Buffer) -> bool {
        &&& ({
            let p = a.cursor;
            let goal = match a.goal_col { Some(g) => g, None => p.col };
            if p.line + 1 < rope_line_count(a.text()) {
                let len = line_of(a.text(), (p.line + 1) as nat).len();
                b.cursor == Pos { line: (p.line + 1) as usize, col: if goal < len { goal } else { len as usize } }
                    && b.goal_col == Some(goal)
            } else {
                b.cursor == p && b.goal_col == a.goal_col
            }
        })
        &&& b.text() == a.text()
        &&& moved_only(a, b)
    }

    /// Move one line down (if there is a next line), keeping to the
    /// remembered column where the line is long enough.
    pub fn move_down(&mut self)
        ensures
            Self::down_moved(*old(self), *final(self)),
    {
        let n = rope_len_lines(&self.rope);
        if self.cursor.line < n - 1 {
            let goal = match self.goal_col {
                Some(g) => g,
                None => self.cursor.col,
            };
            let line = self.cursor.line + 1;
            let s = self.line(line);
            let len = str_chars(s.as_str()).len();
            self.cursor = Pos::new(line, if goal < len { goal } else { len });
            self.goal_col = Some(goal);
        }
    }

    /// `b` is `a` after Home (see `move_home`).
    pub open spec fn home_moved(a: Buffer, b: Buffer) -> bool {
        &&& b.cursor == (Pos { line: a.cursor.line, col: 0 })
        &&& b.text() == a.text()
        &&& b.goal_col is None
        &&& moved_only(a, b)
    }

    /// Move to the start of the line.
    pub fn move_home(&mut self)
        ensures
            Self::home_moved(*old(self), *final(self)),
    {
        self.goal_col = None;
        self.cursor.col = 0;
    }

    /// `b` is `a` after End (see `move_end`).
    pub open spec fn end_moved(a: Buffer, b: Buffer) -> bool {
        &&& b.cursor == (Pos {
            line: a.cursor.line,
            col: line_of(a.text(), a.cursor.line as nat).len() as usize,
        })
        &&& b.text() == a.text()
        &&& b.goal_col is None
        &&& moved_only(a, b)
    }

    /// Move to the end of the line.
    pub fn move_end(&mut self)
        ensures
            Self::end_moved(*old(self), *final(self)),
    {
        self.goal_col = None;
        let s = self.line(self.cursor.line);
        self.cursor.col = str_chars(s.as_str()).len();
    }

    /// The buffer's text.
    pub fn to_string(&self) -> (s: String)
        ensures
            s@ == self.text(),
    {
        rope_text(&self.rope)
    }
}

} // verus!
