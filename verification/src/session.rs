//! The editor's whole state (its buffers, settings, cut buffer, search
//! settings, status message, prompt or viewer, and screen size) and the
//! actions on it, independent of any terminal.
//!
//! What needs the outside world is handed back to the caller: the lock file
//! to rewrite or remove, the file to save, and the text on disk to merge
//! with.

use crate::buffer::{char_index, char_typed, line_of, moved_only, range_cut, rope_line_count, splice, str_typed, Buffer, Pos};
use crate::text::{decimal, is_alphanumeric, is_space, is_space_exec, push_decimal, push_str, str_chars, string_from_chars, unicode_alphanumeric};
use crate::editor::{insert_label, insert_prompt_label, search_label, search_prompt_label, Mode, Prompt, PromptKind, SearchState, StatusLevel};
use crate::history::HistoryStore;
use crate::justify::{
    continues, full_justify_run, justify_all, justify_at, justify_paragraph, justify_paragraph_spec, no_paragraph_from, para_start,
    paragraph_at, seqs_view, wrap_at, wrap_column,
};
use crate::pattern::{regex_compiles, Pattern};
use crate::editor::{
    expand_replacement, find_next_match_for_replace, join_lines, joined, opt_pos, regex_source, replace_target, replacement_text,
    search_regex, ReplaceChoice, ReplaceLoopState,
};
use crate::pattern::regex_error_text;
use crate::editor::{find_in_lines, search_from, DiffOutcome};
use crate::fileio::{merge_outcome, three_way_merge, MergeResult};
use crate::history::texts;
use crate::text::{find_char, first_index, lines_of, split_lines, sub_chars};
use crate::keymap::{Action, KeyMap, Menu};
use crate::buffer::{edits_view, redoable, undoable};
use crate::editor::{action_changes_something, changes_something};
use crate::help::help_screen;
use crate::options::Options;
use crate::config::settings::{apply_flag, set_setting, Setting};
use vstd::prelude::*;

verus! {

/// A point in time (std's monotonic clock).
#[verifier::external_type_specification]
#[verifier::external_body]
pub struct ExInstant(std::time::Instant);

pub assume_specification[ core::time::Duration::from_millis ](millis: u64) -> std::time::Duration;

/// `Instant::now`: the current time. Nothing is claimed of it.
#[verifier::external_body]
fn instant_now() -> std::time::Instant {
    std::time::Instant::now()
}

/// `Instant + Duration`: the time `d` after `t`. Nothing is claimed of it.
#[verifier::external_body]
fn instant_plus(t: std::time::Instant, d: std::time::Duration) -> std::time::Instant {
    t + d
}

/// `Instant >= Instant`: whether `now` has reached `deadline`. Nothing is
/// claimed of the answer.
#[verifier::external_body]
fn instant_reached(now: &std::time::Instant, deadline: &std::time::Instant) -> bool {
    now >= deadline
}

/// The whole editor.
pub struct Editor {
    pub buffers: Vec<Buffer>,
    pub current: usize,
    pub options: Options,
    pub keymap: KeyMap,
    pub cutbuffer: String,
    /// Whether the last action was a cut, so that the next one appends.
    pub cut_was_consecutive: bool,
    pub search: SearchState,
    pub status: Option<String>,
    pub status_level: StatusLevel,
    /// Keystrokes left before the status message is wiped (nano's
    /// `countdown`).
    pub status_countdown: u32,
    /// An alert was just posted: the front end rings the bell once.
    pub bell_pending: bool,
    /// The highlighted search or replace match: its position and length.
    pub spotlight: Option<(Pos, usize)>,
    /// When a search match's highlight goes out by itself; none for the
    /// match of a replace prompt, which stays lit.
    pub spotlight_deadline: Option<std::time::Instant>,
    /// The Search/Replace/Execute prompts' history.
    pub history: HistoryStore,
    pub mode: Mode,
    pub screen_rows: usize,
    pub screen_cols: usize,
    /// The Read File prompt's completion listing, when several names match.
    pub file_completions: Option<Vec<String>>,
}

/// `n`'s number of decimal digits.
pub open spec fn decimal_digits(n: nat) -> nat
    decreases n,
{
    if n < 10 {
        1
    } else {
        1 + decimal_digits(n / 10)
    }
}

/// The screen columns that the first `n` characters of `s` take, a tab
/// reaching the next multiple of `tab` (of 1 when `tab` is 0) and any other
/// character one column; capped at `usize::MAX`.
pub open spec fn display_cols(s: Seq<char>, n: int, tab: nat) -> nat
    decreases n,
{
    if n <= 0 || s.len() == 0 {
        0
    } else if n > s.len() {
        display_cols(s, s.len() as int, tab)
    } else {
        let w = display_cols(s, n - 1, tab);
        let t: int = if tab == 0 { 1 } else { tab as int };
        let wi: int = w as int;
        let next: int = if s[n - 1] == '\t' { wi + (t - wi % t) } else { wi + 1 };
        if next > usize::MAX { usize::MAX as nat } else { next as nat }
    }
}

/// The display column of the `col`th character of `line`: the columns that
/// the characters before it take, tabs reaching the next multiple of
/// `tabsize`.
pub fn display_width(line: &str, col: usize, tabsize: usize) -> (w: usize)
    ensures
        w == display_cols(line@, col as int, tabsize as nat),
{
    let cs = crate::text::str_chars(line);
    let n = if col < cs.len() { col } else { cs.len() };
    let t: usize = if tabsize == 0 { 1 } else { tabsize };
    let mut w: usize = 0;
    let mut i: usize = 0;
    proof {
        assert(cs@ == line@);
    }
    while i < n
        invariant
            cs@ == line@,
            n <= cs@.len(),
            n == if col < cs@.len() { col as int } else { cs@.len() as int },
            i <= n,
            t == if tabsize == 0 { 1 } else { tabsize },
            w == display_cols(line@, i as int, tabsize as nat),
        decreases n - i,
    {
        let r = w % t;
        let step = if cs[i] == '\t' { t - r } else { 1 };
        w = w.saturating_add(step);
        i += 1;
    }
    proof {
        if col > cs@.len() && cs@.len() > 0 {
            assert(display_cols(line@, col as int, tabsize as nat) == display_cols(line@, cs@.len() as int, tabsize as nat));
        }
    }
    w
}

proof fn lemma_digits_bound(n: nat)
    ensures
        decimal_digits(n) <= n / 10 + 1,
    decreases n,
{
    if n >= 10 {
        lemma_digits_bound(n / 10);
        assert((n / 10) / 10 + 1 <= n / 10);
    }
}

/// The decimal digits of `n`.
fn digit_count(n: usize) -> (d: usize)
    ensures
        d == decimal_digits(n as nat),
        d <= n / 10 + 1,
{
    let mut m = n;
    let mut d: usize = 1;
    proof {
        lemma_digits_bound(n as nat);
    }
    while m >= 10
        invariant
            1 <= d,
            d - 1 + decimal_digits(m as nat) == decimal_digits(n as nat),
            decimal_digits(n as nat) <= n / 10 + 1,
        decreases m,
    {
        m = m / 10;
        d += 1;
    }
    d
}

impl Editor {
    /// The buffer being edited.
    pub open spec fn cur(&self) -> Buffer {
        self.buffers@[self.current as int]
    }

    /// There is a current buffer.
    pub open spec fn has_buffer(&self) -> bool {
        self.current < self.buffers@.len()
    }

    /// `a` and `b` hold the same buffers, with the same one current.
    pub open spec fn same_buffers(a: Editor, b: Editor) -> bool {
        a.buffers@ == b.buffers@ && a.current == b.current
    }

    /// `a` and `b` have the same status message, level, countdown and bell.
    pub open spec fn same_status(a: Editor, b: Editor) -> bool {
        a.status == b.status && a.status_level == b.status_level && a.status_countdown == b.status_countdown && a.bell_pending
            == b.bell_pending
    }

    /// `a` and `b` agree on the settings: options, key bindings, search
    /// settings and history.
    pub open spec fn same_settings(a: Editor, b: Editor) -> bool {
        a.options == b.options && a.keymap == b.keymap && a.search == b.search && a.history == b.history
    }

    /// `a` and `b` agree on the cut buffer and the cut chain.
    pub open spec fn same_cut(a: Editor, b: Editor) -> bool {
        a.cutbuffer == b.cutbuffer && a.cut_was_consecutive == b.cut_was_consecutive
    }

    /// `a` and `b` show the same: highlight, mode, screen size and
    /// completion listing.
    pub open spec fn same_screen(a: Editor, b: Editor) -> bool {
        a.spotlight == b.spotlight && a.spotlight_deadline == b.spotlight_deadline && a.mode == b.mode
            && a.screen_rows == b.screen_rows && a.screen_cols == b.screen_cols && a.file_completions
            == b.file_completions
    }

    /// `b` is `a` with `msg` posted at `level` (the bell rung for an alert).
    pub open spec fn posted(a: Editor, b: Editor, msg: Seq<char>, level: StatusLevel) -> bool {
        &&& b.status matches Some(s) && s@ == msg
        &&& b.status_level == level
        &&& b.status_countdown == if a.options.quickblank { 1u32 } else { 20u32 }
        &&& b.bell_pending == (a.bell_pending || level == StatusLevel::Alert)
        &&& Self::same_buffers(a, b) && Self::same_settings(a, b) && Self::same_cut(a, b) && Self::same_screen(a, b)
    }

    /// The editor at start: one empty buffer, searches seeded from the
    /// `casesensitive` and `regexp` options, nothing cut, no message, in the
    /// editing window of a 24 by 80 screen. The history starts empty: the
    /// program loads the history file into it when `historylog` is on.
    pub fn new(options: Options, keymap: KeyMap) -> (ed: Editor)
        ensures
            ed.buffers@.len() == 1,
            ed.current == 0,
            ed.cur().text().len() == 0,
            ed.cur().cursor == (Pos { line: 0, col: 0 }),
            ed.cur().path is None,
            ed.cur().mark is None,
            !ed.cur().modified,
            ed.cur().top_line == 0,
            ed.cur().left_col == 0,
            ed.options == options,
            ed.keymap == keymap,
            ed.cutbuffer@.len() == 0,
            !ed.cut_was_consecutive,
            ed.search.last_pattern is None,
            ed.search.case_sensitive == options.casesensitive,
            ed.search.use_regex == options.regexp,
            !ed.search.backwards,
            ed.status is None,
            ed.status_level == StatusLevel::Normal,
            ed.status_countdown == 0,
            !ed.bell_pending,
            ed.spotlight is None,
            ed.spotlight_deadline is None,
            ed.history.search@.len() == 0 && ed.history.replace@.len() == 0 && ed.history.execute@.len() == 0,
            ed.mode is Editing,
            ed.screen_rows == 24,
            ed.screen_cols == 80,
            ed.file_completions is None,
    {
        let search = SearchState {
            last_pattern: None,
            case_sensitive: options.casesensitive,
            use_regex: options.regexp,
            backwards: false,
        };
        let mut buffers: Vec<Buffer> = Vec::new();
        buffers.push(Buffer::empty());
        Editor {
            buffers,
            current: 0,
            options,
            keymap,
            cutbuffer: String::new(),
            cut_was_consecutive: false,
            search,
            status: None,
            status_level: StatusLevel::Normal,
            status_countdown: 0,
            bell_pending: false,
            spotlight: None,
            spotlight_deadline: None,
            history: HistoryStore::new(),
            mode: Mode::Editing,
            screen_rows: 24,
            screen_cols: 80,
            file_completions: None,
        }
    }

    /// The buffer being edited.
    pub fn buf(&self) -> (b: &Buffer)
        requires
            self.has_buffer(),
        ensures
            *b == self.cur(),
    {
        &self.buffers[self.current]
    }

    /// The buffer being edited, to change.
    pub fn buf_mut(&mut self) -> (b: &mut Buffer)
        requires
            old(self).has_buffer(),
        ensures
            *b == old(self).cur(),
            final(self).buffers@ == old(self).buffers@.update(old(self).current as int, *final(b)),
            final(self).current == old(self).current,
            Self::same_status(*old(self), *final(self)),
            Self::same_settings(*old(self), *final(self)),
            Self::same_cut(*old(self), *final(self)),
            Self::same_screen(*old(self), *final(self)),
    {
        let cur = self.current;
        &mut self.buffers[cur]
    }

    fn post(&mut self, msg: &str, level: StatusLevel)
        ensures
            Self::posted(*old(self), *final(self), msg@, level),
    {
        self.status = Some(crate::text::string_from_chars(crate::text::str_chars(msg).as_slice()));
        self.status_level = level;
        self.status_countdown = if self.options.quickblank { 1 } else { 20 };
        if matches!(level, StatusLevel::Alert) {
            self.bell_pending = true;
        }
    }

    /// Show `msg` on the status bar, wiped after 20 keystrokes (1 with
    /// `quickblank`).
    pub fn set_status(&mut self, msg: &str)
        ensures
            Self::posted(*old(self), *final(self), msg@, StatusLevel::Normal),
    {
        self.post(msg, StatusLevel::Normal);
    }

    /// Like `set_status`, for errors: shown as an alert, ringing the bell.
    pub fn set_status_alert(&mut self, msg: &str)
        ensures
            Self::posted(*old(self), *final(self), msg@, StatusLevel::Alert),
    {
        self.post(msg, StatusLevel::Alert);
    }

    /// Like `set_status`, for warnings: shown in the alert colours, with no
    /// bell.
    pub fn set_status_mild(&mut self, msg: &str)
        ensures
            Self::posted(*old(self), *final(self), msg@, StatusLevel::Mild),
    {
        self.post(msg, StatusLevel::Mild);
    }

    /// Highlight a search match, to go out by itself after 1.5 s (0.8 s with
    /// `quickblank`) without input.
    fn set_spotlight_timed(&mut self, pos: Pos, len: usize)
        ensures
            final(self).spotlight == Some((pos, len)),
            final(self).spotlight_deadline is Some,
            Self::same_buffers(*old(self), *final(self)),
            Self::same_status(*old(self), *final(self)),
            Self::same_settings(*old(self), *final(self)),
            Self::same_cut(*old(self), *final(self)),
            final(self).mode == old(self).mode,
            final(self).screen_rows == old(self).screen_rows,
            final(self).screen_cols == old(self).screen_cols,
            final(self).file_completions == old(self).file_completions,
    {
        self.spotlight = Some((pos, len));
        let ms: u64 = if self.options.quickblank { 800 } else { 1500 };
        let d = std::time::Duration::from_millis(ms);
        self.spotlight_deadline = Some(instant_plus(instant_now(), d));
    }

    /// Highlight the match a replace asks about, until it is answered.
    pub fn set_spotlight_persistent(&mut self, pos: Pos, len: usize)
        ensures
            final(self).spotlight == Some((pos, len)),
            final(self).spotlight_deadline is None,
            Self::same_buffers(*old(self), *final(self)),
            Self::same_status(*old(self), *final(self)),
            Self::same_settings(*old(self), *final(self)),
            Self::same_cut(*old(self), *final(self)),
            final(self).mode == old(self).mode,
            final(self).screen_rows == old(self).screen_rows,
            final(self).screen_cols == old(self).screen_cols,
            final(self).file_completions == old(self).file_completions,
    {
        self.spotlight = Some((pos, len));
        self.spotlight_deadline = None;
    }

    /// Put the highlight out.
    pub fn clear_spotlight(&mut self)
        ensures
            final(self).spotlight is None,
            final(self).spotlight_deadline is None,
            Self::same_buffers(*old(self), *final(self)),
            Self::same_status(*old(self), *final(self)),
            Self::same_settings(*old(self), *final(self)),
            Self::same_cut(*old(self), *final(self)),
            final(self).mode == old(self).mode,
            final(self).screen_rows == old(self).screen_rows,
            final(self).screen_cols == old(self).screen_cols,
            final(self).file_completions == old(self).file_completions,
    {
        self.spotlight = None;
        self.spotlight_deadline = None;
    }

    /// Put out a timed highlight whose time has come: `true` when it just
    /// went out. Whether the time has come is the clock's answer, which
    /// nothing here states.
    pub fn tick_spotlight_deadline(&mut self) -> (r: bool)
        ensures
            old(self).spotlight_deadline is None ==> !r,
            r ==> final(self).spotlight is None && final(self).spotlight_deadline is None,
            !r ==> *final(self) == *old(self),
            Self::same_buffers(*old(self), *final(self)),
            Self::same_status(*old(self), *final(self)),
            Self::same_settings(*old(self), *final(self)),
            Self::same_cut(*old(self), *final(self)),
            final(self).mode == old(self).mode,
    {
        let reached = match &self.spotlight_deadline {
            Some(deadline) => {
                let now = instant_now();
                instant_reached(&now, deadline)
            },
            None => false,
        };
        self.expire_spotlight(reached)
    }

    /// Put out a timed highlight when `reached` says its time has come:
    /// `true` when it just went out, which only a timed highlight does;
    /// otherwise nothing changes.
    pub fn expire_spotlight(&mut self, reached: bool) -> (r: bool)
        ensures
            r == (reached && old(self).spotlight_deadline is Some),
            r ==> {
                &&& final(self).spotlight is None && final(self).spotlight_deadline is None
                &&& Self::same_buffers(*old(self), *final(self)) && Self::same_status(*old(self), *final(self))
                &&& Self::same_settings(*old(self), *final(self)) && Self::same_cut(*old(self), *final(self))
                &&& final(self).mode == old(self).mode && final(self).screen_rows == old(self).screen_rows
                &&& final(self).screen_cols == old(self).screen_cols && final(self).file_completions
                    == old(self).file_completions
            },
            !r ==> *final(self) == *old(self),
    {
        if reached && self.spotlight_deadline.is_some() {
            self.clear_spotlight();
            return true;
        }
        false
    }

    /// `b` is `a` one keystroke later as far as the status message goes:
    /// a running countdown one lower, and the message wiped when it reaches
    /// zero; a stopped one unchanged.
    pub open spec fn counted_down(a: Editor, b: Editor) -> bool {
        if a.status_countdown == 0 {
            b.status_countdown == 0 && b.status == a.status
        } else {
            &&& b.status_countdown == a.status_countdown - 1
            &&& b.status == if a.status_countdown == 1 { None } else { a.status }
        }
    }

    proof fn lemma_countdown_prefix(run: Seq<Editor>, n: nat, k: int)
        requires
            n >= 1,
            0 <= k <= n,
            run.len() == n + 1,
            run[0].status_countdown == n,
            forall|i: int| 0 <= i < n ==> Self::counted_down(#[trigger] run[i], run[i + 1]),
        ensures
            run[k].status_countdown == n - k,
            forall|i: int| 0 <= i <= k && i < n ==> (#[trigger] run[i]).status == run[0].status,
            k == n ==> run[k].status is None,
        decreases k,
    {
        if k > 0 {
            Self::lemma_countdown_prefix(run, n, k - 1);
            assert(Self::counted_down(run[k - 1], run[k]));
        }
    }

    /// A status message with a countdown of `n` keystrokes stays through
    /// the first `n - 1` of them and is wiped by the `n`-th.
    pub proof fn law_status_lasts_its_countdown(run: Seq<Editor>, n: nat)
        requires
            n >= 1,
            run.len() == n + 1,
            run[0].status_countdown == n,
            forall|i: int| 0 <= i < n ==> Self::counted_down(#[trigger] run[i], run[i + 1]),
        ensures
            forall|i: int| 0 <= i < n ==> (#[trigger] run[i]).status == run[0].status,
            run[n as int].status is None,
            run[n as int].status_countdown == 0,
    {
        Self::lemma_countdown_prefix(run, n, n as int);
    }

    /// Count one keystroke in the editing window (nano's
    /// `blank_it_when_expired`): the status message is wiped when its
    /// countdown runs out; `true` when it just was.
    pub fn tick_status_countdown(&mut self) -> (r: bool)
        ensures
            old(self).status_countdown == 0 ==> !r && *final(self) == *old(self),
            old(self).status_countdown > 0 ==> r == (old(self).status_countdown == 1),
            Self::counted_down(*old(self), *final(self)),
            Self::same_buffers(*old(self), *final(self)),
            Self::same_settings(*old(self), *final(self)),
            Self::same_cut(*old(self), *final(self)),
            Self::same_screen(*old(self), *final(self)),
            final(self).status_level == old(self).status_level,
            final(self).bell_pending == old(self).bell_pending,
    {
        if self.status_countdown == 0 {
            return false;
        }
        self.status_countdown -= 1;
        if self.status_countdown == 0 {
            self.status = None;
            return true;
        }
        false
    }

    /// The rows of the screen that show text: all but the title bar and the
    /// status line, and the two help lines unless `nohelp`; none of those
    /// with `zero`, only one with `minibar`; at least one.
    pub fn text_rows(&self) -> (r: usize)
        ensures
            r == Self::rows_for(self.options, self.screen_rows),
    {
        let mut used: usize = 2;
        if !self.options.nohelp {
            used += 2;
        }
        if self.options.zero {
            used = 0;
        } else if self.options.minibar {
            used = 1;
        }
        let left = if self.screen_rows > used { self.screen_rows - used } else { 0 };
        if left < 1 { 1 } else { left }
    }

    /// The text rows of a screen `rows` high under `o`.
    pub open spec fn rows_for(o: Options, rows: usize) -> usize {
        let used: int = if o.zero {
            0
        } else if o.minibar {
            1
        } else if o.nohelp {
            2
        } else {
            4
        };
        if rows - used < 1 { 1 } else { (rows - used) as usize }
    }

    /// The width of the line-number margin: the digits of the line count
    /// and a space, or nothing without `linenumbers`.
    pub fn gutter_width(&self) -> (w: usize)
        requires
            self.has_buffer(),
        ensures
            w == Self::gutter_for(self.options, self.cur()),
    {
        if !self.options.linenumbers {
            return 0;
        }
        let n = self.buffers[self.current].line_count();
        digit_count(n) + 1
    }

    /// The line-number margin's width for `b` under `o`.
    pub open spec fn gutter_for(o: Options, b: Buffer) -> usize {
        if o.linenumbers {
            (decimal_digits(rope_line_count(b.text()) as nat) + 1) as usize
        } else {
            0
        }
    }

    /// The first line shown once the cursor of `b` is brought into view on
    /// `rows` text rows with the least scrolling.
    pub open spec fn top_for_cursor(b: Buffer, rows: int) -> usize {
        if b.cursor.line < b.top_line {
            b.cursor.line
        } else if b.cursor.line >= b.top_line + rows {
            (b.cursor.line + 1 - rows) as usize
        } else {
            b.top_line
        }
    }

    /// The first line shown once the cursor of `b` is brought into view on
    /// `rows` text rows: unchanged while it is in view, else the cursor's
    /// line is put in the middle.
    pub open spec fn centered_top(b: Buffer, rows: int) -> usize {
        if b.cursor.line < b.top_line || b.cursor.line >= b.top_line + rows {
            if b.cursor.line >= rows / 2 {
                (b.cursor.line - rows / 2) as usize
            } else {
                0
            }
        } else {
            b.top_line
        }
    }

    /// nano's sideways scrolling with a cushion of 3 columns: the display
    /// column a line is drawn from, for the cursor at display column `col`
    /// with the line drawn from `left` on `width` columns. A screen too
    /// narrow for the cushion just keeps the cursor in view.
    pub open spec fn left_for(col: int, left: int, width: int) -> usize {
        if width <= 7 {
            let keep = if width >= 1 { width - 1 } else { 0 };
            if col >= keep { (col - keep) as usize } else { 0 }
        } else if col < 3 {
            0
        } else if col < left + 3 {
            (col - 3) as usize
        } else if col > left + width - 4 {
            (col + 4 - width) as usize
        } else {
            left as usize
        }
    }

    /// The display column of `b`'s cursor.
    pub open spec fn cursor_column(b: Buffer, tabsize: u32) -> int {
        display_cols(line_of(b.text(), b.cursor.line as nat), b.cursor.col as int, tabsize as nat) as int
    }

    /// `b` scrolled so that its cursor shows, under `o` on a screen `rows`
    /// by `cols`: the first line shown as `top_for_cursor` (or, `centered`,
    /// `centered_top`) says, and drawn sideways from where the cursor's
    /// column needs.
    pub open spec fn scroll_buf(b: Buffer, o: Options, rows: usize, cols: usize, centered: bool) -> Buffer {
        let r = Self::rows_for(o, rows) as int;
        let g = Self::gutter_for(o, b);
        let width: int = if cols >= g { cols - g } else { 0 };
        Buffer {
            top_line: if centered { Self::centered_top(b, r) } else { Self::top_for_cursor(b, r) },
            left_col: Self::left_for(Self::cursor_column(b, o.tabsize), b.left_col as int, width),
            ..b
        }
    }

    /// The current buffer scrolled so that its cursor shows.
    pub open spec fn scrolled_cur(&self, centered: bool) -> Buffer {
        Self::scroll_buf(self.cur(), self.options, self.screen_rows, self.screen_cols, centered)
    }

    fn scroll_horizontal_to_cursor(&mut self)
        requires
            old(self).has_buffer(),
        ensures
            final(self).buffers@ == old(self).buffers@.update(
                old(self).current as int,
                Buffer { top_line: old(self).cur().top_line, ..old(self).scrolled_cur(false) },
            ),
            final(self).current == old(self).current,
            Self::same_status(*old(self), *final(self)),
            Self::same_settings(*old(self), *final(self)),
            Self::same_cut(*old(self), *final(self)),
            Self::same_screen(*old(self), *final(self)),
    {
        let tabsize = self.options.tabsize as usize;
        let g = self.gutter_width();
        let width = if self.screen_cols >= g { self.screen_cols - g } else { 0 };
        let cur = self.current;
        let line = self.buffers[cur].line(self.buffers[cur].cursor.line);
        let col = display_width(line.as_str(), self.buffers[cur].cursor.col, tabsize);
        let left = self.buffers[cur].left_col;
        let new_left = if width <= 7 {
            let keep = if width >= 1 { width - 1 } else { 0 };
            if col >= keep { col - keep } else { 0 }
        } else if col < 3 {
            0
        } else if col - 3 < left {
            col - 3
        } else if col - left > width - 4 {
            col - (width - 4)
        } else {
            left
        };
        self.buffers[cur].left_col = new_left;
        proof {
            assert(self.buffers@ =~= old(self).buffers@.update(
                cur as int,
                Buffer { top_line: old(self).cur().top_line, ..old(self).scrolled_cur(false) },
            ));
        }
    }

    /// Scroll so that the cursor shows: up or down just far enough, and
    /// sideways with nano's cushion.
    pub fn scroll_to_cursor(&mut self)
        requires
            old(self).has_buffer(),
        ensures
            final(self).buffers@ == old(self).buffers@.update(old(self).current as int, old(self).scrolled_cur(false)),
            final(self).current == old(self).current,
            Self::same_status(*old(self), *final(self)),
            Self::same_settings(*old(self), *final(self)),
            Self::same_cut(*old(self), *final(self)),
            Self::same_screen(*old(self), *final(self)),
    {
        let rows = self.text_rows();
        let cur = self.current;
        let line = self.buffers[cur].cursor.line;
        let top = self.buffers[cur].top_line;
        if line < top {
            self.buffers[cur].top_line = line;
        } else if line - top >= rows {
            self.buffers[cur].top_line = line - (rows - 1);
        }
        self.scroll_horizontal_to_cursor();
        proof {
            assert(self.buffers@ =~= old(self).buffers@.update(cur as int, old(self).scrolled_cur(false)));
        }
    }

    /// Like `scroll_to_cursor`, but a cursor out of view is put in the
    /// middle (nano's centering for search and replace jumps).
    pub fn scroll_to_cursor_centered(&mut self)
        requires
            old(self).has_buffer(),
        ensures
            final(self).buffers@ == old(self).buffers@.update(old(self).current as int, old(self).scrolled_cur(true)),
            final(self).current == old(self).current,
            Self::same_status(*old(self), *final(self)),
            Self::same_settings(*old(self), *final(self)),
            Self::same_cut(*old(self), *final(self)),
            Self::same_screen(*old(self), *final(self)),
    {
        let rows = self.text_rows();
        let cur = self.current;
        let line = self.buffers[cur].cursor.line;
        let top = self.buffers[cur].top_line;
        if line < top || line - top >= rows {
            self.buffers[cur].top_line = if line >= rows / 2 { line - rows / 2 } else { 0 };
        }
        self.scroll_horizontal_to_cursor();
        proof {
            assert(self.buffers@ =~= old(self).buffers@.update(cur as int, old(self).scrolled_cur(true)));
        }
    }
}

// ---------------------------------------------------------------------
// Words
// ---------------------------------------------------------------------

/// A character of a word: alphanumeric, or an underscore.
pub open spec fn is_word_char(c: char) -> bool {
    unicode_alphanumeric(c) || c == '_'
}

fn word_char(c: char) -> (r: bool)
    ensures
        r == is_word_char(c),
{
    c == '_' || is_alphanumeric(c)
}

/// From column `col` of `s`, back over characters that are not word
/// characters.
pub open spec fn back_over_gap(s: Seq<char>, col: int) -> int
    decreases col,
{
    if 0 < col <= s.len() && !is_word_char(s[col - 1]) {
        back_over_gap(s, col - 1)
    } else {
        col
    }
}

/// From column `col` of `s`, back over word characters.
pub open spec fn back_over_word(s: Seq<char>, col: int) -> int
    decreases col,
{
    if 0 < col <= s.len() && is_word_char(s[col - 1]) {
        back_over_word(s, col - 1)
    } else {
        col
    }
}

/// From column `col` of `s`, forward over word characters.
pub open spec fn fwd_over_word(s: Seq<char>, col: int) -> int
    decreases s.len() - col,
{
    if 0 <= col < s.len() && is_word_char(s[col]) {
        fwd_over_word(s, col + 1)
    } else {
        col
    }
}

/// From column `col` of `s`, forward over characters that are not word
/// characters.
pub open spec fn fwd_over_gap(s: Seq<char>, col: int) -> int
    decreases s.len() - col,
{
    if 0 <= col < s.len() && !is_word_char(s[col]) {
        fwd_over_gap(s, col + 1)
    } else {
        col
    }
}

/// Where Previous Word goes from column `col` of line `line` of `t`: back
/// to the start of the word before, onto earlier lines when the line holds
/// none (stopping at an empty line).
pub open spec fn word_start_before(t: Seq<char>, line: nat, col: int) -> Pos
    decreases line,
{
    let s = line_of(t, line);
    let c = back_over_word(s, back_over_gap(s, col));
    if c > 0 || line == 0 {
        Pos { line: line as usize, col: c as usize }
    } else {
        let p = line_of(t, (line - 1) as nat);
        if p.len() == 0 {
            Pos { line: (line - 1) as usize, col: 0 }
        } else {
            word_start_before(t, (line - 1) as nat, p.len() as int)
        }
    }
}

/// Where Next Word goes from column `col` of line `line` of `t`: over the
/// rest of this word and the gap after it, onto later lines when the line
/// ends first (stopping at an empty line or the last line).
pub open spec fn word_start_after(t: Seq<char>, line: nat, col: int) -> Pos
    decreases rope_line_count(t) - line,
{
    let s = line_of(t, line);
    let c = fwd_over_gap(s, fwd_over_word(s, col));
    if c < s.len() || line + 1 >= rope_line_count(t) {
        Pos { line: line as usize, col: c as usize }
    } else {
        let n = line_of(t, line + 1);
        if n.len() == 0 {
            Pos { line: (line + 1) as usize, col: 0 }
        } else {
            word_start_after(t, line + 1, 0)
        }
    }
}

fn line_chars(buf: &Buffer, line: usize) -> (v: Vec<char>)
    ensures
        v@ == line_of(buf.text(), line as nat),
{
    let s = buf.line(line);
    str_chars(s.as_str())
}

/// The start of the word before `from` (see `word_start_before`).
pub fn word_left_pos(buf: &Buffer, from: Pos) -> (p: Pos)
    requires
        from.col <= line_of(buf.text(), from.line as nat).len(),
    ensures
        p == word_start_before(buf.text(), from.line as nat, from.col as int),
{
    let ghost t = buf.text();
    let mut line = from.line;
    let mut chars = line_chars(buf, line);
    let mut col = from.col;
    loop
        invariant
            t == buf.text(),
            chars@ == line_of(t, line as nat),
            col <= chars@.len(),
            word_start_before(t, from.line as nat, from.col as int) == word_start_before(t, line as nat, col as int),
        decreases line,
    {
        let ghost c0 = col as int;
        while col > 0 && !word_char(chars[col - 1])
            invariant
                chars@ == line_of(t, line as nat),
                col <= chars@.len(),
                back_over_gap(chars@, col as int) == back_over_gap(chars@, c0),
            decreases col,
        {
            col -= 1;
        }
        let ghost c1 = col as int;
        assert(c1 == back_over_gap(chars@, c0));
        while col > 0 && word_char(chars[col - 1])
            invariant
                chars@ == line_of(t, line as nat),
                col <= chars@.len(),
                back_over_word(chars@, col as int) == back_over_word(chars@, c1),
            decreases col,
        {
            col -= 1;
        }
        if col > 0 || line == 0 {
            return Pos::new(line, col);
        }
        line -= 1;
        chars = line_chars(buf, line);
        col = chars.len();
        if col == 0 {
            return Pos::new(line, 0);
        }
    }
}

/// The start of the word after `from` (see `word_start_after`).
pub fn word_right_pos(buf: &Buffer, from: Pos) -> (p: Pos)
    ensures
        p == word_start_after(buf.text(), from.line as nat, from.col as int),
{
    let ghost t = buf.text();
    let n = buf.line_count();
    let mut line = from.line;
    let mut chars = line_chars(buf, line);
    let mut col = from.col;
    loop
        invariant
            t == buf.text(),
            n == rope_line_count(t),
            n >= 1,
            chars@ == line_of(t, line as nat),
            word_start_after(t, from.line as nat, from.col as int) == word_start_after(t, line as nat, col as int),
        decreases n - line,
    {
        let ghost c0 = col as int;
        while col < chars.len() && word_char(chars[col])
            invariant
                chars@ == line_of(t, line as nat),
                fwd_over_word(chars@, col as int) == fwd_over_word(chars@, c0),
            decreases chars@.len() - col,
        {
            col += 1;
        }
        let ghost c1 = col as int;
        while col < chars.len() && !word_char(chars[col])
            invariant
                chars@ == line_of(t, line as nat),
                fwd_over_gap(chars@, col as int) == fwd_over_gap(chars@, c1),
            decreases chars@.len() - col,
        {
            col += 1;
        }
        if col < chars.len() || line >= n - 1 {
            return Pos::new(line, col);
        }
        line += 1;
        chars = line_chars(buf, line);
        col = 0;
        if chars.len() == 0 {
            return Pos::new(line, 0);
        }
    }
}

/// The marked region of `b`, earlier end first; none without a mark.
pub open spec fn selection(b: Buffer) -> Option<(Pos, Pos)> {
    match b.mark {
        Some(m) => if m.line < b.cursor.line || (m.line == b.cursor.line && m.col <= b.cursor.col) {
            Some((m, b.cursor))
        } else {
            Some((b.cursor, m))
        },
        None => None,
    }
}

/// The text between two positions of `t` (in either order), empty unless
/// both lie within it: what `delete_range` and `text_range` give.
pub open spec fn range_text(t: Seq<char>, start: Pos, end: Pos) -> Seq<char> {
    let first = if start.line < end.line || (start.line == end.line && start.col <= end.col) { start } else { end };
    let second = if start.line < end.line || (start.line == end.line && start.col <= end.col) { end } else { start };
    let s = char_index(t, first);
    let e = char_index(t, second);
    if s <= e <= t.len() { t.subrange(s, e) } else { Seq::empty() }
}

/// The whole of line `line` of `b`, with its line break when another line
/// follows: the span that Cut and Zap take without a mark.
pub open spec fn line_span(b: Buffer, line: usize) -> (Pos, Pos) {
    let t = b.text();
    if line + 1 < rope_line_count(t) {
        (Pos { line, col: 0 }, Pos { line: (line + 1) as usize, col: 0 })
    } else {
        (Pos { line, col: 0 }, Pos { line, col: line_of(t, line as nat).len() as usize })
    }
}

impl Editor {
    /// `a` and `b` hold the same buffers but for the current one, which is
    /// still current.
    pub open spec fn only_cur_changed(a: Editor, b: Editor) -> bool {
        &&& a.current == b.current
        &&& a.has_buffer() && b.has_buffer()
        &&& b.buffers@.len() == a.buffers@.len()
        &&& forall|i: int| 0 <= i < a.buffers@.len() && i != a.current ==> b.buffers@[i] == a.buffers@[i]
    }

    /// `b` shows `msg` at `level` (see `set_status`), posted from `a`.
    pub open spec fn shows(a: Editor, b: Editor, msg: Seq<char>, level: StatusLevel) -> bool {
        &&& b.status matches Some(s) && s@ == msg
        &&& b.status_level == level
        &&& b.status_countdown == if a.options.quickblank { 1u32 } else { 20u32 }
        &&& b.bell_pending == (a.bell_pending || level == StatusLevel::Alert)
    }

    /// The marked region of the current buffer, earlier end first.
    pub fn selection_range(&self) -> (r: Option<(Pos, Pos)>)
        requires
            self.has_buffer(),
        ensures
            r == selection(self.cur()),
    {
        let b = &self.buffers[self.current];
        match b.mark {
            Some(m) => if m.line < b.cursor.line || (m.line == b.cursor.line && m.col <= b.cursor.col) {
                Some((m, b.cursor))
            } else {
                Some((b.cursor, m))
            },
            None => None,
        }
    }

    /// `b` is `a` after Set Mark (see `toggle_mark`).
    pub open spec fn mark_toggled(a: Editor, b: Editor) -> bool {
        &&& b.buffers@ == a.buffers@.update(
            a.current as int,
            Buffer {
                mark: if a.cur().mark is Some { None } else { Some(a.cur().cursor) },
                softmark: false,
                ..a.cur()
            },
        )
        &&& b.current == a.current
        &&& Self::shows(a, b, if a.cur().mark is Some { "Mark Unset"@ } else { "Mark Set"@ }, StatusLevel::Normal)
        &&& Self::same_settings(a, b)
        &&& Self::same_cut(a, b)
        &&& Self::same_screen(a, b)
    }

    /// Set Mark (nano's `do_mark`): a hard mark at the cursor, or none if
    /// one was set.
    fn toggle_mark(&mut self)
        requires
            old(self).has_buffer(),
        ensures
            Self::mark_toggled(*old(self), *final(self)),
    {
        let cur = self.current;
        let pos = self.buffers[cur].cursor;
        if self.buffers[cur].mark.is_some() {
            self.buffers[cur].mark = None;
            self.buffers[cur].softmark = false;
            self.set_status("Mark Unset");
        } else {
            self.buffers[cur].mark = Some(pos);
            self.buffers[cur].softmark = false;
            self.set_status("Mark Set");
        }
        proof {
            assert(self.buffers@ =~= old(self).buffers@.update(
                cur as int,
                Buffer { mark: if old(self).cur().mark is Some { None } else { Some(old(self).cur().cursor) }, softmark: false, ..old(self).cur() },
            ));
        }
    }
}

/// The cursor and remembered column after one move up in `t` (see
/// `Buffer::move_up`).
pub open spec fn one_up(t: Seq<char>, p: Pos, goal: Option<usize>) -> (Pos, Option<usize>) {
    let g = match goal {
        Some(g) => g,
        None => p.col,
    };
    if p.line > 0 {
        let len = line_of(t, (p.line - 1) as nat).len();
        (Pos { line: (p.line - 1) as usize, col: if g < len { g } else { len as usize } }, Some(g))
    } else {
        (p, goal)
    }
}

/// The cursor and remembered column after one move down in `t` (see
/// `Buffer::move_down`).
pub open spec fn one_down(t: Seq<char>, p: Pos, goal: Option<usize>) -> (Pos, Option<usize>) {
    let g = match goal {
        Some(g) => g,
        None => p.col,
    };
    if p.line + 1 < rope_line_count(t) {
        let len = line_of(t, (p.line + 1) as nat).len();
        (Pos { line: (p.line + 1) as usize, col: if g < len { g } else { len as usize } }, Some(g))
    } else {
        (p, goal)
    }
}

/// The cursor and remembered column after `n` moves up (`up`) or down.
pub open spec fn moves(t: Seq<char>, p: Pos, goal: Option<usize>, n: nat, up: bool) -> (Pos, Option<usize>)
    decreases n,
{
    if n == 0 {
        (p, goal)
    } else {
        let (q, g) = moves(t, p, goal, (n - 1) as nat, up);
        if up { one_up(t, q, g) } else { one_down(t, q, g) }
    }
}

/// The number of words of `s`: runs of characters other than white space.
pub open spec fn word_count(s: Seq<char>) -> nat
    decreases s.len(),
{
    if s.len() == 0 {
        0
    } else {
        let rest = word_count(s.drop_last());
        if !is_space(s.last()) && (s.len() == 1 || is_space(s[s.len() - 2])) {
            rest + 1
        } else {
            rest
        }
    }
}

fn count_words(s: &[char]) -> (n: usize)
    ensures
        n == word_count(s@),
{
    let mut n: usize = 0;
    let mut i: usize = 0;
    while i < s.len()
        invariant
            i <= s@.len(),
            n == word_count(s@.take(i as int)),
            n <= i,
        decreases s@.len() - i,
    {
        let starts = !is_space_exec(s[i]) && (i == 0 || is_space_exec(s[i - 1]));
        proof {
            assert(s@.take(i + 1).drop_last() =~= s@.take(i as int));
        }
        if starts {
            n += 1;
        }
        i += 1;
    }
    proof {
        assert(s@.take(s@.len() as int) =~= s@);
    }
    n
}

/// The status message of Location: `line L/N, col C`, counting from one.
pub open spec fn location_text(b: Buffer) -> Seq<char> {
    "line "@ + decimal((b.cursor.line + 1) as nat) + "/"@ + decimal(rope_line_count(b.text()) as nat) + ", col "@
        + decimal((b.cursor.col + 1) as nat)
}

/// The status message of Word Count: lines, words and characters.
pub open spec fn word_count_text(b: Buffer) -> Seq<char> {
    decimal(rope_line_count(b.text()) as nat) + " lines, "@ + decimal(word_count(b.text())) + " words, "@ + decimal(
        b.text().len(),
    ) + " characters"@
}

impl Editor {
    /// `a` and `b` differ at most in the current buffer, the cut buffer and
    /// chain, and the status message.
    pub open spec fn edited(a: Editor, b: Editor) -> bool {
        Self::only_cur_changed(a, b) && Self::same_settings(a, b) && Self::same_screen(a, b)
    }

    /// `b` is `a` after Cut (see `do_cut`).
    pub open spec fn cut_done(a: Editor, b: Editor) -> bool {
        &&& Self::edited(a, b)
        &&& match selection(a.cur()) {
            Some((s, e)) => {
                let r = range_text(a.cur().text(), s, e);
                &&& range_cut(a.cur(), Buffer { mark: a.cur().mark, ..b.cur() }, s, e, r)
                &&& b.cur().mark is None
                &&& b.cutbuffer@ == r
            },
            None => {
                let (s, e) = line_span(a.cur(), a.cur().cursor.line);
                let r = range_text(a.cur().text(), s, e);
                &&& range_cut(a.cur(), b.cur(), s, e, r)
                &&& b.cutbuffer@ == if a.cut_was_consecutive {
                    a.cutbuffer@ + r
                } else {
                    r
                }
            },
        }
        &&& b.cut_was_consecutive
        &&& Self::shows(a, b, "Cut"@, StatusLevel::Normal)
    }

    /// Cut (nano's `cut_text`): the marked region, or else the cursor's
    /// whole line, to the cut buffer; consecutive cuts of lines add up.
    fn do_cut(&mut self)
        requires
            old(self).has_buffer(),
        ensures
            Self::cut_done(*old(self), *final(self)),
    {
        let cur = self.current;
        match self.selection_range() {
            Some((start, end)) => {
                let text = self.buffers[cur].delete_range(start, end);
                self.cutbuffer = text;
                self.buffers[cur].mark = None;
            },
            None => {
                let line = self.buffers[cur].cursor.line;
                let line_len = line_chars(&self.buffers[cur], line).len();
                let n = self.buffers[cur].line_count();
                let end = if line < n - 1 { Pos::new(line + 1, 0) } else { Pos::new(line, line_len) };
                let text = self.buffers[cur].delete_range(Pos::new(line, 0), end);
                if self.cut_was_consecutive {
                    let mut v = str_chars(self.cutbuffer.as_str());
                    push_str(&mut v, text.as_str());
                    self.cutbuffer = string_from_chars(v.as_slice());
                } else {
                    self.cutbuffer = text;
                }
            },
        }
        self.cut_was_consecutive = true;
        self.set_status("Cut");
    }

    /// `b` is `a` after Cut to End of File (see `do_cut_rest_of_file`).
    pub open spec fn cut_rest_done(a: Editor, b: Editor) -> bool {
        &&& Self::edited(a, b)
        &&& ({
            let t = a.cur().text();
            let last = (rope_line_count(t) - 1) as usize;
            let e = Pos { line: last, col: line_of(t, last as nat).len() as usize };
            let r = range_text(t, a.cur().cursor, e);
            range_cut(a.cur(), b.cur(), a.cur().cursor, e, r) && b.cutbuffer@ == r
        })
        &&& b.cut_was_consecutive == a.cut_was_consecutive
        &&& Self::shows(a, b, "Cut to end of file"@, StatusLevel::Normal)
    }

    /// Cut to End of File: from the cursor to the end of the text.
    fn do_cut_rest_of_file(&mut self)
        requires
            old(self).has_buffer(),
        ensures
            Self::cut_rest_done(*old(self), *final(self)),
    {
        let cur = self.current;
        let start = self.buffers[cur].cursor;
        let last = self.buffers[cur].line_count() - 1;
        let len = line_chars(&self.buffers[cur], last).len();
        self.cutbuffer = self.buffers[cur].delete_range(start, Pos::new(last, len));
        self.set_status("Cut to end of file");
    }

    /// `b` is `a` after Copy (see `do_copy`).
    pub open spec fn copy_done(a: Editor, b: Editor) -> bool {
        &&& Self::same_buffers(a, b)
        &&& Self::same_settings(a, b)
        &&& Self::same_screen(a, b)
        &&& b.cutbuffer@ == match selection(a.cur()) {
            Some((s, e)) => range_text(a.cur().text(), s, e),
            None => line_of(a.cur().text(), a.cur().cursor.line as nat).push('\n'),
        }
        &&& b.cut_was_consecutive == a.cut_was_consecutive
        &&& Self::shows(a, b, "Copied"@, StatusLevel::Normal)
    }

    /// Copy: the marked region, or else the cursor's line with a line
    /// break, to the cut buffer.
    fn do_copy(&mut self)
        requires
            old(self).has_buffer(),
        ensures
            Self::copy_done(*old(self), *final(self)),
    {
        let cur = self.current;
        match self.selection_range() {
            Some((start, end)) => {
                self.cutbuffer = self.buffers[cur].text_range(start, end);
            },
            None => {
                let mut v = line_chars(&self.buffers[cur], self.buffers[cur].cursor.line);
                v.push('\n');
                self.cutbuffer = string_from_chars(v.as_slice());
            },
        }
        self.set_status("Copied");
    }

    /// `b` is `a` after Paste (see `do_paste`).
    pub open spec fn paste_done(a: Editor, b: Editor) -> bool {
        &&& a.cutbuffer@.len() == 0 ==> b == a
        &&& a.cutbuffer@.len() > 0 ==> {
            &&& Self::edited(a, b)
            &&& Self::same_cut(a, b)
            &&& crate::buffer::str_typed(a.cur(), b.cur(), a.cutbuffer@)
            &&& Self::shows(a, b, "Pasted"@, StatusLevel::Normal)
        }
    }

    /// Paste: the cut buffer typed at the cursor; nothing when it is empty.
    fn do_paste(&mut self)
        requires
            old(self).has_buffer(),
        ensures
            Self::paste_done(*old(self), *final(self)),
    {
        let cs = str_chars(self.cutbuffer.as_str());
        if cs.len() == 0 {
            return;
        }
        let cur = self.current;
        let text = string_from_chars(cs.as_slice());
        self.buffers[cur].insert_str(text.as_str());
        self.set_status("Pasted");
    }

    /// `b` is `a` after Zap (see `do_zap`).
    pub open spec fn zap_done(a: Editor, b: Editor) -> bool {
        &&& Self::edited(a, b)
        &&& Self::same_cut(a, b)
        &&& match selection(a.cur()) {
            Some((s, e)) => {
                &&& range_cut(
                    a.cur(),
                    Buffer { mark: a.cur().mark, ..b.cur() },
                    s,
                    e,
                    range_text(a.cur().text(), s, e),
                )
                &&& b.cur().mark is None
                &&& Self::shows(a, b, "Zapped"@, StatusLevel::Normal)
            },
            None => {
                let (s, e) = line_span(a.cur(), a.cur().cursor.line);
                &&& range_cut(a.cur(), b.cur(), s, e, range_text(a.cur().text(), s, e))
                &&& Self::same_status(a, b)
            },
        }
    }

    /// Zap: delete the marked region, or else the cursor's line, without
    /// touching the cut buffer.
    fn do_zap(&mut self)
        requires
            old(self).has_buffer(),
        ensures
            Self::zap_done(*old(self), *final(self)),
    {
        let cur = self.current;
        match self.selection_range() {
            Some((start, end)) => {
                self.buffers[cur].delete_range(start, end);
                self.buffers[cur].mark = None;
                self.set_status("Zapped");
            },
            None => {
                let line = self.buffers[cur].cursor.line;
                let line_len = line_chars(&self.buffers[cur], line).len();
                let n = self.buffers[cur].line_count();
                let end = if line < n - 1 { Pos::new(line + 1, 0) } else { Pos::new(line, line_len) };
                self.buffers[cur].delete_range(Pos::new(line, 0), end);
            },
        }
    }

    /// `b` is `a` after Chop Word Left (see `chop_word_left`).
    pub open spec fn chopped_left(a: Editor, b: Editor) -> bool {
        &&& Self::edited(a, b)
        &&& Self::same_cut(a, b)
        &&& Self::same_status(a, b)
        &&& ({
            let ob = a.cur();
            let s = word_start_before(ob.text(), ob.cursor.line as nat, ob.cursor.col as int);
            range_cut(ob, b.cur(), s, ob.cursor, range_text(ob.text(), s, ob.cursor))
        })
    }

    /// Chop Word Left: delete back to the start of the word before.
    fn chop_word_left(&mut self)
        requires
            old(self).has_buffer(),
            old(self).cur().cursor.col <= line_of(old(self).cur().text(), old(self).cur().cursor.line as nat).len(),
        ensures
            Self::chopped_left(*old(self), *final(self)),
    {
        let cur = self.current;
        let end = self.buffers[cur].cursor;
        let start = word_left_pos(&self.buffers[cur], end);
        self.buffers[cur].delete_range(start, end);
    }

    /// `b` is `a` after Chop Word Right (see `chop_word_right`).
    pub open spec fn chopped_right(a: Editor, b: Editor) -> bool {
        &&& Self::edited(a, b)
        &&& Self::same_cut(a, b)
        &&& Self::same_status(a, b)
        &&& ({
            let ob = a.cur();
            let e = word_start_after(ob.text(), ob.cursor.line as nat, ob.cursor.col as int);
            range_cut(ob, b.cur(), ob.cursor, e, range_text(ob.text(), ob.cursor, e))
        })
    }

    /// Chop Word Right: delete forward to the start of the next word.
    fn chop_word_right(&mut self)
        requires
            old(self).has_buffer(),
        ensures
            Self::chopped_right(*old(self), *final(self)),
    {
        let cur = self.current;
        let start = self.buffers[cur].cursor;
        let end = word_right_pos(&self.buffers[cur], start);
        self.buffers[cur].delete_range(start, end);
    }

    /// Move the cursor of the current buffer to `pos`.
    fn put_cursor(&mut self, pos: Pos)
        requires
            old(self).has_buffer(),
        ensures
            final(self).buffers@ == old(self).buffers@.update(old(self).current as int, Buffer { cursor: pos, ..old(self).cur() }),
            final(self).current == old(self).current,
            Self::same_status(*old(self), *final(self)),
            Self::same_settings(*old(self), *final(self)),
            Self::same_cut(*old(self), *final(self)),
            Self::same_screen(*old(self), *final(self)),
    {
        let cur = self.current;
        self.buffers[cur].cursor = pos;
    }

    /// `b` is `a` after Page Up (`up`) or Page Down (see `page`).
    pub open spec fn paged(a: Editor, b: Editor, up: bool) -> bool {
        &&& Self::edited(a, b)
        &&& Self::same_cut(a, b)
        &&& Self::same_status(a, b)
        &&& moved_only(a.cur(), b.cur())
        &&& (b.cur().cursor, b.cur().goal_col) == moves(
            a.cur().text(),
            a.cur().cursor,
            a.cur().goal_col,
            Self::rows_for(a.options, a.screen_rows) as nat,
            up,
        )
    }

    /// Page Up (`up`) or Page Down: one move per text row.
    fn page(&mut self, up: bool)
        requires
            old(self).has_buffer(),
        ensures
            Self::paged(*old(self), *final(self), up),
    {
        let rows = self.text_rows();
        let cur = self.current;
        let ghost b0 = self.cur();
        let mut i: usize = 0;
        while i < rows
            invariant
                i <= rows,
                rows == Self::rows_for(old(self).options, old(self).screen_rows),
                cur == old(self).current,
                Self::edited(*old(self), *self),
                Self::same_cut(*old(self), *self),
                Self::same_status(*old(self), *self),
                b0 == old(self).cur(),
                moved_only(b0, self.cur()),
                (self.cur().cursor, self.cur().goal_col) == moves(b0.text(), b0.cursor, b0.goal_col, i as nat, up),
            decreases rows - i,
        {
            if up {
                self.buffers[cur].move_up();
            } else {
                self.buffers[cur].move_down();
            }
            i += 1;
        }
    }

    /// `b` is `a` after Scroll Up (`up`) or Scroll Down (see `scroll_view`).
    pub open spec fn view_scrolled(a: Editor, b: Editor, up: bool) -> bool {
        &&& b.buffers@ == a.buffers@.update(
            a.current as int,
            Buffer {
                top_line: if up {
                    if a.cur().top_line > 0 { (a.cur().top_line - 1) as usize } else { 0 }
                } else if a.cur().top_line < usize::MAX {
                    (a.cur().top_line + 1) as usize
                } else {
                    usize::MAX
                },
                ..a.cur()
            },
        )
        &&& b.current == a.current
        &&& Self::same_status(a, b)
        &&& Self::same_settings(a, b)
        &&& Self::same_cut(a, b)
        &&& Self::same_screen(a, b)
    }

    /// Scroll the view one line up (`up`) or down, leaving the cursor.
    fn scroll_view(&mut self, up: bool)
        requires
            old(self).has_buffer(),
        ensures
            Self::view_scrolled(*old(self), *final(self), up),
    {
        let cur = self.current;
        let top = self.buffers[cur].top_line;
        self.buffers[cur].top_line = if up { top.saturating_sub(1) } else { top.saturating_add(1) };
    }

    /// `b` is `a` after Next Buffer (`forward`) or Previous Buffer (see
    /// `switch_buffer`).
    pub open spec fn switched(a: Editor, b: Editor, forward: bool) -> bool {
        &&& b.current == if a.buffers@.len() <= 1 {
            a.current as int
        } else if forward {
            if a.current + 1 == a.buffers@.len() { 0 } else { a.current + 1 }
        } else if a.current == 0 {
            a.buffers@.len() - 1
        } else {
            a.current - 1
        }
        &&& b.buffers@ == a.buffers@
        &&& Self::same_status(a, b)
        &&& Self::same_settings(a, b)
        &&& Self::same_cut(a, b)
        &&& Self::same_screen(a, b)
    }

    /// Previous Buffer (`forward` false) or Next Buffer, going round; nothing
    /// with a single buffer.
    fn switch_buffer(&mut self, forward: bool)
        requires
            old(self).has_buffer(),
        ensures
            Self::switched(*old(self), *final(self), forward),
    {
        let n = self.buffers.len();
        if n <= 1 {
            return;
        }
        self.current = if forward {
            if self.current + 1 == n { 0 } else { self.current + 1 }
        } else if self.current == 0 {
            n - 1
        } else {
            self.current - 1
        };
    }

    /// Location: the cursor's line and column and the line count.
    fn report_location(&mut self)
        requires
            old(self).has_buffer(),
            old(self).cur().cursor.line < usize::MAX,
            old(self).cur().cursor.col < usize::MAX,
        ensures
            Self::posted(*old(self), *final(self), location_text(old(self).cur()), StatusLevel::Normal),
    {
        let b = &self.buffers[self.current];
        let mut v: Vec<char> = Vec::new();
        push_str(&mut v, "line ");
        push_decimal(&mut v, b.cursor.line + 1);
        push_str(&mut v, "/");
        push_decimal(&mut v, b.line_count());
        push_str(&mut v, ", col ");
        push_decimal(&mut v, b.cursor.col + 1);
        let msg = string_from_chars(v.as_slice());
        self.set_status(msg.as_str());
    }

    /// Word Count: the lines, words and characters of the text.
    fn report_word_count(&mut self)
        requires
            old(self).has_buffer(),
        ensures
            Self::posted(*old(self), *final(self), word_count_text(old(self).cur()), StatusLevel::Normal),
    {
        let b = &self.buffers[self.current];
        let text = str_chars(b.to_string().as_str());
        let words = count_words(text.as_slice());
        let mut v: Vec<char> = Vec::new();
        push_decimal(&mut v, b.line_count());
        push_str(&mut v, " lines, ");
        push_decimal(&mut v, words);
        push_str(&mut v, " words, ");
        push_decimal(&mut v, text.len());
        push_str(&mut v, " characters");
        let msg = string_from_chars(v.as_slice());
        self.set_status(msg.as_str());
    }
}

/// The blanks (spaces and tabs) that `s` starts with.
pub open spec fn leading_blanks(s: Seq<char>) -> Seq<char>
    decreases s.len(),
{
    if s.len() > 0 && (s[0] == ' ' || s[0] == '\t') {
        seq![s[0]] + leading_blanks(s.drop_first())
    } else {
        Seq::empty()
    }
}

fn blanks_prefix(s: &[char]) -> (r: Vec<char>)
    ensures
        r@ == leading_blanks(s@),
{
    let mut i: usize = 0;
    while i < s.len() && (s[i] == ' ' || s[i] == '\t')
        invariant
            i <= s@.len(),
            forall|k: int| 0 <= k < i ==> s@[k] == ' ' || s@[k] == '\t',
        decreases s@.len() - i,
    {
        i += 1;
    }
    let r = crate::text::sub_chars(s, 0, i);
    proof {
        lemma_leading_blanks(s@, i as int);
        assert(r@ =~= s@.take(i as int));
    }
    r
}

proof fn lemma_leading_blanks(s: Seq<char>, i: int)
    requires
        0 <= i <= s.len(),
        forall|k: int| 0 <= k < i ==> s[k] == ' ' || s[k] == '\t',
        i == s.len() || (s[i] != ' ' && s[i] != '\t'),
    ensures
        leading_blanks(s) == s.take(i),
    decreases i,
{
    if i > 0 {
        lemma_leading_blanks(s.drop_first(), i - 1);
        assert(seq![s[0]] + s.drop_first().take(i - 1) =~= s.take(i));
    } else {
        assert(s.take(0) =~= Seq::<char>::empty());
    }
}

/// What Enter types after the line break in `b`: with `autoindent`, the
/// blanks that the cursor's line starts with.
pub open spec fn enter_indent(o: Options, b: Buffer) -> Seq<char> {
    if o.autoindent {
        leading_blanks(line_of(b.text(), b.cursor.line as nat))
    } else {
        Seq::empty()
    }
}

/// `bs` is a run of buffers, each the last with `c` typed.
pub open spec fn typed_run(bs: Seq<Buffer>, c: char) -> bool {
    forall|i: int| 0 <= i < bs.len() - 1 ==> #[trigger] char_typed(bs[i], bs[i + 1], c)
}

/// What the editor asks of the program around it after an action.
pub enum Request {
    /// Remove this lock file.
    DeleteLock(String),
    /// Save the current buffer to this path, then report the outcome with
    /// `Editor::report_save`.
    Save(String),
}

impl Editor {
    /// `a` and `b` agree on all but the mode.
    pub open spec fn same_but_mode(a: Editor, b: Editor) -> bool {
        &&& Self::same_buffers(a, b) && Self::same_status(a, b) && Self::same_settings(a, b) && Self::same_cut(a, b)
        &&& a.spotlight == b.spotlight && a.spotlight_deadline == b.spotlight_deadline
        &&& a.screen_rows == b.screen_rows && a.screen_cols == b.screen_cols && a.file_completions == b.file_completions
    }

    /// `m` is a prompt of kind `kind` on menu `menu`, labelled `label`, its
    /// input `input` with the cursor at `cursor`, not browsing history.
    pub open spec fn opens(m: Mode, kind: PromptKind, menu: Menu, label: Seq<char>, input: Seq<char>, cursor: nat) -> bool {
        &&& m matches Mode::Prompt(p)
        &&& p.kind == kind
        &&& p.menu == menu
        &&& p.label@ == label
        &&& p.input@ == input
        &&& p.cursor == cursor
        &&& p.history_pos is None
        &&& p.saved_input is None
    }

    fn open_prompt(&mut self, kind: PromptKind, menu: Menu, label: String, input: String, cursor: usize)
        ensures
            Self::opens(final(self).mode, kind, menu, label@, input@, cursor as nat),
            Self::same_but_mode(*old(self), *final(self)),
    {
        self.mode = Mode::Prompt(Prompt { kind, menu, label, input, cursor, history_pos: None, saved_input: None });
    }

    /// `b` is `a` with the Where Is prompt open (see `begin_search`).
    pub open spec fn search_opened(a: Editor, b: Editor) -> bool {
        &&& Self::opens(b.mode, PromptKind::WhereIs, Menu::Search, search_label("Search"@, ""@, a.search), Seq::empty(), 0)
        &&& Self::same_but_mode(a, b)
    }

    /// Where Is: the search prompt, its label showing the toggles and the
    /// last search term.
    fn begin_search(&mut self)
        ensures
            Self::search_opened(*old(self), *final(self)),
    {
        let label = search_prompt_label("Search", "", &self.search);
        self.open_prompt(PromptKind::WhereIs, Menu::Search, label, String::new(), 0);
    }

    /// `b` is `a` with the Replace prompt open (see `begin_replace`).
    pub open spec fn replace_opened(a: Editor, b: Editor) -> bool {
        &&& Self::opens(
            b.mode,
            PromptKind::Replace1,
            Menu::Replace,
            search_label(
                "Search"@,
                if a.cur().mark is Some { " (to replace) in selection"@ } else { " (to replace)"@ },
                a.search,
            ),
            Seq::empty(),
            0,
        )
        &&& Self::same_but_mode(a, b)
    }

    /// Replace: the prompt for the term to replace, "in selection" when a
    /// region is marked.
    fn begin_replace(&mut self)
        requires
            old(self).has_buffer(),
        ensures
            Self::replace_opened(*old(self), *final(self)),
    {
        let suffix = if self.buffers[self.current].mark.is_some() {
            " (to replace) in selection"
        } else {
            " (to replace)"
        };
        let label = search_prompt_label("Search", suffix, &self.search);
        self.open_prompt(PromptKind::Replace1, Menu::Replace, label, String::new(), 0);
    }

    /// `b` is `a` with the Read File (or, `execute`, Execute Command)
    /// prompt open (see `begin_insert_or_execute`).
    pub open spec fn insert_opened(a: Editor, b: Editor, execute: bool) -> bool {
        &&& Self::opens(
            b.mode,
            PromptKind::InsertFile { new_buffer: a.options.multibuffer, execute },
            if execute { Menu::Execute } else { Menu::Insert },
            insert_label(a.options.multibuffer, execute),
            Seq::empty(),
            0,
        )
        &&& Self::same_but_mode(a, b)
    }

    /// Read File (`execute` false) or Execute Command: the one prompt,
    /// opening into a new buffer when `multibuffer` is set.
    fn begin_insert_or_execute(&mut self, execute: bool)
        ensures
            Self::insert_opened(*old(self), *final(self), execute),
    {
        let new_buffer = self.options.multibuffer;
        let label = insert_prompt_label(new_buffer, execute);
        let menu = if execute { Menu::Execute } else { Menu::Insert };
        self.open_prompt(PromptKind::InsertFile { new_buffer, execute }, menu, label, String::new(), 0);
    }

    /// `b` is `a` with the Go To Line prompt open (see `begin_goto_line`).
    pub open spec fn goto_opened(a: Editor, b: Editor) -> bool {
        &&& Self::opens(b.mode, PromptKind::GotoLine, Menu::GotoLine, "Enter line number, column number"@, Seq::empty(), 0)
        &&& Self::same_but_mode(a, b)
    }

    /// Go To Line: its prompt.
    fn begin_goto_line(&mut self)
        ensures
            Self::goto_opened(*old(self), *final(self)),
    {
        let label = string_from_chars(str_chars("Enter line number, column number").as_slice());
        self.open_prompt(PromptKind::GotoLine, Menu::GotoLine, label, String::new(), 0);
    }

    /// `b` is `a` with the Write Out prompt open (see `begin_writeout`).
    pub open spec fn writeout_opened(a: Editor, b: Editor, exiting: bool) -> bool {
        &&& ({
            let selecting = !exiting && a.cur().mark is Some;
            let default = if selecting {
                Seq::<char>::empty()
            } else {
                match a.cur().path {
                    Some(p) => p@,
                    None => Seq::empty(),
                }
            };
            Self::opens(
                b.mode,
                PromptKind::WriteOut { exiting },
                Menu::WriteOut,
                if selecting { "Write Selection to File"@ } else { "File Name to Write"@ },
                default,
                default.len(),
            )
        })
        &&& Self::same_but_mode(a, b)
    }

    /// Write Out: the file-name prompt, filled with the buffer's path; for
    /// a marked region (but not when exiting) it writes the selection and
    /// starts empty.
    fn begin_writeout(&mut self, exiting: bool)
        requires
            old(self).has_buffer(),
        ensures
            Self::writeout_opened(*old(self), *final(self), exiting),
    {
        let selecting = !exiting && self.buffers[self.current].mark.is_some();
        let default: Vec<char> = if selecting {
            Vec::new()
        } else {
            match &self.buffers[self.current].path {
                Some(p) => str_chars(p.as_str()),
                None => Vec::new(),
            }
        };
        let label = if selecting { "Write Selection to File" } else { "File Name to Write" };
        let label = string_from_chars(str_chars(label).as_slice());
        let n = default.len();
        self.open_prompt(PromptKind::WriteOut { exiting }, Menu::WriteOut, label, string_from_chars(default.as_slice()), n);
    }

    /// The Write Out prompt of an exit with unsaved changes.
    pub fn begin_writeout_for_exit(&mut self)
        requires
            old(self).has_buffer(),
        ensures
            ({
                let default = match old(self).cur().path {
                    Some(p) => p@,
                    None => Seq::empty(),
                };
                Self::opens(final(self).mode, PromptKind::WriteOut { exiting: true }, Menu::WriteOut, "File Name to Write"@, default, default.len())
            }),
            Self::same_but_mode(*old(self), *final(self)),
    {
        self.begin_writeout(true);
    }

    /// Close the current buffer (nano's `close_and_go`), handing back its
    /// lock file to remove; closing the last one quits.
    pub fn close_current_buffer(&mut self) -> (lock: Option<String>)
        requires
            old(self).has_buffer(),
        ensures
            lock == old(self).cur().lock_filename,
            final(self).buffers@ == old(self).buffers@.remove(old(self).current as int),
            final(self).current == if final(self).buffers@.len() > 0 && old(self).current >= final(self).buffers@.len() {
                (final(self).buffers@.len() - 1) as usize
            } else {
                old(self).current
            },
            final(self).mode == if final(self).buffers@.len() == 0 { Mode::Quit } else { old(self).mode },
            Self::same_status(*old(self), *final(self)),
            Self::same_settings(*old(self), *final(self)),
            Self::same_cut(*old(self), *final(self)),
    {
        let cur = self.current;
        let lock = self.buffers[cur].lock_filename.take();
        self.buffers.remove(cur);
        if self.buffers.len() == 0 {
            self.mode = Mode::Quit;
        } else if self.current >= self.buffers.len() {
            self.current = self.buffers.len() - 1;
        }
        lock
    }

    /// `b` is `a` after Exit, which handed back `lock` (see `begin_exit`).
    pub open spec fn exit_begun(a: Editor, b: Editor, lock: Option<String>) -> bool {
        &&& a.cur().modified ==> {
            &&& lock is None
            &&& Self::opens(
                b.mode,
                PromptKind::Exit { discard_and_quit: false },
                Menu::YesNo,
                "Save modified buffer"@ + match a.cur().path {
                    Some(p) => " ("@ + p@ + ")"@,
                    None => Seq::empty(),
                } + "? "@,
                Seq::empty(),
                0,
            )
            &&& Self::same_but_mode(a, b)
        }
        &&& !a.cur().modified ==> {
            &&& lock == a.cur().lock_filename
            &&& b.buffers@ == a.buffers@.remove(a.current as int)
            &&& b.current == if b.buffers@.len() > 0 && a.current >= b.buffers@.len() {
                (b.buffers@.len() - 1) as usize
            } else {
                a.current
            }
            &&& b.mode == if b.buffers@.len() == 0 { Mode::Quit } else { a.mode }
            &&& Self::same_status(a, b)
            &&& Self::same_settings(a, b)
            &&& Self::same_cut(a, b)
        }
    }

    /// Exit: with unsaved changes, ask whether to save them; else close the
    /// buffer, handing back its lock file to remove.
    fn begin_exit(&mut self) -> (lock: Option<String>)
        requires
            old(self).has_buffer(),
        ensures
            Self::exit_begun(*old(self), *final(self), lock),
    {
        if self.buffers[self.current].modified {
            let mut v: Vec<char> = Vec::new();
            push_str(&mut v, "Save modified buffer");
            let ghost v0 = v@;
            match &self.buffers[self.current].path {
                Some(p) => {
                    push_str(&mut v, " (");
                    push_str(&mut v, p.as_str());
                    push_str(&mut v, ")");
                    assert(v@ =~= v0 + (" ("@ + p@ + ")"@));
                },
                None => {
                    assert(v@ =~= v0 + Seq::<char>::empty());
                },
            }
            let ghost v1 = v@;
            push_str(&mut v, "? ");
            let label = string_from_chars(v.as_slice());
            self.open_prompt(PromptKind::Exit { discard_and_quit: false }, Menu::YesNo, label, String::new(), 0);
            None
        } else {
            self.close_current_buffer()
        }
    }

    /// `b` is `a` after Save, which handed back `path` (see `quick_save`).
    pub open spec fn save_begun(a: Editor, b: Editor, path: Option<String>) -> bool {
        &&& a.cur().path matches Some(p) ==> path == Some(p) && b == a
        &&& a.cur().path is None ==> {
            &&& path is None
            &&& Self::opens(b.mode, PromptKind::WriteOut { exiting: false }, Menu::WriteOut,
                if a.cur().mark is Some { "Write Selection to File"@ } else { "File Name to Write"@ },
                Seq::empty(), 0)
            &&& Self::same_but_mode(a, b)
        }
    }

    /// Save: a buffer with a path is to be saved there (handed back to the
    /// caller, which reports with `report_save`); one without opens Write
    /// Out.
    fn quick_save(&mut self) -> (path: Option<String>)
        requires
            old(self).has_buffer(),
        ensures
            Self::save_begun(*old(self), *final(self), path),
    {
        match &self.buffers[self.current].path {
            Some(p) => Some(p.clone()),
            None => {
                self.begin_writeout(false);
                None
            },
        }
    }

    /// Report how saving the current buffer to `path` went: `error` is the
    /// error's text when it failed.
    pub fn report_save(&mut self, path: &str, error: Option<&str>)
        ensures
            Self::posted(*old(self), *final(self), match error {
                None => "Wrote "@ + path@,
                Some(e) => "Error writing "@ + path@ + ": "@ + e@,
            }, StatusLevel::Normal),
    {
        let mut v: Vec<char> = Vec::new();
        match error {
            None => {
                push_str(&mut v, "Wrote ");
                push_str(&mut v, path);
            },
            Some(e) => {
                push_str(&mut v, "Error writing ");
                push_str(&mut v, path);
                push_str(&mut v, ": ");
                push_str(&mut v, e);
            },
        }
        let msg = string_from_chars(v.as_slice());
        self.set_status(msg.as_str());
    }

    /// `b` is `a` after Enter (see `do_enter`).
    pub open spec fn entered(a: Editor, b: Editor) -> bool {
        &&& Self::edited(a, b)
        &&& Self::same_cut(a, b)
        &&& Self::same_status(a, b)
        &&& ({
            let ob = a.cur();
            if enter_indent(a.options, ob).len() == 0 {
                char_typed(ob, b.cur(), '\n')
            } else {
                exists|mid: Buffer|
                    char_typed(ob, mid, '\n') && #[trigger] str_typed(mid, b.cur(), enter_indent(a.options, ob))
            }
        })
    }

    /// Enter: a line break at the cursor, then, with `autoindent`, the
    /// blanks that the cursor's line started with.
    fn do_enter(&mut self)
        requires
            old(self).has_buffer(),
        ensures
            Self::entered(*old(self), *final(self)),
    {
        let cur = self.current;
        let indent = if self.options.autoindent {
            let line = line_chars(&self.buffers[cur], self.buffers[cur].cursor.line);
            blanks_prefix(line.as_slice())
        } else {
            Vec::new()
        };
        let ghost b0 = self.cur();
        self.buffers[cur].insert_char('\n');
        let ghost mid = self.cur();
        assert(char_typed(b0, mid, '\n'));
        if indent.len() > 0 {
            let s = string_from_chars(indent.as_slice());
            self.buffers[cur].insert_str(s.as_str());
            assert(str_typed(mid, self.cur(), indent@));
        }
        proof {
            assert(indent@ == enter_indent(old(self).options, b0));
        }
    }

    /// Type `c` at the cursor: a line break as Enter does; a tab, with
    /// `tabstospaces`, as `tabsize` spaces typed one by one.
    pub fn insert_char(&mut self, c: char)
        requires
            old(self).has_buffer(),
        ensures
            Self::edited(*old(self), *final(self)),
            Self::same_cut(*old(self), *final(self)),
            Self::same_status(*old(self), *final(self)),
            c != '\n' && !(c == '\t' && old(self).options.tabstospaces) ==> char_typed(old(self).cur(), final(self).cur(), c),
            c == '\t' && old(self).options.tabstospaces ==> exists|bs: Seq<Buffer>|
                {
                    &&& bs.len() == old(self).options.tabsize + 1
                    &&& bs[0] == old(self).cur()
                    &&& bs.last() == final(self).cur()
                    &&& #[trigger] typed_run(bs, ' ')
                },
            c == '\n' ==> {
                let b = old(self).cur();
                if enter_indent(old(self).options, b).len() == 0 {
                    char_typed(b, final(self).cur(), '\n')
                } else {
                    exists|mid: Buffer|
                        char_typed(b, mid, '\n') && #[trigger] str_typed(mid, final(self).cur(), enter_indent(old(self).options, b))
                }
            },
    {
        if c == '\n' {
            self.do_enter();
            return;
        }
        let cur = self.current;
        if c == '\t' && self.options.tabstospaces {
            let n = self.options.tabsize;
            let mut i: u32 = 0;
            let ghost mut bs: Seq<Buffer> = seq![self.cur()];
            while i < n
                invariant
                    i <= n,
                    n == old(self).options.tabsize,
                    cur == old(self).current,
                    Self::edited(*old(self), *self),
                    Self::same_cut(*old(self), *self),
                    Self::same_status(*old(self), *self),
                    bs.len() == i + 1,
                    bs[0] == old(self).cur(),
                    bs.last() == self.cur(),
                    typed_run(bs, ' '),
                decreases n - i,
            {
                self.buffers[cur].insert_char(' ');
                proof {
                    let nb = bs.push(self.cur());
                    assert forall|k: int| 0 <= k < nb.len() - 1 implies #[trigger] char_typed(nb[k], nb[k + 1], ' ') by {
                        if k < bs.len() - 1 {
                            assert(nb[k] == bs[k] && nb[k + 1] == bs[k + 1]);
                        }
                    }
                    bs = nb;
                }
                i += 1;
            }
        } else {
            self.buffers[cur].insert_char(c);
        }
    }

    /// When the current buffer has just become modified and holds a lock
    /// file, the lock and the file it is for, to rewrite with the
    /// "modified" flag (once, as nano's `set_modified` does); none with no
    /// buffer left.
    pub fn maybe_update_lock_modified_flag(&mut self) -> (r: Option<(String, String)>)
        requires
            old(self).buffers@.len() > 0 ==> old(self).has_buffer(),
        ensures
            ({
                let b = old(self).cur();
                if old(self).buffers@.len() > 0 && b.modified && !b.lock_modified_written && b.lock_filename is Some
                    && b.path is Some {
                    &&& r matches Some((l, p)) && Some(l) == b.lock_filename && Some(p) == b.path
                    &&& final(self).buffers@ == old(self).buffers@.update(
                        old(self).current as int,
                        Buffer { lock_modified_written: true, ..b },
                    )
                    &&& final(self).current == old(self).current
                    &&& Self::same_status(*old(self), *final(self))
                    &&& Self::same_settings(*old(self), *final(self))
                    &&& Self::same_cut(*old(self), *final(self))
                    &&& Self::same_screen(*old(self), *final(self))
                } else {
                    r is None && *final(self) == *old(self)
                }
            }),
    {
        if self.buffers.len() == 0 {
            return None;
        }
        let cur = self.current;
        let b = &self.buffers[cur];
        if b.modified && !b.lock_modified_written {
            match (&b.lock_filename, &b.path) {
                (Some(l), Some(p)) => {
                    let l = l.clone();
                    let p = p.clone();
                    self.buffers[cur].lock_modified_written = true;
                    return Some((l, p));
                },
                _ => {},
            }
        }
        None
    }
}

/// The lines of `b`'s text, each without its line break.
pub open spec fn buffer_lines(b: Buffer) -> Seq<Seq<char>> {
    Seq::new(rope_line_count(b.text()), |i: int| line_of(b.text(), i as nat))
}

fn buffer_line_vecs(b: &Buffer) -> (v: Vec<Vec<char>>)
    ensures
        seqs_view(v@) == buffer_lines(*b),
{
    let n = b.line_count();
    let mut v: Vec<Vec<char>> = Vec::new();
    let mut i: usize = 0;
    while i < n
        invariant
            n == rope_line_count(b.text()),
            i <= n,
            v@.len() == i,
            forall|k: int| 0 <= k < i ==> #[trigger] v@[k]@ == line_of(b.text(), k as nat),
        decreases n - i,
    {
        v.push(line_chars(b, i));
        i += 1;
    }
    proof {
        assert(seqs_view(v@) =~= buffer_lines(*b));
    }
    v
}

/// The quoting pattern of `o` for justifying: `quotestr`, when it compiles.
pub open spec fn quote_of(o: Options) -> Option<Seq<char>> {
    if regex_compiles(o.quotestr@) {
        Some(o.quotestr@)
    } else {
        None
    }
}

/// The end of line `line` of `b`.
pub open spec fn line_end(b: Buffer, line: int) -> Pos {
    Pos { line: line as usize, col: line_of(b.text(), line as nat).len() as usize }
}

/// `m2` is `b` with lines `s` to `e` (whole) cut, giving `m1`, and `text`
/// typed where they began.
pub open spec fn lines_retyped(b: Buffer, m1: Buffer, m2: Buffer, s: int, e: int, text: Seq<char>) -> bool {
    let p0 = Pos { line: s as usize, col: 0 };
    &&& range_cut(b, m1, p0, line_end(b, e), range_text(b.text(), p0, line_end(b, e)))
    &&& str_typed(Buffer { cursor: p0, ..m1 }, m2, text)
}

/// The last line of a marked region from `start` to `end`: one ending at a
/// line's start leaves that line out.
pub open spec fn region_last_line(start: Pos, end: Pos) -> int {
    if end.col == 0 && end.line > start.line {
        end.line - 1
    } else {
        end.line as int
    }
}

/// `n`, capped at `usize::MAX`.
pub open spec fn sat_line(n: int) -> int {
    if n > usize::MAX { usize::MAX as int } else { n }
}

/// What a tool works on in `b`: the marked region, or else the whole text.
pub open spec fn tool_span(b: Buffer) -> (Pos, Pos) {
    match selection(b) {
        Some((s, e)) => (s, e),
        None => (Pos { line: 0, col: 0 }, line_end(b, last_line(b))),
    }
}

/// `m2` is `b` with what a tool works on cut, giving `m1`, and `text`
/// typed in its place.
pub open spec fn tool_replaced(b: Buffer, m1: Buffer, m2: Buffer, text: Seq<char>) -> bool {
    let (s, e) = tool_span(b);
    &&& range_cut(b, m1, s, e, range_text(b.text(), s, e))
    &&& str_typed(Buffer { cursor: s, ..m1 }, m2, text)
}

/// The last line of `b`.
pub open spec fn last_line(b: Buffer) -> int {
    rope_line_count(b.text()) - 1
}

/// Where Justify leaves the cursor: at the start of line `next` (the one
/// after the paragraph), or at the very end when there is none.
pub open spec fn after_paragraph(b: Buffer, next: int) -> Pos {
    if next < rope_line_count(b.text()) {
        Pos { line: next as usize, col: 0 }
    } else {
        line_end(b, last_line(b))
    }
}

impl Editor {
    /// The column Justify wraps at.
    pub open spec fn wrap_width(&self) -> nat {
        wrap_column(self.options.fill, self.screen_cols) as nat
    }

    /// The settings Justify works with: the quoting pattern, the
    /// punctuation and closing brackets, the wrapping column and
    /// `trimblanks`.
    pub open spec fn justified(&self, lv: Seq<Seq<char>>, s: int, c: int) -> Seq<Seq<char>> {
        justify_paragraph_spec(
            lv,
            s,
            c,
            quote_of(self.options),
            self.options.punct@,
            self.options.brackets@,
            self.wrap_width(),
            self.options.trimblanks,
        )
    }

    /// `b` is `a` after Justify of the marked lines from `start` to `end`
    /// (see `run_justify_selection`).
    pub open spec fn region_justify_done(a: Editor, b: Editor, start: Pos, end: Pos) -> bool {
        &&& Self::shows(a, b, "Justified selection"@, StatusLevel::Normal)
        &&& exists|m1: Buffer, m2: Buffer|
            #[trigger] lines_retyped(
                a.cur(),
                m1,
                m2,
                start.line as int,
                region_last_line(start, end),
                joined(a.region_justified(start, end)),
            ) && b.cur() == Self::scroll_buf(
                Buffer {
                    modified: true,
                    mark: None,
                    softmark: false,
                    cursor: line_end(m2, sat_line(start.line + a.region_justified(start, end).len() - 1)),
                    ..m2
                },
                a.options,
                a.screen_rows,
                a.screen_cols,
                false,
            )
        }

    /// The marked lines from `start` to `end` of the current buffer,
    /// justified as one paragraph.
    pub open spec fn region_justified(&self, start: Pos, end: Pos) -> Seq<Seq<char>> {
        self.justified(buffer_lines(self.cur()), start.line as int, region_last_line(start, end) - start.line + 1)
    }

    /// Replace what a tool worked on (the marked region, or else the whole
    /// text) with `new_text` (nano's `replace_buffer`), the cursor at its
    /// start, then scroll.
    pub fn replace_tool_input(&mut self, new_text: &str)
        requires
            old(self).has_buffer(),
        ensures
            Self::edited(*old(self), *final(self)),
            Self::same_cut(*old(self), *final(self)),
            Self::same_status(*old(self), *final(self)),
            exists|m1: Buffer, m2: Buffer|
                #[trigger] tool_replaced(old(self).cur(), m1, m2, new_text@) && final(self).cur() == Self::scroll_buf(
                    Buffer { modified: true, ..m2 },
                    old(self).options,
                    old(self).screen_rows,
                    old(self).screen_cols,
                    false,
                ),
    {
        let cur = self.current;
        let ghost b = self.cur();
        let start = match self.selection_range() {
            Some((start, end)) => {
                self.buffers[cur].delete_range(start, end);
                start
            },
            None => {
                let last = self.buffers[cur].line_count() - 1;
                let last_col = line_chars(&self.buffers[cur], last).len();
                self.buffers[cur].delete_range(Pos::new(0, 0), Pos::new(last, last_col));
                Pos::new(0, 0)
            },
        };
        let ghost m1 = self.cur();
        self.buffers[cur].cursor = start;
        self.buffers[cur].insert_str(new_text);
        let ghost m2 = self.cur();
        self.buffers[cur].modified = true;
        self.scroll_to_cursor();
        proof {
            assert(tool_replaced(b, m1, m2, new_text@));
        }
    }

    #[verifier::spinoff_prover]
    #[verifier::rlimit(80)]
    /// Justify with a region marked: the marked lines justified as one
    /// paragraph (a region ending at a line's start leaves that line out),
    /// the mark dropped and the cursor at the end of the new text.
    fn run_justify_selection(&mut self, start: Pos, end: Pos)
        requires
            old(self).has_buffer(),
            start.line <= end.line,
            end.line < rope_line_count(old(self).cur().text()),
        ensures
            Self::edited(*old(self), *final(self)),
            Self::same_cut(*old(self), *final(self)),
            start == end ==> Self::posted(*old(self), *final(self), "Selection is empty"@, StatusLevel::Mild),
            start != end ==> Self::region_justify_done(*old(self), *final(self), start, end),
    {
        if start == end {
            self.set_status_mild("Selection is empty");
            return;
        }
        let cur = self.current;
        let ghost b = self.cur();
        let quote = Pattern::new(self.options.quotestr.as_str());
        let wrap = wrap_at(self.options.fill, self.screen_cols);
        let end_line = if end.col == 0 && end.line > start.line { end.line - 1 } else { end.line };
        let n = self.buffers[cur].line_count();
        let count = end_line - start.line + 1;
        let lines = buffer_line_vecs(&self.buffers[cur]);
        assert(lines@.len() == seqs_view(lines@).len());
        let qr = quote.as_ref();
        proof {
            assert(crate::justify::quote_view(qr) == quote_of(old(self).options));
        }
        let new_lines = justify_paragraph(
            lines.as_slice(),
            start.line,
            count,
            qr,
            self.options.punct.as_str(),
            self.options.brackets.as_str(),
            wrap,
            self.options.trimblanks,
        );
        let new_count = new_lines.len();
        let ghost nl = seqs_view(new_lines@);
        proof {
            assert(new_lines@.map_values(|l: Vec<char>| l@) == nl);
        }
        let new_text = join_lines(new_lines.as_slice());
        let end_col = line_chars(&self.buffers[cur], end_line).len();
        self.buffers[cur].delete_range(Pos::new(start.line, 0), Pos::new(end_line, end_col));
        let ghost m1 = self.cur();
        self.buffers[cur].cursor = Pos::new(start.line, 0);
        self.buffers[cur].insert_str(new_text.as_str());
        let ghost m2 = self.cur();
        proof {
            assert(region_last_line(start, end) == end_line);
            assert(old(self).region_justified(start, end) == nl);
            assert(lines_retyped(old(self).cur(), m1, m2, start.line as int, region_last_line(start, end), joined(old(self).region_justified(start, end))));
        }
        self.buffers[cur].modified = true;
        self.buffers[cur].mark = None;
        self.buffers[cur].softmark = false;
        proof {
            crate::justify::lemma_justified_nonempty(
                buffer_lines(b),
                start.line as int,
                count as int,
                quote_of(old(self).options),
                old(self).options.punct@,
                old(self).options.brackets@,
                wrap as nat,
                old(self).options.trimblanks,
            );
        }
        let final_line = start.line.saturating_add(new_count - 1);
        let final_col = line_chars(&self.buffers[cur], final_line).len();
        self.buffers[cur].cursor = Pos::new(final_line, final_col);
        proof {
            assert(self.cur() == Buffer {
                modified: true,
                mark: None,
                softmark: false,
                cursor: line_end(m2, sat_line(start.line + nl.len() - 1)),
                ..m2
            });
        }
        let ghost pre = *self;
        assert(pre.options == old(self).options && pre.screen_rows == old(self).screen_rows && pre.screen_cols
            == old(self).screen_cols);
        self.scroll_to_cursor();
        self.set_status("Justified selection");
        proof {
            assert(self.cur() == pre.scrolled_cur(false));
            assert(self.cur() == Self::scroll_buf(
                        Buffer {
                            modified: true,
                            mark: None,
                            softmark: false,
                            cursor: line_end(m2, sat_line(start.line + old(self).region_justified(start, end).len() - 1)),
                            ..m2
                        },
                        old(self).options,
                        old(self).screen_rows,
                        old(self).screen_cols,
                        false,
                    ));
            assert(nl == old(self).justified(buffer_lines(b), start.line as int, end_line - start.line + 1));
            assert(region_last_line(start, end) == end_line);
            assert(old(self).region_justified(start, end) == nl);
            assert(lines_retyped(old(self).cur(), m1, m2, start.line as int, region_last_line(start, end), joined(old(self).region_justified(start, end))));
            assert(self.cur() == Self::scroll_buf(
                        Buffer {
                            modified: true,
                            mark: None,
                            softmark: false,
                            cursor: line_end(m2, sat_line(start.line + old(self).region_justified(start, end).len() - 1)),
                            ..m2
                        },
                        old(self).options,
                        old(self).screen_rows,
                        old(self).screen_cols,
                        false,
                    ));
        }
    }
}

impl Editor {
    /// The paragraph search of Justify starts here in `b`: at the cursor's
    /// line, or back at the start of the paragraph the cursor is inside.
    pub open spec fn justify_from(&self) -> int {
        let lv = buffer_lines(self.cur());
        let q = quote_of(self.options);
        let cl = self.cur().cursor.line as int;
        if continues(lv, cl, q) {
            para_start(lv, cl - 1, q)
        } else {
            cl
        }
    }

    /// Justify can work on the current buffer: the marked region, or else
    /// the cursor's line, lies within the text.
    pub open spec fn can_justify(&self) -> bool {
        &&& self.has_buffer()
        &&& match selection(self.cur()) {
            Some((s, e)) => e.line < rope_line_count(self.cur().text()),
            None => self.cur().cursor.line < rope_line_count(self.cur().text()),
        }
    }

    /// `b` is `a` after Justify of one paragraph, with no region marked.
    pub open spec fn paragraph_justify_done(a: Editor, b: Editor) -> bool {
        let lv = buffer_lines(a.cur());
        let q = quote_of(a.options);
        let from = a.justify_from();
        &&& no_paragraph_from(lv, from, q) ==> Self::posted(a, b, "Nothing to justify"@, StatusLevel::Normal)
        &&& !no_paragraph_from(lv, from, q) ==> {
            &&& Self::shows(a, b, "Justified paragraph"@, StatusLevel::Normal)
            &&& exists|st: int, c: int, m1: Buffer, m2: Buffer|
                #[trigger] paragraph_at(lv, from, st, c, q) && #[trigger] lines_retyped(
                    a.cur(),
                    m1,
                    m2,
                    st,
                    st + c - 1,
                    joined(a.justified(lv, st, c)),
                ) && b.cur() == Self::scroll_buf(
                    Buffer { modified: true, cursor: after_paragraph(m2, st + a.justified(lv, st, c).len()), ..m2 },
                    a.options,
                    a.screen_rows,
                    a.screen_cols,
                    false,
                )
        }
    }

    /// `b` is `a` after Full Justify, with no region marked.
    pub open spec fn full_justify_done(a: Editor, b: Editor) -> bool {
        exists|states: Seq<(Seq<Seq<char>>, int)>|
            {
                &&& #[trigger] full_justify_run(
                    states,
                    quote_of(a.options),
                    a.options.punct@,
                    a.options.brackets@,
                    a.wrap_width(),
                    a.options.trimblanks,
                )
                &&& states[0] == (buffer_lines(a.cur()), 0int)
                &&& no_paragraph_from(states.last().0, states.last().1, quote_of(a.options))
                &&& states.len() == 1 ==> Self::posted(a, b, "Nothing to justify"@, StatusLevel::Normal)
                &&& states.len() > 1 ==> {
                    &&& Self::shows(a, b, "Justified file"@, StatusLevel::Normal)
                    &&& exists|m1: Buffer, m2: Buffer|
                        #[trigger] tool_replaced(a.cur(), m1, m2, joined(states.last().0)) && {
                            let m3 = Self::scroll_buf(Buffer { modified: true, ..m2 }, a.options, a.screen_rows, a.screen_cols, false);
                            let target = if a.cur().cursor.line <= last_line(m3) { a.cur().cursor.line as int } else { last_line(m3) };
                            b.cur() == Self::scroll_buf(
                                Buffer { cursor: Pos { line: target as usize, col: 0 }, ..m3 },
                                a.options,
                                a.screen_rows,
                                a.screen_cols,
                                false,
                            )
                        }
                }
            }
    }

    /// Full Justify without a region marked.
    #[verifier::spinoff_prover]
    #[verifier::rlimit(40)]
    fn justify_whole(&mut self)
        requires
            old(self).has_buffer(),
            selection(old(self).cur()) is None,
        ensures
            Self::edited(*old(self), *final(self)),
            Self::same_cut(*old(self), *final(self)),
            Self::full_justify_done(*old(self), *final(self)),
    {
        let cur = self.current;
        let ghost b = self.cur();
        let quote = Pattern::new(self.options.quotestr.as_str());
        let qr = quote.as_ref();
        proof {
            assert(crate::justify::quote_view(qr) == quote_of(old(self).options));
        }
        let wrap = wrap_at(self.options.fill, self.screen_cols);
        let lines = buffer_line_vecs(&self.buffers[cur]);
        let was_line = self.buffers[cur].cursor.line;
        let ghost lv0 = seqs_view(lines@);
        let ghost q = quote_of(old(self).options);
        let ghost w = old(self).wrap_width();
        let r = justify_all(lines, qr, self.options.punct.as_str(), self.options.brackets.as_str(), wrap, self.options.trimblanks);
        let ghost states = choose|states: Seq<(Seq<Seq<char>>, int)>|
            #[trigger] full_justify_run(states, q, old(self).options.punct@, old(self).options.brackets@, w, old(self).options.trimblanks)
                && states[0] == (lv0, 0int) && no_paragraph_from(states.last().0, states.last().1, q) && match r {
                None => states.len() == 1,
                Some(v) => states.len() > 1 && seqs_view(v@) == states.last().0,
            };
        match r {
            None => {
                self.set_status("Nothing to justify");
                assert(Self::full_justify_done(*old(self), *self));
            },
            Some(result) => {
                let new_text = join_lines(result.as_slice());
                proof {
                    assert(result@.map_values(|l: Vec<char>| l@) == seqs_view(result@));
                }
                self.replace_tool_input(new_text.as_str());
                let ghost m3 = self.cur();
                let n = self.buffers[cur].line_count();
                let target = if was_line <= n - 1 { was_line } else { n - 1 };
                self.buffers[cur].cursor = Pos::new(target, 0);
                let ghost pre = *self;
                self.scroll_to_cursor();
                self.set_status("Justified file");
                proof {
                    let (m1, m2) = choose|m1: Buffer, m2: Buffer|
                        #[trigger] tool_replaced(b, m1, m2, new_text@) && m3 == Self::scroll_buf(
                            Buffer { modified: true, ..m2 },
                            old(self).options,
                            old(self).screen_rows,
                            old(self).screen_cols,
                            false,
                        );
                    assert(tool_replaced(old(self).cur(), m1, m2, joined(states.last().0)));
                    assert(self.cur() == pre.scrolled_cur(false));
                    assert(states.len() > 1);
                    assert(states[0] == (buffer_lines(old(self).cur()), 0int));
                    assert(Self::shows(*old(self), *self, "Justified file"@, StatusLevel::Normal));
                    let target = if old(self).cur().cursor.line <= last_line(m3) { old(self).cur().cursor.line as int } else { last_line(m3) };
                    assert(pre.cur() == Buffer { cursor: Pos { line: target as usize, col: 0 }, ..m3 });
                    assert(Self::full_justify_done(*old(self), *self));
                }
            },
        }
    }

    /// Justify of the paragraph at or after the cursor, without a region
    /// marked.
    #[verifier::spinoff_prover]
    #[verifier::rlimit(40)]
    fn justify_one(&mut self)
        requires
            old(self).has_buffer(),
            old(self).cur().cursor.line < rope_line_count(old(self).cur().text()),
        ensures
            Self::edited(*old(self), *final(self)),
            Self::same_cut(*old(self), *final(self)),
            Self::paragraph_justify_done(*old(self), *final(self)),
    {
        let cur = self.current;
        let ghost b = self.cur();
        let quote = Pattern::new(self.options.quotestr.as_str());
        let qr = quote.as_ref();
        proof {
            assert(crate::justify::quote_view(qr) == quote_of(old(self).options));
        }
        let wrap = wrap_at(self.options.fill, self.screen_cols);
        let lines = buffer_line_vecs(&self.buffers[cur]);
        assert(lines@.len() == seqs_view(lines@).len());
        let cursor_line = self.buffers[cur].cursor.line;
        match justify_at(lines.as_slice(), cursor_line, qr, self.options.punct.as_str(), self.options.brackets.as_str(), wrap, self.options.trimblanks) {
            None => {
                self.set_status("Nothing to justify");
            },
            Some((start, count, new_lines)) => {
                let new_count = new_lines.len();
                let ghost nl = seqs_view(new_lines@);
                let ghost lv = buffer_lines(b);
                proof {
                    assert(new_lines@.map_values(|l: Vec<char>| l@) == nl);
                    assert(seqs_view(lines@) == lv);
                    assert(paragraph_at(lv, old(self).justify_from(), start as int, count as int, quote_of(old(self).options)));
                    assert(nl == old(self).justified(lv, start as int, count as int));
                }
                let new_text = join_lines(new_lines.as_slice());
                let end_line = start + count - 1;
                let end_col = line_chars(&self.buffers[cur], end_line).len();
                self.buffers[cur].delete_range(Pos::new(start, 0), Pos::new(end_line, end_col));
                let ghost m1 = self.cur();
                self.buffers[cur].cursor = Pos::new(start, 0);
                self.buffers[cur].insert_str(new_text.as_str());
                let ghost m2 = self.cur();
                proof {
                    assert(lines_retyped(b, m1, m2, start as int, end_line as int, joined(nl)));
                }
                self.buffers[cur].modified = true;
                let n = self.buffers[cur].line_count();
                let next_line = start.saturating_add(new_count);
                if next_line < n {
                    self.buffers[cur].cursor = Pos::new(next_line, 0);
                } else {
                    let last = n - 1;
                    let last_col = line_chars(&self.buffers[cur], last).len();
                    self.buffers[cur].cursor = Pos::new(last, last_col);
                }
                let ghost pre = *self;
                self.scroll_to_cursor();
                self.set_status("Justified paragraph");
                proof {
                    assert(self.cur() == pre.scrolled_cur(false));
                    assert(pre.cur() == Buffer { modified: true, cursor: after_paragraph(m2, start + nl.len()), ..m2 });
                    assert(lines_retyped(old(self).cur(), m1, m2, start as int, start + count - 1, joined(old(self).justified(lv, start as int, count as int))));
                }
            },
        }
    }

    /// `b` is `a` after Justify (or, `whole_buffer`, Full Justify; see
    /// `run_justify`).
    pub open spec fn justify_done(a: Editor, b: Editor, whole_buffer: bool) -> bool {
        &&& Self::edited(a, b)
        &&& Self::same_cut(a, b)
        &&& match selection(a.cur()) {
            Some((s, e)) => {
                &&& s == e ==> Self::posted(a, b, "Selection is empty"@, StatusLevel::Mild)
                &&& s != e ==> Self::region_justify_done(a, b, s, e)
            },
            None => if whole_buffer {
                Self::full_justify_done(a, b)
            } else {
                Self::paragraph_justify_done(a, b)
            },
        }
    }

    /// Justify (`whole_buffer` false) or Full Justify (nano's
    /// `justify_text`): a marked region is always justified as one
    /// paragraph; else the paragraph at or after the cursor, or every
    /// paragraph.
    fn run_justify(&mut self, whole_buffer: bool)
        requires
            old(self).can_justify(),
        ensures
            Self::justify_done(*old(self), *final(self), whole_buffer),
    {
        match self.selection_range() {
            Some((start, end)) => {
                self.run_justify_selection(start, end);
            },
            None => {
                if whole_buffer {
                    self.justify_whole();
                } else {
                    self.justify_one();
                }
            },
        }
    }
}

/// `n` capped at `usize::MAX`.
pub open spec fn sat(n: int) -> usize {
    if n > usize::MAX { usize::MAX } else { n as usize }
}

/// The end of a match `len` characters long at `p`, on its line.
pub open spec fn match_end(p: Pos, len: usize) -> Pos {
    Pos { line: p.line, col: sat(p.col + len) }
}

/// The region end `r` after the match of `len` characters at `p` became `n`
/// characters long: moved with the text when on the same line after the
/// match (nano's `mark_x` upkeep).
pub open spec fn shifted_region(r: Option<Pos>, p: Pos, len: usize, n: nat) -> Option<Pos> {
    match r {
        Some(e) => if e.line == p.line && e.col >= p.col + len {
            Some(Pos { line: e.line, col: sat(e.col - len + n) })
        } else {
            Some(e)
        },
        None => None,
    }
}

/// `b` is `a` with the match of `len` characters at `p` replaced by `exp`.
pub open spec fn replaced_at(a: Buffer, b: Buffer, p: Pos, len: usize, exp: Seq<char>) -> bool {
    exists|m1: Buffer|
        #[trigger] range_cut(a, m1, p, match_end(p, len), range_text(a.text(), p, match_end(p, len))) && str_typed(
            Buffer { cursor: p, ..m1 },
            b,
            exp,
        )
}

/// A found match as positions.
pub open spec fn found_pos(o: Option<(int, int, int, bool)>) -> Option<(Pos, usize, bool)> {
    match o {
        Some((l, c, len, w)) => Some((Pos { line: l as usize, col: c as usize }, len as usize, w)),
        None => None,
    }
}

/// The replace loop's state moved on to the match `(p, len)`, wrapped or
/// not.
pub open spec fn at_match(st: ReplaceLoopState, p: Pos, len: usize, w: bool) -> ReplaceLoopState {
    ReplaceLoopState { match_pos: p, match_len: len, wrapped: w, ..st }
}

/// The status message after a replace: how many replacements.
pub open spec fn replace_count_text(n: usize) -> Seq<char> {
    if n == 0 {
        "No replacements made"@
    } else if n == 1 {
        "Replaced 1 occurrence"@
    } else {
        "Replaced "@ + decimal(n as nat) + " occurrences"@
    }
}

impl Editor {
    /// The search for a replace fails: a regular expression that does not
    /// compile.
    pub open spec fn search_fails(&self, search: Seq<char>) -> bool {
        self.search.use_regex && !regex_compiles(regex_source(search, self.search.case_sensitive))
    }

    /// The text that replaces the match of `st`.
    pub open spec fn expansion(&self, st: ReplaceLoopState) -> Seq<char> {
        replacement_text(
            self.cur().text(),
            st.search@,
            st.replacement@,
            st.match_pos,
            st.match_len as int,
            self.search.case_sensitive,
            self.search.use_regex,
        )
    }

    /// Where the search goes on after the match of `st`: past the
    /// replacement when it was replaced, else past the match (at least one
    /// character, so an empty match is not found again).
    pub open spec fn resume_at(&self, st: ReplaceLoopState, replaced: bool) -> Pos {
        let p = st.match_pos;
        if replaced {
            Pos { line: p.line, col: sat(p.col + self.expansion(st).len()) }
        } else {
            Pos { line: p.line, col: sat(p.col + if st.match_len > 0 { st.match_len as int } else { 1 }) }
        }
    }

    /// The next match for the replace loop `st` from `from` (see
    /// `replace_target`).
    pub open spec fn next_match(&self, st: ReplaceLoopState, from: Pos) -> Option<(Pos, usize, bool)> {
        found_pos(
            replace_target(
                self.cur().text(),
                search_regex(st.search@, self.search.case_sensitive, self.search.use_regex),
                self.search.case_sensitive,
                st.search@,
                (from.line as int, from.col as int),
                (st.session_start.line as int, st.session_start.col as int),
                st.wrapped,
                opt_pos(st.region_end),
            ),
        )
    }

    /// One step of the replace loop from `a` to `b`: the match of `st`
    /// replaced (when `replace`), giving the state `st2`, and the next match
    /// looked for, which is `found`.
    pub open spec fn stepped(
        a: Editor,
        b: Editor,
        st: ReplaceLoopState,
        replace: bool,
        st2: ReplaceLoopState,
        found: Result<Option<(Pos, usize, bool)>, Seq<char>>,
    ) -> bool {
        &&& Self::only_cur_changed(a, b) && Self::same_settings(a, b) && Self::same_cut(a, b) && Self::same_screen(a, b)
            && Self::same_status(a, b)
        &&& replace ==> {
            &&& replaced_at(a.cur(), b.cur(), st.match_pos, st.match_len, a.expansion(st))
            &&& st2 == ReplaceLoopState {
                count: sat(st.count + 1),
                region_end: shifted_region(st.region_end, st.match_pos, st.match_len, a.expansion(st).len()),
                ..st
            }
        }
        &&& !replace ==> b.cur() == a.cur() && st2 == st
        &&& found == if a.search_fails(st.search@) {
            Err(regex_error_text(regex_source(st.search@, a.search.case_sensitive)))
        } else {
            Ok(b.next_match(st2, a.resume_at(st, replace)))
        }
    }

    /// Replace the match of `st` by its expansion: the new loop state and
    /// where the search goes on.
    #[verifier::spinoff_prover]
    fn replace_match(&mut self, st: ReplaceLoopState) -> (r: (ReplaceLoopState, Pos))
        requires
            old(self).has_buffer(),
        ensures
            Self::only_cur_changed(*old(self), *final(self)) && Self::same_settings(*old(self), *final(self))
                && Self::same_cut(*old(self), *final(self)) && Self::same_screen(*old(self), *final(self))
                && Self::same_status(*old(self), *final(self)),
            replaced_at(old(self).cur(), final(self).cur(), st.match_pos, st.match_len, old(self).expansion(st)),
            r.0 == Self::step_state(*old(self), st),
            r.1 == old(self).resume_at(st, true),
    {
        let cur = self.current;
        let mut st = st;
        let expanded = expand_replacement(
            &self.buffers[cur],
            st.search.as_str(),
            st.replacement.as_str(),
            st.match_pos,
            st.match_len,
            self.search.case_sensitive,
            self.search.use_regex,
        );
        let end = Pos::new(st.match_pos.line, st.match_pos.col.saturating_add(st.match_len));
        let ghost b0 = self.cur();
        self.buffers[cur].delete_range(st.match_pos, end);
        let ghost m1 = self.cur();
        self.buffers[cur].cursor = st.match_pos;
        let n = str_chars(expanded.as_str()).len();
        self.buffers[cur].insert_str(expanded.as_str());
        proof {
            assert(range_cut(b0, m1, st.match_pos, match_end(st.match_pos, st.match_len), range_text(b0.text(), st.match_pos, match_end(st.match_pos, st.match_len))));
        }
        st.count = st.count.saturating_add(1);
        match st.region_end {
            Some(e) => {
                if e.line == st.match_pos.line && st.match_len <= usize::MAX - st.match_pos.col && e.col >= st.match_pos.col
                    + st.match_len {
                    st.region_end = Some(Pos::new(e.line, (e.col - st.match_len).saturating_add(n)));
                }
            },
            None => {},
        }
        let from = Pos::new(st.match_pos.line, st.match_pos.col.saturating_add(n));
        (st, from)
    }

    /// Replace the match of `st` (when `replace`) and look for the next one.
    fn replace_step(&mut self, st: ReplaceLoopState, replace: bool) -> (r: (ReplaceLoopState, Result<Option<(Pos, usize, bool)>, String>))
        requires
            old(self).has_buffer(),
        ensures
            Self::stepped(*old(self), *final(self), st, replace, r.0, match r.1 {
                Ok(x) => Ok(x),
                Err(e) => Err(e@),
            }),
    {
        let (st2, next_from) = if replace {
            self.replace_match(st)
        } else {
            let step = if st.match_len > 0 { st.match_len } else { 1 };
            let from = Pos::new(st.match_pos.line, st.match_pos.col.saturating_add(step));
            (st, from)
        };
        let found = find_next_match_for_replace(
            &self.buffers[self.current],
            next_from,
            st2.session_start,
            st2.wrapped,
            st2.region_end,
            st2.search.as_str(),
            self.search.case_sensitive,
            self.search.use_regex,
        );
        (st2, found)
    }
}

impl Editor {
    /// The loop state after the match of `st` was replaced in `a`.
    pub open spec fn step_state(a: Editor, st: ReplaceLoopState) -> ReplaceLoopState {
        ReplaceLoopState {
            count: sat(st.count + 1),
            region_end: shifted_region(st.region_end, st.match_pos, st.match_len, a.expansion(st).len()),
            ..st
        }
    }

    /// The match found after replacing the match of `st` in `a`, giving `b`.
    pub open spec fn found_after(a: Editor, b: Editor, st: ReplaceLoopState) -> Option<(Pos, usize, bool)> {
        b.next_match(Self::step_state(a, st), a.resume_at(st, true))
    }

    /// Replace All went through the editors `es` with the loop states
    /// `sts`: each step replaced the match and found a next one.
    pub open spec fn all_run(es: Seq<Editor>, sts: Seq<ReplaceLoopState>) -> bool {
        &&& es.len() == sts.len() && es.len() >= 1
        &&& forall|i: int|
            0 <= i < es.len() - 1 ==> {
                &&& #[trigger] Self::stepped(
                    es[i],
                    es[i + 1],
                    sts[i],
                    true,
                    Self::step_state(es[i], sts[i]),
                    Ok(Self::found_after(es[i], es[i + 1], sts[i])),
                )
                &&& Self::found_after(es[i], es[i + 1], sts[i]) matches Some((p, len, w)) && sts[i + 1] == at_match(
                    Self::step_state(es[i], sts[i]),
                    p,
                    len,
                    w,
                )
            }
    }

    /// `b` is `a` asking about the match of `st`: the cursor on it, centred,
    /// highlighted until answered, and the "Replace this instance?" prompt.
    pub open spec fn asked(a: Editor, b: Editor, st: ReplaceLoopState) -> bool {
        &&& Self::only_cur_changed(a, b) && Self::same_settings(a, b) && Self::same_cut(a, b) && Self::same_status(a, b)
        &&& b.cur() == Self::scroll_buf(Buffer { cursor: st.match_pos, ..a.cur() }, a.options, a.screen_rows, a.screen_cols, true)
        &&& b.spotlight == Some((st.match_pos, st.match_len)) && b.spotlight_deadline is None
        &&& Self::opens(b.mode, PromptKind::ReplaceConfirm(st), Menu::YesNo, "Replace this instance?"@, Seq::empty(), 0)
        &&& b.screen_rows == a.screen_rows && b.screen_cols == a.screen_cols && b.file_completions == a.file_completions
    }

    /// `b` is `a` back in the editing window, the highlight out, `msg` shown.
    pub open spec fn ended(a: Editor, b: Editor, msg: Seq<char>) -> bool {
        &&& Self::same_buffers(a, b) && Self::same_settings(a, b) && Self::same_cut(a, b)
        &&& b.mode == Mode::Editing
        &&& b.spotlight is None && b.spotlight_deadline is None
        &&& Self::shows(a, b, msg, StatusLevel::Normal)
        &&& b.screen_rows == a.screen_rows && b.screen_cols == a.screen_cols && b.file_completions == a.file_completions
    }

    /// `b` is `a` after a replace step found `found`, the loop being at `st`:
    /// asking about the next match, or done (with the count, or the regular
    /// expression's error).
    pub open spec fn replace_finished(
        a: Editor,
        b: Editor,
        st: ReplaceLoopState,
        found: Result<Option<(Pos, usize, bool)>, Seq<char>>,
    ) -> bool {
        match found {
            Ok(Some((p, len, w))) => Self::asked(a, b, at_match(st, p, len, w)),
            Ok(None) => Self::ended(a, b, replace_count_text(st.count)),
            Err(e) => Self::ended(a, b, "Invalid regex: "@ + e),
        }
    }

    fn end_replace(&mut self, msg: &str)
        ensures
            Self::ended(*old(self), *final(self), msg@),
    {
        self.mode = Mode::Editing;
        self.clear_spotlight();
        self.set_status(msg);
    }

    /// How many replacements were made.
    fn report_replace_count(&mut self, count: usize)
        ensures
            Self::ended(*old(self), *final(self), replace_count_text(count)),
    {
        if count == 0 {
            self.end_replace("No replacements made");
        } else if count == 1 {
            self.end_replace("Replaced 1 occurrence");
        } else {
            let mut v: Vec<char> = Vec::new();
            push_str(&mut v, "Replaced ");
            push_decimal(&mut v, count);
            push_str(&mut v, " occurrences");
            let msg = string_from_chars(v.as_slice());
            self.end_replace(msg.as_str());
        }
    }

    /// Ask about the match of `st`.
    fn ask_replace(&mut self, st: ReplaceLoopState)
        requires
            old(self).has_buffer(),
        ensures
            Self::asked(*old(self), *final(self), st),
    {
        let cur = self.current;
        self.buffers[cur].cursor = st.match_pos;
        self.scroll_to_cursor_centered();
        self.set_spotlight_persistent(st.match_pos, st.match_len);
        let label = string_from_chars(str_chars("Replace this instance?").as_slice());
        self.open_prompt(PromptKind::ReplaceConfirm(st), Menu::YesNo, label, String::new(), 0);
    }

    /// Act on a step's outcome.
    fn finish_step(&mut self, st: ReplaceLoopState, found: Result<Option<(Pos, usize, bool)>, String>)
        requires
            old(self).has_buffer(),
        ensures
            Self::replace_finished(*old(self), *final(self), st, match found {
                Ok(x) => Ok(x),
                Err(e) => Err(e@),
            }),
    {
        match found {
            Ok(Some((pos, len, wrapped))) => {
                self.ask_replace(ReplaceLoopState { match_pos: pos, match_len: len, wrapped, ..st });
            },
            Ok(None) => {
                self.report_replace_count(st.count);
            },
            Err(e) => {
                let mut v: Vec<char> = Vec::new();
                push_str(&mut v, "Invalid regex: ");
                push_str(&mut v, e.as_str());
                let msg = string_from_chars(v.as_slice());
                self.end_replace(msg.as_str());
            },
        }
    }

    /// Answer "Replace this instance?" for the match of `state` (nano's
    /// `do_replace_loop`): Cancel ends the loop; No skips the match and Yes
    /// replaces it, then the next match is asked about; All replaces it and
    /// every next match without asking. The loop ends, reporting the count,
    /// when no match is left. Replace All stops asking only after
    /// `usize::MAX` replacements, which leaves the prompt on the next match.
    pub fn replace_choice(&mut self, state: ReplaceLoopState, choice: ReplaceChoice)
        requires
            old(self).has_buffer(),
        ensures
            choice is Cancel ==> Self::ended(*old(self), *final(self), replace_count_text(state.count)),
            (choice is Yes || choice is No) ==> (exists|mid: Editor, st2: ReplaceLoopState, found: Result<Option<(Pos, usize, bool)>, Seq<char>>|
                #[trigger] Self::stepped(*old(self), mid, state, choice is Yes, st2, found) && Self::replace_finished(
                    mid,
                    *final(self),
                    st2,
                    found,
                )),
            choice is All ==> (exists|es: Seq<Editor>, sts: Seq<ReplaceLoopState>, mid: Editor, found: Result<Option<(Pos, usize, bool)>, Seq<char>>|
                {
                    &&& #[trigger] Self::all_run(es, sts)
                    &&& es[0] == *old(self) && sts[0] == state
                    &&& #[trigger] Self::stepped(es.last(), mid, sts.last(), true, Self::step_state(es.last(), sts.last()), found)
                    &&& (found matches Ok(Some(_))) ==> es.len() == usize::MAX + 1
                    &&& Self::replace_finished(mid, *final(self), Self::step_state(es.last(), sts.last()), found)
                }),
    {
        match choice {
            ReplaceChoice::Cancel => {
                self.report_replace_count(state.count);
            },
            ReplaceChoice::Yes | ReplaceChoice::No => {
                let replace = matches!(choice, ReplaceChoice::Yes);
                let ghost a = *self;
                let (st2, found) = self.replace_step(state, replace);
                let ghost mid = *self;
                let ghost fv: Result<Option<(Pos, usize, bool)>, Seq<char>> = match &found {
                    Ok(x) => Ok(*x),
                    Err(e) => Err(e@),
                };
                self.finish_step(st2, found);
                proof {
                    assert(Self::stepped(a, mid, state, choice is Yes, st2, fv));
                }
            },
            ReplaceChoice::All => {
                let mut st = state;
                let mut budget: usize = usize::MAX;
                let ghost mut es: Seq<Editor> = seq![*self];
                let ghost mut sts: Seq<ReplaceLoopState> = seq![st];
                loop
                    invariant
                        choice is All,
                        self.has_buffer(),
                        Self::all_run(es, sts),
                        es[0] == *old(self) && sts[0] == state,
                        es.last() == *self && sts.last() == st,
                        es.len() + budget == usize::MAX + 1,
                    decreases budget,
                {
                    let ghost a = *self;
                    let (st2, found) = self.replace_step(st, true);
                    let ghost mid = *self;
                    let ghost fv: Result<Option<(Pos, usize, bool)>, Seq<char>> = match &found {
                        Ok(x) => Ok(*x),
                        Err(e) => Err(e@),
                    };
                    proof {
                        assert(Self::stepped(a, mid, st, true, st2, fv));
                        assert(st2 == Self::step_state(a, st));
                    }
                    match found {
                        Ok(Some((pos, len, wrapped))) => {
                            if budget > 0 {
                                budget -= 1;
                                let next = ReplaceLoopState { match_pos: pos, match_len: len, wrapped, ..st2 };
                                proof {
                                    let nes = es.push(mid);
                                    let nsts = sts.push(next);
                                    assert(Self::found_after(a, mid, st) == Some((pos, len, wrapped)));
                                    assert forall|i: int| 0 <= i < nes.len() - 1 implies {
                                        &&& #[trigger] Self::stepped(
                                            nes[i],
                                            nes[i + 1],
                                            nsts[i],
                                            true,
                                            Self::step_state(nes[i], nsts[i]),
                                            Ok(Self::found_after(nes[i], nes[i + 1], nsts[i])),
                                        )
                                        &&& Self::found_after(nes[i], nes[i + 1], nsts[i]) matches Some((p, l, w)) && nsts[i + 1]
                                            == at_match(Self::step_state(nes[i], nsts[i]), p, l, w)
                                    } by {
                                        if i < es.len() - 1 {
                                            assert(nes[i] == es[i] && nes[i + 1] == es[i + 1] && nsts[i] == sts[i] && nsts[i + 1] == sts[i + 1]);
                                        }
                                    }
                                    es = nes;
                                    sts = nsts;
                                }
                                st = next;
                                continue;
                            }
                            self.finish_step(st2, found);
                            return;
                        },
                        _ => {
                            self.finish_step(st2, found);
                            return;
                        },
                    }
                }
            },
        }
    }
}

/// The lines of `t` with their line feeds (std's `split_inclusive('\n')`):
/// split after each line feed; a last line without one is kept, an empty
/// one is no line.
pub open spec fn inclusive_lines(t: Seq<char>) -> Seq<Seq<char>>
    decreases t.len(),
{
    if t.len() == 0 {
        Seq::empty()
    } else {
        match first_index(t, '\n') {
            Some(i) => if 0 <= i < t.len() {
                seq![t.take(i + 1)] + inclusive_lines(t.skip(i + 1))
            } else {
                seq![t]
            },
            None => seq![t],
        }
    }
}

fn split_inclusive(text: &str) -> (r: Vec<String>)
    ensures
        texts(r@) == inclusive_lines(text@),
{
    let cs = str_chars(text);
    let n = cs.len();
    let mut out: Vec<String> = Vec::new();
    let mut start: usize = 0;
    proof {
        assert(cs@.skip(0) =~= cs@);
        assert(texts(out@) =~= Seq::<Seq<char>>::empty());
        assert(Seq::<Seq<char>>::empty() + inclusive_lines(text@) =~= inclusive_lines(text@));
    }
    while start < n
        invariant
            cs@ == text@,
            n == cs@.len(),
            start <= n,
            texts(out@) + inclusive_lines(cs@.skip(start as int)) == inclusive_lines(text@),
        decreases n - start,
    {
        let rest = sub_chars(cs.as_slice(), start, n);
        proof {
            assert(rest@ =~= cs@.skip(start as int));
        }
        let ghost before = texts(out@);
        match find_char(rest.as_slice(), '\n') {
            Some(i) => {
                proof {
                    crate::text::lemma_first_index(rest@, '\n');
                }
                let piece = sub_chars(rest.as_slice(), 0, i + 1);
                out.push(string_from_chars(piece.as_slice()));
                proof {
                    assert(piece@ =~= rest@.take(i + 1));
                    assert(rest@.skip(i + 1) =~= cs@.skip(start + i + 1));
                    assert(texts(out@) =~= before.push(piece@));
                    assert(seq![rest@.take(i + 1)] + inclusive_lines(rest@.skip(i + 1)) == inclusive_lines(rest@));
                    assert(before + inclusive_lines(rest@) =~= texts(out@) + inclusive_lines(rest@.skip(i + 1)));
                }
                start = start + i + 1;
            },
            None => {
                out.push(string_from_chars(rest.as_slice()));
                proof {
                    assert(texts(out@) =~= before.push(rest@));
                    assert(cs@.skip(n as int) =~= Seq::<char>::empty());
                    assert(before + inclusive_lines(rest@) =~= texts(out@) + inclusive_lines(cs@.skip(n as int)));
                }
                start = n;
            },
        }
    }
    proof {
        assert(cs@.skip(n as int) =~= Seq::<char>::empty());
        assert(texts(out@) + Seq::<Seq<char>>::empty() =~= texts(out@));
    }
    out
}

impl Editor {
    /// Where a search for `pattern` from the cursor (backwards when asked)
    /// finds its match in the current buffer: line, column and length.
    pub open spec fn search_hit(&self, pattern: Seq<char>, backwards: bool) -> Option<(int, int, int)> {
        search_from(
            inclusive_lines(self.cur().text()),
            search_regex(pattern, self.search.case_sensitive, self.search.use_regex),
            self.search.case_sensitive,
            pattern,
            self.cur().cursor.line as int,
            self.cur().cursor.col as int,
            backwards,
            0,
        )
    }

    /// Search for `pattern` from the cursor, wrapping around: the cursor
    /// goes to the match, centred, highlighted for a moment, and the pattern
    /// is remembered; else "not found". An empty pattern does nothing.
    pub fn run_search(&mut self, pattern: &str, backwards: bool)
        requires
            old(self).has_buffer(),
        ensures
            pattern@.len() == 0 ==> *final(self) == *old(self),
            pattern@.len() > 0 ==> match old(self).search_hit(pattern@, backwards) {
                Some((l, c, len)) => {
                    let p = Pos { line: l as usize, col: c as usize };
                    &&& Self::only_cur_changed(*old(self), *final(self))
                    &&& final(self).cur() == Self::scroll_buf(
                        Buffer { cursor: p, ..old(self).cur() },
                        old(self).options,
                        old(self).screen_rows,
                        old(self).screen_cols,
                        true,
                    )
                    &&& final(self).search.last_pattern matches Some(lp) && lp@ == pattern@
                    &&& final(self).search.case_sensitive == old(self).search.case_sensitive
                    &&& final(self).search.use_regex == old(self).search.use_regex
                    &&& final(self).search.backwards == old(self).search.backwards
                    &&& final(self).spotlight == Some((p, len as usize)) && final(self).spotlight_deadline is Some
                    &&& Self::same_status(*old(self), *final(self)) && Self::same_cut(*old(self), *final(self))
                    &&& final(self).options == old(self).options && final(self).mode == old(self).mode
                },
                None => Self::posted(*old(self), *final(self), "\""@ + pattern@ + "\" not found"@, StatusLevel::Normal),
            },
    {
        let n = str_chars(pattern).len();
        if n == 0 {
            return;
        }
        let cur = self.current;
        let text = self.buffers[cur].to_string();
        let hay = split_inclusive(text.as_str());
        let found = find_in_lines(
            hay.as_slice(),
            self.buffers[cur].cursor,
            pattern,
            backwards,
            self.search.case_sensitive,
            self.search.use_regex,
        );
        match found {
            Some((pos, len)) => {
                self.buffers[cur].cursor = pos;
                self.scroll_to_cursor_centered();
                self.search.last_pattern = Some(string_from_chars(str_chars(pattern).as_slice()));
                self.set_spotlight_timed(pos, len);
            },
            None => {
                let mut v: Vec<char> = Vec::new();
                push_str(&mut v, "\"");
                push_str(&mut v, pattern);
                push_str(&mut v, "\" not found");
                let msg = string_from_chars(v.as_slice());
                self.set_status(msg.as_str());
            },
        }
    }

    /// `b` is `a` after Find Next (or, `backwards`, Find Previous; see
    /// `repeat_search`).
    pub open spec fn searched_again(a: Editor, b: Editor, backwards: bool) -> bool {
        &&& a.search.last_pattern is None ==> Self::posted(a, b, "No search pattern in memory"@, StatusLevel::Normal)
        &&& a.search.last_pattern matches Some(p) ==> p@.len() > 0 ==> match a.search_hit(p@, backwards) {
            Some((l, c, len)) => {
                let q = Pos { line: l as usize, col: c as usize };
                &&& b.cur() == Self::scroll_buf(
                    Buffer { cursor: q, ..a.cur() },
                    a.options,
                    a.screen_rows,
                    a.screen_cols,
                    true,
                )
                &&& b.spotlight == Some((q, len as usize))
            },
            None => Self::posted(a, b, "\""@ + p@ + "\" not found"@, StatusLevel::Normal),
        }
        &&& a.search.last_pattern matches Some(p) ==> p@.len() == 0 ==> b == a
        &&& b.current == a.current && b.buffers@.len() == a.buffers@.len()
    }

    /// Find Next (`backwards` false) or Find Previous: search again for the
    /// last pattern.
    fn repeat_search(&mut self, backwards: bool)
        requires
            old(self).has_buffer(),
        ensures
            Self::searched_again(*old(self), *final(self), backwards),
    {
        match &self.search.last_pattern {
            None => {
                self.set_status("No search pattern in memory");
            },
            Some(p) => {
                let p = p.clone();
                self.run_search(p.as_str(), backwards);
            },
        }
    }

    /// `a1` is `a` readied for a replace of `search`: the search remembered
    /// and a marked region's mark dropped (the region bounds the replace).
    pub open spec fn readied(a: Editor, a1: Editor, search: String) -> bool {
        &&& Self::only_cur_changed(a, a1) && Self::same_status(a, a1) && Self::same_cut(a, a1) && Self::same_screen(a, a1)
        &&& a1.options == a.options && a1.keymap == a.keymap && a1.history == a.history
        &&& a1.search == SearchState { last_pattern: Some(search), ..a.search }
        &&& a1.cur() == if selection(a.cur()) is Some { Buffer { mark: None, softmark: false, ..a.cur() } } else { a.cur() }
    }

    /// The replace loop's state at its start for `search` and `replacement`
    /// in `a`: from the marked region's start (bounded by its end) or the
    /// cursor, nothing replaced yet.
    pub open spec fn loop_start(a: Editor, search: String, replacement: String) -> ReplaceLoopState {
        let start = match selection(a.cur()) {
            Some((s, e)) => s,
            None => a.cur().cursor,
        };
        ReplaceLoopState {
            search,
            replacement,
            match_pos: start,
            match_len: 0,
            session_start: start,
            wrapped: false,
            count: 0,
            region_end: match selection(a.cur()) {
                Some((s, e)) => Some(e),
                None => None,
            },
        }
    }

    /// Start a replace of `search` by `replacement` (nano's `do_replace`):
    /// find the first match from the cursor (or within the marked region,
    /// whose mark is dropped), wrapping once, and ask about it; else "not
    /// found", or the regular expression's error. An empty search does
    /// nothing but close the prompt.
    pub fn begin_replace_loop(&mut self, search: String, replacement: String)
        requires
            old(self).has_buffer(),
        ensures
            search@.len() == 0 ==> final(self).mode == Mode::Editing && Self::same_but_mode(*old(self), *final(self)),
            search@.len() > 0 ==> (exists|a1: Editor|
                #[trigger] Self::readied(*old(self), a1, search) && {
                    let st = Self::loop_start(*old(self), search, replacement);
                    if a1.search_fails(search@) {
                        Self::ended(a1, *final(self), "Invalid regex: "@ + regex_error_text(regex_source(search@, a1.search.case_sensitive)))
                    } else {
                        match a1.next_match(st, st.session_start) {
                            Some((p, len, w)) => Self::asked(a1, *final(self), at_match(st, p, len, w)),
                            None => Self::ended(a1, *final(self), "\""@ + search@ + "\" not found"@),
                        }
                    }
                }),
    {
        let n = str_chars(search.as_str()).len();
        if n == 0 {
            self.mode = Mode::Editing;
            return;
        }
        let cur = self.current;
        let ghost a = *self;
        let ghost st0 = Self::loop_start(a, search, replacement);
        self.search.last_pattern = Some(search.clone());
        let region = self.selection_range();
        match region {
            Some(_) => {
                self.buffers[cur].mark = None;
                self.buffers[cur].softmark = false;
            },
            None => {},
        }
        let ghost a1 = *self;
        proof {
            assert(Self::readied(a, a1, search));
        }
        let session_start = match region {
            Some((s, _)) => s,
            None => self.buffers[cur].cursor,
        };
        let region_end = match region {
            Some((_, e)) => Some(e),
            None => None,
        };
        let found = find_next_match_for_replace(
            &self.buffers[cur],
            session_start,
            session_start,
            false,
            region_end,
            search.as_str(),
            self.search.case_sensitive,
            self.search.use_regex,
        );
        match found {
            Ok(Some((pos, len, wrapped))) => {
                let st = ReplaceLoopState {
                    search,
                    replacement,
                    match_pos: pos,
                    match_len: len,
                    session_start,
                    wrapped,
                    count: 0,
                    region_end,
                };
                self.ask_replace(st);
            },
            Ok(None) => {
                let mut v: Vec<char> = Vec::new();
                push_str(&mut v, "\"");
                push_str(&mut v, search.as_str());
                push_str(&mut v, "\" not found");
                let msg = string_from_chars(v.as_slice());
                self.end_replace(msg.as_str());
            },
            Err(e) => {
                let mut v: Vec<char> = Vec::new();
                push_str(&mut v, "Invalid regex: ");
                push_str(&mut v, e.as_str());
                let msg = string_from_chars(v.as_slice());
                self.end_replace(msg.as_str());
            },
        }
    }

    /// The merge preview's lines: `header`, then the lines of `diff`.
    pub open spec fn preview_lines(header: Seq<char>, diff: Seq<char>) -> Seq<Seq<char>> {
        seq![header] + lines_of(diff)
    }

    /// Preview a three-way merge of the current buffer with `on_disk`, the
    /// text now in its file (none when it could not be read): the merge base
    /// is the text as loaded, and the diff viewer opens on the result — a
    /// clean merge ready to apply, or the conflict. Without a path, or
    /// without the text on disk, the editor goes back to editing (with a
    /// message in the second case).
    pub fn begin_merge_preview(&mut self, on_disk: Option<&str>)
        requires
            old(self).has_buffer(),
        ensures
            old(self).cur().path is None ==> final(self).mode == Mode::Editing && Self::same_but_mode(*old(self), *final(self)),
            old(self).cur().path is Some && on_disk is None ==> {
                &&& final(self).mode == Mode::Editing
                &&& Self::shows(*old(self), *final(self), "Could not re-read file from disk"@, StatusLevel::Normal)
                &&& Self::same_buffers(*old(self), *final(self)) && Self::same_settings(*old(self), *final(self))
            },
            old(self).cur().path is Some ==> (on_disk matches Some(theirs) ==> {
                let (clean, text, diff) = merge_outcome(old(self).cur().original_content@, old(self).cur().text(), theirs@);
                &&& final(self).mode matches Mode::Diff { lines, top, outcome } && top == 0 && texts(lines@) == Self::preview_lines(
                    if clean { "Merge preview -- [A]pply  [C]ancel"@ } else { "Could not merge automatically -- press any key"@ },
                    diff,
                ) && if clean {
                    outcome matches DiffOutcome::ApplyMerge { merged_text } && merged_text@ == text
                } else {
                    outcome matches DiffOutcome::Conflict
                }
                &&& Self::same_but_mode(*old(self), *final(self))
            }),
    {
        let cur = self.current;
        if self.buffers[cur].path.is_none() {
            self.mode = Mode::Editing;
            return;
        }
        let theirs = match on_disk {
            Some(t) => t,
            None => {
                self.set_status("Could not re-read file from disk");
                self.mode = Mode::Editing;
                return;
            },
        };
        let ours = self.buffers[cur].to_string();
        let r = three_way_merge(self.buffers[cur].original_content.as_str(), ours.as_str(), theirs);
        let (header, diff, outcome) = match r {
            MergeResult::Clean { text, diff } => (
                "Merge preview -- [A]pply  [C]ancel",
                diff,
                DiffOutcome::ApplyMerge { merged_text: text },
            ),
            MergeResult::Conflict { diff } => ("Could not merge automatically -- press any key", diff, DiffOutcome::Conflict),
        };
        let mut lines: Vec<String> = Vec::new();
        lines.push(string_from_chars(str_chars(header).as_slice()));
        let dl = split_lines(diff.as_str());
        let mut i: usize = 0;
        while i < dl.len()
            invariant
                i <= dl@.len(),
                dl@.map_values(|l: Vec<char>| l@) == lines_of(diff@),
                texts(lines@) == seq![header@] + lines_of(diff@).take(i as int),
            decreases dl@.len() - i,
        {
            let ghost before = texts(lines@);
            lines.push(string_from_chars(dl[i].as_slice()));
            proof {
                assert(dl@[i as int]@ == lines_of(diff@)[i as int]);
                assert(lines_of(diff@).take(i + 1) =~= lines_of(diff@).take(i as int).push(lines_of(diff@)[i as int]));
                assert(texts(lines@) =~= before.push(dl@[i as int]@));
            }
            i += 1;
        }
        proof {
            assert(lines_of(diff@).take(dl@.len() as int) =~= lines_of(diff@));
        }
        self.mode = Mode::Diff { lines, top: 0, outcome };
    }
}

/// The setting that the toggle `action` flips.
pub open spec fn toggled_setting(action: Action) -> Setting {
    match action {
        Action::NoHelp => Setting::Nohelp,
        Action::Zero => Setting::Zero,
        Action::ConstantShow => Setting::Constantshow,
        Action::SoftWrap => Setting::Softwrap,
        Action::LineNumbers => Setting::Linenumbers,
        Action::NoSyntax => Setting::SyntaxHighlighting,
        Action::SmartHome => Setting::Smarthome,
        Action::AutoIndent => Setting::Autoindent,
        Action::CutFromCursor => Setting::Cutfromcursor,
        Action::BreakLongLines => Setting::Breaklonglines,
        Action::TabsToSpaces => Setting::Tabstospaces,
        _ => Setting::Mouse,
    }
}

/// The value under `o` of the option that the toggle `action` flips.
pub open spec fn toggled_value(o: Options, action: Action) -> bool {
    match action {
        Action::NoHelp => o.nohelp,
        Action::Zero => o.zero,
        Action::ConstantShow => o.constantshow,
        Action::SoftWrap => o.softwrap,
        Action::LineNumbers => o.linenumbers,
        Action::NoSyntax => o.syntax_highlighting,
        Action::SmartHome => o.smarthome,
        Action::AutoIndent => o.autoindent,
        Action::CutFromCursor => o.cutfromcursor,
        Action::BreakLongLines => o.breaklonglines,
        Action::TabsToSpaces => o.tabstospaces,
        _ => o.mouse,
    }
}

/// Flip the option that the toggle `action` names.
fn flip_option(o: &mut Options, action: Action)
    requires
        action is NoHelp || action is Zero || action is ConstantShow || action is SoftWrap || action is LineNumbers || action is NoSyntax || action is SmartHome || action is AutoIndent || action is CutFromCursor || action is BreakLongLines || action is TabsToSpaces || action is Mouse,
    ensures
        set_setting(old(o)@, final(o)@, toggled_setting(action), None, !toggled_value(*old(o), action)),
{
    let (s, v) = match action {
        Action::NoHelp => (Setting::Nohelp, o.nohelp),
        Action::Zero => (Setting::Zero, o.zero),
        Action::ConstantShow => (Setting::Constantshow, o.constantshow),
        Action::SoftWrap => (Setting::Softwrap, o.softwrap),
        Action::LineNumbers => (Setting::Linenumbers, o.linenumbers),
        Action::NoSyntax => (Setting::SyntaxHighlighting, o.syntax_highlighting),
        Action::SmartHome => (Setting::Smarthome, o.smarthome),
        Action::AutoIndent => (Setting::Autoindent, o.autoindent),
        Action::CutFromCursor => (Setting::Cutfromcursor, o.cutfromcursor),
        Action::BreakLongLines => (Setting::Breaklonglines, o.breaklonglines),
        Action::TabsToSpaces => (Setting::Tabstospaces, o.tabstospaces),
        _ => (Setting::Mouse, o.mouse),
    };
    apply_flag(o, s, !v);
}

/// The request to remove `lock`, if any.
pub open spec fn delete_request(lock: Option<String>) -> Option<Request> {
    match lock {
        Some(l) => Some(Request::DeleteLock(l)),
        None => None,
    }
}

/// The request to save to `path`, if any.
pub open spec fn save_request(path: Option<String>) -> Option<Request> {
    match path {
        Some(p) => Some(Request::Save(p)),
        None => None,
    }
}

impl Editor {
    /// `b` is `a` with only the current buffer changed.
    pub open spec fn buffer_only(a: Editor, b: Editor) -> bool {
        Self::only_cur_changed(a, b) && Self::same_settings(a, b) && Self::same_cut(a, b) && Self::same_screen(a, b)
            && Self::same_status(a, b)
    }

    /// `b` is `a` with only the current buffer's cursor moved to `p`.
    pub open spec fn cursor_put(a: Editor, b: Editor, p: Pos) -> bool {
        b.buffers@ == a.buffers@.update(a.current as int, Buffer { cursor: p, ..a.cur() }) && b.current == a.current
            && Self::same_status(a, b) && Self::same_settings(a, b) && Self::same_cut(a, b) && Self::same_screen(a, b)
    }

    /// `action` can be carried out in `a` without failing: there is a
    /// current buffer; the word and Location actions need the cursor within
    /// its line (and below the largest count), Justify a marked region or
    /// cursor line within the text.
    pub open spec fn can_execute(&self, action: Action) -> bool {
        let b = self.cur();
        &&& self.has_buffer()
        &&& (action is PrevWord || action is ChopWordLeft) ==> b.cursor.col <= line_of(b.text(), b.cursor.line as nat).len()
        &&& action is Location ==> b.cursor.line < usize::MAX && b.cursor.col < usize::MAX
        &&& (action is Justify || action is FullJustify) ==> self.can_justify()
    }

    /// `b` is `a` after `action` is dispatched (before the final scroll),
    /// handing back `r` (see `dispatch`).
    pub open spec fn dispatched(a: Editor, b: Editor, action: Action, r: Option<Request>) -> bool {
        let ob = a.cur();
        let uv = edits_view(ob.undo_stack@);
        let rv = edits_view(ob.redo_stack@);
        let can_undo = uv.len() > 0 && undoable(ob.text(), uv.last());
        let can_redo = rv.len() > 0 && redoable(ob.text(), rv.last());
        match action {
            Action::Help => {
                &&& b.mode matches Mode::Help { lines, top, return_to } && texts(lines@) == help_screen(
                    Menu::Main,
                    a.keymap.listing(),
                    a.screen_cols as nat,
                ) && top == 0 && return_to is None
                &&& Self::same_but_mode(a, b) && r is None
            },
            Action::Cancel => b.mode == Mode::Editing && Self::same_but_mode(a, b) && r is None,
            Action::Exit => {
                let lock = if ob.modified { None } else { ob.lock_filename };
                Self::exit_begun(a, b, lock) && r == delete_request(lock)
            },
            Action::WriteOut => Self::writeout_opened(a, b, false) && r is None,
            Action::SaveFile => Self::save_begun(a, b, ob.path) && r == save_request(ob.path),
            Action::Insert => Self::insert_opened(a, b, false) && r is None,
            Action::WhereIs => Self::search_opened(a, b) && r is None,
            Action::WhereWas => Self::search_opened(Editor { search: SearchState { backwards: true, ..a.search }, ..a }, b)
                && r is None,
            Action::FindNext => Self::searched_again(a, b, false) && r is None,
            Action::FindPrevious => Self::searched_again(a, b, true) && r is None,
            Action::Replace => Self::replace_opened(a, b) && r is None,
            Action::Cut => Self::cut_done(a, b) && r is None,
            Action::CutRestOfFile => Self::cut_rest_done(a, b) && r is None,
            Action::Copy => Self::copy_done(a, b) && r is None,
            Action::Paste => Self::paste_done(a, b) && r is None,
            Action::Mark => Self::mark_toggled(a, b) && r is None,
            Action::Location => Self::posted(a, b, location_text(ob), StatusLevel::Normal) && r is None,
            Action::WordCount => Self::posted(a, b, word_count_text(ob), StatusLevel::Normal) && r is None,
            Action::Undo => {
                &&& Self::only_cur_changed(a, b) && Self::same_settings(a, b) && Self::same_cut(a, b) && Self::same_screen(a, b)
                &&& Buffer::undo_done(ob, b.cur(), can_undo)
                &&& Self::shows(a, b, if can_undo { "Undo"@ } else { "Nothing to undo"@ }, StatusLevel::Normal)
                &&& r is None
            },
            Action::Redo => {
                &&& Self::only_cur_changed(a, b) && Self::same_settings(a, b) && Self::same_cut(a, b) && Self::same_screen(a, b)
                &&& Buffer::redo_done(ob, b.cur(), can_redo)
                &&& Self::shows(a, b, if can_redo { "Redo"@ } else { "Nothing to redo"@ }, StatusLevel::Normal)
                &&& r is None
            },
            Action::Left => Self::buffer_only(a, b) && Buffer::left_moved(ob, b.cur()) && r is None,
            Action::Right => Self::buffer_only(a, b) && Buffer::right_moved(ob, b.cur()) && r is None,
            Action::Up => Self::buffer_only(a, b) && Buffer::up_moved(ob, b.cur()) && r is None,
            Action::Down => Self::buffer_only(a, b) && Buffer::down_moved(ob, b.cur()) && r is None,
            Action::Home => Self::buffer_only(a, b) && Buffer::home_moved(ob, b.cur()) && r is None,
            Action::End => Self::buffer_only(a, b) && Buffer::end_moved(ob, b.cur()) && r is None,
            Action::PrevWord => Self::cursor_put(a, b, word_start_before(ob.text(), ob.cursor.line as nat, ob.cursor.col as int))
                && r is None,
            Action::NextWord => Self::cursor_put(a, b, word_start_after(ob.text(), ob.cursor.line as nat, ob.cursor.col as int))
                && r is None,
            Action::PageUp => Self::paged(a, b, true) && r is None,
            Action::PageDown => Self::paged(a, b, false) && r is None,
            Action::FirstLine => Self::cursor_put(a, b, Pos { line: 0, col: 0 }) && r is None,
            Action::LastLine => Self::cursor_put(a, b, Pos { line: last_line(ob) as usize, col: 0 }) && r is None,
            Action::GotoLine => Self::goto_opened(a, b) && r is None,
            Action::Tab => Self::buffer_only(a, b) && char_typed(ob, b.cur(), '\t') && r is None,
            Action::Enter => Self::entered(a, b) && r is None,
            Action::Delete => Self::buffer_only(a, b) && Buffer::forward_deleted(ob, b.cur()) && r is None,
            Action::Backspace => Self::buffer_only(a, b) && Buffer::backspaced(ob, b.cur()) && r is None,
            Action::Zap => Self::zap_done(a, b) && r is None,
            Action::ChopWordLeft => Self::chopped_left(a, b) && r is None,
            Action::ChopWordRight => Self::chopped_right(a, b) && r is None,
            Action::Complete => Self::posted(a, b, "complete: not yet implemented"@, StatusLevel::Normal) && r is None,
            Action::Justify => Self::justify_done(a, b, false) && r is None,
            Action::FullJustify => Self::justify_done(a, b, true) && r is None,
            Action::Indent => Self::posted(a, b, "indent: not yet implemented"@, StatusLevel::Normal) && r is None,
            Action::Unindent => Self::posted(a, b, "unindent: not yet implemented"@, StatusLevel::Normal) && r is None,
            Action::Comment => Self::posted(a, b, "comment: not yet implemented"@, StatusLevel::Normal) && r is None,
            Action::ScrollUp => Self::view_scrolled(a, b, true) && r is None,
            Action::ScrollDown => Self::view_scrolled(a, b, false) && r is None,
            Action::BeginPara | Action::EndPara | Action::PrevBlock | Action::NextBlock | Action::TopRow | Action::BottomRow => {
                Self::posted(a, b, "paragraph/block navigation: not yet implemented"@, StatusLevel::Normal) && r is None
            },
            Action::FindBracket => Self::posted(a, b, "find-bracket: not yet implemented"@, StatusLevel::Normal) && r is None,
            Action::Anchor | Action::PrevAnchor | Action::NextAnchor => Self::posted(
                a,
                b,
                "anchors: not yet implemented"@,
                StatusLevel::Normal,
            ) && r is None,
            Action::PrevBuf => Self::switched(a, b, false) && r is None,
            Action::NextBuf => Self::switched(a, b, true) && r is None,
            Action::RecordMacro | Action::RunMacro => Self::posted(a, b, "macros: not yet implemented"@, StatusLevel::Normal)
                && r is None,
            Action::Suspend => Self::posted(a, b, "suspend: not supported in this build"@, StatusLevel::Normal) && r is None,
            Action::Execute => Self::insert_opened(a, b, true) && r is None,
            Action::NoHelp | Action::Zero | Action::ConstantShow | Action::SoftWrap | Action::LineNumbers | Action::NoSyntax | Action::SmartHome | Action::AutoIndent | Action::CutFromCursor | Action::BreakLongLines | Action::TabsToSpaces | Action::Mouse => {
                &&& set_setting(a.options@, b.options@, toggled_setting(action), None, !toggled_value(a.options, action))
                &&& Self::same_buffers(a, b) && Self::same_status(a, b) && Self::same_cut(a, b) && Self::same_screen(a, b)
                &&& b.keymap == a.keymap && b.search == a.search && b.history == a.history
                &&& r is None
            },
            Action::CaseSens => b == (Editor { search: SearchState { case_sensitive: !a.search.case_sensitive, ..a.search }, ..a }) && r is None,
            Action::Regexp => b == (Editor { search: SearchState { use_regex: !a.search.use_regex, ..a.search }, ..a }) && r is None,
            Action::Backwards => b == (Editor { search: SearchState { backwards: !a.search.backwards, ..a.search }, ..a }) && r is None,
            _ => b == a && r is None,
        }
    }

    /// Whether `action` is one of the prompts actions.
    pub open spec fn is_prompts(action: Action) -> bool {
        action is Help || action is Cancel || action is Exit || action is WriteOut || action is SaveFile || action is Insert || action is WhereIs || action is WhereWas || action is FindNext || action is FindPrevious || action is Replace || action is GotoLine || action is Execute
    }

    /// Open a prompt or viewer, search again, save or exit.
    #[verifier::rlimit(40)]
    fn dispatch_prompts(&mut self, action: Action) -> (r: Option<Request>)
        requires
            old(self).can_execute(action),
            Self::is_prompts(action),
        ensures
            Self::dispatched(*old(self), *final(self), action, r),
            final(self).buffers@.len() > 0 ==> final(self).has_buffer(),
    {
        let cur = self.current;
        match action {
            Action::Help => {
                let lines = crate::help::build(Menu::Main, &self.keymap, self.screen_cols);
                self.mode = Mode::Help { lines, top: 0, return_to: None };
                None
            },
            Action::Cancel => {
                self.mode = Mode::Editing;
                None
            },
            Action::Exit => match self.begin_exit() {
                Some(l) => Some(Request::DeleteLock(l)),
                None => None,
            },
            Action::WriteOut => {
                self.begin_writeout(false);
                None
            },
            Action::SaveFile => match self.quick_save() {
                Some(p) => Some(Request::Save(p)),
                None => None,
            },
            Action::Insert => {
                self.begin_insert_or_execute(false);
                None
            },
            Action::WhereIs => {
                self.begin_search();
                None
            },
            Action::WhereWas => {
                self.search.backwards = true;
                self.begin_search();
                None
            },
            Action::FindNext => {
                self.repeat_search(false);
                None
            },
            Action::FindPrevious => {
                self.repeat_search(true);
                None
            },
            Action::Replace => {
                self.begin_replace();
                None
            },
            Action::GotoLine => {
                self.begin_goto_line();
                None
            },
            Action::Execute => {
                self.begin_insert_or_execute(true);
                None
            },
            _ => None,
        }
    }

    /// Whether `action` is one of the edits actions.
    pub open spec fn is_edits(action: Action) -> bool {
        action is Cut || action is CutRestOfFile || action is Copy || action is Paste || action is Mark || action is Tab || action is Enter || action is Delete || action is Backspace || action is Zap || action is ChopWordLeft || action is ChopWordRight || action is Justify || action is FullJustify || action is Undo || action is Redo
    }

    /// Change the text, the mark or the cut buffer.
    #[verifier::rlimit(40)]
    fn dispatch_edits(&mut self, action: Action) -> (r: Option<Request>)
        requires
            old(self).can_execute(action),
            Self::is_edits(action),
        ensures
            Self::dispatched(*old(self), *final(self), action, r),
            final(self).buffers@.len() > 0 ==> final(self).has_buffer(),
    {
        let cur = self.current;
        match action {
            Action::Cut => {
                self.do_cut();
                None
            },
            Action::CutRestOfFile => {
                self.do_cut_rest_of_file();
                None
            },
            Action::Copy => {
                self.do_copy();
                None
            },
            Action::Paste => {
                self.do_paste();
                None
            },
            Action::Mark => {
                self.toggle_mark();
                None
            },
            Action::Undo => {
                if self.buffers[cur].undo() {
                    self.set_status("Undo");
                } else {
                    self.set_status("Nothing to undo");
                }
                None
            },
            Action::Redo => {
                if self.buffers[cur].redo() {
                    self.set_status("Redo");
                } else {
                    self.set_status("Nothing to redo");
                }
                None
            },
            Action::Tab => {
                self.buffers[cur].insert_char('\t');
                None
            },
            Action::Enter => {
                self.do_enter();
                None
            },
            Action::Delete => {
                self.buffers[cur].delete_forward();
                None
            },
            Action::Backspace => {
                self.buffers[cur].backspace();
                None
            },
            Action::Zap => {
                self.do_zap();
                None
            },
            Action::ChopWordLeft => {
                self.chop_word_left();
                None
            },
            Action::ChopWordRight => {
                self.chop_word_right();
                None
            },
            Action::Justify => {
                self.run_justify(false);
                None
            },
            Action::FullJustify => {
                self.run_justify(true);
                None
            },
            _ => None,
        }
    }

    /// Whether `action` is one of the moves actions.
    pub open spec fn is_moves(action: Action) -> bool {
        action is Left || action is Right || action is Up || action is Down || action is Home || action is End || action is PrevWord || action is NextWord || action is PageUp || action is PageDown || action is FirstLine || action is LastLine || action is ScrollUp || action is ScrollDown || action is PrevBuf || action is NextBuf || action is Location || action is WordCount
    }

    /// Move the cursor or the view, switch buffers, or report where things are.
    #[verifier::rlimit(40)]
    fn dispatch_moves(&mut self, action: Action) -> (r: Option<Request>)
        requires
            old(self).can_execute(action),
            Self::is_moves(action),
        ensures
            Self::dispatched(*old(self), *final(self), action, r),
            final(self).buffers@.len() > 0 ==> final(self).has_buffer(),
    {
        let cur = self.current;
        match action {
            Action::Location => {
                self.report_location();
                None
            },
            Action::WordCount => {
                self.report_word_count();
                None
            },
            Action::Left => {
                self.buffers[cur].move_left();
                None
            },
            Action::Right => {
                self.buffers[cur].move_right();
                None
            },
            Action::Up => {
                self.buffers[cur].move_up();
                None
            },
            Action::Down => {
                self.buffers[cur].move_down();
                None
            },
            Action::Home => {
                self.buffers[cur].move_home();
                None
            },
            Action::End => {
                self.buffers[cur].move_end();
                None
            },
            Action::PrevWord => {
                let p = word_left_pos(&self.buffers[cur], self.buffers[cur].cursor);
                self.put_cursor(p);
                None
            },
            Action::NextWord => {
                let p = word_right_pos(&self.buffers[cur], self.buffers[cur].cursor);
                self.put_cursor(p);
                None
            },
            Action::PageUp => {
                self.page(true);
                None
            },
            Action::PageDown => {
                self.page(false);
                None
            },
            Action::FirstLine => {
                self.put_cursor(Pos::new(0, 0));
                None
            },
            Action::LastLine => {
                let last = self.buffers[cur].line_count() - 1;
                self.put_cursor(Pos::new(last, 0));
                None
            },
            Action::ScrollUp => {
                self.scroll_view(true);
                None
            },
            Action::ScrollDown => {
                self.scroll_view(false);
                None
            },
            Action::PrevBuf => {
                self.switch_buffer(false);
                None
            },
            Action::NextBuf => {
                self.switch_buffer(true);
                None
            },
            _ => None,
        }
    }

    /// Whether `action` is one of the messages actions.
    pub open spec fn is_messages(action: Action) -> bool {
        action is Complete || action is Indent || action is Unindent || action is Comment || action is BeginPara || action is EndPara || action is PrevBlock || action is NextBlock || action is TopRow || action is BottomRow || action is FindBracket || action is Anchor || action is PrevAnchor || action is NextAnchor || action is RecordMacro || action is RunMacro || action is Suspend
    }

    /// Report that an action is not available.
    #[verifier::rlimit(40)]
    fn dispatch_messages(&mut self, action: Action) -> (r: Option<Request>)
        requires
            old(self).can_execute(action),
            Self::is_messages(action),
        ensures
            Self::dispatched(*old(self), *final(self), action, r),
            final(self).buffers@.len() > 0 ==> final(self).has_buffer(),
    {
        match action {
            Action::Complete => {
                self.set_status("complete: not yet implemented");
                None
            },
            Action::Indent => {
                self.set_status("indent: not yet implemented");
                None
            },
            Action::Unindent => {
                self.set_status("unindent: not yet implemented");
                None
            },
            Action::Comment => {
                self.set_status("comment: not yet implemented");
                None
            },
            Action::BeginPara | Action::EndPara | Action::PrevBlock | Action::NextBlock | Action::TopRow | Action::BottomRow => {
                self.set_status("paragraph/block navigation: not yet implemented");
                None
            },
            Action::FindBracket => {
                self.set_status("find-bracket: not yet implemented");
                None
            },
            Action::Anchor | Action::PrevAnchor | Action::NextAnchor => {
                self.set_status("anchors: not yet implemented");
                None
            },
            Action::RecordMacro | Action::RunMacro => {
                self.set_status("macros: not yet implemented");
                None
            },
            Action::Suspend => {
                self.set_status("suspend: not supported in this build");
                None
            },
            _ => None,
        }
    }

    fn is_messages_exec(action: Action) -> (r: bool)
        ensures
            r == Self::is_messages(action),
    {
        match action {
            Action::Complete | Action::Indent | Action::Unindent | Action::Comment | Action::BeginPara | Action::EndPara | Action::PrevBlock | Action::NextBlock | Action::TopRow | Action::BottomRow | Action::FindBracket | Action::Anchor | Action::PrevAnchor | Action::NextAnchor | Action::RecordMacro | Action::RunMacro | Action::Suspend => true,
            _ => false,
        }
    }

    /// Whether `action` is one of the toggles actions.
    pub open spec fn is_toggles(action: Action) -> bool {
        action is NoHelp || action is Zero || action is ConstantShow || action is SoftWrap || action is LineNumbers || action is NoSyntax || action is SmartHome || action is AutoIndent || action is CutFromCursor || action is BreakLongLines || action is TabsToSpaces || action is Mouse || action is CaseSens || action is Regexp || action is Backwards
    }

    /// Flip an option or a search setting.
    #[verifier::spinoff_prover]
    #[verifier::rlimit(60)]
    fn dispatch_toggles(&mut self, action: Action) -> (r: Option<Request>)
        requires
            old(self).can_execute(action),
            Self::is_toggles(action),
        ensures
            Self::dispatched(*old(self), *final(self), action, r),
            final(self).buffers@.len() > 0 ==> final(self).has_buffer(),
    {
        match action {
            Action::NoHelp | Action::Zero | Action::ConstantShow | Action::SoftWrap | Action::LineNumbers | Action::NoSyntax | Action::SmartHome | Action::AutoIndent | Action::CutFromCursor | Action::BreakLongLines | Action::TabsToSpaces | Action::Mouse => {
                flip_option(&mut self.options, action);
                None
            },
            Action::CaseSens => {
                self.search.case_sensitive = !self.search.case_sensitive;
                None
            },
            Action::Regexp => {
                self.search.use_regex = !self.search.use_regex;
                None
            },
            Action::Backwards => {
                self.search.backwards = !self.search.backwards;
                None
            },

            _ => None,
        }
    }

    fn is_toggles_exec(action: Action) -> (r: bool)
        ensures
            r == Self::is_toggles(action),
    {
        match action {
            Action::NoHelp | Action::Zero | Action::ConstantShow | Action::SoftWrap | Action::LineNumbers | Action::NoSyntax | Action::SmartHome | Action::AutoIndent | Action::CutFromCursor | Action::BreakLongLines | Action::TabsToSpaces | Action::Mouse | Action::CaseSens | Action::Regexp | Action::Backwards => true,
            _ => false,
        }
    }

    /// Carry out `action` (see `dispatched`).
    fn dispatch(&mut self, action: Action) -> (r: Option<Request>)
        requires
            old(self).can_execute(action),
        ensures
            Self::dispatched(*old(self), *final(self), action, r),
            final(self).buffers@.len() > 0 ==> final(self).has_buffer(),
    {
        if Self::is_prompts_exec(action) {
            self.dispatch_prompts(action)
        } else if Self::is_edits_exec(action) {
            self.dispatch_edits(action)
        } else if Self::is_moves_exec(action) {
            self.dispatch_moves(action)
        } else if Self::is_messages_exec(action) {
            self.dispatch_messages(action)
        } else if Self::is_toggles_exec(action) {
            self.dispatch_toggles(action)
        } else {
            None
        }
    }

    fn is_prompts_exec(action: Action) -> (r: bool)
        ensures
            r == Self::is_prompts(action),
    {
        match action {
            Action::Help | Action::Cancel | Action::Exit | Action::WriteOut | Action::SaveFile | Action::Insert | Action::WhereIs | Action::WhereWas | Action::FindNext | Action::FindPrevious | Action::Replace | Action::GotoLine | Action::Execute => true,
            _ => false,
        }
    }

    fn is_edits_exec(action: Action) -> (r: bool)
        ensures
            r == Self::is_edits(action),
    {
        match action {
            Action::Cut | Action::CutRestOfFile | Action::Copy | Action::Paste | Action::Mark | Action::Tab | Action::Enter | Action::Delete | Action::Backspace | Action::Zap | Action::ChopWordLeft | Action::ChopWordRight | Action::Justify | Action::FullJustify | Action::Undo | Action::Redo => true,
            _ => false,
        }
    }

    fn is_moves_exec(action: Action) -> (r: bool)
        ensures
            r == Self::is_moves(action),
    {
        match action {
            Action::Left | Action::Right | Action::Up | Action::Down | Action::Home | Action::End | Action::PrevWord | Action::NextWord | Action::PageUp | Action::PageDown | Action::FirstLine | Action::LastLine | Action::ScrollUp | Action::ScrollDown | Action::PrevBuf | Action::NextBuf | Action::Location | Action::WordCount => true,
            _ => false,
        }
    }

    /// `a` with the cut chain broken, unless `action` is a cut.
    pub open spec fn chain_reset(a: Editor, action: Action) -> Editor {
        if action is Cut || action is CutRestOfFile {
            a
        } else {
            Editor { cut_was_consecutive: false, ..a }
        }
    }

    /// `b` is `mid` with the cursor brought into view, when a buffer is left.
    pub open spec fn settled(mid: Editor, b: Editor) -> bool {
        if mid.buffers@.len() > 0 {
            &&& b.buffers@ == mid.buffers@.update(mid.current as int, mid.scrolled_cur(false))
            &&& b.current == mid.current
            &&& Self::same_status(mid, b) && Self::same_settings(mid, b) && Self::same_cut(mid, b) && Self::same_screen(mid, b)
        } else {
            b == mid
        }
    }

    /// Carry out one editing action, then scroll the cursor into view.
    /// In view mode an action that changes something is refused ("Key is
    /// invalid in view mode"). Any action but a cut breaks the chain of cuts
    /// that add up. What needs the outside world (removing a closed
    /// buffer's lock file, saving) is handed back.
    pub fn execute(&mut self, action: Action) -> (r: Option<Request>)
        requires
            (old(self).options.view && changes_something(action)) || old(self).can_execute(action),
        ensures
            old(self).options.view && changes_something(action) ==> r is None && Self::posted(
                *old(self),
                *final(self),
                "Key is invalid in view mode"@,
                StatusLevel::Mild,
            ),
            !(old(self).options.view && changes_something(action)) ==> (exists|mid: Editor|
                #[trigger] Self::dispatched(Self::chain_reset(*old(self), action), mid, action, r) && Self::settled(mid, *final(self))),
    {
        if self.options.view && action_changes_something(action) {
            self.set_status_mild("Key is invalid in view mode");
            return None;
        }
        match action {
            Action::Cut | Action::CutRestOfFile => {},
            _ => {
                self.cut_was_consecutive = false;
            },
        }
        let ghost pre = *self;
        assert(pre == Self::chain_reset(*old(self), action));
        let r = self.dispatch(action);
        let ghost mid = *self;
        if self.buffers.len() > 0 {
            self.scroll_to_cursor();
        }
        proof {
            assert(Self::dispatched(pre, mid, action, r));
            if mid.buffers@.len() > 0 {
                assert(self.buffers@ =~= mid.buffers@.update(mid.current as int, mid.scrolled_cur(false)));
            }
        }
        r
    }
}

} // verus!
