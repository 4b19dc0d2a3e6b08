//! The editor's state vocabulary (prompts, modes, the interactive replace
//! loop's state, search settings) and the decisions around it that do not
//! depend on a terminal: prompt labels, which actions change the buffer,
//! and searching lines of text for a pattern.

use crate::buffer::{line_of, rope_line_count, Buffer, Pos};
use crate::keymap::{Action, Menu};
use crate::history::texts;
use crate::pattern::{pairs_text, regex_captures, regex_compiles, regex_error_text, regex_matches, Pattern};
use crate::text::{occurs_at, push_all, push_str, starts_with, str_chars, string_from_chars, to_lowercase, unicode_lowercase};
use vstd::prelude::*;

verus! {

/// Which prompt is open, and what it carries.
#[derive(Debug, Clone, PartialEq, Eq)]
pub enum PromptKind {
    WhereIs,
    /// The search term of a replace.
    Replace1,
    /// The replacement term of a replace.
    Replace2 { search: String },
    ReplaceConfirm(ReplaceLoopState),
    GotoLine,
    WriteOut { exiting: bool },
    Exit { discard_and_quit: bool },
    ExternalChangeConflict,
    /// Someone else appears to be editing this file (a lock file exists
    /// for it): `lock_path` is where our own lock goes if the user opens it
    /// anyway; `target` is the path recorded inside it.
    LockConflict { lock_path: String, target: String },
    /// `^R` Read File / `^T` Execute Command: `new_buffer` is nano's
    /// `NEW_BUFFER` toggle (`M-F`), `execute` its toggle between inserting
    /// a file and running a command (`^X`).
    InsertFile { new_buffer: bool, execute: bool },
    /// One step of the word-by-word spell-fix loop: the word shown, and
    /// the words still to check after it.
    SpellFix { word: String, remaining: Vec<String> },
    /// The linter's result viewer: its messages and the one shown.
    Linter { messages: Vec<LintMessage>, index: usize },
}

/// One line of linter output: `filename:line[:col]: msg` (or
/// `filename:line,col: msg`).
#[derive(Debug, Clone, PartialEq, Eq)]
pub struct LintMessage {
    pub filename: String,
    pub line: usize,
    pub col: usize,
    pub msg: String,
}

/// The state of an interactive replace, one match at a time (nano's
/// `do_replace_loop()`): the match shown, where the replace began (the loop
/// stops when it comes round to there again), whether the search has
/// wrapped, how many replacements were made, and the end of the marked
/// region the replace is confined to, if any.
#[derive(Debug, Clone, PartialEq, Eq)]
pub struct ReplaceLoopState {
    pub search: String,
    pub replacement: String,
    pub match_pos: Pos,
    pub match_len: usize,
    pub session_start: Pos,
    pub wrapped: bool,
    pub count: usize,
    pub region_end: Option<Pos>,
}

/// The answers to "Replace this instance?".
pub enum ReplaceChoice {
    Yes,
    No,
    All,
    Cancel,
}

/// An open prompt: what it is for, its key bindings, its label, the text
/// typed and the cursor in it, and the history entry shown (with the typed
/// text it replaced) while browsing history.
#[derive(Debug, Clone)]
pub struct Prompt {
    pub kind: PromptKind,
    pub menu: Menu,
    pub label: String,
    pub input: String,
    pub cursor: usize,
    pub history_pos: Option<usize>,
    pub saved_input: Option<String>,
}

/// What the editor's screen is doing.
pub enum Mode {
    Editing,
    Prompt(Prompt),
    /// The help viewer: its wrapped lines, the first one shown, and the
    /// prompt to go back to when it was opened from one.
    Help { lines: Vec<String>, top: usize, return_to: Option<Box<Prompt>> },
    /// The scrollable diff viewer of a three-way merge preview.
    Diff { lines: Vec<String>, top: usize, outcome: DiffOutcome },
    Quit,
}

/// What dismissing the diff viewer leads to.
#[derive(Debug, Clone)]
pub enum DiffOutcome {
    /// A clean merge, ready to replace the buffer's text.
    ApplyMerge { merged_text: String },
    /// Overlapping changes: back to the reload/keep/cancel choice.
    Conflict,
}

/// How a status-bar message is shown: normally, as a mild warning, or as
/// an alert (which also rings the bell).
#[derive(Debug, Clone, Copy, PartialEq, Eq, Structural)]
pub enum StatusLevel {
    Normal,
    Mild,
    Alert,
}

impl Default for StatusLevel {
    fn default() -> (s: StatusLevel)
        ensures
            s == StatusLevel::Normal,
    {
        StatusLevel::Normal
    }
}

/// The search settings: the last pattern searched for, and the
/// case-sensitive, regular-expression and backwards toggles.
pub struct SearchState {
    pub last_pattern: Option<String>,
    pub case_sensitive: bool,
    pub use_regex: bool,
    pub backwards: bool,
}

impl Default for SearchState {
    fn default() -> (s: SearchState)
        ensures
            s.last_pattern is None,
            !s.case_sensitive,
            !s.use_regex,
            !s.backwards,
    {
        SearchState { last_pattern: None, case_sensitive: false, use_regex: false, backwards: false }
    }
}

/// A Search/Replace prompt's label: the base text, a bracketed flag for
/// each toggle that is on (`[Case Sensitive]`, `[Regexp]`, `[Backwards]`,
/// in that order), the suffix, and the last search term in brackets when
/// there is a non-empty one.
pub open spec fn search_label(base: Seq<char>, suffix: Seq<char>, search: SearchState) -> Seq<char> {
    base + (if search.case_sensitive { " [Case Sensitive]"@ } else { Seq::empty() }) + (if search.use_regex {
        " [Regexp]"@
    } else {
        Seq::empty()
    }) + (if search.backwards { " [Backwards]"@ } else { Seq::empty() }) + suffix + last_term(search.last_pattern)
}

/// The last search term in brackets, when there is a non-empty one.
pub open spec fn last_term(last: Option<String>) -> Seq<char> {
    match last {
        Some(d) => if d@.len() > 0 { " ["@ + d@ + "]"@ } else { Seq::empty() },
        None => Seq::empty(),
    }
}

/// Build a Search/Replace prompt's label the way nano does (e.g. `Search
/// [Case Sensitive] [Regexp] (to replace) [apple]`).
pub fn search_prompt_label(base: &str, suffix: &str, search: &SearchState) -> (r: String)
    ensures
        r@ == search_label(base@, suffix@, *search),
{
    let mut label: Vec<char> = Vec::new();
    push_str(&mut label, base);
    let ghost l0 = label@;
    if search.case_sensitive {
        push_str(&mut label, " [Case Sensitive]");
    }
    let ghost l1 = label@;
    if search.use_regex {
        push_str(&mut label, " [Regexp]");
    }
    let ghost l2 = label@;
    if search.backwards {
        push_str(&mut label, " [Backwards]");
    }
    let ghost l3 = label@;
    push_str(&mut label, suffix);
    let ghost l4 = label@;
    match &search.last_pattern {
        Some(d) => {
            if str_chars(d.as_str()).len() > 0 {
                push_str(&mut label, " [");
                push_str(&mut label, d.as_str());
                push_str(&mut label, "]");
            }
        },
        None => {},
    }
    proof {
        let t = last_term(search.last_pattern);
        assert(label@ =~= l4 + t);
        assert(l4 =~= l3 + suffix@);
        assert(search_label(base@, suffix@, *search) =~= l4 + t);
    }
    string_from_chars(label.as_slice())
}

/// The `^R` Read File prompt's label, for each state of its two toggles.
pub open spec fn insert_label(new_buffer: bool, execute: bool) -> Seq<char> {
    if execute && new_buffer {
        "Command to execute in new buffer"@
    } else if execute {
        "Command to execute"@
    } else if new_buffer {
        "File to read into new buffer [from ./]"@
    } else {
        "File to insert [from ./]"@
    }
}

/// The `^R` Read File prompt's label (nano's exact wording).
pub fn insert_prompt_label(new_buffer: bool, execute: bool) -> (r: String)
    ensures
        r@ == insert_label(new_buffer, execute),
{
    let s = if execute && new_buffer {
        "Command to execute in new buffer"
    } else if execute {
        "Command to execute"
    } else if new_buffer {
        "File to read into new buffer [from ./]"
    } else {
        "File to insert [from ./]"
    };
    string_from_chars(str_chars(s).as_slice())
}

/// Whether `action` modifies the buffer (nano's `changes_something()`):
/// what view mode refuses.
pub open spec fn changes_something(action: Action) -> bool {
    action is WriteOut || action is SaveFile || action is Enter || action is Tab || action is Delete
        || action is Backspace || action is Cut || action is Paste || action is ChopWordLeft
        || action is ChopWordRight || action is Zap || action is CutRestOfFile || action is Execute
        || action is Indent || action is Unindent || action is Justify || action is FullJustify
        || action is Comment || action is Speller || action is Formatter || action is Complete
        || action is Replace
}

/// Whether `action` would modify the buffer.
pub fn action_changes_something(action: Action) -> (r: bool)
    ensures
        r == changes_something(action),
{
    match action {
        Action::WriteOut | Action::SaveFile | Action::Enter | Action::Tab | Action::Delete | Action::Backspace
        | Action::Cut | Action::Paste | Action::ChopWordLeft | Action::ChopWordRight | Action::Zap
        | Action::CutRestOfFile | Action::Execute | Action::Indent | Action::Unindent | Action::Justify
        | Action::FullJustify | Action::Comment | Action::Speller | Action::Formatter | Action::Complete
        | Action::Replace => true,
        _ => false,
    }
}

/// `lines` with a line feed between each two.
pub open spec fn joined(lines: Seq<Seq<char>>) -> Seq<char>
    decreases lines.len(),
{
    if lines.len() == 0 {
        Seq::empty()
    } else if lines.len() == 1 {
        lines[0]
    } else {
        joined(lines.drop_last()) + seq!['\n'] + lines.last()
    }
}

/// Join `lines` into buffer text, a line feed between each two.
pub fn join_lines(lines: &[Vec<char>]) -> (r: String)
    ensures
        r@ == joined(lines@.map_values(|l: Vec<char>| l@)),
{
    let ghost ls = lines@.map_values(|l: Vec<char>| l@);
    let mut out: Vec<char> = Vec::new();
    let mut i: usize = 0;
    let n = lines.len();
    while i < n
        invariant
            n == lines@.len(),
            i <= n,
            ls == lines@.map_values(|l: Vec<char>| l@),
            out@ == joined(ls.take(i as int)),
        decreases n - i,
    {
        if i > 0 {
            out.push('\n');
        }
        push_all(&mut out, lines[i].as_slice());
        proof {
            let p = ls.take(i + 1);
            assert(p.drop_last() =~= ls.take(i as int));
            if i == 0 {
                assert(out@ =~= p[0]);
            } else {
                assert(out@ =~= joined(ls.take(i as int)) + seq!['\n'] + p.last());
            }
        }
        i += 1;
    }
    proof {
        assert(ls.take(n as int) =~= ls);
    }
    string_from_chars(out.as_slice())
}

// ---------------------------------------------------------------------------
// Searching
// ---------------------------------------------------------------------------

/// The occurrences of `needle` in `line` that start before `k`, from the
/// left, overlapping ones included: each as (column, length), both in
/// characters.
pub open spec fn occurrences_before(line: Seq<char>, needle: Seq<char>, k: int) -> Seq<(int, int)>
    decreases k,
{
    if k <= 0 {
        Seq::empty()
    } else {
        let prev = occurrences_before(line, needle, k - 1);
        if starts_with(line.skip(k - 1), needle) {
            prev.push((k - 1, needle.len() as int))
        } else {
            prev
        }
    }
}

/// Where `needle` occurs in `line` (at each character position where the
/// rest of the line starts with it).
pub open spec fn occurrences(line: Seq<char>, needle: Seq<char>) -> Seq<(int, int)> {
    occurrences_before(line, needle, line.len() as int)
}

proof fn lemma_occurrences_before_are_matches(line: Seq<char>, needle: Seq<char>, k: int, c: int, l: int)
    requires
        k <= line.len(),
    ensures
        occurrences_before(line, needle, k).contains((c, l)) <==> (0 <= c < k && starts_with(line.skip(c), needle) && l
            == needle.len()),
    decreases k,
{
    if k > 0 {
        let prev = occurrences_before(line, needle, k - 1);
        lemma_occurrences_before_are_matches(line, needle, k - 1, c, l);
        if starts_with(line.skip(k - 1), needle) {
            let cur = prev.push((k - 1, needle.len() as int));
            if prev.contains((c, l)) {
                let i = choose|i: int| 0 <= i < prev.len() && prev[i] == (c, l);
                assert(cur[i] == (c, l));
            }
            if c == k - 1 && l == needle.len() {
                assert(cur[prev.len() as int] == (c, l));
            }
            if cur.contains((c, l)) {
                let i = choose|i: int| 0 <= i < cur.len() && cur[i] == (c, l);
                if i < prev.len() {
                    assert(prev[i] == (c, l));
                }
            }
        }
    }
}

/// A search that ignores case, for literal text, finds exactly the places
/// where the lowercased line reads the lowercased needle, each as long as
/// the lowercased needle.
pub proof fn law_ignoring_case_matches_lowercase_text(line: Seq<char>, needle: Seq<char>, c: int, l: int)
    ensures
        line_hits(None, false, line, needle).contains((c, l)) <==> (0 <= c < unicode_lowercase(line).len() && starts_with(
            unicode_lowercase(line).skip(c),
            unicode_lowercase(needle),
        ) && l == unicode_lowercase(needle).len()),
{
    let ll = unicode_lowercase(line);
    lemma_occurrences_before_are_matches(ll, unicode_lowercase(needle), ll.len() as int, c, l);
}

/// A search that ignores case finds the same hits whatever the letter case
/// of the needle.
pub proof fn law_ignoring_case_ignores_the_needles_case(line: Seq<char>, n1: Seq<char>, n2: Seq<char>)
    requires
        unicode_lowercase(n1) == unicode_lowercase(n2),
    ensures
        line_hits(None, false, line, n1) == line_hits(None, false, line, n2),
{
}

/// A search that ignores case finds the same hits whatever the letter case
/// of the line searched.
pub proof fn law_ignoring_case_ignores_the_lines_case(l1: Seq<char>, l2: Seq<char>, needle: Seq<char>)
    requires
        unicode_lowercase(l1) == unicode_lowercase(l2),
    ensures
        line_hits(None, false, l1, needle) == line_hits(None, false, l2, needle),
{
}

/// Text searched for in itself, ignoring case, is found at its start.
pub proof fn law_ignoring_case_finds_a_text_in_itself(t: Seq<char>)
    ensures
        line_hits(None, false, t, t).contains((0, unicode_lowercase(t).len() as int)) <== unicode_lowercase(t).len() > 0,
{
    let lt = unicode_lowercase(t);
    if lt.len() > 0 {
        assert(lt.skip(0).take(lt.len() as int) =~= lt);
        lemma_occurrences_before_are_matches(lt, lt, lt.len() as int, 0, lt.len() as int);
    }
}

/// Regex matches as (column, length) in characters.
pub open spec fn match_columns(ms: Seq<(Seq<char>, Seq<char>)>) -> Seq<(int, int)> {
    ms.map_values(|m: (Seq<char>, Seq<char>)| (m.0.len() as int, m.1.len() as int))
}

/// The matches on `line`: of the compiled regex `re` when there is one,
/// else of `needle` as literal text, compared after Unicode lowercasing of
/// both when the search ignores case.
pub open spec fn line_hits(re: Option<Seq<char>>, case_sensitive: bool, line: Seq<char>, needle: Seq<char>) -> Seq<(int, int)> {
    match re {
        Some(p) => match_columns(regex_matches(p, line)),
        None => if case_sensitive {
            occurrences(line, needle)
        } else {
            occurrences(unicode_lowercase(line), unicode_lowercase(needle))
        },
    }
}

/// The regex source a search compiles: the pattern, behind `(?i)` when
/// the search ignores case.
pub open spec fn regex_source(pattern: Seq<char>, case_sensitive: bool) -> Seq<char> {
    if case_sensitive { pattern } else { "(?i)"@ + pattern }
}

pub open spec fn pattern_source(re: Option<Pattern>) -> Option<Seq<char>> {
    match re {
        Some(p) => Some(p@),
        None => None,
    }
}

pub open spec fn hits_view(v: Seq<(usize, usize)>) -> Seq<(int, int)> {
    v.map_values(|h: (usize, usize)| (h.0 as int, h.1 as int))
}

/// The first hit with its column above `lo` and below `hi` (where given).
pub open spec fn first_hit(h: Seq<(int, int)>, lo: Option<int>, hi: Option<int>) -> Option<(int, int)>
    decreases h.len(),
{
    if h.len() == 0 {
        None
    } else if (match lo { Some(a) => h[0].0 > a, None => true }) && (match hi { Some(b) => h[0].0 < b, None => true }) {
        Some(h[0])
    } else {
        first_hit(h.drop_first(), lo, hi)
    }
}

/// The last hit with its column below `hi` (where given).
pub open spec fn last_hit(h: Seq<(int, int)>, hi: Option<int>) -> Option<(int, int)>
    decreases h.len(),
{
    if h.len() == 0 {
        None
    } else if (match hi { Some(b) => h.last().0 < b, None => true }) {
        Some(h.last())
    } else {
        last_hit(h.drop_last(), hi)
    }
}

fn occurrence_columns(line: &[char], needle: &[char]) -> (r: Vec<(usize, usize)>)
    ensures
        hits_view(r@) == occurrences(line@, needle@),
{
    let n = line.len();
    let mut out: Vec<(usize, usize)> = Vec::new();
    let mut k: usize = 0;
    while k < n
        invariant
            n == line@.len(),
            k <= n,
            hits_view(out@) == occurrences_before(line@, needle@, k as int),
        decreases n - k,
    {
        let ghost before = hits_view(out@);
        if occurs_at(line, k, needle) {
            out.push((k, needle.len()));
            proof {
                assert(hits_view(out@) =~= before.push((k as int, needle@.len() as int)));
            }
        }
        k += 1;
    }
    out
}

/// The matches on `line` (see `line_hits`).
fn hits_on(re: &Option<Pattern>, case_sensitive: bool, line: &str, needle: &str) -> (r: Vec<(usize, usize)>)
    ensures
        hits_view(r@) == line_hits(pattern_source(*re), case_sensitive, line@, needle@),
{
    match re {
        Some(p) => {
            let ms = p.all_matches(line);
            let ghost mv = regex_matches(p@, line@);
            let mut out: Vec<(usize, usize)> = Vec::new();
            let mut i: usize = 0;
            while i < ms.len()
                invariant
                    i <= ms@.len(),
                    mv == pairs_text(ms@),
                    hits_view(out@) == match_columns(mv.take(i as int)),
                    forall|j: int|
                        0 <= j < ms@.len() ==> (#[trigger] ms@[j]).0@.len() + ms@[j].1@.len() <= line@.len(),
                decreases ms.len() - i,
            {
                let b = str_chars(ms[i].0.as_str());
                let m = str_chars(ms[i].1.as_str());
                let ghost before = hits_view(out@);
                assert(ms@[i as int].0@.len() + ms@[i as int].1@.len() <= line@.len());
                out.push((b.len(), m.len()));
                proof {
                    assert(mv.take(i + 1) =~= mv.take(i as int).push(mv[i as int]));
                    assert(hits_view(out@) =~= before.push((b@.len() as int, m@.len() as int)));
                    assert(match_columns(mv.take(i + 1)) =~= match_columns(mv.take(i as int)).push(
                        (mv[i as int].0.len() as int, mv[i as int].1.len() as int),
                    ));
                }
                i += 1;
            }
            proof {
                assert(mv.take(ms@.len() as int) =~= mv);
            }
            out
        },
        None => {
            if case_sensitive {
                occurrence_columns(str_chars(line).as_slice(), str_chars(needle).as_slice())
            } else {
                let l = to_lowercase(line);
                let nl = to_lowercase(needle);
                occurrence_columns(str_chars(l.as_str()).as_slice(), str_chars(nl.as_str()).as_slice())
            }
        },
    }
}

/// The first hit with its column above `lo` and below `hi` (where given).
fn pick_first(h: &Vec<(usize, usize)>, lo: Option<usize>, hi: Option<usize>) -> (r: Option<(usize, usize)>)
    ensures
        match r {
            Some((c, len)) => first_hit(hits_view(h@), opt_int(lo), opt_int(hi)) == Some((c as int, len as int)),
            None => first_hit(hits_view(h@), opt_int(lo), opt_int(hi)) is None,
        },
{
    let ghost hv = hits_view(h@);
    let mut i: usize = 0;
    proof {
        assert(hv.skip(0) =~= hv);
    }
    while i < h.len()
        invariant
            i <= h@.len(),
            hv == hits_view(h@),
            first_hit(hv, opt_int(lo), opt_int(hi)) == first_hit(hv.skip(i as int), opt_int(lo), opt_int(hi)),
        decreases h.len() - i,
    {
        let (c, len) = h[i];
        let above = match lo {
            Some(a) => c > a,
            None => true,
        };
        let below = match hi {
            Some(b) => c < b,
            None => true,
        };
        proof {
            assert(hv.skip(i as int)[0] == (c as int, len as int));
            assert(hv.skip(i as int).drop_first() =~= hv.skip(i + 1));
        }
        if above && below {
            return Some((c, len));
        }
        i += 1;
    }
    None
}

/// The last hit with its column below `hi` (where given).
fn pick_last(h: &Vec<(usize, usize)>, hi: Option<usize>) -> (r: Option<(usize, usize)>)
    ensures
        match r {
            Some((c, len)) => last_hit(hits_view(h@), opt_int(hi)) == Some((c as int, len as int)),
            None => last_hit(hits_view(h@), opt_int(hi)) is None,
        },
{
    let ghost hv = hits_view(h@);
    let mut i: usize = h.len();
    proof {
        assert(hv.take(hv.len() as int) =~= hv);
    }
    while i > 0
        invariant
            i <= h@.len(),
            hv == hits_view(h@),
            last_hit(hv, opt_int(hi)) == last_hit(hv.take(i as int), opt_int(hi)),
        decreases i,
    {
        let (c, len) = h[i - 1];
        let below = match hi {
            Some(b) => c < b,
            None => true,
        };
        proof {
            assert(hv.take(i as int).last() == (c as int, len as int));
            assert(hv.take(i as int).drop_last() =~= hv.take(i - 1));
        }
        if below {
            return Some((c, len));
        }
        i -= 1;
    }
    None
}

pub open spec fn opt_int(o: Option<usize>) -> Option<int> {
    match o {
        Some(v) => Some(v as int),
        None => None,
    }
}

/// A line without the line feeds and carriage returns that end it.
pub open spec fn without_line_end(s: Seq<char>) -> Seq<char>
    decreases s.len(),
{
    if s.len() > 0 && (s.last() == '\n' || s.last() == '\r') {
        without_line_end(s.drop_last())
    } else {
        s
    }
}

/// The line looked at `k`-th when searching `n` lines from line `from`,
/// wrapping around: forwards from `from`, or backwards from it; from the
/// first (or last) line when `from` is past the end.
pub open spec fn rotated_line(n: int, from: int, backwards: bool, k: int) -> int {
    if !backwards {
        let start = if from < n { from } else { 0 };
        (start + k) % n
    } else {
        let start = if from < n { n - 1 - from } else { 0 };
        n - 1 - (start + k) % n
    }
}

/// The first match found looking at the lines in search order from the
/// `k`-th on: on the starting line only after the cursor (before it, when
/// searching backwards), the nearest one in the search direction.
pub open spec fn search_from(
    lines: Seq<Seq<char>>,
    re: Option<Seq<char>>,
    case_sensitive: bool,
    needle: Seq<char>,
    from_line: int,
    from_col: int,
    backwards: bool,
    k: int,
) -> Option<(int, int, int)>
    decreases lines.len() - k,
{
    if k < 0 || k >= lines.len() {
        None
    } else {
        let idx = rotated_line(lines.len() as int, from_line, backwards, k);
        let h = line_hits(re, case_sensitive, without_line_end(lines[idx]), needle);
        let pick = if backwards {
            last_hit(h, if idx == from_line { Some(from_col) } else { None })
        } else {
            first_hit(h, if idx == from_line { Some(from_col) } else { None }, None)
        };
        match pick {
            Some((c, len)) => Some((idx, c, len)),
            None => search_from(lines, re, case_sensitive, needle, from_line, from_col, backwards, k + 1),
        }
    }
}

proof fn lemma_first_hit_is_a_hit(h: Seq<(int, int)>, lo: Option<int>, hi: Option<int>)
    ensures
        first_hit(h, lo, hi) matches Some(x) ==> h.contains(x) && (lo matches Some(a) ==> x.0 > a) && (hi matches Some(b)
            ==> x.0 < b),
    decreases h.len(),
{
    if h.len() > 0 {
        lemma_first_hit_is_a_hit(h.drop_first(), lo, hi);
        if let Some(x) = first_hit(h.drop_first(), lo, hi) {
            if h.drop_first().contains(x) {
                let i = choose|i: int| 0 <= i < h.drop_first().len() && h.drop_first()[i] == x;
                assert(h[i + 1] == x);
            }
        }
        assert(h[0] == h[0]);
    }
}

proof fn lemma_last_hit_is_a_hit(h: Seq<(int, int)>, hi: Option<int>)
    ensures
        last_hit(h, hi) matches Some(x) ==> h.contains(x) && (hi matches Some(b) ==> x.0 < b),
    decreases h.len(),
{
    if h.len() > 0 {
        lemma_last_hit_is_a_hit(h.drop_last(), hi);
        if let Some(x) = last_hit(h.drop_last(), hi) {
            if h.drop_last().contains(x) {
                let i = choose|i: int| 0 <= i < h.drop_last().len() && h.drop_last()[i] == x;
                assert(h[i] == x);
            }
        }
        assert(h[h.len() - 1] == h.last());
    }
}

proof fn lemma_first_hit_after(h: Seq<(int, int)>, a: Option<int>, x: (int, int))
    requires
        h.contains(x),
        a matches Some(v) ==> x.0 > v,
    ensures
        first_hit(h, a, None) is Some,
    decreases h.len(),
{
    let i = choose|i: int| 0 <= i < h.len() && h[i] == x;
    if i > 0 {
        assert(h.drop_first()[i - 1] == x);
        lemma_first_hit_after(h.drop_first(), a, x);
    }
}

proof fn lemma_last_hit_before(h: Seq<(int, int)>, b: Option<int>, x: (int, int))
    requires
        h.contains(x),
        b matches Some(v) ==> x.0 < v,
    ensures
        last_hit(h, b) is Some,
    decreases h.len(),
{
    let i = choose|i: int| 0 <= i < h.len() && h[i] == x;
    if i < h.len() - 1 {
        assert(h.drop_last()[i] == x);
        lemma_last_hit_before(h.drop_last(), b, x);
    }
}

proof fn lemma_rotated_in_range(n: int, from: int, backwards: bool, k: int)
    requires
        n > 0,
        0 <= from,
        0 <= k,
    ensures
        0 <= rotated_line(n, from, backwards, k) < n,
{
    let start = if !backwards {
        if from < n { from } else { 0 }
    } else {
        if from < n { n - 1 - from } else { 0 }
    };
    vstd::arithmetic::div_mod::lemma_mod_bound(start + k, n);
}

proof fn lemma_rotated_reaches(n: int, from: int, backwards: bool, l: int) -> (k: int)
    requires
        0 <= l < n,
        0 <= from,
    ensures
        0 <= k < n,
        rotated_line(n, from, backwards, k) == l,
{
    let start = if !backwards {
        if from < n { from } else { 0 }
    } else {
        if from < n { n - 1 - from } else { 0 }
    };
    let target = if !backwards { l } else { n - 1 - l };
    let k = if target >= start { target - start } else { target - start + n };
    vstd::arithmetic::div_mod::lemma_small_mod(target as nat, n as nat);
    if target < start {
        vstd::arithmetic::div_mod::lemma_mod_add_multiples_vanish(target, n);
        assert(start + k == n + target);
    }
    k
}

proof fn lemma_search_sound(
    lines: Seq<Seq<char>>,
    re: Option<Seq<char>>,
    cs: bool,
    needle: Seq<char>,
    fl: int,
    fc: int,
    bw: bool,
    k: int,
)
    requires
        0 <= fl,
        0 <= k,
    ensures
        search_from(lines, re, cs, needle, fl, fc, bw, k) matches Some((l, c, len)) ==> 0 <= l < lines.len() && line_hits(
            re,
            cs,
            without_line_end(lines[l]),
            needle,
        ).contains((c, len)) && (l == fl ==> if bw { c < fc } else { c > fc }),
    decreases lines.len() - k,
{
    if k < lines.len() {
        let idx = rotated_line(lines.len() as int, fl, bw, k);
        lemma_rotated_in_range(lines.len() as int, fl, bw, k);
        let h = line_hits(re, cs, without_line_end(lines[idx]), needle);
        lemma_first_hit_is_a_hit(h, if idx == fl { Some(fc) } else { None }, None);
        lemma_last_hit_is_a_hit(h, if idx == fl { Some(fc) } else { None });
        lemma_search_sound(lines, re, cs, needle, fl, fc, bw, k + 1);
    }
}

proof fn lemma_search_none(
    lines: Seq<Seq<char>>,
    re: Option<Seq<char>>,
    cs: bool,
    needle: Seq<char>,
    fl: int,
    fc: int,
    bw: bool,
    k: int,
    j: int,
)
    requires
        0 <= k <= j < lines.len(),
        search_from(lines, re, cs, needle, fl, fc, bw, k) is None,
    ensures
        ({
            let idx = rotated_line(lines.len() as int, fl, bw, j);
            let h = line_hits(re, cs, without_line_end(lines[idx]), needle);
            let lim = if idx == fl { Some(fc) } else { None };
            if bw { last_hit(h, lim) is None } else { first_hit(h, lim, None) is None }
        }),
    decreases j - k,
{
    if k < j {
        lemma_search_none(lines, re, cs, needle, fl, fc, bw, k + 1, j);
    }
}

/// What a search finds is a match: a hit on the line it names, past the
/// cursor (before it, searching backwards) when that is the cursor's line.
pub proof fn law_search_finds_a_match(
    lines: Seq<Seq<char>>,
    re: Option<Seq<char>>,
    case_sensitive: bool,
    needle: Seq<char>,
    from_line: int,
    from_col: int,
    backwards: bool,
)
    requires
        0 <= from_line,
    ensures
        search_from(lines, re, case_sensitive, needle, from_line, from_col, backwards, 0) matches Some((l, c, len)) ==> 0
            <= l < lines.len() && line_hits(re, case_sensitive, without_line_end(lines[l]), needle).contains((c, len)) && (l
            == from_line ==> if backwards { c < from_col } else { c > from_col }),
{
    lemma_search_sound(lines, re, case_sensitive, needle, from_line, from_col, backwards, 0);
}

/// A search misses no match: when some line has a hit (on the cursor's own
/// line, one past the cursor, or before it searching backwards), the search
/// finds something.
pub proof fn law_search_misses_no_match(
    lines: Seq<Seq<char>>,
    re: Option<Seq<char>>,
    case_sensitive: bool,
    needle: Seq<char>,
    from_line: int,
    from_col: int,
    backwards: bool,
    l: int,
    hit: (int, int),
)
    requires
        0 <= from_line,
        0 <= l < lines.len(),
        line_hits(re, case_sensitive, without_line_end(lines[l]), needle).contains(hit),
        l == from_line ==> if backwards { hit.0 < from_col } else { hit.0 > from_col },
    ensures
        search_from(lines, re, case_sensitive, needle, from_line, from_col, backwards, 0) is Some,
{
    let n = lines.len() as int;
    let k = lemma_rotated_reaches(n, from_line, backwards, l);
    let h = line_hits(re, case_sensitive, without_line_end(lines[l]), needle);
    let lim = if l == from_line { Some(from_col) } else { None };
    if backwards {
        lemma_last_hit_before(h, lim, hit);
    } else {
        lemma_first_hit_after(h, lim, hit);
    }
    if search_from(lines, re, case_sensitive, needle, from_line, from_col, backwards, 0) is None {
        lemma_search_none(lines, re, case_sensitive, needle, from_line, from_col, backwards, 0, k);
    }
}

/// The regex a search uses: compiled from `regex_source` when regular
/// expressions are on and the regex crate accepts it; otherwise the search
/// is for the literal text.
pub open spec fn search_regex(pattern: Seq<char>, case_sensitive: bool, use_regex: bool) -> Option<Seq<char>> {
    if use_regex && regex_compiles(regex_source(pattern, case_sensitive)) {
        Some(regex_source(pattern, case_sensitive))
    } else {
        None
    }
}

fn compile_search(pattern: &str, case_sensitive: bool) -> (r: Result<Pattern, String>)
    ensures
        r is Ok <==> regex_compiles(regex_source(pattern@, case_sensitive)),
        r matches Ok(p) ==> p@ == regex_source(pattern@, case_sensitive),
        r matches Err(e) ==> e@ == regex_error_text(regex_source(pattern@, case_sensitive)),
{
    if case_sensitive {
        Pattern::compile(pattern)
    } else {
        let mut src: Vec<char> = Vec::new();
        push_str(&mut src, "(?i)");
        push_str(&mut src, pattern);
        let s = string_from_chars(src.as_slice());
        Pattern::compile(s.as_str())
    }
}

/// Find the next match of `pattern` in `lines` from `from`, wrapping around
/// (backwards when `backwards`): its position and length in characters.
/// An invalid regular expression is searched for as literal text.
pub fn find_in_lines(
    lines: &[String],
    from: Pos,
    pattern: &str,
    backwards: bool,
    case_sensitive: bool,
    use_regex: bool,
) -> (r: Option<(Pos, usize)>)
    ensures
        match search_from(
            texts(lines@),
            search_regex(pattern@, case_sensitive, use_regex),
            case_sensitive,
            pattern@,
            from.line as int,
            from.col as int,
            backwards,
            0,
        ) {
            Some((l, c, len)) => r matches Some((p, m)) && p.line == l && p.col == c && m == len,
            None => r is None,
        },
{
    let re: Option<Pattern> = if use_regex {
        match compile_search(pattern, case_sensitive) {
            Ok(p) => Some(p),
            Err(_) => None,
        }
    } else {
        None
    };
    let ghost ls = texts(lines@);
    let ghost rs = search_regex(pattern@, case_sensitive, use_regex);
    assert(pattern_source(re) == rs);
    let n = lines.len();
    let mut k: usize = 0;
    while k < n
        invariant
            n == lines@.len(),
            k <= n,
            ls == texts(lines@),
            pattern_source(re) == rs,
            rs == search_regex(pattern@, case_sensitive, use_regex),
            search_from(ls, rs, case_sensitive, pattern@, from.line as int, from.col as int, backwards, 0)
                == search_from(ls, rs, case_sensitive, pattern@, from.line as int, from.col as int, backwards, k as int),
        decreases n - k,
    {
        let start = if !backwards {
            if from.line < n { from.line } else { 0 }
        } else {
            if from.line < n { n - 1 - from.line } else { 0 }
        };
        let j = if k < n - start { start + k } else { k - (n - start) };
        assert((start + k) % (n as int) == j) by (nonlinear_arith)
            requires
                start < n,
                k < n,
                j == (if k < n - start { start + k } else { k - (n - start) }),
        {
            if k < n - start {
                assert(0 <= start + k < n);
            } else {
                assert(start + k == j + n);
            }
        }
        let idx = if !backwards { j } else { n - 1 - j };
        assert(idx as int == rotated_line(n as int, from.line as int, backwards, k as int));
        assert(idx as int == rotated_line(n as int, from.line as int, backwards, k as int));
        let raw = str_chars(lines[idx].as_str());
        let mut end = raw.len();
        proof {
            assert(raw@.take(raw@.len() as int) =~= raw@);
        }
        while end > 0 && (raw[end - 1] == '\n' || raw[end - 1] == '\r')
            invariant
                end <= raw@.len(),
                without_line_end(raw@) == without_line_end(raw@.take(end as int)),
            decreases end,
        {
            proof {
                assert(raw@.take(end as int).drop_last() =~= raw@.take(end - 1));
            }
            end -= 1;
        }
        let line = string_from_chars(crate::text::sub_chars(raw.as_slice(), 0, end).as_slice());
        assert(line@ =~= without_line_end(ls[idx as int]));
        let h = hits_on(&re, case_sensitive, line.as_str(), pattern);
        let pick = if backwards {
            pick_last(&h, if idx == from.line { Some(from.col) } else { None })
        } else {
            pick_first(&h, if idx == from.line { Some(from.col) } else { None }, None)
        };
        proof {
            assert(hits_view(h@) == line_hits(rs, case_sensitive, without_line_end(ls[idx as int]), pattern@));
        }
        match pick {
            Some((c, len)) => {
                proof {
                    let hv = hits_view(h@);
                    let lo: Option<int> = if idx == from.line { Some(from.col as int) } else { None };
                    if backwards {
                        assert(last_hit(hv, lo) == Some((c as int, len as int)));
                    } else {
                        assert(first_hit(hv, lo, None) == Some((c as int, len as int)));
                    }
                    assert(search_from(ls, rs, case_sensitive, pattern@, from.line as int, from.col as int, backwards, k as int)
                        == Some((idx as int, c as int, len as int)));
                    assert(search_from(texts(lines@), search_regex(pattern@, case_sensitive, use_regex), case_sensitive, pattern@, from.line as int, from.col as int, backwards, 0)
                        == Some((idx as int, c as int, len as int)));
                }
                let p = Pos::new(idx, c);
                assert(p.line == idx && p.col == c);
                return Some((p, len));
            },
            None => {},
        }
        k += 1;
    }
    None
}

/// The first match at or after line `k` of the text `t`, on line
/// `from_line` only at or after column `from_col`.
pub open spec fn forward_hit(
    t: Seq<char>,
    re: Option<Seq<char>>,
    case_sensitive: bool,
    needle: Seq<char>,
    from_line: int,
    from_col: int,
    k: int,
) -> Option<(int, int, int)>
    decreases rope_line_count(t) - k,
{
    if k < 0 || k >= rope_line_count(t) {
        None
    } else {
        let h = line_hits(re, case_sensitive, line_of(t, k as nat), needle);
        match first_hit(h, if k == from_line && from_col > 0 { Some(from_col - 1) } else { None }, None) {
            Some((c, len)) => Some((k, c, len)),
            None => forward_hit(t, re, case_sensitive, needle, from_line, from_col, k + 1),
        }
    }
}

/// The first match after wrapping around: on lines `k` up to the one the
/// replace began on (or the last line), and on that line only before
/// column `start_col`.
pub open spec fn wrapped_hit(
    t: Seq<char>,
    re: Option<Seq<char>>,
    case_sensitive: bool,
    needle: Seq<char>,
    start_line: int,
    start_col: int,
    k: int,
) -> Option<(int, int, int)>
    decreases (if start_line < rope_line_count(t) - 1 { start_line } else { rope_line_count(t) - 1 }) + 1 - k,
{
    let last = if start_line < rope_line_count(t) - 1 { start_line } else { rope_line_count(t) - 1 };
    if k < 0 || k > last {
        None
    } else {
        let h = line_hits(re, case_sensitive, line_of(t, k as nat), needle);
        match first_hit(h, None, if k < start_line { None } else { Some(start_col) }) {
            Some((c, len)) => Some((k, c, len)),
            None => wrapped_hit(t, re, case_sensitive, needle, start_line, start_col, k + 1),
        }
    }
}

/// The next match for a replace in the text `t` (nano's search with
/// wraparound): the first one at or after `from`; with none there, unless
/// the search has wrapped already or is confined to a region, the first
/// one from the top up to where the replace began (`start`), which wraps
/// it. A match at or past the region's end is none. Gives the match's
/// line, column and length, and whether the search has wrapped.
pub open spec fn replace_target(
    t: Seq<char>,
    re: Option<Seq<char>>,
    case_sensitive: bool,
    needle: Seq<char>,
    from: (int, int),
    start: (int, int),
    wrapped: bool,
    region_end: Option<(int, int)>,
) -> Option<(int, int, int, bool)> {
    match forward_hit(t, re, case_sensitive, needle, from.0, from.1, from.0) {
        Some((l, c, len)) => match region_end {
            Some((el, ec)) => if l > el || (l == el && c >= ec) {
                None
            } else {
                Some((l, c, len, wrapped))
            },
            None => Some((l, c, len, wrapped)),
        },
        None => if wrapped || region_end is Some {
            None
        } else {
            match wrapped_hit(t, re, case_sensitive, needle, start.0, start.1, 0) {
                Some((l, c, len)) => Some((l, c, len, true)),
                None => None,
            }
        },
    }
}

pub open spec fn opt_pos(p: Option<Pos>) -> Option<(int, int)> {
    match p {
        Some(q) => Some((q.line as int, q.col as int)),
        None => None,
    }
}

/// Find the next match of `pattern` in `buf` for a replace (see
/// `replace_target`): its position, its length in characters, and whether
/// the search has now wrapped. An invalid regular expression is an error,
/// with the regex crate's message.
pub fn find_next_match_for_replace(
    buf: &Buffer,
    from: Pos,
    session_start: Pos,
    already_wrapped: bool,
    region_end: Option<Pos>,
    pattern: &str,
    case_sensitive: bool,
    use_regex: bool,
) -> (r: Result<Option<(Pos, usize, bool)>, String>)
    ensures
        if use_regex && !regex_compiles(regex_source(pattern@, case_sensitive)) {
            r matches Err(e) && e@ == regex_error_text(regex_source(pattern@, case_sensitive))
        } else {
            match replace_target(
                buf.text(),
                search_regex(pattern@, case_sensitive, use_regex),
                case_sensitive,
                pattern@,
                (from.line as int, from.col as int),
                (session_start.line as int, session_start.col as int),
                already_wrapped,
                opt_pos(region_end),
            ) {
                Some((l, c, len, w)) => r matches Ok(Some((p, m, w2))) && p.line == l && p.col == c && m == len && w2
                    == w,
                None => r matches Ok(None),
            }
        },
{
    let re: Option<Pattern> = if use_regex {
        match compile_search(pattern, case_sensitive) {
            Ok(p) => Some(p),
            Err(e) => {
                return Err(e);
            },
        }
    } else {
        None
    };
    let ghost t = buf.text();
    let ghost rs = search_regex(pattern@, case_sensitive, use_regex);
    assert(pattern_source(re) == rs);
    let n = buf.line_count();
    let mut k: usize = from.line;
    while k < n
        invariant
            n == rope_line_count(t),
            t == buf.text(),
            pattern_source(re) == rs,
            rs == search_regex(pattern@, case_sensitive, use_regex),
            use_regex ==> regex_compiles(regex_source(pattern@, case_sensitive)),
            forward_hit(t, rs, case_sensitive, pattern@, from.line as int, from.col as int, from.line as int)
                == forward_hit(t, rs, case_sensitive, pattern@, from.line as int, from.col as int, k as int),
        decreases n - k,
    {
        let line = buf.line(k);
        let h = hits_on(&re, case_sensitive, line.as_str(), pattern);
        let lo = if k == from.line && from.col > 0 { Some(from.col - 1) } else { None };
        match pick_first(&h, lo, None) {
            Some((c, len)) => {
                proof {
                    assert(forward_hit(t, rs, case_sensitive, pattern@, from.line as int, from.col as int, k as int)
                        == Some((k as int, c as int, len as int)));
                }
                let pos = Pos::new(k, c);
                match region_end {
                    Some(end) => {
                        if pos.line > end.line || (pos.line == end.line && pos.col >= end.col) {
                            return Ok(None);
                        }
                    },
                    None => {},
                }
                return Ok(Some((pos, len, already_wrapped)));
            },
            None => {},
        }
        k += 1;
    }
    if already_wrapped || region_end.is_some() {
        return Ok(None);
    }
    let last = if session_start.line < n - 1 { session_start.line } else { n - 1 };
    let ghost fh = forward_hit(t, rs, case_sensitive, pattern@, from.line as int, from.col as int, from.line as int);
    assert(fh is None);
    let end = last + 1;
    let mut k: usize = 0;
    while k < end
        invariant
            end == last + 1,
            fh is None,
            fh == forward_hit(t, rs, case_sensitive, pattern@, from.line as int, from.col as int, from.line as int),
            !already_wrapped,
            region_end is None,
            n == rope_line_count(t),
            n >= 1,
            t == buf.text(),
            last == (if session_start.line < n - 1 { session_start.line } else { (n - 1) as usize }),
            pattern_source(re) == rs,
            rs == search_regex(pattern@, case_sensitive, use_regex),
            use_regex ==> regex_compiles(regex_source(pattern@, case_sensitive)),
            wrapped_hit(t, rs, case_sensitive, pattern@, session_start.line as int, session_start.col as int, 0)
                == wrapped_hit(t, rs, case_sensitive, pattern@, session_start.line as int, session_start.col as int, k as int),
        decreases end - k,
    {
        let line = buf.line(k);
        let h = hits_on(&re, case_sensitive, line.as_str(), pattern);
        let hi = if k < session_start.line { None } else { Some(session_start.col) };
        match pick_first(&h, None, hi) {
            Some((c, len)) => {
                proof {
                    assert(wrapped_hit(t, rs, case_sensitive, pattern@, session_start.line as int, session_start.col as int, k as int)
                        == Some((k as int, c as int, len as int)));
                }
                return Ok(Some((Pos::new(k, c), len, true)));
            },
            None => {},
        }
        k += 1;
    }
    Ok(None)
}

/// A replacement template with `\1`-`\9` expanded, reading from index `i`:
/// a backreference to a group the pattern has stands for that group's text
/// (nothing, when the group took no part in the match); any other `\` is
/// copied as it is.
pub open spec fn expanded_from(t: Seq<char>, groups: Seq<Option<Seq<char>>>, i: int) -> Seq<char>
    decreases t.len() - i,
{
    if i < 0 || i >= t.len() {
        Seq::empty()
    } else if t[i] == '\\' && i + 1 < t.len() && '1' <= t[i + 1] && t[i + 1] <= '9'
        && (t[i + 1] as int) - ('0' as int) < groups.len() {
        let g = groups[(t[i + 1] as int) - ('0' as int)];
        (match g {
            Some(m) => m,
            None => Seq::empty(),
        }) + expanded_from(t, groups, i + 2)
    } else {
        seq![t[i]] + expanded_from(t, groups, i + 1)
    }
}

/// Expand nano-style `\1`-`\9` backreferences in `template` with the
/// captured `groups` (group 0 being the whole match; see `expanded_from`).
pub fn expand_backreferences(template: &str, groups: &[Option<String>]) -> (r: String)
    ensures
        r@ == expanded_from(template@, crate::pattern::groups_text(groups@), 0),
{
    let chars = str_chars(template);
    let ghost gs = crate::pattern::groups_text(groups@);
    let n = chars.len();
    let mut out: Vec<char> = Vec::new();
    let mut i: usize = 0;
    while i < n
        invariant
            n == chars@.len(),
            chars@ == template@,
            gs == crate::pattern::groups_text(groups@),
            i <= n,
            out@ + expanded_from(chars@, gs, i as int) == expanded_from(chars@, gs, 0),
        decreases n - i,
    {
        if chars[i] == '\\' && i + 1 < n && '1' <= chars[i + 1] && chars[i + 1] <= '9' {
            let d = (chars[i + 1] as u32 - '0' as u32) as usize;
            if d < groups.len() {
                let ghost before = out@;
                match &groups[d] {
                    Some(m) => {
                        push_str(&mut out, m.as_str());
                    },
                    None => {},
                }
                proof {
                    assert(gs[d as int] == match groups@[d as int] {
                        Some(t) => Some(t@),
                        None => None::<Seq<char>>,
                    });
                    assert(before + expanded_from(chars@, gs, i as int) =~= out@ + expanded_from(chars@, gs, i + 2));
                }
                i += 2;
                continue;
            }
        }
        let ghost before = out@;
        out.push(chars[i]);
        proof {
            assert(before + expanded_from(chars@, gs, i as int) =~= out@ + expanded_from(chars@, gs, i + 1));
        }
        i += 1;
    }
    proof {
        assert(out@ + Seq::<char>::empty() =~= out@);
    }
    string_from_chars(out.as_slice())
}

/// The text a replace puts in place of the match of length `len` at `pos`
/// in the text `t`: for a literal search the replacement as it is; for a
/// regex search the replacement with `\1`-`\9` expanded from the groups
/// the pattern captures in the matched text (the replacement as it is when
/// the pattern does not compile or match there).
pub open spec fn replacement_text(
    t: Seq<char>,
    search: Seq<char>,
    replacement: Seq<char>,
    pos: Pos,
    len: int,
    case_sensitive: bool,
    use_regex: bool,
) -> Seq<char> {
    let src = regex_source(search, case_sensitive);
    if !use_regex || !regex_compiles(src) {
        replacement
    } else {
        let line = line_of(t, pos.line as nat);
        let start = if pos.col <= line.len() { pos.col as int } else { line.len() as int };
        let end = if pos.col + len < line.len() { pos.col + len } else { line.len() as int };
        match regex_captures(src, line.subrange(start, end)) {
            Some(g) => expanded_from(replacement, g, 0),
            None => replacement,
        }
    }
}

/// Build the text to insert for one match of a replace (see
/// `replacement_text`).
pub fn expand_replacement(
    buf: &Buffer,
    search: &str,
    replacement: &str,
    match_pos: Pos,
    match_len: usize,
    case_sensitive: bool,
    use_regex: bool,
) -> (r: String)
    ensures
        r@ == replacement_text(buf.text(), search@, replacement@, match_pos, match_len as int, case_sensitive, use_regex),
{
    if !use_regex {
        return string_from_chars(str_chars(replacement).as_slice());
    }
    let re = match compile_search(search, case_sensitive) {
        Ok(p) => p,
        Err(_) => {
            return string_from_chars(str_chars(replacement).as_slice());
        },
    };
    let line = str_chars(buf.line(match_pos.line).as_str());
    let n = line.len();
    let start = if match_pos.col <= n { match_pos.col } else { n };
    let end = if match_pos.col <= n && match_len < n - match_pos.col { match_pos.col + match_len } else { n };
    let matched = string_from_chars(crate::text::sub_chars(line.as_slice(), start, end).as_slice());
    match re.captures(matched.as_str()) {
        Some(groups) => expand_backreferences(replacement, groups.as_slice()),
        None => string_from_chars(str_chars(replacement).as_slice()),
    }
}

} // verus!
