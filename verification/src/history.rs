//! Search/Replace/Execute history: a list per category, oldest first, built
//! up during the session, and (when `historylog` is on) read from and
//! written to nano's `search_history` file format: three blank-line-separated
//! sections (search, replace, execute), each capped at 100 entries, with a
//! repeated entry moved to the end rather than repeated.

use crate::text::{lemma_pieces_nonempty, pieces, push_str, str_chars, str_eq, string_from_chars, strip_cr};
use vstd::prelude::*;

verus! {

/// The most entries a history list keeps.
pub const MAX_HISTORY: usize = 100;

/// The texts of a list of strings.
pub open spec fn texts(v: Seq<String>) -> Seq<Seq<char>> {
    v.map_values(|s: String| s@)
}

/// The index of the first entry equal to `text`, if any.
pub open spec fn first_index(list: Seq<Seq<char>>, text: Seq<char>) -> Option<int>
    decreases list.len(),
{
    if list.len() == 0 {
        None
    } else if list[0] == text {
        Some(0)
    } else {
        match first_index(list.drop_first(), text) {
            Some(i) => Some(i + 1),
            None => None,
        }
    }
}

/// `list` after recording `text`: an empty text changes nothing; otherwise an
/// earlier equal entry is removed, `text` goes at the end, and the oldest
/// entry goes when there are more than `MAX_HISTORY`.
pub open spec fn added(list: Seq<Seq<char>>, text: Seq<char>) -> Seq<Seq<char>> {
    if text.len() == 0 {
        list
    } else {
        let l1 = match first_index(list, text) {
            Some(i) => list.remove(i),
            None => list,
        };
        let l2 = l1.push(text);
        if l2.len() > MAX_HISTORY {
            l2.drop_first()
        } else {
            l2
        }
    }
}

/// No entry occurs twice.
pub open spec fn distinct(list: Seq<Seq<char>>) -> bool {
    forall|i: int, j: int| 0 <= i < j < list.len() ==> list[i] != list[j]
}

proof fn lemma_first_index(list: Seq<Seq<char>>, text: Seq<char>)
    ensures
        match first_index(list, text) {
            Some(i) => 0 <= i < list.len() && list[i] == text && forall|j: int| 0 <= j < i ==> list[j] != text,
            None => forall|j: int| 0 <= j < list.len() ==> list[j] != text,
        },
    decreases list.len(),
{
    if list.len() > 0 && list[0] != text {
        lemma_first_index(list.drop_first(), text);
        match first_index(list.drop_first(), text) {
            Some(i) => {
                assert forall|j: int| 0 <= j < i + 1 implies list[j] != text by {
                    if j > 0 {
                        assert(list[j] == list.drop_first()[j - 1]);
                    }
                }
            },
            None => {
                assert forall|j: int| 0 <= j < list.len() implies list[j] != text by {
                    if j > 0 {
                        assert(list[j] == list.drop_first()[j - 1]);
                    }
                }
            },
        }
    }
}

/// Recording an entry keeps a history without repeats and within its cap,
/// and a non-empty entry becomes the newest one.
pub proof fn law_added_keeps_history_well_formed(list: Seq<Seq<char>>, text: Seq<char>)
    requires
        distinct(list),
        list.len() <= MAX_HISTORY,
    ensures
        distinct(added(list, text)),
        added(list, text).len() <= MAX_HISTORY,
        text.len() > 0 ==> added(list, text).last() == text,
        text.len() > 0 ==> added(list, text).len() == if list.contains(text) { list.len() } else if list.len()
            == MAX_HISTORY { list.len() } else { list.len() + 1 },
{
    if text.len() > 0 {
        lemma_first_index(list, text);
        let l1 = match first_index(list, text) {
            Some(i) => list.remove(i),
            None => list,
        };
        assert(forall|j: int| 0 <= j < l1.len() ==> l1[j] != text) by {
            match first_index(list, text) {
                Some(i) => {
                    assert forall|j: int| 0 <= j < l1.len() implies l1[j] != text by {
                        if j < i {
                            assert(l1[j] == list[j]);
                        } else {
                            assert(l1[j] == list[j + 1]);
                        }
                    }
                },
                None => {},
            }
        }
        assert(distinct(l1)) by {
            match first_index(list, text) {
                Some(i) => {
                    assert forall|a: int, b: int| 0 <= a < b < l1.len() implies l1[a] != l1[b] by {
                        let a2 = if a < i { a } else { a + 1 };
                        let b2 = if b < i { b } else { b + 1 };
                        assert(l1[a] == list[a2]);
                        assert(l1[b] == list[b2]);
                    }
                },
                None => {},
            }
        }
        let l2 = l1.push(text);
        assert(distinct(l2)) by {
            assert forall|a: int, b: int| 0 <= a < b < l2.len() implies l2[a] != l2[b] by {
                if b == l2.len() - 1 {
                    assert(l2[a] == l1[a]);
                } else {
                    assert(l2[a] == l1[a]);
                    assert(l2[b] == l1[b]);
                }
            }
        }
        if l2.len() > MAX_HISTORY {
            let l3 = l2.drop_first();
            assert forall|a: int, b: int| 0 <= a < b < l3.len() implies l3[a] != l3[b] by {
                assert(l3[a] == l2[a + 1]);
                assert(l3[b] == l2[b + 1]);
            }
        }
        match first_index(list, text) {
            Some(i) => {
                assert(list.contains(text));
            },
            None => {
                assert(!list.contains(text));
            },
        }
    }
}

/// The search, replace and execute histories.
#[derive(Debug)]
pub struct HistoryStore {
    pub search: Vec<String>,
    pub replace: Vec<String>,
    pub execute: Vec<String>,
    /// An entry was recorded since the histories were created or read.
    pub changed: bool,
}

impl HistoryStore {
    fn add(list: &mut Vec<String>, text: &str)
        ensures
            texts(final(list)@) == added(texts(old(list)@), text@),
    {
        let tc = str_chars(text);
        if tc.len() == 0 {
            return;
        }
        let ghost before = texts(list@);
        let mut i: usize = 0;
        while i < list.len() && !str_eq(list[i].as_str(), text)
            invariant
                i <= list@.len(),
                before == texts(list@),
                forall|j: int| 0 <= j < i ==> list@[j]@ != text@,
            decreases list.len() - i,
        {
            i += 1;
        }
        let found: Option<usize> = if i < list.len() { Some(i) } else { None };
        proof {
            lemma_first_index(before, text@);
            match first_index(before, text@) {
                Some(k) => {
                    assert(before[k] == list@[k]@);
                },
                None => {},
            }
            match found {
                Some(k) => {
                    assert(before[k as int] == text@);
                    assert forall|j: int| 0 <= j < k implies before[j] != text@ by {
                        assert(before[j] == list@[j]@);
                    }
                },
                None => {
                    assert forall|j: int| 0 <= j < before.len() implies before[j] != text@ by {
                        assert(before[j] == list@[j]@);
                    }
                },
            }
        }
        let ghost mid_expected = match first_index(before, text@) {
            Some(k) => before.remove(k),
            None => before,
        };
        if let Some(k) = found {
            list.remove(k);
        }
        proof {
            assert(texts(list@) =~= mid_expected);
        }
        list.push(string_from_chars(tc.as_slice()));
        proof {
            assert(texts(list@) =~= mid_expected.push(text@));
        }
        if list.len() > MAX_HISTORY {
            list.remove(0);
            proof {
                assert(texts(list@) =~= mid_expected.push(text@).drop_first());
            }
        }
    }
}

impl HistoryStore {
    /// Empty histories.
    pub fn new() -> (h: HistoryStore)
        ensures
            h.search@.len() == 0,
            h.replace@.len() == 0,
            h.execute@.len() == 0,
            !h.changed,
    {
        HistoryStore { search: Vec::new(), replace: Vec::new(), execute: Vec::new(), changed: false }
    }

    /// Record a search string.
    pub fn add_search(&mut self, text: &str)
        ensures
            texts(final(self).search@) == added(texts(old(self).search@), text@),
            final(self).replace@ == old(self).replace@,
            final(self).execute@ == old(self).execute@,
            final(self).changed,
    {
        HistoryStore::add(&mut self.search, text);
        self.changed = true;
    }

    /// Record a replacement string.
    pub fn add_replace(&mut self, text: &str)
        ensures
            texts(final(self).replace@) == added(texts(old(self).replace@), text@),
            final(self).search@ == old(self).search@,
            final(self).execute@ == old(self).execute@,
            final(self).changed,
    {
        HistoryStore::add(&mut self.replace, text);
        self.changed = true;
    }

    /// Record an executed command.
    pub fn add_execute(&mut self, text: &str)
        ensures
            texts(final(self).execute@) == added(texts(old(self).execute@), text@),
            final(self).search@ == old(self).search@,
            final(self).replace@ == old(self).replace@,
            final(self).changed,
    {
        HistoryStore::add(&mut self.execute, text);
        self.changed = true;
    }
}

/// Which list a history file's line goes to, and the lists so far: a blank
/// line moves to the next section (search, replace, then execute).
pub type HistoryState = (u8, Seq<Seq<char>>, Seq<Seq<char>>, Seq<Seq<char>>);

pub open spec fn read_line(st: HistoryState, line: Seq<char>) -> HistoryState {
    let (section, s, r, e) = st;
    if line.len() == 0 {
        (if section < 255 { (section + 1) as u8 } else { 255u8 }, s, r, e)
    } else if section == 0 {
        (section, added(s, line), r, e)
    } else if section == 1 {
        (section, s, added(r, line), e)
    } else {
        (section, s, r, added(e, line))
    }
}

/// The state after the lines (each ended by a line feed) `lines`.
pub open spec fn read_lines(lines: Seq<Seq<char>>) -> HistoryState
    decreases lines.len(),
{
    if lines.len() == 0 {
        (0u8, Seq::empty(), Seq::empty(), Seq::empty())
    } else {
        read_line(read_lines(lines.drop_last()), strip_cr(lines.last()))
    }
}

/// The histories a history file's text holds: its lines (std's `lines`:
/// split after each line feed, a carriage return before it dropped, a final
/// unterminated line kept as it is) read in order.
pub open spec fn read_history(text: Seq<char>) -> HistoryState {
    let p = pieces(text, '\n');
    let st = read_lines(p.drop_last());
    if p.last().len() > 0 {
        read_line(st, p.last())
    } else {
        st
    }
}

/// A history list as its file section: each entry on a line of its own.
pub open spec fn section_text(list: Seq<Seq<char>>) -> Seq<char>
    decreases list.len(),
{
    if list.len() == 0 {
        Seq::empty()
    } else {
        section_text(list.drop_last()) + list.last() + seq!['\n']
    }
}

/// The history file's text: the three sections, each followed by a blank
/// line except the last.
pub open spec fn history_text(s: Seq<Seq<char>>, r: Seq<Seq<char>>, e: Seq<Seq<char>>) -> Seq<char> {
    section_text(s) + seq!['\n'] + section_text(r) + seq!['\n'] + section_text(e)
}

/// A history list that its file section keeps exactly: within the cap, no
/// repeats, and each entry a nonempty line that does not end in a carriage
/// return.
pub open spec fn storable(list: Seq<Seq<char>>) -> bool {
    &&& list.len() <= MAX_HISTORY
    &&& distinct(list)
    &&& forall|i: int|
        0 <= i < list.len() ==> (#[trigger] list[i]).len() > 0 && !list[i].contains('\n') && list[i].last() != '\r'
}

/// The state after the lines `lines`, starting from `st`.
pub open spec fn read_from(st: HistoryState, lines: Seq<Seq<char>>) -> HistoryState
    decreases lines.len(),
{
    if lines.len() == 0 {
        st
    } else {
        read_line(read_from(st, lines.drop_last()), strip_cr(lines.last()))
    }
}

proof fn lemma_read_lines_from(lines: Seq<Seq<char>>)
    ensures
        read_lines(lines) == read_from((0u8, Seq::empty(), Seq::empty(), Seq::empty()), lines),
    decreases lines.len(),
{
    if lines.len() > 0 {
        lemma_read_lines_from(lines.drop_last());
    }
}

proof fn lemma_read_from_append(st: HistoryState, a: Seq<Seq<char>>, b: Seq<Seq<char>>)
    ensures
        read_from(st, a + b) == read_from(read_from(st, a), b),
    decreases b.len(),
{
    if b.len() == 0 {
        assert(a + b =~= a);
    } else {
        assert((a + b).drop_last() =~= a + b.drop_last());
        lemma_read_from_append(st, a, b.drop_last());
    }
}

proof fn lemma_pieces_line(x: Seq<char>, line: Seq<char>)
    requires
        !line.contains('\n'),
    ensures
        pieces(x + line, '\n') == pieces(x, '\n').update(pieces(x, '\n').len() - 1, pieces(x, '\n').last() + line),
    decreases line.len(),
{
    lemma_pieces_nonempty(x, '\n');
    if line.len() == 0 {
        assert(x + line =~= x);
        assert(pieces(x, '\n').last() + line =~= pieces(x, '\n').last());
        assert(pieces(x, '\n').update(pieces(x, '\n').len() - 1, pieces(x, '\n').last()) =~= pieces(x, '\n'));
    } else {
        let l0 = line.drop_last();
        assert(!l0.contains('\n')) by {
            if l0.contains('\n') {
                let j = choose|j: int| 0 <= j < l0.len() && l0[j] == '\n';
                assert(line[j] == '\n');
            }
        }
        lemma_pieces_line(x, l0);
        assert((x + line).drop_last() =~= x + l0);
        assert((x + line).last() == line.last());
        assert(line.last() != '\n') by {
            assert(line[line.len() - 1] == line.last());
        }
        let p = pieces(x, '\n');
        let q = pieces(x + l0, '\n');
        assert(pieces(x + line, '\n') == q.update(q.len() - 1, q.last().push(line.last())));
        assert(q.len() == p.len());
        assert(q.last() == p.last() + l0);
        assert((p.last() + l0).push(line.last()) =~= p.last() + line);
        assert(q.update(q.len() - 1, q.last().push(line.last())) =~= p.update(p.len() - 1, p.last() + line));
    }
}

proof fn lemma_pieces_section(x: Seq<char>, ls: Seq<Seq<char>>)
    requires
        pieces(x, '\n').last() == Seq::<char>::empty(),
        forall|i: int| 0 <= i < ls.len() ==> !(#[trigger] ls[i]).contains('\n'),
    ensures
        pieces(x + section_text(ls), '\n') == pieces(x, '\n').drop_last() + ls + seq![Seq::<char>::empty()],
    decreases ls.len(),
{
    lemma_pieces_nonempty(x, '\n');
    if ls.len() == 0 {
        assert(x + section_text(ls) =~= x);
        assert(pieces(x, '\n').drop_last() + ls + seq![Seq::<char>::empty()] =~= pieces(x, '\n'));
    } else {
        let l0 = ls.drop_last();
        let last = ls.last();
        assert(forall|i: int| 0 <= i < l0.len() ==> l0[i] == ls[i]);
        lemma_pieces_section(x, l0);
        let y = x + section_text(l0);
        assert(!last.contains('\n')) by {
            assert(ls[ls.len() - 1] == last);
        }
        lemma_pieces_line(y, last);
        let py = pieces(y, '\n');
        assert(py.last() == Seq::<char>::empty());
        assert(Seq::<char>::empty() + last =~= last);
        assert(x + section_text(ls) =~= (y + last) + seq!['\n']);
        let z = (y + last) + seq!['\n'];
        assert(z.drop_last() =~= y + last);
        assert(z.last() == '\n');
        assert(pieces(x, '\n').drop_last() + ls + seq![Seq::<char>::empty()] =~= py.update(py.len() - 1, last).push(Seq::<char>::empty()));
    }
}

proof fn lemma_read_section(st: HistoryState, k: u8, ls: Seq<Seq<char>>)
    requires
        k <= 2,
        st.0 == k,
        k == 0 ==> st.1 == Seq::<Seq<char>>::empty(),
        k == 1 ==> st.2 == Seq::<Seq<char>>::empty(),
        k == 2 ==> st.3 == Seq::<Seq<char>>::empty(),
        storable(ls),
    ensures
        read_from(st, ls) == if k == 0 {
            (k, ls, st.2, st.3)
        } else if k == 1 {
            (k, st.1, ls, st.3)
        } else {
            (k, st.1, st.2, ls)
        },
    decreases ls.len(),
{
    if ls.len() > 0 {
        let l0 = ls.drop_last();
        let last = ls.last();
        assert(storable(l0)) by {
            assert forall|i: int| 0 <= i < l0.len() implies (#[trigger] l0[i]).len() > 0 && !l0[i].contains('\n') && l0[i].last() != '\r' by {
                assert(l0[i] == ls[i]);
            }
            assert forall|i: int, j: int| 0 <= i < j < l0.len() implies l0[i] != l0[j] by {
                assert(l0[i] == ls[i] && l0[j] == ls[j]);
            }
        }
        lemma_read_section(st, k, l0);
        assert(ls[ls.len() - 1] == last);
        assert(strip_cr(last) == last);
        lemma_first_index(l0, last);
        if let Some(i) = first_index(l0, last) {
            assert(ls[i] == l0[i]);
        }
        assert(added(l0, last) =~= ls);
    }
}

proof fn lemma_read_blank(st: HistoryState, a: Seq<Seq<char>>)
    ensures
        read_from(st, a + seq![Seq::<char>::empty()]) == read_line(read_from(st, a), Seq::<char>::empty()),
{
    let b = a + seq![Seq::<char>::empty()];
    assert(b.drop_last() =~= a);
    assert(b.last() == Seq::<char>::empty());
    assert(strip_cr(Seq::<char>::empty()) == Seq::<char>::empty());
}

/// A history file read back gives the histories it was written from, when
/// each list is one its section keeps exactly (see `storable`).
#[verifier::rlimit(80)]
pub proof fn law_history_text_reads_back(s: Seq<Seq<char>>, r: Seq<Seq<char>>, e: Seq<Seq<char>>)
    requires
        storable(s),
        storable(r),
        storable(e),
    ensures
        read_history(history_text(s, r, e)) == (2u8, s, r, e),
{
    let empty = Seq::<char>::empty();
    let nl = seq!['\n'];
    assert(forall|i: int| 0 <= i < s.len() ==> !(#[trigger] s[i]).contains('\n'));
    assert(forall|i: int| 0 <= i < r.len() ==> !(#[trigger] r[i]).contains('\n'));
    assert(forall|i: int| 0 <= i < e.len() ==> !(#[trigger] e[i]).contains('\n'));
    let x0 = empty;
    assert(pieces(x0, '\n') == seq![empty]);
    lemma_pieces_section(x0, s);
    let x1 = x0 + section_text(s);
    assert(seq![empty].drop_last() + s =~= s);
    let x2 = x1 + nl;
    assert(x2.drop_last() =~= x1);
    assert(pieces(x2, '\n') == pieces(x1, '\n').push(empty));
    lemma_pieces_section(x2, r);
    let x3 = x2 + section_text(r);
    let x4 = x3 + nl;
    assert(x4.drop_last() =~= x3);
    lemma_pieces_section(x4, e);
    let x5 = x4 + section_text(e);
    assert(x5 =~= history_text(s, r, e));
    let lines = s + seq![empty] + r + seq![empty] + e;
    assert(pieces(x5, '\n') =~= lines + seq![empty]);
    assert(pieces(x5, '\n').drop_last() =~= lines);
    lemma_read_lines_from(lines);
    let init: HistoryState = (0u8, Seq::empty(), Seq::empty(), Seq::empty());
    lemma_read_from_append(init, s + seq![empty] + r + seq![empty], e);
    lemma_read_from_append(init, s + seq![empty], r);
    lemma_read_section(init, 0, s);
    lemma_read_blank(init, s);
    let st1 = read_from(init, s + seq![empty]);
    assert(st1 == (1u8, s, Seq::<Seq<char>>::empty(), Seq::<Seq<char>>::empty()));
    lemma_read_section(st1, 1, r);
    lemma_read_blank(init, s + seq![empty] + r);
    let st2 = read_from(init, s + seq![empty] + r + seq![empty]);
    assert(st2 == (2u8, s, r, Seq::<Seq<char>>::empty()));
    lemma_read_section(st2, 2, e);
}

fn push_section(out: &mut Vec<char>, list: &Vec<String>)
    ensures
        final(out)@ == old(out)@ + section_text(texts(list@)),
{
    let mut i: usize = 0;
    while i < list.len()
        invariant
            i <= list@.len(),
            out@ == old(out)@ + section_text(texts(list@.take(i as int))),
        decreases list.len() - i,
    {
        push_str(out, list[i].as_str());
        out.push('\n');
        proof {
            assert(texts(list@.take(i + 1)).drop_last() =~= texts(list@.take(i as int)));
            assert(texts(list@.take(i + 1)).last() == list@[i as int]@);
            assert(out@ =~= old(out)@ + section_text(texts(list@.take(i + 1))));
        }
        i += 1;
    }
    proof {
        assert(list@.take(list@.len() as int) =~= list@);
    }
}

fn apply_line(st: &mut (u8, Vec<String>, Vec<String>, Vec<String>), line: &[char])
    ensures
        (final(st).0, texts(final(st).1@), texts(final(st).2@), texts(final(st).3@)) == read_line(
            (old(st).0, texts(old(st).1@), texts(old(st).2@), texts(old(st).3@)),
            line@,
        ),
{
    if line.len() == 0 {
        if st.0 < 255 {
            st.0 = st.0 + 1;
        }
        return;
    }
    let text = string_from_chars(line);
    if st.0 == 0 {
        HistoryStore::add(&mut st.1, text.as_str());
    } else if st.0 == 1 {
        HistoryStore::add(&mut st.2, text.as_str());
    } else {
        HistoryStore::add(&mut st.3, text.as_str());
    }
}

impl HistoryStore {
    /// The text of the history file for these histories (nano's format).
    pub fn to_text(&self) -> (t: String)
        ensures
            t@ == history_text(texts(self.search@), texts(self.replace@), texts(self.execute@)),
    {
        let mut out: Vec<char> = Vec::new();
        push_section(&mut out, &self.search);
        out.push('\n');
        push_section(&mut out, &self.replace);
        out.push('\n');
        push_section(&mut out, &self.execute);
        proof {
            assert(out@ =~= history_text(texts(self.search@), texts(self.replace@), texts(self.execute@)));
        }
        string_from_chars(out.as_slice())
    }

    /// The histories a history file's text holds, read the way recorded
    /// entries are (repeats moved to the end, each list capped), and marked
    /// unchanged.
    pub fn from_text(text: &str) -> (h: HistoryStore)
        ensures
            ({
                let st = read_history(text@);
                texts(h.search@) == st.1 && texts(h.replace@) == st.2 && texts(h.execute@) == st.3
            }),
            !h.changed,
    {
        let cs = str_chars(text);
        let mut st: (u8, Vec<String>, Vec<String>, Vec<String>) = (0, Vec::new(), Vec::new(), Vec::new());
        let mut cur: Vec<char> = Vec::new();
        let mut i: usize = 0;
        proof {
            assert(cs@.take(0) =~= Seq::<char>::empty());
            assert(texts(st.1@) =~= Seq::<Seq<char>>::empty());
            assert(texts(st.2@) =~= Seq::<Seq<char>>::empty());
            assert(texts(st.3@) =~= Seq::<Seq<char>>::empty());
        }
        while i < cs.len()
            invariant
                i <= cs@.len(),
                cs@ == text@,
                pieces(cs@.take(i as int), '\n').len() > 0,
                pieces(cs@.take(i as int), '\n').last() == cur@,
                (st.0, texts(st.1@), texts(st.2@), texts(st.3@)) == read_lines(pieces(cs@.take(i as int), '\n').drop_last()),
            decreases cs.len() - i,
        {
            let c = cs[i];
            proof {
                assert(cs@.take(i + 1).drop_last() =~= cs@.take(i as int));
                lemma_pieces_nonempty(cs@.take(i as int), '\n');
            }
            let ghost prev = pieces(cs@.take(i as int), '\n');
            if c == '\n' {
                let n = cur.len();
                let stripped = if n > 0 && cur[n - 1] == '\r' {
                    crate::text::sub_chars(cur.as_slice(), 0, n - 1)
                } else {
                    crate::text::sub_chars(cur.as_slice(), 0, n)
                };
                proof {
                    assert(stripped@ =~= strip_cr(cur@));
                }
                apply_line(&mut st, stripped.as_slice());
                proof {
                    assert(pieces(cs@.take(i + 1), '\n') == prev.push(Seq::empty()));
                    assert(prev.push(Seq::<char>::empty()).drop_last() =~= prev);
                    assert(prev.drop_last().push(prev.last()) =~= prev);
                }
                cur = Vec::new();
            } else {
                cur.push(c);
                proof {
                    let next = prev.update(prev.len() - 1, prev.last().push(c));
                    assert(next.drop_last() =~= prev.drop_last());
                }
            }
            i += 1;
        }
        proof {
            assert(cs@.take(cs@.len() as int) =~= cs@);
        }
        if cur.len() > 0 {
            apply_line(&mut st, cur.as_slice());
        }
        HistoryStore { search: st.1, replace: st.2, execute: st.3, changed: false }
    }
}

} // verus!
