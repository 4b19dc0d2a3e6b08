//! Paragraph reflow for Justify and Full Justify: nano's quote- and
//! indent-aware "fill paragraph" (quote length, indent length, paragraph
//! beginnings, paragraph search, concatenation, whitespace squeezing, line
//! breaking and rewrapping).
//!
//! Everything works in character counts rather than display widths: prose
//! paragraphs are plain characters and space indentation, so this matches
//! nano in the common case and only drifts on lines that mix tabs into text.

use crate::pattern::{Pattern, regex_first_match};
use crate::text::{chars_contain, push_range, str_chars, string_from_chars, sub_chars};
use vstd::prelude::*;

verus! {

// ---------------------------------------------------------------------
// The model: lines are character sequences, the quoting regex is its source.
// ---------------------------------------------------------------------

pub open spec fn is_blank(c: char) -> bool {
    c == ' ' || c == '\t'
}

/// The source text of an optional quoting pattern.
pub open spec fn quote_view(q: Option<&Pattern>) -> Option<Seq<char>> {
    match q {
        Some(p) => Some(p@),
        None => None,
    }
}

/// The lines as character sequences.
pub open spec fn lines_view(lines: &[Vec<char>]) -> Seq<Seq<char>> {
    seqs_view(lines@)
}

/// A sequence of character vectors, as character sequences.
pub open spec fn seqs_view(v: Seq<Vec<char>>) -> Seq<Seq<char>> {
    v.map_values(|l: Vec<char>| l@)
}

/// The number of leading blanks of `s`.
pub open spec fn indent_len(s: Seq<char>) -> nat
    decreases s.len(),
{
    if s.len() > 0 && is_blank(s[0]) {
        1 + indent_len(s.drop_first())
    } else {
        0
    }
}

/// nano's `quote_length`: the length of the quoting pattern's match when it
/// starts at the beginning of `line`; 0 without a pattern or such a match.
pub open spec fn quote_len(q: Option<Seq<char>>, line: Seq<char>) -> nat {
    match q {
        None => 0,
        Some(p) => match regex_first_match(p, line) {
            Some((before, m)) => if before.len() == 0 && m.len() <= line.len() {
                m.len()
            } else {
                0
            },
            None => 0,
        },
    }
}

/// The quote plus indentation that leads `line`.
pub open spec fn lead_len(q: Option<Seq<char>>, line: Seq<char>) -> nat {
    quote_len(q, line) + indent_len(line.skip(quote_len(q, line) as int))
}

/// nano's `inpar`: whether `line` has text beyond its quote and indentation.
pub open spec fn inpar(q: Option<Seq<char>>, line: Seq<char>) -> bool {
    line.len() > lead_len(q, line)
}

/// nano's `begpar`: whether line `idx` begins a paragraph.
pub open spec fn begpar(lines: Seq<Seq<char>>, idx: int, q: Option<Seq<char>>) -> bool
    decreases idx,
{
    if idx <= 0 {
        true
    } else {
        let line = lines[idx];
        let ql = quote_len(q, line);
        let il = indent_len(line.skip(ql as int));
        if line.len() == ql + il {
            false
        } else {
            let prev = lines[idx - 1];
            if ql != quote_len(q, prev) || line.take(ql as int) != prev.take(ql as int) {
                true
            } else {
                let pil = indent_len(prev.skip(ql as int));
                if prev.len() == ql + pil {
                    true
                } else if il == pil {
                    false
                } else {
                    !begpar(lines, idx - 1, q)
                }
            }
        }
    }
}

/// Lines `s..s+c` continue a paragraph that line `s` starts or sits in:
/// every line after the first has text and does not begin a new paragraph.
pub open spec fn continues(lines: Seq<Seq<char>>, k: int, q: Option<Seq<char>>) -> bool {
    inpar(q, lines[k]) && !begpar(lines, k, q)
}

/// From line `lo`, the lines before `m` have no text, line `m` has text (or
/// is the last line), and `m..=r` is the longest run that continues it.
pub open spec fn para_end_shape(
    lv: Seq<Seq<char>>,
    q: Option<Seq<char>>,
    lo: int,
    last: int,
    m: int,
    r: int,
) -> bool {
    &&& lo <= m <= r <= last
    &&& forall|k: int| lo <= k < m ==> !inpar(q, #[trigger] lv[k])
    &&& (m == last || inpar(q, lv[m]))
    &&& forall|k: int| m < k <= r ==> continues(lv, k, q)
    &&& (r == last || !continues(lv, r + 1, q))
}

pub proof fn lemma_indent_len(s: Seq<char>)
    ensures
        indent_len(s) <= s.len(),
        forall|i: int| 0 <= i < indent_len(s) ==> is_blank(#[trigger] s[i]),
        indent_len(s) < s.len() ==> !is_blank(s[indent_len(s) as int]),
    decreases s.len(),
{
    if s.len() > 0 && is_blank(s[0]) {
        lemma_indent_len(s.drop_first());
        assert forall|i: int| 0 <= i < indent_len(s) implies is_blank(#[trigger] s[i]) by {
            if i > 0 {
                assert(s[i] == s.drop_first()[i - 1]);
            }
        }
    }
}

pub proof fn lemma_quote_len(q: Option<Seq<char>>, line: Seq<char>)
    ensures
        quote_len(q, line) <= line.len(),
        lead_len(q, line) <= line.len(),
{
    lemma_indent_len(line.skip(quote_len(q, line) as int));
}

// ---------------------------------------------------------------------
// Wrap column.
// ---------------------------------------------------------------------

/// The column to wrap at for `fill` on a screen `screen_cols` wide (see
/// `wrap_at`).
pub open spec fn wrap_column(fill: i32, screen_cols: usize) -> int {
    if screen_cols + fill <= 0 {
        0
    } else if fill <= 0 {
        screen_cols + fill
    } else {
        fill as int
    }
}

/// The column to wrap at, from `set fill`/`-r` and the screen width: a
/// positive fill is the column itself, a non-positive one counts back from
/// the right edge, and nothing goes below zero.
pub fn wrap_at(fill: i32, screen_cols: usize) -> (r: usize)
    ensures
        r == wrap_column(fill, screen_cols),
{
    if fill > 0 {
        fill as usize
    } else {
        let back: u64 = (0i64 - fill as i64) as u64;
        if (screen_cols as u64) <= back {
            0
        } else {
            screen_cols - (back as usize)
        }
    }
}

// ---------------------------------------------------------------------
// Line measurements.
// ---------------------------------------------------------------------

/// The number of blanks in `line` starting at `from`.
fn indent_from(line: &[char], from: usize) -> (r: usize)
    requires
        from <= line@.len(),
    ensures
        r == indent_len(line@.skip(from as int)),
{
    let mut i = from;
    while i < line.len() && (line[i] == ' ' || line[i] == '\t')
        invariant
            from <= i <= line@.len(),
            indent_len(line@.skip(from as int)) == (i - from) + indent_len(line@.skip(i as int)),
        decreases line@.len() - i,
    {
        assert(line@.skip(i as int).drop_first() =~= line@.skip(i + 1));
        i += 1;
    }
    i - from
}

/// nano's `quote_length` for `line`.
fn quote_length(line: &[char], quote_re: Option<&Pattern>) -> (r: usize)
    ensures
        r == quote_len(quote_view(quote_re), line@),
{
    match quote_re {
        None => 0,
        Some(re) => {
            let text = string_from_chars(line);
            match re.first_match(text.as_str()) {
                Some((before, m)) => {
                    if before.as_str().is_empty() {
                        let mc = str_chars(m.as_str());
                        mc.len()
                    } else {
                        0
                    }
                },
                None => 0,
            }
        },
    }
}

/// Quote length and lead length of `line`.
fn lead_length(line: &[char], quote_re: Option<&Pattern>) -> (r: (usize, usize))
    ensures
        r.0 == quote_len(quote_view(quote_re), line@),
        r.1 == lead_len(quote_view(quote_re), line@),
        r.0 <= r.1 <= line@.len(),
{
    let ql = quote_length(line, quote_re);
    proof {
        lemma_quote_len(quote_view(quote_re), line@);
    }
    let il = indent_from(line, ql);
    let n = line.len();
    assert(ql + il <= n);
    (ql, ql + il)
}

/// nano's `inpar`.
fn in_par(line: &[char], quote_re: Option<&Pattern>) -> (r: bool)
    ensures
        r == inpar(quote_view(quote_re), line@),
{
    let (_, lead) = lead_length(line, quote_re);
    line.len() > lead
}

/// Whether the first `n` characters of `a` and `b` agree.
fn prefix_eq(a: &[char], b: &[char], n: usize) -> (r: bool)
    requires
        n <= a@.len(),
        n <= b@.len(),
    ensures
        r == (a@.take(n as int) == b@.take(n as int)),
{
    let mut i: usize = 0;
    while i < n
        invariant
            i <= n <= a@.len(),
            n <= b@.len(),
            forall|j: int| 0 <= j < i ==> a@[j] == b@[j],
        decreases n - i,
    {
        if a[i] != b[i] {
            assert(a@.take(n as int)[i as int] != b@.take(n as int)[i as int]);
            return false;
        }
        i += 1;
    }
    assert(a@.take(n as int) =~= b@.take(n as int));
    true
}

/// nano's `begpar` for line `idx`.
fn beg_par(lines: &[Vec<char>], idx: usize, quote_re: Option<&Pattern>) -> (r: bool)
    requires
        idx < lines@.len(),
    ensures
        r == begpar(lines_view(lines), idx as int, quote_view(quote_re)),
    decreases idx,
{
    let ghost lv = lines_view(lines);
    let ghost q = quote_view(quote_re);
    if idx == 0 {
        return true;
    }
    let line = &lines[idx];
    assert(line@ == lv[idx as int]);
    let (quot_len, lead) = lead_length(line, quote_re);
    if line.len() == lead {
        return false;
    }
    let prev = &lines[idx - 1];
    assert(prev@ == lv[idx - 1]);
    let (prev_quot_len, _) = lead_length(prev, quote_re);
    if quot_len != prev_quot_len {
        return true;
    }
    if !prefix_eq(line, prev, quot_len) {
        return true;
    }
    let prev_indent = indent_from(prev, quot_len);
    if prev.len() == quot_len + prev_indent {
        return true;
    }
    if lead - quot_len == prev_indent {
        return false;
    }
    !beg_par(lines, idx - 1, quote_re)
}

// ---------------------------------------------------------------------
// Paragraph navigation.
// ---------------------------------------------------------------------

/// nano's `do_para_begin`: step back from the line before `from` to the
/// first line of the paragraph containing it (line 0 at the latest).
pub fn para_begin(lines: &[Vec<char>], from: usize, quote_re: Option<&Pattern>) -> (r: usize)
    requires
        from <= lines@.len(),
    ensures
        r <= (if from == 0 { 0 } else { from - 1 }),
        r == 0 || begpar(lines_view(lines), r as int, quote_view(quote_re)),
        forall|k: int|
            r < k <= from - 1 ==> !begpar(lines_view(lines), k, quote_view(quote_re)),
{
    let mut idx = if from == 0 { 0 } else { from - 1 };
    while idx > 0 && !beg_par(lines, idx, quote_re)
        invariant
            idx <= (if from == 0 { 0 } else { from - 1 }),
            from <= lines@.len(),
            idx < lines@.len() || idx == 0,
            forall|k: int|
                idx < k <= from - 1 ==> !begpar(lines_view(lines), k, quote_view(quote_re)),
        decreases idx,
    {
        idx -= 1;
    }
    idx
}

/// nano's `do_para_end`: from `from`, skip lines without text, then step
/// forward to the last line of that paragraph (the last line of the buffer
/// when there is no further paragraph).
pub fn para_end(lines: &[Vec<char>], from: usize, quote_re: Option<&Pattern>) -> (r: usize)
    ensures
        lines@.len() == 0 ==> r == 0,
        lines@.len() > 0 ==> exists|m: int|
            #[trigger] para_end_shape(
                lines_view(lines),
                quote_view(quote_re),
                vstd::math::min(from as int, lines@.len() - 1),
                lines@.len() - 1,
                m,
                r as int,
            ),
{
    let ghost lv = lines_view(lines);
    let ghost q = quote_view(quote_re);
    let last = if lines.len() == 0 { 0 } else { lines.len() - 1 };
    let mut idx = if from < last { from } else { last };
    let ghost lo = idx as int;
    if lines.len() == 0 {
        return 0;
    }
    while idx < last && !in_par(&lines[idx], quote_re)
        invariant
            last == lines@.len() - 1,
            lo <= idx <= last,
            lv == lines_view(lines),
            q == quote_view(quote_re),
            forall|k: int| lo <= k < idx ==> !inpar(q, #[trigger] lv[k]),
        decreases last - idx,
    {
        assert(lines@[idx as int]@ == lv[idx as int]);
        idx += 1;
    }
    proof {
        if idx < last {
            assert(lines@[idx as int]@ == lv[idx as int]);
        }
    }
    let ghost m = idx as int;
    while idx < last && in_par(&lines[idx + 1], quote_re) && !beg_par(lines, idx + 1, quote_re)
        invariant
            last == lines@.len() - 1,
            lo <= m <= idx <= last,
            lv == lines_view(lines),
            q == quote_view(quote_re),
            forall|k: int| lo <= k < m ==> !inpar(q, #[trigger] lv[k]),
            m == last || inpar(q, lv[m]),
            forall|k: int| m < k <= idx ==> continues(lv, k, q),
        decreases last - idx,
    {
        assert(lines@[idx + 1]@ == lv[idx + 1]);
        idx += 1;
    }
    proof {
        if idx < last {
            assert(lines@[idx + 1]@ == lv[idx + 1]);
        }
        assert(para_end_shape(lv, q, lo, last as int, m, idx as int));
        assert(para_end_shape(
            lines_view(lines),
            quote_view(quote_re),
            vstd::math::min(from as int, lines@.len() - 1),
            lines@.len() - 1,
            m,
            idx as int,
        ));
    }
    idx
}

/// Whether line `from` sits inside a paragraph without being its first
/// line: Justify then first backs up to the paragraph's beginning.
pub fn in_mid_paragraph(lines: &[Vec<char>], from: usize, quote_re: Option<&Pattern>) -> (r: bool)
    requires
        from < lines@.len(),
    ensures
        r == continues(lines_view(lines), from as int, quote_view(quote_re)),
{
    assert(lines@[from as int]@ == lines_view(lines)[from as int]);
    in_par(&lines[from], quote_re) && !beg_par(lines, from, quote_re)
}

/// nano's `find_paragraph`: from `start` on, the first paragraph found, as
/// (first line, number of lines); `None` when no line from `start` on has
/// text.
pub fn find_paragraph(lines: &[Vec<char>], start: usize, quote_re: Option<&Pattern>) -> (r: Option<
    (usize, usize),
>)
    ensures
        ({
            let lv = lines_view(lines);
            let q = quote_view(quote_re);
            match r {
                None => forall|k: int| start <= k < lv.len() ==> !inpar(q, #[trigger] lv[k]),
                Some((s, c)) => {
                    &&& start <= s < lv.len()
                    &&& inpar(q, lv[s as int])
                    &&& forall|k: int| start <= k < s ==> !inpar(q, #[trigger] lv[k])
                    &&& c >= 1
                    &&& s + c <= lv.len()
                    &&& forall|k: int| s < k < s + c ==> continues(lv, k, q)
                    &&& (s + c == lv.len() || !continues(lv, s + c, q))
                },
            }
        }),
{
    let ghost lv = lines_view(lines);
    let ghost q = quote_view(quote_re);
    let mut s = start;
    while s < lines.len() && !in_par(&lines[s], quote_re)
        invariant
            start <= s,
            lv == lines_view(lines),
            q == quote_view(quote_re),
            forall|k: int| start <= k < s ==> !inpar(q, #[trigger] lv[k]),
        decreases lines@.len() - s,
    {
        assert(lines@[s as int]@ == lv[s as int]);
        s += 1;
    }
    if s >= lines.len() {
        return None;
    }
    assert(lines@[s as int]@ == lv[s as int]);
    let mut end = s;
    while end < lines.len() - 1 && in_par(&lines[end + 1], quote_re) && !beg_par(
        lines,
        end + 1,
        quote_re,
    )
        invariant
            s <= end < lines@.len(),
            lv == lines_view(lines),
            q == quote_view(quote_re),
            forall|k: int| s < k <= end ==> continues(lv, k, q),
        decreases lines@.len() - end,
    {
        assert(lines@[end + 1]@ == lv[end + 1]);
        end += 1;
    }
    proof {
        if end + 1 < lines@.len() {
            assert(lines@[end + 1]@ == lv[end + 1]);
        }
    }
    Some((s, end - s + 1))
}

// ---------------------------------------------------------------------
// Squeezing whitespace.
// ---------------------------------------------------------------------

/// `n` spaces.
pub open spec fn spaces(n: nat) -> Seq<char> {
    Seq::new(n, |i: int| ' ')
}

/// nano's `squeeze` on the text after the lead: a run of blanks becomes one
/// space, except that up to two blanks survive right after a punctuation
/// character (and an optional closing bracket after it).
pub open spec fn squeeze_body(body: Seq<char>, punct: Seq<char>, brackets: Seq<char>) -> Seq<char>
    decreases body.len(),
{
    if body.len() == 0 {
        Seq::empty()
    } else if is_blank(body[0]) {
        let n = indent_len(body);
        proof {
            lemma_indent_len(body);
        }
        seq![' '] + squeeze_body(body.skip(n as int), punct, brackets)
    } else if punct.contains(body[0]) {
        let b: int = if body.len() > 1 && brackets.contains(body[1]) {
            2
        } else {
            1
        };
        let rest = body.skip(b);
        let n = indent_len(rest);
        proof {
            lemma_indent_len(rest);
        }
        body.take(b) + spaces(if n < 2 {
            n
        } else {
            2
        }) + squeeze_body(rest.skip(n as int), punct, brackets)
    } else {
        seq![body[0]] + squeeze_body(body.drop_first(), punct, brackets)
    }
}

/// `s` without the spaces at its end, never cutting into its first `keep`
/// characters.
pub open spec fn trim_trailing_spaces(s: Seq<char>, keep: nat) -> Seq<char>
    decreases s.len(),
{
    if s.len() > keep && s.last() == ' ' {
        trim_trailing_spaces(s.drop_last(), keep)
    } else {
        s
    }
}

/// nano's `squeeze`: the first `skip` characters untouched, the rest
/// squeezed, trailing spaces removed.
pub open spec fn squeeze_spec(line: Seq<char>, skip: nat, punct: Seq<char>, brackets: Seq<char>) -> Seq<
    char,
> {
    trim_trailing_spaces(
        line.take(skip as int) + squeeze_body(line.skip(skip as int), punct, brackets),
        skip,
    )
}

/// nano's `squeeze`: within `line[skip..]`, collapse runs of blanks to a
/// single space, keep up to two after punctuation (plus an optional closing
/// bracket), and strip trailing blanks.
#[verifier::rlimit(60)]
pub fn squeeze(line: &[char], skip: usize, punct: &str, brackets: &str) -> (out: Vec<char>)
    requires
        skip <= line@.len(),
    ensures
        out@ == squeeze_spec(line@, skip as nat, punct@, brackets@),
{
    let punct_chars = str_chars(punct);
    let bracket_chars = str_chars(brackets);
    let ghost whole = line@.take(skip as int) + squeeze_body(line@.skip(skip as int), punct@, brackets@);
    let mut out = sub_chars(line, 0, skip);
    let mut i = skip;
    assert(out@ + squeeze_body(line@.skip(i as int), punct@, brackets@) == whole);
    while i < line.len()
        invariant
            skip <= i <= line@.len(),
            punct_chars@ == punct@,
            bracket_chars@ == brackets@,
            out@.len() >= skip,
            out@ + squeeze_body(line@.skip(i as int), punct@, brackets@) == whole,
        decreases line@.len() - i,
    {
        let ghost i0 = i as int;
        let ghost body = line@.skip(i0);
        let c = line[i];
        assert(body[0] == c);
        if c == ' ' || c == '\t' {
            let n = indent_from(line, i);
            proof {
                lemma_indent_len(body);
                assert(body.skip(n as int) =~= line@.skip(i0 + n));
            }
            out.push(' ');
            i = i + n;
            assert(out@ + squeeze_body(line@.skip(i as int), punct@, brackets@) == whole) by {
                assert(squeeze_body(body, punct@, brackets@) == seq![' '] + squeeze_body(
                    line@.skip(i as int),
                    punct@,
                    brackets@,
                ));
            }
        } else if chars_contain(&punct_chars, c) {
            let ghost out0 = out@;
            out.push(c);
            i += 1;
            if i < line.len() && chars_contain(&bracket_chars, line[i]) {
                assert(body[1] == line@[i as int]);
                out.push(line[i]);
                i += 1;
            }
            let ghost b = i - i0;
            assert(body.take(b) =~= line@.subrange(i0, i as int));
            assert(out@ =~= out0 + body.take(b));
            let k = indent_from(line, i);
            proof {
                lemma_indent_len(line@.skip(i as int));
                assert(body.skip(b) =~= line@.skip(i as int));
                assert(line@.skip(i as int).skip(k as int) =~= line@.skip(i + k));
            }
            let keep = if k < 2 { k } else { 2 };
            let mut j: usize = 0;
            let ghost out1 = out@;
            while j < keep
                invariant
                    j <= keep <= 2,
                    out@ == out1 + spaces(j as nat),
                decreases keep - j,
            {
                out.push(' ');
                j += 1;
                assert(out@ =~= out1 + spaces(j as nat));
            }
            i = i + k;
            assert(out@ + squeeze_body(line@.skip(i as int), punct@, brackets@) == whole) by {
                assert(squeeze_body(body, punct@, brackets@) == body.take(b) + spaces(keep as nat)
                    + squeeze_body(line@.skip(i as int), punct@, brackets@));
            }
        } else {
            out.push(c);
            i += 1;
            assert(body.drop_first() =~= line@.skip(i as int));
        }
    }
    assert(line@.skip(i as int) =~= Seq::<char>::empty());
    assert(out@ =~= whole);
    while out.len() > skip && out[out.len() - 1] == ' '
        invariant
            out@.len() >= skip,
            trim_trailing_spaces(out@, skip as nat) == trim_trailing_spaces(whole, skip as nat),
        decreases out@.len(),
    {
        let ghost before = out@;
        out.pop();
        assert(out@ =~= before.drop_last());
    }
    out
}

// ---------------------------------------------------------------------
// Breaking a line.
// ---------------------------------------------------------------------

/// The last blank in `text[lo..hi]`.
pub open spec fn last_blank_in(text: Seq<char>, lo: int, hi: int) -> Option<int>
    decreases hi - lo,
{
    if hi <= lo {
        None
    } else if is_blank(text[hi - 1]) {
        Some(hi - 1)
    } else {
        last_blank_in(text, lo, hi - 1)
    }
}

/// The first blank in `text` at or after `lo`.
pub open spec fn first_blank_from(text: Seq<char>, lo: int) -> Option<int>
    decreases text.len() - lo,
{
    if lo >= text.len() || lo < 0 {
        None
    } else if is_blank(text[lo]) {
        Some(lo)
    } else {
        first_blank_from(text, lo + 1)
    }
}

/// nano's `break_line`: when `text` is longer than `goal`, break at the last
/// blank that keeps the first segment within `goal` (past the leading
/// blanks), or else at the first blank after that; the break lands just past
/// the run of blanks there. `None` when `text` fits or has nowhere to break.
pub open spec fn break_line_spec(text: Seq<char>, goal: nat) -> Option<nat> {
    let start = indent_len(text) as int;
    if text.len() <= goal {
        None
    } else {
        let scan_end: int = if start <= goal {
            goal + 1int
        } else {
            start
        };
        let found = match last_blank_in(text, start, scan_end) {
            Some(b) => Some(b),
            None => first_blank_from(text, scan_end),
        };
        match found {
            Some(b) => Some((b + 1 + indent_len(text.skip(b + 1))) as nat),
            None => None,
        }
    }
}

pub proof fn lemma_last_blank_in(text: Seq<char>, lo: int, hi: int)
    requires
        0 <= lo,
        hi <= text.len(),
    ensures
        last_blank_in(text, lo, hi) matches Some(b) ==> lo <= b < hi && is_blank(text[b]),
    decreases hi - lo,
{
    if hi > lo && !is_blank(text[hi - 1]) {
        lemma_last_blank_in(text, lo, hi - 1);
    }
}

pub proof fn lemma_first_blank_from(text: Seq<char>, lo: int)
    requires
        0 <= lo,
    ensures
        first_blank_from(text, lo) matches Some(b) ==> lo <= b < text.len() && is_blank(text[b]),
    decreases text.len() - lo,
{
    if lo < text.len() && !is_blank(text[lo]) {
        lemma_first_blank_from(text, lo + 1);
    }
}

pub proof fn lemma_break_line(text: Seq<char>, goal: nat)
    ensures
        break_line_spec(text, goal) matches Some(p) ==> 1 <= p <= text.len() && text.len() > goal,
{
    let start = indent_len(text) as int;
    lemma_indent_len(text);
    if text.len() > goal {
        let scan_end: int = if start <= goal {
            goal + 1int
        } else {
            start
        };
        lemma_last_blank_in(text, start, scan_end);
        lemma_first_blank_from(text, scan_end);
        let found = match last_blank_in(text, start, scan_end) {
            Some(b) => Some(b),
            None => first_blank_from(text, scan_end),
        };
        if let Some(b) = found {
            lemma_indent_len(text.skip(b + 1));
        }
    }
}

/// nano's `break_line`: the offset in `text` at which to break it so the
/// kept segment fits in `goal` characters, landing past any run of blanks
/// there; `None` when `text` already fits or cannot be broken.
#[verifier::loop_isolation(false)]
pub fn break_line(text: &[char], goal: usize) -> (r: Option<usize>)
    ensures
        match r {
            None => break_line_spec(text@, goal as nat) is None,
            Some(p) => break_line_spec(text@, goal as nat) == Some(p as nat),
        },
{
    let start = indent_from(text, 0);
    assert(text@.skip(0) =~= text@);
    proof {
        lemma_indent_len(text@);
    }
    if text.len() <= goal {
        return None;
    }
    let mut last_blank: Option<usize> = None;
    let mut i = start;
    while i < text.len() && i <= goal
        invariant
            start <= i <= text@.len(),
            start == indent_len(text@),
            i <= goal + 1 || i == start,
            match last_blank {
                None => last_blank_in(text@, start as int, i as int) is None,
                Some(b) => last_blank_in(text@, start as int, i as int) == Some(b as int),
            },
        decreases text@.len() - i,
    {
        if text[i] == ' ' || text[i] == '\t' {
            last_blank = Some(i);
        }
        i += 1;
    }
    let ghost scan_end = i as int;
    assert(scan_end == (if start <= goal { goal + 1 } else { start as int }));
    let first_blank = match last_blank {
        Some(b) => b,
        None => {
            loop
                invariant
                    scan_end <= i <= text@.len(),
                    first_blank_from(text@, scan_end) == first_blank_from(text@, i as int),
                decreases text@.len() - i,
            {
                if i >= text.len() {
                    return None;
                }
                if text[i] == ' ' || text[i] == '\t' {
                    break ;
                }
                i += 1;
            }
            i
        },
    };
    proof {
        lemma_last_blank_in(text@, start as int, scan_end);
        lemma_first_blank_from(text@, scan_end);
    }
    let after = first_blank + 1;
    let n = indent_from(text, after);
    proof {
        lemma_indent_len(text@.skip(after as int));
    }
    let tl = text.len();
    assert(after + n <= tl);
    Some(after + n)
}

// ---------------------------------------------------------------------
// Rewrapping.
// ---------------------------------------------------------------------

/// Where a segment ending at `e` ends once trailing spaces are trimmed.
pub open spec fn trim_back(cur: Seq<char>, e: int) -> int
    decreases e,
{
    if e > 0 && cur[e - 1] == ' ' {
        trim_back(cur, e - 1)
    } else {
        e
    }
}

/// nano's `rewrap_paragraph`: split `cur` into lines that fit `wrap_at`
/// where a break is possible, each line after the first starting with
/// `lead`.
pub open spec fn rewrap_spec(cur: Seq<char>, lead: Seq<char>, wrap_at: nat, trim: bool) -> Seq<
    Seq<char>,
>
    decreases cur.len(),
{
    if cur.len() <= wrap_at {
        seq![cur]
    } else {
        let skip: int = if lead.len() <= cur.len() {
            lead.len() as int
        } else {
            cur.len() as int
        };
        let goal: nat = if wrap_at >= lead.len() {
            (wrap_at - lead.len()) as nat
        } else {
            0
        };
        match break_line_spec(cur.skip(skip), goal) {
            None => seq![cur],
            Some(rel) => {
                let bp = skip + rel;
                if bp >= cur.len() {
                    seq![cur]
                } else {
                    proof {
                        lemma_break_line(cur.skip(skip), goal);
                    }
                    let end = if trim {
                        trim_back(cur, bp)
                    } else {
                        bp
                    };
                    seq![cur.take(end)] + rewrap_spec(lead + cur.skip(bp), lead, wrap_at, trim)
                }
            },
        }
    }
}

pub proof fn lemma_trim_back(cur: Seq<char>, e: int)
    requires
        0 <= e <= cur.len(),
    ensures
        0 <= trim_back(cur, e) <= e,
    decreases e,
{
    if e > 0 && cur[e - 1] == ' ' {
        lemma_trim_back(cur, e - 1);
    }
}

/// nano's `rewrap_paragraph`: re-split `text` into lines that each fit
/// within `wrap_at` (where there is a blank to break at), prefixing every
/// line after the first with `lead`.
pub fn rewrap(text: Vec<char>, lead: &[char], wrap_at: usize, trim_blanks: bool) -> (lines: Vec<
    Vec<char>,
>)
    ensures
        seqs_view(lines@) == rewrap_spec(text@, lead@, wrap_at as nat, trim_blanks),
{
    let mut lines: Vec<Vec<char>> = Vec::new();
    let mut cur = text;
    let lead_len = lead.len();
    let ghost target = rewrap_spec(text@, lead@, wrap_at as nat, trim_blanks);
    loop
        invariant_except_break
            lead_len == lead@.len(),
            seqs_view(lines@) + rewrap_spec(cur@, lead@, wrap_at as nat, trim_blanks) == target,
        ensures
            seqs_view(lines@) == target,
        decreases cur@.len(),
    {
        if cur.len() <= wrap_at {
            let ghost c = cur@;
            lines.push(cur);
            assert(seqs_view(lines@) =~= target);
            break ;
        }
        let skip = if lead_len <= cur.len() { lead_len } else { cur.len() };
        let goal = if wrap_at >= lead_len { wrap_at - lead_len } else { 0 };
        let rest = vstd::slice::slice_subrange(cur.as_slice(), skip, cur.len());
        assert(rest@ =~= cur@.skip(skip as int));
        let rel = match break_line(rest, goal) {
            Some(rel) => rel,
            None => {
                lines.push(cur);
                assert(seqs_view(lines@) =~= target);
                break ;
            },
        };
        proof {
            lemma_break_line(cur@.skip(skip as int), goal as nat);
        }
        let break_pos = skip + rel;
        if break_pos >= cur.len() {
            lines.push(cur);
            assert(seqs_view(lines@) =~= target);
            break ;
        }
        let mut segment_end = break_pos;
        if trim_blanks {
            while segment_end > 0 && cur[segment_end - 1] == ' '
                invariant
                    segment_end <= break_pos < cur@.len(),
                    trim_back(cur@, segment_end as int) == trim_back(cur@, break_pos as int),
                decreases segment_end,
            {
                segment_end -= 1;
            }
        }
        let ghost old_cur = cur@;
        let piece = sub_chars(&cur, 0, segment_end);
        let mut next_line = sub_chars(lead, 0, lead_len);
        push_range(&mut next_line, &cur, break_pos, cur.len());
        assert(lead@.subrange(0, lead_len as int) =~= lead@);
        assert(old_cur.subrange(break_pos as int, old_cur.len() as int) =~= old_cur.skip(
            break_pos as int,
        ));
        assert(piece@ =~= old_cur.take(segment_end as int));
        let ghost before = lines@;
        lines.push(piece);
        assert(seqs_view(lines@) =~= seqs_view(before).push(piece@));
        cur = next_line;
        assert(rewrap_spec(old_cur, lead@, wrap_at as nat, trim_blanks) == seq![piece@] + rewrap_spec(
            cur@,
            lead@,
            wrap_at as nat,
            trim_blanks,
        ));
        assert(seqs_view(lines@) + rewrap_spec(cur@, lead@, wrap_at as nat, trim_blanks) =~= target);
    }
    lines
}

// ---------------------------------------------------------------------
// Justifying a paragraph.
// ---------------------------------------------------------------------

/// nano's `concat_paragraph`: lines `start..start+count` joined into one,
/// each later line without its lead, with one space between pieces unless
/// the text so far already ends in one.
pub open spec fn concat_lines(lv: Seq<Seq<char>>, start: int, count: int, q: Option<Seq<char>>) -> Seq<
    char,
>
    decreases count,
{
    if count <= 1 {
        lv[start]
    } else {
        let text = concat_lines(lv, start, count - 1, q);
        let next = lv[start + count - 1];
        let sep = if text.len() > 0 && text.last() != ' ' {
            seq![' ']
        } else {
            Seq::<char>::empty()
        };
        text + sep + next.skip(lead_len(q, next) as int)
    }
}

/// The joined paragraph, squeezed after the first line's own lead.
pub open spec fn concat_and_squeeze_spec(
    lv: Seq<Seq<char>>,
    start: int,
    count: int,
    q: Option<Seq<char>>,
    punct: Seq<char>,
    brackets: Seq<char>,
) -> Seq<char> {
    let text = concat_lines(lv, start, count, q);
    squeeze_spec(text, lead_len(q, text), punct, brackets)
}

/// nano's `justify_paragraph`: the replacement lines for the paragraph of
/// `count` lines at `start`, led by the second line's lead (the first's for
/// a one-line paragraph).
pub open spec fn justify_paragraph_spec(
    lv: Seq<Seq<char>>,
    start: int,
    count: int,
    q: Option<Seq<char>>,
    punct: Seq<char>,
    brackets: Seq<char>,
    wrap_at: nat,
    trim: bool,
) -> Seq<Seq<char>> {
    let sample = if count == 1 {
        lv[start]
    } else {
        lv[start + 1]
    };
    let lead = sample.take(lead_len(q, sample) as int);
    rewrap_spec(
        concat_and_squeeze_spec(lv, start, count, q, punct, brackets),
        lead,
        wrap_at,
        trim,
    )
}

fn concat_and_squeeze(
    lines: &[Vec<char>],
    start: usize,
    count: usize,
    quote_re: Option<&Pattern>,
    punct: &str,
    brackets: &str,
) -> (r: Vec<char>)
    requires
        count >= 1,
        start + count <= lines@.len(),
    ensures
        r@ == concat_and_squeeze_spec(
            lines_view(lines),
            start as int,
            count as int,
            quote_view(quote_re),
            punct@,
            brackets@,
        ),
{
    let ghost lv = lines_view(lines);
    let ghost q = quote_view(quote_re);
    let _n = lines.len();
    let first = &lines[start];
    let mut text = sub_chars(first, 0, first.len());
    assert(text@ =~= lv[start as int]);
    let mut k: usize = 1;
    while k < count
        invariant
            1 <= k <= count,
            start + count <= lines@.len(),
            lines@.len() == _n,
            lv == lines_view(lines),
            q == quote_view(quote_re),
            text@ == concat_lines(lv, start as int, k as int, q),
        decreases count - k,
    {
        let next = &lines[start + k];
        assert(next@ == lv[start + k]);
        let (_, next_lead) = lead_length(next, quote_re);
        if text.len() > 0 && text[text.len() - 1] != ' ' {
            text.push(' ');
        }
        push_range(&mut text, next, next_lead, next.len());
        k += 1;
        assert(next@.subrange(next_lead as int, next@.len() as int) =~= next@.skip(next_lead as int));
    }
    let (_, skip) = lead_length(&text, quote_re);
    squeeze(&text, skip, punct, brackets)
}

/// A justified paragraph has at least one line.
pub proof fn lemma_justified_nonempty(
    lv: Seq<Seq<char>>,
    start: int,
    count: int,
    q: Option<Seq<char>>,
    punct: Seq<char>,
    brackets: Seq<char>,
    wrap_at: nat,
    trim: bool,
)
    ensures
        justify_paragraph_spec(lv, start, count, q, punct, brackets, wrap_at, trim).len() >= 1,
{
}

/// nano's `justify_paragraph`: justify the paragraph of `count` lines
/// starting at `lines[start]`, returning its replacement lines.
pub fn justify_paragraph(
    lines: &[Vec<char>],
    start: usize,
    count: usize,
    quote_re: Option<&Pattern>,
    punct: &str,
    brackets: &str,
    wrap_at: usize,
    trim_blanks: bool,
) -> (r: Vec<Vec<char>>)
    requires
        count >= 1,
        start + count <= lines@.len(),
    ensures
        seqs_view(r@) == justify_paragraph_spec(
            lines_view(lines),
            start as int,
            count as int,
            quote_view(quote_re),
            punct@,
            brackets@,
            wrap_at as nat,
            trim_blanks,
        ),
{
    let _n = lines.len();
    let sample = if count == 1 {
        &lines[start]
    } else {
        &lines[start + 1]
    };
    assert(sample@ == lines_view(lines)[if count == 1 { start as int } else { start + 1 }]);
    let (_, lead_n) = lead_length(sample, quote_re);
    let lead = sub_chars(sample, 0, lead_n);
    let squeezed = concat_and_squeeze(lines, start, count, quote_re, punct, brackets);
    rewrap(squeezed, &lead, wrap_at, trim_blanks)
}


// ---------------------------------------------------------------------
// Justify and Full Justify over a buffer's lines.
// ---------------------------------------------------------------------

/// The paragraph `find_paragraph` finds from `from`: starting at `s`, `c`
/// lines long.
pub open spec fn paragraph_at(lv: Seq<Seq<char>>, from: int, s: int, c: int, q: Option<Seq<char>>) -> bool {
    &&& from <= s < lv.len()
    &&& inpar(q, lv[s])
    &&& forall|k: int| from <= k < s ==> !inpar(q, #[trigger] lv[k])
    &&& c >= 1
    &&& s + c <= lv.len()
    &&& forall|k: int| s < k < s + c ==> continues(lv, k, q)
    &&& (s + c == lv.len() || !continues(lv, s + c, q))
}

/// No line from `from` on has text for a paragraph.
pub open spec fn no_paragraph_from(lv: Seq<Seq<char>>, from: int, q: Option<Seq<char>>) -> bool {
    forall|k: int| from <= k < lv.len() ==> !inpar(q, #[trigger] lv[k])
}

/// The lines `lv` with the paragraph of `c` lines at `s` justified.
pub open spec fn with_justified(
    lv: Seq<Seq<char>>,
    s: int,
    c: int,
    q: Option<Seq<char>>,
    punct: Seq<char>,
    brackets: Seq<char>,
    wrap_at: nat,
    trim: bool,
) -> Seq<Seq<char>> {
    lv.take(s) + justify_paragraph_spec(lv, s, c, q, punct, brackets, wrap_at, trim) + lv.skip(s + c)
}

/// One step of Full Justify: the next paragraph from the search position
/// is justified, and the search goes on after its new lines.
pub open spec fn full_justify_step(
    a: (Seq<Seq<char>>, int),
    b: (Seq<Seq<char>>, int),
    q: Option<Seq<char>>,
    punct: Seq<char>,
    brackets: Seq<char>,
    wrap_at: nat,
    trim: bool,
) -> bool {
    exists|s: int, c: int|
        #[trigger] paragraph_at(a.0, a.1, s, c, q) && b.0 == with_justified(a.0, s, c, q, punct, brackets, wrap_at, trim)
            && b.1 == s + justify_paragraph_spec(a.0, s, c, q, punct, brackets, wrap_at, trim).len()
}

/// Full Justify goes through the states `states` (the lines, and where the
/// paragraph search resumes), each step justifying the next paragraph.
pub open spec fn full_justify_run(
    states: Seq<(Seq<Seq<char>>, int)>,
    q: Option<Seq<char>>,
    punct: Seq<char>,
    brackets: Seq<char>,
    wrap_at: nat,
    trim: bool,
) -> bool {
    &&& states.len() >= 1
    &&& forall|i: int|
        0 <= i < states.len() - 1 ==> #[trigger] full_justify_step(
            states[i],
            states[i + 1],
            q,
            punct,
            brackets,
            wrap_at,
            trim,
        )
}

/// A copy of a line.
fn copy_line(l: &Vec<char>) -> (r: Vec<char>)
    ensures
        r@ == l@,
{
    let r = sub_chars(l.as_slice(), 0, l.len());
    assert(r@ =~= l@);
    r
}

/// Full Justify (nano's `^J` with `M-J`): every paragraph of `lines`
/// justified in turn, from the top; `None` when there is no paragraph at
/// all ("Nothing to justify").
pub fn justify_all(
    lines: Vec<Vec<char>>,
    quote_re: Option<&Pattern>,
    punct: &str,
    brackets: &str,
    wrap_at: usize,
    trim_blanks: bool,
) -> (r: Option<Vec<Vec<char>>>)
    ensures
        exists|states: Seq<(Seq<Seq<char>>, int)>|
            #[trigger] full_justify_run(states, quote_view(quote_re), punct@, brackets@, wrap_at as nat, trim_blanks)
                && states[0] == (seqs_view(lines@), 0int) && no_paragraph_from(
                states.last().0,
                states.last().1,
                quote_view(quote_re),
            ) && match r {
                None => states.len() == 1,
                Some(v) => states.len() > 1 && seqs_view(v@) == states.last().0,
            },
{
    let ghost q = quote_view(quote_re);
    let mut result = lines;
    let mut search_start: usize = 0;
    let mut touched = false;
    let ghost mut states: Seq<(Seq<Seq<char>>, int)> = seq![(seqs_view(result@), 0int)];
    loop
        invariant
            search_start <= result@.len(),
            q == quote_view(quote_re),
            full_justify_run(states, q, punct@, brackets@, wrap_at as nat, trim_blanks),
            states[0] == (seqs_view(lines@), 0int),
            states.last() == (seqs_view(result@), search_start as int),
            touched == (states.len() > 1),
        ensures
            q == quote_view(quote_re),
            full_justify_run(states, q, punct@, brackets@, wrap_at as nat, trim_blanks),
            states[0] == (seqs_view(lines@), 0int),
            states.last() == (seqs_view(result@), search_start as int),
            touched == (states.len() > 1),
            no_paragraph_from(states.last().0, states.last().1, q),
        decreases result@.len() - search_start,
    {
        match find_paragraph(result.as_slice(), search_start, quote_re) {
            None => {
                assert(no_paragraph_from(states.last().0, states.last().1, q));
                break;
            },
            Some((s, c)) => {
                let new_lines = justify_paragraph(result.as_slice(), s, c, quote_re, punct, brackets, wrap_at, trim_blanks);
                let ghost lv = seqs_view(result@);
                let ghost nl = seqs_view(new_lines@);
                let new_count = new_lines.len();
                let mut next: Vec<Vec<char>> = Vec::new();
                let mut i: usize = 0;
                while i < s
                    invariant
                        i <= s,
                        s < result@.len(),
                        seqs_view(next@) == lv.take(i as int),
                        lv == seqs_view(result@),
                    decreases s - i,
                {
                    let ghost before = seqs_view(next@);
                    next.push(copy_line(&result[i]));
                    proof {
                        assert(seqs_view(next@) =~= before.push(lv[i as int]));
                        assert(lv.take(i + 1) =~= lv.take(i as int).push(lv[i as int]));
                    }
                    i += 1;
                }
                let mut j: usize = 0;
                while j < new_count
                    invariant
                        j <= new_count,
                        new_count == new_lines@.len(),
                        nl == seqs_view(new_lines@),
                        seqs_view(next@) == lv.take(s as int) + nl.take(j as int),
                    decreases new_count - j,
                {
                    let ghost before = seqs_view(next@);
                    next.push(copy_line(&new_lines[j]));
                    proof {
                        assert(seqs_view(next@) =~= before.push(nl[j as int]));
                        assert(nl.take(j + 1) =~= nl.take(j as int).push(nl[j as int]));
                        assert(lv.take(s as int) + nl.take(j + 1) =~= (lv.take(s as int) + nl.take(j as int)).push(nl[j as int]));
                    }
                    j += 1;
                }
                let n = result.len();
                let mut k: usize = s + c;
                proof {
                    assert(nl.take(new_count as int) =~= nl);
                    assert(lv.skip(s + c).take(0) =~= Seq::<Seq<char>>::empty());
                    assert(seqs_view(next@) =~= lv.take(s as int) + nl + lv.skip(s + c).take(0));
                }
                while k < n
                    invariant
                        s + c <= k <= n,
                        n == result@.len(),
                        lv == seqs_view(result@),
                        seqs_view(next@) == lv.take(s as int) + nl + lv.skip(s + c).take(k - (s + c)),
                    decreases n - k,
                {
                    let ghost before = seqs_view(next@);
                    next.push(copy_line(&result[k]));
                    proof {
                        assert(seqs_view(next@) =~= before.push(lv[k as int]));
                        assert(lv.skip(s + c).take(k + 1 - (s + c)) =~= lv.skip(s + c).take(k - (s + c)).push(lv[k as int]));
                        assert(lv.take(s as int) + nl + lv.skip(s + c).take(k + 1 - (s + c)) =~= (lv.take(s as int) + nl
                            + lv.skip(s + c).take(k - (s + c))).push(lv[k as int]));
                    }
                    k += 1;
                }
                proof {
                    assert(lv.skip(s + c).take(n - (s + c)) =~= lv.skip(s + c));
                    assert(paragraph_at(lv, search_start as int, s as int, c as int, q));
                    let prev = states;
                    states = prev.push((seqs_view(next@), s + nl.len()));
                    assert(prev.last() == (lv, search_start as int));
                    assert(nl == justify_paragraph_spec(lv, s as int, c as int, q, punct@, brackets@, wrap_at as nat, trim_blanks));
                    assert(seqs_view(next@) == with_justified(lv, s as int, c as int, q, punct@, brackets@, wrap_at as nat, trim_blanks));
                    assert(paragraph_at(prev.last().0, prev.last().1, s as int, c as int, q));
                    assert(full_justify_step(prev.last(), states.last(), q, punct@, brackets@, wrap_at as nat, trim_blanks));
                    assert forall|i2: int| 0 <= i2 < states.len() - 1 implies #[trigger] full_justify_step(
                        states[i2],
                        states[i2 + 1],
                        q,
                        punct@,
                        brackets@,
                        wrap_at as nat,
                        trim_blanks,
                    ) by {
                        if i2 < prev.len() - 1 {
                            assert(states[i2] == prev[i2] && states[i2 + 1] == prev[i2 + 1]);
                        } else {
                            assert(states[i2] == prev.last());
                        }
                    }
                }
                let next_len = next.len();
                assert(s + new_count <= next_len);
                result = next;
                search_start = s + new_count;
                touched = true;
            },
        }
    }
    proof {
        assert(full_justify_run(states, quote_view(quote_re), punct@, brackets@, wrap_at as nat, trim_blanks));
    }
    if touched {
        Some(result)
    } else {
        None
    }
}

/// The paragraph beginning at or above line `idx`: the nearest line that
/// begins a paragraph, or the top.
pub open spec fn para_start(lv: Seq<Seq<char>>, idx: int, q: Option<Seq<char>>) -> int
    decreases idx,
{
    if idx <= 0 {
        0
    } else if begpar(lv, idx, q) {
        idx
    } else {
        para_start(lv, idx - 1, q)
    }
}

proof fn lemma_para_start(lv: Seq<Seq<char>>, idx: int, r: int, q: Option<Seq<char>>)
    requires
        0 <= r <= idx,
        r == 0 || begpar(lv, r, q),
        forall|k: int| r < k <= idx ==> !begpar(lv, k, q),
    ensures
        para_start(lv, idx, q) == r,
    decreases idx,
{
    if idx > r {
        assert(!begpar(lv, idx, q));
        lemma_para_start(lv, idx - 1, r, q);
    }
}

/// Justify (nano's `^J`) from line `cursor`: the paragraph the cursor is
/// in (from its beginning when the cursor sits inside it), or else the
/// next one below; its first line, its number of lines, and its new lines.
/// `None` when there is no paragraph there ("Nothing to justify").
pub fn justify_at(
    lines: &[Vec<char>],
    cursor: usize,
    quote_re: Option<&Pattern>,
    punct: &str,
    brackets: &str,
    wrap_at: usize,
    trim_blanks: bool,
) -> (r: Option<(usize, usize, Vec<Vec<char>>)>)
    requires
        cursor < lines@.len(),
    ensures
        ({
            let lv = lines_view(lines);
            let q = quote_view(quote_re);
            let from = if continues(lv, cursor as int, q) {
                para_start(lv, cursor - 1, q)
            } else {
                cursor as int
            };
            match r {
                None => no_paragraph_from(lv, from, q),
                Some((s, c, nl)) => paragraph_at(lv, from, s as int, c as int, q) && seqs_view(nl@)
                    == justify_paragraph_spec(lv, s as int, c as int, q, punct@, brackets@, wrap_at as nat, trim_blanks),
            }
        }),
{
    let ghost lv = lines_view(lines);
    let ghost q = quote_view(quote_re);
    let from = if in_mid_paragraph(lines, cursor, quote_re) {
        let b = para_begin(lines, cursor, quote_re);
        proof {
            assert(cursor > 0);
            lemma_para_start(lv, cursor - 1, b as int, q);
        }
        b
    } else {
        cursor
    };
    match find_paragraph(lines, from, quote_re) {
        None => None,
        Some((s, c)) => {
            let nl = justify_paragraph(lines, s, c, quote_re, punct, brackets, wrap_at, trim_blanks);
            Some((s, c, nl))
        },
    }
}

// ---------------------------------------------------------------------
// Laws.
// ---------------------------------------------------------------------

/// Each line with its first `n` characters dropped, all joined.
pub open spec fn strip_join(ls: Seq<Seq<char>>, n: nat) -> Seq<char>
    decreases ls.len(),
{
    if ls.len() == 0 {
        Seq::empty()
    } else {
        ls[0].skip(n as int) + strip_join(ls.drop_first(), n)
    }
}

/// The first line, then every later line without its first `n` characters.
pub open spec fn unwrap_lines(ls: Seq<Seq<char>>, n: nat) -> Seq<char> {
    if ls.len() == 0 {
        Seq::empty()
    } else {
        ls[0] + strip_join(ls.drop_first(), n)
    }
}

proof fn lemma_rewrap_tail(cur: Seq<char>, lead: Seq<char>, wrap_at: nat)
    requires
        cur.len() >= lead.len(),
        cur.take(lead.len() as int) == lead,
    ensures
        strip_join(rewrap_spec(cur, lead, wrap_at, false), lead.len()) == cur.skip(
            lead.len() as int,
        ),
    decreases cur.len(),
{
    let r = rewrap_spec(cur, lead, wrap_at, false);
    let n = lead.len();
    assert(strip_join(Seq::<Seq<char>>::empty(), n) == Seq::<char>::empty());
    if cur.len() <= wrap_at {
        assert(r =~= seq![cur]);
        assert(r.drop_first() =~= Seq::<Seq<char>>::empty());
        assert(cur.skip(n as int) + Seq::<char>::empty() =~= cur.skip(n as int));
    } else {
        let goal: nat = if wrap_at >= n {
            (wrap_at - n) as nat
        } else {
            0
        };
        lemma_break_line(cur.skip(n as int), goal);
        match break_line_spec(cur.skip(n as int), goal) {
            None => {
                assert(r =~= seq![cur]);
                assert(r.drop_first() =~= Seq::<Seq<char>>::empty());
                assert(cur.skip(n as int) + Seq::<char>::empty() =~= cur.skip(n as int));
            },
            Some(rel) => {
                let bp = n + rel;
                if bp >= cur.len() {
                    assert(r =~= seq![cur]);
                    assert(r.drop_first() =~= Seq::<Seq<char>>::empty());
                    assert(cur.skip(n as int) + Seq::<char>::empty() =~= cur.skip(n as int));
                } else {
                    let next = lead + cur.skip(bp as int);
                    assert(next.take(n as int) =~= lead);
                    lemma_rewrap_tail(next, lead, wrap_at);
                    assert(r == seq![cur.take(bp as int)] + rewrap_spec(next, lead, wrap_at, false));
                    assert(r[0] == cur.take(bp as int));
                    assert(r.drop_first() =~= rewrap_spec(next, lead, wrap_at, false));
                    assert(next.skip(n as int) =~= cur.skip(bp as int));
                    assert(cur.take(bp as int).skip(n as int) + cur.skip(bp as int) =~= cur.skip(
                        n as int,
                    ));
                }
            },
        }
    }
}

/// Rewrapping without trimming blanks only inserts line breaks: the first
/// line followed by every later line with its lead removed gives back the
/// text that was rewrapped.
pub proof fn rewrap_only_inserts_breaks(text: Seq<char>, lead: Seq<char>, wrap_at: nat)
    ensures
        unwrap_lines(rewrap_spec(text, lead, wrap_at, false), lead.len()) == text,
{
    let r = rewrap_spec(text, lead, wrap_at, false);
    let n = lead.len();
    if text.len() <= wrap_at {
        assert(r.drop_first() =~= Seq::<Seq<char>>::empty());
        assert(text + Seq::<char>::empty() =~= text);
    } else {
        let skip: int = if n <= text.len() {
            n as int
        } else {
            text.len() as int
        };
        let goal: nat = if wrap_at >= n {
            (wrap_at - n) as nat
        } else {
            0
        };
        lemma_break_line(text.skip(skip), goal);
        match break_line_spec(text.skip(skip), goal) {
            None => {
                assert(r.drop_first() =~= Seq::<Seq<char>>::empty());
                assert(text + Seq::<char>::empty() =~= text);
            },
            Some(rel) => {
                let bp = skip + rel;
                if bp >= text.len() {
                    assert(r.drop_first() =~= Seq::<Seq<char>>::empty());
                    assert(text + Seq::<char>::empty() =~= text);
                } else {
                    let next = lead + text.skip(bp);
                    assert(next.take(n as int) =~= lead);
                    lemma_rewrap_tail(next, lead, wrap_at);
                    assert(r.drop_first() == rewrap_spec(next, lead, wrap_at, false));
                    assert(next.skip(n as int) =~= text.skip(bp));
                    assert(text.take(bp) + text.skip(bp) =~= text);
                }
            },
        }
    }
}


proof fn lemma_trim_back_above(cur: Seq<char>, e: int, k: int)
    requires
        0 <= k < e <= cur.len(),
        cur[k] != ' ',
    ensures
        trim_back(cur, e) >= k + 1,
    decreases e,
{
    if e > k + 1 && cur[e - 1] == ' ' {
        lemma_trim_back_above(cur, e - 1, k);
    }
}

proof fn lemma_break_after_text(text: Seq<char>, goal: nat)
    ensures
        break_line_spec(text, goal) matches Some(p) ==> indent_len(text) < p && indent_len(text) < text.len() && !is_blank(
            text[indent_len(text) as int],
        ),
{
    let start = indent_len(text) as int;
    lemma_indent_len(text);
    lemma_break_line(text, goal);
    if text.len() > goal {
        let scan_end: int = if start <= goal {
            goal + 1int
        } else {
            start
        };
        lemma_last_blank_in(text, start, scan_end);
        lemma_first_blank_from(text, scan_end);
        let found = match last_blank_in(text, start, scan_end) {
            Some(b) => Some(b),
            None => first_blank_from(text, scan_end),
        };
        if let Some(b) = found {
            lemma_indent_len(text.skip(b + 1));
        }
    }
}

/// Every line of rewrapping a text that starts with `lead` starts with it.
proof fn lemma_rewrap_keeps_lead(cur: Seq<char>, lead: Seq<char>, wrap_at: nat, trim: bool)
    requires
        cur.len() >= lead.len(),
        cur.take(lead.len() as int) == lead,
    ensures
        forall|i: int|
            0 <= i < rewrap_spec(cur, lead, wrap_at, trim).len() ==> (#[trigger] rewrap_spec(cur, lead, wrap_at, trim)[i]).len()
                >= lead.len() && rewrap_spec(cur, lead, wrap_at, trim)[i].take(lead.len() as int) == lead,
    decreases cur.len(),
{
    let r = rewrap_spec(cur, lead, wrap_at, trim);
    let n = lead.len() as int;
    if cur.len() > wrap_at {
        let goal: nat = if wrap_at >= lead.len() {
            (wrap_at - lead.len()) as nat
        } else {
            0
        };
        let text = cur.skip(n);
        lemma_break_line(text, goal);
        lemma_break_after_text(text, goal);
        if let Some(rel) = break_line_spec(text, goal) {
            let bp = n + rel;
            if bp < cur.len() {
                let next = lead + cur.skip(bp);
                assert(next.take(n) =~= lead);
                lemma_rewrap_keeps_lead(next, lead, wrap_at, trim);
                let end = if trim {
                    trim_back(cur, bp)
                } else {
                    bp
                };
                if trim {
                    let k = n + indent_len(text);
                    assert(cur[k] == text[indent_len(text) as int]);
                    lemma_trim_back_above(cur, bp, k);
                    lemma_trim_back(cur, bp);
                }
                assert(r == seq![cur.take(end)] + rewrap_spec(next, lead, wrap_at, trim));
                assert(cur.take(end).take(n) =~= lead);
                assert forall|i: int| 0 <= i < r.len() implies (#[trigger] r[i]).len() >= lead.len() && r[i].take(n) == lead by {
                    if i > 0 {
                        assert(r[i] == rewrap_spec(next, lead, wrap_at, trim)[i - 1]);
                    }
                }
            }
        }
    }
}

/// A justified paragraph's lines after the first all start with the lead
/// (quote and indentation) of the paragraph's second line, or of its only
/// line when it has one: the first line keeps its own indentation, the
/// others take the paragraph's.
pub proof fn law_later_lines_take_the_second_lines_lead(
    lv: Seq<Seq<char>>,
    start: int,
    count: int,
    q: Option<Seq<char>>,
    punct: Seq<char>,
    brackets: Seq<char>,
    wrap_at: nat,
    trim: bool,
)
    requires
        count >= 1,
    ensures
        ({
            let model = if count >= 2 {
                lv[start + 1]
            } else {
                lv[start]
            };
            let lead = model.take(lead_len(q, model) as int);
            let r = justify_paragraph_spec(lv, start, count, q, punct, brackets, wrap_at, trim);
            forall|i: int| 1 <= i < r.len() ==> (#[trigger] r[i]).len() >= lead.len() && r[i].take(lead.len() as int) == lead
        }),
{
    let model = if count >= 2 {
        lv[start + 1]
    } else {
        lv[start]
    };
    lemma_quote_len(q, model);
    let lead = model.take(lead_len(q, model) as int);
    let n = lead.len() as int;
    let cur = concat_and_squeeze_spec(lv, start, count, q, punct, brackets);
    let r = rewrap_spec(cur, lead, wrap_at, trim);
    assert(r == justify_paragraph_spec(lv, start, count, q, punct, brackets, wrap_at, trim));
    if cur.len() > wrap_at {
        let skip: int = if n <= cur.len() {
            n
        } else {
            cur.len() as int
        };
        let goal: nat = if wrap_at >= lead.len() {
            (wrap_at - lead.len()) as nat
        } else {
            0
        };
        lemma_break_line(cur.skip(skip), goal);
        if let Some(rel) = break_line_spec(cur.skip(skip), goal) {
            let bp = skip + rel;
            if bp < cur.len() {
                let next = lead + cur.skip(bp);
                assert(next.take(n) =~= lead);
                lemma_rewrap_keeps_lead(next, lead, wrap_at, trim);
                let end = if trim {
                    trim_back(cur, bp)
                } else {
                    bp
                };
                assert(r == seq![cur.take(end)] + rewrap_spec(next, lead, wrap_at, trim));
                assert forall|i: int| 1 <= i < r.len() implies (#[trigger] r[i]).len() >= lead.len() && r[i].take(n) == lead by {
                    assert(r[i] == rewrap_spec(next, lead, wrap_at, trim)[i - 1]);
                }
            }
        }
    }
}

} // verus!
