//! Small conversions between `str`/`String` and character vectors, the
//! representation the rest of the library computes on.

use vstd::prelude::*;

verus! {

/// The characters of `s`, in order (std's `str::chars` collected).
#[verifier::external_body]
pub fn str_chars(s: &str) -> (v: Vec<char>)
    ensures
        v@ == s@,
{
    s.chars().collect()
}

/// A `String` holding exactly the characters `cs` (std's `FromIterator<char>`).
#[verifier::external_body]
pub fn string_from_chars(cs: &[char]) -> (s: String)
    ensures
        s@ == cs@,
{
    cs.iter().collect()
}

/// What std's `str::to_lowercase` gives for `s` (Unicode lowercase
/// mapping, which may change the number of characters).
pub uninterp spec fn unicode_lowercase(s: Seq<char>) -> Seq<char>;

/// std's `str::to_lowercase`. The contract claims only that the result is
/// the named lowercase mapping of `s`.
#[verifier::external_body]
pub fn to_lowercase(s: &str) -> (r: String)
    ensures
        r@ == unicode_lowercase(s@),
{
    s.to_lowercase()
}

/// Whether `c` is alphabetic or numeric in Unicode's sense (std's
/// `char::is_alphanumeric`), named for what it returns.
pub uninterp spec fn unicode_alphanumeric(c: char) -> bool;

/// std's `char::is_alphanumeric`. The contract claims only that the answer
/// is the named Unicode property of `c`.
#[verifier::external_body]
pub(crate) fn is_alphanumeric(c: char) -> (r: bool)
    ensures
        r == unicode_alphanumeric(c),
{
    c.is_alphanumeric()
}

/// Character-wise equality of two string slices.
pub fn str_eq(a: &str, b: &str) -> (r: bool)
    ensures
        r == (a@ == b@),
{
    let cs = str_chars(a);
    chars_eq_str(cs.as_slice(), b)
}

/// Whether the characters `cs` spell out exactly `lit`.
pub fn chars_eq_str(cs: &[char], lit: &str) -> (r: bool)
    ensures
        r == (cs@ == lit@),
{
    let l = str_chars(lit);
    if cs.len() != l.len() {
        return false;
    }
    let mut i: usize = 0;
    while i < cs.len()
        invariant
            i <= cs.len(),
            cs.len() == l.len(),
            l@ == lit@,
            forall|j: int| 0 <= j < i ==> cs@[j] == l@[j],
        decreases cs.len() - i,
    {
        if cs[i] != l[i] {
            return false;
        }
        i += 1;
    }
    assert(cs@ =~= l@);
    true
}

/// Whether `c` occurs among `cs`.
pub fn chars_contain(cs: &[char], c: char) -> (r: bool)
    ensures
        r == cs@.contains(c),
{
    let mut i: usize = 0;
    while i < cs.len()
        invariant
            i <= cs.len(),
            forall|j: int| 0 <= j < i ==> cs@[j] != c,
        decreases cs.len() - i,
    {
        if cs[i] == c {
            assert(cs@[i as int] == c);
            return true;
        }
        i += 1;
    }
    false
}

/// Append `src[lo..hi]` to `out`.
pub fn push_range(out: &mut Vec<char>, src: &[char], lo: usize, hi: usize)
    requires
        lo <= hi <= src@.len(),
    ensures
        final(out)@ == old(out)@ + src@.subrange(lo as int, hi as int),
{
    let ghost start = out@;
    let mut i = lo;
    while i < hi
        invariant
            lo <= i <= hi,
            hi <= src@.len(),
            out@ == start + src@.subrange(lo as int, i as int),
        decreases hi - i,
    {
        out.push(src[i]);
        assert(src@.subrange(lo as int, i + 1) =~= src@.subrange(lo as int, i as int).push(src@[i as int]));
        i += 1;
    }
}

/// A fresh vector holding `src[lo..hi]`.
pub fn sub_chars(src: &[char], lo: usize, hi: usize) -> (v: Vec<char>)
    requires
        lo <= hi <= src@.len(),
    ensures
        v@ == src@.subrange(lo as int, hi as int),
{
    let mut v = Vec::new();
    push_range(&mut v, src, lo, hi);
    assert(v@ =~= src@.subrange(lo as int, hi as int));
    v
}

/// The characters of `lines`, one after another.
pub open spec fn join(lines: Seq<Seq<char>>) -> Seq<char>
    decreases lines.len(),
{
    if lines.len() == 0 {
        Seq::empty()
    } else {
        join(lines.drop_last()) + lines.last()
    }
}

pub proof fn lemma_join_append(a: Seq<Seq<char>>, b: Seq<Seq<char>>)
    ensures
        join(a + b) == join(a) + join(b),
    decreases b.len(),
{
    if b.len() == 0 {
        assert(a + b =~= a);
        assert(join(b) =~= Seq::<char>::empty());
        assert(join(a) + join(b) =~= join(a));
    } else {
        lemma_join_append(a, b.drop_last());
        assert((a + b).drop_last() =~= a + b.drop_last());
        assert((a + b).last() == b.last());
        assert(join(a) + join(b.drop_last()) + b.last() =~= join(a) + (join(b.drop_last()) + b.last()));
    }
}

/// The characters of all strings in `v`, one after another.
pub open spec fn join_strings(v: Seq<String>) -> Seq<char> {
    join(v.map_values(|s: String| s@))
}

/// ASCII letters.
pub open spec fn is_ascii_alpha(c: char) -> bool {
    ('a' <= c && c <= 'z') || ('A' <= c && c <= 'Z')
}

/// `c` with an ASCII lowercase letter made uppercase.
pub open spec fn ascii_upper(c: char) -> char {
    if 'a' <= c && c <= 'z' {
        ((c as int) - 32) as char
    } else {
        c
    }
}

/// `c` with an ASCII uppercase letter made lowercase.
pub open spec fn ascii_lower(c: char) -> char {
    if 'A' <= c && c <= 'Z' {
        ((c as int) + 32) as char
    } else {
        c
    }
}

pub fn to_ascii_upper(c: char) -> (r: char)
    ensures
        r == ascii_upper(c),
{
    if 'a' <= c && c <= 'z' {
        ((c as u8) - 32) as char
    } else {
        c
    }
}

pub fn to_ascii_lower(c: char) -> (r: char)
    ensures
        r == ascii_lower(c),
{
    if 'A' <= c && c <= 'Z' {
        ((c as u8) + 32) as char
    } else {
        c
    }
}

/// Equality of two texts ignoring ASCII case (std's `eq_ignore_ascii_case`).
pub open spec fn ascii_eq_ignore_case(a: Seq<char>, b: Seq<char>) -> bool {
    a.len() == b.len() && forall|i: int| 0 <= i < a.len() ==> ascii_lower(#[trigger] a[i]) == ascii_lower(b[i])
}

pub fn eq_ignore_case(s: &[char], lit: &str) -> (r: bool)
    ensures
        r == ascii_eq_ignore_case(s@, lit@),
{
    let l = str_chars(lit);
    if s.len() != l.len() {
        return false;
    }
    let mut i: usize = 0;
    while i < s.len()
        invariant
            i <= s.len(),
            s.len() == l.len(),
            l@ == lit@,
            forall|j: int| 0 <= j < i ==> ascii_lower(#[trigger] s@[j]) == ascii_lower(l@[j]),
        decreases s.len() - i,
    {
        if to_ascii_lower(s[i]) != to_ascii_lower(l[i]) {
            return false;
        }
        i += 1;
    }
    true
}

/// Whether `s` starts with `p`.
pub open spec fn starts_with(s: Seq<char>, p: Seq<char>) -> bool {
    p.len() <= s.len() && s.take(p.len() as int) == p
}

pub fn has_prefix(s: &[char], lit: &str) -> (r: bool)
    ensures
        r == starts_with(s@, lit@),
{
    let l = str_chars(lit);
    if l.len() > s.len() {
        return false;
    }
    let mut i: usize = 0;
    while i < l.len()
        invariant
            i <= l.len(),
            l.len() <= s.len(),
            l@ == lit@,
            forall|j: int| 0 <= j < i ==> s@[j] == l@[j],
        decreases l.len() - i,
    {
        if s[i] != l[i] {
            return false;
        }
        i += 1;
    }
    assert(s@.take(l.len() as int) =~= l@);
    true
}

pub open spec fn is_digit(c: char) -> bool {
    '0' <= c && c <= '9'
}

pub open spec fn all_digits(s: Seq<char>) -> bool {
    forall|i: int| 0 <= i < s.len() ==> is_digit(#[trigger] s[i])
}

/// The value of a string of decimal digits.
pub open spec fn digits_value(s: Seq<char>) -> nat
    decreases s.len(),
{
    if s.len() == 0 {
        0
    } else {
        digits_value(s.drop_last()) * 10 + ((s.last() as int) - ('0' as int)) as nat
    }
}

/// The value of one or more decimal digits, and nothing else.
pub open spec fn digits_only_value(d: Seq<char>) -> Option<nat> {
    if d.len() > 0 && all_digits(d) {
        Some(digits_value(d))
    } else {
        None
    }
}

/// The value of an unsigned integer as std's `from_str` reads it: an
/// optional '+', then one or more decimal digits.
pub open spec fn unsigned_value(s: Seq<char>) -> Option<nat> {
    digits_only_value(if s.len() > 0 && s[0] == '+' { s.drop_first() } else { s })
}

/// The value of a signed integer as std's `from_str` reads it: an optional
/// '+' or '-', then one or more decimal digits.
pub open spec fn signed_value(s: Seq<char>) -> Option<int> {
    if s.len() > 0 && s[0] == '-' {
        match digits_only_value(s.drop_first()) {
            Some(v) => Some(-v),
            None => None,
        }
    } else {
        match unsigned_value(s) {
            Some(v) => Some(v as int),
            None => None,
        }
    }
}

proof fn lemma_digits_value_grows(s: Seq<char>, i: int)
    requires
        0 <= i <= s.len(),
        all_digits(s),
    ensures
        digits_value(s.take(i)) <= digits_value(s),
    decreases s.len() - i,
{
    if i < s.len() {
        lemma_digits_value_grows(s, i + 1);
        assert(s.take(i + 1).drop_last() =~= s.take(i));
        assert(is_digit(s[i]));
    } else {
        assert(s.take(i) =~= s);
    }
}

/// Parse the digits `s[start..]` as a number no greater than `max`: `None`
/// unless they are one or more decimal digits with a value up to `max`.
pub fn parse_digits_from(s: &[char], start: usize, max: u64) -> (r: Option<u64>)
    requires
        start <= s@.len(),
    ensures
        match digits_only_value(s@.skip(start as int)) {
            Some(v) => if v <= max { r == Some(v as u64) } else { r is None },
            None => r is None,
        },
{
    let ghost d = s@.skip(start as int);
    if start >= s.len() {
        return None;
    }
    let mut i = start;
    let mut v: u64 = 0;
    let mut over = false;
    while i < s.len()
        invariant
            start <= i <= s.len(),
            d == s@.skip(start as int),
            forall|j: int| 0 <= j < i - start ==> is_digit(#[trigger] d[j]),
            !over ==> v == digits_value(d.take(i - start)) && v <= max,
            over ==> digits_value(d.take(i - start)) > max,
        decreases s.len() - i,
    {
        let c = s[i];
        if !('0' <= c && c <= '9') {
            assert(!is_digit(d[i - start]));
            assert(!all_digits(d));
            return None;
        }
        proof {
            assert(d[i - start] == c);
            assert(d.take(i - start + 1).drop_last() =~= d.take(i - start));
        }
        let dv = (c as u32 - '0' as u32) as u64;
        if !over {
            if dv > max || v > (max - dv) / 10 {
                over = true;
                proof {
                    if dv <= max {
                        assert(v * 10 + dv > max) by (nonlinear_arith)
                            requires v > (max - dv) / 10, dv <= max, dv >= 0,
                        {
                        }
                    }
                }
            } else {
                proof {
                    assert(v * 10 + dv <= max) by (nonlinear_arith)
                        requires v <= (max - dv) / 10, dv <= 9, max >= dv,
                    {
                    }
                }
                v = v * 10 + dv;
            }
        } else {
            proof {
                assert(digits_value(d.take(i - start + 1)) >= digits_value(d.take(i - start)) * 10);
                assert(digits_value(d.take(i - start)) * 10 >= digits_value(d.take(i - start))) by (nonlinear_arith);
            }
        }
        i += 1;
    }
    proof {
        assert(d.take(i - start) =~= d);
        assert(all_digits(d));
    }
    if over {
        None
    } else {
        Some(v)
    }
}

/// Parse an unsigned integer no greater than `max` the way std's `from_str`
/// does: `None` for anything but an optional '+' and decimal digits, or for
/// a value over `max`.
pub fn parse_unsigned(s: &[char], max: u64) -> (r: Option<u64>)
    ensures
        match unsigned_value(s@) {
            Some(v) => if v <= max { r == Some(v as u64) } else { r is None },
            None => r is None,
        },
{
    let start: usize = if s.len() > 0 && s[0] == '+' { 1 } else { 0 };
    proof {
        assert(s@.skip(start as int) =~= (if s@.len() > 0 && s@[0] == '+' { s@.drop_first() } else { s@ }));
    }
    parse_digits_from(s, start, max)
}

/// Parse an `i32` the way std's `from_str` does.
pub fn parse_i32(s: &[char]) -> (r: Option<i32>)
    ensures
        match signed_value(s@) {
            Some(v) => if i32::MIN <= v <= i32::MAX { r == Some(v as i32) } else { r is None },
            None => r is None,
        },
{
    if s.len() > 0 && s[0] == '-' {
        proof {
            assert(s@.skip(1) =~= s@.drop_first());
        }
        match parse_digits_from(s, 1, 2147483648) {
            Some(v) => Some((0 - (v as i64)) as i32),
            None => None,
        }
    } else {
        match parse_unsigned(s, 2147483647) {
            Some(v) => Some(v as i32),
            None => None,
        }
    }
}

/// Unicode white space, as std's `char::is_whitespace` defines it.
pub open spec fn is_space(c: char) -> bool {
    c == '\t' || c == '\n' || c == '\u{b}' || c == '\u{c}' || c == '\r' || c == ' ' || c == '\u{85}' || c == '\u{a0}'
        || c == '\u{1680}' || ('\u{2000}' <= c && c <= '\u{200a}') || c == '\u{2028}' || c == '\u{2029}'
        || c == '\u{202f}' || c == '\u{205f}' || c == '\u{3000}'
}

pub fn is_space_exec(c: char) -> (r: bool)
    ensures
        r == is_space(c),
{
    c == '\t' || c == '\n' || c == '\u{b}' || c == '\u{c}' || c == '\r' || c == ' ' || c == '\u{85}' || c == '\u{a0}'
        || c == '\u{1680}' || ('\u{2000}' <= c && c <= '\u{200a}') || c == '\u{2028}' || c == '\u{2029}'
        || c == '\u{202f}' || c == '\u{205f}' || c == '\u{3000}'
}

/// `s` without leading white space.
pub open spec fn trim_start(s: Seq<char>) -> Seq<char>
    decreases s.len(),
{
    if s.len() > 0 && is_space(s[0]) {
        trim_start(s.drop_first())
    } else {
        s
    }
}

pub proof fn lemma_trim_start_idempotent(s: Seq<char>)
    ensures
        trim_start(trim_start(s)) == trim_start(s),
    decreases s.len(),
{
    if s.len() > 0 && is_space(s[0]) {
        lemma_trim_start_idempotent(s.drop_first());
    }
}

/// The characters of `s` without leading white space.
pub fn trim_start_chars(s: &[char]) -> (r: Vec<char>)
    ensures
        r@ == trim_start(s@),
{
    let mut lo: usize = 0;
    let n = s.len();
    proof {
        assert(s@.skip(0) =~= s@);
    }
    while lo < n && is_space_exec(s[lo])
        invariant
            n == s@.len(),
            lo <= n,
            trim_start(s@) == trim_start(s@.skip(lo as int)),
        decreases n - lo,
    {
        proof {
            assert(s@.skip(lo as int).drop_first() =~= s@.skip(lo + 1));
        }
        lo += 1;
    }
    proof {
        if lo == n {
            assert(s@.skip(lo as int).len() == 0);
        }
        assert(s@.subrange(lo as int, n as int) =~= s@.skip(lo as int));
    }
    sub_chars(s, lo, n)
}

/// `s` without trailing white space.
pub open spec fn trim_end(s: Seq<char>) -> Seq<char>
    decreases s.len(),
{
    if s.len() > 0 && is_space(s.last()) {
        trim_end(s.drop_last())
    } else {
        s
    }
}

/// `s` without leading or trailing white space (std's `str::trim`).
pub open spec fn trimmed(s: Seq<char>) -> Seq<char> {
    trim_end(trim_start(s))
}

/// The characters of `s`, without leading and trailing white space.
pub fn trim_chars(s: &[char]) -> (r: Vec<char>)
    ensures
        r@ == trimmed(s@),
{
    let mut lo: usize = 0;
    proof {
        assert(s@.skip(0) =~= s@);
    }
    while lo < s.len() && is_space_exec(s[lo])
        invariant
            lo <= s@.len(),
            trim_start(s@) == trim_start(s@.skip(lo as int)),
        decreases s.len() - lo,
    {
        proof {
            assert(s@.skip(lo as int).drop_first() =~= s@.skip(lo + 1));
        }
        lo += 1;
    }
    proof {
        if lo == s.len() {
            assert(s@.skip(lo as int).len() == 0);
        }
    }
    let ghost front = s@.skip(lo as int);
    let mut hi: usize = s.len();
    while hi > lo && is_space_exec(s[hi - 1])
        invariant
            lo <= hi <= s@.len(),
            front == s@.skip(lo as int),
            trim_end(front) == trim_end(s@.subrange(lo as int, hi as int)),
        decreases hi,
    {
        proof {
            assert(s@.subrange(lo as int, hi as int).drop_last() =~= s@.subrange(lo as int, hi - 1));
        }
        hi -= 1;
    }
    proof {
        assert(front =~= s@.subrange(lo as int, s@.len() as int));
    }
    sub_chars(s, lo, hi)
}

/// The pieces of `s` between occurrences of `sep`, empty ones included.
pub open spec fn pieces(s: Seq<char>, sep: char) -> Seq<Seq<char>>
    decreases s.len(),
{
    if s.len() == 0 {
        seq![Seq::empty()]
    } else {
        let p = pieces(s.drop_last(), sep);
        if s.last() == sep {
            p.push(Seq::empty())
        } else {
            p.update(p.len() - 1, p.last().push(s.last()))
        }
    }
}

pub proof fn lemma_pieces_nonempty(s: Seq<char>, sep: char)
    ensures
        pieces(s, sep).len() > 0,
    decreases s.len(),
{
    if s.len() > 0 {
        lemma_pieces_nonempty(s.drop_last(), sep);
    }
}

/// A line that ended with a line feed, without a carriage return before it.
pub open spec fn strip_cr(line: Seq<char>) -> Seq<char> {
    if line.len() > 0 && line.last() == '\r' {
        line.drop_last()
    } else {
        line
    }
}

/// The lines of `text` as std's `str::lines` gives them: split after each
/// line feed, a carriage return just before it dropped, and a final line
/// without a line feed kept as it is (an empty one is no line).
pub open spec fn lines_of(text: Seq<char>) -> Seq<Seq<char>> {
    let p = pieces(text, '\n');
    let ended = p.drop_last().map_values(|l: Seq<char>| strip_cr(l));
    if p.last().len() > 0 {
        ended.push(p.last())
    } else {
        ended
    }
}

/// The lines of `text` (std's `str::lines`), each as its characters.
pub fn split_lines(text: &str) -> (r: Vec<Vec<char>>)
    ensures
        r@.map_values(|l: Vec<char>| l@) == lines_of(text@),
{
    let cs = str_chars(text);
    let mut out: Vec<Vec<char>> = Vec::new();
    let mut cur: Vec<char> = Vec::new();
    let mut i: usize = 0;
    proof {
        assert(cs@.take(0) =~= Seq::<char>::empty());
        assert(out@.map_values(|l: Vec<char>| l@) =~= Seq::<Seq<char>>::empty());
    }
    while i < cs.len()
        invariant
            i <= cs@.len(),
            cs@ == text@,
            pieces(cs@.take(i as int), '\n').len() > 0,
            pieces(cs@.take(i as int), '\n').last() == cur@,
            out@.map_values(|l: Vec<char>| l@) == pieces(cs@.take(i as int), '\n').drop_last().map_values(
                |l: Seq<char>| strip_cr(l),
            ),
        decreases cs.len() - i,
    {
        let c = cs[i];
        proof {
            assert(cs@.take(i + 1).drop_last() =~= cs@.take(i as int));
            lemma_pieces_nonempty(cs@.take(i as int), '\n');
        }
        let ghost prev = pieces(cs@.take(i as int), '\n');
        let ghost before = out@.map_values(|l: Vec<char>| l@);
        if c == '\n' {
            let n = cur.len();
            let stripped = if n > 0 && cur[n - 1] == '\r' {
                sub_chars(cur.as_slice(), 0, n - 1)
            } else {
                sub_chars(cur.as_slice(), 0, n)
            };
            proof {
                assert(stripped@ =~= strip_cr(cur@));
            }
            out.push(stripped);
            proof {
                assert(pieces(cs@.take(i + 1), '\n') == prev.push(Seq::empty()));
                assert(prev.push(Seq::<char>::empty()).drop_last() =~= prev);
                assert(prev.drop_last().push(prev.last()) =~= prev);
                assert(out@.map_values(|l: Vec<char>| l@) =~= before.push(strip_cr(cur@)));
                assert(prev.map_values(|l: Seq<char>| strip_cr(l)) =~= prev.drop_last().map_values(
                    |l: Seq<char>| strip_cr(l),
                ).push(strip_cr(prev.last())));
            }
            cur = Vec::new();
        } else {
            cur.push(c);
            proof {
                let next = prev.update(prev.len() - 1, prev.last().push(c));
                assert(next.drop_last() =~= prev.drop_last());
            }
        }
        i += 1;
    }
    proof {
        assert(cs@.take(cs@.len() as int) =~= cs@);
    }
    if cur.len() > 0 {
        let ghost before = out@.map_values(|l: Vec<char>| l@);
        out.push(cur);
        proof {
            assert(out@.map_values(|l: Vec<char>| l@) =~= before.push(out@.last()@));
        }
    }
    out
}

/// The index of the first `c` in `s`, if any.
pub open spec fn first_index(s: Seq<char>, c: char) -> Option<int>
    decreases s.len(),
{
    if s.len() == 0 {
        None
    } else if s[0] == c {
        Some(0)
    } else {
        match first_index(s.drop_first(), c) {
            Some(i) => Some(i + 1),
            None => None,
        }
    }
}

pub proof fn lemma_first_index(s: Seq<char>, c: char)
    ensures
        match first_index(s, c) {
            Some(i) => 0 <= i < s.len() && s[i] == c,
            None => forall|j: int| 0 <= j < s.len() ==> s[j] != c,
        },
    decreases s.len(),
{
    if s.len() > 0 && s[0] != c {
        lemma_first_index(s.drop_first(), c);
        if first_index(s, c) is None {
            assert forall|j: int| 0 <= j < s.len() implies s[j] != c by {
                if j > 0 {
                    assert(s[j] == s.drop_first()[j - 1]);
                }
            }
        }
    }
}

/// The index of the first `c` in `s`, if any (std's `find` for a char).
pub fn find_char(s: &[char], c: char) -> (r: Option<usize>)
    ensures
        r == match first_index(s@, c) {
            Some(i) => Some(i as usize),
            None => None::<usize>,
        },
        match first_index(s@, c) {
            Some(i) => 0 <= i < s@.len(),
            None => true,
        },
        match r {
            Some(i) => i < s@.len(),
            None => true,
        },
{
    let mut i: usize = 0;
    proof {
        assert(s@.skip(0) =~= s@);
        lemma_first_index(s@, c);
    }
    while i < s.len() && s[i] != c
        invariant
            i <= s@.len(),
            first_index(s@, c) == (match first_index(s@.skip(i as int), c) {
                Some(k) => Some(k + i),
                None => None::<int>,
            }),
        decreases s.len() - i,
    {
        proof {
            assert(s@.skip(i as int).drop_first() =~= s@.skip(i + 1));
        }
        i += 1;
    }
    if i < s.len() {
        assert(s@.skip(i as int)[0] == c);
        Some(i)
    } else {
        assert(s@.skip(i as int).len() == 0);
        None
    }
}

/// The index of the first occurrence of `p` in `s`, if any (std's
/// `str::find` with a string pattern, counted in characters).
pub open spec fn sub_index(s: Seq<char>, p: Seq<char>) -> Option<int>
    decreases s.len(),
{
    if starts_with(s, p) {
        Some(0)
    } else if s.len() == 0 {
        None
    } else {
        match sub_index(s.drop_first(), p) {
            Some(i) => Some(i + 1),
            None => None,
        }
    }
}

pub proof fn lemma_sub_index(s: Seq<char>, p: Seq<char>)
    ensures
        match sub_index(s, p) {
            Some(i) => 0 <= i && i + p.len() <= s.len() && starts_with(s.skip(i), p),
            None => true,
        },
    decreases s.len(),
{
    if !starts_with(s, p) && s.len() > 0 {
        lemma_sub_index(s.drop_first(), p);
        match sub_index(s.drop_first(), p) {
            Some(i) => {
                assert(s.drop_first().skip(i) =~= s.skip(i + 1));
            },
            None => {},
        }
    } else if starts_with(s, p) {
        assert(s.skip(0) =~= s);
    }
}

/// Whether `lit` occurs in `s` at index `at`.
pub fn occurs_at(s: &[char], at: usize, lit: &[char]) -> (r: bool)
    requires
        at <= s@.len(),
    ensures
        r == starts_with(s@.skip(at as int), lit@),
{
    let n = s.len();
    if lit.len() > n - at {
        return false;
    }
    let mut i: usize = 0;
    while i < lit.len()
        invariant
            n == s@.len(),
            i <= lit@.len(),
            at + lit@.len() <= s@.len(),
            forall|j: int| 0 <= j < i ==> s@[at + j] == lit@[j],
        decreases lit.len() - i,
    {
        if s[at + i] != lit[i] {
            assert(s@.skip(at as int).take(lit@.len() as int)[i as int] == s@[at + i]);
            return false;
        }
        i += 1;
    }
    assert(s@.skip(at as int).take(lit@.len() as int) =~= lit@);
    true
}

/// The index of the first occurrence of `lit` in `s` at or after `from`
/// (std's `str::find`, counted in characters).
pub fn find_text(s: &[char], from: usize, lit: &[char]) -> (r: Option<usize>)
    requires
        from <= s@.len(),
    ensures
        r == match sub_index(s@.skip(from as int), lit@) {
            Some(i) => Some((i + from) as usize),
            None => None::<usize>,
        },
        match r {
            Some(i) => from <= i && i + lit@.len() <= s@.len(),
            None => true,
        },
{
    let mut i: usize = from;
    proof {
        lemma_sub_index(s@.skip(from as int), lit@);
    }
    loop
        invariant
            from <= i <= s@.len(),
            sub_index(s@.skip(from as int), lit@) == (match sub_index(s@.skip(i as int), lit@) {
                Some(k) => Some(k + (i - from)),
                None => None::<int>,
            }),
        decreases s@.len() - i,
    {
        if occurs_at(s, i, lit) {
            return Some(i);
        }
        if i == s.len() {
            return None;
        }
        proof {
            assert(s@.skip(i as int).drop_first() =~= s@.skip(i + 1));
        }
        i += 1;
    }
}

/// `s` with ASCII letters made lowercase (std's `to_ascii_lowercase`).
pub open spec fn ascii_lowercase(s: Seq<char>) -> Seq<char> {
    s.map_values(|c: char| ascii_lower(c))
}

pub proof fn lemma_lowercase_idempotent(s: Seq<char>)
    ensures
        ascii_lowercase(ascii_lowercase(s)) == ascii_lowercase(s),
{
    assert forall|i: int| 0 <= i < s.len() implies ascii_lower(ascii_lower(#[trigger] s[i])) == ascii_lower(s[i]) by {
        let c = s[i];
        if 'A' <= c && c <= 'Z' {
            assert('a' <= ascii_lower(c) && ascii_lower(c) <= 'z');
        }
    }
    assert(ascii_lowercase(ascii_lowercase(s)) =~= ascii_lowercase(s));
}

pub fn lowercase_chars(s: &[char]) -> (r: Vec<char>)
    ensures
        r@ == ascii_lowercase(s@),
{
    let mut r: Vec<char> = Vec::new();
    let mut i: usize = 0;
    while i < s.len()
        invariant
            i <= s@.len(),
            r@ == ascii_lowercase(s@.take(i as int)),
        decreases s.len() - i,
    {
        r.push(to_ascii_lower(s[i]));
        proof {
            assert(ascii_lowercase(s@.take(i + 1)) =~= ascii_lowercase(s@.take(i as int)).push(ascii_lower(s@[i as int])));
        }
        i += 1;
    }
    proof {
        assert(s@.take(s@.len() as int) =~= s@);
    }
    r
}

/// A prefix one longer holds what the shorter one holds, and the next item.
pub proof fn lemma_take_one_more<T>(s: Seq<T>, i: int, x: T)
    requires
        0 <= i < s.len(),
    ensures
        s.take(i + 1).contains(x) <==> (s.take(i).contains(x) || x == s[i]),
{
    let a = s.take(i);
    let b = s.take(i + 1);
    if b.contains(x) {
        let j = choose|j: int| 0 <= j < b.len() && b[j] == x;
        if j < i {
            assert(a[j] == x);
        }
    }
    if a.contains(x) {
        let j = choose|j: int| 0 <= j < a.len() && a[j] == x;
        assert(b[j] == x);
    }
    if x == s[i] {
        assert(b[i] == x);
    }
}

/// The decimal digit character for `d` (`0 <= d < 10`).
pub open spec fn digit_char(d: nat) -> char {
    if d == 0 { '0' }
    else if d == 1 { '1' }
    else if d == 2 { '2' }
    else if d == 3 { '3' }
    else if d == 4 { '4' }
    else if d == 5 { '5' }
    else if d == 6 { '6' }
    else if d == 7 { '7' }
    else if d == 8 { '8' }
    else { '9' }
}

/// The decimal spelling of `n`, without sign or leading zeros.
pub open spec fn decimal(n: nat) -> Seq<char>
    decreases n,
{
    if n < 10 {
        seq![digit_char(n)]
    } else {
        decimal(n / 10).push(digit_char(n % 10))
    }
}

fn digit(d: usize) -> (c: char)
    requires
        d < 10,
    ensures
        c == digit_char(d as nat),
{
    match d {
        0 => '0',
        1 => '1',
        2 => '2',
        3 => '3',
        4 => '4',
        5 => '5',
        6 => '6',
        7 => '7',
        8 => '8',
        _ => '9',
    }
}

/// Append the decimal spelling of `n` to `out`.
pub fn push_decimal(out: &mut Vec<char>, n: usize)
    ensures
        final(out)@ == old(out)@ + decimal(n as nat),
    decreases n,
{
    if n >= 10 {
        push_decimal(out, n / 10);
    }
    out.push(digit(n % 10));
    proof {
        if n >= 10 {
            assert(decimal(n as nat) == decimal((n / 10) as nat).push(digit_char((n % 10) as nat)));
        }
    }
}

/// Append all of `src` to `out`.
pub fn push_all(out: &mut Vec<char>, src: &[char])
    ensures
        final(out)@ == old(out)@ + src@,
{
    push_range(out, src, 0, src.len());
    assert(src@.subrange(0, src@.len() as int) =~= src@);
}

/// Append the characters of `s` to `out`.
pub fn push_str(out: &mut Vec<char>, s: &str)
    ensures
        final(out)@ == old(out)@ + s@,
{
    let cs = str_chars(s);
    push_all(out, cs.as_slice());
}

} // verus!
