//! The language registry: each language's name and the other names it goes
//! by in a modeline or a heredoc marker.

use crate::help::{text_lt};
use crate::text::{find_char, find_text, first_index, has_prefix, is_space, is_space_exec, lowercase_chars, starts_with, str_chars, str_eq, string_from_chars, sub_chars, sub_index, trim_chars, trimmed};
use vstd::prelude::*;

verus! {

/// The languages, in registry order, each with its other names.
pub open spec fn registry() -> Seq<(Seq<char>, Seq<Seq<char>>)> {
    seq![
        ("perl"@, seq!["cperl"@]),
        ("c"@, seq![]),
        ("cpp"@, seq!["c++"@]),
        ("html"@, seq![]),
        ("css"@, seq![]),
        ("sql"@, seq![]),
        ("python"@, seq!["py"@]),
        ("rust"@, seq![]),
        ("bash"@, seq!["sh"@, "zsh"@]),
        ("json"@, seq![]),
        ("yaml"@, seq![]),
        ("toml"@, seq![]),
        ("make"@, seq!["makefile"@]),
        ("fortran"@, seq!["f90"@]),
        ("go"@, seq![]),
        ("javascript"@, seq!["js"@]),
        ("typescript"@, seq!["ts"@]),
        ("java"@, seq![]),
        ("ruby"@, seq!["rb"@]),
        ("php"@, seq![]),
        ("csharp"@, seq!["cs"@, "c#"@]),
        ("swift"@, seq![]),
        ("haskell"@, seq![]),
        ("scala"@, seq![]),
        ("objc"@, seq!["objc"@, "objective-c"@]),
        ("r"@, seq![]),
        ("julia"@, seq![]),
        ("xml"@, seq![]),
        ("diff"@, seq![]),
        ("ini"@, seq!["cfg"@, "dosini"@]),
        ("elixir"@, seq![]),
        ("elm"@, seq![]),
        ("zig"@, seq![]),
        ("dart"@, seq![]),
        ("scss"@, seq![]),
        ("proto"@, seq!["protobuf"@]),
        ("cmake"@, seq![]),
        ("nix"@, seq![]),
        ("vim"@, seq!["viml"@]),
        ("lua"@, seq![]),
        ("markdown"@, seq!["md"@]),
    ]
}

fn registry_exec() -> (v: Vec<(&'static str, Vec<&'static str>)>)
    ensures
        v@.len() == registry().len(),
        forall|i: int| 0 <= i < v@.len() ==> (#[trigger] v@[i]).0@ == registry()[i].0 && v@[i].1@.len() == registry()[i].1.len()
            && forall|j: int| 0 <= j < v@[i].1@.len() ==> (#[trigger] v@[i].1@[j])@ == registry()[i].1[j],
{
    let v = vec![
        ("perl", vec!["cperl"]),
        ("c", vec![]),
        ("cpp", vec!["c++"]),
        ("html", vec![]),
        ("css", vec![]),
        ("sql", vec![]),
        ("python", vec!["py"]),
        ("rust", vec![]),
        ("bash", vec!["sh", "zsh"]),
        ("json", vec![]),
        ("yaml", vec![]),
        ("toml", vec![]),
        ("make", vec!["makefile"]),
        ("fortran", vec!["f90"]),
        ("go", vec![]),
        ("javascript", vec!["js"]),
        ("typescript", vec!["ts"]),
        ("java", vec![]),
        ("ruby", vec!["rb"]),
        ("php", vec![]),
        ("csharp", vec!["cs", "c#"]),
        ("swift", vec![]),
        ("haskell", vec![]),
        ("scala", vec![]),
        ("objc", vec!["objc", "objective-c"]),
        ("r", vec![]),
        ("julia", vec![]),
        ("xml", vec![]),
        ("diff", vec![]),
        ("ini", vec!["cfg", "dosini"]),
        ("elixir", vec![]),
        ("elm", vec![]),
        ("zig", vec![]),
        ("dart", vec![]),
        ("scss", vec![]),
        ("proto", vec!["protobuf"]),
        ("cmake", vec![]),
        ("nix", vec![]),
        ("vim", vec!["viml"]),
        ("lua", vec![]),
        ("markdown", vec!["md"]),
    ];
    assert(v@.len() == registry().len());
    v
}

/// The languages' names, in registry order.
pub open spec fn language_names() -> Seq<Seq<char>> {
    registry().map_values(|e: (Seq<char>, Seq<Seq<char>>)| e.0)
}

/// `x` inserted into `s` before the first name that sorts after it.
pub open spec fn name_insert(s: Seq<Seq<char>>, x: Seq<char>) -> Seq<Seq<char>>
    decreases s.len(),
{
    if s.len() == 0 {
        seq![x]
    } else if text_lt(x, s[0]) {
        seq![x] + s
    } else {
        seq![s[0]] + name_insert(s.drop_first(), x)
    }
}

/// Names in sorted order.
pub open spec fn sort_names(s: Seq<Seq<char>>) -> Seq<Seq<char>>
    decreases s.len(),
{
    if s.len() == 0 {
        Seq::empty()
    } else {
        name_insert(sort_names(s.drop_last()), s.last())
    }
}

proof fn lemma_name_insert_at(s: Seq<Seq<char>>, x: Seq<char>, k: int)
    requires
        0 <= k <= s.len(),
        forall|j: int| 0 <= j < k ==> !text_lt(x, #[trigger] s[j]),
        k < s.len() ==> text_lt(x, s[k]),
    ensures
        name_insert(s, x) == s.take(k) + seq![x] + s.skip(k),
    decreases s.len(),
{
    if s.len() == 0 {
        assert(s.take(k) + seq![x] + s.skip(k) =~= seq![x]);
    } else if k == 0 {
        assert(s.take(0) + seq![x] + s.skip(0) =~= seq![x] + s);
    } else {
        let t = s.drop_first();
        assert forall|j: int| 0 <= j < k - 1 implies !text_lt(x, #[trigger] t[j]) by {
            assert(t[j] == s[j + 1]);
        }
        lemma_name_insert_at(t, x, k - 1);
        assert(s.take(k) + seq![x] + s.skip(k) =~= seq![s[0]] + (t.take(k - 1) + seq![x] + t.skip(k - 1)));
    }
}

pub open spec fn strs_view(v: Seq<&'static str>) -> Seq<Seq<char>> {
    v.map_values(|s: &'static str| s@)
}

/// The languages' names, sorted.
pub fn names() -> (v: Vec<&'static str>)
    ensures
        strs_view(v@) == sort_names(language_names()),
{
    let reg = registry_exec();
    let ghost ln = language_names();
    let mut v: Vec<&'static str> = Vec::new();
    let mut i: usize = 0;
    while i < reg.len()
        invariant
            i <= reg@.len(),
            reg@.len() == registry().len(),
            ln == language_names(),
            forall|t: int| 0 <= t < reg@.len() ==> (#[trigger] reg@[t]).0@ == registry()[t].0,
            strs_view(v@) == sort_names(ln.take(i as int)),
        decreases reg.len() - i,
    {
        proof {
            assert(ln.take(i + 1).drop_last() =~= ln.take(i as int));
            assert(ln.take(i + 1).last() == reg@[i as int].0@);
        }
        let x = reg[i].0;
        let xs = str_chars(x);
        let mut k: usize = 0;
        while k < v.len() && !crate::help::text_before_strs(xs.as_slice(), v[k])
            invariant
                k <= v@.len(),
                xs@ == x@,
                forall|j: int| 0 <= j < k ==> !text_lt(x@, #[trigger] strs_view(v@)[j]),
            decreases v.len() - k,
        {
            k += 1;
        }
        proof {
            lemma_name_insert_at(strs_view(v@), x@, k as int);
        }
        let ghost before = strs_view(v@);
        v.insert(k, x);
        proof {
            assert(strs_view(v@) =~= before.take(k as int) + seq![x@] + before.skip(k as int));
        }
        i += 1;
    }
    proof {
        assert(ln.take(reg@.len() as int) =~= ln);
    }
    v
}

/// The first language (in registry order) whose name or one of whose other
/// names is `name`, lowercased.
pub open spec fn language_named(name: Seq<char>) -> Option<int> {
    let lower = crate::text::ascii_lowercase(name);
    if exists|i: int| 0 <= i < registry().len() && (registry()[i].0 == lower || registry()[i].1.contains(lower)) {
        Some(choose|i: int|
            0 <= i < registry().len() && (registry()[i].0 == lower || registry()[i].1.contains(lower)) && forall|j: int|
                0 <= j < i ==> !(registry()[j].0 == lower || registry()[j].1.contains(lower)))
    } else {
        None
    }
}

/// Look a language up by its name or one of its other names, ignoring
/// ASCII case; gives the language's name.
pub fn find_by_name(name: &str) -> (r: Option<&'static str>)
    ensures
        match language_named(name@) {
            Some(i) => r matches Some(n) && n@ == registry()[i].0,
            None => r is None,
        },
{
    let lower = lowercase_chars(str_chars(name).as_slice());
    let reg = registry_exec();
    let mut i: usize = 0;
    while i < reg.len()
        invariant
            i <= reg@.len(),
            reg@.len() == registry().len(),
            lower@ == crate::text::ascii_lowercase(name@),
            forall|t: int| 0 <= t < reg@.len() ==> (#[trigger] reg@[t]).0@ == registry()[t].0 && reg@[t].1@.len() == registry()[t].1.len()
                && forall|j: int| 0 <= j < reg@[t].1@.len() ==> (#[trigger] reg@[t].1@[j])@ == registry()[t].1[j],
            forall|j: int| 0 <= j < i ==> !(registry()[j].0 == lower@ || registry()[j].1.contains(lower@)),
        decreases reg.len() - i,
    {
        let entry = &reg[i];
        let mut hit = crate::text::chars_eq_str(lower.as_slice(), entry.0);
        let mut a: usize = 0;
        while a < entry.1.len()
            invariant
                a <= entry.1@.len(),
                entry.1@.len() == registry()[i as int].1.len(),
                forall|j: int| 0 <= j < entry.1@.len() ==> (#[trigger] entry.1@[j])@ == registry()[i as int].1[j],
                hit == (registry()[i as int].0 == lower@ || registry()[i as int].1.take(a as int).contains(lower@)),
                entry.0@ == registry()[i as int].0,
            decreases entry.1.len() - a,
        {
            proof {
                crate::text::lemma_take_one_more(registry()[i as int].1, a as int, lower@);
            }
            if crate::text::chars_eq_str(lower.as_slice(), entry.1[a]) {
                hit = true;
            }
            a += 1;
        }
        proof {
            assert(registry()[i as int].1.take(a as int) =~= registry()[i as int].1);
        }
        if hit {
            let ghost target = crate::text::ascii_lowercase(name@);
            proof {
                assert(0 <= i < registry().len() && (registry()[i as int].0 == target || registry()[i as int].1.contains(target)));
                let c = choose|c: int|
                    0 <= c < registry().len() && (registry()[c].0 == target || registry()[c].1.contains(target)) && forall|j: int|
                        0 <= j < c ==> !(registry()[j].0 == target || registry()[j].1.contains(target));
                assert(c == i) by {
                    if c < i {
                    } else if c > i {
                        assert(!(registry()[i as int].0 == target || registry()[i as int].1.contains(target)));
                    }
                }
            }
            return Some(entry.0);
        }
        i += 1;
    }
    None
}

// ---------------------------------------------------------------------------
// Modelines
// ---------------------------------------------------------------------------

/// Whether `c` ends a field of a vim modeline: ':' or white space.
pub open spec fn is_field_sep(c: char) -> bool {
    c == ':' || is_space(c)
}

/// The index of the first field separator of `s`, if any.
pub open spec fn first_sep(s: Seq<char>) -> Option<int>
    decreases s.len(),
{
    if s.len() == 0 {
        None
    } else if is_field_sep(s[0]) {
        Some(0)
    } else {
        match first_sep(s.drop_first()) {
            Some(i) => Some(i + 1),
            None => None,
        }
    }
}

proof fn lemma_first_sep(s: Seq<char>)
    ensures
        match first_sep(s) {
            Some(i) => 0 <= i < s.len(),
            None => true,
        },
    decreases s.len(),
{
    if s.len() > 0 && !is_field_sep(s[0]) {
        lemma_first_sep(s.drop_first());
    }
}

/// The language a vim modeline field names: `ft=X`, `filetype=X` or
/// `syntax=X`.
pub open spec fn field_language(f: Seq<char>) -> Option<Seq<char>> {
    if starts_with(f, "ft="@) {
        Some(f.skip(3))
    } else if starts_with(f, "filetype="@) {
        Some(f.skip(9))
    } else if starts_with(f, "syntax="@) {
        Some(f.skip(7))
    } else {
        None
    }
}

/// The language the first field of `s` that names one names, the fields
/// being what lies between ':' and white space.
pub open spec fn fields_language(s: Seq<char>) -> Option<Seq<char>>
    decreases s.len(),
{
    match first_sep(s) {
        None => field_language(s),
        Some(k) => if 0 <= k < s.len() {
            match field_language(s.take(k)) {
                Some(v) => Some(v),
                None => fields_language(s.skip(k + 1)),
            }
        } else {
            None
        },
    }
}

/// What follows the first `marker` in `line`, read as vim modeline
/// options (after an optional `set `).
pub open spec fn vim_marker_language(line: Seq<char>, marker: Seq<char>) -> Option<Seq<char>> {
    match sub_index(line, marker) {
        None => None,
        Some(p) => {
            let rest = line.skip(p + marker.len());
            let opts = if starts_with(rest, " set "@) {
                rest.skip(5)
            } else if starts_with(rest, "set "@) {
                rest.skip(4)
            } else {
                rest
            };
            fields_language(opts)
        },
    }
}

/// The language a vim modeline on `line` names (`vim: ft=X`, `vim: set
/// ft=X:`, `vim: syntax=X`, `ex: syntax=X`, ...), the markers `vim:`,
/// `vi:` and `ex:` tried in that order.
pub open spec fn vim_modeline(line: Seq<char>) -> Option<Seq<char>> {
    match vim_marker_language(line, "vim:"@) {
        Some(v) => Some(v),
        None => match vim_marker_language(line, "vi:"@) {
            Some(v) => Some(v),
            None => vim_marker_language(line, "ex:"@),
        },
    }
}

/// The mode an Emacs modeline on `line` names: `-*- mode: X; ... -*-`, or
/// the shorthand `-*- X -*-` (a text without ':').
pub open spec fn emacs_modeline(line: Seq<char>) -> Option<Seq<char>> {
    match sub_index(line, "-*-"@) {
        None => None,
        Some(st) => {
            let rest = line.skip(st + 3);
            match sub_index(rest, "-*-"@) {
                None => None,
                Some(e) => {
                    let inner = trimmed(rest.take(e));
                    let key = match sub_index(inner, "mode:"@) {
                        Some(p) => Some(p),
                        None => sub_index(inner, "Mode:"@),
                    };
                    match key {
                        Some(p) => {
                            let after = inner.skip(p + 5);
                            Some(trimmed(match first_index(after, ';') {
                                Some(k) => after.take(k),
                                None => after,
                            }))
                        },
                        None => if inner.len() > 0 && first_index(inner, ':') is None {
                            Some(trimmed(inner))
                        } else {
                            None
                        },
                    }
                },
            }
        },
    }
}

pub open spec fn opt_chars(o: Option<Vec<char>>) -> Option<Seq<char>> {
    match o {
        Some(v) => Some(v@),
        None => None,
    }
}

pub open spec fn opt_string(o: Option<String>) -> Option<Seq<char>> {
    match o {
        Some(v) => Some(v@),
        None => None,
    }
}

fn field_value(f: &[char]) -> (r: Option<Vec<char>>)
    ensures
        opt_chars(r) == field_language(f@),
{
    let n = f.len();
    if has_prefix(f, "ft=") {
        proof {
            reveal_strlit("ft=");
        }
        let v = sub_chars(f, 3, n);
        assert(v@ =~= f@.skip(3));
        Some(v)
    } else if has_prefix(f, "filetype=") {
        proof {
            reveal_strlit("filetype=");
        }
        let v = sub_chars(f, 9, n);
        assert(v@ =~= f@.skip(9));
        Some(v)
    } else if has_prefix(f, "syntax=") {
        proof {
            reveal_strlit("syntax=");
        }
        let v = sub_chars(f, 7, n);
        assert(v@ =~= f@.skip(7));
        Some(v)
    } else {
        None
    }
}

fn is_field_sep_exec(c: char) -> (r: bool)
    ensures
        r == is_field_sep(c),
{
    c == ':' || is_space_exec(c)
}

fn first_field_language(s: &[char]) -> (r: Option<Vec<char>>)
    ensures
        opt_chars(r) == fields_language(s@),
{
    let n = s.len();
    let mut i: usize = 0;
    proof {
        assert(s@.skip(0) =~= s@);
    }
    loop
        invariant
            n == s@.len(),
            i <= n,
            fields_language(s@) == fields_language(s@.skip(i as int)),
        decreases n - i,
    {
        let mut j: usize = i;
        proof {
            assert(s@.skip(i as int).skip(0) =~= s@.skip(i as int));
        }
        while j < n && !is_field_sep_exec(s[j])
            invariant
                n == s@.len(),
                i <= j <= n,
                first_sep(s@.skip(i as int)) == (match first_sep(s@.skip(j as int)) {
                    Some(k) => Some(k + (j - i)),
                    None => None::<int>,
                }),
            decreases n - j,
        {
            proof {
                assert(s@.skip(j as int).drop_first() =~= s@.skip(j + 1));
            }
            j += 1;
        }
        let field = sub_chars(s, i, j);
        let ghost t = s@.skip(i as int);
        proof {
            if j < n {
                assert(s@.skip(j as int)[0] == s@[j as int]);
                assert(field@ =~= t.take(j - i));
                assert(t.skip(j - i + 1) =~= s@.skip(j + 1));
            } else {
                assert(s@.skip(j as int).len() == 0);
                assert(field@ =~= t);
            }
        }
        match field_value(field.as_slice()) {
            Some(v) => {
                return Some(v);
            },
            None => {},
        }
        if j == n {
            return None;
        }
        i = j + 1;
    }
}

fn marker_language(line: &[char], marker: &str) -> (r: Option<Vec<char>>)
    ensures
        opt_chars(r) == vim_marker_language(line@, marker@),
{
    let m = str_chars(marker);
    let n = line.len();
    proof {
        crate::text::lemma_sub_index(line@, marker@);
    }
    let p = match find_text(line, 0, m.as_slice()) {
        Some(p) => p,
        None => {
            proof {
                assert(line@.skip(0) =~= line@);
            }
            return None;
        },
    };
    proof {
        assert(line@.skip(0) =~= line@);
    }
    let rest = sub_chars(line, p + m.len(), n);
    assert(rest@ =~= line@.skip(p + marker@.len()));
    let rn = rest.len();
    let opts = if has_prefix(rest.as_slice(), " set ") {
        proof {
            reveal_strlit(" set ");
        }
        let o = sub_chars(rest.as_slice(), 5, rn);
        assert(o@ =~= rest@.skip(5));
        o
    } else if has_prefix(rest.as_slice(), "set ") {
        proof {
            reveal_strlit("set ");
        }
        let o = sub_chars(rest.as_slice(), 4, rn);
        assert(o@ =~= rest@.skip(4));
        o
    } else {
        rest
    };
    first_field_language(opts.as_slice())
}

/// The language a vim modeline on `line` names, if it has one.
pub fn parse_vim_modeline(line: &str) -> (r: Option<String>)
    ensures
        opt_string(r) == vim_modeline(line@),
{
    let cs = str_chars(line);
    let found = match marker_language(cs.as_slice(), "vim:") {
        Some(v) => Some(v),
        None => match marker_language(cs.as_slice(), "vi:") {
            Some(v) => Some(v),
            None => marker_language(cs.as_slice(), "ex:"),
        },
    };
    match found {
        Some(v) => Some(string_from_chars(v.as_slice())),
        None => None,
    }
}

/// The mode an Emacs modeline on `line` names, if it has one.
pub fn parse_emacs_modeline(line: &str) -> (r: Option<String>)
    ensures
        opt_string(r) == emacs_modeline(line@),
{
    let cs = str_chars(line);
    let n = cs.len();
    let marker = str_chars("-*-");
    proof {
        reveal_strlit("-*-");
        reveal_strlit("mode:");
        reveal_strlit("Mode:");
        assert(cs@.skip(0) =~= cs@);
        crate::text::lemma_sub_index(cs@, "-*-"@);
    }
    let start = match find_text(cs.as_slice(), 0, marker.as_slice()) {
        Some(p) => p,
        None => return None,
    };
    let rest = sub_chars(cs.as_slice(), start + 3, n);
    assert(rest@ =~= cs@.skip(start + 3));
    proof {
        assert(rest@.skip(0) =~= rest@);
        crate::text::lemma_sub_index(rest@, "-*-"@);
    }
    let end = match find_text(rest.as_slice(), 0, marker.as_slice()) {
        Some(e) => e,
        None => return None,
    };
    let inner = trim_chars(sub_chars(rest.as_slice(), 0, end).as_slice());
    proof {
        assert(rest@.subrange(0, end as int) =~= rest@.take(end as int));
        assert(inner@.skip(0) =~= inner@);
        crate::text::lemma_sub_index(inner@, "mode:"@);
        crate::text::lemma_sub_index(inner@, "Mode:"@);
    }
    let lower_key = str_chars("mode:");
    let upper_key = str_chars("Mode:");
    assert(lower_key@.len() == 5 && upper_key@.len() == 5);
    let key = match find_text(inner.as_slice(), 0, lower_key.as_slice()) {
        Some(p) => Some(p),
        None => find_text(inner.as_slice(), 0, upper_key.as_slice()),
    };
    match key {
        Some(p) => {
            let il = inner.len();
            let after = sub_chars(inner.as_slice(), p + 5, il);
            assert(after@ =~= inner@.skip(p + 5));
            let name = match find_char(after.as_slice(), ';') {
                Some(k) => {
                    let h = sub_chars(after.as_slice(), 0, k);
                    assert(h@ =~= after@.take(k as int));
                    trim_chars(h.as_slice())
                },
                None => trim_chars(after.as_slice()),
            };
            Some(string_from_chars(name.as_slice()))
        },
        None => {
            if inner.len() > 0 && find_char(inner.as_slice(), ':').is_none() {
                Some(string_from_chars(trim_chars(inner.as_slice()).as_slice()))
            } else {
                None
            }
        },
    }
}

} // verus!
