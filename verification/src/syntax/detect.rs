//! Telling a buffer's language: by its file name or extension first, then
//! by the interpreter its shebang line names, then by a vim or Emacs
//! modeline in its first or last few lines.

use super::languages::{emacs_modeline, find_by_name, language_named, parse_emacs_modeline, parse_vim_modeline, registry, strs_view, vim_modeline};
use crate::config::nanorc::{first_word, split_first};
use crate::text::{
    ascii_eq_ignore_case, chars_eq_str, eq_ignore_case, has_prefix, lines_of, split_lines, starts_with, str_chars,
    string_from_chars, sub_chars,
};
use vstd::prelude::*;

verus! {

/// Each language's detection signals, in registry order: its file name
/// extensions, its exact file names, and the interpreters its shebang
/// lines name.
pub open spec fn signals() -> Seq<(Seq<Seq<char>>, Seq<Seq<char>>, Seq<Seq<char>>)> {
    seq![
        (seq!["pl"@, "pm"@, "t"@, "xs"@], seq![], seq!["perl"@, "perl5"@]),
        (seq!["c"@, "h"@], seq![], seq![]),
        (seq!["cpp"@, "cc"@, "cxx"@, "hpp"@, "hh"@, "hxx"@, "c++"@, "h++"@], seq![], seq![]),
        (seq!["html"@, "htm"@], seq![], seq![]),
        (seq!["css"@], seq![], seq![]),
        (seq!["sql"@], seq![], seq![]),
        (seq!["py"@, "pyw"@, "pyi"@], seq![], seq!["python"@, "python2"@, "python3"@]),
        (seq!["rs"@], seq![], seq![]),
        (seq!["sh"@, "bash"@, "zsh"@, "ksh"@], seq![".bashrc"@, ".bash_profile"@, ".zshrc"@, ".profile"@], seq!["bash"@, "sh"@, "zsh"@, "ksh"@, "dash"@]),
        (seq!["json"@], seq![], seq![]),
        (seq!["yaml"@, "yml"@], seq![], seq![]),
        (seq!["toml"@], seq![], seq![]),
        (seq!["mk"@, "mak"@], seq!["Makefile"@, "makefile"@, "GNUmakefile"@], seq!["make"@]),
        (seq!["f"@, "for"@, "f90"@, "f95"@, "f03"@, "f08"@], seq![], seq![]),
        (seq!["go"@], seq![], seq![]),
        (seq!["js"@, "mjs"@, "cjs"@, "jsx"@], seq![], seq!["node"@, "nodejs"@]),
        (seq!["ts"@, "mts"@, "cts"@], seq![], seq!["ts-node"@, "deno"@]),
        (seq!["java"@], seq![], seq![]),
        (seq!["rb"@, "rake"@, "gemspec"@], seq!["Rakefile"@, "Gemfile"@], seq!["ruby"@]),
        (seq!["php"@, "php3"@, "php4"@, "php5"@, "phtml"@], seq![], seq!["php"@]),
        (seq!["cs"@], seq![], seq![]),
        (seq!["swift"@], seq![], seq![]),
        (seq!["hs"@, "lhs"@], seq![], seq!["runghc"@, "runhaskell"@]),
        (seq!["scala"@, "sc"@], seq![], seq!["scala"@]),
        (seq!["m"@, "mm"@], seq![], seq![]),
        (seq!["r"@, "R"@], seq![], seq!["Rscript"@]),
        (seq!["jl"@], seq![], seq!["julia"@]),
        (seq!["xml"@, "xsd"@, "xsl"@, "svg"@, "plist"@], seq![], seq![]),
        (seq!["diff"@, "patch"@], seq![], seq![]),
        (seq!["ini"@, "cfg"@], seq![], seq![]),
        (seq!["ex"@, "exs"@], seq![], seq!["elixir"@]),
        (seq!["elm"@], seq![], seq![]),
        (seq!["zig"@], seq![], seq![]),
        (seq!["dart"@], seq![], seq![]),
        (seq!["scss"@], seq![], seq![]),
        (seq!["proto"@], seq![], seq![]),
        (seq!["cmake"@], seq!["CMakeLists.txt"@], seq![]),
        (seq!["nix"@], seq![], seq![]),
        (seq!["vim"@], seq![".vimrc"@, "vimrc"@], seq![]),
        (seq!["lua"@], seq![], seq!["lua"@]),
        (seq!["md"@, "markdown"@], seq![], seq![]),
    ]
}

/// A language's detection signals.
pub struct LanguageSignals {
    pub name: &'static str,
    pub extensions: Vec<&'static str>,
    pub filenames: Vec<&'static str>,
    pub shebangs: Vec<&'static str>,
}

/// `l` holds the signals of the language at `i` in the registry.
pub open spec fn signals_at(l: LanguageSignals, i: int) -> bool {
    &&& l.name@ == registry()[i].0
    &&& strs_view(l.extensions@) =~= signals()[i].0
    &&& strs_view(l.filenames@) =~= signals()[i].1
    &&& strs_view(l.shebangs@) =~= signals()[i].2
}

/// The languages' detection signals, in registry order.
#[verifier::rlimit(60)]
pub fn language_signals() -> (v: Vec<LanguageSignals>)
    ensures
        v@.len() == registry().len(),
        forall|i: int| 0 <= i < v@.len() ==> signals_at(#[trigger] v@[i], i),
{
    let v = vec![
        LanguageSignals { name: "perl", extensions: vec!["pl", "pm", "t", "xs"], filenames: vec![], shebangs: vec!["perl", "perl5"] },
        LanguageSignals { name: "c", extensions: vec!["c", "h"], filenames: vec![], shebangs: vec![] },
        LanguageSignals { name: "cpp", extensions: vec!["cpp", "cc", "cxx", "hpp", "hh", "hxx", "c++", "h++"], filenames: vec![], shebangs: vec![] },
        LanguageSignals { name: "html", extensions: vec!["html", "htm"], filenames: vec![], shebangs: vec![] },
        LanguageSignals { name: "css", extensions: vec!["css"], filenames: vec![], shebangs: vec![] },
        LanguageSignals { name: "sql", extensions: vec!["sql"], filenames: vec![], shebangs: vec![] },
        LanguageSignals { name: "python", extensions: vec!["py", "pyw", "pyi"], filenames: vec![], shebangs: vec!["python", "python2", "python3"] },
        LanguageSignals { name: "rust", extensions: vec!["rs"], filenames: vec![], shebangs: vec![] },
        LanguageSignals { name: "bash", extensions: vec!["sh", "bash", "zsh", "ksh"], filenames: vec![".bashrc", ".bash_profile", ".zshrc", ".profile"], shebangs: vec!["bash", "sh", "zsh", "ksh", "dash"] },
        LanguageSignals { name: "json", extensions: vec!["json"], filenames: vec![], shebangs: vec![] },
        LanguageSignals { name: "yaml", extensions: vec!["yaml", "yml"], filenames: vec![], shebangs: vec![] },
        LanguageSignals { name: "toml", extensions: vec!["toml"], filenames: vec![], shebangs: vec![] },
        LanguageSignals { name: "make", extensions: vec!["mk", "mak"], filenames: vec!["Makefile", "makefile", "GNUmakefile"], shebangs: vec!["make"] },
        LanguageSignals { name: "fortran", extensions: vec!["f", "for", "f90", "f95", "f03", "f08"], filenames: vec![], shebangs: vec![] },
        LanguageSignals { name: "go", extensions: vec!["go"], filenames: vec![], shebangs: vec![] },
        LanguageSignals { name: "javascript", extensions: vec!["js", "mjs", "cjs", "jsx"], filenames: vec![], shebangs: vec!["node", "nodejs"] },
        LanguageSignals { name: "typescript", extensions: vec!["ts", "mts", "cts"], filenames: vec![], shebangs: vec!["ts-node", "deno"] },
        LanguageSignals { name: "java", extensions: vec!["java"], filenames: vec![], shebangs: vec![] },
        LanguageSignals { name: "ruby", extensions: vec!["rb", "rake", "gemspec"], filenames: vec!["Rakefile", "Gemfile"], shebangs: vec!["ruby"] },
        LanguageSignals { name: "php", extensions: vec!["php", "php3", "php4", "php5", "phtml"], filenames: vec![], shebangs: vec!["php"] },
        LanguageSignals { name: "csharp", extensions: vec!["cs"], filenames: vec![], shebangs: vec![] },
        LanguageSignals { name: "swift", extensions: vec!["swift"], filenames: vec![], shebangs: vec![] },
        LanguageSignals { name: "haskell", extensions: vec!["hs", "lhs"], filenames: vec![], shebangs: vec!["runghc", "runhaskell"] },
        LanguageSignals { name: "scala", extensions: vec!["scala", "sc"], filenames: vec![], shebangs: vec!["scala"] },
        LanguageSignals { name: "objc", extensions: vec!["m", "mm"], filenames: vec![], shebangs: vec![] },
        LanguageSignals { name: "r", extensions: vec!["r", "R"], filenames: vec![], shebangs: vec!["Rscript"] },
        LanguageSignals { name: "julia", extensions: vec!["jl"], filenames: vec![], shebangs: vec!["julia"] },
        LanguageSignals { name: "xml", extensions: vec!["xml", "xsd", "xsl", "svg", "plist"], filenames: vec![], shebangs: vec![] },
        LanguageSignals { name: "diff", extensions: vec!["diff", "patch"], filenames: vec![], shebangs: vec![] },
        LanguageSignals { name: "ini", extensions: vec!["ini", "cfg"], filenames: vec![], shebangs: vec![] },
        LanguageSignals { name: "elixir", extensions: vec!["ex", "exs"], filenames: vec![], shebangs: vec!["elixir"] },
        LanguageSignals { name: "elm", extensions: vec!["elm"], filenames: vec![], shebangs: vec![] },
        LanguageSignals { name: "zig", extensions: vec!["zig"], filenames: vec![], shebangs: vec![] },
        LanguageSignals { name: "dart", extensions: vec!["dart"], filenames: vec![], shebangs: vec![] },
        LanguageSignals { name: "scss", extensions: vec!["scss"], filenames: vec![], shebangs: vec![] },
        LanguageSignals { name: "proto", extensions: vec!["proto"], filenames: vec![], shebangs: vec![] },
        LanguageSignals { name: "cmake", extensions: vec!["cmake"], filenames: vec!["CMakeLists.txt"], shebangs: vec![] },
        LanguageSignals { name: "nix", extensions: vec!["nix"], filenames: vec![], shebangs: vec![] },
        LanguageSignals { name: "vim", extensions: vec!["vim"], filenames: vec![".vimrc", "vimrc"], shebangs: vec![] },
        LanguageSignals { name: "lua", extensions: vec!["lua"], filenames: vec![], shebangs: vec!["lua"] },
        LanguageSignals { name: "markdown", extensions: vec!["md", "markdown"], filenames: vec![], shebangs: vec![] },
    ];
    assert(v@.len() == registry().len());
    v
}

/// The first language, in registry order from `i` on, for which `p` holds.
pub open spec fn first_language_from(p: spec_fn(int) -> bool, i: int) -> Option<int>
    decreases registry().len() - i,
{
    if i < 0 || i >= registry().len() {
        None
    } else if p(i) {
        Some(i)
    } else {
        first_language_from(p, i + 1)
    }
}

proof fn lemma_first_language_in_range(p: spec_fn(int) -> bool, i: int)
    ensures
        first_language_from(p, i) matches Some(k) ==> 0 <= k < registry().len() && p(k),
    decreases registry().len() - i,
{
    if 0 <= i < registry().len() && !p(i) {
        lemma_first_language_in_range(p, i + 1);
    }
}

/// The language with the exact file name `f`.
pub open spec fn by_file_name(f: Seq<char>) -> Option<int> {
    first_language_from(|i: int| signals()[i].1.contains(f), 0)
}

/// The language with the extension `e`, ignoring ASCII case.
pub open spec fn by_extension(e: Seq<char>) -> Option<int> {
    first_language_from(|i: int| exists|j: int| 0 <= j < signals()[i].0.len() && ascii_eq_ignore_case(e, #[trigger] signals()[i].0[j]), 0)
}

/// The language whose shebang interpreters include `a` or `b`.
pub open spec fn by_interpreter(a: Seq<char>, b: Seq<char>) -> Option<int> {
    first_language_from(|i: int| signals()[i].2.contains(a) || signals()[i].2.contains(b), 0)
}

/// `s` after its last `/` (all of it when it has none).
pub open spec fn after_last_slash(s: Seq<char>) -> Seq<char>
    decreases s.len(),
{
    if s.len() == 0 {
        s
    } else if s.last() == '/' {
        Seq::empty()
    } else {
        after_last_slash(s.drop_last()).push(s.last())
    }
}

/// `s` without the digits and dots it ends in (a version number).
pub open spec fn trim_version(s: Seq<char>) -> Seq<char>
    decreases s.len(),
{
    if s.len() > 0 && (('0' <= s.last() && s.last() <= '9') || s.last() == '.') {
        trim_version(s.drop_last())
    } else {
        s
    }
}

/// The interpreter a shebang line names: the program after `#!`, by its
/// last path component, or the program `env` runs.
pub open spec fn shebang_interpreter(line: Seq<char>) -> Option<Seq<char>> {
    if !starts_with(line, "#!"@) {
        None
    } else {
        let (w1, rest) = first_word(line.skip(2));
        let base = after_last_slash(w1);
        if w1.len() == 0 {
            None
        } else if base == "env"@ {
            let w2 = first_word(rest).0;
            if w2.len() == 0 {
                None
            } else {
                Some(w2)
            }
        } else {
            Some(base)
        }
    }
}

/// The language a modeline on `line` names: a vim modeline's if the line
/// has one, else an Emacs one's.
pub open spec fn line_language(line: Seq<char>) -> Option<int> {
    let name = match vim_modeline(line) {
        Some(n) => Some(n),
        None => emacs_modeline(line),
    };
    match name {
        Some(n) => language_named(n),
        None => None,
    }
}

/// How many lines at each end are looked at for a modeline.
pub open spec fn modeline_reach(n: int) -> int {
    if n < 5 {
        n
    } else {
        5
    }
}

/// The line looked at `t`-th for a modeline among `n` lines: the first
/// few from the top, then the last few from the bottom up.
pub open spec fn modeline_index(n: int, t: int) -> int {
    if t < modeline_reach(n) {
        t
    } else {
        n - 1 - (t - modeline_reach(n))
    }
}

/// The language the first modeline (from the `t`-th line looked at on)
/// among `ls` names.
pub open spec fn modeline_language_from(ls: Seq<Seq<char>>, t: int) -> Option<int>
    decreases 2 * modeline_reach(ls.len() as int) - t,
{
    if t < 0 || t >= 2 * modeline_reach(ls.len() as int) {
        None
    } else {
        match line_language(ls[modeline_index(ls.len() as int, t)]) {
            Some(i) => Some(i),
            None => modeline_language_from(ls, t + 1),
        }
    }
}

/// The language of a buffer (its index in the registry): by the exact
/// file name, else by the extension, else by the interpreter its shebang
/// line names (with or without a trailing version), else by a modeline.
pub open spec fn detected(file_name: Option<Seq<char>>, extension: Option<Seq<char>>, text: Seq<char>) -> Option<int> {
    let named = match file_name {
        Some(f) => by_file_name(f),
        None => None,
    };
    let by_ext = match extension {
        Some(e) => by_extension(e),
        None => None,
    };
    let ls = lines_of(text);
    let first = if ls.len() > 0 {
        ls[0]
    } else {
        Seq::empty()
    };
    let by_shebang = match shebang_interpreter(first) {
        Some(a) => by_interpreter(a, trim_version(a)),
        None => None,
    };
    if named is Some {
        named
    } else if by_ext is Some {
        by_ext
    } else if by_shebang is Some {
        by_shebang
    } else {
        modeline_language_from(ls, 0)
    }
}

/// A language index as the language's name.
pub open spec fn language_name_of(r: Option<int>) -> Option<Seq<char>> {
    match r {
        Some(i) => Some(registry()[i].0),
        None => None,
    }
}

/// The registry index of the first language for which `hit` holds of its
/// signals.
fn first_file_name(table: &Vec<LanguageSignals>, f: &[char]) -> (r: Option<usize>)
    requires
        table@.len() == registry().len(),
        forall|i: int| 0 <= i < table@.len() ==> signals_at(#[trigger] table@[i], i),
    ensures
        match by_file_name(f@) {
            Some(i) => r == Some(i as usize),
            None => r is None,
        },
{
    let ghost p = |i: int| signals()[i].1.contains(f@);
    let mut i: usize = 0;
    while i < table.len()
        invariant
            i <= table@.len(),
            table@.len() == registry().len(),
            forall|k: int| 0 <= k < table@.len() ==> signals_at(#[trigger] table@[k], k),
            p == (|i: int| signals()[i].1.contains(f@)),
            first_language_from(p, 0) == first_language_from(p, i as int),
        decreases table.len() - i,
    {
        let names = &table[i].filenames;
        let mut hit = false;
        let mut j: usize = 0;
        assert(signals_at(table@[i as int], i as int));
        while j < names.len()
            invariant
                j <= names@.len(),
                strs_view(names@) =~= signals()[i as int].1,
                hit == signals()[i as int].1.take(j as int).contains(f@),
            decreases names.len() - j,
        {
            proof {
                crate::text::lemma_take_one_more(signals()[i as int].1, j as int, f@);
            }
            if chars_eq_str(f, names[j]) {
                hit = true;
            }
            j += 1;
        }
        proof {
            assert(signals()[i as int].1.take(j as int) =~= signals()[i as int].1);
        }
        if hit {
            return Some(i);
        }
        i += 1;
    }
    None
}

/// The registry index of the first language with the extension `e`.
fn first_extension(table: &Vec<LanguageSignals>, e: &[char]) -> (r: Option<usize>)
    requires
        table@.len() == registry().len(),
        forall|i: int| 0 <= i < table@.len() ==> signals_at(#[trigger] table@[i], i),
    ensures
        match by_extension(e@) {
            Some(i) => r == Some(i as usize),
            None => r is None,
        },
{
    let ghost p = |i: int| exists|j: int| 0 <= j < signals()[i].0.len() && ascii_eq_ignore_case(e@, #[trigger] signals()[i].0[j]);
    let mut i: usize = 0;
    while i < table.len()
        invariant
            i <= table@.len(),
            table@.len() == registry().len(),
            forall|k: int| 0 <= k < table@.len() ==> signals_at(#[trigger] table@[k], k),
            p == (|i: int| exists|j: int| 0 <= j < signals()[i].0.len() && ascii_eq_ignore_case(e@, #[trigger] signals()[i].0[j])),
            first_language_from(p, 0) == first_language_from(p, i as int),
        decreases table.len() - i,
    {
        let exts = &table[i].extensions;
        let mut hit = false;
        let mut j: usize = 0;
        assert(signals_at(table@[i as int], i as int));
        while j < exts.len()
            invariant
                j <= exts@.len(),
                strs_view(exts@) =~= signals()[i as int].0,
                hit == exists|k: int| 0 <= k < j && ascii_eq_ignore_case(e@, #[trigger] signals()[i as int].0[k]),
            decreases exts.len() - j,
        {
            assert(strs_view(exts@)[j as int] == exts@[j as int]@);
            if eq_ignore_case(e, exts[j]) {
                hit = true;
            }
            j += 1;
        }
        assert(hit == p(i as int));
        if hit {
            return Some(i);
        }
        i += 1;
    }
    None
}

/// The registry index of the first language whose shebang interpreters
/// include `a` or `b`.
fn first_interpreter(table: &Vec<LanguageSignals>, a: &[char], b: &[char]) -> (r: Option<usize>)
    requires
        table@.len() == registry().len(),
        forall|i: int| 0 <= i < table@.len() ==> signals_at(#[trigger] table@[i], i),
    ensures
        match by_interpreter(a@, b@) {
            Some(i) => r == Some(i as usize),
            None => r is None,
        },
{
    let ghost p = |i: int| signals()[i].2.contains(a@) || signals()[i].2.contains(b@);
    let mut i: usize = 0;
    while i < table.len()
        invariant
            i <= table@.len(),
            table@.len() == registry().len(),
            forall|k: int| 0 <= k < table@.len() ==> signals_at(#[trigger] table@[k], k),
            p == (|i: int| signals()[i].2.contains(a@) || signals()[i].2.contains(b@)),
            first_language_from(p, 0) == first_language_from(p, i as int),
        decreases table.len() - i,
    {
        let names = &table[i].shebangs;
        let mut hit_a = false;
        let mut hit_b = false;
        let mut j: usize = 0;
        assert(signals_at(table@[i as int], i as int));
        while j < names.len()
            invariant
                j <= names@.len(),
                strs_view(names@) =~= signals()[i as int].2,
                hit_a == signals()[i as int].2.take(j as int).contains(a@),
                hit_b == signals()[i as int].2.take(j as int).contains(b@),
            decreases names.len() - j,
        {
            proof {
                crate::text::lemma_take_one_more(signals()[i as int].2, j as int, a@);
                crate::text::lemma_take_one_more(signals()[i as int].2, j as int, b@);
            }
            if chars_eq_str(a, names[j]) {
                hit_a = true;
            }
            if chars_eq_str(b, names[j]) {
                hit_b = true;
            }
            j += 1;
        }
        proof {
            assert(signals()[i as int].2.take(j as int) =~= signals()[i as int].2);
        }
        if hit_a || hit_b {
            return Some(i);
        }
        i += 1;
    }
    None
}

/// The characters of `s` after its last `/`.
fn after_slash(s: &[char]) -> (r: Vec<char>)
    ensures
        r@ == after_last_slash(s@),
{
    let mut k: usize = s.len();
    proof {
        assert(s@.take(k as int) =~= s@);
    }
    while k > 0 && s[k - 1] != '/'
        invariant
            k <= s@.len(),
            after_last_slash(s@) == after_last_slash(s@.take(k as int)) + s@.skip(k as int),
        decreases k,
    {
        proof {
            let t = s@.take(k as int);
            assert(t.drop_last() =~= s@.take(k - 1));
            assert(s@.skip(k - 1) =~= seq![s@[k - 1]] + s@.skip(k as int));
            assert(after_last_slash(t) == after_last_slash(t.drop_last()).push(t.last()));
            assert(after_last_slash(s@.take(k - 1)) + s@.skip(k - 1) =~= after_last_slash(t) + s@.skip(k as int));
        }
        k -= 1;
    }
    proof {
        if k > 0 {
            assert(s@.take(k as int).last() == '/');
        }
        assert(after_last_slash(s@.take(k as int)) =~= Seq::<char>::empty());
    }
    let n = s.len();
    let r = sub_chars(s, k, n);
    assert(r@ =~= after_last_slash(s@));
    r
}

/// The characters of `s` without the digits and dots it ends in.
fn without_version(s: &[char]) -> (r: Vec<char>)
    ensures
        r@ == trim_version(s@),
{
    let mut k: usize = s.len();
    proof {
        assert(s@.take(k as int) =~= s@);
    }
    while k > 0 && (('0' <= s[k - 1] && s[k - 1] <= '9') || s[k - 1] == '.')
        invariant
            k <= s@.len(),
            trim_version(s@) == trim_version(s@.take(k as int)),
        decreases k,
    {
        proof {
            assert(s@.take(k as int).drop_last() =~= s@.take(k - 1));
        }
        k -= 1;
    }
    sub_chars(s, 0, k)
}

/// The interpreter a shebang line names, as `shebang_interpreter` says.
fn interpreter_of(line: &[char]) -> (r: Option<Vec<char>>)
    ensures
        match shebang_interpreter(line@) {
            Some(a) => r matches Some(v) && v@ == a,
            None => r is None,
        },
{
    if !has_prefix(line, "#!") {
        return None;
    }
    proof {
        reveal_strlit("#!");
    }
    let n = line.len();
    let rest = sub_chars(line, 2, n);
    assert(rest@ =~= line@.skip(2));
    let (w1, tail) = split_first(rest.as_slice());
    if w1.len() == 0 {
        return None;
    }
    let base = after_slash(w1.as_slice());
    if chars_eq_str(base.as_slice(), "env") {
        let (w2, _) = split_first(tail.as_slice());
        if w2.len() == 0 {
            None
        } else {
            Some(w2)
        }
    } else {
        Some(base)
    }
}

/// The language the first modeline among the lines `ls` names.
fn modeline_language(ls: &Vec<Vec<char>>) -> (r: Option<&'static str>)
    ensures
        match modeline_language_from(ls@.map_values(|l: Vec<char>| l@), 0) {
            Some(i) => r matches Some(n) && n@ == registry()[i].0,
            None => r is None,
        },
{
    let ghost lv = ls@.map_values(|l: Vec<char>| l@);
    let n = ls.len();
    let h: usize = if n < 5 {
        n
    } else {
        5
    };
    let mut t: usize = 0;
    while t < 2 * h
        invariant
            n == ls@.len(),
            lv == ls@.map_values(|l: Vec<char>| l@),
            lv.len() == n,
            h == modeline_reach(n as int),
            t <= 2 * h,
            modeline_language_from(lv, 0) == modeline_language_from(lv, t as int),
        decreases 2 * h - t,
    {
        let idx: usize = if t < h {
            t
        } else {
            n - 1 - (t - h)
        };
        assert(idx as int == modeline_index(n as int, t as int));
        assert(lv[idx as int] == ls@[idx as int]@);
        let line = string_from_chars(ls[idx].as_slice());
        let name = match parse_vim_modeline(line.as_str()) {
            Some(v) => Some(v),
            None => parse_emacs_modeline(line.as_str()),
        };
        match name {
            Some(v) => match find_by_name(v.as_str()) {
                Some(found) => {
                    return Some(found);
                },
                None => {},
            },
            None => {},
        }
        t += 1;
    }
    None
}

/// A buffer's language, by name: by its exact file name, else by its
/// extension (ignoring ASCII case), else by the interpreter its shebang
/// line names, else by a modeline, as `detected` says.
pub fn detect(file_name: Option<&str>, extension: Option<&str>, text: &str) -> (r: Option<&'static str>)
    ensures
        match detected(
            match file_name {
                Some(f) => Some(f@),
                None => None,
            },
            match extension {
                Some(e) => Some(e@),
                None => None,
            },
            text@,
        ) {
            Some(i) => r matches Some(n) && n@ == registry()[i].0,
            None => r is None,
        },
{
    let table = language_signals();
    proof {
        lemma_first_language_in_range(|i: int| signals()[i].1.contains(file_name.unwrap()@), 0);
        lemma_first_language_in_range(
            |i: int| exists|j: int| 0 <= j < signals()[i].0.len() && ascii_eq_ignore_case(extension.unwrap()@, #[trigger] signals()[i].0[j]),
            0,
        );
    }
    if let Some(f) = file_name {
        let fc = str_chars(f);
        if let Some(i) = first_file_name(&table, fc.as_slice()) {
            assert(signals_at(table@[i as int], i as int));
            return Some(table[i].name);
        }
    }
    if let Some(e) = extension {
        let ec = str_chars(e);
        if let Some(i) = first_extension(&table, ec.as_slice()) {
            assert(signals_at(table@[i as int], i as int));
            return Some(table[i].name);
        }
    }
    let lines = split_lines(text);
    let ghost lv = lines@.map_values(|l: Vec<char>| l@);
    let first: Vec<char> = if lines.len() > 0 {
        assert(lv[0] == lines@[0]@);
        sub_chars(lines[0].as_slice(), 0, lines[0].len())
    } else {
        Vec::new()
    };
    proof {
        if lines@.len() > 0 {
            assert(first@ =~= lv[0]);
        } else {
            assert(first@ =~= Seq::<char>::empty());
        }
    }
    if let Some(a) = interpreter_of(first.as_slice()) {
        let b = without_version(a.as_slice());
        proof {
            lemma_first_language_in_range(|i: int| signals()[i].2.contains(a@) || signals()[i].2.contains(b@), 0);
        }
        if let Some(i) = first_interpreter(&table, a.as_slice(), b.as_slice()) {
            assert(signals_at(table@[i as int], i as int));
            return Some(table[i].name);
        }
    }
    modeline_language(&lines)
}

/// The extension of a file name, as `std::path::Path::extension` takes it:
/// what follows the last `.`, unless there is none or the only one starts
/// the name.
pub open spec fn extension_of(file_name: Seq<char>) -> Option<Seq<char>> {
    match crate::theme::last_dot(file_name) {
        Some(k) => if k == 0 {
            None
        } else {
            Some(file_name.skip(k + 1))
        },
        None => None,
    }
}

/// The extension of a file name, as `extension_of` says.
pub fn file_extension(file_name: &str) -> (r: Option<String>)
    ensures
        match extension_of(file_name@) {
            Some(e) => r matches Some(s) && s@ == e,
            None => r is None,
        },
{
    let cs = str_chars(file_name);
    match crate::theme::last_dot_index(cs.as_slice()) {
        Some(k) => {
            if k == 0 {
                None
            } else {
                let n = cs.len();
                let e = sub_chars(cs.as_slice(), k + 1, n);
                assert(e@ =~= file_name@.skip(k + 1));
                Some(string_from_chars(e.as_slice()))
            }
        },
        None => None,
    }
}

/// The language of a buffer (its index in the registry) from its path,
/// when it has one, and its text: the path's file name and that name's
/// extension, then the text, as `detected` takes them.
pub open spec fn path_detected(path: Option<Seq<char>>, text: Seq<char>) -> Option<int> {
    match path {
        Some(p) => match crate::lockfile::path_file_name(p) {
            Some(f) => detected(Some(f), extension_of(f), text),
            None => detected(None, None, text),
        },
        None => detected(None, None, text),
    }
}

pub open spec fn opt_str(o: Option<&str>) -> Option<Seq<char>> {
    match o {
        Some(s) => Some(s@),
        None => None,
    }
}

/// A buffer's language, by name, from its path (when it has one) and its
/// text, as `path_detected` says.
pub fn detect_path(path: Option<&str>, text: &str) -> (r: Option<&'static str>)
    ensures
        opt_str(r) == language_name_of(path_detected(opt_str(path), text@)),
{
    let name = match path {
        Some(p) => crate::lockfile::file_name_of(p),
        None => None,
    };
    match name {
        Some(f) => {
            let ext = file_extension(f.as_str());
            let e: Option<&str> = match &ext {
                Some(x) => Some(x.as_str()),
                None => None,
            };
            detect(Some(f.as_str()), e, text)
        },
        None => detect(None, None, text),
    }
}

/// A buffer's language, by name, with a forced choice (`--syntax`):
/// `none` means no language; a name the registry knows (or one of its other
/// names) means that language; any other name, or none given, leaves it to
/// detection.
pub fn detect_with_override(path: Option<&str>, text: &str, syntax_override: Option<&str>) -> (r: Option<&'static str>)
    ensures
        opt_str(r) == match syntax_override {
            Some(o) => if o@ == "none"@ {
                None
            } else {
                match language_named(o@) {
                    Some(i) => Some(registry()[i].0),
                    None => language_name_of(path_detected(opt_str(path), text@)),
                }
            },
            None => language_name_of(path_detected(opt_str(path), text@)),
        },
{
    match syntax_override {
        Some(o) => {
            if crate::text::str_eq(o, "none") {
                return None;
            }
            match find_by_name(o) {
                Some(n) => Some(n),
                None => detect_path(path, text),
            }
        },
        None => detect_path(path, text),
    }
}

} // verus!
