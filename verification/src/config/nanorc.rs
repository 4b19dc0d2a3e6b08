//! nano's `~/.nanorc` format (see `nanorc(5)`): every `set`/`unset`/`bind`/
//! `unbind` directive is applied; `syntax` blocks (with their `color`,
//! `icolor`, `header`, `magic`, `formatter`, `linter`, `comment` and
//! `tabgives` bodies) and top-level `include` and `extendsyntax` lines are
//! skipped, since tico does its own syntax highlighting.

use super::settings::{apply, set_setting, setting_of};
use super::{warn_text, bind_in_menu, bound, line_note, quoted, rc_state, unbind_in_menu, unbound, unchanged, warn, warned, binding_named, RcState};
use crate::history::texts;
use crate::keymap::{action_name, key_of, rebindable, is_rebindable, Action, Binding, Key, KeyMap};
use crate::options::Options;
use crate::text::{ascii_lowercase, is_space, is_space_exec, lines_of, lowercase_chars, split_lines, str_chars, string_from_chars, sub_chars, trim_chars, trim_start, trimmed, chars_eq_str};
use vstd::prelude::*;

verus! {

/// The index of the first white-space character of `s`, if any.
pub open spec fn first_space(s: Seq<char>) -> Option<int>
    decreases s.len(),
{
    if s.len() == 0 {
        None
    } else if is_space(s[0]) {
        Some(0)
    } else {
        match first_space(s.drop_first()) {
            Some(i) => Some(i + 1),
            None => None,
        }
    }
}

/// The first white-space-delimited word of `s`, and what follows it
/// without leading white space.
pub open spec fn first_word(s: Seq<char>) -> (Seq<char>, Seq<char>) {
    let t = trim_start(s);
    match first_space(t) {
        Some(i) => (t.take(i), trim_start(t.skip(i))),
        None => (t, Seq::empty()),
    }
}

/// The index of the last '"' of `s`, if any.
pub open spec fn last_quote(s: Seq<char>) -> Option<int>
    decreases s.len(),
{
    if s.len() == 0 {
        None
    } else if s.last() == '"' {
        Some(s.len() - 1)
    } else {
        last_quote(s.drop_last())
    }
}

/// A possibly quoted argument at the start of `s`, and what follows it: a
/// quoted one runs to the last '"' of the line (nano's rule), or to the end
/// of the line without a closing quote; an unquoted one is the first word.
pub open spec fn quoted_arg(s: Seq<char>) -> (Option<Seq<char>>, Seq<char>) {
    let t = trim_start(s);
    if t.len() == 0 {
        (None, Seq::empty())
    } else if t[0] == '"' {
        let rest = t.drop_first();
        match last_quote(rest) {
            Some(q) => (Some(rest.take(q)), trim_start(rest.skip(q + 1))),
            None => (Some(rest), Seq::empty()),
        }
    } else {
        let (w, r) = first_word(t);
        (Some(w), r)
    }
}

/// The commands that may stand inside a `syntax` block.
pub open spec fn syntax_body_command(c: Seq<char>) -> bool {
    c == "color"@ || c == "icolor"@ || c == "header"@ || c == "magic"@ || c == "formatter"@ || c == "linter"@
        || c == "comment"@ || c == "tabgives"@
}

/// A `set`/`unset` line: the option named by the next word (any case) is
/// set as `settings` sets it, with the possibly quoted argument after it.
pub open spec fn set_line(n: nat, c: Seq<char>, rest: Seq<char>, s: RcState, t: RcState) -> bool {
    let enable = c == "set"@;
    let (name, after) = first_word(rest);
    if name.len() == 0 {
        warned(s, t, line_note("nanorc"@, n, "`"@ + c + "` with no option name"@))
    } else {
        let arg = quoted_arg(after).0;
        match setting_of(ascii_lowercase(name)) {
            Some(st) => set_setting(s.options, t.options, st, arg, enable) && t.keys == s.keys && t.warnings
                == s.warnings,
            None => warned(s, t, line_note("nanorc"@, n, "unknown option: "@ + ascii_lowercase(name))),
        }
    }
}

/// Binding `key` in the menu named `menu` to what `arg` names.
pub open spec fn bind_to(n: nat, arg: Seq<char>, menu: Seq<char>, key: Key, s: RcState, t: RcState) -> bool {
    exists|b: crate::keymap::BindingView| #[trigger] binding_named(arg, b) && bound("nanorc"@, n, menu, key, b, s, t)
}

/// A `bind KEY FUNCTION|"STRING" MENU` line.
pub open spec fn bind_line(n: nat, rest: Seq<char>, s: RcState, t: RcState) -> bool {
    let (key_spec, after) = first_word(rest);
    match key_of(key_spec) {
        None => warned(s, t, line_note("nanorc"@, n, "invalid key spec `"@ + key_spec + "`"@)),
        Some(key) => if !rebindable(key) {
            warned(s, t, line_note("nanorc"@, n, "`"@ + key_spec + "` cannot be rebound"@))
        } else {
            let (arg, after2) = quoted_arg(after);
            match arg {
                None => warned(s, t, line_note("nanorc"@, n, "`bind` missing function/string"@)),
                Some(a) => {
                    let menu = first_word(after2).0;
                    if menu.len() == 0 {
                        warned(s, t, line_note("nanorc"@, n, "`bind` missing menu"@))
                    } else {
                        bind_to(n, a, ascii_lowercase(menu), key, s, t)
                    }
                },
            }
        },
    }
}

/// An `unbind KEY MENU` line.
pub open spec fn unbind_line(n: nat, rest: Seq<char>, s: RcState, t: RcState) -> bool {
    let (key_spec, after) = first_word(rest);
    match key_of(key_spec) {
        None => warned(s, t, line_note("nanorc"@, n, "invalid key spec `"@ + key_spec + "`"@)),
        Some(key) => unbound("nanorc"@, n, first_word(after).0, key, s, t),
    }
}

/// What line `n` (counted from 0) of a nanorc file does to the state `s`,
/// with `in_syntax` telling whether a `syntax` block is open: the state
/// becomes `t`, and `in_syntax2` tells whether one is open after it.
pub open spec fn nanorc_step(n: nat, raw: Seq<char>, s: RcState, in_syntax: bool, t: RcState, in_syntax2: bool) -> bool {
    let line = trimmed(raw);
    if line.len() == 0 || line[0] == '#' {
        unchanged(s, t) && in_syntax2 == in_syntax
    } else {
        let (cmd, rest) = first_word(line);
        let c = ascii_lowercase(cmd);
        if c == "syntax"@ {
            unchanged(s, t) && in_syntax2
        } else if c == "include"@ || c == "extendsyntax"@ || (in_syntax && syntax_body_command(c)) {
            unchanged(s, t) && in_syntax2 == in_syntax
        } else {
            &&& !in_syntax2
            &&& if c == "set"@ || c == "unset"@ {
                set_line(n, c, rest, s, t)
            } else if c == "bind"@ {
                bind_line(n, rest, s, t)
            } else if c == "unbind"@ {
                unbind_line(n, rest, s, t)
            } else {
                warned(s, t, line_note("nanorc"@, n, "unrecognized command `"@ + cmd + "`"@))
            }
        }
    }
}

/// Reading the lines `lines` goes through the states `states`, one more
/// than there are lines (a state, and whether a syntax block is open):
/// each line takes the state before it to the one after it, as
/// `nanorc_step` says.
pub open spec fn nanorc_run(lines: Seq<Seq<char>>, states: Seq<(RcState, bool)>) -> bool {
    &&& states.len() == lines.len() + 1
    &&& forall|i: int|
        0 <= i < lines.len() ==> #[trigger] nanorc_step(
            i as nat,
            lines[i],
            states[i].0,
            states[i].1,
            states[i + 1].0,
            states[i + 1].1,
        )
}

/// The index just past the white space at `from` in `s`.
pub fn skip_space(s: &[char], from: usize) -> (r: usize)
    requires
        from <= s@.len(),
    ensures
        from <= r <= s@.len(),
        trim_start(s@.skip(from as int)) == s@.skip(r as int),
{
    let mut i = from;
    while i < s.len() && is_space_exec(s[i])
        invariant
            from <= i <= s@.len(),
            trim_start(s@.skip(from as int)) == trim_start(s@.skip(i as int)),
        decreases s.len() - i,
    {
        proof {
            assert(s@.skip(i as int).drop_first() =~= s@.skip(i + 1));
        }
        i += 1;
    }
    proof {
        if i == s.len() {
            assert(s@.skip(i as int).len() == 0);
        }
    }
    i
}

/// The index of the first white space at or after `from` in `s`, or the
/// length of `s`.
fn find_space(s: &[char], from: usize) -> (r: usize)
    requires
        from <= s@.len(),
    ensures
        from <= r <= s@.len(),
        first_space(s@.skip(from as int)) == if r < s@.len() { Some(r - from) } else { None::<int> },
{
    let mut i = from;
    while i < s.len() && !is_space_exec(s[i])
        invariant
            from <= i <= s@.len(),
            first_space(s@.skip(from as int)) == (match first_space(s@.skip(i as int)) {
                Some(k) => Some(k + (i - from)),
                None => None::<int>,
            }),
        decreases s.len() - i,
    {
        proof {
            assert(s@.skip(i as int).drop_first() =~= s@.skip(i + 1));
        }
        i += 1;
    }
    proof {
        if i == s.len() {
            assert(s@.skip(i as int).len() == 0);
        } else {
            assert(s@.skip(i as int)[0] == s@[i as int]);
        }
    }
    i
}

/// Split off the first white-space-delimited word: (word, rest).
pub fn split_first(s: &[char]) -> (r: (Vec<char>, Vec<char>))
    ensures
        (r.0@, r.1@) == first_word(s@),
{
    proof {
        assert(s@.skip(0) =~= s@);
    }
    let lo = skip_space(s, 0);
    let i = find_space(s, lo);
    let word = sub_chars(s, lo, i);
    proof {
        let t = s@.skip(lo as int);
        assert(word@ =~= t.take(i - lo));
        assert(t.skip(i - lo) =~= s@.skip(i as int));
    }
    if i < s.len() {
        let j = skip_space(s, i);
        let rest = sub_chars(s, j, s.len());
        proof {
            assert(rest@ =~= s@.skip(j as int));
        }
        (word, rest)
    } else {
        proof {
            assert(word@ =~= s@.skip(lo as int));
        }
        (word, Vec::new())
    }
}

/// Extract a possibly quoted argument from the start of `s`: (argument,
/// rest).
fn take_arg(s: &[char]) -> (r: (Option<Vec<char>>, Vec<char>))
    ensures
        (match r.0 { Some(v) => Some(v@), None => None::<Seq<char>> }, r.1@) == quoted_arg(s@),
{
    proof {
        assert(s@.skip(0) =~= s@);
    }
    let lo = skip_space(s, 0);
    if lo == s.len() {
        proof {
            assert(s@.skip(lo as int).len() == 0);
        }
        return (None, Vec::new());
    }
    if s[lo] == '"' {
        let ghost rest = s@.skip(lo as int).drop_first();
        proof {
            assert(rest =~= s@.skip(lo + 1));
        }
        let mut q = s.len();
        while q > lo + 1 && s[q - 1] != '"'
            invariant
                lo + 1 <= q <= s@.len(),
                rest == s@.skip(lo + 1),
                last_quote(rest) == last_quote(s@.subrange(lo + 1, q as int)),
            decreases q,
        {
            proof {
                assert(s@.subrange(lo + 1, q as int).drop_last() =~= s@.subrange(lo + 1, q - 1));
            }
            q -= 1;
        }
        proof {
            assert(rest =~= s@.subrange(lo + 1, s@.len() as int));
        }
        if q > lo + 1 {
            // the last quote is at q - 1
            let arg = sub_chars(s, lo + 1, q - 1);
            let j = skip_space(s, q);
            let after = sub_chars(s, j, s.len());
            proof {
                assert(last_quote(s@.subrange(lo + 1, q as int)) == Some(q - 1 - (lo + 1)));
                assert(arg@ =~= rest.take(q - 1 - (lo + 1)));
                assert(rest.skip(q - 1 - (lo + 1) + 1) =~= s@.skip(q as int));
                assert(after@ =~= s@.skip(j as int));
            }
            (Some(arg), after)
        } else {
            let arg = sub_chars(s, lo + 1, s.len());
            proof {
                assert(s@.subrange(lo + 1, q as int).len() == 0);
                assert(arg@ =~= rest);
            }
            (Some(arg), Vec::new())
        }
    } else {
        let (w, r) = split_first(s);
        proof {
            crate::text::lemma_trim_start_idempotent(s@);
        }
        (Some(w), r)
    }
}

fn is_syntax_body_command(c: &[char]) -> (r: bool)
    ensures
        r == syntax_body_command(c@),
{
    chars_eq_str(c, "color") || chars_eq_str(c, "icolor") || chars_eq_str(c, "header") || chars_eq_str(c, "magic")
        || chars_eq_str(c, "formatter") || chars_eq_str(c, "linter") || chars_eq_str(c, "comment")
        || chars_eq_str(c, "tabgives")
}

/// A `set`/`unset` directive (`c` is the lowercase command).
fn set_directive(options: &mut Options, warnings: &mut Vec<String>, n: usize, c: &[char], rest: &[char], Ghost(k): Ghost<Map<(crate::keymap::Menu, Key), crate::keymap::BindingView>>)
    requires
        n < usize::MAX,
    ensures
        set_line(
            n as nat,
            c@,
            rest@,
            RcState { options: old(options)@, keys: k, warnings: texts(old(warnings)@) },
            RcState { options: final(options)@, keys: k, warnings: texts(final(warnings)@) },
        ),
{
    let enable = chars_eq_str(c, "set");
    let (name, after) = split_first(rest);
    if name.len() == 0 {
        let msg = quoted("`", c, "` with no option name");
        warn(warnings, "nanorc", n, msg.as_slice());
        return;
    }
    let (arg, _) = take_arg(after.as_slice());
    let lname = lowercase_chars(name.as_slice());
    let lname_s = string_from_chars(lname.as_slice());
    let arg_s: Option<String> = match arg {
        Some(v) => Some(string_from_chars(v.as_slice())),
        None => None,
    };
    let arg_ref: Option<&str> = match &arg_s {
        Some(v) => Some(v.as_str()),
        None => None,
    };
    match apply(options, lname_s.as_str(), arg_ref, enable) {
        Ok(()) => {},
        Err(e) => {
            warn_text(warnings, "nanorc", n, e.as_str());
        },
    }
}

/// A `bind KEY FUNCTION|"STRING" MENU` directive.
fn bind_directive(keymap: &mut KeyMap, warnings: &mut Vec<String>, n: usize, rest: &[char], Ghost(o): Ghost<crate::options::OptionsView>)
    requires
        n < usize::MAX,
    ensures
        bind_line(
            n as nat,
            rest@,
            RcState { options: o, keys: old(keymap)@, warnings: texts(old(warnings)@) },
            RcState { options: o, keys: final(keymap)@, warnings: texts(final(warnings)@) },
        ),
{
    let (key_spec, after) = split_first(rest);
    let ks = string_from_chars(key_spec.as_slice());
    let key = match Key::parse(ks.as_str()) {
        Some(k) => k,
        None => {
            let msg = quoted("invalid key spec `", key_spec.as_slice(), "`");
            warn(warnings, "nanorc", n, msg.as_slice());
            return;
        },
    };
    if !is_rebindable(&key) {
        let msg = quoted("`", key_spec.as_slice(), "` cannot be rebound");
        warn(warnings, "nanorc", n, msg.as_slice());
        return;
    }
    let (arg, after2) = take_arg(after.as_slice());
    let a = match arg {
        Some(a) => a,
        None => {
            warn_text(warnings, "nanorc", n, "`bind` missing function/string");
            return;
        },
    };
    let (menu, _) = split_first(after2.as_slice());
    if menu.len() == 0 {
        warn_text(warnings, "nanorc", n, "`bind` missing menu");
        return;
    }
    let a_s = string_from_chars(a.as_slice());
    let binding = match Action::from_name(a_s.as_str()) {
        Some(act) => Binding::Action(act),
        None => Binding::Macro(a_s),
    };
    let ghost b = binding@;
    let lmenu = lowercase_chars(menu.as_slice());
    bind_in_menu(keymap, warnings, "nanorc", n, lmenu.as_slice(), key, binding, Ghost(o));
    proof {
        let s0 = RcState { options: o, keys: old(keymap)@, warnings: texts(old(warnings)@) };
        let t0 = RcState { options: o, keys: keymap@, warnings: texts(warnings@) };
        assert(binding_named(a@, b) && bound("nanorc"@, n as nat, ascii_lowercase(menu@), key, b, s0, t0));
        assert(bind_to(n as nat, a@, ascii_lowercase(menu@), key, s0, t0));
    }
}

/// An `unbind KEY MENU` directive.
fn unbind_directive(keymap: &mut KeyMap, warnings: &mut Vec<String>, n: usize, rest: &[char], Ghost(o): Ghost<crate::options::OptionsView>)
    requires
        n < usize::MAX,
    ensures
        unbind_line(
            n as nat,
            rest@,
            RcState { options: o, keys: old(keymap)@, warnings: texts(old(warnings)@) },
            RcState { options: o, keys: final(keymap)@, warnings: texts(final(warnings)@) },
        ),
{
    let (key_spec, after) = split_first(rest);
    let ks = string_from_chars(key_spec.as_slice());
    let key = match Key::parse(ks.as_str()) {
        Some(k) => k,
        None => {
            let msg = quoted("invalid key spec `", key_spec.as_slice(), "`");
            warn(warnings, "nanorc", n, msg.as_slice());
            return;
        },
    };
    let (menu, _) = split_first(after.as_slice());
    unbind_in_menu(keymap, warnings, "nanorc", n, menu.as_slice(), key, Ghost(o));
}

/// One line of a nanorc file, line `n` counted from 0.
fn nanorc_line(
    n: usize,
    raw: &[char],
    in_syntax: &mut bool,
    options: &mut Options,
    keymap: &mut KeyMap,
    warnings: &mut Vec<String>,
)
    requires
        n < usize::MAX,
    ensures
        nanorc_step(
            n as nat,
            raw@,
            rc_state(*old(options), *old(keymap), old(warnings)@),
            *old(in_syntax),
            rc_state(*final(options), *final(keymap), final(warnings)@),
            *final(in_syntax),
        ),
{
    let line = trim_chars(raw);
    if line.len() == 0 || line[0] == '#' {
        return;
    }
    let (cmd, rest) = split_first(line.as_slice());
    let c = lowercase_chars(cmd.as_slice());
    if chars_eq_str(c.as_slice(), "syntax") {
        *in_syntax = true;
        return;
    }
    if chars_eq_str(c.as_slice(), "include") || chars_eq_str(c.as_slice(), "extendsyntax") {
        return;
    }
    if *in_syntax && is_syntax_body_command(c.as_slice()) {
        return;
    }
    // Any other command ends a syntax block.
    *in_syntax = false;
    if chars_eq_str(c.as_slice(), "set") || chars_eq_str(c.as_slice(), "unset") {
        set_directive(options, warnings, n, c.as_slice(), rest.as_slice(), Ghost(keymap@));
    } else if chars_eq_str(c.as_slice(), "bind") {
        bind_directive(keymap, warnings, n, rest.as_slice(), Ghost(options@));
    } else if chars_eq_str(c.as_slice(), "unbind") {
        unbind_directive(keymap, warnings, n, rest.as_slice(), Ghost(options@));
    } else {
        let msg = quoted("unrecognized command `", cmd.as_slice(), "`");
        warn(warnings, "nanorc", n, msg.as_slice());
    }
}

/// Apply a nanorc file's text: its lines in order, as `nanorc_step` says,
/// starting outside any syntax block.
pub fn parse(text: &str, options: &mut Options, keymap: &mut KeyMap, warnings: &mut Vec<String>)
    ensures
        exists|states: Seq<(RcState, bool)>|
            #[trigger] nanorc_run(lines_of(text@), states) && states[0] == (
                rc_state(*old(options), *old(keymap), old(warnings)@),
                false,
            ) && states.last().0 == rc_state(*final(options), *final(keymap), final(warnings)@),
{
    let lines = split_lines(text);
    let ghost ls = lines_of(text@);
    let mut in_syntax = false;
    let ghost mut states: Seq<(RcState, bool)> = seq![(rc_state(*options, *keymap, warnings@), false)];
    let mut i: usize = 0;
    while i < lines.len()
        invariant
            i <= lines@.len(),
            lines@.map_values(|l: Vec<char>| l@) == ls,
            states[0] == (rc_state(*old(options), *old(keymap), old(warnings)@), false),
            states.last() == (rc_state(*options, *keymap, warnings@), in_syntax),
            nanorc_run(ls.take(i as int), states),
        decreases lines.len() - i,
    {
        let ghost prev = states;
        nanorc_line(i, lines[i].as_slice(), &mut in_syntax, options, keymap, warnings);
        proof {
            states = prev.push((rc_state(*options, *keymap, warnings@), in_syntax));
            let p = ls.take(i + 1);
            assert(p[i as int] == lines@[i as int]@);
            assert forall|j: int| 0 <= j < p.len() implies #[trigger] nanorc_step(
                j as nat,
                p[j],
                states[j].0,
                states[j].1,
                states[j + 1].0,
                states[j + 1].1,
            ) by {
                if j < i {
                    assert(p[j] == ls.take(i as int)[j]);
                    assert(nanorc_step(j as nat, ls.take(i as int)[j], prev[j].0, prev[j].1, prev[j + 1].0, prev[j + 1].1));
                }
            }
        }
        i += 1;
    }
    proof {
        assert(ls.take(lines@.len() as int) =~= ls);
        assert(nanorc_run(ls, states));
    }
}

} // verus!
