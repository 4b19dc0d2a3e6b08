//! tico's own `~/.ticorc`: an INI-style file with four sections.
//!
//! - `[main]`: the same option vocabulary as `~/.nanorc`, one option per
//!   line, without the leading `set`/`unset` keyword: `optionname` or
//!   `optionname = value` to set or configure it, and `unset optionname` to
//!   turn a flag off explicitly.
//! - `[keybindings]`: `[menu.]key = function` (the menu defaults to
//!   `main`), e.g. `^G = help` or `search.^Y = older`. A quoted value binds
//!   the text itself, as nano's `bind key "string" menu` does; `key =
//!   unbind` (or `none`) removes a binding.
//! - `[syntax]`: the highlighting theme, `theme = NAME`, and per-language
//!   overrides, `LANG.theme = NAME` (kept in file order; the language name
//!   is taken in lower case).
//! - `[tico]`: tico's own settings; `max_syntax_highlight_size = SIZE`
//!   (a byte count, optionally with a `KB`/`MB`/`GB` suffix) caps the size
//!   of a buffer that is highlighted.
//!
//! Settings here take precedence over `~/.nanorc`.

use super::nanorc::{first_word, split_first};
use super::settings::{apply, set_setting, setting_of};
use super::{bind_in_menu, bound, line_note, quoted, rc_state, unbind_in_menu, unbound, unchanged, warn, warn_text, warned, RcState};
use crate::history::texts;
use crate::keymap::{action_name, is_rebindable, key_of, rebindable, Action, Binding, BindingView, Key, KeyMap};
use crate::options::{byte_size_of, pairs_view, parse_byte_size, Options, OptionsView};
use crate::text::{
    ascii_eq_ignore_case, ascii_lowercase, chars_eq_str, eq_ignore_case, find_char, first_index, lines_of, lowercase_chars,
    split_lines, string_from_chars, sub_chars, trim_chars, trimmed,
};
use vstd::prelude::*;

verus! {

/// The section a ticorc line is in.
#[derive(PartialEq, Eq, Clone, Copy, Structural)]
pub enum Section {
    /// Before any section header, or after an unknown one.
    NoSection,
    Main,
    KeyBindings,
    Syntax,
    Tico,
}

/// The section a (lowercase) header name names.
pub open spec fn section_of(name: Seq<char>) -> Option<Section> {
    if name == "main"@ {
        Some(Section::Main)
    } else if name == "keybindings"@ {
        Some(Section::KeyBindings)
    } else if name == "syntax"@ {
        Some(Section::Syntax)
    } else if name == "tico"@ {
        Some(Section::Tico)
    } else {
        None
    }
}

/// The value after an option name: `value`, `= value`, or nothing; a value
/// in double quotes is taken without them.
pub open spec fn value_of(rest: Seq<char>) -> Option<Seq<char>> {
    let r = trimmed(rest);
    let v = trimmed(if r.len() > 0 && r[0] == '=' { r.drop_first() } else { r });
    if v.len() == 0 {
        None
    } else if v.len() >= 2 && v[0] == '"' && v.last() == '"' {
        Some(v.subrange(1, v.len() - 1))
    } else {
        Some(v)
    }
}

/// A `[main]` line: `[set|unset] NAME [[=] VALUE]`.
pub open spec fn main_line(n: nat, line: Seq<char>, s: RcState, t: RcState) -> bool {
    let (first, rest) = first_word(line);
    let (name, enable, value_part) = if ascii_eq_ignore_case(first, "unset"@) {
        (first_word(rest).0, false, first_word(rest).1)
    } else if ascii_eq_ignore_case(first, "set"@) {
        (first_word(rest).0, true, first_word(rest).1)
    } else {
        (first, true, rest)
    };
    if name.len() == 0 {
        unchanged(s, t)
    } else {
        match setting_of(ascii_lowercase(name)) {
            Some(st) => set_setting(s.options, t.options, st, value_of(value_part), enable) && t.keys == s.keys
                && t.warnings == s.warnings,
            None => warned(s, t, line_note("ticorc"@, n, "unknown option: "@ + ascii_lowercase(name))),
        }
    }
}

/// Binding `key` in the menu named `menu` to the function named `name`
/// (lowercase); `rhs` is the value as written, for the warning about an
/// unknown function.
pub open spec fn function_bound(n: nat, name: Seq<char>, rhs: Seq<char>, menu: Seq<char>, key: Key, s: RcState, t: RcState) -> bool {
    if exists|a: Action| action_name(a) == Some(name) {
        exists|a: Action| #[trigger] action_name(a) == Some(name) && bound("ticorc"@, n, menu, key, BindingView::Action(a), s, t)
    } else {
        warned(s, t, line_note("ticorc"@, n, "unknown function `"@ + rhs + "`"@))
    }
}

/// A `[keybindings]` line: `[MENU.]KEY = FUNCTION|"STRING"|unbind|none`.
pub open spec fn keybinding_line(n: nat, line: Seq<char>, s: RcState, t: RcState) -> bool {
    match first_index(line, '=') {
        None => warned(s, t, line_note("ticorc"@, n, "expected `key = function`: `"@ + line + "`"@)),
        Some(eq) => {
            let lhs = trimmed(line.take(eq));
            let rhs = trimmed(line.skip(eq + 1));
            let (menu, key_spec) = match first_index(lhs, '.') {
                Some(d) => (lhs.take(d), lhs.skip(d + 1)),
                None => ("main"@, lhs),
            };
            match key_of(key_spec) {
                None => warned(s, t, line_note("ticorc"@, n, "invalid key spec `"@ + key_spec + "`"@)),
                Some(key) => if ascii_eq_ignore_case(rhs, "unbind"@) || ascii_eq_ignore_case(rhs, "none"@) {
                    unbound("ticorc"@, n, menu, key, s, t)
                } else if !rebindable(key) {
                    warned(s, t, line_note("ticorc"@, n, "`"@ + key_spec + "` cannot be rebound"@))
                } else if rhs.len() >= 2 && rhs[0] == '"' && rhs.last() == '"' {
                    bound("ticorc"@, n, menu, key, BindingView::Macro(rhs.subrange(1, rhs.len() - 1)), s, t)
                } else {
                    function_bound(n, ascii_lowercase(rhs), rhs, menu, key, s, t)
                },
            }
        },
    }
}

/// `t` is `s` with the options changed to `o` and nothing else.
pub open spec fn reconfigured(s: RcState, t: RcState, o: OptionsView) -> bool {
    &&& t.options == o
    &&& t.keys == s.keys
    &&& t.warnings == s.warnings
}

/// The setting name of a `KEY = VALUE` line whose `=` is at `eq`: the text
/// before it, trimmed, in lower case.
pub open spec fn assignment_key(line: Seq<char>, eq: int) -> Seq<char> {
    ascii_lowercase(trimmed(line.take(eq)))
}

/// `key` is `LANG.theme` with a nonempty `LANG`.
pub open spec fn is_language_theme_key(key: Seq<char>) -> bool {
    key.len() > 6 && key.skip(key.len() - 6) == ".theme"@
}

/// A `[syntax]` line: `theme = NAME` or `LANG.theme = NAME`.
pub open spec fn syntax_line(n: nat, line: Seq<char>, s: RcState, t: RcState) -> bool {
    match first_index(line, '=') {
        None => warned(s, t, line_note("ticorc"@, n, "expected `key = value`: `"@ + line + "`"@)),
        Some(eq) => {
            let key = assignment_key(line, eq);
            match value_of(line.skip(eq + 1)) {
                None => warned(s, t, line_note("ticorc"@, n, "missing value for `"@ + key + "`"@)),
                Some(v) => if key == "theme"@ {
                    reconfigured(s, t, OptionsView { theme: Some(v), ..s.options })
                } else if is_language_theme_key(key) {
                    reconfigured(
                        s,
                        t,
                        OptionsView {
                            language_themes: s.options.language_themes.push((key.take(key.len() - 6), v)),
                            ..s.options
                        },
                    )
                } else {
                    warned(s, t, line_note("ticorc"@, n, "unknown [syntax] setting `"@ + key + "`"@))
                },
            }
        },
    }
}

/// A `[tico]` line: `max_syntax_highlight_size = SIZE`.
pub open spec fn tico_line(n: nat, line: Seq<char>, s: RcState, t: RcState) -> bool {
    match first_index(line, '=') {
        None => warned(s, t, line_note("ticorc"@, n, "expected `key = value`: `"@ + line + "`"@)),
        Some(eq) => {
            let key = assignment_key(line, eq);
            match value_of(line.skip(eq + 1)) {
                None => warned(s, t, line_note("ticorc"@, n, "missing value for `"@ + key + "`"@)),
                Some(v) => if key == "max_syntax_highlight_size"@ {
                    match byte_size_of(v) {
                        Some(b) => reconfigured(s, t, OptionsView { max_syntax_highlight_bytes: b, ..s.options }),
                        None => warned(s, t, line_note("ticorc"@, n, "invalid size `"@ + v + "`"@)),
                    }
                } else {
                    warned(s, t, line_note("ticorc"@, n, "unknown [tico] setting `"@ + key + "`"@))
                },
            }
        },
    }
}

/// What line `n` (counted from 0) of a ticorc file does to the state `s`
/// in section `sec`: the state becomes `t`, and the section `sec2`.
pub open spec fn ticorc_step(n: nat, raw: Seq<char>, s: RcState, sec: Section, t: RcState, sec2: Section) -> bool {
    let line = trimmed(raw);
    if line.len() == 0 || line[0] == '#' || line[0] == ';' {
        unchanged(s, t) && sec2 == sec
    } else if line[0] == '[' && line.last() == ']' {
        let name = ascii_lowercase(trimmed(line.subrange(1, line.len() - 1)));
        match section_of(name) {
            Some(x) => unchanged(s, t) && sec2 == x,
            None => warned(s, t, line_note("ticorc"@, n, "unknown section ["@ + name + "]"@)) && sec2
                == Section::NoSection,
        }
    } else {
        &&& sec2 == sec
        &&& match sec {
            Section::Main => main_line(n, line, s, t),
            Section::KeyBindings => keybinding_line(n, line, s, t),
            Section::Syntax => syntax_line(n, line, s, t),
            Section::Tico => tico_line(n, line, s, t),
            Section::NoSection => warned(
                s,
                t,
                line_note("ticorc"@, n, "setting outside of a [section]: `"@ + line + "`"@),
            ),
        }
    }
}

/// Reading the lines `lines` goes through the states `states` (a state and
/// the current section), one more than there are lines, each line taking
/// the one before it to the one after it as `ticorc_step` says.
pub open spec fn ticorc_run(lines: Seq<Seq<char>>, states: Seq<(RcState, Section)>) -> bool {
    &&& states.len() == lines.len() + 1
    &&& forall|i: int|
        0 <= i < lines.len() ==> #[trigger] ticorc_step(
            i as nat,
            lines[i],
            states[i].0,
            states[i].1,
            states[i + 1].0,
            states[i + 1].1,
        )
}

/// `optionname value`, `optionname = value`, or a bare `optionname`.
fn extract_value(rest: &[char]) -> (r: Option<Vec<char>>)
    ensures
        match r {
            Some(v) => Some(v@),
            None => None::<Seq<char>>,
        } == value_of(rest@),
{
    let r = trim_chars(rest);
    let v = if r.len() > 0 && r[0] == '=' {
        let tail = sub_chars(r.as_slice(), 1, r.len());
        proof {
            assert(tail@ =~= r@.drop_first());
        }
        trim_chars(tail.as_slice())
    } else {
        trim_chars(r.as_slice())
    };
    if v.len() == 0 {
        return None;
    }
    if v.len() >= 2 && v[0] == '"' && v[v.len() - 1] == '"' {
        Some(sub_chars(v.as_slice(), 1, v.len() - 1))
    } else {
        Some(v)
    }
}

/// A `[main]` line.
fn parse_main_line(line: &[char], options: &mut Options, warnings: &mut Vec<String>, n: usize, Ghost(k): Ghost<Map<(crate::keymap::Menu, Key), BindingView>>)
    requires
        n < usize::MAX,
    ensures
        main_line(
            n as nat,
            line@,
            RcState { options: old(options)@, keys: k, warnings: texts(old(warnings)@) },
            RcState { options: final(options)@, keys: k, warnings: texts(final(warnings)@) },
        ),
{
    let (first, rest) = split_first(line);
    let (name, enable, value_part) = if eq_ignore_case(first.as_slice(), "unset") {
        let (nm, r) = split_first(rest.as_slice());
        (nm, false, r)
    } else if eq_ignore_case(first.as_slice(), "set") {
        let (nm, r) = split_first(rest.as_slice());
        (nm, true, r)
    } else {
        (first, true, rest)
    };
    if name.len() == 0 {
        return;
    }
    let value = extract_value(value_part.as_slice());
    let lname = lowercase_chars(name.as_slice());
    let lname_s = string_from_chars(lname.as_slice());
    let value_s: Option<String> = match value {
        Some(v) => Some(string_from_chars(v.as_slice())),
        None => None,
    };
    let value_ref: Option<&str> = match &value_s {
        Some(v) => Some(v.as_str()),
        None => None,
    };
    match apply(options, lname_s.as_str(), value_ref, enable) {
        Ok(()) => {},
        Err(e) => {
            warn_text(warnings, "ticorc", n, e.as_str());
        },
    }
}

/// A `[keybindings]` line.
fn parse_keybinding_line(line: &[char], keymap: &mut KeyMap, warnings: &mut Vec<String>, n: usize, Ghost(o): Ghost<OptionsView>)
    requires
        n < usize::MAX,
    ensures
        keybinding_line(
            n as nat,
            line@,
            RcState { options: o, keys: old(keymap)@, warnings: texts(old(warnings)@) },
            RcState { options: o, keys: final(keymap)@, warnings: texts(final(warnings)@) },
        ),
{
    let eq = match find_char(line, '=') {
        Some(eq) => eq,
        None => {
            let msg = quoted("expected `key = function`: `", line, "`");
            warn(warnings, "ticorc", n, msg.as_slice());
            return;
        },
    };
    let len = line.len();
    let left = sub_chars(line, 0, eq);
    let right = sub_chars(line, eq + 1, len);
    proof {
        assert(left@ =~= line@.take(eq as int));
        assert(right@ =~= line@.skip(eq + 1));
    }
    let lhs = trim_chars(left.as_slice());
    let rhs = trim_chars(right.as_slice());
    let (menu, key_spec) = match find_char(lhs.as_slice(), '.') {
        Some(d) => {
            let lhs_len = lhs.len();
            let m = sub_chars(lhs.as_slice(), 0, d);
            let k = sub_chars(lhs.as_slice(), d + 1, lhs_len);
            proof {
                assert(m@ =~= lhs@.take(d as int));
                assert(k@ =~= lhs@.skip(d + 1));
            }
            (m, k)
        },
        None => (crate::text::str_chars("main"), lhs),
    };
    let ks = string_from_chars(key_spec.as_slice());
    let key = match Key::parse(ks.as_str()) {
        Some(k) => k,
        None => {
            let msg = quoted("invalid key spec `", key_spec.as_slice(), "`");
            warn(warnings, "ticorc", n, msg.as_slice());
            return;
        },
    };
    if eq_ignore_case(rhs.as_slice(), "unbind") || eq_ignore_case(rhs.as_slice(), "none") {
        unbind_in_menu(keymap, warnings, "ticorc", n, menu.as_slice(), key, Ghost(o));
        return;
    }
    if !is_rebindable(&key) {
        let msg = quoted("`", key_spec.as_slice(), "` cannot be rebound");
        warn(warnings, "ticorc", n, msg.as_slice());
        return;
    }
    if rhs.len() >= 2 && rhs[0] == '"' && rhs[rhs.len() - 1] == '"' {
        let inner = sub_chars(rhs.as_slice(), 1, rhs.len() - 1);
        let binding = Binding::Macro(string_from_chars(inner.as_slice()));
        bind_in_menu(keymap, warnings, "ticorc", n, menu.as_slice(), key, binding, Ghost(o));
        return;
    }
    let lower = lowercase_chars(rhs.as_slice());
    let lname = string_from_chars(lower.as_slice());
    match Action::from_name(lname.as_str()) {
        Some(a) => {
            bind_in_menu(keymap, warnings, "ticorc", n, menu.as_slice(), key, Binding::Action(a), Ghost(o));
            assert(action_name(a) == Some(ascii_lowercase(rhs@)));
        },
        None => {
            let msg = quoted("unknown function `", rhs.as_slice(), "`");
            warn(warnings, "ticorc", n, msg.as_slice());
        },
    }
}

/// The setting name and value of a `KEY = VALUE` line, or the warning
/// message for a line that has none; `eq` is where its `=` is.
fn split_assignment(line: &[char], n: usize, warnings: &mut Vec<String>) -> (r: Option<(Vec<char>, Vec<char>)>)
    requires
        n < usize::MAX,
    ensures
        match first_index(line@, '=') {
            None => r is None && texts(final(warnings)@) == texts(old(warnings)@).push(
                line_note("ticorc"@, n as nat, "expected `key = value`: `"@ + line@ + "`"@),
            ),
            Some(eq) => match value_of(line@.skip(eq + 1)) {
                None => r is None && texts(final(warnings)@) == texts(old(warnings)@).push(
                    line_note("ticorc"@, n as nat, "missing value for `"@ + assignment_key(line@, eq) + "`"@),
                ),
                Some(v) => final(warnings)@ == old(warnings)@ && match r {
                    Some(kv) => kv.0@ == assignment_key(line@, eq) && kv.1@ == v,
                    None => false,
                },
            },
        },
{
    let eq = match find_char(line, '=') {
        Some(eq) => eq,
        None => {
            let msg = quoted("expected `key = value`: `", line, "`");
            warn(warnings, "ticorc", n, msg.as_slice());
            return None;
        },
    };
    let len = line.len();
    let left = sub_chars(line, 0, eq);
    let right = sub_chars(line, eq + 1, len);
    proof {
        assert(left@ =~= line@.take(eq as int));
        assert(right@ =~= line@.skip(eq + 1));
    }
    let key = lowercase_chars(trim_chars(left.as_slice()).as_slice());
    match extract_value(right.as_slice()) {
        Some(v) => Some((key, v)),
        None => {
            let msg = quoted("missing value for `", key.as_slice(), "`");
            warn(warnings, "ticorc", n, msg.as_slice());
            None
        },
    }
}

/// A `[syntax]` line.
fn parse_syntax_line(line: &[char], options: &mut Options, warnings: &mut Vec<String>, n: usize, Ghost(k): Ghost<Map<(crate::keymap::Menu, Key), BindingView>>)
    requires
        n < usize::MAX,
    ensures
        syntax_line(
            n as nat,
            line@,
            RcState { options: old(options)@, keys: k, warnings: texts(old(warnings)@) },
            RcState { options: final(options)@, keys: k, warnings: texts(final(warnings)@) },
        ),
{
    let (key, value) = match split_assignment(line, n, warnings) {
        Some(kv) => kv,
        None => return,
    };
    let klen = key.len();
    if chars_eq_str(key.as_slice(), "theme") {
        options.theme = Some(string_from_chars(value.as_slice()));
        return;
    }
    if klen > 6 {
        let tail = sub_chars(key.as_slice(), klen - 6, klen);
        proof {
            assert(tail@ =~= key@.skip(klen - 6));
        }
        if chars_eq_str(tail.as_slice(), ".theme") {
            let lang = sub_chars(key.as_slice(), 0, klen - 6);
            proof {
                assert(lang@ =~= key@.take(klen - 6));
            }
            let ghost before = options.language_themes@;
            options.language_themes.push((string_from_chars(lang.as_slice()), string_from_chars(value.as_slice())));
            proof {
                reveal(pairs_view);
                assert(pairs_view(options.language_themes@) =~= pairs_view(before).push((lang@, value@)));
            }
            return;
        }
    }
    let msg = quoted("unknown [syntax] setting `", key.as_slice(), "`");
    warn(warnings, "ticorc", n, msg.as_slice());
}

/// A `[tico]` line.
fn parse_tico_line(line: &[char], options: &mut Options, warnings: &mut Vec<String>, n: usize, Ghost(k): Ghost<Map<(crate::keymap::Menu, Key), BindingView>>)
    requires
        n < usize::MAX,
    ensures
        tico_line(
            n as nat,
            line@,
            RcState { options: old(options)@, keys: k, warnings: texts(old(warnings)@) },
            RcState { options: final(options)@, keys: k, warnings: texts(final(warnings)@) },
        ),
{
    let (key, value) = match split_assignment(line, n, warnings) {
        Some(kv) => kv,
        None => return,
    };
    if chars_eq_str(key.as_slice(), "max_syntax_highlight_size") {
        let text = string_from_chars(value.as_slice());
        match parse_byte_size(text.as_str()) {
            Some(b) => {
                options.max_syntax_highlight_bytes = b;
            },
            None => {
                let msg = quoted("invalid size `", value.as_slice(), "`");
                warn(warnings, "ticorc", n, msg.as_slice());
            },
        }
        return;
    }
    let msg = quoted("unknown [tico] setting `", key.as_slice(), "`");
    warn(warnings, "ticorc", n, msg.as_slice());
}

/// One line of a ticorc file, line `n` counted from 0.
fn ticorc_line(
    n: usize,
    raw: &[char],
    section: &mut Section,
    options: &mut Options,
    keymap: &mut KeyMap,
    warnings: &mut Vec<String>,
)
    requires
        n < usize::MAX,
    ensures
        ticorc_step(
            n as nat,
            raw@,
            rc_state(*old(options), *old(keymap), old(warnings)@),
            *old(section),
            rc_state(*final(options), *final(keymap), final(warnings)@),
            *final(section),
        ),
{
    let line = trim_chars(raw);
    if line.len() == 0 || line[0] == '#' || line[0] == ';' {
        return;
    }
    if line[0] == '[' && line[line.len() - 1] == ']' {
        let inner = sub_chars(line.as_slice(), 1, line.len() - 1);
        let name = lowercase_chars(trim_chars(inner.as_slice()).as_slice());
        if chars_eq_str(name.as_slice(), "main") {
            *section = Section::Main;
        } else if chars_eq_str(name.as_slice(), "keybindings") {
            *section = Section::KeyBindings;
        } else if chars_eq_str(name.as_slice(), "syntax") {
            *section = Section::Syntax;
        } else if chars_eq_str(name.as_slice(), "tico") {
            *section = Section::Tico;
        } else {
            let msg = quoted("unknown section [", name.as_slice(), "]");
            warn(warnings, "ticorc", n, msg.as_slice());
            *section = Section::NoSection;
        }
        return;
    }
    match *section {
        Section::Main => parse_main_line(line.as_slice(), options, warnings, n, Ghost(keymap@)),
        Section::KeyBindings => parse_keybinding_line(line.as_slice(), keymap, warnings, n, Ghost(options@)),
        Section::Syntax => parse_syntax_line(line.as_slice(), options, warnings, n, Ghost(keymap@)),
        Section::Tico => parse_tico_line(line.as_slice(), options, warnings, n, Ghost(keymap@)),
        Section::NoSection => {
            let msg = quoted("setting outside of a [section]: `", line.as_slice(), "`");
            warn(warnings, "ticorc", n, msg.as_slice());
        },
    }
}

/// Apply a ticorc file's text: its lines in order, as `ticorc_step` says,
/// starting before any section.
pub fn parse(text: &str, options: &mut Options, keymap: &mut KeyMap, warnings: &mut Vec<String>)
    ensures
        exists|states: Seq<(RcState, Section)>|
            #[trigger] ticorc_run(lines_of(text@), states) && states[0] == (
                rc_state(*old(options), *old(keymap), old(warnings)@),
                Section::NoSection,
            ) && states.last().0 == rc_state(*final(options), *final(keymap), final(warnings)@),
{
    let lines = split_lines(text);
    let ghost ls = lines_of(text@);
    let mut section = Section::NoSection;
    let ghost mut states: Seq<(RcState, Section)> = seq![(rc_state(*options, *keymap, warnings@), Section::NoSection)];
    let mut i: usize = 0;
    while i < lines.len()
        invariant
            i <= lines@.len(),
            lines@.map_values(|l: Vec<char>| l@) == ls,
            states[0] == (rc_state(*old(options), *old(keymap), old(warnings)@), Section::NoSection),
            states.last() == (rc_state(*options, *keymap, warnings@), section),
            ticorc_run(ls.take(i as int), states),
        decreases lines.len() - i,
    {
        let ghost prev = states;
        ticorc_line(i, lines[i].as_slice(), &mut section, options, keymap, warnings);
        proof {
            states = prev.push((rc_state(*options, *keymap, warnings@), section));
            let p = ls.take(i + 1);
            assert(p[i as int] == lines@[i as int]@);
            assert forall|j: int| 0 <= j < p.len() implies #[trigger] ticorc_step(
                j as nat,
                p[j],
                states[j].0,
                states[j].1,
                states[j + 1].0,
                states[j + 1].1,
            ) by {
                if j < i {
                    assert(p[j] == ls.take(i as int)[j]);
                    assert(ticorc_step(j as nat, ls.take(i as int)[j], prev[j].0, prev[j].1, prev[j + 1].0, prev[j + 1].1));
                }
            }
        }
        i += 1;
    }
    proof {
        assert(ls.take(lines@.len() as int) =~= ls);
        assert(ticorc_run(ls, states));
    }
}

} // verus!
