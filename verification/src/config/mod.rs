//! Configuration: `~/.nanorc` (nano's format; syntax-highlighting directives
//! ignored) and `~/.ticorc` (tico's own INI-style format), applied in that
//! order (ticorc wins on conflicts), then overridden by command-line flags.
//! Finding and reading the files is the program's part; here the texts are
//! read into options, key bindings and warnings.

pub mod nanorc;
pub mod settings;
pub mod ticorc;

use crate::history::texts;
use crate::keymap::{action_name, all_menus, menu_name, Action, Binding, BindingView, Key, KeyMap, Menu};
use crate::options::{Options, OptionsView};
use crate::text::{ascii_eq_ignore_case, ascii_lowercase, decimal, eq_ignore_case, lowercase_chars, push_all, push_decimal, push_str, string_from_chars};
use vstd::prelude::*;

verus! {

/// What reading the configuration produced.
pub struct LoadedConfig {
    pub options: Options,
    pub keymap: KeyMap,
    pub warnings: Vec<String>,
}

/// What a configuration file's lines act on: the options, the key
/// bindings, and the warnings so far.
pub struct RcState {
    pub options: OptionsView,
    pub keys: Map<(Menu, Key), BindingView>,
    pub warnings: Seq<Seq<char>>,
}

pub open spec fn rc_state(options: Options, keymap: KeyMap, warnings: Seq<String>) -> RcState {
    RcState { options: options@, keys: keymap@, warnings: texts(warnings) }
}

/// A warning about line `n` (counted from 0) of `file`: `file:LINE: msg`,
/// with the line counted from 1.
pub open spec fn line_note(file: Seq<char>, n: nat, msg: Seq<char>) -> Seq<char> {
    file + ":"@ + decimal(n + 1) + ": "@ + msg
}

/// `t` is `s` with one more warning, `msg`.
pub open spec fn warned(s: RcState, t: RcState, msg: Seq<char>) -> bool {
    &&& t.options == s.options
    &&& t.keys == s.keys
    &&& t.warnings == s.warnings.push(msg)
}

/// `t` is `s` with only the key bindings changed, to `keys`.
pub open spec fn rebound(s: RcState, t: RcState, keys: Map<(Menu, Key), BindingView>) -> bool {
    &&& t.options == s.options
    &&& t.keys == keys
    &&& t.warnings == s.warnings
}

/// `t` is `s` unchanged.
pub open spec fn unchanged(s: RcState, t: RcState) -> bool {
    rebound(s, t, s.keys)
}

/// What a `bind` argument binds: the function of that name, or else the
/// text itself, typed as a macro.
pub open spec fn binding_named(arg: Seq<char>, b: BindingView) -> bool {
    match b {
        BindingView::Action(a) => action_name(a) == Some(arg),
        BindingView::Macro(m) => m == arg && forall|a: Action| action_name(a) != Some(arg),
    }
}

/// `key` bound to `b` in every menu.
pub open spec fn in_every_menu(key: Key, b: BindingView) -> Map<(Menu, Key), BindingView> {
    Map::new(|k: (Menu, Key)| all_menus().contains(k.0) && k.1 == key, |k: (Menu, Key)| b)
}

/// `key` in any menu.
pub open spec fn in_any_menu(key: Key) -> Set<(Menu, Key)> {
    Set::new(|k: (Menu, Key)| k.1 == key)
}

/// Binding `key` to `b` in the menu named `name` (any case), or in every
/// menu for `all`; an unknown menu is warned about in `file`'s line `n`.
pub open spec fn bound(file: Seq<char>, n: nat, name: Seq<char>, key: Key, b: BindingView, s: RcState, t: RcState) -> bool {
    if ascii_eq_ignore_case(name, "all"@) {
        rebound(s, t, s.keys.union_prefer_right(in_every_menu(key, b)))
    } else if exists|m: Menu| menu_name(m) == ascii_lowercase(name) {
        exists|m: Menu| menu_name(m) == ascii_lowercase(name) && rebound(s, t, s.keys.insert((m, key), b))
    } else {
        warned(s, t, line_note(file, n, "unknown menu `"@ + name + "`"@))
    }
}

/// Removing `key`'s binding from the menu named `name` (any case), or from
/// every menu for `all`; an unknown menu is warned about.
pub open spec fn unbound(file: Seq<char>, n: nat, name: Seq<char>, key: Key, s: RcState, t: RcState) -> bool {
    if ascii_eq_ignore_case(name, "all"@) {
        rebound(s, t, s.keys.remove_keys(in_any_menu(key)))
    } else if exists|m: Menu| menu_name(m) == ascii_lowercase(name) {
        exists|m: Menu| menu_name(m) == ascii_lowercase(name) && rebound(s, t, s.keys.remove((m, key)))
    } else {
        warned(s, t, line_note(file, n, "unknown menu `"@ + name + "`"@))
    }
}

/// Add the warning `file:LINE: msg` about line `n` (counted from 0).
pub fn warn(warnings: &mut Vec<String>, file: &str, n: usize, msg: &[char])
    requires
        n < usize::MAX,
    ensures
        texts(final(warnings)@) == texts(old(warnings)@).push(line_note(file@, n as nat, msg@)),
{
    let mut out: Vec<char> = Vec::new();
    push_str(&mut out, file);
    out.push(':');
    push_decimal(&mut out, n + 1);
    out.push(':');
    out.push(' ');
    push_all(&mut out, msg);
    proof {
        reveal_strlit(":");
        reveal_strlit(": ");
        assert(out@ =~= line_note(file@, n as nat, msg@));
    }
    let ghost before = texts(warnings@);
    warnings.push(string_from_chars(out.as_slice()));
    proof {
        assert(texts(warnings@) =~= before.push(out@));
    }
}

/// Add the warning `file:LINE: msg` about line `n` (counted from 0).
pub fn warn_text(warnings: &mut Vec<String>, file: &str, n: usize, msg: &str)
    requires
        n < usize::MAX,
    ensures
        texts(final(warnings)@) == texts(old(warnings)@).push(line_note(file@, n as nat, msg@)),
{
    let cs = crate::text::str_chars(msg);
    warn(warnings, file, n, cs.as_slice());
}

/// The characters `pre`, `mid` and `post` one after another.
pub fn quoted(pre: &str, mid: &[char], post: &str) -> (r: Vec<char>)
    ensures
        r@ == pre@ + mid@ + post@,
{
    let mut out: Vec<char> = Vec::new();
    push_str(&mut out, pre);
    push_all(&mut out, mid);
    push_str(&mut out, post);
    out
}

/// Bind `key` to `binding` in the menu named `name`, or in all menus.
pub fn bind_in_menu(
    keymap: &mut KeyMap,
    warnings: &mut Vec<String>,
    file: &str,
    n: usize,
    name: &[char],
    key: Key,
    binding: Binding,
    Ghost(o): Ghost<OptionsView>,
)
    requires
        n < usize::MAX,
    ensures
        bound(
            file@,
            n as nat,
            name@,
            key,
            binding@,
            RcState { options: o, keys: old(keymap)@, warnings: texts(old(warnings)@) },
            RcState { options: o, keys: final(keymap)@, warnings: texts(final(warnings)@) },
        ),
{
    let ghost b = binding@;
    if eq_ignore_case(name, "all") {
        let menus = Menu::all();
        keymap.bind_all_menus(menus.as_slice(), key, binding);
        assert(texts(warnings@) == texts(old(warnings)@));
        assert(keymap@ =~= old(keymap)@.union_prefer_right(in_every_menu(key, b)));
    } else {
        let lower = lowercase_chars(name);
        let lname = string_from_chars(lower.as_slice());
        match Menu::from_name(lname.as_str()) {
            Some(m) => {
                keymap.bind(m, key, binding);
                assert(menu_name(m) == ascii_lowercase(name@));
                assert(rebound(
                    RcState { options: o, keys: old(keymap)@, warnings: texts(old(warnings)@) },
                    RcState { options: o, keys: keymap@, warnings: texts(warnings@) },
                    old(keymap)@.insert((m, key), b)));
            },
            None => {
                let msg = quoted("unknown menu `", name, "`");
                warn(warnings, file, n, msg.as_slice());
            },
        }
    }
}

/// Remove `key`'s binding from the menu named `name`, or from all menus.
pub fn unbind_in_menu(
    keymap: &mut KeyMap,
    warnings: &mut Vec<String>,
    file: &str,
    n: usize,
    name: &[char],
    key: Key,
    Ghost(o): Ghost<OptionsView>,
)
    requires
        n < usize::MAX,
    ensures
        unbound(
            file@,
            n as nat,
            name@,
            key,
            RcState { options: o, keys: old(keymap)@, warnings: texts(old(warnings)@) },
            RcState { options: o, keys: final(keymap)@, warnings: texts(final(warnings)@) },
        ),
{
    if eq_ignore_case(name, "all") {
        keymap.unbind_all_menus(key);
        assert(keymap@ =~= old(keymap)@.remove_keys(in_any_menu(key)));
    } else {
        let lower = lowercase_chars(name);
        let lname = string_from_chars(lower.as_slice());
        match Menu::from_name(lname.as_str()) {
            Some(m) => {
                keymap.unbind(m, key);
                assert(menu_name(m) == ascii_lowercase(name@));
            },
            None => {
                let msg = quoted("unknown menu `", name, "`");
                warn(warnings, file, n, msg.as_slice());
            },
        }
    }
}

} // verus!
