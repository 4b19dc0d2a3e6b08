//! Syntax highlighting's vocabulary: highlight scopes, the spans a
//! highlighter produces, the renaming of grammar capture names into the
//! scope names themes are written against, and the language registry.

pub mod detect;
pub mod languages;

use crate::text::{find_char, first_index, strip_cr, trim_start, chars_eq_str, has_prefix, is_space, push_all, push_str, str_chars, string_from_chars, trim_chars, trimmed};
use vstd::prelude::*;

verus! {

/// A highlight scope name in Helix's vocabulary (`keyword.control.import`,
/// `constant.numeric`, `markup.heading`, ...). Themes map scopes to styles
/// by longest dotted prefix, so the full name is kept.
#[derive(Debug, Clone, PartialEq, Eq, Hash)]
pub struct Scope {
    name: String,
}

impl View for Scope {
    type V = Seq<char>;

    closed spec fn view(&self) -> Seq<char> {
        self.name@
    }
}

impl Scope {
    /// The scope with this name: the same name always gives the same
    /// scope, and different names different scopes.
    pub fn intern(name: &str) -> (s: Scope)
        ensures
            s@ == name@,
    {
        Scope { name: string_from_chars(str_chars(name).as_slice()) }
    }

    /// The scope's name.
    pub fn name(&self) -> (n: &str)
        ensures
            n@ == self@,
    {
        self.name.as_str()
    }

    /// Whether two scopes are the same scope.
    pub fn same(&self, other: &Scope) -> (r: bool)
        ensures
            r == (self@ == other@),
    {
        crate::text::str_eq(self.name.as_str(), other.name.as_str())
    }
}

/// A scope's name reads back as interned, and scopes compare as their names.
pub proof fn law_scopes_are_their_names(a: Seq<char>, b: Seq<char>, sa: Scope, sb: Scope)
    requires
        sa@ == a,
        sb@ == b,
    ensures
        (sa@ == sb@) <==> (a == b),
{
}

/// One highlighted span of a buffer, as byte offsets into its text, with
/// the name of the language whose highlighting produced it (a heredoc body
/// of another language carries that language).
#[derive(Debug, Clone, PartialEq, Eq)]
pub struct HighlightSpan {
    pub start: usize,
    pub end: usize,
    pub scope: Scope,
    pub language: &'static str,
}

// ---------------------------------------------------------------------------
// Capture names
// ---------------------------------------------------------------------------

/// Captures renamed (or, for `None`, dropped) as a whole.
pub open spec fn exact_capture(name: Seq<char>) -> Option<Option<Seq<char>>> {
    if name == "spell"@ {
        Some(None)
    } else if name == "nospell"@ {
        Some(None)
    } else if name == "none"@ {
        Some(None)
    } else if name == "error"@ {
        Some(None)
    } else if name == "embedded"@ {
        Some(None)
    } else if name == "clean"@ {
        Some(None)
    } else if name == "text.note"@ {
        Some(None)
    } else if name == "text.warning"@ {
        Some(None)
    } else if name == "text.danger"@ {
        Some(None)
    } else if name == "number"@ {
        Some(Some("constant.numeric"@))
    } else if name == "number.float"@ {
        Some(Some("constant.numeric.float"@))
    } else if name == "float"@ {
        Some(Some("constant.numeric.float"@))
    } else if name == "boolean"@ {
        Some(Some("constant.builtin.boolean"@))
    } else if name == "character"@ {
        Some(Some("constant.character"@))
    } else if name == "char"@ {
        Some(Some("constant.character"@))
    } else if name == "character.special"@ {
        Some(Some("constant.character"@))
    } else if name == "escape"@ {
        Some(Some("constant.character.escape"@))
    } else if name == "string.escape"@ {
        Some(Some("constant.character.escape"@))
    } else if name == "character.escape"@ {
        Some(Some("constant.character.escape"@))
    } else if name == "string.regex"@ {
        Some(Some("string.regexp"@))
    } else if name == "string.special.regex"@ {
        Some(Some("string.regexp"@))
    } else if name == "string.special.uri"@ {
        Some(Some("string.special.url"@))
    } else if name == "string.documentation"@ {
        Some(Some("string"@))
    } else if name == "conditional"@ {
        Some(Some("keyword.control.conditional"@))
    } else if name == "keyword.conditional"@ {
        Some(Some("keyword.control.conditional"@))
    } else if name == "keyword.conditional.ternary"@ {
        Some(Some("keyword.control.conditional"@))
    } else if name == "repeat"@ {
        Some(Some("keyword.control.repeat"@))
    } else if name == "keyword.repeat"@ {
        Some(Some("keyword.control.repeat"@))
    } else if name == "include"@ {
        Some(Some("keyword.control.import"@))
    } else if name == "import"@ {
        Some(Some("keyword.control.import"@))
    } else if name == "keyword.import"@ {
        Some(Some("keyword.control.import"@))
    } else if name == "meta.import"@ {
        Some(Some("keyword.control.import"@))
    } else if name == "exception"@ {
        Some(Some("keyword.control.exception"@))
    } else if name == "keyword.exception"@ {
        Some(Some("keyword.control.exception"@))
    } else if name == "keyword.return"@ {
        Some(Some("keyword.control.return"@))
    } else if name == "keyword.control"@ {
        Some(Some("keyword.control"@))
    } else if name == "keyword.coroutine"@ {
        Some(Some("keyword"@))
    } else if name == "keyword.debug"@ {
        Some(Some("keyword"@))
    } else if name == "keyword.other"@ {
        Some(Some("keyword"@))
    } else {
        exact_capture_rest(name)
    }
}

/// The rest of the whole-name renames.
pub open spec fn exact_capture_rest(name: Seq<char>) -> Option<Option<Seq<char>>> {
    if name == "keyword.other.port"@ {
        Some(Some("keyword"@))
    } else if name == "keyword.type"@ {
        Some(Some("keyword.storage.type"@))
    } else if name == "storage.type"@ {
        Some(Some("keyword.storage.type"@))
    } else if name == "keyword.modifier"@ {
        Some(Some("keyword.storage.modifier"@))
    } else if name == "storageclass"@ {
        Some(Some("keyword.storage.modifier"@))
    } else if name == "type.qualifier"@ {
        Some(Some("keyword.storage.modifier"@))
    } else if name == "preproc"@ {
        Some(Some("keyword.directive"@))
    } else if name == "define"@ {
        Some(Some("keyword.directive"@))
    } else if name == "macro"@ {
        Some(Some("keyword.directive"@))
    } else if name == "custom_directive"@ {
        Some(Some("keyword.directive"@))
    } else if name == "method"@ {
        Some(Some("function.method"@))
    } else if name == "method.call"@ {
        Some(Some("function.method"@))
    } else if name == "function.method.call"@ {
        Some(Some("function.method"@))
    } else if name == "function.method.builtin"@ {
        Some(Some("function.method"@))
    } else if name == "function.call"@ {
        Some(Some("function"@))
    } else if name == "local.function"@ {
        Some(Some("function"@))
    } else if name == "function.macro.builtin"@ {
        Some(Some("function.macro"@))
    } else if name == "parameter"@ {
        Some(Some("variable.parameter"@))
    } else if name == "parameter.builtin"@ {
        Some(Some("variable.parameter"@))
    } else if name == "property"@ {
        Some(Some("variable.other.member"@))
    } else if name == "property.definition"@ {
        Some(Some("variable.other.member"@))
    } else if name == "field"@ {
        Some(Some("variable.other.member"@))
    } else if name == "variable.member"@ {
        Some(Some("variable.other.member"@))
    } else if name == "module"@ {
        Some(Some("namespace"@))
    } else if name == "module.builtin"@ {
        Some(Some("namespace"@))
    } else if name == "type.definition"@ {
        Some(Some("type"@))
    } else if name == "interface"@ {
        Some(Some("type"@))
    } else if name == "union"@ {
        Some(Some("type"@))
    } else if name == "tag.attribute"@ {
        Some(Some("attribute"@))
    } else if name == "delimiter"@ {
        Some(Some("punctuation.delimiter"@))
    } else if name == "comment.doc"@ {
        Some(Some("comment.block.documentation"@))
    } else if name == "comment.doc.__attribute__"@ {
        Some(Some("comment.block.documentation"@))
    } else if name == "comment.documentation"@ {
        Some(Some("comment.block.documentation"@))
    } else if name == "text.title"@ {
        Some(Some("markup.heading"@))
    } else if name == "text.uri"@ {
        Some(Some("markup.link.url"@))
    } else if name == "text.reference"@ {
        Some(Some("markup.link.label"@))
    } else if name == "text.literal"@ {
        Some(Some("markup.raw"@))
    } else if name == "text.emphasis"@ {
        Some(Some("markup.italic"@))
    } else if name == "text.strong"@ {
        Some(Some("markup.bold"@))
    } else {
        None
    }
}

/// The Helix name of a capture's leading segment.
pub open spec fn head_scope(head: Seq<char>) -> Seq<char> {
    if head == "number"@ {
        "constant.numeric"@
    } else if head == "character"@ {
        "constant.character"@
    } else if head == "conditional"@ {
        "keyword.control.conditional"@
    } else if head == "repeat"@ {
        "keyword.control.repeat"@
    } else if head == "include"@ {
        "keyword.control.import"@
    } else if head == "exception"@ {
        "keyword.control.exception"@
    } else if head == "preproc"@ {
        "keyword.directive"@
    } else if head == "method"@ {
        "function.method"@
    } else if head == "parameter"@ {
        "variable.parameter"@
    } else if head == "property"@ {
        "variable.other.member"@
    } else if head == "field"@ {
        "variable.other.member"@
    } else if head == "module"@ {
        "namespace"@
    } else if head == "text"@ {
        "markup"@
    } else {
        head
    }
}

/// The index of the first '.' in `s`, if any.
pub open spec fn first_dot(s: Seq<char>) -> Option<int>
    decreases s.len(),
{
    if s.len() == 0 {
        None
    } else if s[0] == '.' {
        Some(0)
    } else {
        match first_dot(s.drop_first()) {
            Some(i) => Some(i + 1),
            None => None,
        }
    }
}

/// The scope a raw capture name highlights as, in Helix's vocabulary, or
/// `None` for captures that highlight nothing: an `.elm` suffix is dropped;
/// `_`-prefixed helper captures and `source.*` injection markers give none;
/// some names are renamed as a whole (or dropped); otherwise only the
/// leading segment is renamed, keeping the rest.
pub open spec fn capture_scope(raw: Seq<char>) -> Option<Seq<char>> {
    let name = if raw.len() >= 4 && raw.skip(raw.len() - 4) == ".elm"@ { raw.take(raw.len() - 4) } else { raw };
    if (name.len() >= 1 && name[0] == '_') || (name.len() >= 7 && name.take(7) == "source."@) {
        None
    } else {
        match exact_capture(name) {
            Some(r) => r,
            None => match first_dot(name) {
                Some(i) => Some(head_scope(name.take(i)) + "."@ + name.skip(i + 1)),
                None => Some(head_scope(name)),
            },
        }
    }
}

fn exact_capture_exec(name: &[char]) -> (r: Option<Option<&'static str>>)
    ensures
        match r {
            None => exact_capture(name@) is None,
            Some(None) => exact_capture(name@) == Some(None::<Seq<char>>),
            Some(Some(s)) => exact_capture(name@) == Some(Some(s@)),
        },
{
    if chars_eq_str(name, "spell") {
        return Some(None);
    }
    if chars_eq_str(name, "nospell") {
        return Some(None);
    }
    if chars_eq_str(name, "none") {
        return Some(None);
    }
    if chars_eq_str(name, "error") {
        return Some(None);
    }
    if chars_eq_str(name, "embedded") {
        return Some(None);
    }
    if chars_eq_str(name, "clean") {
        return Some(None);
    }
    if chars_eq_str(name, "text.note") {
        return Some(None);
    }
    if chars_eq_str(name, "text.warning") {
        return Some(None);
    }
    if chars_eq_str(name, "text.danger") {
        return Some(None);
    }
    if chars_eq_str(name, "number") {
        return Some(Some("constant.numeric"));
    }
    if chars_eq_str(name, "number.float") {
        return Some(Some("constant.numeric.float"));
    }
    if chars_eq_str(name, "float") {
        return Some(Some("constant.numeric.float"));
    }
    if chars_eq_str(name, "boolean") {
        return Some(Some("constant.builtin.boolean"));
    }
    if chars_eq_str(name, "character") {
        return Some(Some("constant.character"));
    }
    if chars_eq_str(name, "char") {
        return Some(Some("constant.character"));
    }
    if chars_eq_str(name, "character.special") {
        return Some(Some("constant.character"));
    }
    if chars_eq_str(name, "escape") {
        return Some(Some("constant.character.escape"));
    }
    if chars_eq_str(name, "string.escape") {
        return Some(Some("constant.character.escape"));
    }
    if chars_eq_str(name, "character.escape") {
        return Some(Some("constant.character.escape"));
    }
    if chars_eq_str(name, "string.regex") {
        return Some(Some("string.regexp"));
    }
    if chars_eq_str(name, "string.special.regex") {
        return Some(Some("string.regexp"));
    }
    if chars_eq_str(name, "string.special.uri") {
        return Some(Some("string.special.url"));
    }
    if chars_eq_str(name, "string.documentation") {
        return Some(Some("string"));
    }
    if chars_eq_str(name, "conditional") {
        return Some(Some("keyword.control.conditional"));
    }
    if chars_eq_str(name, "keyword.conditional") {
        return Some(Some("keyword.control.conditional"));
    }
    if chars_eq_str(name, "keyword.conditional.ternary") {
        return Some(Some("keyword.control.conditional"));
    }
    if chars_eq_str(name, "repeat") {
        return Some(Some("keyword.control.repeat"));
    }
    if chars_eq_str(name, "keyword.repeat") {
        return Some(Some("keyword.control.repeat"));
    }
    if chars_eq_str(name, "include") {
        return Some(Some("keyword.control.import"));
    }
    if chars_eq_str(name, "import") {
        return Some(Some("keyword.control.import"));
    }
    if chars_eq_str(name, "keyword.import") {
        return Some(Some("keyword.control.import"));
    }
    if chars_eq_str(name, "meta.import") {
        return Some(Some("keyword.control.import"));
    }
    if chars_eq_str(name, "exception") {
        return Some(Some("keyword.control.exception"));
    }
    if chars_eq_str(name, "keyword.exception") {
        return Some(Some("keyword.control.exception"));
    }
    if chars_eq_str(name, "keyword.return") {
        return Some(Some("keyword.control.return"));
    }
    if chars_eq_str(name, "keyword.control") {
        return Some(Some("keyword.control"));
    }
    if chars_eq_str(name, "keyword.coroutine") {
        return Some(Some("keyword"));
    }
    if chars_eq_str(name, "keyword.debug") {
        return Some(Some("keyword"));
    }
    if chars_eq_str(name, "keyword.other") {
        return Some(Some("keyword"));
    }
    if chars_eq_str(name, "keyword.other.port") {
        return Some(Some("keyword"));
    }
    if chars_eq_str(name, "keyword.type") {
        return Some(Some("keyword.storage.type"));
    }
    if chars_eq_str(name, "storage.type") {
        return Some(Some("keyword.storage.type"));
    }
    if chars_eq_str(name, "keyword.modifier") {
        return Some(Some("keyword.storage.modifier"));
    }
    if chars_eq_str(name, "storageclass") {
        return Some(Some("keyword.storage.modifier"));
    }
    if chars_eq_str(name, "type.qualifier") {
        return Some(Some("keyword.storage.modifier"));
    }
    if chars_eq_str(name, "preproc") {
        return Some(Some("keyword.directive"));
    }
    if chars_eq_str(name, "define") {
        return Some(Some("keyword.directive"));
    }
    if chars_eq_str(name, "macro") {
        return Some(Some("keyword.directive"));
    }
    if chars_eq_str(name, "custom_directive") {
        return Some(Some("keyword.directive"));
    }
    if chars_eq_str(name, "method") {
        return Some(Some("function.method"));
    }
    if chars_eq_str(name, "method.call") {
        return Some(Some("function.method"));
    }
    if chars_eq_str(name, "function.method.call") {
        return Some(Some("function.method"));
    }
    if chars_eq_str(name, "function.method.builtin") {
        return Some(Some("function.method"));
    }
    if chars_eq_str(name, "function.call") {
        return Some(Some("function"));
    }
    if chars_eq_str(name, "local.function") {
        return Some(Some("function"));
    }
    if chars_eq_str(name, "function.macro.builtin") {
        return Some(Some("function.macro"));
    }
    if chars_eq_str(name, "parameter") {
        return Some(Some("variable.parameter"));
    }
    if chars_eq_str(name, "parameter.builtin") {
        return Some(Some("variable.parameter"));
    }
    if chars_eq_str(name, "property") {
        return Some(Some("variable.other.member"));
    }
    if chars_eq_str(name, "property.definition") {
        return Some(Some("variable.other.member"));
    }
    if chars_eq_str(name, "field") {
        return Some(Some("variable.other.member"));
    }
    if chars_eq_str(name, "variable.member") {
        return Some(Some("variable.other.member"));
    }
    if chars_eq_str(name, "module") {
        return Some(Some("namespace"));
    }
    if chars_eq_str(name, "module.builtin") {
        return Some(Some("namespace"));
    }
    if chars_eq_str(name, "type.definition") {
        return Some(Some("type"));
    }
    if chars_eq_str(name, "interface") {
        return Some(Some("type"));
    }
    if chars_eq_str(name, "union") {
        return Some(Some("type"));
    }
    if chars_eq_str(name, "tag.attribute") {
        return Some(Some("attribute"));
    }
    if chars_eq_str(name, "delimiter") {
        return Some(Some("punctuation.delimiter"));
    }
    if chars_eq_str(name, "comment.doc") {
        return Some(Some("comment.block.documentation"));
    }
    if chars_eq_str(name, "comment.doc.__attribute__") {
        return Some(Some("comment.block.documentation"));
    }
    if chars_eq_str(name, "comment.documentation") {
        return Some(Some("comment.block.documentation"));
    }
    if chars_eq_str(name, "text.title") {
        return Some(Some("markup.heading"));
    }
    if chars_eq_str(name, "text.uri") {
        return Some(Some("markup.link.url"));
    }
    if chars_eq_str(name, "text.reference") {
        return Some(Some("markup.link.label"));
    }
    if chars_eq_str(name, "text.literal") {
        return Some(Some("markup.raw"));
    }
    if chars_eq_str(name, "text.emphasis") {
        return Some(Some("markup.italic"));
    }
    if chars_eq_str(name, "text.strong") {
        return Some(Some("markup.bold"));
    }
    None
}

fn head_scope_exec(head: &[char]) -> (r: Vec<char>)
    ensures
        r@ == head_scope(head@),
{
    if chars_eq_str(head, "number") {
        return str_chars("constant.numeric");
    }
    if chars_eq_str(head, "character") {
        return str_chars("constant.character");
    }
    if chars_eq_str(head, "conditional") {
        return str_chars("keyword.control.conditional");
    }
    if chars_eq_str(head, "repeat") {
        return str_chars("keyword.control.repeat");
    }
    if chars_eq_str(head, "include") {
        return str_chars("keyword.control.import");
    }
    if chars_eq_str(head, "exception") {
        return str_chars("keyword.control.exception");
    }
    if chars_eq_str(head, "preproc") {
        return str_chars("keyword.directive");
    }
    if chars_eq_str(head, "method") {
        return str_chars("function.method");
    }
    if chars_eq_str(head, "parameter") {
        return str_chars("variable.parameter");
    }
    if chars_eq_str(head, "property") {
        return str_chars("variable.other.member");
    }
    if chars_eq_str(head, "field") {
        return str_chars("variable.other.member");
    }
    if chars_eq_str(head, "module") {
        return str_chars("namespace");
    }
    if chars_eq_str(head, "text") {
        return str_chars("markup");
    }
    crate::text::sub_chars(head, 0, head.len())
}

/// Translate a raw tree-sitter capture name into Helix's scope vocabulary
/// (the one themes are written against), or `None` for captures that
/// should not highlight anything (see `capture_scope`).
pub fn normalize_capture(raw: &str) -> (r: Option<String>)
    ensures
        match r {
            Some(s) => capture_scope(raw@) == Some(s@),
            None => capture_scope(raw@) is None,
        },
{
    let cs = str_chars(raw);
    let n = cs.len();
    let elm = n >= 4 && cs[n - 4] == '.' && cs[n - 3] == 'e' && cs[n - 2] == 'l' && cs[n - 1] == 'm';
    proof {
        reveal_strlit(".elm");
        reveal_strlit("source.");
        if n >= 4 {
            if elm {
                assert(cs@.skip(n - 4) =~= ".elm"@);
            } else {
                assert(cs@.skip(n - 4) != ".elm"@) by {
                    if cs@.skip(n - 4) == ".elm"@ {
                        assert(cs@.skip(n - 4)[0] == cs@[n - 4]);
                        assert(cs@.skip(n - 4)[3] == cs@[n - 1]);
                        assert(cs@.skip(n - 4)[1] == cs@[n - 3]);
                        assert(cs@.skip(n - 4)[2] == cs@[n - 2]);
                    }
                }
            }
        }
    }
    let name = if elm { crate::text::sub_chars(cs.as_slice(), 0, n - 4) } else { crate::text::sub_chars(cs.as_slice(), 0, n) };
    proof {
        assert(cs@.subrange(0, n as int) =~= cs@);
        assert(cs@.subrange(0, n - 4) =~= cs@.take(n - 4)) by {
            if !elm {
            }
        }
    }
    if (name.len() >= 1 && name[0] == '_') || has_prefix(name.as_slice(), "source.") {
        return None;
    }
    match exact_capture_exec(name.as_slice()) {
        Some(Some(s)) => return Some(string_from_chars(str_chars(s).as_slice())),
        Some(None) => return None,
        None => {},
    }
    let mut i: usize = 0;
    proof {
        assert(name@.skip(0) =~= name@);
    }
    while i < name.len() && name[i] != '.'
        invariant
            i <= name@.len(),
            first_dot(name@) == (match first_dot(name@.skip(i as int)) {
                Some(k) => Some(k + i),
                None => None::<int>,
            }),
        decreases name.len() - i,
    {
        proof {
            assert(name@.skip(i as int).drop_first() =~= name@.skip(i + 1));
        }
        i += 1;
    }
    proof {
        if i < name.len() {
            assert(name@.skip(i as int)[0] == '.');
        } else {
            assert(name@.skip(i as int).len() == 0);
        }
    }
    if i < name.len() {
        let head = crate::text::sub_chars(name.as_slice(), 0, i);
        let mut out = head_scope_exec(head.as_slice());
        push_str(&mut out, ".");
        crate::text::push_range(&mut out, name.as_slice(), i + 1, name.len());
        proof {
            assert(head@ =~= name@.take(i as int));
            assert(name@.subrange(i + 1, name@.len() as int) =~= name@.skip(i + 1));
        }
        Some(string_from_chars(out.as_slice()))
    } else {
        let out = head_scope_exec(name.as_slice());
        Some(string_from_chars(out.as_slice()))
    }
}

// ---------------------------------------------------------------------------
// Numbers and heredoc markers
// ---------------------------------------------------------------------------

pub open spec fn is_hex_digit(c: char) -> bool {
    ('0' <= c && c <= '9') || ('a' <= c && c <= 'f') || ('A' <= c && c <= 'F')
}

/// The scan of a decimal number's characters: whether a digit was seen, and
/// whether a '.' was; `None` once a character cannot be part of it (digits,
/// '_', one '.', and 'e'/'E' after a digit can).
pub open spec fn number_scan(s: Seq<char>) -> Option<(bool, bool)>
    decreases s.len(),
{
    if s.len() == 0 {
        Some((false, false))
    } else {
        match number_scan(s.drop_last()) {
            None => None,
            Some((digit, dot)) => {
                let c = s.last();
                if '0' <= c && c <= '9' {
                    Some((true, dot))
                } else if c == '_' {
                    Some((digit, dot))
                } else if c == '.' && !dot {
                    Some((digit, true))
                } else if (c == 'e' || c == 'E') && digit {
                    Some((digit, dot))
                } else {
                    None
                }
            },
        }
    }
}

/// `t` without a leading sign.
pub open spec fn unsigned_part(t: Seq<char>) -> Seq<char> {
    if t.len() > 0 && (t[0] == '-' || t[0] == '+') {
        t.drop_first()
    } else {
        t
    }
}

/// Whether a leaf's text reads as a number literal: after trimming and an
/// optional sign, a hex literal (`0x`/`0X` and one or more hex digits or
/// '_'), or digits with '_' separators, at most one '.', and 'e'/'E' after
/// a digit.
pub open spec fn numeric(text: Seq<char>) -> bool {
    let t = trimmed(text);
    let u = unsigned_part(t);
    if t.len() == 0 || u.len() == 0 {
        false
    } else if u.len() >= 2 && u[0] == '0' && (u[1] == 'x' || u[1] == 'X') {
        u.len() > 2 && forall|i: int| 2 <= i < u.len() ==> is_hex_digit(#[trigger] u[i]) || u[i] == '_'
    } else {
        number_scan(u) matches Some((digit, _)) && digit
    }
}

/// Whether a leaf's text looks like a number literal (see `numeric`).
#[verifier::loop_isolation(false)]
#[verifier::spinoff_prover]
pub fn looks_numeric(text: &str) -> (r: bool)
    ensures
        r == numeric(text@),
{
    let t = trim_chars(str_chars(text).as_slice());
    if t.len() == 0 {
        return false;
    }
    let start: usize = if t[0] == '-' || t[0] == '+' { 1 } else { 0 };
    let u = crate::text::sub_chars(t.as_slice(), start, t.len());
    proof {
        assert(u@ =~= unsigned_part(t@));
    }
    if u.len() == 0 {
        return false;
    }
    if u.len() >= 2 && u[0] == '0' && (u[1] == 'x' || u[1] == 'X') {
        if u.len() <= 2 {
            return false;
        }
        let mut i: usize = 2;
        while i < u.len()
            invariant
                2 <= i <= u@.len(),
                forall|k: int| 2 <= k < i ==> is_hex_digit(#[trigger] u@[k]) || u@[k] == '_',
            decreases u.len() - i,
        {
            let c = u[i];
            if !(('0' <= c && c <= '9') || ('a' <= c && c <= 'f') || ('A' <= c && c <= 'F') || c == '_') {
                assert(!(is_hex_digit(u@[i as int]) || u@[i as int] == '_'));
                assert(!(forall|k: int| 2 <= k < u@.len() ==> is_hex_digit(#[trigger] u@[k]) || u@[k] == '_'));
                assert(t@ == trimmed(text@));
                assert(!numeric(text@));
                return false;
            }
            i += 1;
        }
        return true;
    }
    let mut digit = false;
    let mut dot = false;
    let mut i: usize = 0;
    while i < u.len()
        invariant
            i <= u@.len(),
            number_scan(u@.take(i as int)) == Some((digit, dot)),
        decreases u.len() - i,
    {
        proof {
            assert(u@.take(i + 1).drop_last() =~= u@.take(i as int));
            assert(u@.take(i + 1).last() == u@[i as int]);
        }
        let c = u[i];
        if '0' <= c && c <= '9' {
            digit = true;
        } else if c == '_' {
        } else if c == '.' && !dot {
            dot = true;
        } else if (c == 'e' || c == 'E') && digit {
        } else {
            proof {
                assert(number_scan(u@.take(i + 1)) is None);
                lemma_scan_stays_failed(u@, i + 1);
                assert(u@.take(u@.len() as int) =~= u@);
            }
            return false;
        }
        i += 1;
    }
    proof {
        assert(u@.take(u@.len() as int) =~= u@);
    }
    digit
}

proof fn lemma_scan_stays_failed(s: Seq<char>, i: int)
    requires
        0 <= i <= s.len(),
        number_scan(s.take(i)) is None,
    ensures
        number_scan(s) is None,
    decreases s.len() - i,
{
    if i < s.len() {
        assert(s.take(i + 1).drop_last() =~= s.take(i));
        lemma_scan_stays_failed(s, i + 1);
    } else {
        assert(s.take(i) =~= s);
    }
}

/// A heredoc marker stripped down to the language name: an optional
/// leading `<<`, then `~` or `-`, then `\`, then matching surrounding `'`
/// or `"` quotes.
pub open spec fn heredoc_name(raw: Seq<char>) -> Seq<char> {
    let s1 = if raw.len() >= 2 && raw[0] == '<' && raw[1] == '<' { raw.skip(2) } else { raw };
    let s2 = if s1.len() >= 1 && (s1[0] == '~' || s1[0] == '-') { s1.drop_first() } else { s1 };
    let s3 = if s2.len() >= 1 && s2[0] == '\\' { s2.drop_first() } else { s2 };
    if s3.len() >= 2 && ((s3[0] == '\'' && s3.last() == '\'') || (s3[0] == '"' && s3.last() == '"')) {
        s3.subrange(1, s3.len() - 1)
    } else {
        s3
    }
}

/// Strip a heredoc marker down to the bare language name (see
/// `heredoc_name`).
pub fn heredoc_language_name(raw: &str) -> (r: String)
    ensures
        r@ == heredoc_name(raw@),
{
    let cs = str_chars(raw);
    let mut lo: usize = 0;
    if cs.len() >= 2 && cs[0] == '<' && cs[1] == '<' {
        lo = 2;
    }
    if lo < cs.len() && (cs[lo] == '~' || cs[lo] == '-') {
        lo = lo + 1;
    }
    if lo < cs.len() && cs[lo] == '\\' {
        lo = lo + 1;
    }
    let mut hi = cs.len();
    if hi >= lo + 2 && ((cs[lo] == '\'' && cs[hi - 1] == '\'') || (cs[lo] == '"' && cs[hi - 1] == '"')) {
        lo = lo + 1;
        hi = hi - 1;
    }
    let r = crate::text::sub_chars(cs.as_slice(), lo, hi);
    proof {
        let s1 = if cs@.len() >= 2 && cs@[0] == '<' && cs@[1] == '<' { cs@.skip(2) } else { cs@ };
        let s2 = if s1.len() >= 1 && (s1[0] == '~' || s1[0] == '-') { s1.drop_first() } else { s1 };
        let s3 = if s2.len() >= 1 && s2[0] == '\\' { s2.drop_first() } else { s2 };
        assert(r@ =~= heredoc_name(raw@));
    }
    string_from_chars(r.as_slice())
}

/// Where the line starting at `pos` ends: at its line feed, or at the end
/// of `t`.
pub open spec fn line_end_at(t: Seq<char>, pos: int) -> int {
    match first_index(t.skip(pos), '\n') {
        Some(i) => pos + i,
        None => t.len() as int,
    }
}

/// The first line at or after `pos` that is exactly `name` (without a
/// carriage return before its line feed, and without leading white space
/// when `indented`, as for `<<~`): where that line starts, which ends the
/// heredoc body, and where the text after it starts.
pub open spec fn heredoc_end(t: Seq<char>, pos: int, name: Seq<char>, indented: bool) -> Option<(int, int)>
    decreases t.len() - pos,
{
    if pos < 0 || pos >= t.len() {
        None
    } else {
        let e = line_end_at(t, pos);
        let line = strip_cr(t.subrange(pos, e));
        let candidate = if indented { trim_start(line) } else { line };
        if e < pos {
            None
        } else if candidate == name {
            Some((pos, if e < t.len() { e + 1 } else { t.len() as int }))
        } else if e >= t.len() {
            None
        } else {
            heredoc_end(t, e + 1, name, indented)
        }
    }
}

/// Find the terminator line of a heredoc named `name` at or after `from`
/// (see `heredoc_end`); positions count characters.
pub fn find_heredoc_terminator(text: &str, from: usize, name: &str, indented: bool) -> (r: Option<(usize, usize)>)
    ensures
        match heredoc_end(text@, from as int, name@, indented) {
            Some((a, b)) => r == Some((a as usize, b as usize)),
            None => r is None,
        },
{
    let t = str_chars(text);
    let nm = str_chars(name);
    let n = t.len();
    let mut pos = from;
    while pos < n
        invariant
            n == t@.len(),
            t@ == text@,
            nm@ == name@,
            heredoc_end(text@, from as int, name@, indented) == heredoc_end(text@, pos as int, name@, indented),
        decreases n - pos,
    {
        let rest = crate::text::sub_chars(t.as_slice(), pos, n);
        proof {
            assert(rest@ =~= t@.skip(pos as int));
            crate::text::lemma_first_index(t@.skip(pos as int), '\n');
        }
        let line_end = match find_char(rest.as_slice(), '\n') {
            Some(i) => pos + i,
            None => n,
        };
        let raw = crate::text::sub_chars(t.as_slice(), pos, line_end);
        let k = raw.len();
        let line = if k > 0 && raw[k - 1] == '\r' {
            crate::text::sub_chars(raw.as_slice(), 0, k - 1)
        } else {
            raw
        };
        proof {
            assert(line@ =~= strip_cr(t@.subrange(pos as int, line_end as int)));
        }
        let candidate = if indented {
            crate::text::trim_start_chars(line.as_slice())
        } else {
            line
        };
        if chars_eq_str(candidate.as_slice(), name) {
            let after = if line_end < n { line_end + 1 } else { n };
            return Some((pos, after));
        }
        if line_end >= n {
            return None;
        }
        pos = line_end + 1;
    }
    None
}

} // verus!
