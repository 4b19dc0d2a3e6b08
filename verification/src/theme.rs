//! The parts of syntax-highlighting themes (Helix's theme format) that are
//! decisions rather than file reading: colors and their names, styles and
//! the text attributes they draw with, a theme's table of scope styles (with
//! its palette and the warnings about bad entries), the dotted-scope
//! fallback, when to color output, the built-in themes' names, and reading a
//! `LANG.NAME` theme setting.

use crate::syntax::languages::{find_by_name, language_named};
use crate::options::hex_value;
use crate::text::{chars_eq_str, lowercase_chars, parse_unsigned, push_all, push_str, starts_with, str_chars, string_from_chars, unsigned_value};
use vstd::prelude::*;

verus! {

/// The name of the theme used when nothing is configured.
pub const DEFAULT_THEME_NAME: &'static str = "tico-builtin-default";

/// The name prefix reserved for themes compiled into the binary; a name
/// starting with it is never looked for on disk.
pub const BUILTIN_PREFIX: &'static str = "tico-builtin-";

/// Text attributes a style can carry (Helix's `modifiers`), as a bit set.
#[derive(Debug, Clone, Copy, PartialEq, Eq, Default, Hash, Structural)]
pub struct Modifiers(pub u16);

impl Modifiers {
    /// The `bold` attribute.
    pub fn bold() -> (m: Modifiers)
        ensures
            m.0 == 1,
    {
        Modifiers(1)
    }

    /// The `dim` attribute.
    pub fn dim() -> (m: Modifiers)
        ensures
            m.0 == 2,
    {
        Modifiers(2)
    }

    /// The `italic` attribute.
    pub fn italic() -> (m: Modifiers)
        ensures
            m.0 == 4,
    {
        Modifiers(4)
    }

    /// The `slow_blink` attribute.
    pub fn slow_blink() -> (m: Modifiers)
        ensures
            m.0 == 8,
    {
        Modifiers(8)
    }

    /// The `rapid_blink` attribute.
    pub fn rapid_blink() -> (m: Modifiers)
        ensures
            m.0 == 16,
    {
        Modifiers(16)
    }

    /// The `reversed` attribute.
    pub fn reversed() -> (m: Modifiers)
        ensures
            m.0 == 32,
    {
        Modifiers(32)
    }

    /// The `hidden` attribute.
    pub fn hidden() -> (m: Modifiers)
        ensures
            m.0 == 64,
    {
        Modifiers(64)
    }

    /// The `crossed_out` attribute.
    pub fn crossed_out() -> (m: Modifiers)
        ensures
            m.0 == 128,
    {
        Modifiers(128)
    }


    /// Whether every attribute of `other` is set here.
    pub fn contains(self, other: Modifiers) -> (r: bool)
        ensures
            r == (self.0 & other.0 == other.0),
    {
        self.0 & other.0 == other.0
    }

    fn insert(&mut self, other: Modifiers)
        ensures
            final(self).0 == old(self).0 | other.0,
    {
        self.0 = self.0 | other.0;
    }

    /// The attributes bold, italic and reversed, as asked.
    pub fn any(bold: bool, italic: bool, reversed: bool) -> (m: Modifiers)
        ensures
            m.0 == ((if bold { 1u16 } else { 0u16 }) | (if italic { 4u16 } else { 0u16 })) | (if reversed { 32u16 } else { 0u16 }),
    {
        let b: u16 = if bold { 1 } else { 0 };
        let i: u16 = if italic { 4 } else { 0 };
        let r: u16 = if reversed { 32 } else { 0 };
        let mut m = Modifiers(0);
        m.insert(Modifiers(b));
        m.insert(Modifiers(i));
        m.insert(Modifiers(r));
        proof {
            assert(0u16 | b == b) by (bit_vector);
        }
        m
    }

    /// The attribute a Helix modifier name names.
    fn parse(name: &str) -> (r: Option<Modifiers>)
        ensures
            r == modifier_named(name@),
    {
        if chars_eq_str(str_chars(name).as_slice(), "bold") {
            Some(Modifiers(1))
        } else if chars_eq_str(str_chars(name).as_slice(), "dim") {
            Some(Modifiers(2))
        } else if chars_eq_str(str_chars(name).as_slice(), "italic") {
            Some(Modifiers(4))
        } else if chars_eq_str(str_chars(name).as_slice(), "slow_blink") {
            Some(Modifiers(8))
        } else if chars_eq_str(str_chars(name).as_slice(), "rapid_blink") {
            Some(Modifiers(16))
        } else if chars_eq_str(str_chars(name).as_slice(), "reversed") {
            Some(Modifiers(32))
        } else if chars_eq_str(str_chars(name).as_slice(), "hidden") {
            Some(Modifiers(64))
        } else if chars_eq_str(str_chars(name).as_slice(), "crossed_out") {
            Some(Modifiers(128))
        } else {
            None
        }
    }
}

/// The attribute a Helix modifier name names.
pub open spec fn modifier_named(name: Seq<char>) -> Option<Modifiers> {
    if name == "bold"@ {
        Some(Modifiers(1))
    } else if name == "dim"@ {
        Some(Modifiers(2))
    } else if name == "italic"@ {
        Some(Modifiers(4))
    } else if name == "slow_blink"@ {
        Some(Modifiers(8))
    } else if name == "rapid_blink"@ {
        Some(Modifiers(16))
    } else if name == "reversed"@ {
        Some(Modifiers(32))
    } else if name == "hidden"@ {
        Some(Modifiers(64))
    } else if name == "crossed_out"@ {
        Some(Modifiers(128))
    } else {
        None
    }
}

/// The attributes `any` sets are exactly the ones asked for.
pub proof fn law_any_contains_what_was_asked(bold: bool, italic: bool, reversed: bool)
    ensures
        ({
            let m = ((if bold { 1u16 } else { 0u16 }) | (if italic { 4u16 } else { 0u16 })) | (if reversed { 32u16 } else { 0u16 });
            &&& (m & 1u16 == 1u16) == bold
            &&& (m & 4u16 == 4u16) == italic
            &&& (m & 32u16 == 32u16) == reversed
            &&& (m & 2u16 == 2u16) == false
        }),
{
    let b: u16 = if bold { 1u16 } else { 0u16 };
    let i: u16 = if italic { 4u16 } else { 0u16 };
    let r: u16 = if reversed { 32u16 } else { 0u16 };
    assert(((b | i) | r) & 1u16 == 1u16 <==> b == 1u16) by (bit_vector)
        requires
            b == 1u16 || b == 0u16,
            i == 4u16 || i == 0u16,
            r == 32u16 || r == 0u16,
    ;
    assert(((b | i) | r) & 4u16 == 4u16 <==> i == 4u16) by (bit_vector)
        requires
            b == 1u16 || b == 0u16,
            i == 4u16 || i == 0u16,
            r == 32u16 || r == 0u16,
    ;
    assert(((b | i) | r) & 32u16 == 32u16 <==> r == 32u16) by (bit_vector)
        requires
            b == 1u16 || b == 0u16,
            i == 4u16 || i == 0u16,
            r == 32u16 || r == 0u16,
    ;
    assert(((b | i) | r) & 2u16 != 2u16) by (bit_vector)
        requires
            b == 1u16 || b == 0u16,
            i == 4u16 || i == 0u16,
            r == 32u16 || r == 0u16,
    ;
}

/// Helix's `underline.style` values.
#[derive(Debug, Clone, Copy, PartialEq, Eq, Hash, Structural)]
pub enum UnderlineStyle {
    Line,
    Curl,
    Dotted,
    Dashed,
    DoubleLine,
}

/// The underline style a Helix style name names.
pub open spec fn underline_named(name: Seq<char>) -> Option<UnderlineStyle> {
    if name == "line"@ {
        Some(UnderlineStyle::Line)
    } else if name == "curl"@ {
        Some(UnderlineStyle::Curl)
    } else if name == "dotted"@ {
        Some(UnderlineStyle::Dotted)
    } else if name == "dashed"@ {
        Some(UnderlineStyle::Dashed)
    } else if name == "double_line"@ {
        Some(UnderlineStyle::DoubleLine)
    } else {
        None
    }
}

impl UnderlineStyle {
    /// The underline style a Helix style name names.
    pub fn parse(name: &str) -> (r: Option<UnderlineStyle>)
        ensures
            r == underline_named(name@),
    {
        let cs = str_chars(name);
        if chars_eq_str(cs.as_slice(), "line") {
            Some(UnderlineStyle::Line)
        } else if chars_eq_str(cs.as_slice(), "curl") {
            Some(UnderlineStyle::Curl)
        } else if chars_eq_str(cs.as_slice(), "dotted") {
            Some(UnderlineStyle::Dotted)
        } else if chars_eq_str(cs.as_slice(), "dashed") {
            Some(UnderlineStyle::Dashed)
        } else if chars_eq_str(cs.as_slice(), "double_line") {
            Some(UnderlineStyle::DoubleLine)
        } else {
            None
        }
    }
}

/// `--color[=WHEN]`, with GNU `ls`/`grep` semantics: `auto` (the default)
/// colors only when output goes to a terminal, `always` colors even into a
/// pipe, `never` does not color.
#[derive(Clone, Copy, Debug, PartialEq, Eq, Structural)]
pub enum ColorWhen {
    Auto,
    Always,
    Never,
}

impl Default for ColorWhen {
    fn default() -> (c: ColorWhen)
        ensures
            c == ColorWhen::Auto,
    {
        ColorWhen::Auto
    }
}

impl ColorWhen {
    /// Whether output should be highlighted, given whether it goes to a
    /// terminal.
    pub fn colorize(self, stdout_is_tty: bool) -> (r: bool)
        ensures
            r == match self {
                ColorWhen::Auto => stdout_is_tty,
                ColorWhen::Always => true,
                ColorWhen::Never => false,
            },
    {
        match self {
            ColorWhen::Auto => stdout_is_tty,
            ColorWhen::Always => true,
            ColorWhen::Never => false,
        }
    }
}

/// The names of the themes compiled into the binary.
pub open spec fn builtin_theme_names() -> Seq<Seq<char>> {
    seq![
        "tico-builtin-default"@,
        "tico-builtin-catppuccin_mocha"@,
        "tico-builtin-dracula"@,
        "tico-builtin-gruvbox"@,
        "tico-builtin-monokai"@,
        "tico-builtin-nord"@,
        "tico-builtin-onedark"@,
        "tico-builtin-solarized_light"@,
        "tico-builtin-tokyonight"@,
    ]
}

/// The names of the themes compiled into the binary.
pub fn builtin_names() -> (v: Vec<&'static str>)
    ensures
        v@.len() == builtin_theme_names().len(),
        forall|i: int| 0 <= i < v@.len() ==> (#[trigger] v@[i])@ == builtin_theme_names()[i],
{
    vec![
        "tico-builtin-default",
        "tico-builtin-catppuccin_mocha",
        "tico-builtin-dracula",
        "tico-builtin-gruvbox",
        "tico-builtin-monokai",
        "tico-builtin-nord",
        "tico-builtin-onedark",
        "tico-builtin-solarized_light",
        "tico-builtin-tokyonight",
    ]
}

/// Where theme files are looked for, in order.
#[derive(Debug, Clone)]
pub struct Loader {
    pub dirs: Vec<String>,
}

/// `parts` separated by ", ".
pub open spec fn comma_list(parts: Seq<Seq<char>>) -> Seq<char>
    decreases parts.len(),
{
    if parts.len() == 0 {
        Seq::empty()
    } else if parts.len() == 1 {
        parts[0]
    } else {
        comma_list(parts.drop_last()) + ", "@ + parts.last()
    }
}

impl Loader {
    /// A loader that looks in `dirs`, in order.
    pub fn new(dirs: Vec<String>) -> (l: Loader)
        ensures
            l.dirs@ == dirs@,
    {
        Loader { dirs }
    }

    /// Where a theme was looked for, for the message about one not found:
    /// the directories in order, then the built-in themes.
    pub fn searched(&self) -> (r: String)
        ensures
            r@ == comma_list(self.dirs@.map_values(|d: String| d@).push("built-in themes"@)),
    {
        let ghost ds = self.dirs@.map_values(|d: String| d@);
        let mut out: Vec<char> = Vec::new();
        let mut i: usize = 0;
        proof {
            reveal_strlit(", ");
        }
        while i < self.dirs.len()
            invariant
                i <= self.dirs@.len(),
                ds == self.dirs@.map_values(|d: String| d@),
                out@ == comma_list(ds.take(i as int)),
            decreases self.dirs.len() - i,
        {
            if i > 0 {
                push_str(&mut out, ", ");
            }
            push_str(&mut out, self.dirs[i].as_str());
            proof {
                let p = ds.take(i + 1);
                assert(p.drop_last() =~= ds.take(i as int));
                if i == 0 {
                    assert(ds.take(0).len() == 0);
                    assert(out@ =~= p[0]);
                } else {
                    assert(out@ =~= comma_list(ds.take(i as int)) + ", "@ + p.last());
                }
            }
            i += 1;
        }
        proof {
            assert(ds.take(self.dirs@.len() as int) =~= ds);
        }
        let ghost before = out@;
        if self.dirs.len() > 0 {
            push_str(&mut out, ", ");
        }
        push_str(&mut out, "built-in themes");
        proof {
            let all = ds.push("built-in themes"@);
            assert(all.drop_last() =~= ds);
            if ds.len() == 0 {
                assert(out@ =~= all[0]);
            } else {
                assert(out@ =~= comma_list(ds) + ", "@ + all.last());
            }
        }
        string_from_chars(out.as_slice())
    }
}

/// The index of the first '.' in `s`, if any.
pub open spec fn dot_at(s: Seq<char>) -> Option<int>
    decreases s.len(),
{
    if s.len() == 0 {
        None
    } else if s[0] == '.' {
        Some(0)
    } else {
        match dot_at(s.drop_first()) {
            Some(i) => Some(i + 1),
            None => None,
        }
    }
}

/// A `LANG.NAME` theme setting split at its first '.', when `LANG` names a
/// known language and `NAME` is not empty; `None` otherwise (a value read
/// as one whole theme name or path).
pub open spec fn language_theme_of(value: Seq<char>) -> Option<(Seq<char>, Seq<char>)> {
    match dot_at(value) {
        Some(i) => {
            let lang = value.take(i);
            let name = value.skip(i + 1);
            if name.len() == 0 || language_named(crate::text::ascii_lowercase(lang)) is None {
                None
            } else {
                Some((lang, name))
            }
        },
        None => None,
    }
}

/// Split a `--tico-theme` (or ticorc `[syntax]`) value `LANG.NAME` into its
/// parts, only when `LANG` is a known language name, so that a theme path
/// like `./perl.toml` still reads as one whole name.
pub fn split_language_theme(value: &str) -> (r: Option<(String, String)>)
    ensures
        match language_theme_of(value@) {
            Some((l, n)) => r matches Some((a, b)) && a@ == l && b@ == n,
            None => r is None,
        },
{
    let cs = str_chars(value);
    let mut i: usize = 0;
    proof {
        assert(cs@.skip(0) =~= cs@);
    }
    while i < cs.len() && cs[i] != '.'
        invariant
            i <= cs@.len(),
            dot_at(cs@) == (match dot_at(cs@.skip(i as int)) {
                Some(k) => Some(k + i),
                None => None::<int>,
            }),
        decreases cs.len() - i,
    {
        proof {
            assert(cs@.skip(i as int).drop_first() =~= cs@.skip(i + 1));
        }
        i += 1;
    }
    proof {
        if i < cs.len() {
            assert(cs@.skip(i as int)[0] == '.');
        } else {
            assert(cs@.skip(i as int).len() == 0);
        }
    }
    if i >= cs.len() {
        return None;
    }
    let lang = crate::text::sub_chars(cs.as_slice(), 0, i);
    let name = crate::text::sub_chars(cs.as_slice(), i + 1, cs.len());
    proof {
        assert(lang@ =~= cs@.take(i as int));
        assert(name@ =~= cs@.skip(i + 1));
    }
    if name.len() == 0 {
        return None;
    }
    let lang_s = string_from_chars(lang.as_slice());
    let lower = string_from_chars(lowercase_chars(lang.as_slice()).as_slice());
    match find_by_name(lower.as_str()) {
        None => {
            proof {
                crate::text::lemma_lowercase_idempotent(lang@);
            }
            None
        },
        Some(_) => {
            proof {
                crate::text::lemma_lowercase_idempotent(lang@);
            }
            Some((lang_s, string_from_chars(name.as_slice())))
        },
    }
}

// ---------------------------------------------------------------------
// Colors and styles
// ---------------------------------------------------------------------

/// A theme color, as the terminal library names them: the terminal's own
/// color (`Reset`, Helix's `default`), the sixteen terminal colors (the
/// `Dark*` ones are the normal-intensity set, the unprefixed ones the
/// bright set), a 24-bit color, or an index into the 256-color palette.
#[derive(Debug, Clone, Copy, PartialEq, Eq, Hash, Structural)]
pub enum ThemeColor {
    Reset,
    Black,
    DarkRed,
    DarkGreen,
    DarkYellow,
    DarkBlue,
    DarkMagenta,
    DarkCyan,
    DarkGrey,
    Red,
    Green,
    Yellow,
    Blue,
    Magenta,
    Cyan,
    Grey,
    White,
    Rgb { r: u8, g: u8, b: u8 },
    AnsiValue(u8),
}

/// The color a terminal color name names in a theme.
pub open spec fn color_named(name: Seq<char>) -> Option<ThemeColor> {
    if name == "default"@ {
        Some(ThemeColor::Reset)
    } else if name == "black"@ {
        Some(ThemeColor::Black)
    } else if name == "red"@ {
        Some(ThemeColor::DarkRed)
    } else if name == "green"@ {
        Some(ThemeColor::DarkGreen)
    } else if name == "yellow"@ {
        Some(ThemeColor::DarkYellow)
    } else if name == "blue"@ {
        Some(ThemeColor::DarkBlue)
    } else if name == "magenta"@ {
        Some(ThemeColor::DarkMagenta)
    } else if name == "cyan"@ {
        Some(ThemeColor::DarkCyan)
    } else if name == "gray"@ {
        Some(ThemeColor::DarkGrey)
    } else if name == "light-red"@ {
        Some(ThemeColor::Red)
    } else if name == "light-green"@ {
        Some(ThemeColor::Green)
    } else if name == "light-yellow"@ {
        Some(ThemeColor::Yellow)
    } else if name == "light-blue"@ {
        Some(ThemeColor::Blue)
    } else if name == "light-magenta"@ {
        Some(ThemeColor::Magenta)
    } else if name == "light-cyan"@ {
        Some(ThemeColor::Cyan)
    } else if name == "light-gray"@ {
        Some(ThemeColor::Grey)
    } else if name == "white"@ {
        Some(ThemeColor::White)
    } else {
        None
    }
}

fn color_name(cs: &Vec<char>) -> (r: Option<ThemeColor>)
    ensures
        r == color_named(cs@),
{
    if chars_eq_str(cs.as_slice(), "default") {
        Some(ThemeColor::Reset)
    } else if chars_eq_str(cs.as_slice(), "black") {
        Some(ThemeColor::Black)
    } else if chars_eq_str(cs.as_slice(), "red") {
        Some(ThemeColor::DarkRed)
    } else if chars_eq_str(cs.as_slice(), "green") {
        Some(ThemeColor::DarkGreen)
    } else if chars_eq_str(cs.as_slice(), "yellow") {
        Some(ThemeColor::DarkYellow)
    } else if chars_eq_str(cs.as_slice(), "blue") {
        Some(ThemeColor::DarkBlue)
    } else if chars_eq_str(cs.as_slice(), "magenta") {
        Some(ThemeColor::DarkMagenta)
    } else if chars_eq_str(cs.as_slice(), "cyan") {
        Some(ThemeColor::DarkCyan)
    } else if chars_eq_str(cs.as_slice(), "gray") {
        Some(ThemeColor::DarkGrey)
    } else if chars_eq_str(cs.as_slice(), "light-red") {
        Some(ThemeColor::Red)
    } else if chars_eq_str(cs.as_slice(), "light-green") {
        Some(ThemeColor::Green)
    } else if chars_eq_str(cs.as_slice(), "light-yellow") {
        Some(ThemeColor::Yellow)
    } else if chars_eq_str(cs.as_slice(), "light-blue") {
        Some(ThemeColor::Blue)
    } else if chars_eq_str(cs.as_slice(), "light-magenta") {
        Some(ThemeColor::Magenta)
    } else if chars_eq_str(cs.as_slice(), "light-cyan") {
        Some(ThemeColor::Cyan)
    } else if chars_eq_str(cs.as_slice(), "light-gray") {
        Some(ThemeColor::Grey)
    } else if chars_eq_str(cs.as_slice(), "white") {
        Some(ThemeColor::White)
    } else {
        None
    }
}

/// A byte written in hexadecimal as std's `u8::from_str_radix(_, 16)`
/// reads one or two digits: an optional '+', then the digits.
pub open spec fn hex_byte(s: Seq<char>) -> Option<u8> {
    let d = if s.len() > 0 && s[0] == '+' { s.drop_first() } else { s };
    if d.len() == 1 {
        hex_value(d[0])
    } else if d.len() == 2 {
        match (hex_value(d[0]), hex_value(d[1])) {
            (Some(a), Some(b)) => Some((a * 16 + b) as u8),
            _ => None,
        }
    } else {
        None
    }
}

fn hex_digit(c: char) -> (r: Option<u8>)
    ensures
        r == hex_value(c),
{
    if '0' <= c && c <= '9' {
        Some((c as u32 - '0' as u32) as u8)
    } else if 'a' <= c && c <= 'f' {
        Some((c as u32 - 'a' as u32 + 10) as u8)
    } else if 'A' <= c && c <= 'F' {
        Some((c as u32 - 'A' as u32 + 10) as u8)
    } else {
        None
    }
}

/// The byte written in hex by `s[lo..hi]` (see `hex_byte`).
fn parse_hex_byte(s: &[char], lo: usize, hi: usize) -> (r: Option<u8>)
    requires
        lo <= hi <= s@.len(),
    ensures
        r == hex_byte(s@.subrange(lo as int, hi as int)),
{
    let ghost t = s@.subrange(lo as int, hi as int);
    let start = if lo < hi && s[lo] == '+' { lo + 1 } else { lo };
    proof {
        let d = if t.len() > 0 && t[0] == '+' { t.drop_first() } else { t };
        assert(d =~= s@.subrange(start as int, hi as int));
    }
    if hi - start == 1 {
        hex_digit(s[start])
    } else if hi - start == 2 {
        match (hex_digit(s[start]), hex_digit(s[start + 1])) {
            (Some(a), Some(b)) => Some(a * 16 + b),
            _ => None,
        }
    } else {
        None
    }
}

/// A `#rrggbb` or `#rgb` color (each short digit standing for itself
/// twice); nothing else is one.
pub open spec fn hex_color(h: Seq<char>) -> Option<ThemeColor> {
    if h.len() == 0 || h[0] != '#' {
        None
    } else {
        let d = h.drop_first();
        if d.len() == 6 {
            match (hex_byte(d.subrange(0, 2)), hex_byte(d.subrange(2, 4)), hex_byte(d.subrange(4, 6))) {
                (Some(r), Some(g), Some(b)) => Some(ThemeColor::Rgb { r, g, b }),
                _ => None,
            }
        } else if d.len() == 3 {
            match (hex_byte(d.subrange(0, 1)), hex_byte(d.subrange(1, 2)), hex_byte(d.subrange(2, 3))) {
                (Some(r), Some(g), Some(b)) => Some(
                    ThemeColor::Rgb { r: (r * 17) as u8, g: (g * 17) as u8, b: (b * 17) as u8 },
                ),
                _ => None,
            }
        } else {
            None
        }
    }
}

/// The color of a `#rrggbb` or `#rgb` string (see `hex_color`).
pub fn parse_hex(h: &str) -> (r: Option<ThemeColor>)
    ensures
        r == hex_color(h@),
{
    let cs = str_chars(h);
    if cs.len() == 0 || cs[0] != '#' {
        return None;
    }
    let n = cs.len() - 1;
    let ghost d = h@.drop_first();
    if n == 6 {
        proof {
            assert(d.subrange(0, 2) =~= cs@.subrange(1, 3));
            assert(d.subrange(2, 4) =~= cs@.subrange(3, 5));
            assert(d.subrange(4, 6) =~= cs@.subrange(5, 7));
        }
        match (parse_hex_byte(cs.as_slice(), 1, 3), parse_hex_byte(cs.as_slice(), 3, 5), parse_hex_byte(cs.as_slice(), 5, 7)) {
            (Some(r), Some(g), Some(b)) => Some(ThemeColor::Rgb { r, g, b }),
            _ => None,
        }
    } else if n == 3 {
        proof {
            assert(d.subrange(0, 1) =~= cs@.subrange(1, 2));
            assert(d.subrange(1, 2) =~= cs@.subrange(2, 3));
            assert(d.subrange(2, 3) =~= cs@.subrange(3, 4));
        }
        match (parse_hex_byte(cs.as_slice(), 1, 2), parse_hex_byte(cs.as_slice(), 2, 3), parse_hex_byte(cs.as_slice(), 3, 4)) {
            (Some(r), Some(g), Some(b)) => {
                if r < 16 && g < 16 && b < 16 {
                    Some(ThemeColor::Rgb { r: r * 17, g: g * 17, b: b * 17 })
                } else {
                    Some(ThemeColor::Rgb { r: r.wrapping_mul(17), g: g.wrapping_mul(17), b: b.wrapping_mul(17) })
                }
            },
            _ => None,
        }
    } else {
        None
    }
}

/// std's `{:?}` rendering of a string (quoted, with escapes), named for
/// what it gives.
pub uninterp spec fn debug_quoted(s: Seq<char>) -> Seq<char>;

/// `format!("{s:?}")`. The contract claims only that the result is the
/// named quoted rendering of `s`.
#[verifier::external_body]
fn debug_str(s: &str) -> (r: String)
    ensures
        r@ == debug_quoted(s@),
{
    format!("{s:?}")
}

/// A theme color that is not a palette name: a terminal color name,
/// `#rrggbb`/`#rgb`, or a palette index from 0 to 255 (read as std's
/// `u8::from_str` reads it).
pub open spec fn color_literal(s: Seq<char>) -> Result<ThemeColor, Seq<char>> {
    match color_named(s) {
        Some(c) => Ok(c),
        None => if s.len() > 0 && s[0] == '#' {
            match hex_color(s) {
                Some(c) => Ok(c),
                None => Err("malformed hex color "@ + debug_quoted(s)),
            }
        } else {
            match unsigned_value(s) {
                Some(n) => if n <= 255 { Ok(ThemeColor::AnsiValue(n as u8)) } else { Err("unknown color "@ + debug_quoted(s)) },
                None => Err("unknown color "@ + debug_quoted(s)),
            }
        },
    }
}

/// The color `s` writes (see `color_literal`), or why it is none.
pub fn parse_color_literal(s: &str) -> (r: Result<ThemeColor, String>)
    ensures
        match color_literal(s@) {
            Ok(c) => r == Ok::<ThemeColor, String>(c),
            Err(e) => r matches Err(m) && m@ == e,
        },
{
    let cs = str_chars(s);
    match color_name(&cs) {
        Some(c) => {
            return Ok(c);
        },
        None => {},
    }
    if cs.len() > 0 && cs[0] == '#' {
        match parse_hex(s) {
            Some(c) => Ok(c),
            None => {
                let mut v: Vec<char> = Vec::new();
                push_str(&mut v, "malformed hex color ");
                push_str(&mut v, debug_str(s).as_str());
                Err(string_from_chars(v.as_slice()))
            },
        }
    } else {
        match parse_unsigned(cs.as_slice(), 255) {
            Some(n) => Ok(ThemeColor::AnsiValue(n as u8)),
            None => {
                let mut v: Vec<char> = Vec::new();
                push_str(&mut v, "unknown color ");
                push_str(&mut v, debug_str(s).as_str());
                Err(string_from_chars(v.as_slice()))
            },
        }
    }
}

/// One theme entry: colors, underline and text attributes; `None` means
/// not specified.
#[derive(Debug, Clone, Copy, PartialEq, Eq, Hash, Structural)]
pub struct Style {
    pub fg: Option<ThemeColor>,
    pub bg: Option<ThemeColor>,
    pub underline_color: Option<ThemeColor>,
    pub underline: Option<UnderlineStyle>,
    pub modifiers: Modifiers,
}

/// The style of `key` in `entries`: its last entry, as a map that later
/// entries overwrite gives it.
pub open spec fn entry_style(entries: Seq<(Seq<char>, Style)>, key: Seq<char>) -> Option<Style>
    decreases entries.len(),
{
    if entries.len() == 0 {
        None
    } else if entries.last().0 == key {
        Some(entries.last().1)
    } else {
        entry_style(entries.drop_last(), key)
    }
}

/// The index of the last '.' in `s`, if any.
pub open spec fn last_dot(s: Seq<char>) -> Option<int>
    decreases s.len(),
{
    if s.len() == 0 {
        None
    } else if s.last() == '.' {
        Some(s.len() - 1)
    } else {
        last_dot(s.drop_last())
    }
}

/// The style of the scope `name` in `entries`, falling back through its
/// dotted prefixes (`keyword.control.import`, `keyword.control`,
/// `keyword`), as Helix's `Theme::try_get` does.
pub open spec fn scope_style(entries: Seq<(Seq<char>, Style)>, name: Seq<char>) -> Option<Style>
    decreases name.len(),
{
    match entry_style(entries, name) {
        Some(st) => Some(st),
        None => match last_dot(name) {
            Some(i) => if 0 <= i < name.len() { scope_style(entries, name.take(i)) } else { None },
            None => None,
        },
    }
}

/// A loaded theme: its scope names and their styles.
#[derive(Debug, Clone)]
pub struct Theme {
    pub styles: Vec<(String, Style)>,
}

impl Theme {
    /// The theme's entries.
    pub open spec fn entries(&self) -> Seq<(Seq<char>, Style)> {
        self.styles@.map_values(|e: (String, Style)| (e.0@, e.1))
    }

    /// The style of the entry named `key`, the last one when there are
    /// several.
    fn lookup(&self, key: &[char]) -> (r: Option<Style>)
        ensures
            r == entry_style(self.entries(), key@),
    {
        let mut i = self.styles.len();
        proof {
            assert(self.entries().take(i as int) =~= self.entries());
        }
        while i > 0
            invariant
                i <= self.styles@.len(),
                entry_style(self.entries(), key@) == entry_style(self.entries().take(i as int), key@),
            decreases i,
        {
            let ghost es = self.entries().take(i as int);
            assert(es.drop_last() =~= self.entries().take(i - 1));
            let e = &self.styles[i - 1];
            if chars_eq_str(key, e.0.as_str()) {
                return Some(e.1);
            }
            i -= 1;
        }
        None
    }

    /// The style for a scope name, falling back through its dotted
    /// prefixes; `None` when the theme says nothing of it.
    pub fn style_for_name(&self, name: &str) -> (r: Option<Style>)
        ensures
            r == scope_style(self.entries(), name@),
    {
        let mut cur = str_chars(name);
        loop
            invariant
                scope_style(self.entries(), cur@) == scope_style(self.entries(), name@),
            decreases cur@.len(),
        {
            match self.lookup(cur.as_slice()) {
                Some(st) => {
                    return Some(st);
                },
                None => {},
            }
            let ghost prev = cur@;
            match last_dot_index(cur.as_slice()) {
                Some(i) => {
                    cur = crate::text::sub_chars(cur.as_slice(), 0, i);
                    proof {
                        assert(cur@ =~= prev.take(i as int));
                        assert(entry_style(self.entries(), prev) is None);
                        assert(last_dot(prev) == Some(i as int));
                        assert(0 <= i < prev.len());
                        assert(scope_style(self.entries(), prev) == scope_style(self.entries(), prev.take(i as int)));
                    }
                },
                None => {
                    return None;
                },
            }
        }
    }
}

/// The index of the last '.' in `s` (see `last_dot`).
pub(crate) fn last_dot_index(s: &[char]) -> (r: Option<usize>)
    ensures
        r matches Some(k) ==> last_dot(s@) == Some(k as int) && k < s@.len(),
        r is None ==> last_dot(s@) is None,
{
    let mut i = s.len();
    proof {
        assert(s@.take(i as int) =~= s@);
    }
    while i > 0
        invariant
            i <= s@.len(),
            last_dot(s@) == last_dot(s@.take(i as int)),
        decreases i,
    {
        assert(s@.take(i as int).drop_last() =~= s@.take(i - 1));
        if s[i - 1] == '.' {
            return Some(i - 1);
        }
        i -= 1;
    }
    None
}


proof fn lemma_last_dot_after(p: Seq<char>, rest: Seq<char>)
    requires
        forall|k: int| 0 <= k < rest.len() ==> rest[k] != '.',
    ensures
        last_dot(p + seq!['.'] + rest) == Some(p.len() as int),
    decreases rest.len(),
{
    if rest.len() == 0 {
        assert(p + seq!['.'] + rest =~= p.push('.'));
    } else {
        assert((p + seq!['.'] + rest).drop_last() =~= p + seq!['.'] + rest.drop_last());
        lemma_last_dot_after(p, rest.drop_last());
    }
}

/// A theme's style for a dotted scope: its own entry when it has one, and
/// otherwise the style of the scope without its last part, so that the
/// longest prefix the theme defines wins.
pub proof fn law_scope_falls_back_to_prefix(entries: Seq<(Seq<char>, Style)>, prefix: Seq<char>, last: Seq<char>)
    requires
        forall|k: int| 0 <= k < last.len() ==> last[k] != '.',
    ensures
        ({
            let name = prefix + seq!['.'] + last;
            scope_style(entries, name) == match entry_style(entries, name) {
                Some(st) => Some(st),
                None => scope_style(entries, prefix),
            }
        }),
{
    let name = prefix + seq!['.'] + last;
    lemma_last_dot_after(prefix, last);
    assert(name.take(prefix.len() as int) =~= prefix);
}

// ---------------------------------------------------------------------
// Theme entries
// ---------------------------------------------------------------------

/// A value in a style's `underline` table or `modifiers` array: a string,
/// or another value, kept as the TOML text that shows it.
#[derive(Debug, Clone)]
pub enum TomlLeaf {
    Str(String),
    Other(String),
}

/// The value of one field of a style table: a string, a table, an array
/// (each of the last three with the TOML text that shows it), or another
/// value.
#[derive(Debug, Clone)]
pub enum TomlField {
    Str(String),
    Table(Vec<(String, TomlLeaf)>, String),
    Array(Vec<TomlLeaf>, String),
    Other(String),
}

/// A theme entry's value: a color string, a style table, or another value
/// (with the TOML text that shows it).
#[derive(Debug, Clone)]
pub enum TomlEntry {
    Str(String),
    Table(Vec<(String, TomlField)>),
    Other(String),
}

/// The color names a theme can use beyond the terminal ones (its
/// `[palette]`); a later entry shadows an earlier one of the same name.
pub struct Palette {
    pub named: Vec<(String, ThemeColor)>,
}

/// The color of `key` in `pal`: its last entry.
pub open spec fn palette_entry(pal: Seq<(String, ThemeColor)>, key: Seq<char>) -> Option<ThemeColor>
    decreases pal.len(),
{
    if pal.len() == 0 {
        None
    } else if pal.last().0@ == key {
        Some(pal.last().1)
    } else {
        palette_entry(pal.drop_last(), key)
    }
}

/// A color string in a theme with the palette `pal`: a palette name
/// (shadowing a terminal color of that name), or a color literal.
pub open spec fn palette_color(pal: Seq<(String, ThemeColor)>, s: Seq<char>) -> Result<ThemeColor, Seq<char>> {
    match palette_entry(pal, s) {
        Some(c) => Ok(c),
        None => color_literal(s),
    }
}

/// The complaint about a color value that is not a string.
pub open spec fn not_a_color(shown: Seq<char>) -> Seq<char> {
    "expected a color string, got "@ + shown
}

/// `st` with `fg`, `bg` or the underline color set from a color result.
pub open spec fn with_color(r: Result<ThemeColor, Seq<char>>, st: Style, which: int) -> Result<Style, Seq<char>> {
    match r {
        Ok(c) => Ok(
            if which == 0 {
                Style { fg: Some(c), ..st }
            } else if which == 1 {
                Style { bg: Some(c), ..st }
            } else {
                Style { underline_color: Some(c), ..st }
            },
        ),
        Err(e) => Err(e),
    }
}

/// The `underline` table's entries from `i` on, applied to `st` in order;
/// the first bad one is the error.
pub open spec fn underline_fields(pal: Seq<(String, ThemeColor)>, t: Seq<(String, TomlLeaf)>, i: int, st: Style) -> Result<Style, Seq<char>>
    decreases t.len() - i,
{
    if i < 0 || i >= t.len() {
        Ok(st)
    } else {
        let k = t[i].0@;
        let step: Result<Style, Seq<char>> = if k == "color"@ {
            match t[i].1 {
                TomlLeaf::Str(c) => with_color(palette_color(pal, c@), st, 2),
                TomlLeaf::Other(d) => Err(not_a_color(d@)),
            }
        } else if k == "style"@ {
            match t[i].1 {
                TomlLeaf::Str(u) => match underline_named(u@) {
                    Some(us) => Ok(Style { underline: Some(us), ..st }),
                    None => Err("invalid underline style "@ + debug_quoted(u@)),
                },
                TomlLeaf::Other(d) => Err("invalid underline style "@ + d@),
            }
        } else {
            Err("invalid underline attribute "@ + debug_quoted(k))
        };
        match step {
            Ok(st2) => underline_fields(pal, t, i + 1, st2),
            Err(e) => Err(e),
        }
    }
}

/// The `modifiers` array's items from `i` on, applied to `st` in order
/// (`underlined` sets a plain underline); the first bad one is the error.
pub open spec fn modifier_items(a: Seq<TomlLeaf>, i: int, st: Style) -> Result<Style, Seq<char>>
    decreases a.len() - i,
{
    if i < 0 || i >= a.len() {
        Ok(st)
    } else {
        let step: Result<Style, Seq<char>> = match a[i] {
            TomlLeaf::Str(m) => if m@ == "underlined"@ {
                Ok(Style { underline: Some(UnderlineStyle::Line), ..st })
            } else {
                match modifier_named(m@) {
                    Some(md) => Ok(Style { modifiers: Modifiers(st.modifiers.0 | md.0), ..st }),
                    None => Err("invalid modifier "@ + debug_quoted(m@)),
                }
            },
            TomlLeaf::Other(d) => Err("invalid modifier "@ + d@),
        };
        match step {
            Ok(st2) => modifier_items(a, i + 1, st2),
            Err(e) => Err(e),
        }
    }
}

/// The color a field's value gives.
pub open spec fn field_color(pal: Seq<(String, ThemeColor)>, v: TomlField) -> Result<ThemeColor, Seq<char>> {
    match v {
        TomlField::Str(c) => palette_color(pal, c@),
        TomlField::Table(_, d) => Err(not_a_color(d@)),
        TomlField::Array(_, d) => Err(not_a_color(d@)),
        TomlField::Other(d) => Err(not_a_color(d@)),
    }
}

/// A style table's fields from `i` on, applied to `st` in order; the first
/// bad one is the error.
pub open spec fn style_fields(pal: Seq<(String, ThemeColor)>, fs: Seq<(String, TomlField)>, i: int, st: Style) -> Result<Style, Seq<char>>
    decreases fs.len() - i,
{
    if i < 0 || i >= fs.len() {
        Ok(st)
    } else {
        let k = fs[i].0@;
        let v = fs[i].1;
        let step: Result<Style, Seq<char>> = if k == "fg"@ {
            with_color(field_color(pal, v), st, 0)
        } else if k == "bg"@ {
            with_color(field_color(pal, v), st, 1)
        } else if k == "underline"@ {
            match v {
                TomlField::Table(t, _) => underline_fields(pal, t@, 0, st),
                _ => Err("`underline` must be a table"@),
            }
        } else if k == "modifiers"@ {
            match v {
                TomlField::Array(a, _) => modifier_items(a@, 0, st),
                _ => Err("`modifiers` must be an array"@),
            }
        } else {
            Err("invalid style attribute "@ + debug_quoted(k))
        };
        match step {
            Ok(st2) => style_fields(pal, fs, i + 1, st2),
            Err(e) => Err(e),
        }
    }
}

/// The style with nothing specified.
pub open spec fn plain_style() -> Style {
    Style { fg: None, bg: None, underline_color: None, underline: None, modifiers: Modifiers(0) }
}

/// A theme entry's style: a bare color string sets only `fg`; a table sets
/// what it names.
pub open spec fn entry_style_of(pal: Seq<(String, ThemeColor)>, v: TomlEntry) -> Result<Style, Seq<char>> {
    match v {
        TomlEntry::Str(c) => with_color(palette_color(pal, c@), plain_style(), 0),
        TomlEntry::Table(fs) => style_fields(pal, fs@, 0, plain_style()),
        TomlEntry::Other(d) => Err(not_a_color(d@)),
    }
}

fn err_text(pre: &str, quoted_of: &str) -> (r: String)
    ensures
        r@ == pre@ + debug_quoted(quoted_of@),
{
    let mut v: Vec<char> = Vec::new();
    push_str(&mut v, pre);
    push_str(&mut v, debug_str(quoted_of).as_str());
    string_from_chars(v.as_slice())
}

fn joined_text(pre: &str, rest: &str) -> (r: String)
    ensures
        r@ == pre@ + rest@,
{
    let mut v: Vec<char> = Vec::new();
    push_str(&mut v, pre);
    push_str(&mut v, rest);
    string_from_chars(v.as_slice())
}

impl Palette {
    /// The color named `s` in the palette, the last entry of that name.
    fn lookup(&self, s: &str) -> (r: Option<ThemeColor>)
        ensures
            r == palette_entry(self.named@, s@),
    {
        let mut i = self.named.len();
        proof {
            assert(self.named@.take(i as int) =~= self.named@);
        }
        while i > 0
            invariant
                i <= self.named@.len(),
                palette_entry(self.named@, s@) == palette_entry(self.named@.take(i as int), s@),
            decreases i,
        {
            assert(self.named@.take(i as int).drop_last() =~= self.named@.take(i - 1));
            if crate::text::str_eq(s, self.named[i - 1].0.as_str()) {
                return Some(self.named[i - 1].1);
            }
            i -= 1;
        }
        None
    }

    /// A color string (see `palette_color`).
    pub fn parse_color(&self, s: &str) -> (r: Result<ThemeColor, String>)
        ensures
            match palette_color(self.named@, s@) {
                Ok(c) => r == Ok::<ThemeColor, String>(c),
                Err(e) => r matches Err(m) && m@ == e,
            },
    {
        match self.lookup(s) {
            Some(c) => Ok(c),
            None => parse_color_literal(s),
        }
    }

    fn field_color(&self, v: &TomlField) -> (r: Result<ThemeColor, String>)
        ensures
            match field_color(self.named@, *v) {
                Ok(c) => r == Ok::<ThemeColor, String>(c),
                Err(e) => r matches Err(m) && m@ == e,
            },
    {
        match v {
            TomlField::Str(c) => self.parse_color(c.as_str()),
            TomlField::Table(_, d) => Err(joined_text("expected a color string, got ", d.as_str())),
            TomlField::Array(_, d) => Err(joined_text("expected a color string, got ", d.as_str())),
            TomlField::Other(d) => Err(joined_text("expected a color string, got ", d.as_str())),
        }
    }

    fn underline_fields(&self, t: &Vec<(String, TomlLeaf)>, start: Style) -> (r: Result<Style, String>)
        ensures
            match underline_fields(self.named@, t@, 0, start) {
                Ok(x) => r == Ok::<Style, String>(x),
                Err(e) => r matches Err(m) && m@ == e,
            },
    {
        let ghost st0 = start;
        let mut st = start;
        let mut i: usize = 0;
        while i < t.len()
            invariant
                i <= t@.len(),
                st0 == start,
                underline_fields(self.named@, t@, 0, st0) == underline_fields(self.named@, t@, i as int, st),
            decreases t@.len() - i,
        {
            let k = &t[i].0;
            if crate::text::str_eq(k.as_str(), "color") {
                match &t[i].1 {
                    TomlLeaf::Str(c) => match self.parse_color(c.as_str()) {
                        Ok(c) => {
                            st = Style { underline_color: Some(c), ..st };
                        },
                        Err(e) => {
                            return Err(e);
                        },
                    },
                    TomlLeaf::Other(d) => {
                        return Err(joined_text("expected a color string, got ", d.as_str()));
                    },
                }
            } else if crate::text::str_eq(k.as_str(), "style") {
                match &t[i].1 {
                    TomlLeaf::Str(u) => match UnderlineStyle::parse(u.as_str()) {
                        Some(us) => {
                            st = Style { underline: Some(us), ..st };
                        },
                        None => {
                            return Err(err_text("invalid underline style ", u.as_str()));
                        },
                    },
                    TomlLeaf::Other(d) => {
                        return Err(joined_text("invalid underline style ", d.as_str()));
                    },
                }
            } else {
                return Err(err_text("invalid underline attribute ", k.as_str()));
            }
            i += 1;
        }
        Ok(st)
    }
}

impl Palette {
    fn modifier_items(&self, a: &Vec<TomlLeaf>, start: Style) -> (r: Result<Style, String>)
        ensures
            match modifier_items(a@, 0, start) {
                Ok(x) => r == Ok::<Style, String>(x),
                Err(e) => r matches Err(m) && m@ == e,
            },
    {
        let ghost st0 = start;
        let mut st = start;
        let mut i: usize = 0;
        while i < a.len()
            invariant
                i <= a@.len(),
                st0 == start,
                modifier_items(a@, 0, st0) == modifier_items(a@, i as int, st),
            decreases a@.len() - i,
        {
            match &a[i] {
                TomlLeaf::Str(m) => {
                    if crate::text::str_eq(m.as_str(), "underlined") {
                        st = Style { underline: Some(UnderlineStyle::Line), ..st };
                    } else {
                        match Modifiers::parse(m.as_str()) {
                            Some(md) => {
                                let mut mods = st.modifiers;
                                mods.insert(md);
                                st = Style { modifiers: mods, ..st };
                            },
                            None => {
                                return Err(err_text("invalid modifier ", m.as_str()));
                            },
                        }
                    }
                },
                TomlLeaf::Other(d) => {
                    return Err(joined_text("invalid modifier ", d.as_str()));
                },
            }
            i += 1;
        }
        Ok(st)
    }

    /// A theme entry's style (see `entry_style_of`): a bare color string
    /// sets only `fg`; a `{ fg, bg, underline, modifiers }` table sets what
    /// it names, and anything else in it is an error.
    pub fn parse_style(&self, value: &TomlEntry) -> (r: Result<Style, String>)
        ensures
            match entry_style_of(self.named@, *value) {
                Ok(x) => r == Ok::<Style, String>(x),
                Err(e) => r matches Err(m) && m@ == e,
            },
    {
        let plain = Style { fg: None, bg: None, underline_color: None, underline: None, modifiers: Modifiers(0) };
        let fs = match value {
            TomlEntry::Str(c) => {
                return match self.parse_color(c.as_str()) {
                    Ok(c) => Ok(Style { fg: Some(c), ..plain }),
                    Err(e) => Err(e),
                };
            },
            TomlEntry::Other(d) => {
                return Err(joined_text("expected a color string, got ", d.as_str()));
            },
            TomlEntry::Table(fs) => fs,
        };
        let mut st = plain;
        let mut i: usize = 0;
        while i < fs.len()
            invariant
                i <= fs@.len(),
                plain == plain_style(),
                *value == TomlEntry::Table(*fs),
                style_fields(self.named@, fs@, 0, plain) == style_fields(self.named@, fs@, i as int, st),
            decreases fs@.len() - i,
        {
            let k = &fs[i].0;
            let v = &fs[i].1;
            if crate::text::str_eq(k.as_str(), "fg") {
                match self.field_color(v) {
                    Ok(c) => {
                        st = Style { fg: Some(c), ..st };
                    },
                    Err(e) => {
                        return Err(e);
                    },
                }
            } else if crate::text::str_eq(k.as_str(), "bg") {
                match self.field_color(v) {
                    Ok(c) => {
                        st = Style { bg: Some(c), ..st };
                    },
                    Err(e) => {
                        return Err(e);
                    },
                }
            } else if crate::text::str_eq(k.as_str(), "underline") {
                match v {
                    TomlField::Table(t, _) => match self.underline_fields(t, st) {
                        Ok(x) => {
                            st = x;
                        },
                        Err(e) => {
                            return Err(e);
                        },
                    },
                    _ => {
                        return Err(string_from_chars(str_chars("`underline` must be a table").as_slice()));
                    },
                }
            } else if crate::text::str_eq(k.as_str(), "modifiers") {
                match v {
                    TomlField::Array(a, _) => match self.modifier_items(a, st) {
                        Ok(x) => {
                            st = x;
                        },
                        Err(e) => {
                            return Err(e);
                        },
                    },
                    _ => {
                        return Err(string_from_chars(str_chars("`modifiers` must be an array").as_slice()));
                    },
                }
            } else {
                return Err(err_text("invalid style attribute ", k.as_str()));
            }
            i += 1;
        }
        Ok(st)
    }
}

/// What a palette entry's value gives: a color literal, or why not.
pub open spec fn palette_value(v: TomlField) -> Result<ThemeColor, Seq<char>> {
    match v {
        TomlField::Str(c) => color_literal(c@),
        _ => Err("not a string"@),
    }
}

/// The palette that the `[palette]` table `t` makes: its entries whose
/// values are colors, in order.
pub open spec fn palette_of(t: Seq<(String, TomlField)>) -> Seq<(String, ThemeColor)>
    decreases t.len(),
{
    if t.len() == 0 {
        Seq::empty()
    } else {
        let p = palette_of(t.drop_last());
        match palette_value(t.last().1) {
            Ok(c) => p.push((t.last().0, c)),
            Err(_) => p,
        }
    }
}

/// The warnings about the `[palette]` table `t` of the theme `theme`: one
/// for each entry that is not a color, in order.
pub open spec fn palette_warnings(t: Seq<(String, TomlField)>, theme: Seq<char>) -> Seq<Seq<char>>
    decreases t.len(),
{
    if t.len() == 0 {
        Seq::empty()
    } else {
        let w = palette_warnings(t.drop_last(), theme);
        match palette_value(t.last().1) {
            Ok(_) => w,
            Err(e) => w.push("theme "@ + theme + ": palette entry "@ + debug_quoted(t.last().0@) + ": "@ + e),
        }
    }
}

/// The texts of a list of strings.
pub open spec fn string_texts(v: Seq<String>) -> Seq<Seq<char>> {
    v.map_values(|s: String| s@)
}

fn push_text(warnings: &mut Vec<String>, v: Vec<char>)
    ensures
        string_texts(final(warnings)@) == string_texts(old(warnings)@).push(v@),
{
    warnings.push(string_from_chars(v.as_slice()));
    proof {
        assert(string_texts(warnings@) =~= string_texts(old(warnings)@).push(v@));
    }
}

impl Palette {
    /// The palette of the `[palette]` table `table` of the theme `theme`
    /// (see `palette_of`), each entry that is not a color reported in
    /// `warnings`.
    pub fn from_table(table: &Vec<(String, TomlField)>, theme: &str, warnings: &mut Vec<String>) -> (p: Palette)
        ensures
            p.named@ == palette_of(table@),
            string_texts(final(warnings)@) == string_texts(old(warnings)@) + palette_warnings(table@, theme@),
    {
        let mut named: Vec<(String, ThemeColor)> = Vec::new();
        let mut i: usize = 0;
        proof {
            assert(table@.take(0) =~= Seq::<(String, TomlField)>::empty());
            assert(string_texts(warnings@) =~= string_texts(old(warnings)@) + Seq::<Seq<char>>::empty());
        }
        while i < table.len()
            invariant
                i <= table@.len(),
                named@ == palette_of(table@.take(i as int)),
                string_texts(warnings@) == string_texts(old(warnings)@) + palette_warnings(table@.take(i as int), theme@),
            decreases table@.len() - i,
        {
            let ghost t1 = table@.take(i + 1);
            assert(t1.drop_last() =~= table@.take(i as int));
            let key = &table[i].0;
            let r = match &table[i].1 {
                TomlField::Str(c) => parse_color_literal(c.as_str()),
                _ => Err(string_from_chars(str_chars("not a string").as_slice())),
            };
            match r {
                Ok(c) => {
                    named.push((key.clone(), c));
                },
                Err(e) => {
                    let mut v: Vec<char> = Vec::new();
                    push_str(&mut v, "theme ");
                    push_str(&mut v, theme);
                    push_str(&mut v, ": palette entry ");
                    push_str(&mut v, debug_str(key.as_str()).as_str());
                    push_str(&mut v, ": ");
                    push_str(&mut v, e.as_str());
                    let ghost before = string_texts(warnings@);
                    push_text(warnings, v);
                    proof {
                        assert(string_texts(old(warnings)@) + palette_warnings(t1, theme@) =~= before.push(v@));
                    }
                },
            }
            i += 1;
        }
        proof {
            assert(table@.take(table@.len() as int) =~= table@);
        }
        Palette { named }
    }
}

/// Whether a theme table key is one that is not a scope: the palette, the
/// theme it inherits from, or Helix's bracket `rainbow`.
pub open spec fn reserved_key(k: Seq<char>) -> bool {
    k == "palette"@ || k == "inherits"@ || k == "rainbow"@
}

/// The `[palette]` entry of a theme table: its last entry of that name.
pub open spec fn palette_entry_of(t: Seq<(String, TomlEntry)>) -> Option<TomlEntry>
    decreases t.len(),
{
    if t.len() == 0 {
        None
    } else if t.last().0@ == "palette"@ {
        Some(t.last().1)
    } else {
        palette_entry_of(t.drop_last())
    }
}

/// The scope entries of a theme table under the palette `pal`: those that
/// give a style, in order.
pub open spec fn theme_styles(pal: Seq<(String, ThemeColor)>, t: Seq<(String, TomlEntry)>) -> Seq<(Seq<char>, Style)>
    decreases t.len(),
{
    if t.len() == 0 {
        Seq::empty()
    } else {
        let s = theme_styles(pal, t.drop_last());
        if reserved_key(t.last().0@) {
            s
        } else {
            match entry_style_of(pal, t.last().1) {
                Ok(st) => s.push((t.last().0@, st)),
                Err(_) => s,
            }
        }
    }
}

/// The warnings about the scope entries of the theme `name`'s table: one
/// for each entry that gives no style, in order.
pub open spec fn theme_warnings(pal: Seq<(String, ThemeColor)>, t: Seq<(String, TomlEntry)>, name: Seq<char>) -> Seq<Seq<char>>
    decreases t.len(),
{
    if t.len() == 0 {
        Seq::empty()
    } else {
        let w = theme_warnings(pal, t.drop_last(), name);
        if reserved_key(t.last().0@) {
            w
        } else {
            match entry_style_of(pal, t.last().1) {
                Ok(_) => w,
                Err(e) => w.push("theme "@ + name + ": "@ + debug_quoted(t.last().0@) + ": "@ + e),
            }
        }
    }
}

/// The palette of a theme table, and the warnings it gives.
pub open spec fn table_palette(t: Seq<(String, TomlEntry)>, name: Seq<char>) -> (Seq<(String, ThemeColor)>, Seq<Seq<char>>) {
    match palette_entry_of(t) {
        Some(TomlEntry::Table(fs)) => (palette_of(fs@), palette_warnings(fs@, name)),
        Some(_) => (Seq::empty(), seq!["theme "@ + name + ": [palette] must be a table"@]),
        None => (Seq::empty(), Seq::empty()),
    }
}

fn is_reserved(k: &str) -> (r: bool)
    ensures
        r == reserved_key(k@),
{
    crate::text::str_eq(k, "palette") || crate::text::str_eq(k, "inherits") || crate::text::str_eq(k, "rainbow")
}

impl Theme {
    /// The theme `name` from its table (already merged with what it
    /// inherits): the `[palette]` read first, `inherits` and `rainbow`
    /// skipped, and every other entry a scope's style; an entry that gives
    /// no style is reported in `warnings` and left out, as Helix does.
    pub fn from_toml(name: &str, table: Vec<(String, TomlEntry)>, warnings: &mut Vec<String>) -> (th: Theme)
        ensures
            ({
                let (pal, pw) = table_palette(table@, name@);
                &&& th.entries() == theme_styles(pal, table@)
                &&& string_texts(final(warnings)@) == string_texts(old(warnings)@) + pw + theme_warnings(pal, table@, name@)
            }),
    {
        let ghost w0 = string_texts(warnings@);
        let palette = match palette_index(&table) {
            Some(k) => match &table[k].1 {
                TomlEntry::Table(fs) => Palette::from_table(fs, name, warnings),
                _ => {
                    let mut v: Vec<char> = Vec::new();
                    push_str(&mut v, "theme ");
                    push_str(&mut v, name);
                    push_str(&mut v, ": [palette] must be a table");
                    push_text(warnings, v);
                    Palette { named: Vec::new() }
                },
            },
            None => Palette { named: Vec::new() },
        };
        let ghost pal = palette.named@;
        let ghost w1 = string_texts(warnings@);
        proof {
            assert((pal, w1) == (table_palette(table@, name@).0, w0 + table_palette(table@, name@).1)) by {
                match palette_entry_of(table@) {
                    Some(TomlEntry::Table(fs)) => {},
                    Some(_) => {},
                    None => {
                        assert(w1 =~= w0 + Seq::<Seq<char>>::empty());
                    },
                }
            }
        }
        let mut styles: Vec<(String, Style)> = Vec::new();
        let mut i: usize = 0;
        proof {
            assert(table@.take(0) =~= Seq::<(String, TomlEntry)>::empty());
            assert(string_texts(warnings@) =~= w1 + Seq::<Seq<char>>::empty());
            assert(styles@.map_values(|e: (String, Style)| (e.0@, e.1)) =~= Seq::<(Seq<char>, Style)>::empty());
        }
        while i < table.len()
            invariant
                i <= table@.len(),
                palette.named@ == pal,
                styles@.map_values(|e: (String, Style)| (e.0@, e.1)) == theme_styles(pal, table@.take(i as int)),
                string_texts(warnings@) == w1 + theme_warnings(pal, table@.take(i as int), name@),
            decreases table@.len() - i,
        {
            let ghost t1 = table@.take(i + 1);
            assert(t1.drop_last() =~= table@.take(i as int));
            let key = &table[i].0;
            if !is_reserved(key.as_str()) {
                match palette.parse_style(&table[i].1) {
                    Ok(st) => {
                        let ghost before = styles@.map_values(|e: (String, Style)| (e.0@, e.1));
                        styles.push((key.clone(), st));
                        proof {
                            assert(styles@.map_values(|e: (String, Style)| (e.0@, e.1)) =~= before.push((key@, st)));
                        }
                    },
                    Err(e) => {
                        let mut v: Vec<char> = Vec::new();
                        push_str(&mut v, "theme ");
                        push_str(&mut v, name);
                        push_str(&mut v, ": ");
                        push_str(&mut v, debug_str(key.as_str()).as_str());
                        push_str(&mut v, ": ");
                        push_str(&mut v, e.as_str());
                        let ghost before = string_texts(warnings@);
                        push_text(warnings, v);
                        proof {
                            assert(w1 + theme_warnings(pal, t1, name@) =~= before.push(v@));
                        }
                    },
                }
            }
            i += 1;
        }
        proof {
            assert(table@.take(table@.len() as int) =~= table@);
            assert(string_texts(warnings@) =~= w0 + table_palette(table@, name@).1 + theme_warnings(pal, table@, name@));
        }
        Theme { styles }
    }
}

/// The index of the `[palette]` entry of a theme table (see
/// `palette_entry_of`).
fn palette_index(table: &Vec<(String, TomlEntry)>) -> (r: Option<usize>)
    ensures
        match palette_entry_of(table@) {
            Some(e) => r matches Some(k) && k < table@.len() && table@[k as int].1 == e,
            None => r is None,
        },
{
    let mut k = table.len();
    proof {
        assert(table@.take(k as int) =~= table@);
    }
    while k > 0
        invariant
            k <= table@.len(),
            palette_entry_of(table@) == palette_entry_of(table@.take(k as int)),
        decreases k,
    {
        assert(table@.take(k as int).drop_last() =~= table@.take(k - 1));
        if crate::text::str_eq(table[k - 1].0.as_str(), "palette") {
            return Some(k - 1);
        }
        k -= 1;
    }
    None
}

/// The text attributes a terminal draws a style with (colors apart).
#[derive(Debug, Clone, Copy, PartialEq, Eq, Hash, Structural)]
pub enum TextAttribute {
    Bold,
    Dim,
    Italic,
    SlowBlink,
    RapidBlink,
    Reverse,
    Hidden,
    CrossedOut,
    Underlined,
    Undercurled,
    Underdotted,
    Underdashed,
    DoubleUnderlined,
}

/// The attribute that draws an underline style.
pub open spec fn underline_attribute(u: UnderlineStyle) -> TextAttribute {
    match u {
        UnderlineStyle::Line => TextAttribute::Underlined,
        UnderlineStyle::Curl => TextAttribute::Undercurled,
        UnderlineStyle::Dotted => TextAttribute::Underdotted,
        UnderlineStyle::Dashed => TextAttribute::Underdashed,
        UnderlineStyle::DoubleLine => TextAttribute::DoubleUnderlined,
    }
}

/// `a` when the bit `bit` of `m` is set, else nothing.
pub open spec fn flag_piece(m: u16, bit: u16, a: TextAttribute) -> Seq<TextAttribute> {
    if m & bit == bit {
        seq![a]
    } else {
        Seq::empty()
    }
}

/// The attributes of the modifier bits `m`, in the order bold, dim,
/// italic, slow blink, rapid blink, reverse, hidden, crossed out.
pub open spec fn modifier_attributes(m: u16) -> Seq<TextAttribute> {
    flag_piece(m, 1u16, TextAttribute::Bold) + flag_piece(m, 2u16, TextAttribute::Dim) + flag_piece(m, 4u16, TextAttribute::Italic) + flag_piece(m, 8u16, TextAttribute::SlowBlink) + flag_piece(m, 16u16, TextAttribute::RapidBlink) + flag_piece(m, 32u16, TextAttribute::Reverse) + flag_piece(m, 64u16, TextAttribute::Hidden) + flag_piece(m, 128u16, TextAttribute::CrossedOut)
}

impl UnderlineStyle {
    /// The attribute that draws this underline style.
    pub fn attribute(self) -> (a: TextAttribute)
        ensures
            a == underline_attribute(self),
    {
        match self {
            UnderlineStyle::Line => TextAttribute::Underlined,
            UnderlineStyle::Curl => TextAttribute::Undercurled,
            UnderlineStyle::Dotted => TextAttribute::Underdotted,
            UnderlineStyle::Dashed => TextAttribute::Underdashed,
            UnderlineStyle::DoubleLine => TextAttribute::DoubleUnderlined,
        }
    }
}

fn push_flag(out: &mut Vec<TextAttribute>, m: Modifiers, bit: u16, a: TextAttribute)
    ensures
        final(out)@ == old(out)@ + flag_piece(m.0, bit, a),
{
    if m.contains(Modifiers(bit)) {
        out.push(a);
        proof {
            assert(out@ =~= old(out)@ + seq![a]);
        }
    } else {
        proof {
            assert(old(out)@ + Seq::<TextAttribute>::empty() =~= old(out)@);
        }
    }
}

impl Style {
    /// The attributes to set before printing text in this style: its
    /// modifiers in a fixed order, then its underline.
    #[verifier::spinoff_prover]
    pub fn attributes(&self) -> (v: Vec<TextAttribute>)
        ensures
            v@ == modifier_attributes(self.modifiers.0) + match self.underline {
                Some(u) => seq![underline_attribute(u)],
                None => Seq::empty(),
            },
    {
        let mut out: Vec<TextAttribute> = Vec::new();
        push_flag(&mut out, self.modifiers, 1, TextAttribute::Bold);
        push_flag(&mut out, self.modifiers, 2, TextAttribute::Dim);
        push_flag(&mut out, self.modifiers, 4, TextAttribute::Italic);
        push_flag(&mut out, self.modifiers, 8, TextAttribute::SlowBlink);
        push_flag(&mut out, self.modifiers, 16, TextAttribute::RapidBlink);
        push_flag(&mut out, self.modifiers, 32, TextAttribute::Reverse);
        push_flag(&mut out, self.modifiers, 64, TextAttribute::Hidden);
        push_flag(&mut out, self.modifiers, 128, TextAttribute::CrossedOut);
        proof {
            assert(Seq::<TextAttribute>::empty() + flag_piece(self.modifiers.0, 1u16, TextAttribute::Bold) =~= flag_piece(self.modifiers.0, 1u16, TextAttribute::Bold));
        }
        let ghost s7 = out@;
        proof {
            assert(s7 =~= modifier_attributes(self.modifiers.0));
        }
        match self.underline {
            Some(u) => {
                out.push(u.attribute());
            },
            None => {},
        }
        proof {
            assert(out@ =~= s7 + match self.underline {
                Some(u) => seq![underline_attribute(u)],
                None => Seq::<TextAttribute>::empty(),
            });
        }
        out
    }
}

// ---------------------------------------------------------------------
// Theme files: reading one, following `inherits`
// ---------------------------------------------------------------------

/// What a `TomlLeaf` holds, as plain values.
pub enum TomlLeafView {
    Str(Seq<char>),
    Other(Seq<char>),
}

/// What a `TomlField` holds, as plain values.
pub enum TomlFieldView {
    Str(Seq<char>),
    Table(Seq<(Seq<char>, TomlLeafView)>, Seq<char>),
    Array(Seq<TomlLeafView>, Seq<char>),
    Other(Seq<char>),
}

/// What a `TomlEntry` holds, as plain values.
pub enum TomlEntryView {
    Str(Seq<char>),
    Table(Seq<(Seq<char>, TomlFieldView)>),
    Other(Seq<char>),
}

impl View for TomlLeaf {
    type V = TomlLeafView;

    open spec fn view(&self) -> TomlLeafView {
        match self {
            TomlLeaf::Str(s) => TomlLeafView::Str(s@),
            TomlLeaf::Other(s) => TomlLeafView::Other(s@),
        }
    }
}

impl View for TomlField {
    type V = TomlFieldView;

    open spec fn view(&self) -> TomlFieldView {
        match self {
            TomlField::Str(s) => TomlFieldView::Str(s@),
            TomlField::Table(t, shown) => TomlFieldView::Table(kv_view(t@), shown@),
            TomlField::Array(a, shown) => TomlFieldView::Array(a@.map_values(|l: TomlLeaf| l@), shown@),
            TomlField::Other(s) => TomlFieldView::Other(s@),
        }
    }
}

impl View for TomlEntry {
    type V = TomlEntryView;

    open spec fn view(&self) -> TomlEntryView {
        match self {
            TomlEntry::Str(s) => TomlEntryView::Str(s@),
            TomlEntry::Table(t) => TomlEntryView::Table(kv_view(t@)),
            TomlEntry::Other(s) => TomlEntryView::Other(s@),
        }
    }
}

/// Named entries as plain values.
pub open spec fn kv_view<T: View>(s: Seq<(String, T)>) -> Seq<(Seq<char>, T::V)> {
    s.map_values(|p: (String, T)| (p.0@, p.1@))
}

/// A parsed table (or the parser's message) as plain values.
pub open spec fn toml_result_view(r: Result<Vec<(String, TomlEntry)>, String>) -> Result<Seq<(Seq<char>, TomlEntryView)>, Seq<char>> {
    match r {
        Ok(t) => Ok(kv_view(t@)),
        Err(e) => Err(e@),
    }
}

/// What the `toml` crate reads from a document's text: its top-level
/// entries in the table's order, or the parser's message.
pub uninterp spec fn toml_table_of(text: Seq<char>) -> Result<Seq<(Seq<char>, TomlEntryView)>, Seq<char>>;

#[verifier::external_type_specification]
#[verifier::external_body]
pub struct ExTomlValue(toml::Value);

/// `str::parse::<toml::Table>`: the document read as a table, each entry
/// converted to a `TomlEntry` (strings kept, tables and arrays taken apart
/// one level further, any other value kept as the TOML text that shows
/// it), or `toml::de::Error::message` on failure. The contract claims only
/// that the result is the named reading of the text.
#[verifier::external_body]
fn parse_toml(text: &str) -> (r: Result<Vec<(String, TomlEntry)>, String>)
    ensures
        toml_result_view(r) == toml_table_of(text@),
{
    match text.parse::<toml::Table>() {
        Ok(t) => Ok(t.into_iter().map(|(k, v)| (k, toml_entry(v))).collect()),
        Err(e) => Err(e.message().to_string()),
    }
}

/// Converts a top-level `toml::Value` for `parse_toml`.
#[verifier::external_body]
fn toml_entry(v: toml::Value) -> TomlEntry {
    match v {
        toml::Value::String(s) => TomlEntry::Str(s),
        toml::Value::Table(t) => TomlEntry::Table(t.into_iter().map(|(k, v)| (k, toml_field(v))).collect()),
        other => TomlEntry::Other(other.to_string()),
    }
}

/// Converts a `toml::Value` one level down for `parse_toml`; a table or
/// array also keeps the TOML text that shows it.
#[verifier::external_body]
fn toml_field(v: toml::Value) -> TomlField {
    let shown = v.to_string();
    match v {
        toml::Value::String(s) => TomlField::Str(s),
        toml::Value::Table(t) => TomlField::Table(t.into_iter().map(|(k, v)| (k, toml_leaf(v))).collect(), shown),
        toml::Value::Array(a) => TomlField::Array(a.into_iter().map(toml_leaf).collect(), shown),
        _ => TomlField::Other(shown),
    }
}

/// Converts a `toml::Value` two levels down for `parse_toml`.
#[verifier::external_body]
fn toml_leaf(v: toml::Value) -> TomlLeaf {
    match v {
        toml::Value::String(s) => TomlLeaf::Str(s),
        other => TomlLeaf::Other(other.to_string()),
    }
}

/// The index of the last entry named `k`.
pub open spec fn last_index<V>(s: Seq<(Seq<char>, V)>, k: Seq<char>) -> Option<int>
    decreases s.len(),
{
    if s.len() == 0 {
        None
    } else if s.last().0 == k {
        Some(s.len() - 1)
    } else {
        last_index(s.drop_last(), k)
    }
}

proof fn lemma_last_index_found<V>(s: Seq<(Seq<char>, V)>, k: Seq<char>)
    ensures
        match last_index(s, k) {
            Some(j) => 0 <= j < s.len() && s[j].0 == k,
            None => forall|j: int| 0 <= j < s.len() ==> s[j].0 != k,
        },
    decreases s.len(),
{
    if s.len() > 0 && s.last().0 != k {
        lemma_last_index_found(s.drop_last(), k);
        if last_index(s, k) is None {
            assert forall|j: int| 0 <= j < s.len() implies s[j].0 != k by {
                if j < s.len() - 1 {
                    assert(s[j] == s.drop_last()[j]);
                }
            }
        }
    }
}

/// `s` with the entry `kv` set, as a table does it: the entry of that name
/// replaced where it stands, or else added at the end.
pub open spec fn put<V>(s: Seq<(Seq<char>, V)>, kv: (Seq<char>, V)) -> Seq<(Seq<char>, V)> {
    match last_index(s, kv.0) {
        Some(i) => s.update(i, kv),
        None => s.push(kv),
    }
}

/// `base` with the entries of `top` set in order.
pub open spec fn overlay<V>(base: Seq<(Seq<char>, V)>, top: Seq<(Seq<char>, V)>) -> Seq<(Seq<char>, V)>
    decreases top.len(),
{
    if top.len() == 0 {
        base
    } else {
        put(overlay(base, top.drop_last()), top.last())
    }
}

/// `base` with the entries of `top` set in order, but for a `palette`.
pub open spec fn overlay_scopes(base: Seq<(Seq<char>, TomlEntryView)>, top: Seq<(Seq<char>, TomlEntryView)>) -> Seq<(Seq<char>, TomlEntryView)>
    decreases top.len(),
{
    if top.len() == 0 {
        base
    } else if top.last().0 == "palette"@ {
        overlay_scopes(base, top.drop_last())
    } else {
        put(overlay_scopes(base, top.drop_last()), top.last())
    }
}

/// The table of a theme `child` that inherits from `parent` (already
/// merged with its own ancestors): each entry of the child replaces the
/// parent's whole entry of that name, and the child's `[palette]`, when it
/// is a table, is laid over the parent's, entry by entry (or takes its
/// place, when the parent has none that is a table).
pub open spec fn merged(parent: Seq<(Seq<char>, TomlEntryView)>, child: Seq<(Seq<char>, TomlEntryView)>) -> Seq<(Seq<char>, TomlEntryView)> {
    let m = overlay_scopes(parent, child);
    match last_index(child, "palette"@) {
        Some(i) => match child[i].1 {
            TomlEntryView::Table(cf) => match last_index(m, "palette"@) {
                Some(j) => match m[j].1 {
                    TomlEntryView::Table(pf) => put(m, ("palette"@, TomlEntryView::Table(overlay(pf, cf)))),
                    _ => put(m, ("palette"@, TomlEntryView::Table(cf))),
                },
                None => put(m, ("palette"@, TomlEntryView::Table(cf))),
            },
            _ => m,
        },
        None => m,
    }
}

/// The value of the last entry named `k`, if any.
pub open spec fn value_at<V>(s: Seq<(Seq<char>, V)>, k: Seq<char>) -> Option<V> {
    match last_index(s, k) {
        Some(j) => Some(s[j].1),
        None => None,
    }
}

proof fn lemma_last_index_is<V>(s: Seq<(Seq<char>, V)>, k: Seq<char>, i: int)
    requires
        0 <= i < s.len(),
        s[i].0 == k,
        forall|j: int| i < j < s.len() ==> s[j].0 != k,
    ensures
        last_index(s, k) == Some(i),
    decreases s.len(),
{
    if i < s.len() - 1 {
        let t = s.drop_last();
        assert forall|j: int| i < j < t.len() implies t[j].0 != k by {
            assert(t[j] == s[j]);
        }
        lemma_last_index_is(t, k, i);
    }
}

proof fn lemma_last_index_none<V>(s: Seq<(Seq<char>, V)>, k: Seq<char>)
    requires
        forall|j: int| 0 <= j < s.len() ==> s[j].0 != k,
    ensures
        last_index(s, k) is None,
    decreases s.len(),
{
    if s.len() > 0 {
        let t = s.drop_last();
        assert forall|j: int| 0 <= j < t.len() implies t[j].0 != k by {
            assert(t[j] == s[j]);
        }
        lemma_last_index_none(t, k);
    }
}

proof fn lemma_last_index_after<V>(s: Seq<(Seq<char>, V)>, k: Seq<char>)
    ensures
        last_index(s, k) matches Some(i) ==> forall|j: int| i < j < s.len() ==> s[j].0 != k,
    decreases s.len(),
{
    if s.len() > 0 && s.last().0 != k {
        let t = s.drop_last();
        lemma_last_index_after(t, k);
        lemma_last_index_found(t, k);
        if let Some(i) = last_index(s, k) {
            assert forall|j: int| i < j < s.len() implies s[j].0 != k by {
                if j < s.len() - 1 {
                    assert(s[j] == t[j]);
                }
            }
        }
    }
}

proof fn lemma_put_values<V>(s: Seq<(Seq<char>, V)>, kv: (Seq<char>, V), k: Seq<char>)
    ensures
        value_at(put(s, kv), k) == if k == kv.0 {
            Some(kv.1)
        } else {
            value_at(s, k)
        },
{
    let p = put(s, kv);
    lemma_last_index_found(s, kv.0);
    lemma_last_index_after(s, kv.0);
    lemma_last_index_found(s, k);
    lemma_last_index_after(s, k);
    match last_index(s, kv.0) {
        Some(i) => {
            if k == kv.0 {
                lemma_last_index_is(p, k, i);
            } else {
                match last_index(s, k) {
                    Some(j) => {
                        assert(j != i);
                        lemma_last_index_is(p, k, j);
                    },
                    None => {
                        assert forall|j: int| 0 <= j < p.len() implies p[j].0 != k by {}
                        lemma_last_index_none(p, k);
                    },
                }
            }
        },
        None => {
            assert(p.drop_last() =~= s);
        },
    }
}

/// Laying `top` over `base` keeps every name of `base` and adds every name
/// of `top`, a name in `top` taking the value `top` gives it.
pub proof fn law_overlay_prefers_top<V>(base: Seq<(Seq<char>, V)>, top: Seq<(Seq<char>, V)>, k: Seq<char>)
    ensures
        value_at(overlay(base, top), k) == if value_at(top, k) is Some {
            value_at(top, k)
        } else {
            value_at(base, k)
        },
    decreases top.len(),
{
    if top.len() > 0 {
        let t = top.drop_last();
        law_overlay_prefers_top(base, t, k);
        lemma_put_values(overlay(base, t), top.last(), k);
        lemma_last_index_found(t, k);
        if top.last().0 != k {
            if let Some(j) = last_index(t, k) {
                assert(top[j] == t[j]);
            }
        }
    }
}

proof fn lemma_overlay_scopes_values(base: Seq<(Seq<char>, TomlEntryView)>, top: Seq<(Seq<char>, TomlEntryView)>, k: Seq<char>)
    ensures
        k != "palette"@ ==> value_at(overlay_scopes(base, top), k) == if value_at(top, k) is Some {
            value_at(top, k)
        } else {
            value_at(base, k)
        },
        k == "palette"@ ==> value_at(overlay_scopes(base, top), k) == value_at(base, k),
    decreases top.len(),
{
    if top.len() > 0 {
        let t = top.drop_last();
        lemma_overlay_scopes_values(base, t, k);
        lemma_last_index_found(t, k);
        if top.last().0 != "palette"@ {
            lemma_put_values(overlay_scopes(base, t), top.last(), k);
        }
        if top.last().0 != k {
            if let Some(j) = last_index(t, k) {
                assert(top[j] == t[j]);
            }
        }
    }
}

/// In a theme that inherits, every scope entry of the child replaces the
/// parent's whole entry of that name, and every other entry of the parent
/// stays as it is.
pub proof fn law_child_entries_win(parent: Seq<(Seq<char>, TomlEntryView)>, child: Seq<(Seq<char>, TomlEntryView)>, k: Seq<char>)
    requires
        k != "palette"@,
    ensures
        value_at(merged(parent, child), k) == if value_at(child, k) is Some {
            value_at(child, k)
        } else {
            value_at(parent, k)
        },
{
    let m = overlay_scopes(parent, child);
    lemma_overlay_scopes_values(parent, child, k);
    lemma_put_values(m, ("palette"@, TomlEntryView::Table(Seq::empty())), k);
    match last_index(child, "palette"@) {
        Some(i) => match child[i].1 {
            TomlEntryView::Table(cf) => match last_index(m, "palette"@) {
                Some(j) => match m[j].1 {
                    TomlEntryView::Table(pf) => lemma_put_values(m, ("palette"@, TomlEntryView::Table(overlay(pf, cf))), k),
                    _ => lemma_put_values(m, ("palette"@, TomlEntryView::Table(cf)), k),
                },
                None => lemma_put_values(m, ("palette"@, TomlEntryView::Table(cf)), k),
            },
            _ => {},
        },
        None => {},
    }
}

/// In a theme that inherits, when both palettes are tables, the palette is
/// the parent's with the child's laid over it, color by color.
pub proof fn law_palettes_are_unioned(
    parent: Seq<(Seq<char>, TomlEntryView)>,
    child: Seq<(Seq<char>, TomlEntryView)>,
    pf: Seq<(Seq<char>, TomlFieldView)>,
    cf: Seq<(Seq<char>, TomlFieldView)>,
)
    requires
        value_at(parent, "palette"@) == Some(TomlEntryView::Table(pf)),
        value_at(child, "palette"@) == Some(TomlEntryView::Table(cf)),
    ensures
        value_at(merged(parent, child), "palette"@) == Some(TomlEntryView::Table(overlay(pf, cf))),
{
    let m = overlay_scopes(parent, child);
    lemma_overlay_scopes_values(parent, child, "palette"@);
    lemma_put_values(m, ("palette"@, TomlEntryView::Table(overlay(pf, cf))), "palette"@);
}

/// The index of the last entry of `v` named `k`.
fn last_key_index<T: View>(v: &Vec<(String, T)>, k: &str) -> (r: Option<usize>)
    ensures
        match r {
            Some(i) => i < v@.len() && last_index(kv_view(v@), k@) == Some(i as int),
            None => last_index(kv_view(v@), k@) is None,
        },
{
    let ghost s = kv_view(v@);
    let mut j: usize = v.len();
    proof {
        assert(s.take(j as int) =~= s);
    }
    while j > 0
        invariant
            j <= v@.len(),
            s == kv_view(v@),
            last_index(s, k@) == last_index(s.take(j as int), k@),
        decreases j,
    {
        let ghost t = s.take(j as int);
        assert(t.last() == s[j - 1]);
        if crate::text::str_eq(v[j - 1].0.as_str(), k) {
            return Some(j - 1);
        }
        assert(t.drop_last() =~= s.take(j - 1));
        j -= 1;
    }
    None
}

/// Set the entry `k` of `v` to `e`, as `put` says.
fn put_entry<T: View>(v: &mut Vec<(String, T)>, k: String, e: T)
    ensures
        kv_view(final(v)@) == put(kv_view(old(v)@), (k@, e@)),
{
    let ghost s = kv_view(v@);
    match last_key_index(v, k.as_str()) {
        Some(i) => {
            v.set(i, (k, e));
            proof {
                assert(kv_view(v@) =~= s.update(i as int, (k@, e@)));
            }
        },
        None => {
            v.push((k, e));
            proof {
                assert(kv_view(v@) =~= s.push((k@, e@)));
            }
        },
    }
}

/// Lay the entries of `top` over `base`, in order, as `overlay` says.
fn overlay_entries<T: View>(base: &mut Vec<(String, T)>, top: Vec<(String, T)>)
    ensures
        kv_view(final(base)@) == overlay(kv_view(old(base)@), kv_view(top@)),
{
    let ghost b0 = kv_view(base@);
    let ghost t0 = kv_view(top@);
    let n: usize = top.len();
    let mut rest = top;
    let mut i: usize = 0;
    proof {
        assert(t0.take(0) =~= Seq::<(Seq<char>, T::V)>::empty());
        assert(t0.skip(0) =~= t0);
    }
    while rest.len() > 0
        invariant
            i <= t0.len(),
            t0.len() == n,
            i + rest@.len() == n,
            kv_view(rest@) == t0.skip(i as int),
            kv_view(base@) == overlay(b0, t0.take(i as int)),
        decreases rest.len(),
    {
        let ghost before = rest@;
        let (k, e) = rest.remove(0);
        proof {
            assert(kv_view(before)[0] == (k@, e@));
            assert(t0.skip(i as int)[0] == t0[i as int]);
            assert(kv_view(rest@) =~= kv_view(before).skip(1));
            assert(kv_view(rest@) =~= t0.skip(i + 1));
            assert(t0.take(i + 1).drop_last() =~= t0.take(i as int));
            assert(t0.take(i + 1).last() == (k@, e@));
        }
        put_entry(base, k, e);
        i += 1;
    }
    proof {
        assert(t0.take(i as int) =~= t0);
    }
}

/// The configured per-language themes as a listing shows them: each
/// language once, in the order it first appears, with the theme its last
/// entry names.
pub fn language_theme_listing(pairs: Vec<(String, String)>) -> (r: Vec<(String, String)>)
    ensures
        kv_view(r@) == overlay(Seq::<(Seq<char>, Seq<char>)>::empty(), kv_view(pairs@)),
{
    let mut out: Vec<(String, String)> = Vec::new();
    proof {
        assert(kv_view(out@) =~= Seq::<(Seq<char>, Seq<char>)>::empty());
    }
    overlay_entries(&mut out, pairs);
    out
}

/// The table of a theme `child` that inherits from `parent`: see `merged`.
pub fn merge_inherited(parent: Vec<(String, TomlEntry)>, child: Vec<(String, TomlEntry)>) -> (m: Vec<(String, TomlEntry)>)
    ensures
        kv_view(m@) == merged(kv_view(parent@), kv_view(child@)),
{
    let ghost p0 = kv_view(parent@);
    let ghost c0 = kv_view(child@);
    let n: usize = child.len();
    let mut m = parent;
    let mut rest = child;
    let mut pal: Option<TomlEntry> = None;
    let mut i: usize = 0;
    proof {
        assert(c0.take(0) =~= Seq::<(Seq<char>, TomlEntryView)>::empty());
        assert(c0.skip(0) =~= c0);
    }
    while rest.len() > 0
        invariant
            i <= c0.len(),
            c0.len() == n,
            i + rest@.len() == n,
            kv_view(rest@) == c0.skip(i as int),
            kv_view(m@) == overlay_scopes(p0, c0.take(i as int)),
            match last_index(c0.take(i as int), "palette"@) {
                Some(j) => pal matches Some(e) && e@ == c0.take(i as int)[j].1,
                None => pal is None,
            },
        decreases rest.len(),
    {
        let ghost before = rest@;
        let (k, e) = rest.remove(0);
        proof {
            assert(kv_view(before)[0] == (k@, e@));
            assert(c0.skip(i as int)[0] == c0[i as int]);
            assert(kv_view(rest@) =~= kv_view(before).skip(1));
            assert(kv_view(rest@) =~= c0.skip(i + 1));
            assert(c0.take(i + 1).drop_last() =~= c0.take(i as int));
            assert(c0.take(i + 1).last() == (k@, e@));
        }
        proof {
            lemma_last_index_found(c0.take(i as int), "palette"@);
            if let Some(j) = last_index(c0.take(i as int), "palette"@) {
                assert(c0.take(i + 1)[j] == c0.take(i as int)[j]);
            }
        }
        if crate::text::str_eq(k.as_str(), "palette") {
            pal = Some(e);
        } else {
            put_entry(&mut m, k, e);
        }
        i += 1;
    }
    proof {
        assert(c0.take(i as int) =~= c0);
    }
    let cf = match pal {
        Some(TomlEntry::Table(cf)) => cf,
        _ => return m,
    };
    let key = <String as vstd::string::StringExecFns>::from_str("palette");
    match last_key_index(&m, "palette") {
        Some(j) => {
            let ghost mv = kv_view(m@);
            let mut held = (<String as vstd::string::StringExecFns>::from_str("palette"), TomlEntry::Other(String::new()));
            m.set_and_swap(j, &mut held);
            proof {
                assert(mv[j as int] == (held.0@, held.1@));
            }
            let (_, old_entry) = held;
            let entry = match old_entry {
                TomlEntry::Table(pf) => {
                    let mut pf = pf;
                    overlay_entries(&mut pf, cf);
                    TomlEntry::Table(pf)
                },
                _ => TomlEntry::Table(cf),
            };
            let ghost ev = entry@;
            m.set(j, (key, entry));
            proof {
                assert(kv_view(m@) =~= mv.update(j as int, ("palette"@, ev)));
            }
        },
        None => {
            put_entry(&mut m, key, TomlEntry::Table(cf));
        },
    }
    m
}

/// What one theme file's parsed table (or the parser's message) gives: the
/// table and the name of the theme it inherits from, or why the file
/// cannot be used.
pub open spec fn layer_of(parsed: Result<Seq<(Seq<char>, TomlEntryView)>, Seq<char>>) -> Result<(Seq<(Seq<char>, TomlEntryView)>, Option<Seq<char>>), Seq<char>> {
    match parsed {
        Err(m) => Err("parse error: "@ + m),
        Ok(t) => match last_index(t, "inherits"@) {
            None => Ok((t, None)),
            Some(i) => match t[i].1 {
                TomlEntryView::Str(p) => Ok((t, Some(p))),
                TomlEntryView::Other(shown) => Err("`inherits` must be a string, not "@ + shown),
                TomlEntryView::Table(_) => Err("`inherits` must be a string, not a table"@),
            },
        },
    }
}

/// A theme file's table and parent name as plain values.
pub open spec fn layer_view(r: Result<(Vec<(String, TomlEntry)>, Option<String>), String>) -> Result<(Seq<(Seq<char>, TomlEntryView)>, Option<Seq<char>>), Seq<char>> {
    match r {
        Ok((t, p)) => Ok((
            kv_view(t@),
            match p {
                Some(n) => Some(n@),
                None => None,
            },
        )),
        Err(e) => Err(e@),
    }
}

/// One theme file's table and the theme it inherits from, from what the
/// TOML parser made of it, as `layer_of` says.
pub fn theme_layer_of(parsed: Result<Vec<(String, TomlEntry)>, String>) -> (r: Result<(Vec<(String, TomlEntry)>, Option<String>), String>)
    ensures
        layer_view(r) == layer_of(toml_result_view(parsed)),
{
    let t = match parsed {
        Ok(t) => t,
        Err(m) => {
            let mut out: Vec<char> = Vec::new();
            push_str(&mut out, "parse error: ");
            push_str(&mut out, m.as_str());
            return Err(string_from_chars(out.as_slice()));
        },
    };
    let i = match last_key_index(&t, "inherits") {
        Some(i) => i,
        None => return Ok((t, None)),
    };
    proof {
        assert(kv_view(t@)[i as int].1 == t@[i as int].1@);
    }
    let parent = match &t[i].1 {
        TomlEntry::Str(p) => p.clone(),
        TomlEntry::Other(shown) => {
            let mut out: Vec<char> = Vec::new();
            push_str(&mut out, "`inherits` must be a string, not ");
            push_str(&mut out, shown.as_str());
            return Err(string_from_chars(out.as_slice()));
        },
        TomlEntry::Table(_) => {
            return Err(<String as vstd::string::StringExecFns>::from_str("`inherits` must be a string, not a table"));
        },
    };
    Ok((t, Some(parent)))
}

/// One theme file's table and the theme it inherits from, read from the
/// file's text.
pub fn theme_layer(text: &str) -> (r: Result<(Vec<(String, TomlEntry)>, Option<String>), String>)
    ensures
        layer_view(r) == layer_of(toml_table_of(text@)),
{
    theme_layer_of(parse_toml(text))
}

/// Where the text of a theme comes from.
pub enum ThemeSource {
    /// A built-in theme, by its full name.
    Builtin(String),
    /// A file named directly, as written (a leading `~` not yet expanded).
    Path(String),
    /// The file name to look for in the search directories, in order.
    Search(String),
}

/// A theme name that names a file rather than a theme: one with a `/`,
/// one ending in `.toml`, or one starting with `~`.
pub open spec fn looks_like_path(name: Seq<char>) -> bool {
    ||| name.contains('/')
    ||| (name.len() >= 5 && name.skip(name.len() - 5) == ".toml"@)
    ||| (name.len() > 0 && name[0] == '~')
}

/// The message for a built-in theme name that no built-in theme has.
pub open spec fn unknown_builtin_message(name: Seq<char>) -> Seq<char> {
    "no built-in theme named "@ + debug_quoted(name) + " (built-ins: "@ + comma_list(builtin_theme_names()) + ")"@
}

/// `parts` separated by ", ".
fn join_commas(parts: &Vec<&'static str>) -> (r: Vec<char>)
    ensures
        r@ == comma_list(parts@.map_values(|p: &'static str| p@)),
{
    let ghost ps = parts@.map_values(|p: &'static str| p@);
    let mut out: Vec<char> = Vec::new();
    let mut i: usize = 0;
    proof {
        reveal_strlit(", ");
    }
    while i < parts.len()
        invariant
            i <= parts@.len(),
            ps == parts@.map_values(|p: &'static str| p@),
            out@ == comma_list(ps.take(i as int)),
        decreases parts.len() - i,
    {
        if i > 0 {
            push_str(&mut out, ", ");
        }
        push_str(&mut out, parts[i]);
        proof {
            let q = ps.take(i + 1);
            assert(q.drop_last() =~= ps.take(i as int));
            if i == 0 {
                assert(ps.take(0).len() == 0);
                assert(out@ =~= q[0]);
            } else {
                assert(out@ =~= comma_list(ps.take(i as int)) + ", "@ + q.last());
            }
        }
        i += 1;
    }
    proof {
        assert(ps.take(parts@.len() as int) =~= ps);
    }
    out
}

/// Where the theme `name` is read from: a name with the built-in prefix is
/// a built-in theme (an error when there is none of that name); otherwise a
/// name that looks like a path is that file; any other name is the file
/// `NAME.toml` in the search directories.
pub fn theme_source(name: &str) -> (r: Result<ThemeSource, String>)
    ensures
        starts_with(name@, "tico-builtin-"@) && builtin_theme_names().contains(name@) ==> (r matches Ok(
            ThemeSource::Builtin(n),
        ) && n@ == name@),
        starts_with(name@, "tico-builtin-"@) && !builtin_theme_names().contains(name@) ==> (r matches Err(e) && e@
            == unknown_builtin_message(name@)),
        !starts_with(name@, "tico-builtin-"@) && looks_like_path(name@) ==> (r matches Ok(ThemeSource::Path(p)) && p@
            == name@),
        !starts_with(name@, "tico-builtin-"@) && !looks_like_path(name@) ==> (r matches Ok(ThemeSource::Search(f)) && f@
            == name@ + ".toml"@),
{
    let cs = str_chars(name);
    if crate::text::has_prefix(cs.as_slice(), "tico-builtin-") {
        let names = builtin_names();
        let mut i: usize = 0;
        while i < names.len()
            invariant
                i <= names@.len(),
                starts_with(name@, "tico-builtin-"@),
                names@.len() == builtin_theme_names().len(),
                forall|j: int| 0 <= j < names@.len() ==> (#[trigger] names@[j])@ == builtin_theme_names()[j],
                forall|j: int| 0 <= j < i ==> builtin_theme_names()[j] != name@,
            decreases names.len() - i,
        {
            if crate::text::str_eq(names[i], name) {
                proof {
                    assert(builtin_theme_names()[i as int] == name@);
                }
                return Ok(ThemeSource::Builtin(<String as vstd::string::StringExecFns>::from_str(name)));
            }
            i += 1;
        }
        let list = join_commas(&names);
        proof {
            assert(names@.map_values(|p: &'static str| p@) =~= builtin_theme_names());
            assert forall|j: int| 0 <= j < builtin_theme_names().len() implies builtin_theme_names()[j] != name@ by {}
        }
        let mut out: Vec<char> = Vec::new();
        push_str(&mut out, "no built-in theme named ");
        let q = debug_str(name);
        push_str(&mut out, q.as_str());
        push_str(&mut out, " (built-ins: ");
        push_all(&mut out, list.as_slice());
        push_str(&mut out, ")");
        return Err(string_from_chars(out.as_slice()));
    }
    let n = cs.len();
    let has_slash = match crate::text::find_char(cs.as_slice(), '/') {
        Some(_) => true,
        None => false,
    };
    proof {
        crate::text::lemma_first_index(cs@, '/');
        if let Some(k) = crate::text::first_index(cs@, '/') {
            assert(cs@[k] == '/');
        }
    }
    let toml_end = if n >= 5 {
        let tail = crate::text::sub_chars(cs.as_slice(), n - 5, n);
        proof {
            assert(tail@ =~= cs@.skip(n - 5));
        }
        chars_eq_str(tail.as_slice(), ".toml")
    } else {
        false
    };
    let tilde = n > 0 && cs[0] == '~';
    if has_slash || toml_end || tilde {
        Ok(ThemeSource::Path(<String as vstd::string::StringExecFns>::from_str(name)))
    } else {
        let mut out = cs;
        push_str(&mut out, ".toml");
        Ok(ThemeSource::Search(string_from_chars(out.as_slice())))
    }
}

/// Texts as plain values.
pub open spec fn strings_view(v: Seq<String>) -> Seq<Seq<char>> {
    v.map_values(|s: String| s@)
}

/// Note `key` (a file, or `<builtin>/NAME`) as read while following an
/// `inherits` chain: `false`, with `visited` unchanged, when it already
/// was, which makes the chain a cycle.
pub fn first_visit(visited: &mut Vec<String>, key: String) -> (fresh: bool)
    ensures
        fresh == !strings_view(old(visited)@).contains(key@),
        strings_view(final(visited)@) == if fresh {
            strings_view(old(visited)@).push(key@)
        } else {
            strings_view(old(visited)@)
        },
{
    let ghost vs = strings_view(visited@);
    let mut i: usize = 0;
    while i < visited.len()
        invariant
            i <= visited@.len(),
            vs == strings_view(visited@),
            forall|j: int| 0 <= j < i ==> vs[j] != key@,
        decreases visited.len() - i,
    {
        if crate::text::str_eq(visited[i].as_str(), key.as_str()) {
            proof {
                assert(vs[i as int] == key@);
            }
            return false;
        }
        i += 1;
    }
    visited.push(key);
    proof {
        assert(strings_view(visited@) =~= vs.push(key@));
    }
    true
}

/// Which file a bare theme name loads, given the files `found` that exist
/// for it in the search directories, in order: the first one not yet read
/// in this `inherits` chain (a theme may inherit from one of the same name
/// further down the path). When there is none, the message says whether
/// every one found was already read (a cycle) or none was found; `searched`
/// names where it was looked for.
pub fn pick_theme_file(name: &str, found: &Vec<String>, visited: &Vec<String>, searched: &str) -> (r: Result<String, String>)
    ensures
        match r {
            Ok(p) => exists|i: int|
                0 <= i < found@.len() && p@ == found@[i]@ && !strings_view(visited@).contains(found@[i]@) && forall|j: int|
                    0 <= j < i ==> strings_view(visited@).contains(#[trigger] found@[j]@),
            Err(e) => (forall|j: int| 0 <= j < found@.len() ==> strings_view(visited@).contains(#[trigger] found@[j]@)) && e@ == if found@.len() > 0 {
                "cycle in `inherits` chain at "@ + name@
            } else {
                "no theme named "@ + debug_quoted(name@) + " found (searched "@ + searched@ + ")"@
            },
        },
{
    let ghost vs = strings_view(visited@);
    let mut i: usize = 0;
    while i < found.len()
        invariant
            i <= found@.len(),
            vs == strings_view(visited@),
            forall|j: int| 0 <= j < i ==> vs.contains(#[trigger] found@[j]@),
        decreases found.len() - i,
    {
        let mut seen = false;
        let mut k: usize = 0;
        while k < visited.len()
            invariant
                k <= visited@.len(),
                vs == strings_view(visited@),
                i < found@.len(),
                seen == exists|j: int| 0 <= j < k && vs[j] == found@[i as int]@,
            decreases visited.len() - k,
        {
            proof {
                assert(vs[k as int] == visited@[k as int]@);
            }
            if crate::text::str_eq(visited[k].as_str(), found[i].as_str()) {
                seen = true;
            }
            k += 1;
        }
        proof {
            if seen {
                let j = choose|j: int| 0 <= j < k && vs[j] == found@[i as int]@;
                assert(vs.contains(found@[i as int]@));
            } else {
                assert forall|j: int| 0 <= j < vs.len() implies vs[j] != found@[i as int]@ by {}
                assert(!vs.contains(found@[i as int]@));
            }
        }
        if !seen {
            return Ok(found[i].clone());
        }
        i += 1;
    }
    let mut out: Vec<char> = Vec::new();
    if found.len() > 0 {
        push_str(&mut out, "cycle in `inherits` chain at ");
        push_str(&mut out, name);
    } else {
        push_str(&mut out, "no theme named ");
        let q = debug_str(name);
        push_str(&mut out, q.as_str());
        push_str(&mut out, " found (searched ");
        push_str(&mut out, searched);
        push_str(&mut out, ")");
    }
    Err(string_from_chars(out.as_slice()))
}

} // verus!
