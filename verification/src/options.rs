//! The nano-compatible settings ("set" options in nanorc terms), with their
//! defaults as documented in `nanorc(5)`, and the parsers for the values
//! some of them take.

use crate::text::{
    ascii_lowercase, chars_eq_str, is_space, lowercase_chars, parse_unsigned, str_chars, trim_chars,
    trimmed, unsigned_value,
};
use vstd::prelude::*;
use vstd::string::StringExecFns;

verus! {

/// A named color, with the "light" (bright) intensity of nano's
/// `light`-prefix convention tracked in `NamedColor`.
#[derive(Debug, Clone, Copy, PartialEq, Eq, Structural)]
pub enum Color {
    Black,
    Red,
    Green,
    Yellow,
    Blue,
    Magenta,
    Cyan,
    White,
    Normal,
    Rgb(u8, u8, u8),
}

#[derive(Debug, Clone, Copy, PartialEq, Eq, Structural)]
pub struct NamedColor {
    pub color: Color,
    pub light: bool,
}

impl NamedColor {
    fn new(color: Color) -> (n: NamedColor)
        ensures
            n == (NamedColor { color, light: false }),
    {
        NamedColor { color, light: false }
    }

    fn light(color: Color) -> (n: NamedColor)
        ensures
            n == (NamedColor { color, light: true }),
    {
        NamedColor { color, light: true }
    }
}

#[derive(Debug, Clone, Copy, PartialEq, Eq, Structural)]
pub struct ColorPair {
    pub bold: bool,
    pub italic: bool,
    pub fg: Option<NamedColor>,
    pub bg: Option<NamedColor>,
}

/// No attributes and no colors.
pub open spec fn plain_colors() -> ColorPair {
    ColorPair { bold: false, italic: false, fg: None, bg: None }
}

impl Default for ColorPair {
    fn default() -> (c: ColorPair)
        ensures
            c == plain_colors(),
    {
        ColorPair { bold: false, italic: false, fg: None, bg: None }
    }
}

/// All of nanorc's `set`/`unset` options, plus the command-line-only ones
/// and tico's own. Field names match the nanorc option names.
#[derive(Debug)]
pub struct Options {

    // Boolean toggles (all default false unless noted).
    pub afterends: bool,
    pub allow_insecure_backup: bool,
    pub atblanks: bool,
    pub autoindent: bool,
    pub backup: bool,
    pub boldtext: bool,
    pub bookstyle: bool,
    pub breaklonglines: bool,
    pub casesensitive: bool,
    pub colonparsing: bool,
    pub constantshow: bool,
    pub cutfromcursor: bool,
    pub emptyline: bool,
    pub historylog: bool,
    pub indicator: bool,
    pub jumpyscrolling: bool,
    pub linenumbers: bool,
    pub locking: bool,
    pub magic: bool,
    pub minibar: bool,
    pub mouse: bool,
    pub multibuffer: bool,
    pub noconvert: bool,
    pub nohelp: bool,
    pub nonewlines: bool,
    pub positionlog: bool,
    pub preserve: bool,
    pub quickblank: bool,
    pub rawsequences: bool,
    pub rebinddelete: bool,
    pub regexp: bool,
    pub saveonexit: bool,
    pub showcursor: bool,
    pub smarthome: bool,
    pub softwrap: bool,
    pub stateflags: bool,
    pub tabstospaces: bool,
    pub trimblanks: bool,
    pub unix: bool,
    pub wordbounds: bool,
    pub zap: bool,
    pub zero: bool,
    /// syntax highlighting on by default (per tico's own requirements, unlike
    /// nano which enables it whenever a syntax matches regardless of a toggle).
    pub syntax_highlighting: bool,

    // Valued options.
    pub backupdir: Option<String>,
    pub brackets: String,
    pub fill: i32,
    pub guidestripe: Option<u32>,
    pub matchbrackets: String,
    pub operatingdir: Option<String>,
    pub punct: String,
    pub quotestr: String,
    pub speller: Option<String>,
    pub tabsize: u32,
    pub whitespace: (char, char),
    pub wordchars: Option<String>,

    // Colors.
    pub errorcolor: ColorPair,
    pub functioncolor: ColorPair,
    pub keycolor: ColorPair,
    pub minicolor: ColorPair,
    pub numbercolor: ColorPair,
    pub promptcolor: ColorPair,
    pub scrollercolor: ColorPair,
    pub selectedcolor: ColorPair,
    pub spotlightcolor: ColorPair,
    pub statuscolor: ColorPair,
    pub stripecolor: ColorPair,
    pub titlecolor: ColorPair,

    // Other CLI-only / mixed options not exposed as plain "set" booleans
    // above (nano exposes these as both CLI flags and nanorc `set` names).
    pub restricted: bool,
    pub view: bool,
    pub nowrap: bool,
    pub ignorercfiles: bool,
    pub modernbindings: bool,
    pub syntax_name: Option<String>,
    pub rcfile: Option<String>,

    /// tico-only (no nano equivalent): buffers larger than this are never
    /// syntax-highlighted, regardless of `syntax_highlighting` -- a full
    /// tree-sitter parse plus query run isn't free, and without a cap a
    /// large enough file (a big generated source file, a log file opened
    /// by mistake, ...) would make every load/edit visibly stall.
    /// Configured via `~/.ticorc`'s `[tico]` section
    /// (`max_syntax_highlight_size = 4MB`); see `parse_byte_size`.
    pub max_syntax_highlight_bytes: u64,
    /// tico-only: the syntax-highlighting theme to load (a Helix-format
    /// theme; see `crate::theme`), by name or file path. `None` means the
    /// built-in default. Configured via `~/.ticorc`'s `[syntax]` section
    /// (`theme = tico-builtin-gruvbox`) or `--tico-theme NAME`.
    pub theme: Option<String>,
    /// tico-only: per-language theme overrides, `(language name, theme
    /// name)`, from `[syntax]` lines like `perl.theme = tico-builtin-nord`.
    /// A language not listed here uses `theme`. Kept in file order; a
    /// later entry for the same language wins.
    pub language_themes: Vec<(String, String)>,

}

/// Pairs of strings as pairs of texts.
#[verifier::opaque]
pub open spec fn pairs_view(v: Seq<(String, String)>) -> Seq<(Seq<char>, Seq<char>)> {
    v.map_values(|p: (String, String)| (p.0@, p.1@))
}

pub open spec fn opt_text(o: Option<String>) -> Option<Seq<char>> {
    match o {
        Some(s) => Some(s@),
        None => None,
    }
}

/// The options as mathematical values.
pub struct OptionsView {
    pub afterends: bool,
    pub allow_insecure_backup: bool,
    pub atblanks: bool,
    pub autoindent: bool,
    pub backup: bool,
    pub boldtext: bool,
    pub bookstyle: bool,
    pub breaklonglines: bool,
    pub casesensitive: bool,
    pub colonparsing: bool,
    pub constantshow: bool,
    pub cutfromcursor: bool,
    pub emptyline: bool,
    pub historylog: bool,
    pub indicator: bool,
    pub jumpyscrolling: bool,
    pub linenumbers: bool,
    pub locking: bool,
    pub magic: bool,
    pub minibar: bool,
    pub mouse: bool,
    pub multibuffer: bool,
    pub noconvert: bool,
    pub nohelp: bool,
    pub nonewlines: bool,
    pub positionlog: bool,
    pub preserve: bool,
    pub quickblank: bool,
    pub rawsequences: bool,
    pub rebinddelete: bool,
    pub regexp: bool,
    pub saveonexit: bool,
    pub showcursor: bool,
    pub smarthome: bool,
    pub softwrap: bool,
    pub stateflags: bool,
    pub tabstospaces: bool,
    pub trimblanks: bool,
    pub unix: bool,
    pub wordbounds: bool,
    pub zap: bool,
    pub zero: bool,
    pub syntax_highlighting: bool,
    pub backupdir: Option<Seq<char>>,
    pub brackets: Seq<char>,
    pub fill: i32,
    pub guidestripe: Option<u32>,
    pub matchbrackets: Seq<char>,
    pub operatingdir: Option<Seq<char>>,
    pub punct: Seq<char>,
    pub quotestr: Seq<char>,
    pub speller: Option<Seq<char>>,
    pub tabsize: u32,
    pub whitespace: (char, char),
    pub wordchars: Option<Seq<char>>,
    pub errorcolor: ColorPair,
    pub functioncolor: ColorPair,
    pub keycolor: ColorPair,
    pub minicolor: ColorPair,
    pub numbercolor: ColorPair,
    pub promptcolor: ColorPair,
    pub scrollercolor: ColorPair,
    pub selectedcolor: ColorPair,
    pub spotlightcolor: ColorPair,
    pub statuscolor: ColorPair,
    pub stripecolor: ColorPair,
    pub titlecolor: ColorPair,
    pub restricted: bool,
    pub view: bool,
    pub nowrap: bool,
    pub ignorercfiles: bool,
    pub modernbindings: bool,
    pub syntax_name: Option<Seq<char>>,
    pub rcfile: Option<Seq<char>>,
    pub max_syntax_highlight_bytes: u64,
    pub theme: Option<Seq<char>>,
    pub language_themes: Seq<(Seq<char>, Seq<char>)>,
}

impl View for Options {
    type V = OptionsView;

    open spec fn view(&self) -> OptionsView {
        OptionsView {
            afterends: self.afterends,
            allow_insecure_backup: self.allow_insecure_backup,
            atblanks: self.atblanks,
            autoindent: self.autoindent,
            backup: self.backup,
            boldtext: self.boldtext,
            bookstyle: self.bookstyle,
            breaklonglines: self.breaklonglines,
            casesensitive: self.casesensitive,
            colonparsing: self.colonparsing,
            constantshow: self.constantshow,
            cutfromcursor: self.cutfromcursor,
            emptyline: self.emptyline,
            historylog: self.historylog,
            indicator: self.indicator,
            jumpyscrolling: self.jumpyscrolling,
            linenumbers: self.linenumbers,
            locking: self.locking,
            magic: self.magic,
            minibar: self.minibar,
            mouse: self.mouse,
            multibuffer: self.multibuffer,
            noconvert: self.noconvert,
            nohelp: self.nohelp,
            nonewlines: self.nonewlines,
            positionlog: self.positionlog,
            preserve: self.preserve,
            quickblank: self.quickblank,
            rawsequences: self.rawsequences,
            rebinddelete: self.rebinddelete,
            regexp: self.regexp,
            saveonexit: self.saveonexit,
            showcursor: self.showcursor,
            smarthome: self.smarthome,
            softwrap: self.softwrap,
            stateflags: self.stateflags,
            tabstospaces: self.tabstospaces,
            trimblanks: self.trimblanks,
            unix: self.unix,
            wordbounds: self.wordbounds,
            zap: self.zap,
            zero: self.zero,
            syntax_highlighting: self.syntax_highlighting,
            backupdir: opt_text(self.backupdir),
            brackets: self.brackets@,
            fill: self.fill,
            guidestripe: self.guidestripe,
            matchbrackets: self.matchbrackets@,
            operatingdir: opt_text(self.operatingdir),
            punct: self.punct@,
            quotestr: self.quotestr@,
            speller: opt_text(self.speller),
            tabsize: self.tabsize,
            whitespace: self.whitespace,
            wordchars: opt_text(self.wordchars),
            errorcolor: self.errorcolor,
            functioncolor: self.functioncolor,
            keycolor: self.keycolor,
            minicolor: self.minicolor,
            numbercolor: self.numbercolor,
            promptcolor: self.promptcolor,
            scrollercolor: self.scrollercolor,
            selectedcolor: self.selectedcolor,
            spotlightcolor: self.spotlightcolor,
            statuscolor: self.statuscolor,
            stripecolor: self.stripecolor,
            titlecolor: self.titlecolor,
            restricted: self.restricted,
            view: self.view,
            nowrap: self.nowrap,
            ignorercfiles: self.ignorercfiles,
            modernbindings: self.modernbindings,
            syntax_name: opt_text(self.syntax_name),
            rcfile: opt_text(self.rcfile),
            max_syntax_highlight_bytes: self.max_syntax_highlight_bytes,
            theme: opt_text(self.theme),
            language_themes: pairs_view(self.language_themes@),
        }
    }
}

/// The options' defaults.
pub open spec fn default_options() -> OptionsView {
    OptionsView {
        afterends: false,
        allow_insecure_backup: false,
        atblanks: false,
        autoindent: false,
        backup: false,
        boldtext: false,
        bookstyle: false,
        breaklonglines: false,
        casesensitive: false,
        colonparsing: false,
        constantshow: false,
        cutfromcursor: false,
        emptyline: false,
        historylog: false,
        indicator: false,
        jumpyscrolling: false,
        linenumbers: false,
        locking: false,
        magic: false,
        minibar: false,
        mouse: false,
        multibuffer: false,
        noconvert: false,
        nohelp: false,
        nonewlines: false,
        positionlog: false,
        preserve: false,
        quickblank: false,
        rawsequences: false,
        rebinddelete: false,
        regexp: false,
        saveonexit: false,
        showcursor: false,
        smarthome: false,
        softwrap: false,
        stateflags: false,
        tabstospaces: false,
        trimblanks: false,
        unix: false,
        wordbounds: false,
        zap: false,
        zero: false,
        syntax_highlighting: true,
        backupdir: None,
        brackets: "\"')>]}"@,
        fill: -8i32,
        guidestripe: None,
        matchbrackets: "(<[{)>]}"@,
        operatingdir: None,
        punct: "!.?"@,
        quotestr: "^([ \t]*([!#%:;>|}]|//))+"@,
        speller: None,
        tabsize: 8,
        whitespace: ('\u{bb}', '\u{22c5}'),
        wordchars: None,
        errorcolor: ColorPair {
            bold: true,
            italic: false,
            fg: Some(NamedColor { color: Color::White, light: false }),
            bg: Some(NamedColor { color: Color::Red, light: false }),
        },
        functioncolor: plain_colors(),
        keycolor: plain_colors(),
        minicolor: plain_colors(),
        numbercolor: plain_colors(),
        promptcolor: plain_colors(),
        scrollercolor: plain_colors(),
        selectedcolor: plain_colors(),
        spotlightcolor: ColorPair {
            bold: false,
            italic: false,
            fg: Some(NamedColor { color: Color::Black, light: false }),
            bg: Some(NamedColor { color: Color::Yellow, light: true }),
        },
        statuscolor: plain_colors(),
        stripecolor: plain_colors(),
        titlecolor: plain_colors(),
        restricted: false,
        view: false,
        nowrap: true,
        ignorercfiles: false,
        modernbindings: false,
        syntax_name: None,
        rcfile: None,
        max_syntax_highlight_bytes: 4194304,
        theme: None,
        language_themes: Seq::empty(),
    }
}

impl Default for Options {
    fn default() -> (o: Options)
        ensures
            o@ == default_options(),
    {
        let o = Options {
            afterends: false,
            allow_insecure_backup: false,
            atblanks: false,
            autoindent: false,
            backup: false,
            boldtext: false,
            bookstyle: false,
            breaklonglines: false,
            casesensitive: false,
            colonparsing: false,
            constantshow: false,
            cutfromcursor: false,
            emptyline: false,
            historylog: false,
            indicator: false,
            jumpyscrolling: false,
            linenumbers: false,
            locking: false,
            magic: false,
            minibar: false,
            mouse: false,
            multibuffer: false,
            noconvert: false,
            nohelp: false,
            nonewlines: false,
            positionlog: false,
            preserve: false,
            quickblank: false,
            rawsequences: false,
            rebinddelete: false,
            regexp: false,
            saveonexit: false,
            showcursor: false,
            smarthome: false,
            softwrap: false,
            stateflags: false,
            tabstospaces: false,
            trimblanks: false,
            unix: false,
            wordbounds: false,
            zap: false,
            zero: false,
            syntax_highlighting: true,
            backupdir: None,
            brackets: String::from_str("\"')>]}"),
            fill: -8,
            guidestripe: None,
            matchbrackets: String::from_str("(<[{)>]}"),
            operatingdir: None,
            punct: String::from_str("!.?"),
            quotestr: String::from_str("^([ \t]*([!#%:;>|}]|//))+"),
            speller: None,
            tabsize: 8,
            whitespace: ('\u{bb}', '\u{22c5}'),
            wordchars: None,
            errorcolor: ColorPair {
                bold: true,
                italic: false,
                fg: Some(NamedColor::new(Color::White)),
                bg: Some(NamedColor::new(Color::Red)),
            },
            functioncolor: ColorPair::default(),
            keycolor: ColorPair::default(),
            minicolor: ColorPair::default(),
            numbercolor: ColorPair::default(),
            promptcolor: ColorPair::default(),
            scrollercolor: ColorPair::default(),
            selectedcolor: ColorPair::default(),
            spotlightcolor: ColorPair {
                bold: false,
                italic: false,
                fg: Some(NamedColor::new(Color::Black)),
                bg: Some(NamedColor::light(Color::Yellow)),
            },
            statuscolor: ColorPair::default(),
            stripecolor: ColorPair::default(),
            titlecolor: ColorPair::default(),
            restricted: false,
            view: false,
            nowrap: true,
            ignorercfiles: false,
            modernbindings: false,
            syntax_name: None,
            rcfile: None,
            max_syntax_highlight_bytes: 4194304,
            theme: None,
            language_themes: Vec::new(),
        };
        proof {
            reveal(pairs_view);
            assert(pairs_view(o.language_themes@) =~= Seq::empty());
        }
        o
    }
}

/// The multiplier of a byte-size suffix (`kb`, `mb`, `gb`, already
/// lowercased), and the text before it.
pub open spec fn size_suffix(lower: Seq<char>) -> (Seq<char>, nat) {
    let n = lower.len();
    if n >= 2 && lower[n - 2] == 'g' && lower[n - 1] == 'b' {
        (lower.take(n - 2), 1073741824)
    } else if n >= 2 && lower[n - 2] == 'm' && lower[n - 1] == 'b' {
        (lower.take(n - 2), 1048576)
    } else if n >= 2 && lower[n - 2] == 'k' && lower[n - 1] == 'b' {
        (lower.take(n - 2), 1024)
    } else {
        (lower, 1)
    }
}

/// The number of bytes a size setting names: a plain integer, optionally
/// followed by `KB`/`MB`/`GB` (any case; 1024-based), white space allowed
/// around the whole and before the suffix; `None` for anything else or a
/// size that does not fit in a `u64`.
pub open spec fn byte_size_of(spec: Seq<char>) -> Option<u64> {
    let (digits, mult) = size_suffix(ascii_lowercase(trimmed(spec)));
    match unsigned_value(trimmed(digits)) {
        Some(n) => if n * mult <= u64::MAX { Some((n * mult) as u64) } else { None },
        None => None,
    }
}

/// Parse a byte-size setting: a bare integer (bytes), or one suffixed with
/// `KB`/`MB`/`GB` (case-insensitive; 1024-based, so `1MB` == 1048576).
/// `None` on anything that isn't a plain integer optionally followed by one
/// of those three suffixes, or that overflows `u64` once multiplied.
pub fn parse_byte_size(spec: &str) -> (r: Option<u64>)
    ensures
        r == byte_size_of(spec@),
{
    let raw = str_chars(spec);
    let t = trim_chars(raw.as_slice());
    let lower = lowercase_chars(t.as_slice());
    let n = lower.len();
    let (end, mult): (usize, u64) = if n >= 2 && lower[n - 2] == 'g' && lower[n - 1] == 'b' {
        (n - 2, 1073741824)
    } else if n >= 2 && lower[n - 2] == 'm' && lower[n - 1] == 'b' {
        (n - 2, 1048576)
    } else if n >= 2 && lower[n - 2] == 'k' && lower[n - 1] == 'b' {
        (n - 2, 1024)
    } else {
        (n, 1)
    };
    let digits = crate::text::sub_chars(lower.as_slice(), 0, end);
    proof {
        assert(digits@ =~= size_suffix(lower@).0);
    }
    let dt = trim_chars(digits.as_slice());
    proof {
        assert(mult >= 1);
        match unsigned_value(dt@) {
            Some(nv) => {
                assert(nv * mult >= nv) by (nonlinear_arith)
                    requires mult >= 1, nv >= 0,
                {
                }
            },
            None => {},
        }
    }
    match parse_unsigned(dt.as_slice(), u64::MAX) {
        Some(v) => v.checked_mul(mult),
        None => None,
    }
}

/// The pieces of `s` between commas (std's `split(',')`): one more than
/// the number of commas, empty pieces included.
pub open spec fn comma_pieces(s: Seq<char>) -> Seq<Seq<char>>
    decreases s.len(),
{
    if s.len() == 0 {
        seq![Seq::empty()]
    } else {
        let p = comma_pieces(s.drop_last());
        if s.last() == ',' {
            p.push(Seq::empty())
        } else {
            p.update(p.len() - 1, p.last().push(s.last()))
        }
    }
}

proof fn lemma_comma_pieces_nonempty(s: Seq<char>)
    ensures
        comma_pieces(s).len() > 0,
    decreases s.len(),
{
    if s.len() > 0 {
        lemma_comma_pieces_nonempty(s.drop_last());
    }
}

/// The words of a color spec read so far: whether "bold" and "italic"
/// occurred, and the other (color) words in order; pieces are trimmed and
/// empty ones skipped.
pub open spec fn color_words(pieces: Seq<Seq<char>>) -> (bool, bool, Seq<Seq<char>>)
    decreases pieces.len(),
{
    if pieces.len() == 0 {
        (false, false, Seq::empty())
    } else {
        let (b, i, c) = color_words(pieces.drop_last());
        let p = trimmed(pieces.last());
        if p.len() == 0 {
            (b, i, c)
        } else if p == "bold"@ {
            (true, i, c)
        } else if p == "italic"@ {
            (b, true, c)
        } else {
            (b, i, c.push(p))
        }
    }
}

/// The eight basic color names, and "normal".
pub open spec fn base_color(name: Seq<char>) -> Option<Color> {
    if name == "black"@ {
        Some(Color::Black)
    } else if name == "red"@ {
        Some(Color::Red)
    } else if name == "green"@ {
        Some(Color::Green)
    } else if name == "yellow"@ {
        Some(Color::Yellow)
    } else if name == "blue"@ {
        Some(Color::Blue)
    } else if name == "magenta"@ {
        Some(Color::Magenta)
    } else if name == "cyan"@ {
        Some(Color::Cyan)
    } else if name == "white"@ {
        Some(Color::White)
    } else if name == "normal"@ {
        Some(Color::Normal)
    } else {
        None
    }
}

/// The value of a hexadecimal digit.
pub open spec fn hex_value(c: char) -> Option<u8> {
    if '0' <= c && c <= '9' {
        Some(((c as int) - ('0' as int)) as u8)
    } else if 'a' <= c && c <= 'f' {
        Some(((c as int) - ('a' as int) + 10) as u8)
    } else if 'A' <= c && c <= 'F' {
        Some(((c as int) - ('A' as int) + 10) as u8)
    } else {
        None
    }
}

/// A nanorc color name: one of the basic colors, optionally prefixed with
/// "light"; "grey"/"gray" (light black); or `#rgb` with three hex digits,
/// each standing for that digit repeated.
pub open spec fn named_color_of(name: Seq<char>) -> Option<NamedColor> {
    if name == "grey"@ || name == "gray"@ {
        Some(NamedColor { color: Color::Black, light: true })
    } else {
        let light = name.len() >= 5 && name.take(5) == "light"@;
        let n = if light { name.skip(5) } else { name };
        if n.len() > 0 && n[0] == '#' {
            let h = n.drop_first();
            if h.len() == 3 && hex_value(h[0]) is Some && hex_value(h[1]) is Some && hex_value(h[2]) is Some {
                Some(NamedColor {
                    color: Color::Rgb(
                        (hex_value(h[0]).unwrap() * 17) as u8,
                        (hex_value(h[1]).unwrap() * 17) as u8,
                        (hex_value(h[2]).unwrap() * 17) as u8,
                    ),
                    light: false,
                })
            } else {
                None
            }
        } else {
            match base_color(n) {
                Some(c) => Some(NamedColor { color: c, light }),
                None => None,
            }
        }
    }
}

/// The colors a nanorc color spec `[bold,][italic,]fgcolor[,bgcolor]`
/// names; a color word that is no color leaves that color unset.
#[verifier::opaque]
pub open spec fn color_pair_of(spec: Seq<char>) -> ColorPair {
    let (b, i, c) = color_words(comma_pieces(spec));
    ColorPair {
        bold: b,
        italic: i,
        fg: if c.len() > 0 { named_color_of(c[0]) } else { None },
        bg: if c.len() > 1 { named_color_of(c[1]) } else { None },
    }
}

fn hex_digit(c: char) -> (r: Option<u8>)
    ensures
        r == hex_value(c),
{
    if '0' <= c && c <= '9' {
        Some((c as u32 - '0' as u32) as u8)
    } else if 'a' <= c && c <= 'f' {
        Some((c as u32 - 'a' as u32 + 10) as u8)
    } else if 'A' <= c && c <= 'F' {
        Some((c as u32 - 'A' as u32 + 10) as u8)
    } else {
        None
    }
}

fn parse_color(name: &[char]) -> (r: Option<NamedColor>)
    ensures
        r == named_color_of(name@),
{
    if chars_eq_str(name, "grey") || chars_eq_str(name, "gray") {
        return Some(NamedColor::light(Color::Black));
    }
    let light = name.len() >= 5 && crate::text::has_prefix(name, "light");
    proof {
        reveal_strlit("light");
    }
    let start: usize = if light { 5 } else { 0 };
    let n = crate::text::sub_chars(name, start, name.len());
    proof {
        assert(n@ =~= (if light { name@.skip(5) } else { name@ }));
    }
    if n.len() > 0 && n[0] == '#' {
        if n.len() == 4 {
            let r = hex_digit(n[1]);
            let g = hex_digit(n[2]);
            let b = hex_digit(n[3]);
            if let (Some(r), Some(g), Some(b)) = (r, g, b) {
                return Some(NamedColor::new(Color::Rgb(r * 17, g * 17, b * 17)));
            }
        }
        return None;
    }
    let color = if chars_eq_str(n.as_slice(), "black") {
        Color::Black
    } else if chars_eq_str(n.as_slice(), "red") {
        Color::Red
    } else if chars_eq_str(n.as_slice(), "green") {
        Color::Green
    } else if chars_eq_str(n.as_slice(), "yellow") {
        Color::Yellow
    } else if chars_eq_str(n.as_slice(), "blue") {
        Color::Blue
    } else if chars_eq_str(n.as_slice(), "magenta") {
        Color::Magenta
    } else if chars_eq_str(n.as_slice(), "cyan") {
        Color::Cyan
    } else if chars_eq_str(n.as_slice(), "white") {
        Color::White
    } else if chars_eq_str(n.as_slice(), "normal") {
        Color::Normal
    } else {
        return None;
    };
    Some(NamedColor { color, light })
}

/// Fold one comma-separated piece into the color words read so far.
fn take_piece(piece: &[char], bold: &mut bool, italic: &mut bool, colors: &mut Vec<Vec<char>>)
    ensures
        (*final(bold), *final(italic), final(colors)@.map_values(|v: Vec<char>| v@)) == {
            let (b, i, c) = (*old(bold), *old(italic), old(colors)@.map_values(|v: Vec<char>| v@));
            let p = trimmed(piece@);
            if p.len() == 0 {
                (b, i, c)
            } else if p == "bold"@ {
                (true, i, c)
            } else if p == "italic"@ {
                (b, true, c)
            } else {
                (b, i, c.push(p))
            }
        },
{
    let p = trim_chars(piece);
    if p.len() == 0 {
    } else if chars_eq_str(p.as_slice(), "bold") {
        *bold = true;
    } else if chars_eq_str(p.as_slice(), "italic") {
        *italic = true;
    } else {
        let ghost pv = p@;
        colors.push(p);
        proof {
            assert(final(colors)@.map_values(|v: Vec<char>| v@) =~= old(colors)@.map_values(|v: Vec<char>| v@).push(pv));
        }
    }
}

/// Parse a nanorc-style color spec: `[bold,][italic,]fgcolor[,bgcolor]`.
/// It always succeeds; a word that names no color leaves that color unset.
pub fn parse_color_pair(spec: &str) -> (r: Option<ColorPair>)
    ensures
        r == Some(color_pair_of(spec@)),
{
    let s = str_chars(spec);
    let mut bold = false;
    let mut italic = false;
    let mut colors: Vec<Vec<char>> = Vec::new();
    let mut cur: Vec<char> = Vec::new();
    let mut i: usize = 0;
    proof {
        assert(s@.take(0) =~= Seq::<char>::empty());
    }
    while i < s.len()
        invariant
            i <= s@.len(),
            s@ == spec@,
            comma_pieces(s@.take(i as int)).len() > 0,
            comma_pieces(s@.take(i as int)).last() == cur@,
            (bold, italic, colors@.map_values(|v: Vec<char>| v@)) == color_words(comma_pieces(s@.take(i as int)).drop_last()),
        decreases s.len() - i,
    {
        let c = s[i];
        proof {
            assert(s@.take(i + 1).drop_last() =~= s@.take(i as int));
            lemma_comma_pieces_nonempty(s@.take(i as int));
        }
        let ghost prev = comma_pieces(s@.take(i as int));
        if c == ',' {
            take_piece(cur.as_slice(), &mut bold, &mut italic, &mut colors);
            proof {
                assert(comma_pieces(s@.take(i + 1)) == prev.push(Seq::empty()));
                assert(prev.push(Seq::<char>::empty()).drop_last() =~= prev);
                assert(prev.drop_last().push(prev.last()) =~= prev);
            }
            cur = Vec::new();
        } else {
            cur.push(c);
            proof {
                let next = prev.update(prev.len() - 1, prev.last().push(c));
                assert(next.drop_last() =~= prev.drop_last());
            }
        }
        i += 1;
    }
    take_piece(cur.as_slice(), &mut bold, &mut italic, &mut colors);
    proof {
        assert(s@.take(s@.len() as int) =~= s@);
        let ps = comma_pieces(s@);
        assert(ps.drop_last().push(ps.last()) =~= ps);
    }
    proof {
        reveal(color_pair_of);
    }
    let fg = if colors.len() > 0 { parse_color(colors[0].as_slice()) } else { None };
    let bg = if colors.len() > 1 { parse_color(colors[1].as_slice()) } else { None };
    Some(ColorPair { bold, italic, fg, bg })
}

} // verus!
