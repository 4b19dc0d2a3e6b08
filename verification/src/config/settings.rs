//! The `set`/`unset NAME [ARG]` vocabulary of nanorc, shared by the nanorc
//! parser and by `~/.ticorc`'s `[main]` section (the same option names,
//! without the `set` keyword).

use crate::options::{color_pair_of, parse_color_pair, ColorPair, Options, OptionsView};
use crate::text::{parse_i32, parse_unsigned, push_str, signed_value, str_chars, str_eq, string_from_chars, unsigned_value};
use vstd::prelude::*;

verus! {

pub open spec fn opt_view(arg: Option<&str>) -> Option<Seq<char>> {
    match arg {
        Some(s) => Some(s@),
        None => None,
    }
}

/// The `u32` an argument holds, if it holds one.
pub open spec fn u32_arg(arg: Option<Seq<char>>) -> Option<u32> {
    match arg {
        Some(a) => match unsigned_value(a) {
            Some(n) => if n <= u32::MAX { Some(n as u32) } else { None },
            None => None,
        },
        None => None,
    }
}

/// The `i32` an argument holds, if it holds one.
pub open spec fn i32_arg(arg: Option<Seq<char>>) -> Option<i32> {
    match arg {
        Some(a) => match signed_value(a) {
            Some(n) => if i32::MIN <= n <= i32::MAX { Some(n as i32) } else { None },
            None => None,
        },
        None => None,
    }
}

/// The two characters `whitespace` shows tabs and spaces with: the first
/// two of an argument that has at least two, else the current ones.
pub open spec fn whitespace_arg(old: (char, char), arg: Option<Seq<char>>) -> (char, char) {
    match arg {
        Some(a) => if a.len() >= 2 { (a[0], a[1]) } else { old },
        None => old,
    }
}

/// The color an option's argument sets, if it has one.
pub open spec fn color_arg(old: ColorPair, arg: Option<Seq<char>>) -> ColorPair {
    match arg {
        Some(a) => color_pair_of(a),
        None => old,
    }
}

/// A nanorc option name.
#[derive(Debug, Clone, Copy, PartialEq, Eq, Structural)]
pub enum Setting {
    Afterends,
    AllowInsecureBackup,
    Atblanks,
    Autoindent,
    Backup,
    Boldtext,
    Bookstyle,
    Breaklonglines,
    Casesensitive,
    Colonparsing,
    Constantshow,
    Cutfromcursor,
    Emptyline,
    Historylog,
    Indicator,
    Jumpyscrolling,
    Linenumbers,
    Locking,
    Magic,
    Minibar,
    Mouse,
    Multibuffer,
    Noconvert,
    Nohelp,
    Nonewlines,
    Nowrap,
    Positionlog,
    Preserve,
    Quickblank,
    Rawsequences,
    Rebinddelete,
    Regexp,
    Saveonexit,
    Showcursor,
    Smarthome,
    Softwrap,
    Stateflags,
    Tabstospaces,
    Trimblanks,
    Unix,
    Wordbounds,
    Zap,
    Zero,
    SyntaxHighlighting,
    Backupdir,
    Brackets,
    Fill,
    Guidestripe,
    Matchbrackets,
    Operatingdir,
    Punct,
    Quotestr,
    Speller,
    Tabsize,
    Whitespace,
    Wordchars,
    Errorcolor,
    Functioncolor,
    Keycolor,
    Minicolor,
    Numbercolor,
    Promptcolor,
    Scrollercolor,
    Selectedcolor,
    Spotlightcolor,
    Statuscolor,
    Stripecolor,
    Titlecolor,
}

/// The option a name names.
pub open spec fn setting_of(name: Seq<char>) -> Option<Setting> {
    if name == "afterends"@ {
        Some(Setting::Afterends)
    } else if name == "allow_insecure_backup"@ {
        Some(Setting::AllowInsecureBackup)
    } else if name == "atblanks"@ {
        Some(Setting::Atblanks)
    } else if name == "autoindent"@ {
        Some(Setting::Autoindent)
    } else if name == "backup"@ {
        Some(Setting::Backup)
    } else if name == "boldtext"@ {
        Some(Setting::Boldtext)
    } else if name == "bookstyle"@ {
        Some(Setting::Bookstyle)
    } else if name == "breaklonglines"@ {
        Some(Setting::Breaklonglines)
    } else if name == "casesensitive"@ {
        Some(Setting::Casesensitive)
    } else if name == "colonparsing"@ {
        Some(Setting::Colonparsing)
    } else if name == "constantshow"@ {
        Some(Setting::Constantshow)
    } else if name == "cutfromcursor"@ {
        Some(Setting::Cutfromcursor)
    } else if name == "emptyline"@ {
        Some(Setting::Emptyline)
    } else if name == "historylog"@ {
        Some(Setting::Historylog)
    } else if name == "indicator"@ {
        Some(Setting::Indicator)
    } else if name == "jumpyscrolling"@ {
        Some(Setting::Jumpyscrolling)
    } else if name == "linenumbers"@ {
        Some(Setting::Linenumbers)
    } else if name == "locking"@ {
        Some(Setting::Locking)
    } else if name == "magic"@ {
        Some(Setting::Magic)
    } else if name == "minibar"@ {
        Some(Setting::Minibar)
    } else if name == "mouse"@ {
        Some(Setting::Mouse)
    } else if name == "multibuffer"@ {
        Some(Setting::Multibuffer)
    } else if name == "noconvert"@ {
        Some(Setting::Noconvert)
    } else if name == "nohelp"@ {
        Some(Setting::Nohelp)
    } else if name == "nonewlines"@ {
        Some(Setting::Nonewlines)
    } else if name == "nowrap"@ {
        Some(Setting::Nowrap)
    } else if name == "positionlog"@ {
        Some(Setting::Positionlog)
    } else if name == "preserve"@ {
        Some(Setting::Preserve)
    } else if name == "quickblank"@ {
        Some(Setting::Quickblank)
    } else if name == "rawsequences"@ {
        Some(Setting::Rawsequences)
    } else if name == "rebinddelete"@ {
        Some(Setting::Rebinddelete)
    } else if name == "regexp"@ {
        Some(Setting::Regexp)
    } else if name == "saveonexit"@ {
        Some(Setting::Saveonexit)
    } else if name == "showcursor"@ {
        Some(Setting::Showcursor)
    } else if name == "smarthome"@ {
        Some(Setting::Smarthome)
    } else if name == "softwrap"@ {
        Some(Setting::Softwrap)
    } else if name == "stateflags"@ {
        Some(Setting::Stateflags)
    } else if name == "tabstospaces"@ {
        Some(Setting::Tabstospaces)
    } else if name == "trimblanks"@ {
        Some(Setting::Trimblanks)
    } else if name == "unix"@ {
        Some(Setting::Unix)
    } else if name == "wordbounds"@ {
        Some(Setting::Wordbounds)
    } else if name == "zap"@ {
        Some(Setting::Zap)
    } else if name == "zero"@ {
        Some(Setting::Zero)
    } else if name == "syntax_highlighting"@ {
        Some(Setting::SyntaxHighlighting)
    } else if name == "backupdir"@ {
        Some(Setting::Backupdir)
    } else if name == "brackets"@ {
        Some(Setting::Brackets)
    } else if name == "fill"@ {
        Some(Setting::Fill)
    } else if name == "guidestripe"@ {
        Some(Setting::Guidestripe)
    } else if name == "matchbrackets"@ {
        Some(Setting::Matchbrackets)
    } else if name == "operatingdir"@ {
        Some(Setting::Operatingdir)
    } else if name == "punct"@ {
        Some(Setting::Punct)
    } else if name == "quotestr"@ {
        Some(Setting::Quotestr)
    } else if name == "speller"@ {
        Some(Setting::Speller)
    } else if name == "tabsize"@ {
        Some(Setting::Tabsize)
    } else if name == "whitespace"@ {
        Some(Setting::Whitespace)
    } else if name == "wordchars"@ {
        Some(Setting::Wordchars)
    } else if name == "errorcolor"@ {
        Some(Setting::Errorcolor)
    } else if name == "functioncolor"@ {
        Some(Setting::Functioncolor)
    } else if name == "keycolor"@ {
        Some(Setting::Keycolor)
    } else if name == "minicolor"@ {
        Some(Setting::Minicolor)
    } else if name == "numbercolor"@ {
        Some(Setting::Numbercolor)
    } else if name == "promptcolor"@ {
        Some(Setting::Promptcolor)
    } else if name == "scrollercolor"@ {
        Some(Setting::Scrollercolor)
    } else if name == "selectedcolor"@ {
        Some(Setting::Selectedcolor)
    } else if name == "spotlightcolor"@ {
        Some(Setting::Spotlightcolor)
    } else if name == "statuscolor"@ {
        Some(Setting::Statuscolor)
    } else if name == "stripecolor"@ {
        Some(Setting::Stripecolor)
    } else if name == "titlecolor"@ {
        Some(Setting::Titlecolor)
    } else {
        None
    }
}

/// The options `n` are `o` after a `set` (`enable`) or `unset` of `s`, with
/// the rest of the line `arg` for options that take a value: the option's
/// field takes its new value and every other field keeps its old one. Flags
/// take `enable`; a string option is set to the argument (options that can
/// be absent are cleared without one); a numeric option keeps its value
/// unless the argument is a number (a positive one, for the tab size);
/// `whitespace` takes the first two characters of an argument of at least
/// two; a color option takes the colors its argument names.
pub open spec fn set_setting(o: OptionsView, n: OptionsView, s: Setting, arg: Option<Seq<char>>, enable: bool) -> bool {
    &&& n.afterends == if s is Afterends { enable } else { o.afterends }
    &&& n.allow_insecure_backup == if s is AllowInsecureBackup { enable } else { o.allow_insecure_backup }
    &&& n.atblanks == if s is Atblanks { enable } else { o.atblanks }
    &&& n.autoindent == if s is Autoindent { enable } else { o.autoindent }
    &&& n.backup == if s is Backup { enable } else { o.backup }
    &&& n.boldtext == if s is Boldtext { enable } else { o.boldtext }
    &&& n.bookstyle == if s is Bookstyle { enable } else { o.bookstyle }
    &&& n.breaklonglines == if s is Breaklonglines { enable } else { o.breaklonglines }
    &&& n.casesensitive == if s is Casesensitive { enable } else { o.casesensitive }
    &&& n.colonparsing == if s is Colonparsing { enable } else { o.colonparsing }
    &&& n.constantshow == if s is Constantshow { enable } else { o.constantshow }
    &&& n.cutfromcursor == if s is Cutfromcursor { enable } else { o.cutfromcursor }
    &&& n.emptyline == if s is Emptyline { enable } else { o.emptyline }
    &&& n.historylog == if s is Historylog { enable } else { o.historylog }
    &&& n.indicator == if s is Indicator { enable } else { o.indicator }
    &&& n.jumpyscrolling == if s is Jumpyscrolling { enable } else { o.jumpyscrolling }
    &&& n.linenumbers == if s is Linenumbers { enable } else { o.linenumbers }
    &&& n.locking == if s is Locking { enable } else { o.locking }
    &&& n.magic == if s is Magic { enable } else { o.magic }
    &&& n.minibar == if s is Minibar { enable } else { o.minibar }
    &&& n.mouse == if s is Mouse { enable } else { o.mouse }
    &&& n.multibuffer == if s is Multibuffer { enable } else { o.multibuffer }
    &&& n.noconvert == if s is Noconvert { enable } else { o.noconvert }
    &&& n.nohelp == if s is Nohelp { enable } else { o.nohelp }
    &&& n.nonewlines == if s is Nonewlines { enable } else { o.nonewlines }
    &&& n.positionlog == if s is Positionlog { enable } else { o.positionlog }
    &&& n.preserve == if s is Preserve { enable } else { o.preserve }
    &&& n.quickblank == if s is Quickblank { enable } else { o.quickblank }
    &&& n.rawsequences == if s is Rawsequences { enable } else { o.rawsequences }
    &&& n.rebinddelete == if s is Rebinddelete { enable } else { o.rebinddelete }
    &&& n.regexp == if s is Regexp { enable } else { o.regexp }
    &&& n.saveonexit == if s is Saveonexit { enable } else { o.saveonexit }
    &&& n.showcursor == if s is Showcursor { enable } else { o.showcursor }
    &&& n.smarthome == if s is Smarthome { enable } else { o.smarthome }
    &&& n.softwrap == if s is Softwrap { enable } else { o.softwrap }
    &&& n.stateflags == if s is Stateflags { enable } else { o.stateflags }
    &&& n.tabstospaces == if s is Tabstospaces { enable } else { o.tabstospaces }
    &&& n.trimblanks == if s is Trimblanks { enable } else { o.trimblanks }
    &&& n.unix == if s is Unix { enable } else { o.unix }
    &&& n.wordbounds == if s is Wordbounds { enable } else { o.wordbounds }
    &&& n.zap == if s is Zap { enable } else { o.zap }
    &&& n.zero == if s is Zero { enable } else { o.zero }
    &&& n.syntax_highlighting == if s is SyntaxHighlighting { enable } else { o.syntax_highlighting }
    &&& n.backupdir == if s is Backupdir { arg } else { o.backupdir }
    &&& n.brackets == if s is Brackets { match arg { Some(a) => a, None => o.brackets } } else { o.brackets }
    &&& n.fill == if s is Fill { match i32_arg(arg) { Some(n) => n, None => o.fill } } else { o.fill }
    &&& n.guidestripe == if s is Guidestripe { u32_arg(arg) } else { o.guidestripe }
    &&& n.matchbrackets == if s is Matchbrackets { match arg { Some(a) => a, None => o.matchbrackets } } else { o.matchbrackets }
    &&& n.operatingdir == if s is Operatingdir { arg } else { o.operatingdir }
    &&& n.punct == if s is Punct { match arg { Some(a) => a, None => o.punct } } else { o.punct }
    &&& n.quotestr == if s is Quotestr { match arg { Some(a) => a, None => o.quotestr } } else { o.quotestr }
    &&& n.speller == if s is Speller { arg } else { o.speller }
    &&& n.tabsize == if s is Tabsize { match u32_arg(arg) { Some(n) => if n > 0 { n } else { o.tabsize }, None => o.tabsize } } else { o.tabsize }
    &&& n.wordchars == if s is Wordchars { arg } else { o.wordchars }
    &&& n.whitespace == if s is Whitespace { whitespace_arg(o.whitespace, arg) } else { o.whitespace }
    &&& n.errorcolor == if s is Errorcolor { color_arg(o.errorcolor, arg) } else { o.errorcolor }
    &&& n.functioncolor == if s is Functioncolor { color_arg(o.functioncolor, arg) } else { o.functioncolor }
    &&& n.keycolor == if s is Keycolor { color_arg(o.keycolor, arg) } else { o.keycolor }
    &&& n.minicolor == if s is Minicolor { color_arg(o.minicolor, arg) } else { o.minicolor }
    &&& n.numbercolor == if s is Numbercolor { color_arg(o.numbercolor, arg) } else { o.numbercolor }
    &&& n.promptcolor == if s is Promptcolor { color_arg(o.promptcolor, arg) } else { o.promptcolor }
    &&& n.scrollercolor == if s is Scrollercolor { color_arg(o.scrollercolor, arg) } else { o.scrollercolor }
    &&& n.selectedcolor == if s is Selectedcolor { color_arg(o.selectedcolor, arg) } else { o.selectedcolor }
    &&& n.spotlightcolor == if s is Spotlightcolor { color_arg(o.spotlightcolor, arg) } else { o.spotlightcolor }
    &&& n.statuscolor == if s is Statuscolor { color_arg(o.statuscolor, arg) } else { o.statuscolor }
    &&& n.stripecolor == if s is Stripecolor { color_arg(o.stripecolor, arg) } else { o.stripecolor }
    &&& n.titlecolor == if s is Titlecolor { color_arg(o.titlecolor, arg) } else { o.titlecolor }
    &&& n.restricted == o.restricted
    &&& n.view == o.view
    &&& n.nowrap == if s is Nowrap { enable } else { o.nowrap }
    &&& n.ignorercfiles == o.ignorercfiles
    &&& n.modernbindings == o.modernbindings
    &&& n.syntax_name == o.syntax_name
    &&& n.rcfile == o.rcfile
    &&& n.max_syntax_highlight_bytes == o.max_syntax_highlight_bytes
    &&& n.theme == o.theme
    &&& n.language_themes == o.language_themes
}

fn setting_named(name: &str) -> (r: Option<Setting>)
    ensures
        r == setting_of(name@),
{
    if str_eq(name, "afterends") {
        return Some(Setting::Afterends);
    }
    if str_eq(name, "allow_insecure_backup") {
        return Some(Setting::AllowInsecureBackup);
    }
    if str_eq(name, "atblanks") {
        return Some(Setting::Atblanks);
    }
    if str_eq(name, "autoindent") {
        return Some(Setting::Autoindent);
    }
    if str_eq(name, "backup") {
        return Some(Setting::Backup);
    }
    if str_eq(name, "boldtext") {
        return Some(Setting::Boldtext);
    }
    if str_eq(name, "bookstyle") {
        return Some(Setting::Bookstyle);
    }
    if str_eq(name, "breaklonglines") {
        return Some(Setting::Breaklonglines);
    }
    if str_eq(name, "casesensitive") {
        return Some(Setting::Casesensitive);
    }
    if str_eq(name, "colonparsing") {
        return Some(Setting::Colonparsing);
    }
    if str_eq(name, "constantshow") {
        return Some(Setting::Constantshow);
    }
    if str_eq(name, "cutfromcursor") {
        return Some(Setting::Cutfromcursor);
    }
    if str_eq(name, "emptyline") {
        return Some(Setting::Emptyline);
    }
    if str_eq(name, "historylog") {
        return Some(Setting::Historylog);
    }
    if str_eq(name, "indicator") {
        return Some(Setting::Indicator);
    }
    if str_eq(name, "jumpyscrolling") {
        return Some(Setting::Jumpyscrolling);
    }
    if str_eq(name, "linenumbers") {
        return Some(Setting::Linenumbers);
    }
    if str_eq(name, "locking") {
        return Some(Setting::Locking);
    }
    if str_eq(name, "magic") {
        return Some(Setting::Magic);
    }
    if str_eq(name, "minibar") {
        return Some(Setting::Minibar);
    }
    if str_eq(name, "mouse") {
        return Some(Setting::Mouse);
    }
    if str_eq(name, "multibuffer") {
        return Some(Setting::Multibuffer);
    }
    if str_eq(name, "noconvert") {
        return Some(Setting::Noconvert);
    }
    if str_eq(name, "nohelp") {
        return Some(Setting::Nohelp);
    }
    if str_eq(name, "nonewlines") {
        return Some(Setting::Nonewlines);
    }
    if str_eq(name, "nowrap") {
        return Some(Setting::Nowrap);
    }
    if str_eq(name, "positionlog") {
        return Some(Setting::Positionlog);
    }
    if str_eq(name, "preserve") {
        return Some(Setting::Preserve);
    }
    if str_eq(name, "quickblank") {
        return Some(Setting::Quickblank);
    }
    if str_eq(name, "rawsequences") {
        return Some(Setting::Rawsequences);
    }
    if str_eq(name, "rebinddelete") {
        return Some(Setting::Rebinddelete);
    }
    if str_eq(name, "regexp") {
        return Some(Setting::Regexp);
    }
    if str_eq(name, "saveonexit") {
        return Some(Setting::Saveonexit);
    }
    if str_eq(name, "showcursor") {
        return Some(Setting::Showcursor);
    }
    if str_eq(name, "smarthome") {
        return Some(Setting::Smarthome);
    }
    if str_eq(name, "softwrap") {
        return Some(Setting::Softwrap);
    }
    if str_eq(name, "stateflags") {
        return Some(Setting::Stateflags);
    }
    if str_eq(name, "tabstospaces") {
        return Some(Setting::Tabstospaces);
    }
    if str_eq(name, "trimblanks") {
        return Some(Setting::Trimblanks);
    }
    if str_eq(name, "unix") {
        return Some(Setting::Unix);
    }
    if str_eq(name, "wordbounds") {
        return Some(Setting::Wordbounds);
    }
    if str_eq(name, "zap") {
        return Some(Setting::Zap);
    }
    if str_eq(name, "zero") {
        return Some(Setting::Zero);
    }
    if str_eq(name, "syntax_highlighting") {
        return Some(Setting::SyntaxHighlighting);
    }
    if str_eq(name, "backupdir") {
        return Some(Setting::Backupdir);
    }
    if str_eq(name, "brackets") {
        return Some(Setting::Brackets);
    }
    if str_eq(name, "fill") {
        return Some(Setting::Fill);
    }
    if str_eq(name, "guidestripe") {
        return Some(Setting::Guidestripe);
    }
    if str_eq(name, "matchbrackets") {
        return Some(Setting::Matchbrackets);
    }
    if str_eq(name, "operatingdir") {
        return Some(Setting::Operatingdir);
    }
    if str_eq(name, "punct") {
        return Some(Setting::Punct);
    }
    if str_eq(name, "quotestr") {
        return Some(Setting::Quotestr);
    }
    if str_eq(name, "speller") {
        return Some(Setting::Speller);
    }
    if str_eq(name, "tabsize") {
        return Some(Setting::Tabsize);
    }
    if str_eq(name, "whitespace") {
        return Some(Setting::Whitespace);
    }
    if str_eq(name, "wordchars") {
        return Some(Setting::Wordchars);
    }
    if str_eq(name, "errorcolor") {
        return Some(Setting::Errorcolor);
    }
    if str_eq(name, "functioncolor") {
        return Some(Setting::Functioncolor);
    }
    if str_eq(name, "keycolor") {
        return Some(Setting::Keycolor);
    }
    if str_eq(name, "minicolor") {
        return Some(Setting::Minicolor);
    }
    if str_eq(name, "numbercolor") {
        return Some(Setting::Numbercolor);
    }
    if str_eq(name, "promptcolor") {
        return Some(Setting::Promptcolor);
    }
    if str_eq(name, "scrollercolor") {
        return Some(Setting::Scrollercolor);
    }
    if str_eq(name, "selectedcolor") {
        return Some(Setting::Selectedcolor);
    }
    if str_eq(name, "spotlightcolor") {
        return Some(Setting::Spotlightcolor);
    }
    if str_eq(name, "statuscolor") {
        return Some(Setting::Statuscolor);
    }
    if str_eq(name, "stripecolor") {
        return Some(Setting::Stripecolor);
    }
    if str_eq(name, "titlecolor") {
        return Some(Setting::Titlecolor);
    }
    None
}

fn text_arg(arg: Option<&str>) -> (r: Option<String>)
    ensures
        crate::options::opt_text(r) == opt_view(arg),
{
    match arg {
        Some(s) => Some(string_from_chars(str_chars(s).as_slice())),
        None => None,
    }
}

fn u32_of(arg: Option<&str>) -> (r: Option<u32>)
    ensures
        r == u32_arg(opt_view(arg)),
{
    match arg {
        Some(s) => match parse_unsigned(str_chars(s).as_slice(), 4294967295) {
            Some(n) => Some(n as u32),
            None => None,
        },
        None => None,
    }
}

fn i32_of(arg: Option<&str>) -> (r: Option<i32>)
    ensures
        r == i32_arg(opt_view(arg)),
{
    match arg {
        Some(s) => parse_i32(str_chars(s).as_slice()),
        None => None,
    }
}

fn error_message(prefix: &str, what: &str) -> (s: String)
    ensures
        s@ == prefix@ + what@,
{
    let mut out: Vec<char> = Vec::new();
    push_str(&mut out, prefix);
    push_str(&mut out, what);
    string_from_chars(out.as_slice())
}

fn color_setting(old: ColorPair, arg: Option<&str>) -> (r: ColorPair)
    ensures
        r == color_arg(old, opt_view(arg)),
{
    match arg {
        Some(v) => match parse_color_pair(v) {
            Some(cp) => cp,
            None => old,
        },
        None => old,
    }
}

/// Whether `s` is a plain on/off flag.
pub open spec fn is_flag(s: Setting) -> bool {
    s is Afterends || s is AllowInsecureBackup || s is Atblanks || s is Autoindent || s is Backup || s is Boldtext || s is Bookstyle || s is Breaklonglines || s is Casesensitive || s is Colonparsing || s is Constantshow || s is Cutfromcursor || s is Emptyline || s is Historylog || s is Indicator || s is Jumpyscrolling || s is Linenumbers || s is Locking || s is Magic || s is Minibar || s is Mouse || s is Multibuffer || s is Noconvert || s is Nohelp || s is Nonewlines || s is Nowrap || s is Positionlog || s is Preserve || s is Quickblank || s is Rawsequences || s is Rebinddelete || s is Regexp || s is Saveonexit || s is Showcursor || s is Smarthome || s is Softwrap || s is Stateflags || s is Tabstospaces || s is Trimblanks || s is Unix || s is Wordbounds || s is Zap || s is Zero || s is SyntaxHighlighting
}

/// Whether `s` is a color option.
pub open spec fn is_color(s: Setting) -> bool {
    s is Errorcolor || s is Functioncolor || s is Keycolor || s is Minicolor || s is Numbercolor || s is Promptcolor || s is Scrollercolor || s is Selectedcolor || s is Spotlightcolor || s is Statuscolor || s is Stripecolor || s is Titlecolor
}

fn set_afterends(options: &mut Options, enable: bool)
    ensures
        set_setting(old(options)@, final(options)@, Setting::Afterends, None, enable),
{
    options.afterends = enable;
}

fn set_allow_insecure_backup(options: &mut Options, enable: bool)
    ensures
        set_setting(old(options)@, final(options)@, Setting::AllowInsecureBackup, None, enable),
{
    options.allow_insecure_backup = enable;
}

fn set_atblanks(options: &mut Options, enable: bool)
    ensures
        set_setting(old(options)@, final(options)@, Setting::Atblanks, None, enable),
{
    options.atblanks = enable;
}

fn set_autoindent(options: &mut Options, enable: bool)
    ensures
        set_setting(old(options)@, final(options)@, Setting::Autoindent, None, enable),
{
    options.autoindent = enable;
}

fn set_backup(options: &mut Options, enable: bool)
    ensures
        set_setting(old(options)@, final(options)@, Setting::Backup, None, enable),
{
    options.backup = enable;
}

fn set_boldtext(options: &mut Options, enable: bool)
    ensures
        set_setting(old(options)@, final(options)@, Setting::Boldtext, None, enable),
{
    options.boldtext = enable;
}

fn set_bookstyle(options: &mut Options, enable: bool)
    ensures
        set_setting(old(options)@, final(options)@, Setting::Bookstyle, None, enable),
{
    options.bookstyle = enable;
}

fn set_breaklonglines(options: &mut Options, enable: bool)
    ensures
        set_setting(old(options)@, final(options)@, Setting::Breaklonglines, None, enable),
{
    options.breaklonglines = enable;
}

fn set_casesensitive(options: &mut Options, enable: bool)
    ensures
        set_setting(old(options)@, final(options)@, Setting::Casesensitive, None, enable),
{
    options.casesensitive = enable;
}

fn set_colonparsing(options: &mut Options, enable: bool)
    ensures
        set_setting(old(options)@, final(options)@, Setting::Colonparsing, None, enable),
{
    options.colonparsing = enable;
}

fn set_constantshow(options: &mut Options, enable: bool)
    ensures
        set_setting(old(options)@, final(options)@, Setting::Constantshow, None, enable),
{
    options.constantshow = enable;
}

fn set_cutfromcursor(options: &mut Options, enable: bool)
    ensures
        set_setting(old(options)@, final(options)@, Setting::Cutfromcursor, None, enable),
{
    options.cutfromcursor = enable;
}

fn set_emptyline(options: &mut Options, enable: bool)
    ensures
        set_setting(old(options)@, final(options)@, Setting::Emptyline, None, enable),
{
    options.emptyline = enable;
}

fn set_historylog(options: &mut Options, enable: bool)
    ensures
        set_setting(old(options)@, final(options)@, Setting::Historylog, None, enable),
{
    options.historylog = enable;
}

fn set_indicator(options: &mut Options, enable: bool)
    ensures
        set_setting(old(options)@, final(options)@, Setting::Indicator, None, enable),
{
    options.indicator = enable;
}

fn set_jumpyscrolling(options: &mut Options, enable: bool)
    ensures
        set_setting(old(options)@, final(options)@, Setting::Jumpyscrolling, None, enable),
{
    options.jumpyscrolling = enable;
}

fn set_linenumbers(options: &mut Options, enable: bool)
    ensures
        set_setting(old(options)@, final(options)@, Setting::Linenumbers, None, enable),
{
    options.linenumbers = enable;
}

fn set_locking(options: &mut Options, enable: bool)
    ensures
        set_setting(old(options)@, final(options)@, Setting::Locking, None, enable),
{
    options.locking = enable;
}

fn set_magic(options: &mut Options, enable: bool)
    ensures
        set_setting(old(options)@, final(options)@, Setting::Magic, None, enable),
{
    options.magic = enable;
}

fn set_minibar(options: &mut Options, enable: bool)
    ensures
        set_setting(old(options)@, final(options)@, Setting::Minibar, None, enable),
{
    options.minibar = enable;
}

fn set_mouse(options: &mut Options, enable: bool)
    ensures
        set_setting(old(options)@, final(options)@, Setting::Mouse, None, enable),
{
    options.mouse = enable;
}

fn set_multibuffer(options: &mut Options, enable: bool)
    ensures
        set_setting(old(options)@, final(options)@, Setting::Multibuffer, None, enable),
{
    options.multibuffer = enable;
}

fn set_noconvert(options: &mut Options, enable: bool)
    ensures
        set_setting(old(options)@, final(options)@, Setting::Noconvert, None, enable),
{
    options.noconvert = enable;
}

fn set_nohelp(options: &mut Options, enable: bool)
    ensures
        set_setting(old(options)@, final(options)@, Setting::Nohelp, None, enable),
{
    options.nohelp = enable;
}

fn set_nonewlines(options: &mut Options, enable: bool)
    ensures
        set_setting(old(options)@, final(options)@, Setting::Nonewlines, None, enable),
{
    options.nonewlines = enable;
}

fn set_nowrap(options: &mut Options, enable: bool)
    ensures
        set_setting(old(options)@, final(options)@, Setting::Nowrap, None, enable),
{
    options.nowrap = enable;
}

fn set_positionlog(options: &mut Options, enable: bool)
    ensures
        set_setting(old(options)@, final(options)@, Setting::Positionlog, None, enable),
{
    options.positionlog = enable;
}

fn set_preserve(options: &mut Options, enable: bool)
    ensures
        set_setting(old(options)@, final(options)@, Setting::Preserve, None, enable),
{
    options.preserve = enable;
}

fn set_quickblank(options: &mut Options, enable: bool)
    ensures
        set_setting(old(options)@, final(options)@, Setting::Quickblank, None, enable),
{
    options.quickblank = enable;
}

fn set_rawsequences(options: &mut Options, enable: bool)
    ensures
        set_setting(old(options)@, final(options)@, Setting::Rawsequences, None, enable),
{
    options.rawsequences = enable;
}

fn set_rebinddelete(options: &mut Options, enable: bool)
    ensures
        set_setting(old(options)@, final(options)@, Setting::Rebinddelete, None, enable),
{
    options.rebinddelete = enable;
}

fn set_regexp(options: &mut Options, enable: bool)
    ensures
        set_setting(old(options)@, final(options)@, Setting::Regexp, None, enable),
{
    options.regexp = enable;
}

fn set_saveonexit(options: &mut Options, enable: bool)
    ensures
        set_setting(old(options)@, final(options)@, Setting::Saveonexit, None, enable),
{
    options.saveonexit = enable;
}

fn set_showcursor(options: &mut Options, enable: bool)
    ensures
        set_setting(old(options)@, final(options)@, Setting::Showcursor, None, enable),
{
    options.showcursor = enable;
}

fn set_smarthome(options: &mut Options, enable: bool)
    ensures
        set_setting(old(options)@, final(options)@, Setting::Smarthome, None, enable),
{
    options.smarthome = enable;
}

fn set_softwrap(options: &mut Options, enable: bool)
    ensures
        set_setting(old(options)@, final(options)@, Setting::Softwrap, None, enable),
{
    options.softwrap = enable;
}

fn set_stateflags(options: &mut Options, enable: bool)
    ensures
        set_setting(old(options)@, final(options)@, Setting::Stateflags, None, enable),
{
    options.stateflags = enable;
}

fn set_tabstospaces(options: &mut Options, enable: bool)
    ensures
        set_setting(old(options)@, final(options)@, Setting::Tabstospaces, None, enable),
{
    options.tabstospaces = enable;
}

fn set_trimblanks(options: &mut Options, enable: bool)
    ensures
        set_setting(old(options)@, final(options)@, Setting::Trimblanks, None, enable),
{
    options.trimblanks = enable;
}

fn set_unix(options: &mut Options, enable: bool)
    ensures
        set_setting(old(options)@, final(options)@, Setting::Unix, None, enable),
{
    options.unix = enable;
}

fn set_wordbounds(options: &mut Options, enable: bool)
    ensures
        set_setting(old(options)@, final(options)@, Setting::Wordbounds, None, enable),
{
    options.wordbounds = enable;
}

fn set_zap(options: &mut Options, enable: bool)
    ensures
        set_setting(old(options)@, final(options)@, Setting::Zap, None, enable),
{
    options.zap = enable;
}

fn set_zero(options: &mut Options, enable: bool)
    ensures
        set_setting(old(options)@, final(options)@, Setting::Zero, None, enable),
{
    options.zero = enable;
}

fn set_syntax_highlighting(options: &mut Options, enable: bool)
    ensures
        set_setting(old(options)@, final(options)@, Setting::SyntaxHighlighting, None, enable),
{
    options.syntax_highlighting = enable;
}

fn set_errorcolor(options: &mut Options, arg: Option<&str>)
    ensures
        set_setting(old(options)@, final(options)@, Setting::Errorcolor, opt_view(arg), true),
{
    let c = color_setting(options.errorcolor, arg);
    assert(c == color_arg(options.errorcolor, opt_view(arg)));
    options.errorcolor = c;
    assert(options@.errorcolor == color_arg(old(options)@.errorcolor, opt_view(arg)));
    assert(options@.keycolor == old(options)@.keycolor);
}

fn set_functioncolor(options: &mut Options, arg: Option<&str>)
    ensures
        set_setting(old(options)@, final(options)@, Setting::Functioncolor, opt_view(arg), true),
{
    let c = color_setting(options.functioncolor, arg);
    assert(c == color_arg(options.functioncolor, opt_view(arg)));
    options.functioncolor = c;
    assert(options@.functioncolor == color_arg(old(options)@.functioncolor, opt_view(arg)));
    assert(options@.keycolor == old(options)@.keycolor);
}

fn set_keycolor(options: &mut Options, arg: Option<&str>)
    ensures
        set_setting(old(options)@, final(options)@, Setting::Keycolor, opt_view(arg), true),
{
    let c = color_setting(options.keycolor, arg);
    assert(c == color_arg(options.keycolor, opt_view(arg)));
    options.keycolor = c;
    assert(options@.keycolor == color_arg(old(options)@.keycolor, opt_view(arg)));
    assert(options@.errorcolor == old(options)@.errorcolor);
}

fn set_minicolor(options: &mut Options, arg: Option<&str>)
    ensures
        set_setting(old(options)@, final(options)@, Setting::Minicolor, opt_view(arg), true),
{
    let c = color_setting(options.minicolor, arg);
    assert(c == color_arg(options.minicolor, opt_view(arg)));
    options.minicolor = c;
    assert(options@.minicolor == color_arg(old(options)@.minicolor, opt_view(arg)));
    assert(options@.keycolor == old(options)@.keycolor);
}

fn set_numbercolor(options: &mut Options, arg: Option<&str>)
    ensures
        set_setting(old(options)@, final(options)@, Setting::Numbercolor, opt_view(arg), true),
{
    let c = color_setting(options.numbercolor, arg);
    assert(c == color_arg(options.numbercolor, opt_view(arg)));
    options.numbercolor = c;
    assert(options@.numbercolor == color_arg(old(options)@.numbercolor, opt_view(arg)));
    assert(options@.keycolor == old(options)@.keycolor);
}

fn set_promptcolor(options: &mut Options, arg: Option<&str>)
    ensures
        set_setting(old(options)@, final(options)@, Setting::Promptcolor, opt_view(arg), true),
{
    let c = color_setting(options.promptcolor, arg);
    assert(c == color_arg(options.promptcolor, opt_view(arg)));
    options.promptcolor = c;
    assert(options@.promptcolor == color_arg(old(options)@.promptcolor, opt_view(arg)));
    assert(options@.keycolor == old(options)@.keycolor);
}

fn set_scrollercolor(options: &mut Options, arg: Option<&str>)
    ensures
        set_setting(old(options)@, final(options)@, Setting::Scrollercolor, opt_view(arg), true),
{
    let c = color_setting(options.scrollercolor, arg);
    assert(c == color_arg(options.scrollercolor, opt_view(arg)));
    options.scrollercolor = c;
    assert(options@.scrollercolor == color_arg(old(options)@.scrollercolor, opt_view(arg)));
    assert(options@.keycolor == old(options)@.keycolor);
}

fn set_selectedcolor(options: &mut Options, arg: Option<&str>)
    ensures
        set_setting(old(options)@, final(options)@, Setting::Selectedcolor, opt_view(arg), true),
{
    let c = color_setting(options.selectedcolor, arg);
    assert(c == color_arg(options.selectedcolor, opt_view(arg)));
    options.selectedcolor = c;
    assert(options@.selectedcolor == color_arg(old(options)@.selectedcolor, opt_view(arg)));
    assert(options@.keycolor == old(options)@.keycolor);
}

fn set_spotlightcolor(options: &mut Options, arg: Option<&str>)
    ensures
        set_setting(old(options)@, final(options)@, Setting::Spotlightcolor, opt_view(arg), true),
{
    let c = color_setting(options.spotlightcolor, arg);
    assert(c == color_arg(options.spotlightcolor, opt_view(arg)));
    options.spotlightcolor = c;
    assert(options@.spotlightcolor == color_arg(old(options)@.spotlightcolor, opt_view(arg)));
    assert(options@.keycolor == old(options)@.keycolor);
}

fn set_statuscolor(options: &mut Options, arg: Option<&str>)
    ensures
        set_setting(old(options)@, final(options)@, Setting::Statuscolor, opt_view(arg), true),
{
    let c = color_setting(options.statuscolor, arg);
    assert(c == color_arg(options.statuscolor, opt_view(arg)));
    options.statuscolor = c;
    assert(options@.statuscolor == color_arg(old(options)@.statuscolor, opt_view(arg)));
    assert(options@.keycolor == old(options)@.keycolor);
}

fn set_stripecolor(options: &mut Options, arg: Option<&str>)
    ensures
        set_setting(old(options)@, final(options)@, Setting::Stripecolor, opt_view(arg), true),
{
    let c = color_setting(options.stripecolor, arg);
    assert(c == color_arg(options.stripecolor, opt_view(arg)));
    options.stripecolor = c;
    assert(options@.stripecolor == color_arg(old(options)@.stripecolor, opt_view(arg)));
    assert(options@.keycolor == old(options)@.keycolor);
}

fn set_titlecolor(options: &mut Options, arg: Option<&str>)
    ensures
        set_setting(old(options)@, final(options)@, Setting::Titlecolor, opt_view(arg), true),
{
    let c = color_setting(options.titlecolor, arg);
    assert(c == color_arg(options.titlecolor, opt_view(arg)));
    options.titlecolor = c;
    assert(options@.titlecolor == color_arg(old(options)@.titlecolor, opt_view(arg)));
    assert(options@.keycolor == old(options)@.keycolor);
}

fn set_backupdir(options: &mut Options, arg: Option<&str>)
    ensures
        set_setting(old(options)@, final(options)@, Setting::Backupdir, opt_view(arg), true),
{
    options.backupdir = text_arg(arg);
}

fn set_guidestripe(options: &mut Options, arg: Option<&str>)
    ensures
        set_setting(old(options)@, final(options)@, Setting::Guidestripe, opt_view(arg), true),
{
    options.guidestripe = u32_of(arg);
}

fn set_operatingdir(options: &mut Options, arg: Option<&str>)
    ensures
        set_setting(old(options)@, final(options)@, Setting::Operatingdir, opt_view(arg), true),
{
    options.operatingdir = text_arg(arg);
}

fn set_speller(options: &mut Options, arg: Option<&str>)
    ensures
        set_setting(old(options)@, final(options)@, Setting::Speller, opt_view(arg), true),
{
    options.speller = text_arg(arg);
}

fn set_wordchars(options: &mut Options, arg: Option<&str>)
    ensures
        set_setting(old(options)@, final(options)@, Setting::Wordchars, opt_view(arg), true),
{
    options.wordchars = text_arg(arg);
}

fn set_brackets(options: &mut Options, arg: Option<&str>)
    ensures
        set_setting(old(options)@, final(options)@, Setting::Brackets, opt_view(arg), true),
{
    if let Some(v) = arg {
        options.brackets = string_from_chars(str_chars(v).as_slice());
    }
}

fn set_fill(options: &mut Options, arg: Option<&str>)
    ensures
        set_setting(old(options)@, final(options)@, Setting::Fill, opt_view(arg), true),
{
    if let Some(v) = i32_of(arg) {
        options.fill = v;
    }
}

fn set_matchbrackets(options: &mut Options, arg: Option<&str>)
    ensures
        set_setting(old(options)@, final(options)@, Setting::Matchbrackets, opt_view(arg), true),
{
    if let Some(v) = arg {
        options.matchbrackets = string_from_chars(str_chars(v).as_slice());
    }
}

fn set_punct(options: &mut Options, arg: Option<&str>)
    ensures
        set_setting(old(options)@, final(options)@, Setting::Punct, opt_view(arg), true),
{
    if let Some(v) = arg {
        options.punct = string_from_chars(str_chars(v).as_slice());
    }
}

fn set_quotestr(options: &mut Options, arg: Option<&str>)
    ensures
        set_setting(old(options)@, final(options)@, Setting::Quotestr, opt_view(arg), true),
{
    if let Some(v) = arg {
        options.quotestr = string_from_chars(str_chars(v).as_slice());
    }
}

fn set_tabsize(options: &mut Options, arg: Option<&str>)
    ensures
        set_setting(old(options)@, final(options)@, Setting::Tabsize, opt_view(arg), true),
{
    if let Some(v) = u32_of(arg) {
        if v > 0 {
            options.tabsize = v;
        }
    }
}

fn set_whitespace(options: &mut Options, arg: Option<&str>)
    ensures
        set_setting(old(options)@, final(options)@, Setting::Whitespace, opt_view(arg), true),
{
    if let Some(v) = arg {
        let cs = str_chars(v);
        if cs.len() >= 2 {
            options.whitespace = (cs[0], cs[1]);
        }
    }
}

fn is_flag_exec(s: Setting) -> (r: bool)
    ensures
        r == is_flag(s),
{
    match s {
        Setting::Afterends => true,
        Setting::AllowInsecureBackup => true,
        Setting::Atblanks => true,
        Setting::Autoindent => true,
        Setting::Backup => true,
        Setting::Boldtext => true,
        Setting::Bookstyle => true,
        Setting::Breaklonglines => true,
        Setting::Casesensitive => true,
        Setting::Colonparsing => true,
        Setting::Constantshow => true,
        Setting::Cutfromcursor => true,
        Setting::Emptyline => true,
        Setting::Historylog => true,
        Setting::Indicator => true,
        Setting::Jumpyscrolling => true,
        Setting::Linenumbers => true,
        Setting::Locking => true,
        Setting::Magic => true,
        Setting::Minibar => true,
        Setting::Mouse => true,
        Setting::Multibuffer => true,
        Setting::Noconvert => true,
        Setting::Nohelp => true,
        Setting::Nonewlines => true,
        Setting::Nowrap => true,
        Setting::Positionlog => true,
        Setting::Preserve => true,
        Setting::Quickblank => true,
        Setting::Rawsequences => true,
        Setting::Rebinddelete => true,
        Setting::Regexp => true,
        Setting::Saveonexit => true,
        Setting::Showcursor => true,
        Setting::Smarthome => true,
        Setting::Softwrap => true,
        Setting::Stateflags => true,
        Setting::Tabstospaces => true,
        Setting::Trimblanks => true,
        Setting::Unix => true,
        Setting::Wordbounds => true,
        Setting::Zap => true,
        Setting::Zero => true,
        Setting::SyntaxHighlighting => true,
        _ => false,
    }
}

fn is_color_exec(s: Setting) -> (r: bool)
    ensures
        r == is_color(s),
{
    match s {
        Setting::Errorcolor => true,
        Setting::Functioncolor => true,
        Setting::Keycolor => true,
        Setting::Minicolor => true,
        Setting::Numbercolor => true,
        Setting::Promptcolor => true,
        Setting::Scrollercolor => true,
        Setting::Selectedcolor => true,
        Setting::Spotlightcolor => true,
        Setting::Statuscolor => true,
        Setting::Stripecolor => true,
        Setting::Titlecolor => true,
        _ => false,
    }
}

/// Turn the on/off setting `s` on (`enable`) or off.
pub(crate) fn apply_flag(options: &mut Options, s: Setting, enable: bool)
    requires
        is_flag(s),
    ensures
        set_setting(old(options)@, final(options)@, s, None, enable),
{
    match s {
        Setting::Afterends => set_afterends(options, enable),
        Setting::AllowInsecureBackup => set_allow_insecure_backup(options, enable),
        Setting::Atblanks => set_atblanks(options, enable),
        Setting::Autoindent => set_autoindent(options, enable),
        Setting::Backup => set_backup(options, enable),
        Setting::Boldtext => set_boldtext(options, enable),
        Setting::Bookstyle => set_bookstyle(options, enable),
        Setting::Breaklonglines => set_breaklonglines(options, enable),
        Setting::Casesensitive => set_casesensitive(options, enable),
        Setting::Colonparsing => set_colonparsing(options, enable),
        Setting::Constantshow => set_constantshow(options, enable),
        Setting::Cutfromcursor => set_cutfromcursor(options, enable),
        Setting::Emptyline => set_emptyline(options, enable),
        Setting::Historylog => set_historylog(options, enable),
        Setting::Indicator => set_indicator(options, enable),
        Setting::Jumpyscrolling => set_jumpyscrolling(options, enable),
        Setting::Linenumbers => set_linenumbers(options, enable),
        Setting::Locking => set_locking(options, enable),
        Setting::Magic => set_magic(options, enable),
        Setting::Minibar => set_minibar(options, enable),
        Setting::Mouse => set_mouse(options, enable),
        Setting::Multibuffer => set_multibuffer(options, enable),
        Setting::Noconvert => set_noconvert(options, enable),
        Setting::Nohelp => set_nohelp(options, enable),
        Setting::Nonewlines => set_nonewlines(options, enable),
        Setting::Nowrap => set_nowrap(options, enable),
        Setting::Positionlog => set_positionlog(options, enable),
        Setting::Preserve => set_preserve(options, enable),
        Setting::Quickblank => set_quickblank(options, enable),
        Setting::Rawsequences => set_rawsequences(options, enable),
        Setting::Rebinddelete => set_rebinddelete(options, enable),
        Setting::Regexp => set_regexp(options, enable),
        Setting::Saveonexit => set_saveonexit(options, enable),
        Setting::Showcursor => set_showcursor(options, enable),
        Setting::Smarthome => set_smarthome(options, enable),
        Setting::Softwrap => set_softwrap(options, enable),
        Setting::Stateflags => set_stateflags(options, enable),
        Setting::Tabstospaces => set_tabstospaces(options, enable),
        Setting::Trimblanks => set_trimblanks(options, enable),
        Setting::Unix => set_unix(options, enable),
        Setting::Wordbounds => set_wordbounds(options, enable),
        Setting::Zap => set_zap(options, enable),
        Setting::Zero => set_zero(options, enable),
        Setting::SyntaxHighlighting => set_syntax_highlighting(options, enable),
        _ => {},
    }
}

fn apply_color(options: &mut Options, s: Setting, arg: Option<&str>)
    requires
        is_color(s),
    ensures
        set_setting(old(options)@, final(options)@, s, opt_view(arg), true),
{
    match s {
        Setting::Errorcolor => set_errorcolor(options, arg),
        Setting::Functioncolor => set_functioncolor(options, arg),
        Setting::Keycolor => set_keycolor(options, arg),
        Setting::Minicolor => set_minicolor(options, arg),
        Setting::Numbercolor => set_numbercolor(options, arg),
        Setting::Promptcolor => set_promptcolor(options, arg),
        Setting::Scrollercolor => set_scrollercolor(options, arg),
        Setting::Selectedcolor => set_selectedcolor(options, arg),
        Setting::Spotlightcolor => set_spotlightcolor(options, arg),
        Setting::Statuscolor => set_statuscolor(options, arg),
        Setting::Stripecolor => set_stripecolor(options, arg),
        Setting::Titlecolor => set_titlecolor(options, arg),
        _ => {},
    }
}

fn apply_value(options: &mut Options, s: Setting, arg: Option<&str>)
    requires
        !is_flag(s),
        !is_color(s),
    ensures
        set_setting(old(options)@, final(options)@, s, opt_view(arg), true),
{
    match s {
        Setting::Backupdir => set_backupdir(options, arg),
        Setting::Brackets => set_brackets(options, arg),
        Setting::Fill => set_fill(options, arg),
        Setting::Guidestripe => set_guidestripe(options, arg),
        Setting::Matchbrackets => set_matchbrackets(options, arg),
        Setting::Operatingdir => set_operatingdir(options, arg),
        Setting::Punct => set_punct(options, arg),
        Setting::Quotestr => set_quotestr(options, arg),
        Setting::Speller => set_speller(options, arg),
        Setting::Tabsize => set_tabsize(options, arg),
        Setting::Whitespace => set_whitespace(options, arg),
        Setting::Wordchars => set_wordchars(options, arg),
        _ => {},
    }
}

/// Apply one `set`/`unset` directive: `enable` is `true` for `set` and
/// `false` for `unset`; `arg` is the rest of the line after the option name
/// (already without surrounding quotes), for options that take a value. An
/// unknown option name is an error, "unknown option: NAME", and changes
/// nothing.
pub fn apply(options: &mut Options, name: &str, arg: Option<&str>, enable: bool) -> (r: Result<(), String>)
    ensures
        match setting_of(name@) {
            Some(s) => r is Ok && set_setting(old(options)@, final(options)@, s, opt_view(arg), enable),
            None => r matches Err(e) && e@ == "unknown option: "@ + name@ && final(options)@ == old(options)@,
        },
{
    let s = match setting_named(name) {
        Some(s) => s,
        None => return Err(error_message("unknown option: ", name)),
    };
    if is_flag_exec(s) {
        apply_flag(options, s, enable);
        Ok(())
    } else if is_color_exec(s) {
        apply_color(options, s, arg);
        Ok(())
    } else {
        apply_value(options, s, arg);
        Ok(())
    }
}

} // verus!
