//! The command line: nano's option set (short and long flags as `nano
//! --help` lists them), how it overrides the configuration files, and the
//! file arguments with their `+LINE[,COLUMN]` prefixes.

use crate::options::{opt_text, Options, OptionsView};
use crate::text::{parse_digits_from, parse_unsigned, signed_value, str_chars, string_from_chars};
use vstd::prelude::*;

verus! {

/// The parsed command line (the argument parser lives with the program).
#[derive(Debug, Clone, Default)]
pub struct Cli {
    pub smarthome: bool,
    pub backup: bool,
    pub backupdir: Option<String>,
    pub boldtext: bool,
    pub tabstospaces: bool,
    pub multibuffer: bool,
    pub locking: bool,
    pub historylog: bool,
    pub ignorercfiles: bool,
    pub guidestripe: Option<u32>,
    pub rawsequences: bool,
    pub nonewlines: bool,
    pub trimblanks: bool,
    pub noconvert: bool,
    pub bookstyle: bool,
    pub positionlog: bool,
    pub quotestr: Option<String>,
    pub restricted: bool,
    pub softwrap: bool,
    pub tabsize: Option<u32>,
    pub quickblank: bool,
    pub wordbounds: bool,
    pub wordchars: Option<String>,
    pub syntax: Option<String>,
    pub zap: bool,
    pub atblanks: bool,
    pub breaklonglines: bool,
    pub constantshow: bool,
    pub rebinddelete: bool,
    pub emptyline: bool,
    pub rcfile: Option<String>,
    pub showcursor: bool,
    pub autoindent: bool,
    pub jumpyscrolling: bool,
    pub cutfromcursor: bool,
    pub linenumbers: bool,
    pub mouse: bool,
    pub noread: bool,
    pub operatingdir: Option<String>,
    pub preserve: bool,
    pub indicator: bool,
    pub fill: Option<i32>,
    pub speller: Option<String>,
    pub saveonexit: bool,
    pub unix: bool,
    pub view: bool,
    pub nowrap: bool,
    pub nohelp: bool,
    pub afterends: bool,
    pub listsyntaxes: bool,
    pub colonparsing: bool,
    pub stateflags: bool,
    pub minibar: bool,
    pub zero: bool,
    pub modernbindings: bool,
    pub tico_theme: Option<String>,
    pub tico_list_themes: bool,
    pub files: Vec<String>,
}

/// The options `n` are `o` with the command line `cli` applied: a flag
/// given turns its option on, a value given replaces the option's, and the
/// rc-file choices are taken as given; everything else stays.
pub open spec fn cli_applied(cli: Cli, o: OptionsView, n: OptionsView) -> bool {
    &&& n.afterends == (cli.afterends || o.afterends)
    &&& n.allow_insecure_backup == o.allow_insecure_backup
    &&& n.atblanks == (cli.atblanks || o.atblanks)
    &&& n.autoindent == (cli.autoindent || o.autoindent)
    &&& n.backup == (cli.backup || o.backup)
    &&& n.boldtext == (cli.boldtext || o.boldtext)
    &&& n.bookstyle == (cli.bookstyle || o.bookstyle)
    &&& n.breaklonglines == (cli.breaklonglines || o.breaklonglines)
    &&& n.casesensitive == o.casesensitive
    &&& n.colonparsing == (cli.colonparsing || o.colonparsing)
    &&& n.constantshow == (cli.constantshow || o.constantshow)
    &&& n.cutfromcursor == (cli.cutfromcursor || o.cutfromcursor)
    &&& n.emptyline == (cli.emptyline || o.emptyline)
    &&& n.historylog == (cli.historylog || o.historylog)
    &&& n.indicator == (cli.indicator || o.indicator)
    &&& n.jumpyscrolling == (cli.jumpyscrolling || o.jumpyscrolling)
    &&& n.linenumbers == (cli.linenumbers || o.linenumbers)
    &&& n.locking == (cli.locking || o.locking)
    &&& n.magic == o.magic
    &&& n.minibar == (cli.minibar || o.minibar)
    &&& n.mouse == (cli.mouse || o.mouse)
    &&& n.multibuffer == (cli.multibuffer || o.multibuffer)
    &&& n.noconvert == (cli.noconvert || o.noconvert)
    &&& n.nohelp == (cli.nohelp || o.nohelp)
    &&& n.nonewlines == (cli.nonewlines || o.nonewlines)
    &&& n.positionlog == (cli.positionlog || o.positionlog)
    &&& n.preserve == (cli.preserve || o.preserve)
    &&& n.quickblank == (cli.quickblank || o.quickblank)
    &&& n.rawsequences == (cli.rawsequences || o.rawsequences)
    &&& n.rebinddelete == (cli.rebinddelete || o.rebinddelete)
    &&& n.regexp == o.regexp
    &&& n.saveonexit == (cli.saveonexit || o.saveonexit)
    &&& n.showcursor == (cli.showcursor || o.showcursor)
    &&& n.smarthome == (cli.smarthome || o.smarthome)
    &&& n.softwrap == (cli.softwrap || o.softwrap)
    &&& n.stateflags == (cli.stateflags || o.stateflags)
    &&& n.tabstospaces == (cli.tabstospaces || o.tabstospaces)
    &&& n.trimblanks == (cli.trimblanks || o.trimblanks)
    &&& n.unix == (cli.unix || o.unix)
    &&& n.wordbounds == (cli.wordbounds || o.wordbounds)
    &&& n.zap == (cli.zap || o.zap)
    &&& n.zero == (cli.zero || o.zero)
    &&& n.syntax_highlighting == o.syntax_highlighting
    &&& n.backupdir == match cli.backupdir { Some(v) => Some(v@), None => o.backupdir }
    &&& n.brackets == o.brackets
    &&& n.fill == match cli.fill { Some(v) => v, None => o.fill }
    &&& n.guidestripe == match cli.guidestripe { Some(v) => Some(v), None => o.guidestripe }
    &&& n.matchbrackets == o.matchbrackets
    &&& n.operatingdir == match cli.operatingdir { Some(v) => Some(v@), None => o.operatingdir }
    &&& n.punct == o.punct
    &&& n.quotestr == match cli.quotestr { Some(v) => v@, None => o.quotestr }
    &&& n.speller == match cli.speller { Some(v) => Some(v@), None => o.speller }
    &&& n.tabsize == match cli.tabsize { Some(v) => v, None => o.tabsize }
    &&& n.whitespace == o.whitespace
    &&& n.wordchars == match cli.wordchars { Some(v) => Some(v@), None => o.wordchars }
    &&& n.errorcolor == o.errorcolor
    &&& n.functioncolor == o.functioncolor
    &&& n.keycolor == o.keycolor
    &&& n.minicolor == o.minicolor
    &&& n.numbercolor == o.numbercolor
    &&& n.promptcolor == o.promptcolor
    &&& n.scrollercolor == o.scrollercolor
    &&& n.selectedcolor == o.selectedcolor
    &&& n.spotlightcolor == o.spotlightcolor
    &&& n.statuscolor == o.statuscolor
    &&& n.stripecolor == o.stripecolor
    &&& n.titlecolor == o.titlecolor
    &&& n.restricted == (cli.restricted || o.restricted)
    &&& n.view == (cli.view || o.view)
    &&& n.nowrap == (cli.nowrap || o.nowrap)
    &&& n.ignorercfiles == cli.ignorercfiles
    &&& n.modernbindings == (cli.modernbindings || o.modernbindings)
    &&& n.syntax_name == match cli.syntax { Some(v) => Some(v@), None => o.syntax_name }
    &&& n.rcfile == opt_text(cli.rcfile)
    &&& n.max_syntax_highlight_bytes == o.max_syntax_highlight_bytes
    &&& n.theme == match cli.tico_theme { Some(v) => Some(v@), None => o.theme }
    &&& n.language_themes == o.language_themes
}

fn clone_text(o: &Option<String>) -> (r: Option<String>)
    ensures
        opt_text(r) == opt_text(*o),
{
    match o {
        Some(s) => Some(s.clone()),
        None => None,
    }
}

/// Whether a flag was given on the command line or is already on.
fn either(given: bool, current: bool) -> (r: bool)
    ensures
        r == (given || current),
{
    given || current
}

/// The text given on the command line, if one was, else the current one.
fn given_text(given: &Option<String>, current: Option<String>) -> (r: Option<String>)
    ensures
        opt_text(r) == match *given { Some(v) => Some(v@), None => opt_text(current) },
{
    match given {
        Some(v) => Some(v.clone()),
        None => current,
    }
}

/// The text given on the command line, if one was, else the current one.
fn given_or(given: &Option<String>, current: String) -> (r: String)
    ensures
        r@ == match *given { Some(v) => v@, None => current@ },
{
    match given {
        Some(v) => v.clone(),
        None => current,
    }
}

impl Cli {
    /// Apply the command-line flags on top of the options read from the
    /// configuration files (command-line options override nanorc settings):
    /// a flag given turns its option on, a value given replaces the
    /// option's (the theme given here overrides the global theme only;
    /// per-language overrides from the file still apply on top of it).
    pub fn apply(&self, options: &mut Options)
        ensures
            cli_applied(*self, old(options)@, final(options)@),
    {
        let mut o = Options::default();
        std::mem::swap(&mut o, options);
        *options = self.applied_to(o);
    }

    fn applied_to(&self, o: Options) -> (n: Options)
        ensures
            cli_applied(*self, o@, n@),
    {
        Options {
            afterends: either(self.afterends, o.afterends),
            allow_insecure_backup: o.allow_insecure_backup,
            atblanks: either(self.atblanks, o.atblanks),
            autoindent: either(self.autoindent, o.autoindent),
            backup: either(self.backup, o.backup),
            boldtext: either(self.boldtext, o.boldtext),
            bookstyle: either(self.bookstyle, o.bookstyle),
            breaklonglines: either(self.breaklonglines, o.breaklonglines),
            casesensitive: o.casesensitive,
            colonparsing: either(self.colonparsing, o.colonparsing),
            constantshow: either(self.constantshow, o.constantshow),
            cutfromcursor: either(self.cutfromcursor, o.cutfromcursor),
            emptyline: either(self.emptyline, o.emptyline),
            historylog: either(self.historylog, o.historylog),
            indicator: either(self.indicator, o.indicator),
            jumpyscrolling: either(self.jumpyscrolling, o.jumpyscrolling),
            linenumbers: either(self.linenumbers, o.linenumbers),
            locking: either(self.locking, o.locking),
            magic: o.magic,
            minibar: either(self.minibar, o.minibar),
            mouse: either(self.mouse, o.mouse),
            multibuffer: either(self.multibuffer, o.multibuffer),
            noconvert: either(self.noconvert, o.noconvert),
            nohelp: either(self.nohelp, o.nohelp),
            nonewlines: either(self.nonewlines, o.nonewlines),
            positionlog: either(self.positionlog, o.positionlog),
            preserve: either(self.preserve, o.preserve),
            quickblank: either(self.quickblank, o.quickblank),
            rawsequences: either(self.rawsequences, o.rawsequences),
            rebinddelete: either(self.rebinddelete, o.rebinddelete),
            regexp: o.regexp,
            saveonexit: either(self.saveonexit, o.saveonexit),
            showcursor: either(self.showcursor, o.showcursor),
            smarthome: either(self.smarthome, o.smarthome),
            softwrap: either(self.softwrap, o.softwrap),
            stateflags: either(self.stateflags, o.stateflags),
            tabstospaces: either(self.tabstospaces, o.tabstospaces),
            trimblanks: either(self.trimblanks, o.trimblanks),
            unix: either(self.unix, o.unix),
            wordbounds: either(self.wordbounds, o.wordbounds),
            zap: either(self.zap, o.zap),
            zero: either(self.zero, o.zero),
            syntax_highlighting: o.syntax_highlighting,
            backupdir: given_text(&self.backupdir, o.backupdir),
            brackets: o.brackets,
            fill: self.fill.unwrap_or(o.fill),
            guidestripe: if self.guidestripe.is_some() { self.guidestripe } else { o.guidestripe },
            matchbrackets: o.matchbrackets,
            operatingdir: given_text(&self.operatingdir, o.operatingdir),
            punct: o.punct,
            quotestr: given_or(&self.quotestr, o.quotestr),
            speller: given_text(&self.speller, o.speller),
            tabsize: self.tabsize.unwrap_or(o.tabsize),
            whitespace: o.whitespace,
            wordchars: given_text(&self.wordchars, o.wordchars),
            errorcolor: o.errorcolor,
            functioncolor: o.functioncolor,
            keycolor: o.keycolor,
            minicolor: o.minicolor,
            numbercolor: o.numbercolor,
            promptcolor: o.promptcolor,
            scrollercolor: o.scrollercolor,
            selectedcolor: o.selectedcolor,
            spotlightcolor: o.spotlightcolor,
            statuscolor: o.statuscolor,
            stripecolor: o.stripecolor,
            titlecolor: o.titlecolor,
            restricted: either(self.restricted, o.restricted),
            view: either(self.view, o.view),
            nowrap: either(self.nowrap, o.nowrap),
            ignorercfiles: self.ignorercfiles,
            modernbindings: either(self.modernbindings, o.modernbindings),
            syntax_name: given_text(&self.syntax, o.syntax_name),
            rcfile: clone_text(&self.rcfile),
            max_syntax_highlight_bytes: o.max_syntax_highlight_bytes,
            theme: given_text(&self.tico_theme, o.theme),
            language_themes: o.language_themes,
        }
    }
}

// ---------------------------------------------------------------------------
// File arguments
// ---------------------------------------------------------------------------

/// A file argument: a file name, and the line and column a preceding
/// `+LINE[,COLUMN]` asked for.
#[derive(Debug, Clone)]
pub struct FileArg {
    pub path: String,
    pub line: Option<i64>,
    pub column: Option<i64>,
}

/// The `i64` a text holds, as std's `from_str` reads it.
pub open spec fn i64_value(s: Seq<char>) -> Option<i64> {
    match signed_value(s) {
        Some(v) => if i64::MIN <= v <= i64::MAX { Some(v as i64) } else { None },
        None => None,
    }
}

fn parse_i64(s: &[char]) -> (r: Option<i64>)
    ensures
        r == i64_value(s@),
{
    if s.len() > 0 && s[0] == '-' {
        proof {
            assert(s@.skip(1) =~= s@.drop_first());
        }
        match parse_digits_from(s, 1, 9223372036854775808) {
            Some(v) => if v == 9223372036854775808 { Some(i64::MIN) } else { Some(0 - (v as i64)) },
            None => None,
        }
    } else {
        match parse_unsigned(s, 9223372036854775807) {
            Some(v) => Some(v as i64),
            None => None,
        }
    }
}

/// The index of the first ',' in `s`, if any.
pub open spec fn comma_at(s: Seq<char>) -> Option<int>
    decreases s.len(),
{
    if s.len() == 0 {
        None
    } else if s[0] == ',' {
        Some(0)
    } else {
        match comma_at(s.drop_first()) {
            Some(i) => Some(i + 1),
            None => None,
        }
    }
}

/// The line and column a `+LINE[,COLUMN]` token (without its '+') asks
/// for; a part that is not a number asks for nothing.
pub open spec fn position_of(spec: Seq<char>) -> (Option<i64>, Option<i64>) {
    match comma_at(spec) {
        Some(i) => (i64_value(spec.take(i)), i64_value(spec.skip(i + 1))),
        None => (i64_value(spec), None),
    }
}

/// The file arguments read so far, and the position a `+` token asked for
/// that no file name has taken yet.
pub open spec fn file_args_fold(files: Seq<Seq<char>>) -> (Seq<(Seq<char>, Option<i64>, Option<i64>)>, Option<(Option<i64>, Option<i64>)>)
    decreases files.len(),
{
    if files.len() == 0 {
        (Seq::empty(), None)
    } else {
        let (args, pending) = file_args_fold(files.drop_last());
        let f = files.last();
        if f.len() > 0 && f[0] == '+' {
            (args, Some(position_of(f.drop_first())))
        } else {
            let (line, column) = match pending {
                Some(p) => p,
                None => (None, None),
            };
            (args.push((f, line, column)), None)
        }
    }
}

pub open spec fn file_args_view(v: Seq<FileArg>) -> Seq<(Seq<char>, Option<i64>, Option<i64>)> {
    v.map_values(|a: FileArg| (a.path@, a.line, a.column))
}

fn position(spec: &[char]) -> (r: (Option<i64>, Option<i64>))
    ensures
        r == position_of(spec@),
{
    let mut i: usize = 0;
    proof {
        assert(spec@.skip(0) =~= spec@);
    }
    while i < spec.len() && spec[i] != ','
        invariant
            i <= spec@.len(),
            comma_at(spec@) == (match comma_at(spec@.skip(i as int)) {
                Some(k) => Some(k + i),
                None => None::<int>,
            }),
        decreases spec.len() - i,
    {
        proof {
            assert(spec@.skip(i as int).drop_first() =~= spec@.skip(i + 1));
        }
        i += 1;
    }
    proof {
        if i < spec.len() {
            assert(spec@.skip(i as int)[0] == ',');
        } else {
            assert(spec@.skip(i as int).len() == 0);
        }
    }
    if i < spec.len() {
        let l = crate::text::sub_chars(spec, 0, i);
        let c = crate::text::sub_chars(spec, i + 1, spec.len());
        proof {
            assert(l@ =~= spec@.take(i as int));
            assert(c@ =~= spec@.skip(i + 1));
        }
        (parse_i64(l.as_slice()), parse_i64(c.as_slice()))
    } else {
        (parse_i64(spec), None)
    }
}

/// Read the file arguments as nano does: a `+LINE[,COLUMN]` token applies
/// to the file name that follows it.
pub fn parse_file_args(files: &[String]) -> (out: Vec<FileArg>)
    ensures
        file_args_view(out@) == file_args_fold(files@.map_values(|s: String| s@)).0,
{
    let ghost fv = files@.map_values(|s: String| s@);
    let mut out: Vec<FileArg> = Vec::new();
    let mut pending: Option<(Option<i64>, Option<i64>)> = None;
    let mut i: usize = 0;
    while i < files.len()
        invariant
            i <= files@.len(),
            fv == files@.map_values(|s: String| s@),
            (file_args_view(out@), pending) == file_args_fold(fv.take(i as int)),
        decreases files.len() - i,
    {
        proof {
            assert(fv.take(i + 1).drop_last() =~= fv.take(i as int));
            assert(fv.take(i + 1).last() == files@[i as int]@);
        }
        let f = str_chars(files[i].as_str());
        if f.len() > 0 && f[0] == '+' {
            let spec = crate::text::sub_chars(f.as_slice(), 1, f.len());
            proof {
                assert(spec@ =~= f@.drop_first());
            }
            pending = Some(position(spec.as_slice()));
        } else {
            let (line, column) = match pending {
                Some(p) => p,
                None => (None, None),
            };
            let ghost before = file_args_view(out@);
            out.push(FileArg { path: files[i].clone(), line, column });
            proof {
                assert(file_args_view(out@) =~= before.push((files@[i as int]@, line, column)));
            }
            pending = None;
        }
        i += 1;
    }
    proof {
        assert(fv.take(files@.len() as int) =~= fv);
    }
    out
}

} // verus!
