//! Key bindings: the rebindable editor functions ("actions"), the menus they
//! apply to, keystrokes, and the table mapping keystrokes to actions per menu.
//!
//! The function names, menu names and default bindings are those of GNU nano
//! (see `nanorc(5)` and nano's built-in help), so that `bind`/`unbind`
//! directives written for nano work unchanged.

use crate::text::{
    ascii_eq_ignore_case, ascii_upper, decimal, eq_ignore_case, has_prefix, is_ascii_alpha,
    parse_unsigned, push_decimal, push_str, str_chars, str_eq, string_from_chars, unsigned_value,
};
use vstd::map::*;
use vstd::prelude::*;

verus! {

/// A rebindable editor function, named as nano's `bind`/`unbind` names it
/// (see `nanorc(5)`, section "REBINDING KEYS").
#[derive(Debug, Clone, Copy, PartialEq, Eq, Hash, Structural)]
pub enum Action {
    Help,
    Cancel,
    Exit,
    WriteOut,
    SaveFile,
    Insert,
    WhereIs,
    WhereWas,
    FindPrevious,
    FindNext,
    Replace,
    Cut,
    Copy,
    Paste,
    Zap,
    ChopWordLeft,
    ChopWordRight,
    CutRestOfFile,
    Mark,
    Location,
    WordCount,
    Execute,
    Speller,
    Formatter,
    Linter,
    Justify,
    FullJustify,
    Indent,
    Unindent,
    Comment,
    Complete,
    Left,
    Right,
    Up,
    Down,
    ScrollUp,
    ScrollDown,
    Center,
    Cycle,
    PrevWord,
    NextWord,
    Home,
    End,
    BeginPara,
    EndPara,
    PrevBlock,
    NextBlock,
    TopRow,
    BottomRow,
    PageUp,
    PageDown,
    FirstLine,
    LastLine,
    GotoLine,
    FindBracket,
    Anchor,
    PrevAnchor,
    NextAnchor,
    PrevBuf,
    NextBuf,
    Verbatim,
    Tab,
    Enter,
    Delete,
    Backspace,
    RecordMacro,
    RunMacro,
    Undo,
    Redo,
    Refresh,
    Suspend,
    CaseSens,
    Regexp,
    Backwards,
    Older,
    Newer,
    FlipReplace,
    FlipGoto,
    FlipExecute,
    FlipPipe,
    FlipNewBuffer,
    FlipConvert,
    DosFormat,
    MacFormat,
    Append,
    Prepend,
    Backup,
    DiscardBuffer,
    Browser,
    GotoDir,
    FirstFile,
    LastFile,
    NoHelp,
    Zero,
    ConstantShow,
    SoftWrap,
    LineNumbers,
    WhitespaceDisplay,
    NoSyntax,
    SmartHome,
    AutoIndent,
    CutFromCursor,
    BreakLongLines,
    TabsToSpaces,
    Mouse,
    ScrollLeft,
    ScrollRight,
}

/// The nanorc name of an action; the internal-only scrolling actions have
/// none and cannot be rebound by name.
pub open spec fn action_name(a: Action) -> Option<Seq<char>> {
    match a {
        Action::Help => Some("help"@),
        Action::Cancel => Some("cancel"@),
        Action::Exit => Some("exit"@),
        Action::WriteOut => Some("writeout"@),
        Action::SaveFile => Some("savefile"@),
        Action::Insert => Some("insert"@),
        Action::WhereIs => Some("whereis"@),
        Action::WhereWas => Some("wherewas"@),
        Action::FindPrevious => Some("findprevious"@),
        Action::FindNext => Some("findnext"@),
        Action::Replace => Some("replace"@),
        Action::Cut => Some("cut"@),
        Action::Copy => Some("copy"@),
        Action::Paste => Some("paste"@),
        Action::Zap => Some("zap"@),
        Action::ChopWordLeft => Some("chopwordleft"@),
        Action::ChopWordRight => Some("chopwordright"@),
        Action::CutRestOfFile => Some("cutrestoffile"@),
        Action::Mark => Some("mark"@),
        Action::Location => Some("location"@),
        Action::WordCount => Some("wordcount"@),
        Action::Execute => Some("execute"@),
        Action::Speller => Some("speller"@),
        Action::Formatter => Some("formatter"@),
        Action::Linter => Some("linter"@),
        Action::Justify => Some("justify"@),
        Action::FullJustify => Some("fulljustify"@),
        Action::Indent => Some("indent"@),
        Action::Unindent => Some("unindent"@),
        Action::Comment => Some("comment"@),
        Action::Complete => Some("complete"@),
        Action::Left => Some("left"@),
        Action::Right => Some("right"@),
        Action::Up => Some("up"@),
        Action::Down => Some("down"@),
        Action::ScrollUp => Some("scrollup"@),
        Action::ScrollDown => Some("scrolldown"@),
        Action::Center => Some("center"@),
        Action::Cycle => Some("cycle"@),
        Action::PrevWord => Some("prevword"@),
        Action::NextWord => Some("nextword"@),
        Action::Home => Some("home"@),
        Action::End => Some("end"@),
        Action::BeginPara => Some("beginpara"@),
        Action::EndPara => Some("endpara"@),
        Action::PrevBlock => Some("prevblock"@),
        Action::NextBlock => Some("nextblock"@),
        Action::TopRow => Some("toprow"@),
        Action::BottomRow => Some("bottomrow"@),
        Action::PageUp => Some("pageup"@),
        Action::PageDown => Some("pagedown"@),
        Action::FirstLine => Some("firstline"@),
        Action::LastLine => Some("lastline"@),
        Action::GotoLine => Some("gotoline"@),
        Action::FindBracket => Some("findbracket"@),
        Action::Anchor => Some("anchor"@),
        Action::PrevAnchor => Some("prevanchor"@),
        Action::NextAnchor => Some("nextanchor"@),
        Action::PrevBuf => Some("prevbuf"@),
        Action::NextBuf => Some("nextbuf"@),
        Action::Verbatim => Some("verbatim"@),
        Action::Tab => Some("tab"@),
        Action::Enter => Some("enter"@),
        Action::Delete => Some("delete"@),
        Action::Backspace => Some("backspace"@),
        Action::RecordMacro => Some("recordmacro"@),
        Action::RunMacro => Some("runmacro"@),
        Action::Undo => Some("undo"@),
        Action::Redo => Some("redo"@),
        Action::Refresh => Some("refresh"@),
        Action::Suspend => Some("suspend"@),
        Action::CaseSens => Some("casesens"@),
        Action::Regexp => Some("regexp"@),
        Action::Backwards => Some("backwards"@),
        Action::Older => Some("older"@),
        Action::Newer => Some("newer"@),
        Action::FlipReplace => Some("flipreplace"@),
        Action::FlipGoto => Some("flipgoto"@),
        Action::FlipExecute => Some("flipexecute"@),
        Action::FlipPipe => Some("flippipe"@),
        Action::FlipNewBuffer => Some("flipnewbuffer"@),
        Action::FlipConvert => Some("flipconvert"@),
        Action::DosFormat => Some("dosformat"@),
        Action::MacFormat => Some("macformat"@),
        Action::Append => Some("append"@),
        Action::Prepend => Some("prepend"@),
        Action::Backup => Some("backup"@),
        Action::DiscardBuffer => Some("discardbuffer"@),
        Action::Browser => Some("browser"@),
        Action::GotoDir => Some("gotodir"@),
        Action::FirstFile => Some("firstfile"@),
        Action::LastFile => Some("lastfile"@),
        Action::NoHelp => Some("nohelp"@),
        Action::Zero => Some("zero"@),
        Action::ConstantShow => Some("constantshow"@),
        Action::SoftWrap => Some("softwrap"@),
        Action::LineNumbers => Some("linenumbers"@),
        Action::WhitespaceDisplay => Some("whitespacedisplay"@),
        Action::NoSyntax => Some("nosyntax"@),
        Action::SmartHome => Some("smarthome"@),
        Action::AutoIndent => Some("autoindent"@),
        Action::CutFromCursor => Some("cutfromcursor"@),
        Action::BreakLongLines => Some("breaklonglines"@),
        Action::TabsToSpaces => Some("tabstospaces"@),
        Action::Mouse => Some("mouse"@),
        Action::ScrollLeft => None,
        Action::ScrollRight => None,
    }
}

/// A short description of an action, for the help screen's shortcut listing.
pub open spec fn action_description(a: Action) -> Seq<char> {
    match a {
        Action::Help => "Display this help text"@,
        Action::Cancel => "Cancel the current function"@,
        Action::Exit => "Close the current buffer / Exit from tico"@,
        Action::WriteOut => "Write the current buffer (or the marked region) to disk"@,
        Action::SaveFile => "Save file without prompting"@,
        Action::Insert => "Insert another file into current buffer (or into new buffer)"@,
        Action::WhereIs => "Search forward for a string or a regular expression"@,
        Action::WhereWas => "Search backward for a string or a regular expression"@,
        Action::FindPrevious => "Search next occurrence backward"@,
        Action::FindNext => "Search next occurrence forward"@,
        Action::Replace => "Replace a string or a regular expression"@,
        Action::Cut => "Cut current line (or marked region) and store it in cutbuffer"@,
        Action::Copy => "Copy current line (or marked region) and store it in cutbuffer"@,
        Action::Paste => "Paste the contents of cutbuffer at current cursor position"@,
        Action::Zap => "Throw away the current line (or marked region)"@,
        Action::ChopWordLeft => "Delete backward from cursor to word start"@,
        Action::ChopWordRight => "Delete forward from cursor to next word start"@,
        Action::CutRestOfFile => "Cut from the cursor position to the end of the file"@,
        Action::Mark => "Mark text starting from the cursor position"@,
        Action::Location => "Display the position of the cursor"@,
        Action::WordCount => "Count the number of lines, words, and characters"@,
        Action::Execute => "Execute a function or an external command"@,
        Action::Speller => "Invoke the spell checker, if available"@,
        Action::Formatter => "Invoke a program to format/arrange/manipulate the buffer"@,
        Action::Linter => "Invoke the linter, if available"@,
        Action::Justify => "Justify the current paragraph"@,
        Action::FullJustify => "Justify the entire file"@,
        Action::Indent => "Indent the current line (or marked lines)"@,
        Action::Unindent => "Unindent the current line (or marked lines)"@,
        Action::Comment => "Comment/uncomment the current line (or marked lines)"@,
        Action::Complete => "Try and complete the current word"@,
        Action::Left => "Go back one character"@,
        Action::Right => "Go forward one character"@,
        Action::Up => "Go to previous line"@,
        Action::Down => "Go to next line"@,
        Action::ScrollUp => "Scroll up one line without moving the cursor textually"@,
        Action::ScrollDown => "Scroll down one line without moving the cursor textually"@,
        Action::Center => "Center the line where the cursor is"@,
        Action::Cycle => "Push the cursor line to the center, then top, then bottom"@,
        Action::PrevWord => "Go back one word"@,
        Action::NextWord => "Go forward one word"@,
        Action::Home => "Go to beginning of current line"@,
        Action::End => "Go to end of current line"@,
        Action::BeginPara => "Go to beginning of paragraph; then of previous paragraph"@,
        Action::EndPara => "Go just beyond end of paragraph; then of next paragraph"@,
        Action::PrevBlock => "Go to previous block of text"@,
        Action::NextBlock => "Go to next block of text"@,
        Action::TopRow => "Go to first row in the viewport"@,
        Action::BottomRow => "Go to last row in the viewport"@,
        Action::PageUp => "Go one screenful up"@,
        Action::PageDown => "Go one screenful down"@,
        Action::FirstLine => "Go to the first line of the file"@,
        Action::LastLine => "Go to the last line of the file"@,
        Action::GotoLine => "Go to line and column number"@,
        Action::FindBracket => "Go to the matching bracket"@,
        Action::Anchor => "Place or remove an anchor at the current line"@,
        Action::PrevAnchor => "Jump backward to the nearest anchor"@,
        Action::NextAnchor => "Jump forward to the nearest anchor"@,
        Action::PrevBuf => "Switch to the previous file buffer"@,
        Action::NextBuf => "Switch to the next file buffer"@,
        Action::Verbatim => "Insert the next keystroke verbatim"@,
        Action::Tab => "Insert a tab at the cursor position (or indent marked lines)"@,
        Action::Enter => "Insert a newline at the cursor position"@,
        Action::Delete => "Delete the character under the cursor"@,
        Action::Backspace => "Delete the character to the left of the cursor"@,
        Action::RecordMacro => "Start/stop recording a macro"@,
        Action::RunMacro => "Run the last recorded macro"@,
        Action::Undo => "Undo the last operation"@,
        Action::Redo => "Redo the last undone operation"@,
        Action::Refresh => "Refresh (redraw) the current screen"@,
        Action::Suspend => "Suspend the editor (return to the shell)"@,
        Action::CaseSens => "Toggle the case sensitivity of the search"@,
        Action::Regexp => "Toggle the use of regular expressions"@,
        Action::Backwards => "Reverse the direction of the search"@,
        Action::Older => "Recall the previous search/replace/command string"@,
        Action::Newer => "Recall the next search/replace/command string"@,
        Action::FlipReplace => "Switch between searching and replacing"@,
        Action::FlipGoto => "Switch between searching and going to a line"@,
        Action::FlipExecute => "Switch between inserting a file and running a command"@,
        Action::FlipPipe => "Pipe the current buffer (or marked region) to the command"@,
        Action::FlipNewBuffer => "Toggle the use of a new buffer"@,
        Action::FlipConvert => "Do not convert from DOS/Mac format"@,
        Action::DosFormat => "Toggle the use of DOS format"@,
        Action::MacFormat => "Toggle the use of Mac format"@,
        Action::Append => "Toggle appending"@,
        Action::Prepend => "Toggle prepending"@,
        Action::Backup => "Toggle backing up of the original file"@,
        Action::DiscardBuffer => "Close buffer without saving it"@,
        Action::Browser => "Go to file browser"@,
        Action::GotoDir => "Go to directory"@,
        Action::FirstFile => "Go to the first file in the list"@,
        Action::LastFile => "Go to the last file in the list"@,
        Action::NoHelp => "Toggle the display of the shortcut lists"@,
        Action::Zero => "Toggle the use of the title bar and status bar"@,
        Action::ConstantShow => "Toggle constant cursor position display"@,
        Action::SoftWrap => "Toggle the displaying of overlong lines on multiple screen lines"@,
        Action::LineNumbers => "Toggle the display of line numbers"@,
        Action::WhitespaceDisplay => "Toggle the visibility of whitespace"@,
        Action::NoSyntax => "Toggle syntax highlighting"@,
        Action::SmartHome => "Toggle the smartness of the Home key"@,
        Action::AutoIndent => "Toggle auto-indent"@,
        Action::CutFromCursor => "Toggle cutting from cursor to end of line, instead of whole line"@,
        Action::BreakLongLines => "Toggle whether the overlong part of a line is hard-wrapped"@,
        Action::TabsToSpaces => "Toggle whether typed tabs are converted to spaces"@,
        Action::Mouse => "Toggle mouse support"@,
        Action::ScrollLeft => "Scroll the viewport a tabsize to the left"@,
        Action::ScrollRight => "Scroll the viewport a tabsize to the right"@,
    }
}

impl Action {
    /// Parse a nano `bind`/`unbind` function name into an action.
    pub fn from_name(name: &str) -> (r: Option<Action>)
        ensures
            r matches Some(a) ==> action_name(a) == Some(name@),
            r is None ==> forall|a: Action| action_name(a) != Some(name@),
    {
        if str_eq(name, "help") {
            return Some(Action::Help);
        }
        if str_eq(name, "cancel") {
            return Some(Action::Cancel);
        }
        if str_eq(name, "exit") {
            return Some(Action::Exit);
        }
        if str_eq(name, "writeout") {
            return Some(Action::WriteOut);
        }
        if str_eq(name, "savefile") {
            return Some(Action::SaveFile);
        }
        if str_eq(name, "insert") {
            return Some(Action::Insert);
        }
        if str_eq(name, "whereis") {
            return Some(Action::WhereIs);
        }
        if str_eq(name, "wherewas") {
            return Some(Action::WhereWas);
        }
        if str_eq(name, "findprevious") {
            return Some(Action::FindPrevious);
        }
        if str_eq(name, "findnext") {
            return Some(Action::FindNext);
        }
        if str_eq(name, "replace") {
            return Some(Action::Replace);
        }
        if str_eq(name, "cut") {
            return Some(Action::Cut);
        }
        if str_eq(name, "copy") {
            return Some(Action::Copy);
        }
        if str_eq(name, "paste") {
            return Some(Action::Paste);
        }
        if str_eq(name, "zap") {
            return Some(Action::Zap);
        }
        if str_eq(name, "chopwordleft") {
            return Some(Action::ChopWordLeft);
        }
        if str_eq(name, "chopwordright") {
            return Some(Action::ChopWordRight);
        }
        if str_eq(name, "cutrestoffile") {
            return Some(Action::CutRestOfFile);
        }
        if str_eq(name, "mark") {
            return Some(Action::Mark);
        }
        if str_eq(name, "location") {
            return Some(Action::Location);
        }
        if str_eq(name, "wordcount") {
            return Some(Action::WordCount);
        }
        if str_eq(name, "execute") {
            return Some(Action::Execute);
        }
        if str_eq(name, "speller") {
            return Some(Action::Speller);
        }
        if str_eq(name, "formatter") {
            return Some(Action::Formatter);
        }
        if str_eq(name, "linter") {
            return Some(Action::Linter);
        }
        if str_eq(name, "justify") {
            return Some(Action::Justify);
        }
        if str_eq(name, "fulljustify") {
            return Some(Action::FullJustify);
        }
        if str_eq(name, "indent") {
            return Some(Action::Indent);
        }
        if str_eq(name, "unindent") {
            return Some(Action::Unindent);
        }
        if str_eq(name, "comment") {
            return Some(Action::Comment);
        }
        if str_eq(name, "complete") {
            return Some(Action::Complete);
        }
        if str_eq(name, "left") {
            return Some(Action::Left);
        }
        if str_eq(name, "right") {
            return Some(Action::Right);
        }
        if str_eq(name, "up") {
            return Some(Action::Up);
        }
        if str_eq(name, "down") {
            return Some(Action::Down);
        }
        if str_eq(name, "scrollup") {
            return Some(Action::ScrollUp);
        }
        if str_eq(name, "scrolldown") {
            return Some(Action::ScrollDown);
        }
        if str_eq(name, "center") {
            return Some(Action::Center);
        }
        if str_eq(name, "cycle") {
            return Some(Action::Cycle);
        }
        if str_eq(name, "prevword") {
            return Some(Action::PrevWord);
        }
        if str_eq(name, "nextword") {
            return Some(Action::NextWord);
        }
        if str_eq(name, "home") {
            return Some(Action::Home);
        }
        if str_eq(name, "end") {
            return Some(Action::End);
        }
        if str_eq(name, "beginpara") {
            return Some(Action::BeginPara);
        }
        if str_eq(name, "endpara") {
            return Some(Action::EndPara);
        }
        if str_eq(name, "prevblock") {
            return Some(Action::PrevBlock);
        }
        if str_eq(name, "nextblock") {
            return Some(Action::NextBlock);
        }
        if str_eq(name, "toprow") {
            return Some(Action::TopRow);
        }
        if str_eq(name, "bottomrow") {
            return Some(Action::BottomRow);
        }
        if str_eq(name, "pageup") {
            return Some(Action::PageUp);
        }
        if str_eq(name, "pagedown") {
            return Some(Action::PageDown);
        }
        if str_eq(name, "firstline") {
            return Some(Action::FirstLine);
        }
        if str_eq(name, "lastline") {
            return Some(Action::LastLine);
        }
        if str_eq(name, "gotoline") {
            return Some(Action::GotoLine);
        }
        if str_eq(name, "findbracket") {
            return Some(Action::FindBracket);
        }
        if str_eq(name, "anchor") {
            return Some(Action::Anchor);
        }
        if str_eq(name, "prevanchor") {
            return Some(Action::PrevAnchor);
        }
        if str_eq(name, "nextanchor") {
            return Some(Action::NextAnchor);
        }
        if str_eq(name, "prevbuf") {
            return Some(Action::PrevBuf);
        }
        if str_eq(name, "nextbuf") {
            return Some(Action::NextBuf);
        }
        if str_eq(name, "verbatim") {
            return Some(Action::Verbatim);
        }
        if str_eq(name, "tab") {
            return Some(Action::Tab);
        }
        if str_eq(name, "enter") {
            return Some(Action::Enter);
        }
        if str_eq(name, "delete") {
            return Some(Action::Delete);
        }
        if str_eq(name, "backspace") {
            return Some(Action::Backspace);
        }
        if str_eq(name, "recordmacro") {
            return Some(Action::RecordMacro);
        }
        if str_eq(name, "runmacro") {
            return Some(Action::RunMacro);
        }
        if str_eq(name, "undo") {
            return Some(Action::Undo);
        }
        if str_eq(name, "redo") {
            return Some(Action::Redo);
        }
        if str_eq(name, "refresh") {
            return Some(Action::Refresh);
        }
        if str_eq(name, "suspend") {
            return Some(Action::Suspend);
        }
        if str_eq(name, "casesens") {
            return Some(Action::CaseSens);
        }
        if str_eq(name, "regexp") {
            return Some(Action::Regexp);
        }
        if str_eq(name, "backwards") {
            return Some(Action::Backwards);
        }
        if str_eq(name, "older") {
            return Some(Action::Older);
        }
        if str_eq(name, "newer") {
            return Some(Action::Newer);
        }
        if str_eq(name, "flipreplace") {
            return Some(Action::FlipReplace);
        }
        if str_eq(name, "flipgoto") {
            return Some(Action::FlipGoto);
        }
        if str_eq(name, "flipexecute") {
            return Some(Action::FlipExecute);
        }
        if str_eq(name, "flippipe") {
            return Some(Action::FlipPipe);
        }
        if str_eq(name, "flipnewbuffer") {
            return Some(Action::FlipNewBuffer);
        }
        if str_eq(name, "flipconvert") {
            return Some(Action::FlipConvert);
        }
        if str_eq(name, "dosformat") {
            return Some(Action::DosFormat);
        }
        if str_eq(name, "macformat") {
            return Some(Action::MacFormat);
        }
        if str_eq(name, "append") {
            return Some(Action::Append);
        }
        if str_eq(name, "prepend") {
            return Some(Action::Prepend);
        }
        if str_eq(name, "backup") {
            return Some(Action::Backup);
        }
        if str_eq(name, "discardbuffer") {
            return Some(Action::DiscardBuffer);
        }
        if str_eq(name, "browser") {
            return Some(Action::Browser);
        }
        if str_eq(name, "gotodir") {
            return Some(Action::GotoDir);
        }
        if str_eq(name, "firstfile") {
            return Some(Action::FirstFile);
        }
        if str_eq(name, "lastfile") {
            return Some(Action::LastFile);
        }
        if str_eq(name, "nohelp") {
            return Some(Action::NoHelp);
        }
        if str_eq(name, "zero") {
            return Some(Action::Zero);
        }
        if str_eq(name, "constantshow") {
            return Some(Action::ConstantShow);
        }
        if str_eq(name, "softwrap") {
            return Some(Action::SoftWrap);
        }
        if str_eq(name, "linenumbers") {
            return Some(Action::LineNumbers);
        }
        if str_eq(name, "whitespacedisplay") {
            return Some(Action::WhitespaceDisplay);
        }
        if str_eq(name, "nosyntax") {
            return Some(Action::NoSyntax);
        }
        if str_eq(name, "smarthome") {
            return Some(Action::SmartHome);
        }
        if str_eq(name, "autoindent") {
            return Some(Action::AutoIndent);
        }
        if str_eq(name, "cutfromcursor") {
            return Some(Action::CutFromCursor);
        }
        if str_eq(name, "breaklonglines") {
            return Some(Action::BreakLongLines);
        }
        if str_eq(name, "tabstospaces") {
            return Some(Action::TabsToSpaces);
        }
        if str_eq(name, "mouse") {
            return Some(Action::Mouse);
        }
        None
    }

    /// A short human description of what this action does, for the help
    /// screen's shortcut listing, phrased as nano phrases its own.
    pub fn description(&self) -> (s: &'static str)
        ensures
            s@ == action_description(*self),
    {
        match self {
            Action::Help => "Display this help text",
            Action::Cancel => "Cancel the current function",
            Action::Exit => "Close the current buffer / Exit from tico",
            Action::WriteOut => "Write the current buffer (or the marked region) to disk",
            Action::SaveFile => "Save file without prompting",
            Action::Insert => "Insert another file into current buffer (or into new buffer)",
            Action::WhereIs => "Search forward for a string or a regular expression",
            Action::WhereWas => "Search backward for a string or a regular expression",
            Action::FindPrevious => "Search next occurrence backward",
            Action::FindNext => "Search next occurrence forward",
            Action::Replace => "Replace a string or a regular expression",
            Action::Cut => "Cut current line (or marked region) and store it in cutbuffer",
            Action::Copy => "Copy current line (or marked region) and store it in cutbuffer",
            Action::Paste => "Paste the contents of cutbuffer at current cursor position",
            Action::Zap => "Throw away the current line (or marked region)",
            Action::ChopWordLeft => "Delete backward from cursor to word start",
            Action::ChopWordRight => "Delete forward from cursor to next word start",
            Action::CutRestOfFile => "Cut from the cursor position to the end of the file",
            Action::Mark => "Mark text starting from the cursor position",
            Action::Location => "Display the position of the cursor",
            Action::WordCount => "Count the number of lines, words, and characters",
            Action::Execute => "Execute a function or an external command",
            Action::Speller => "Invoke the spell checker, if available",
            Action::Formatter => "Invoke a program to format/arrange/manipulate the buffer",
            Action::Linter => "Invoke the linter, if available",
            Action::Justify => "Justify the current paragraph",
            Action::FullJustify => "Justify the entire file",
            Action::Indent => "Indent the current line (or marked lines)",
            Action::Unindent => "Unindent the current line (or marked lines)",
            Action::Comment => "Comment/uncomment the current line (or marked lines)",
            Action::Complete => "Try and complete the current word",
            Action::Left => "Go back one character",
            Action::Right => "Go forward one character",
            Action::Up => "Go to previous line",
            Action::Down => "Go to next line",
            Action::ScrollUp => "Scroll up one line without moving the cursor textually",
            Action::ScrollDown => "Scroll down one line without moving the cursor textually",
            Action::Center => "Center the line where the cursor is",
            Action::Cycle => "Push the cursor line to the center, then top, then bottom",
            Action::PrevWord => "Go back one word",
            Action::NextWord => "Go forward one word",
            Action::Home => "Go to beginning of current line",
            Action::End => "Go to end of current line",
            Action::BeginPara => "Go to beginning of paragraph; then of previous paragraph",
            Action::EndPara => "Go just beyond end of paragraph; then of next paragraph",
            Action::PrevBlock => "Go to previous block of text",
            Action::NextBlock => "Go to next block of text",
            Action::TopRow => "Go to first row in the viewport",
            Action::BottomRow => "Go to last row in the viewport",
            Action::PageUp => "Go one screenful up",
            Action::PageDown => "Go one screenful down",
            Action::FirstLine => "Go to the first line of the file",
            Action::LastLine => "Go to the last line of the file",
            Action::GotoLine => "Go to line and column number",
            Action::FindBracket => "Go to the matching bracket",
            Action::Anchor => "Place or remove an anchor at the current line",
            Action::PrevAnchor => "Jump backward to the nearest anchor",
            Action::NextAnchor => "Jump forward to the nearest anchor",
            Action::PrevBuf => "Switch to the previous file buffer",
            Action::NextBuf => "Switch to the next file buffer",
            Action::Verbatim => "Insert the next keystroke verbatim",
            Action::Tab => "Insert a tab at the cursor position (or indent marked lines)",
            Action::Enter => "Insert a newline at the cursor position",
            Action::Delete => "Delete the character under the cursor",
            Action::Backspace => "Delete the character to the left of the cursor",
            Action::RecordMacro => "Start/stop recording a macro",
            Action::RunMacro => "Run the last recorded macro",
            Action::Undo => "Undo the last operation",
            Action::Redo => "Redo the last undone operation",
            Action::Refresh => "Refresh (redraw) the current screen",
            Action::Suspend => "Suspend the editor (return to the shell)",
            Action::CaseSens => "Toggle the case sensitivity of the search",
            Action::Regexp => "Toggle the use of regular expressions",
            Action::Backwards => "Reverse the direction of the search",
            Action::Older => "Recall the previous search/replace/command string",
            Action::Newer => "Recall the next search/replace/command string",
            Action::FlipReplace => "Switch between searching and replacing",
            Action::FlipGoto => "Switch between searching and going to a line",
            Action::FlipExecute => "Switch between inserting a file and running a command",
            Action::FlipPipe => "Pipe the current buffer (or marked region) to the command",
            Action::FlipNewBuffer => "Toggle the use of a new buffer",
            Action::FlipConvert => "Do not convert from DOS/Mac format",
            Action::DosFormat => "Toggle the use of DOS format",
            Action::MacFormat => "Toggle the use of Mac format",
            Action::Append => "Toggle appending",
            Action::Prepend => "Toggle prepending",
            Action::Backup => "Toggle backing up of the original file",
            Action::DiscardBuffer => "Close buffer without saving it",
            Action::Browser => "Go to file browser",
            Action::GotoDir => "Go to directory",
            Action::FirstFile => "Go to the first file in the list",
            Action::LastFile => "Go to the last file in the list",
            Action::NoHelp => "Toggle the display of the shortcut lists",
            Action::Zero => "Toggle the use of the title bar and status bar",
            Action::ConstantShow => "Toggle constant cursor position display",
            Action::SoftWrap => "Toggle the displaying of overlong lines on multiple screen lines",
            Action::LineNumbers => "Toggle the display of line numbers",
            Action::WhitespaceDisplay => "Toggle the visibility of whitespace",
            Action::NoSyntax => "Toggle syntax highlighting",
            Action::SmartHome => "Toggle the smartness of the Home key",
            Action::AutoIndent => "Toggle auto-indent",
            Action::CutFromCursor => "Toggle cutting from cursor to end of line, instead of whole line",
            Action::BreakLongLines => "Toggle whether the overlong part of a line is hard-wrapped",
            Action::TabsToSpaces => "Toggle whether typed tabs are converted to spaces",
            Action::Mouse => "Toggle mouse support",
            Action::ScrollLeft => "Scroll the viewport a tabsize to the left",
            Action::ScrollRight => "Scroll the viewport a tabsize to the right",
        }
    }
}

/// The menu (keystroke context) a binding applies to, named as in
/// `nanorc(5)`.
#[derive(Debug, Clone, Copy, PartialEq, Eq, Hash, Structural)]
pub enum Menu {
    Main,
    Help,
    Search,
    Replace,
    ReplaceWith,
    YesNo,
    GotoLine,
    WriteOut,
    Insert,
    Browser,
    WhereIsFile,
    GotoDir,
    Execute,
    Spell,
    Linter,
}

/// The nanorc name of a menu.
pub open spec fn menu_name(m: Menu) -> Seq<char> {
    match m {
        Menu::Main => "main"@,
        Menu::Help => "help"@,
        Menu::Search => "search"@,
        Menu::Replace => "replace"@,
        Menu::ReplaceWith => "replacewith"@,
        Menu::YesNo => "yesno"@,
        Menu::GotoLine => "gotoline"@,
        Menu::WriteOut => "writeout"@,
        Menu::Insert => "insert"@,
        Menu::Browser => "browser"@,
        Menu::WhereIsFile => "whereisfile"@,
        Menu::GotoDir => "gotodir"@,
        Menu::Execute => "execute"@,
        Menu::Spell => "spell"@,
        Menu::Linter => "linter"@,
    }
}

/// Every menu, in nano's order.
pub open spec fn all_menus() -> Seq<Menu> {
    seq![Menu::Main, Menu::Help, Menu::Search, Menu::Replace, Menu::ReplaceWith, Menu::YesNo, Menu::GotoLine, Menu::WriteOut, Menu::Insert, Menu::Browser, Menu::WhereIsFile, Menu::GotoDir, Menu::Execute, Menu::Spell, Menu::Linter]
}

impl Menu {
    /// Parse a nanorc menu name.
    pub fn from_name(name: &str) -> (r: Option<Menu>)
        ensures
            r matches Some(m) ==> menu_name(m) == name@,
            r is None ==> forall|m: Menu| menu_name(m) != name@,
    {
        if str_eq(name, "main") {
            return Some(Menu::Main);
        }
        if str_eq(name, "help") {
            return Some(Menu::Help);
        }
        if str_eq(name, "search") {
            return Some(Menu::Search);
        }
        if str_eq(name, "replace") {
            return Some(Menu::Replace);
        }
        if str_eq(name, "replacewith") {
            return Some(Menu::ReplaceWith);
        }
        if str_eq(name, "yesno") {
            return Some(Menu::YesNo);
        }
        if str_eq(name, "gotoline") {
            return Some(Menu::GotoLine);
        }
        if str_eq(name, "writeout") {
            return Some(Menu::WriteOut);
        }
        if str_eq(name, "insert") {
            return Some(Menu::Insert);
        }
        if str_eq(name, "browser") {
            return Some(Menu::Browser);
        }
        if str_eq(name, "whereisfile") {
            return Some(Menu::WhereIsFile);
        }
        if str_eq(name, "gotodir") {
            return Some(Menu::GotoDir);
        }
        if str_eq(name, "execute") {
            return Some(Menu::Execute);
        }
        if str_eq(name, "spell") {
            return Some(Menu::Spell);
        }
        if str_eq(name, "linter") {
            return Some(Menu::Linter);
        }
        None
    }

    /// Every menu, in nano's order.
    pub fn all() -> (v: Vec<Menu>)
        ensures
            v@ == all_menus(),
    {
        vec![Menu::Main, Menu::Help, Menu::Search, Menu::Replace, Menu::ReplaceWith, Menu::YesNo, Menu::GotoLine, Menu::WriteOut, Menu::Insert, Menu::Browser, Menu::WhereIsFile, Menu::GotoDir, Menu::Execute, Menu::Spell, Menu::Linter]
    }
}

/// A single keystroke, normalized from terminal input: the rebindable keys
/// (Ctrl/Meta/Shift-Meta/function keys/Ins/Del) of `nanorc(5)`, and the
/// dedicated cursor-moving keys nano documents as not rebindable but which
/// go through the same table.
#[derive(Debug, Clone, Copy, PartialEq, Eq, Hash, Structural)]
pub enum Key {
    /// Ctrl+X: the uppercase letter, one of `@ ] \ ^ _`, or `' '` for Space.
    Ctrl(char),
    /// Meta+X: any ASCII character except `[`, or `' '` for Space.
    Meta(char),
    /// Shift+Meta+letter.
    ShiftMeta(char),
    /// Function key F1..F24.
    F(u8),
    Ins,
    Del,
    ShiftTab,
    Left,
    Right,
    Up,
    Down,
    Home,
    End,
    PageUp,
    PageDown,
    CtrlLeft,
    CtrlRight,
    CtrlUp,
    CtrlDown,
    CtrlHome,
    CtrlEnd,
    CtrlDel,
    ShiftCtrlDel,
    MetaLeft,
    MetaRight,
    MetaUp,
    MetaDown,
    MetaHome,
    MetaEnd,
    MetaPgUp,
    MetaPgDn,
    MetaIns,
    MetaDel,
}

/// Keys nano documents as not reassignable by `bind`/`unbind`.
pub open spec fn rebindable(key: Key) -> bool {
    !(key is Left || key is Right || key is Up || key is Down || key is Home || key is End || key is PageUp
        || key is PageDown)
}

/// Whether `bind`/`unbind` may reassign `key`.
pub fn is_rebindable(key: &Key) -> (r: bool)
    ensures
        r == rebindable(*key),
{
    !matches!(
        key,
        Key::Left | Key::Right | Key::Up | Key::Down | Key::Home | Key::End | Key::PageUp | Key::PageDown
    )
}

/// How nano's help viewer and shortcut bars show a key.
pub open spec fn key_text(k: Key) -> Seq<char> {
    match k {
        Key::Ctrl(c) => if c == ' ' { "^Space"@ } else { "^"@.push(c) },
        Key::Meta(c) => if c == ' ' { "M-Space"@ } else { "M-"@.push(c) },
        Key::ShiftMeta(c) => "Sh-M-"@.push(c),
        Key::F(n) => "F"@ + decimal(n as nat),
        Key::Ins => "Ins"@,
        Key::Del => "Del"@,
        Key::ShiftTab => "Sh-Tab"@,
        Key::Left => "Left"@,
        Key::Right => "Right"@,
        Key::Up => "Up"@,
        Key::Down => "Down"@,
        Key::Home => "Home"@,
        Key::End => "End"@,
        Key::PageUp => "PgUp"@,
        Key::PageDown => "PgDn"@,
        Key::CtrlLeft => "^Left"@,
        Key::CtrlRight => "^Right"@,
        Key::CtrlUp => "^Up"@,
        Key::CtrlDown => "^Down"@,
        Key::CtrlHome => "^Home"@,
        Key::CtrlEnd => "^End"@,
        Key::CtrlDel => "^Del"@,
        Key::ShiftCtrlDel => "Sh-^Del"@,
        Key::MetaLeft => "M-Left"@,
        Key::MetaRight => "M-Right"@,
        Key::MetaUp => "M-Up"@,
        Key::MetaDown => "M-Down"@,
        Key::MetaHome => "M-Home"@,
        Key::MetaEnd => "M-End"@,
        Key::MetaPgUp => "M-PgUp"@,
        Key::MetaPgDn => "M-PgDn"@,
        Key::MetaIns => "M-Ins"@,
        Key::MetaDel => "M-Del"@,
    }
}

/// The order in which an action's keys are listed: Ctrl keys first, then
/// function keys, then Meta keys, then Shift-Meta keys, then the rest.
pub open spec fn key_rank(k: Key) -> (u8, i32) {
    match k {
        Key::Ctrl(c) => (0u8, c as i32),
        Key::CtrlLeft | Key::CtrlRight | Key::CtrlUp | Key::CtrlDown | Key::CtrlHome | Key::CtrlEnd | Key::CtrlDel => (0u8, 0i32),
        Key::F(n) => (1u8, n as i32),
        Key::Meta(c) => (2u8, c as i32),
        Key::ShiftMeta(c) => (3u8, c as i32),
        _ => (4u8, 0i32),
    }
}

/// The letter of `Sh-M-X`: a single ASCII letter, uppercased.
pub open spec fn letter_of(rest: Seq<char>) -> Option<char> {
    if rest.len() == 1 && is_ascii_alpha(rest[0]) {
        Some(ascii_upper(rest[0]))
    } else {
        None
    }
}

/// The character of `^X`: "Space", an ASCII letter (uppercased), or one of
/// `@ ] \ ^ _`.
pub open spec fn ctrl_char_of(rest: Seq<char>) -> Option<char> {
    if ascii_eq_ignore_case(rest, "space"@) {
        Some(' ')
    } else if rest.len() == 1 && is_ascii_alpha(rest[0]) {
        Some(ascii_upper(rest[0]))
    } else if rest.len() == 1 && (rest[0] == '@' || rest[0] == ']' || rest[0] == '\\' || rest[0] == '^' || rest[0] == '_') {
        Some(rest[0])
    } else {
        None
    }
}

/// The character of `M-X`: "Space", or any single ASCII character but '['.
pub open spec fn meta_char_of(rest: Seq<char>) -> Option<char> {
    if ascii_eq_ignore_case(rest, "space"@) {
        Some(' ')
    } else if rest.len() == 1 && rest[0] != '[' && (rest[0] as u32) < 128 {
        Some(rest[0])
    } else {
        None
    }
}

/// The function key number of `FN`/`fN`, when it is 1 to 24.
pub open spec fn fkey_of(spec: Seq<char>) -> Option<u8> {
    if spec.len() > 0 && (spec[0] == 'F' || spec[0] == 'f') {
        match unsigned_value(spec.drop_first()) {
            Some(n) => if 1 <= n <= 24 { Some(n as u8) } else { None },
            None => None,
        }
    } else {
        None
    }
}

/// The key a nanorc key specification names: `^X`, `M-X`, `Sh-M-X`, `FN`
/// (F1..F24), `Ins` or `Del`.
pub open spec fn key_of(spec: Seq<char>) -> Option<Key> {
    if ascii_eq_ignore_case(spec, "ins"@) {
        Some(Key::Ins)
    } else if ascii_eq_ignore_case(spec, "del"@) {
        Some(Key::Del)
    } else if fkey_of(spec) is Some {
        Some(Key::F(fkey_of(spec).unwrap()))
    } else if spec.len() >= 5 && (spec.take(5) == "Sh-M-"@ || spec.take(5) == "sh-m-"@) {
        match letter_of(spec.skip(5)) {
            Some(c) => Some(Key::ShiftMeta(c)),
            None => None,
        }
    } else if spec.len() >= 2 && (spec.take(2) == "M-"@ || spec.take(2) == "m-"@) {
        match meta_char_of(spec.skip(2)) {
            Some(c) => Some(Key::Meta(c)),
            None => None,
        }
    } else if spec.len() >= 1 && spec[0] == '^' {
        match ctrl_char_of(spec.skip(1)) {
            Some(c) => Some(Key::Ctrl(c)),
            None => None,
        }
    } else {
        None
    }
}

fn normalize_letter(rest: &[char]) -> (r: Option<char>)
    ensures
        r == letter_of(rest@),
{
    if rest.len() != 1 {
        return None;
    }
    let c = rest[0];
    if ('a' <= c && c <= 'z') || ('A' <= c && c <= 'Z') {
        Some(crate::text::to_ascii_upper(c))
    } else {
        None
    }
}

fn normalize_ctrl_char(rest: &[char]) -> (r: Option<char>)
    ensures
        r == ctrl_char_of(rest@),
{
    if eq_ignore_case(rest, "space") {
        return Some(' ');
    }
    if rest.len() != 1 {
        return None;
    }
    let c = rest[0];
    if ('a' <= c && c <= 'z') || ('A' <= c && c <= 'Z') {
        Some(crate::text::to_ascii_upper(c))
    } else if c == '@' || c == ']' || c == '\\' || c == '^' || c == '_' {
        Some(c)
    } else {
        None
    }
}

fn normalize_meta_char(rest: &[char]) -> (r: Option<char>)
    ensures
        r == meta_char_of(rest@),
{
    if eq_ignore_case(rest, "space") {
        return Some(' ');
    }
    if rest.len() != 1 {
        return None;
    }
    let c = rest[0];
    if c == '[' || (c as u32) >= 128 {
        None
    } else {
        Some(c)
    }
}

impl Key {
    /// Render a key the way nano's help viewer and shortcut bars do (`^X`,
    /// `M-x`, `Sh-M-X`, `F2`, ...).
    pub fn describe(&self) -> (s: String)
        ensures
            s@ == key_text(*self),
    {
        let mut out: Vec<char> = Vec::new();
        match *self {
            Key::Ctrl(c) => {
                if c == ' ' {
                    push_str(&mut out, "^Space");
                } else {
                    push_str(&mut out, "^");
                    out.push(c);
                }
            },
            Key::Meta(c) => {
                if c == ' ' {
                    push_str(&mut out, "M-Space");
                } else {
                    push_str(&mut out, "M-");
                    out.push(c);
                }
            },
            Key::ShiftMeta(c) => {
                push_str(&mut out, "Sh-M-");
                out.push(c);
            },
            Key::F(n) => {
                push_str(&mut out, "F");
                push_decimal(&mut out, n as usize);
            },
            Key::Ins => push_str(&mut out, "Ins"),
            Key::Del => push_str(&mut out, "Del"),
            Key::ShiftTab => push_str(&mut out, "Sh-Tab"),
            Key::Left => push_str(&mut out, "Left"),
            Key::Right => push_str(&mut out, "Right"),
            Key::Up => push_str(&mut out, "Up"),
            Key::Down => push_str(&mut out, "Down"),
            Key::Home => push_str(&mut out, "Home"),
            Key::End => push_str(&mut out, "End"),
            Key::PageUp => push_str(&mut out, "PgUp"),
            Key::PageDown => push_str(&mut out, "PgDn"),
            Key::CtrlLeft => push_str(&mut out, "^Left"),
            Key::CtrlRight => push_str(&mut out, "^Right"),
            Key::CtrlUp => push_str(&mut out, "^Up"),
            Key::CtrlDown => push_str(&mut out, "^Down"),
            Key::CtrlHome => push_str(&mut out, "^Home"),
            Key::CtrlEnd => push_str(&mut out, "^End"),
            Key::CtrlDel => push_str(&mut out, "^Del"),
            Key::ShiftCtrlDel => push_str(&mut out, "Sh-^Del"),
            Key::MetaLeft => push_str(&mut out, "M-Left"),
            Key::MetaRight => push_str(&mut out, "M-Right"),
            Key::MetaUp => push_str(&mut out, "M-Up"),
            Key::MetaDown => push_str(&mut out, "M-Down"),
            Key::MetaHome => push_str(&mut out, "M-Home"),
            Key::MetaEnd => push_str(&mut out, "M-End"),
            Key::MetaPgUp => push_str(&mut out, "M-PgUp"),
            Key::MetaPgDn => push_str(&mut out, "M-PgDn"),
            Key::MetaIns => push_str(&mut out, "M-Ins"),
            Key::MetaDel => push_str(&mut out, "M-Del"),
        }
        string_from_chars(out.as_slice())
    }

    /// Sort key for listing an action's "primary" key before its
    /// alternates: Ctrl first, then function keys, then Meta.
    pub(crate) fn display_rank(&self) -> (r: (u8, i32))
        ensures
            r == key_rank(*self),
    {
        match *self {
            Key::Ctrl(c) => (0, (c as u32) as i32),
            Key::CtrlLeft | Key::CtrlRight | Key::CtrlUp | Key::CtrlDown | Key::CtrlHome | Key::CtrlEnd | Key::CtrlDel => (0, 0),
            Key::F(n) => (1, n as i32),
            Key::Meta(c) => (2, (c as u32) as i32),
            Key::ShiftMeta(c) => (3, (c as u32) as i32),
            _ => (4, 0),
        }
    }

    /// Parse a key specification as written in a nanorc `bind`/`unbind`
    /// line: `^X`, `M-X`, `Sh-M-X`, `FN` (F1..F24), `Ins`, or `Del`.
    pub fn parse(spec: &str) -> (r: Option<Key>)
        ensures
            r == key_of(spec@),
    {
        let s = str_chars(spec);
        if eq_ignore_case(s.as_slice(), "ins") {
            return Some(Key::Ins);
        }
        if eq_ignore_case(s.as_slice(), "del") {
            return Some(Key::Del);
        }
        if s.len() > 0 && (s[0] == 'F' || s[0] == 'f') {
            let rest = crate::text::sub_chars(s.as_slice(), 1, s.len());
            proof {
                assert(rest@ =~= s@.drop_first());
            }
            if let Some(n) = parse_unsigned(rest.as_slice(), 255) {
                if 1 <= n && n <= 24 {
                    return Some(Key::F(n as u8));
                }
            }
        }
        if has_prefix(s.as_slice(), "Sh-M-") || has_prefix(s.as_slice(), "sh-m-") {
            proof {
                reveal_strlit("Sh-M-");
                reveal_strlit("sh-m-");
            }
            let rest = crate::text::sub_chars(s.as_slice(), 5, s.len());
            proof {
                assert(rest@ =~= s@.skip(5));
            }
            return match normalize_letter(rest.as_slice()) {
                Some(c) => Some(Key::ShiftMeta(c)),
                None => None,
            };
        }
        if has_prefix(s.as_slice(), "M-") || has_prefix(s.as_slice(), "m-") {
            proof {
                reveal_strlit("M-");
                reveal_strlit("m-");
            }
            let rest = crate::text::sub_chars(s.as_slice(), 2, s.len());
            proof {
                assert(rest@ =~= s@.skip(2));
            }
            return match normalize_meta_char(rest.as_slice()) {
                Some(c) => Some(Key::Meta(c)),
                None => None,
            };
        }
        if s.len() > 0 && s[0] == '^' {
            let rest = crate::text::sub_chars(s.as_slice(), 1, s.len());
            proof {
                assert(rest@ =~= s@.skip(1));
            }
            return match normalize_ctrl_char(rest.as_slice()) {
                Some(c) => Some(Key::Ctrl(c)),
                None => None,
            };
        }
        proof {
            reveal_strlit("Sh-M-");
            reveal_strlit("sh-m-");
            reveal_strlit("M-");
            reveal_strlit("m-");
        }
        None
    }
}

/// A binding target: an action, or a literal string to type (nano's
/// `bind key "string" menu` form).
#[derive(Debug, Clone, PartialEq, Eq)]
pub enum Binding {
    Action(Action),
    Macro(String),
}

/// A binding as a mathematical value.
pub enum BindingView {
    Action(Action),
    Macro(Seq<char>),
}

impl View for Binding {
    type V = BindingView;

    open spec fn view(&self) -> BindingView {
        match self {
            Binding::Action(a) => BindingView::Action(*a),
            Binding::Macro(s) => BindingView::Macro(s@),
        }
    }
}

fn copy_binding(b: &Binding) -> (r: Binding)
    ensures
        r@ == b@,
{
    match b {
        Binding::Action(a) => Binding::Action(*a),
        Binding::Macro(s) => Binding::Macro(s.clone()),
    }
}

/// What a table of entries binds: later entries override earlier ones.
pub open spec fn table_map(s: Seq<((Menu, Key), Binding)>) -> Map<(Menu, Key), BindingView>
    decreases s.len(),
{
    if s.len() == 0 {
        Map::empty()
    } else {
        table_map(s.drop_last()).insert(s.last().0, s.last().1@)
    }
}

/// No (menu, key) occurs twice in the table.
pub open spec fn keys_unique(s: Seq<((Menu, Key), Binding)>) -> bool {
    forall|i: int, j: int| 0 <= i < j < s.len() ==> s[i].0 != s[j].0
}

proof fn lemma_table_map_at(s: Seq<((Menu, Key), Binding)>, i: int)
    requires
        keys_unique(s),
        0 <= i < s.len(),
    ensures
        table_map(s).dom().contains(s[i].0),
        table_map(s)[s[i].0] == s[i].1@,
    decreases s.len(),
{
    if i < s.len() - 1 {
        lemma_table_map_at(s.drop_last(), i);
        assert(s.drop_last()[i] == s[i]);
        assert(s[i].0 != s[s.len() - 1].0);
    }
}

proof fn lemma_table_map_absent(s: Seq<((Menu, Key), Binding)>, k: (Menu, Key))
    requires
        forall|i: int| 0 <= i < s.len() ==> s[i].0 != k,
    ensures
        !table_map(s).dom().contains(k),
    decreases s.len(),
{
    if s.len() > 0 {
        assert forall|i: int| 0 <= i < s.drop_last().len() implies s.drop_last()[i].0 != k by {
            assert(s.drop_last()[i] == s[i]);
        }
        lemma_table_map_absent(s.drop_last(), k);
        assert(s[s.len() - 1].0 != k);
    }
}

/// The full key-binding table: (menu, key) to binding, built from nano's
/// defaults and then changed by `bind`/`unbind` directives.
#[derive(Debug)]
pub struct KeyMap {
    table: Vec<((Menu, Key), Binding)>,
}

impl View for KeyMap {
    type V = Map<(Menu, Key), BindingView>;

    closed spec fn view(&self) -> Map<(Menu, Key), BindingView> {
        table_map(self.table@)
    }
}

/// A table's entries as values.
pub open spec fn entries_view(s: Seq<((Menu, Key), Binding)>) -> Seq<((Menu, Key), BindingView)> {
    s.map_values(|e: ((Menu, Key), Binding)| (e.0, e.1@))
}

/// The binding a key has in a menu, falling back to its binding in the main
/// menu.
pub open spec fn lookup_view(m: Map<(Menu, Key), BindingView>, menu: Menu, key: Key) -> Option<BindingView> {
    if m.dom().contains((menu, key)) {
        Some(m[(menu, key)])
    } else if m.dom().contains((Menu::Main, key)) {
        Some(m[(Menu::Main, key)])
    } else {
        None
    }
}

/// The binding a key has in exactly this menu.
pub open spec fn lookup_only_view(m: Map<(Menu, Key), BindingView>, menu: Menu, key: Key) -> Option<BindingView> {
    if m.dom().contains((menu, key)) {
        Some(m[(menu, key)])
    } else {
        None
    }
}

pub open spec fn opt_binding_view(r: Option<&Binding>) -> Option<BindingView> {
    match r {
        Some(b) => Some(b@),
        None => None,
    }
}

/// `m` with each (key, action) of `t` bound in `menu`, in order.
pub open spec fn with_actions(m: Map<(Menu, Key), BindingView>, menu: Menu, t: Seq<(Key, Action)>) -> Map<
    (Menu, Key),
    BindingView,
>
    decreases t.len(),
{
    if t.len() == 0 {
        m
    } else {
        with_actions(m, menu, t.drop_last()).insert((menu, t.last().0), BindingView::Action(t.last().1))
    }
}

/// `m` with the table `t` bound in each of `menus`, in order.
pub open spec fn with_actions_in(m: Map<(Menu, Key), BindingView>, menus: Seq<Menu>, t: Seq<(Key, Action)>) -> Map<
    (Menu, Key),
    BindingView,
>
    decreases menus.len(),
{
    if menus.len() == 0 {
        m
    } else {
        with_actions(with_actions_in(m, menus.drop_last(), t), menus.last(), t)
    }
}

/// The menus other than the main one: the prompts and lists.
pub open spec fn prompt_menus() -> Seq<Menu> {
    all_menus().drop_first()
}

/// The menus with a history of entries to recall.
pub open spec fn history_menus() -> Seq<Menu> {
    seq![Menu::Search, Menu::Replace, Menu::ReplaceWith, Menu::Execute]
}

pub open spec fn main_table() -> Seq<(Key, Action)> {
    seq![
        (Key::Ctrl('G'), Action::Help),
        (Key::F(1), Action::Help),
        (Key::Ctrl('X'), Action::Exit),
        (Key::F(2), Action::Exit),
        (Key::Ctrl('O'), Action::WriteOut),
        (Key::F(3), Action::WriteOut),
        (Key::Ctrl('R'), Action::Insert),
        (Key::Ins, Action::Insert),
        (Key::Ctrl('F'), Action::WhereIs),
        (Key::Ctrl('W'), Action::WhereIs),
        (Key::F(6), Action::WhereIs),
        (Key::Ctrl('B'), Action::WhereWas),
        (Key::Ctrl('Q'), Action::WhereWas),
        (Key::Meta('B'), Action::FindPrevious),
        (Key::Meta('Q'), Action::FindPrevious),
        (Key::Meta('F'), Action::FindNext),
        (Key::Meta('W'), Action::FindNext),
        (Key::Ctrl('\\'), Action::Replace),
        (Key::Meta('R'), Action::Replace),
        (Key::Ctrl('K'), Action::Cut),
        (Key::F(9), Action::Cut),
        (Key::Ctrl('U'), Action::Paste),
        (Key::F(10), Action::Paste),
        (Key::Meta('T'), Action::CutRestOfFile),
        (Key::Meta('6'), Action::Copy),
        (Key::Meta('^'), Action::Copy),
        (Key::MetaDel, Action::Zap),
        (Key::ShiftCtrlDel, Action::ChopWordLeft),
        (Key::CtrlDel, Action::ChopWordRight),
        (Key::Ctrl('T'), Action::Execute),
        (Key::F(12), Action::Speller),
        (Key::Ctrl('J'), Action::Justify),
        (Key::F(4), Action::Justify),
        (Key::Meta('J'), Action::FullJustify),
        (Key::Meta('}'), Action::Indent),
        (Key::Meta('{'), Action::Unindent),
        (Key::ShiftTab, Action::Unindent),
        (Key::Meta('3'), Action::Comment),
        (Key::Ctrl(']'), Action::Complete),
        (Key::Left, Action::Left),
        (Key::Right, Action::Right),
        (Key::Up, Action::Up),
        (Key::Down, Action::Down),
        (Key::Ctrl('P'), Action::Up),
        (Key::Ctrl('N'), Action::Down),
        (Key::Meta('-'), Action::ScrollUp),
        (Key::Meta('_'), Action::ScrollUp),
        (Key::MetaUp, Action::ScrollUp),
        (Key::Meta('+'), Action::ScrollDown),
        (Key::Meta('='), Action::ScrollDown),
        (Key::MetaDown, Action::ScrollDown),
        (Key::Ctrl('L'), Action::Center),
        (Key::Meta('%'), Action::Cycle),
        (Key::CtrlLeft, Action::PrevWord),
        (Key::Meta(' '), Action::PrevWord),
        (Key::CtrlRight, Action::NextWord),
        (Key::Ctrl(' '), Action::NextWord),
        (Key::Ctrl('A'), Action::Home),
        (Key::Home, Action::Home),
        (Key::Ctrl('E'), Action::End),
        (Key::End, Action::End),
        (Key::Meta('('), Action::BeginPara),
        (Key::Meta('9'), Action::BeginPara),
        (Key::Meta(')'), Action::EndPara),
        (Key::Meta('0'), Action::EndPara),
        (Key::CtrlUp, Action::PrevBlock),
        (Key::Meta('7'), Action::PrevBlock),
        (Key::CtrlDown, Action::NextBlock),
        (Key::Meta('8'), Action::NextBlock),
        (Key::MetaHome, Action::TopRow),
        (Key::MetaEnd, Action::BottomRow),
        (Key::Ctrl('Y'), Action::PageUp),
        (Key::PageUp, Action::PageUp),
        (Key::Ctrl('V'), Action::PageDown),
        (Key::PageDown, Action::PageDown),
        (Key::Meta('\\'), Action::FirstLine),
        (Key::CtrlHome, Action::FirstLine),
        (Key::Meta('/'), Action::LastLine),
        (Key::CtrlEnd, Action::LastLine),
        (Key::Ctrl('_'), Action::GotoLine),
        (Key::Meta('G'), Action::GotoLine),
        (Key::Meta(']'), Action::FindBracket),
        (Key::Meta('"'), Action::Anchor),
        (Key::MetaIns, Action::Anchor),
        (Key::MetaPgUp, Action::PrevAnchor),
        (Key::MetaPgDn, Action::NextAnchor),
        (Key::Meta('\''), Action::NextAnchor),
        (Key::MetaLeft, Action::PrevBuf),
        (Key::Meta(','), Action::PrevBuf),
        (Key::MetaRight, Action::NextBuf),
        (Key::Meta('.'), Action::NextBuf),
        (Key::Meta('V'), Action::Verbatim),
        (Key::Ctrl('I'), Action::Tab),
        (Key::Ctrl('M'), Action::Enter),
        (Key::Ctrl('D'), Action::Delete),
        (Key::Ctrl('H'), Action::Backspace),
        (Key::Meta(':'), Action::RecordMacro),
        (Key::Meta(';'), Action::RunMacro),
        (Key::Meta('U'), Action::Undo),
        (Key::Meta('E'), Action::Redo),
        (Key::Ctrl('S'), Action::SaveFile),
        (Key::Ctrl('C'), Action::Location),
        (Key::F(11), Action::Location),
        (Key::Meta('D'), Action::WordCount),
        (Key::Meta('<'), Action::ScrollLeft),
        (Key::Meta('>'), Action::ScrollRight),
        (Key::Meta('Z'), Action::Zero),
        (Key::Meta('X'), Action::NoHelp),
        (Key::Meta('C'), Action::ConstantShow),
        (Key::Meta('S'), Action::SoftWrap),
        (Key::Meta('N'), Action::LineNumbers),
        (Key::Meta('P'), Action::WhitespaceDisplay),
        (Key::Meta('Y'), Action::NoSyntax),
        (Key::Meta('H'), Action::SmartHome),
        (Key::Meta('I'), Action::AutoIndent),
        (Key::Meta('K'), Action::CutFromCursor),
        (Key::Meta('L'), Action::BreakLongLines),
        (Key::Meta('O'), Action::TabsToSpaces),
        (Key::Meta('M'), Action::Mouse),
    ]
}

pub open spec fn common_prompt_table() -> Seq<(Key, Action)> {
    seq![
        (Key::Ctrl('C'), Action::Cancel),
        (Key::Ctrl('G'), Action::Help),
        (Key::Left, Action::Left),
        (Key::Right, Action::Right),
        (Key::Home, Action::Home),
        (Key::End, Action::End),
        (Key::Ctrl('H'), Action::Backspace),
        (Key::Ctrl('D'), Action::Delete),
    ]
}

pub open spec fn history_table() -> Seq<(Key, Action)> {
    seq![
        (Key::Ctrl('P'), Action::Older),
        (Key::Ctrl('N'), Action::Newer),
        (Key::Up, Action::Older),
        (Key::Down, Action::Newer),
    ]
}

pub open spec fn search_table() -> Seq<(Key, Action)> {
    seq![
        (Key::Ctrl('M'), Action::WhereIs),
        (Key::Ctrl('R'), Action::FlipReplace),
        (Key::Ctrl('T'), Action::FlipGoto),
        (Key::Ctrl('Y'), Action::FirstLine),
        (Key::Ctrl('V'), Action::LastLine),
        (Key::Meta('C'), Action::CaseSens),
        (Key::Meta('R'), Action::Regexp),
        (Key::Meta('B'), Action::Backwards),
    ]
}

pub open spec fn replace_table() -> Seq<(Key, Action)> {
    seq![
        (Key::Ctrl('M'), Action::Replace),
        (Key::Ctrl('R'), Action::FlipReplace),
        (Key::Meta('C'), Action::CaseSens),
        (Key::Meta('R'), Action::Regexp),
        (Key::Meta('B'), Action::Backwards),
    ]
}

pub open spec fn replacewith_table() -> Seq<(Key, Action)> {
    seq![
        (Key::Ctrl('M'), Action::Replace),
    ]
}

pub open spec fn gotoline_table() -> Seq<(Key, Action)> {
    seq![
        (Key::Ctrl('M'), Action::GotoLine),
        (Key::Ctrl('T'), Action::FlipGoto),
        (Key::Ctrl('Y'), Action::FirstLine),
        (Key::Ctrl('V'), Action::LastLine),
        (Key::Ctrl('W'), Action::BeginPara),
        (Key::Ctrl('O'), Action::EndPara),
    ]
}

pub open spec fn writeout_table() -> Seq<(Key, Action)> {
    seq![
        (Key::Ctrl('M'), Action::WriteOut),
        (Key::Ctrl('Q'), Action::DiscardBuffer),
        (Key::Meta('D'), Action::DosFormat),
        (Key::Meta('M'), Action::MacFormat),
        (Key::Meta('A'), Action::Append),
        (Key::Meta('P'), Action::Prepend),
        (Key::Meta('B'), Action::Backup),
    ]
}

pub open spec fn insert_table() -> Seq<(Key, Action)> {
    seq![
        (Key::Ctrl('M'), Action::Insert),
        (Key::Meta('F'), Action::FlipNewBuffer),
        (Key::Meta('N'), Action::FlipConvert),
        (Key::Ctrl('X'), Action::FlipExecute),
    ]
}

pub open spec fn execute_table() -> Seq<(Key, Action)> {
    seq![
        (Key::Ctrl('M'), Action::Execute),
        (Key::Ctrl('G'), Action::Help),
        (Key::Ctrl('T'), Action::Speller),
        (Key::Ctrl('Y'), Action::Linter),
        (Key::Ctrl('O'), Action::Formatter),
        (Key::Ctrl('V'), Action::CutRestOfFile),
        (Key::Ctrl('Z'), Action::Suspend),
        (Key::Ctrl('J'), Action::FullJustify),
        (Key::Ctrl('X'), Action::FlipExecute),
        (Key::Meta('F'), Action::FlipNewBuffer),
        (Key::Meta('\\'), Action::FlipPipe),
    ]
}

pub open spec fn help_table() -> Seq<(Key, Action)> {
    seq![
        (Key::Home, Action::FirstLine),
        (Key::End, Action::LastLine),
        (Key::Up, Action::Up),
        (Key::Down, Action::Down),
        (Key::Ctrl('P'), Action::Up),
        (Key::Ctrl('N'), Action::Down),
        (Key::PageUp, Action::PageUp),
        (Key::PageDown, Action::PageDown),
        (Key::Ctrl('Y'), Action::PageUp),
        (Key::Ctrl('V'), Action::PageDown),
        (Key::Meta('\\'), Action::FirstLine),
        (Key::Meta('/'), Action::LastLine),
        (Key::Ctrl('X'), Action::Cancel),
    ]
}

pub open spec fn linter_table() -> Seq<(Key, Action)> {
    seq![
        (Key::Ctrl('X'), Action::Cancel),
        (Key::Ctrl('C'), Action::Cancel),
        (Key::Ctrl('M'), Action::Cancel),
        (Key::PageUp, Action::PageUp),
        (Key::PageDown, Action::PageDown),
    ]
}

fn main_table_exec() -> (v: Vec<(Key, Action)>)
    ensures
        v@ == main_table(),
{
    let v = vec![
            (Key::Ctrl('G'), Action::Help),
            (Key::F(1), Action::Help),
            (Key::Ctrl('X'), Action::Exit),
            (Key::F(2), Action::Exit),
            (Key::Ctrl('O'), Action::WriteOut),
            (Key::F(3), Action::WriteOut),
            (Key::Ctrl('R'), Action::Insert),
            (Key::Ins, Action::Insert),
            (Key::Ctrl('F'), Action::WhereIs),
            (Key::Ctrl('W'), Action::WhereIs),
            (Key::F(6), Action::WhereIs),
            (Key::Ctrl('B'), Action::WhereWas),
            (Key::Ctrl('Q'), Action::WhereWas),
            (Key::Meta('B'), Action::FindPrevious),
            (Key::Meta('Q'), Action::FindPrevious),
            (Key::Meta('F'), Action::FindNext),
            (Key::Meta('W'), Action::FindNext),
            (Key::Ctrl('\\'), Action::Replace),
            (Key::Meta('R'), Action::Replace),
            (Key::Ctrl('K'), Action::Cut),
            (Key::F(9), Action::Cut),
            (Key::Ctrl('U'), Action::Paste),
            (Key::F(10), Action::Paste),
            (Key::Meta('T'), Action::CutRestOfFile),
            (Key::Meta('6'), Action::Copy),
            (Key::Meta('^'), Action::Copy),
            (Key::MetaDel, Action::Zap),
            (Key::ShiftCtrlDel, Action::ChopWordLeft),
            (Key::CtrlDel, Action::ChopWordRight),
            (Key::Ctrl('T'), Action::Execute),
            (Key::F(12), Action::Speller),
            (Key::Ctrl('J'), Action::Justify),
            (Key::F(4), Action::Justify),
            (Key::Meta('J'), Action::FullJustify),
            (Key::Meta('}'), Action::Indent),
            (Key::Meta('{'), Action::Unindent),
            (Key::ShiftTab, Action::Unindent),
            (Key::Meta('3'), Action::Comment),
            (Key::Ctrl(']'), Action::Complete),
            (Key::Left, Action::Left),
            (Key::Right, Action::Right),
            (Key::Up, Action::Up),
            (Key::Down, Action::Down),
            (Key::Ctrl('P'), Action::Up),
            (Key::Ctrl('N'), Action::Down),
            (Key::Meta('-'), Action::ScrollUp),
            (Key::Meta('_'), Action::ScrollUp),
            (Key::MetaUp, Action::ScrollUp),
            (Key::Meta('+'), Action::ScrollDown),
            (Key::Meta('='), Action::ScrollDown),
            (Key::MetaDown, Action::ScrollDown),
            (Key::Ctrl('L'), Action::Center),
            (Key::Meta('%'), Action::Cycle),
            (Key::CtrlLeft, Action::PrevWord),
            (Key::Meta(' '), Action::PrevWord),
            (Key::CtrlRight, Action::NextWord),
            (Key::Ctrl(' '), Action::NextWord),
            (Key::Ctrl('A'), Action::Home),
            (Key::Home, Action::Home),
            (Key::Ctrl('E'), Action::End),
            (Key::End, Action::End),
            (Key::Meta('('), Action::BeginPara),
            (Key::Meta('9'), Action::BeginPara),
            (Key::Meta(')'), Action::EndPara),
            (Key::Meta('0'), Action::EndPara),
            (Key::CtrlUp, Action::PrevBlock),
            (Key::Meta('7'), Action::PrevBlock),
            (Key::CtrlDown, Action::NextBlock),
            (Key::Meta('8'), Action::NextBlock),
            (Key::MetaHome, Action::TopRow),
            (Key::MetaEnd, Action::BottomRow),
            (Key::Ctrl('Y'), Action::PageUp),
            (Key::PageUp, Action::PageUp),
            (Key::Ctrl('V'), Action::PageDown),
            (Key::PageDown, Action::PageDown),
            (Key::Meta('\\'), Action::FirstLine),
            (Key::CtrlHome, Action::FirstLine),
            (Key::Meta('/'), Action::LastLine),
            (Key::CtrlEnd, Action::LastLine),
            (Key::Ctrl('_'), Action::GotoLine),
            (Key::Meta('G'), Action::GotoLine),
            (Key::Meta(']'), Action::FindBracket),
            (Key::Meta('"'), Action::Anchor),
            (Key::MetaIns, Action::Anchor),
            (Key::MetaPgUp, Action::PrevAnchor),
            (Key::MetaPgDn, Action::NextAnchor),
            (Key::Meta('\''), Action::NextAnchor),
            (Key::MetaLeft, Action::PrevBuf),
            (Key::Meta(','), Action::PrevBuf),
            (Key::MetaRight, Action::NextBuf),
            (Key::Meta('.'), Action::NextBuf),
            (Key::Meta('V'), Action::Verbatim),
            (Key::Ctrl('I'), Action::Tab),
            (Key::Ctrl('M'), Action::Enter),
            (Key::Ctrl('D'), Action::Delete),
            (Key::Ctrl('H'), Action::Backspace),
            (Key::Meta(':'), Action::RecordMacro),
            (Key::Meta(';'), Action::RunMacro),
            (Key::Meta('U'), Action::Undo),
            (Key::Meta('E'), Action::Redo),
            (Key::Ctrl('S'), Action::SaveFile),
            (Key::Ctrl('C'), Action::Location),
            (Key::F(11), Action::Location),
            (Key::Meta('D'), Action::WordCount),
            (Key::Meta('<'), Action::ScrollLeft),
            (Key::Meta('>'), Action::ScrollRight),
            (Key::Meta('Z'), Action::Zero),
            (Key::Meta('X'), Action::NoHelp),
            (Key::Meta('C'), Action::ConstantShow),
            (Key::Meta('S'), Action::SoftWrap),
            (Key::Meta('N'), Action::LineNumbers),
            (Key::Meta('P'), Action::WhitespaceDisplay),
            (Key::Meta('Y'), Action::NoSyntax),
            (Key::Meta('H'), Action::SmartHome),
            (Key::Meta('I'), Action::AutoIndent),
            (Key::Meta('K'), Action::CutFromCursor),
            (Key::Meta('L'), Action::BreakLongLines),
            (Key::Meta('O'), Action::TabsToSpaces),
            (Key::Meta('M'), Action::Mouse),
        ];
    assert(v@ =~= main_table());
    v
}

fn common_prompt_table_exec() -> (v: Vec<(Key, Action)>)
    ensures
        v@ == common_prompt_table(),
{
    let v = vec![
            (Key::Ctrl('C'), Action::Cancel),
            (Key::Ctrl('G'), Action::Help),
            (Key::Left, Action::Left),
            (Key::Right, Action::Right),
            (Key::Home, Action::Home),
            (Key::End, Action::End),
            (Key::Ctrl('H'), Action::Backspace),
            (Key::Ctrl('D'), Action::Delete),
        ];
    assert(v@ =~= common_prompt_table());
    v
}

fn history_table_exec() -> (v: Vec<(Key, Action)>)
    ensures
        v@ == history_table(),
{
    let v = vec![
            (Key::Ctrl('P'), Action::Older),
            (Key::Ctrl('N'), Action::Newer),
            (Key::Up, Action::Older),
            (Key::Down, Action::Newer),
        ];
    assert(v@ =~= history_table());
    v
}

fn search_table_exec() -> (v: Vec<(Key, Action)>)
    ensures
        v@ == search_table(),
{
    let v = vec![
            (Key::Ctrl('M'), Action::WhereIs),
            (Key::Ctrl('R'), Action::FlipReplace),
            (Key::Ctrl('T'), Action::FlipGoto),
            (Key::Ctrl('Y'), Action::FirstLine),
            (Key::Ctrl('V'), Action::LastLine),
            (Key::Meta('C'), Action::CaseSens),
            (Key::Meta('R'), Action::Regexp),
            (Key::Meta('B'), Action::Backwards),
        ];
    assert(v@ =~= search_table());
    v
}

fn replace_table_exec() -> (v: Vec<(Key, Action)>)
    ensures
        v@ == replace_table(),
{
    let v = vec![
            (Key::Ctrl('M'), Action::Replace),
            (Key::Ctrl('R'), Action::FlipReplace),
            (Key::Meta('C'), Action::CaseSens),
            (Key::Meta('R'), Action::Regexp),
            (Key::Meta('B'), Action::Backwards),
        ];
    assert(v@ =~= replace_table());
    v
}

fn replacewith_table_exec() -> (v: Vec<(Key, Action)>)
    ensures
        v@ == replacewith_table(),
{
    let v = vec![
            (Key::Ctrl('M'), Action::Replace),
        ];
    assert(v@ =~= replacewith_table());
    v
}

fn gotoline_table_exec() -> (v: Vec<(Key, Action)>)
    ensures
        v@ == gotoline_table(),
{
    let v = vec![
            (Key::Ctrl('M'), Action::GotoLine),
            (Key::Ctrl('T'), Action::FlipGoto),
            (Key::Ctrl('Y'), Action::FirstLine),
            (Key::Ctrl('V'), Action::LastLine),
            (Key::Ctrl('W'), Action::BeginPara),
            (Key::Ctrl('O'), Action::EndPara),
        ];
    assert(v@ =~= gotoline_table());
    v
}

fn writeout_table_exec() -> (v: Vec<(Key, Action)>)
    ensures
        v@ == writeout_table(),
{
    let v = vec![
            (Key::Ctrl('M'), Action::WriteOut),
            (Key::Ctrl('Q'), Action::DiscardBuffer),
            (Key::Meta('D'), Action::DosFormat),
            (Key::Meta('M'), Action::MacFormat),
            (Key::Meta('A'), Action::Append),
            (Key::Meta('P'), Action::Prepend),
            (Key::Meta('B'), Action::Backup),
        ];
    assert(v@ =~= writeout_table());
    v
}

fn insert_table_exec() -> (v: Vec<(Key, Action)>)
    ensures
        v@ == insert_table(),
{
    let v = vec![
            (Key::Ctrl('M'), Action::Insert),
            (Key::Meta('F'), Action::FlipNewBuffer),
            (Key::Meta('N'), Action::FlipConvert),
            (Key::Ctrl('X'), Action::FlipExecute),
        ];
    assert(v@ =~= insert_table());
    v
}

fn execute_table_exec() -> (v: Vec<(Key, Action)>)
    ensures
        v@ == execute_table(),
{
    let v = vec![
            (Key::Ctrl('M'), Action::Execute),
            (Key::Ctrl('G'), Action::Help),
            (Key::Ctrl('T'), Action::Speller),
            (Key::Ctrl('Y'), Action::Linter),
            (Key::Ctrl('O'), Action::Formatter),
            (Key::Ctrl('V'), Action::CutRestOfFile),
            (Key::Ctrl('Z'), Action::Suspend),
            (Key::Ctrl('J'), Action::FullJustify),
            (Key::Ctrl('X'), Action::FlipExecute),
            (Key::Meta('F'), Action::FlipNewBuffer),
            (Key::Meta('\\'), Action::FlipPipe),
        ];
    assert(v@ =~= execute_table());
    v
}

fn help_table_exec() -> (v: Vec<(Key, Action)>)
    ensures
        v@ == help_table(),
{
    let v = vec![
            (Key::Home, Action::FirstLine),
            (Key::End, Action::LastLine),
            (Key::Up, Action::Up),
            (Key::Down, Action::Down),
            (Key::Ctrl('P'), Action::Up),
            (Key::Ctrl('N'), Action::Down),
            (Key::PageUp, Action::PageUp),
            (Key::PageDown, Action::PageDown),
            (Key::Ctrl('Y'), Action::PageUp),
            (Key::Ctrl('V'), Action::PageDown),
            (Key::Meta('\\'), Action::FirstLine),
            (Key::Meta('/'), Action::LastLine),
            (Key::Ctrl('X'), Action::Cancel),
        ];
    assert(v@ =~= help_table());
    v
}

fn linter_table_exec() -> (v: Vec<(Key, Action)>)
    ensures
        v@ == linter_table(),
{
    let v = vec![
            (Key::Ctrl('X'), Action::Cancel),
            (Key::Ctrl('C'), Action::Cancel),
            (Key::Ctrl('M'), Action::Cancel),
            (Key::PageUp, Action::PageUp),
            (Key::PageDown, Action::PageDown),
        ];
    assert(v@ =~= linter_table());
    v
}

/// nano's default bindings: the main menu's, then those shared by every
/// prompt, then each prompt's own.
pub open spec fn default_bindings() -> Map<(Menu, Key), BindingView> {
    let m = with_actions(Map::empty(), Menu::Main, main_table());
    let m = with_actions_in(m, prompt_menus(), common_prompt_table());
    let m = with_actions(m, Menu::Search, search_table());
    let m = with_actions(m, Menu::Replace, replace_table());
    let m = with_actions(m, Menu::ReplaceWith, replacewith_table());
    let m = with_actions_in(m, history_menus(), history_table());
    let m = with_actions(m, Menu::GotoLine, gotoline_table());
    let m = with_actions(m, Menu::WriteOut, writeout_table());
    let m = with_actions(m, Menu::Insert, insert_table());
    let m = with_actions(m, Menu::Execute, execute_table());
    let m = with_actions(m, Menu::Help, help_table());
    with_actions(m, Menu::Linter, linter_table())
}


// ---------------------------------------------------------------------
// nano's default bindings, as nano lists them
// ---------------------------------------------------------------------

/// nano's default bindings for the main editing menu, in nano's order.
pub open spec fn nano_main_listing() -> Seq<(Key, Action)> {
    seq![
        (Key::Ctrl('G'), Action::Help),
        (Key::F(1), Action::Help),
        (Key::Ctrl('X'), Action::Exit),
        (Key::F(2), Action::Exit),
        (Key::Ctrl('O'), Action::WriteOut),
        (Key::F(3), Action::WriteOut),
        (Key::Ctrl('R'), Action::Insert),
        (Key::Ins, Action::Insert),
        (Key::Ctrl('F'), Action::WhereIs),
        (Key::Ctrl('W'), Action::WhereIs),
        (Key::F(6), Action::WhereIs),
        (Key::Ctrl('B'), Action::WhereWas),
        (Key::Ctrl('Q'), Action::WhereWas),
        (Key::Meta('B'), Action::FindPrevious),
        (Key::Meta('Q'), Action::FindPrevious),
        (Key::Meta('F'), Action::FindNext),
        (Key::Meta('W'), Action::FindNext),
        (Key::Ctrl('\\'), Action::Replace),
        (Key::Meta('R'), Action::Replace),
        (Key::Ctrl('K'), Action::Cut),
        (Key::F(9), Action::Cut),
        (Key::Ctrl('U'), Action::Paste),
        (Key::F(10), Action::Paste),
        (Key::Meta('T'), Action::CutRestOfFile),
        (Key::Meta('6'), Action::Copy),
        (Key::Meta('^'), Action::Copy),
        (Key::MetaDel, Action::Zap),
        (Key::ShiftCtrlDel, Action::ChopWordLeft),
        (Key::CtrlDel, Action::ChopWordRight),
        (Key::Ctrl('T'), Action::Execute),
        (Key::F(12), Action::Speller),
        (Key::Ctrl('J'), Action::Justify),
        (Key::F(4), Action::Justify),
        (Key::Meta('J'), Action::FullJustify),
        (Key::Meta('}'), Action::Indent),
        (Key::Meta('{'), Action::Unindent),
        (Key::ShiftTab, Action::Unindent),
        (Key::Meta('3'), Action::Comment),
        (Key::Ctrl(']'), Action::Complete),
        (Key::Left, Action::Left),
        (Key::Right, Action::Right),
        (Key::Up, Action::Up),
        (Key::Down, Action::Down),
        (Key::Ctrl('P'), Action::Up),
        (Key::Ctrl('N'), Action::Down),
        (Key::Meta('-'), Action::ScrollUp),
        (Key::Meta('_'), Action::ScrollUp),
        (Key::MetaUp, Action::ScrollUp),
        (Key::Meta('+'), Action::ScrollDown),
        (Key::Meta('='), Action::ScrollDown),
        (Key::MetaDown, Action::ScrollDown),
        (Key::Ctrl('L'), Action::Center),
        (Key::Meta('%'), Action::Cycle),
        (Key::CtrlLeft, Action::PrevWord),
        (Key::Meta(' '), Action::PrevWord),
        (Key::CtrlRight, Action::NextWord),
        (Key::Ctrl(' '), Action::NextWord),
        (Key::Ctrl('A'), Action::Home),
        (Key::Home, Action::Home),
        (Key::Ctrl('E'), Action::End),
        (Key::End, Action::End),
        (Key::Meta('('), Action::BeginPara),
        (Key::Meta('9'), Action::BeginPara),
        (Key::Meta(')'), Action::EndPara),
        (Key::Meta('0'), Action::EndPara),
        (Key::CtrlUp, Action::PrevBlock),
        (Key::Meta('7'), Action::PrevBlock),
        (Key::CtrlDown, Action::NextBlock),
        (Key::Meta('8'), Action::NextBlock),
        (Key::MetaHome, Action::TopRow),
        (Key::MetaEnd, Action::BottomRow),
        (Key::Ctrl('Y'), Action::PageUp),
        (Key::PageUp, Action::PageUp),
        (Key::Ctrl('V'), Action::PageDown),
        (Key::PageDown, Action::PageDown),
        (Key::Meta('\\'), Action::FirstLine),
        (Key::CtrlHome, Action::FirstLine),
        (Key::Meta('/'), Action::LastLine),
        (Key::CtrlEnd, Action::LastLine),
        (Key::Ctrl('_'), Action::GotoLine),
        (Key::Meta('G'), Action::GotoLine),
        (Key::Meta(']'), Action::FindBracket),
        (Key::Meta('"'), Action::Anchor),
        (Key::MetaIns, Action::Anchor),
        (Key::MetaPgUp, Action::PrevAnchor),
        (Key::MetaPgDn, Action::NextAnchor),
        (Key::Meta('\''), Action::NextAnchor),
        (Key::MetaLeft, Action::PrevBuf),
        (Key::Meta(','), Action::PrevBuf),
        (Key::MetaRight, Action::NextBuf),
        (Key::Meta('.'), Action::NextBuf),
        (Key::Meta('V'), Action::Verbatim),
        (Key::Ctrl('I'), Action::Tab),
        (Key::Ctrl('M'), Action::Enter),
        (Key::Ctrl('D'), Action::Delete),
        (Key::Ctrl('H'), Action::Backspace),
        (Key::Meta(':'), Action::RecordMacro),
        (Key::Meta(';'), Action::RunMacro),
        (Key::Meta('U'), Action::Undo),
        (Key::Meta('E'), Action::Redo),
        (Key::Ctrl('S'), Action::SaveFile),
        (Key::Ctrl('C'), Action::Location),
        (Key::F(11), Action::Location),
        (Key::Meta('D'), Action::WordCount),
        (Key::Meta('<'), Action::ScrollLeft),
        (Key::Meta('>'), Action::ScrollRight),
        (Key::Meta('Z'), Action::Zero),
        (Key::Meta('X'), Action::NoHelp),
        (Key::Meta('C'), Action::ConstantShow),
        (Key::Meta('S'), Action::SoftWrap),
        (Key::Meta('N'), Action::LineNumbers),
        (Key::Meta('P'), Action::WhitespaceDisplay),
        (Key::Meta('Y'), Action::NoSyntax),
        (Key::Meta('H'), Action::SmartHome),
        (Key::Meta('I'), Action::AutoIndent),
        (Key::Meta('K'), Action::CutFromCursor),
        (Key::Meta('L'), Action::BreakLongLines),
        (Key::Meta('O'), Action::TabsToSpaces),
        (Key::Meta('M'), Action::Mouse),
    ]
}

/// nano's default bindings for every menu but the main one, in nano's order.
pub open spec fn nano_prompt_listing() -> Seq<(Key, Action)> {
    seq![
        (Key::Ctrl('C'), Action::Cancel),
        (Key::Ctrl('G'), Action::Help),
        (Key::Left, Action::Left),
        (Key::Right, Action::Right),
        (Key::Home, Action::Home),
        (Key::End, Action::End),
        (Key::Ctrl('H'), Action::Backspace),
        (Key::Ctrl('D'), Action::Delete),
    ]
}

/// nano's default bindings for the menus that recall earlier entries, in nano's order.
pub open spec fn nano_history_listing() -> Seq<(Key, Action)> {
    seq![
        (Key::Ctrl('P'), Action::Older),
        (Key::Ctrl('N'), Action::Newer),
        (Key::Up, Action::Older),
        (Key::Down, Action::Newer),
    ]
}

/// nano's default bindings for the Search menu, in nano's order.
pub open spec fn nano_search_listing() -> Seq<(Key, Action)> {
    seq![
        (Key::Ctrl('M'), Action::WhereIs),
        (Key::Ctrl('R'), Action::FlipReplace),
        (Key::Ctrl('T'), Action::FlipGoto),
        (Key::Ctrl('Y'), Action::FirstLine),
        (Key::Ctrl('V'), Action::LastLine),
        (Key::Meta('C'), Action::CaseSens),
        (Key::Meta('R'), Action::Regexp),
        (Key::Meta('B'), Action::Backwards),
    ]
}

/// nano's default bindings for the Replace menu, in nano's order.
pub open spec fn nano_replace_listing() -> Seq<(Key, Action)> {
    seq![
        (Key::Ctrl('M'), Action::Replace),
        (Key::Ctrl('R'), Action::FlipReplace),
        (Key::Meta('C'), Action::CaseSens),
        (Key::Meta('R'), Action::Regexp),
        (Key::Meta('B'), Action::Backwards),
    ]
}

/// nano's default bindings for the ReplaceWith menu, in nano's order.
pub open spec fn nano_replacewith_listing() -> Seq<(Key, Action)> {
    seq![
        (Key::Ctrl('M'), Action::Replace),
    ]
}

/// nano's default bindings for the GotoLine menu, in nano's order.
pub open spec fn nano_gotoline_listing() -> Seq<(Key, Action)> {
    seq![
        (Key::Ctrl('M'), Action::GotoLine),
        (Key::Ctrl('T'), Action::FlipGoto),
        (Key::Ctrl('Y'), Action::FirstLine),
        (Key::Ctrl('V'), Action::LastLine),
        (Key::Ctrl('W'), Action::BeginPara),
        (Key::Ctrl('O'), Action::EndPara),
    ]
}

/// nano's default bindings for the WriteOut menu, in nano's order.
pub open spec fn nano_writeout_listing() -> Seq<(Key, Action)> {
    seq![
        (Key::Ctrl('M'), Action::WriteOut),
        (Key::Ctrl('Q'), Action::DiscardBuffer),
        (Key::Meta('D'), Action::DosFormat),
        (Key::Meta('M'), Action::MacFormat),
        (Key::Meta('A'), Action::Append),
        (Key::Meta('P'), Action::Prepend),
        (Key::Meta('B'), Action::Backup),
    ]
}

/// nano's default bindings for the Insert menu, in nano's order.
pub open spec fn nano_insert_listing() -> Seq<(Key, Action)> {
    seq![
        (Key::Ctrl('M'), Action::Insert),
        (Key::Meta('F'), Action::FlipNewBuffer),
        (Key::Meta('N'), Action::FlipConvert),
        (Key::Ctrl('X'), Action::FlipExecute),
    ]
}

/// nano's default bindings for the Execute menu, in nano's order.
pub open spec fn nano_execute_listing() -> Seq<(Key, Action)> {
    seq![
        (Key::Ctrl('M'), Action::Execute),
        (Key::Ctrl('G'), Action::Help),
        (Key::Ctrl('T'), Action::Speller),
        (Key::Ctrl('Y'), Action::Linter),
        (Key::Ctrl('O'), Action::Formatter),
        (Key::Ctrl('V'), Action::CutRestOfFile),
        (Key::Ctrl('Z'), Action::Suspend),
        (Key::Ctrl('J'), Action::FullJustify),
        (Key::Ctrl('X'), Action::FlipExecute),
        (Key::Meta('F'), Action::FlipNewBuffer),
        (Key::Meta('\\'), Action::FlipPipe),
    ]
}

/// nano's default bindings for the Help menu, in nano's order.
pub open spec fn nano_help_listing() -> Seq<(Key, Action)> {
    seq![
        (Key::Home, Action::FirstLine),
        (Key::End, Action::LastLine),
        (Key::Up, Action::Up),
        (Key::Down, Action::Down),
        (Key::Ctrl('P'), Action::Up),
        (Key::Ctrl('N'), Action::Down),
        (Key::PageUp, Action::PageUp),
        (Key::PageDown, Action::PageDown),
        (Key::Ctrl('Y'), Action::PageUp),
        (Key::Ctrl('V'), Action::PageDown),
        (Key::Meta('\\'), Action::FirstLine),
        (Key::Meta('/'), Action::LastLine),
        (Key::Ctrl('X'), Action::Cancel),
    ]
}

/// nano's default bindings for the Linter menu, in nano's order.
pub open spec fn nano_linter_listing() -> Seq<(Key, Action)> {
    seq![
        (Key::Ctrl('X'), Action::Cancel),
        (Key::Ctrl('C'), Action::Cancel),
        (Key::Ctrl('M'), Action::Cancel),
        (Key::PageUp, Action::PageUp),
        (Key::PageDown, Action::PageDown),
    ]
}

/// nano's default key map, menu by menu as nano lists it: the main menu,
/// then what every prompt shares, then each prompt's own bindings (a key
/// bound again in a menu keeps its later binding).
pub open spec fn nano_default_bindings() -> Map<(Menu, Key), BindingView> {
    let prompts = seq![
        Menu::Help, Menu::Search, Menu::Replace, Menu::ReplaceWith, Menu::YesNo, Menu::GotoLine, Menu::WriteOut,
        Menu::Insert, Menu::Browser, Menu::WhereIsFile, Menu::GotoDir, Menu::Execute, Menu::Spell, Menu::Linter,
    ];
    let recalling = seq![Menu::Search, Menu::Replace, Menu::ReplaceWith, Menu::Execute];
    let m = with_actions(Map::empty(), Menu::Main, nano_main_listing());
    let m = with_actions_in(m, prompts, nano_prompt_listing());
    let m = with_actions(m, Menu::Search, nano_search_listing());
    let m = with_actions(m, Menu::Replace, nano_replace_listing());
    let m = with_actions(m, Menu::ReplaceWith, nano_replacewith_listing());
    let m = with_actions_in(m, recalling, nano_history_listing());
    let m = with_actions(m, Menu::GotoLine, nano_gotoline_listing());
    let m = with_actions(m, Menu::WriteOut, nano_writeout_listing());
    let m = with_actions(m, Menu::Insert, nano_insert_listing());
    let m = with_actions(m, Menu::Execute, nano_execute_listing());
    let m = with_actions(m, Menu::Help, nano_help_listing());
    with_actions(m, Menu::Linter, nano_linter_listing())
}

/// The default key map (`KeyMap::defaults`) binds exactly what nano binds
/// by default: ^K cuts, ^U pastes, ^O writes out, ^X exits, and so on for
/// every key of every menu.
pub proof fn law_defaults_are_nanos()
    ensures
        default_bindings() == nano_default_bindings(),
{
    assert(main_table() =~= nano_main_listing());
    assert(common_prompt_table() =~= nano_prompt_listing());
    assert(history_table() =~= nano_history_listing());
    assert(search_table() =~= nano_search_listing());
    assert(replace_table() =~= nano_replace_listing());
    assert(replacewith_table() =~= nano_replacewith_listing());
    assert(gotoline_table() =~= nano_gotoline_listing());
    assert(writeout_table() =~= nano_writeout_listing());
    assert(insert_table() =~= nano_insert_listing());
    assert(execute_table() =~= nano_execute_listing());
    assert(help_table() =~= nano_help_listing());
    assert(linter_table() =~= nano_linter_listing());
    assert(history_menus() =~= seq![Menu::Search, Menu::Replace, Menu::ReplaceWith, Menu::Execute]);
    assert(prompt_menus() =~= seq![
        Menu::Help, Menu::Search, Menu::Replace, Menu::ReplaceWith, Menu::YesNo, Menu::GotoLine, Menu::WriteOut,
        Menu::Insert, Menu::Browser, Menu::WhereIsFile, Menu::GotoDir, Menu::Execute, Menu::Spell, Menu::Linter,
    ]);
}

impl KeyMap {
    #[verifier::type_invariant]
    spec fn unique(self) -> bool {
        keys_unique(self.table@)
    }

    /// The entries in the order `entries` lists them.
    pub closed spec fn listing(&self) -> Seq<((Menu, Key), BindingView)> {
        entries_view(self.table@)
    }

    /// An empty table.
    pub fn new() -> (km: KeyMap)
        ensures
            km@ == Map::<(Menu, Key), BindingView>::empty(),
    {
        KeyMap { table: Vec::new() }
    }

    fn find(&self, menu: Menu, key: Key) -> (r: Option<usize>)
        ensures
            r matches Some(i) ==> i < self.table@.len() && self.table@[i as int].0 == (menu, key),
            r is None ==> forall|i: int| 0 <= i < self.table@.len() ==> self.table@[i].0 != (menu, key),
    {
        let mut i: usize = 0;
        while i < self.table.len()
            invariant
                i <= self.table@.len(),
                forall|j: int| 0 <= j < i ==> self.table@[j].0 != (menu, key),
            decreases self.table.len() - i,
        {
            let e = &self.table[i];
            if e.0.0 == menu && e.0.1 == key {
                return Some(i);
            }
            i += 1;
        }
        None
    }

    /// Bind `key` in `menu` to `binding`, replacing any earlier binding.
    pub fn bind(&mut self, menu: Menu, key: Key, binding: Binding)
        ensures
            final(self)@ == old(self)@.insert((menu, key), binding@),
    {
        self.unbind(menu, key);
        let ghost before = self.table@;
        proof {
            use_type_invariant(&*self);
        }
        let mut t: Vec<((Menu, Key), Binding)> = Vec::new();
        std::mem::swap(&mut t, &mut self.table);
        t.push(((menu, key), binding));
        proof {
            assert(t@.drop_last() =~= before);
            assert forall|i: int| 0 <= i < before.len() implies before[i].0 != (menu, key) by {
                if before[i].0 == (menu, key) {
                    lemma_table_map_at(before, i);
                }
            }
            assert(keys_unique(t@)) by {
                assert forall|a: int, b: int| 0 <= a < b < t@.len() implies t@[a].0 != t@[b].0 by {
                    if b == t@.len() - 1 {
                        assert(t@[a] == before[a]);
                    } else {
                        assert(t@[a] == before[a]);
                        assert(t@[b] == before[b]);
                    }
                }
            }
        }
        self.table = t;
        proof {
            assert(!table_map(before).dom().contains((menu, key)));
            assert forall|i: int| 0 <= i < before.len() implies before[i].0 != (menu, key) by {
                if before[i].0 == (menu, key) {
                    lemma_table_map_at(before, i);
                }
            }
        }
    }

    /// Bind `key` to `binding` in each of `menus`.
    pub fn bind_all_menus(&mut self, menus: &[Menu], key: Key, binding: Binding)
        ensures
            final(self)@ == old(self)@.union_prefer_right(
                Map::new(|k: (Menu, Key)| menus@.contains(k.0) && k.1 == key, |k: (Menu, Key)| binding@),
            ),
    {
        let mut i: usize = 0;
        while i < menus.len()
            invariant
                i <= menus@.len(),
                self@ == old(self)@.union_prefer_right(
                    Map::new(|k: (Menu, Key)| menus@.take(i as int).contains(k.0) && k.1 == key, |k: (Menu, Key)| binding@),
                ),
            decreases menus.len() - i,
        {
            let ghost mi = Map::new(|k: (Menu, Key)| menus@.take(i as int).contains(k.0) && k.1 == key, |k: (Menu, Key)| binding@);
            let ghost mi1 = Map::new(|k: (Menu, Key)| menus@.take(i + 1).contains(k.0) && k.1 == key, |k: (Menu, Key)| binding@);
            let ghost prev = self@;
            assert(prev == old(self)@.union_prefer_right(mi));
            self.bind(menus[i], key, copy_binding(&binding));
            proof {
                assert forall|k: (Menu, Key)| #[trigger] mi1.dom().contains(k) <==> (mi.dom().contains(k) || k == (menus@[i as int], key)) by {
                    crate::text::lemma_take_one_more(menus@, i as int, k.0);
                }
                assert_maps_equal!(self@, old(self)@.union_prefer_right(mi1));
            }
            i += 1;
        }
        proof {
            assert(menus@.take(menus@.len() as int) =~= menus@);
        }
    }

    /// Remove `key`'s binding in `menu`, if any.
    pub fn unbind(&mut self, menu: Menu, key: Key)
        ensures
            final(self)@ == old(self)@.remove((menu, key)),
    {
        proof {
            use_type_invariant(&*self);
        }
        match self.find(menu, key) {
            Some(i) => {
                let ghost before = self.table@;
                let mut t: Vec<((Menu, Key), Binding)> = Vec::new();
                std::mem::swap(&mut t, &mut self.table);
                let _ = t.remove(i);
                let ghost after = t@;
                proof {
                    assert(after =~= before.remove(i as int));
                    assert(keys_unique(after)) by {
                        assert forall|a: int, b: int| 0 <= a < b < after.len() implies after[a].0 != after[b].0 by {
                            let a2 = if a < i { a } else { a + 1 };
                            let b2 = if b < i { b } else { b + 1 };
                            assert(after[a] == before[a2]);
                            assert(after[b] == before[b2]);
                        }
                    }
                    assert forall|k: (Menu, Key)| #![auto]
                        table_map(after).dom().contains(k) <==> table_map(before).remove((menu, key)).dom().contains(k) by {
                        if table_map(after).dom().contains(k) {
                            if forall|j: int| 0 <= j < after.len() ==> after[j].0 != k {
                                lemma_table_map_absent(after, k);
                            }
                            let j = choose|j: int| 0 <= j < after.len() && after[j].0 == k;
                            let j2 = if j < i { j } else { j + 1 };
                            assert(before[j2] == after[j]);
                            lemma_table_map_at(before, j2);
                            assert(j2 != i);
                        }
                        if table_map(before).remove((menu, key)).dom().contains(k) {
                            if forall|j: int| 0 <= j < before.len() ==> before[j].0 != k {
                                lemma_table_map_absent(before, k);
                            }
                            let j = choose|j: int| 0 <= j < before.len() && before[j].0 == k;
                            assert(j != i);
                            let j2 = if j < i { j } else { j - 1 };
                            assert(after[j2] == before[j]);
                            lemma_table_map_at(after, j2);
                        }
                    }
                    assert forall|k: (Menu, Key)| #![auto] table_map(after).dom().contains(k) implies table_map(after)[k]
                        == table_map(before)[k] by {
                        if forall|j: int| 0 <= j < after.len() ==> after[j].0 != k {
                            lemma_table_map_absent(after, k);
                        }
                        let j = choose|j: int| 0 <= j < after.len() && after[j].0 == k;
                        let j2 = if j < i { j } else { j + 1 };
                        assert(before[j2] == after[j]);
                        lemma_table_map_at(before, j2);
                        lemma_table_map_at(after, j);
                    }
                    assert_maps_equal!(table_map(after), table_map(before).remove((menu, key)));
                }
                self.table = t;
            },
            None => {
                proof {
                    lemma_table_map_absent(self.table@, (menu, key));
                    assert_maps_equal!(self@, old(self)@.remove((menu, key)));
                }
            },
        }
    }

    /// Remove `key`'s binding in every menu.
    pub fn unbind_all_menus(&mut self, key: Key)
        ensures
            final(self)@ == old(self)@.remove_keys(Set::new(|k: (Menu, Key)| k.1 == key)),
    {
        let menus = Menu::all();
        let mut i: usize = 0;
        while i < menus.len()
            invariant
                i <= menus@.len(),
                menus@ == all_menus(),
                self@ == old(self)@.remove_keys(Set::new(|k: (Menu, Key)| menus@.take(i as int).contains(k.0) && k.1 == key)),
            decreases menus.len() - i,
        {
            let ghost si = Set::new(|k: (Menu, Key)| menus@.take(i as int).contains(k.0) && k.1 == key);
            let ghost si1 = Set::new(|k: (Menu, Key)| menus@.take(i + 1).contains(k.0) && k.1 == key);
            let ghost prev = self@;
            assert(prev == old(self)@.remove_keys(si));
            self.unbind(menus[i], key);
            proof {
                assert forall|k: (Menu, Key)| #[trigger] si1.contains(k) <==> (si.contains(k) || k == (menus@[i as int], key)) by {
                    crate::text::lemma_take_one_more(menus@, i as int, k.0);
                }
                assert_maps_equal!(self@, old(self)@.remove_keys(si1));
            }
            i += 1;
        }
        proof {
            assert(menus@.take(menus@.len() as int) =~= menus@);
            assert forall|m: Menu| #[trigger] all_menus().contains(m) by {
                match m {
                    Menu::Main => assert(all_menus()[0] == m),
                    Menu::Help => assert(all_menus()[1] == m),
                    Menu::Search => assert(all_menus()[2] == m),
                    Menu::Replace => assert(all_menus()[3] == m),
                    Menu::ReplaceWith => assert(all_menus()[4] == m),
                    Menu::YesNo => assert(all_menus()[5] == m),
                    Menu::GotoLine => assert(all_menus()[6] == m),
                    Menu::WriteOut => assert(all_menus()[7] == m),
                    Menu::Insert => assert(all_menus()[8] == m),
                    Menu::Browser => assert(all_menus()[9] == m),
                    Menu::WhereIsFile => assert(all_menus()[10] == m),
                    Menu::GotoDir => assert(all_menus()[11] == m),
                    Menu::Execute => assert(all_menus()[12] == m),
                    Menu::Spell => assert(all_menus()[13] == m),
                    Menu::Linter => assert(all_menus()[14] == m),
                }
            }
            assert_maps_equal!(self@, old(self)@.remove_keys(Set::new(|k: (Menu, Key)| k.1 == key)));
        }
    }

    /// The binding of `key` in `menu`, falling back to its main-menu binding
    /// (nano's "all menus" semantics for global keys).
    pub fn lookup(&self, menu: Menu, key: Key) -> (r: Option<&Binding>)
        ensures
            opt_binding_view(r) == lookup_view(self@, menu, key),
    {
        proof {
            use_type_invariant(self);
        }
        match self.find(menu, key) {
            Some(i) => {
                proof {
                    lemma_table_map_at(self.table@, i as int);
                }
                Some(&self.table[i].1)
            },
            None => {
                proof {
                    lemma_table_map_absent(self.table@, (menu, key));
                }
                match self.find(Menu::Main, key) {
                    Some(j) => {
                        proof {
                            lemma_table_map_at(self.table@, j as int);
                        }
                        Some(&self.table[j].1)
                    },
                    None => {
                        proof {
                            lemma_table_map_absent(self.table@, (Menu::Main, key));
                        }
                        None
                    },
                }
            },
        }
    }

    /// The binding of `key` in exactly `menu`, without the main-menu
    /// fallback: prompt menus have their own curated bindings.
    pub fn lookup_menu_only(&self, menu: Menu, key: Key) -> (r: Option<&Binding>)
        ensures
            opt_binding_view(r) == lookup_only_view(self@, menu, key),
    {
        proof {
            use_type_invariant(self);
        }
        match self.find(menu, key) {
            Some(i) => {
                proof {
                    lemma_table_map_at(self.table@, i as int);
                }
                Some(&self.table[i].1)
            },
            None => {
                proof {
                    lemma_table_map_absent(self.table@, (menu, key));
                }
                None
            },
        }
    }

    /// All (menu, key) to binding entries, each once (for a help screen's
    /// listing built from the live bindings).
    pub fn entries(&self) -> (v: Vec<((Menu, Key), Binding)>)
        ensures
            keys_unique(v@),
            table_map(v@) == self@,
            entries_view(v@) == self.listing(),
    {
        proof {
            use_type_invariant(self);
        }
        let mut v: Vec<((Menu, Key), Binding)> = Vec::new();
        let mut i: usize = 0;
        while i < self.table.len()
            invariant
                i <= self.table@.len(),
                keys_unique(self.table@),
                v@.len() == i,
                forall|j: int| 0 <= j < i ==> (#[trigger] v@[j]).0 == self.table@[j].0 && v@[j].1@ == self.table@[j].1@,
            decreases self.table.len() - i,
        {
            let e = &self.table[i];
            v.push((e.0, copy_binding(&e.1)));
            i += 1;
        }
        proof {
            assert(keys_unique(v@)) by {
                assert forall|a: int, b: int| 0 <= a < b < v@.len() implies v@[a].0 != v@[b].0 by {
                    assert(v@[a].0 == self.table@[a].0);
                    assert(v@[b].0 == self.table@[b].0);
                }
            }
            assert forall|k: (Menu, Key)| #![auto] table_map(v@).dom().contains(k) <==> table_map(self.table@).dom().contains(k) by {
                if table_map(v@).dom().contains(k) {
                    if forall|j: int| 0 <= j < v@.len() ==> v@[j].0 != k {
                        lemma_table_map_absent(v@, k);
                    }
                    let j = choose|j: int| 0 <= j < v@.len() && v@[j].0 == k;
                    lemma_table_map_at(self.table@, j);
                }
                if table_map(self.table@).dom().contains(k) {
                    if forall|j: int| 0 <= j < self.table@.len() ==> self.table@[j].0 != k {
                        lemma_table_map_absent(self.table@, k);
                    }
                    let j = choose|j: int| 0 <= j < self.table@.len() && self.table@[j].0 == k;
                    lemma_table_map_at(v@, j);
                }
            }
            assert forall|k: (Menu, Key)| #![auto] table_map(v@).dom().contains(k) implies table_map(v@)[k] == table_map(self.table@)[k] by {
                if forall|j: int| 0 <= j < v@.len() ==> v@[j].0 != k {
                    lemma_table_map_absent(v@, k);
                }
                let j = choose|j: int| 0 <= j < v@.len() && v@[j].0 == k;
                lemma_table_map_at(v@, j);
                lemma_table_map_at(self.table@, j);
            }
            assert_maps_equal!(table_map(v@), table_map(self.table@));
            assert(entries_view(v@) =~= entries_view(self.table@));
        }
        v
    }

    fn bind_table(&mut self, menu: Menu, t: &[(Key, Action)])
        ensures
            final(self)@ == with_actions(old(self)@, menu, t@),
    {
        let mut i: usize = 0;
        while i < t.len()
            invariant
                i <= t@.len(),
                self@ == with_actions(old(self)@, menu, t@.take(i as int)),
            decreases t.len() - i,
        {
            proof {
                assert(t@.take(i + 1).drop_last() =~= t@.take(i as int));
            }
            self.bind(menu, t[i].0, Binding::Action(t[i].1));
            i += 1;
        }
        proof {
            assert(t@.take(t@.len() as int) =~= t@);
        }
    }

    fn bind_table_in(&mut self, menus: &[Menu], t: &[(Key, Action)])
        ensures
            final(self)@ == with_actions_in(old(self)@, menus@, t@),
    {
        let mut i: usize = 0;
        while i < menus.len()
            invariant
                i <= menus@.len(),
                self@ == with_actions_in(old(self)@, menus@.take(i as int), t@),
            decreases menus.len() - i,
        {
            proof {
                assert(menus@.take(i + 1).drop_last() =~= menus@.take(i as int));
            }
            self.bind_table(menus[i], t);
            i += 1;
        }
        proof {
            assert(menus@.take(menus@.len() as int) =~= menus@);
        }
    }

    /// nano's default key bindings: its compiled-in defaults for the main
    /// editing menu, plus conventional bindings for the prompt and list
    /// menus.
    pub fn defaults() -> (km: KeyMap)
        ensures
            km@ == default_bindings(),
    {
        let mut km = KeyMap::new();
        km.install_main_defaults();
        km.install_prompt_defaults();
        km
    }

    fn install_main_defaults(&mut self)
        ensures
            final(self)@ == with_actions(old(self)@, Menu::Main, main_table()),
    {
        let t = main_table_exec();
        self.bind_table(Menu::Main, t.as_slice());
    }

    fn install_prompt_defaults(&mut self)
        ensures
            final(self)@ == {
                let m = with_actions_in(old(self)@, prompt_menus(), common_prompt_table());
                let m = with_actions(m, Menu::Search, search_table());
                let m = with_actions(m, Menu::Replace, replace_table());
                let m = with_actions(m, Menu::ReplaceWith, replacewith_table());
                let m = with_actions_in(m, history_menus(), history_table());
                let m = with_actions(m, Menu::GotoLine, gotoline_table());
                let m = with_actions(m, Menu::WriteOut, writeout_table());
                let m = with_actions(m, Menu::Insert, insert_table());
                let m = with_actions(m, Menu::Execute, execute_table());
                let m = with_actions(m, Menu::Help, help_table());
                with_actions(m, Menu::Linter, linter_table())
            },
    {
        let prompts = prompt_menus_exec();
        let common = common_prompt_table_exec();
        self.bind_table_in(prompts.as_slice(), common.as_slice());
        self.bind_table(Menu::Search, search_table_exec().as_slice());
        self.bind_table(Menu::Replace, replace_table_exec().as_slice());
        self.bind_table(Menu::ReplaceWith, replacewith_table_exec().as_slice());
        let hist = vec![Menu::Search, Menu::Replace, Menu::ReplaceWith, Menu::Execute];
        proof {
            assert(hist@ =~= history_menus());
        }
        self.bind_table_in(hist.as_slice(), history_table_exec().as_slice());
        self.bind_table(Menu::GotoLine, gotoline_table_exec().as_slice());
        self.bind_table(Menu::WriteOut, writeout_table_exec().as_slice());
        self.bind_table(Menu::Insert, insert_table_exec().as_slice());
        self.bind_table(Menu::Execute, execute_table_exec().as_slice());
        self.bind_table(Menu::Help, help_table_exec().as_slice());
        self.bind_table(Menu::Linter, linter_table_exec().as_slice());
    }
}

/// Every menu but the main one, in order.
fn prompt_menus_exec() -> (v: Vec<Menu>)
    ensures
        v@ == prompt_menus(),
{
    let v = vec![Menu::Help, Menu::Search, Menu::Replace, Menu::ReplaceWith, Menu::YesNo, Menu::GotoLine, Menu::WriteOut, Menu::Insert, Menu::Browser, Menu::WhereIsFile, Menu::GotoDir, Menu::Execute, Menu::Spell, Menu::Linter];
    assert(v@ =~= prompt_menus());
    v
}

impl Clone for KeyMap {
    fn clone(&self) -> (km: KeyMap)
        ensures
            km@ == self@,
    {
        KeyMap { table: self.entries() }
    }
}

impl Default for KeyMap {
    fn default() -> (km: KeyMap)
        ensures
            km@ == Map::<(Menu, Key), BindingView>::empty(),
    {
        KeyMap::new()
    }
}
/// A binding reads back: after `bind(menu, key, b)`, looking `key` up in
/// `menu` (with or without the main-menu fallback) gives `b`, and every
/// other (menu, key) reads as before.
pub proof fn law_bind_then_lookup(m: Map<(Menu, Key), BindingView>, menu: Menu, key: Key, b: BindingView)
    ensures
        lookup_only_view(m.insert((menu, key), b), menu, key) == Some(b),
        lookup_view(m.insert((menu, key), b), menu, key) == Some(b),
        forall|menu2: Menu, key2: Key|
            (menu2, key2) != (menu, key) ==> #[trigger] lookup_only_view(m.insert((menu, key), b), menu2, key2)
                == lookup_only_view(m, menu2, key2),
{
}

/// An unbinding reads back: after `unbind(menu, key)` nothing is bound to
/// `key` in exactly `menu`, and the fallback lookup gives the main menu's
/// binding (none, when `menu` is the main menu).
pub proof fn law_unbind_then_lookup(m: Map<(Menu, Key), BindingView>, menu: Menu, key: Key)
    ensures
        lookup_only_view(m.remove((menu, key)), menu, key) is None,
        menu != Menu::Main ==> lookup_view(m.remove((menu, key)), menu, key) == lookup_only_view(m, Menu::Main, key),
        menu == Menu::Main ==> lookup_view(m.remove((menu, key)), menu, key) is None,
{
}

proof fn lemma_digit_char(d: nat)
    requires
        d < 10,
    ensures
        crate::text::is_digit(crate::text::digit_char(d)),
        (crate::text::digit_char(d) as int) - ('0' as int) == d,
{
}

proof fn lemma_decimal_digits(n: nat)
    ensures
        decimal(n).len() > 0,
        crate::text::all_digits(decimal(n)),
        crate::text::digits_value(decimal(n)) == n,
    decreases n,
{
    lemma_digit_char(n % 10);
    if n < 10 {
        let e = decimal(n);
        assert(e.drop_last() =~= Seq::<char>::empty());
        assert(crate::text::digits_value(e.drop_last()) == 0);
        assert(e.last() == crate::text::digit_char(n));
        assert(crate::text::digits_value(e) == 0 * 10 + ((e.last() as int) - ('0' as int)) as nat);
        assert(crate::text::all_digits(e));
    } else {
        assert((n / 10) * 10 + n % 10 == n);
        lemma_decimal_digits(n / 10);
        let d = decimal(n / 10);
        let e = decimal(n);
        assert(e == d.push(crate::text::digit_char(n % 10)));
        assert(e.drop_last() =~= d);
        assert forall|i: int| 0 <= i < e.len() implies crate::text::is_digit(#[trigger] e[i]) by {
            if i < d.len() {
                assert(e[i] == d[i]);
            }
        }
        assert(crate::text::digits_value(e) == crate::text::digits_value(d) * 10 + ((e.last() as int) - ('0' as int)) as nat);
    }
}

proof fn lemma_not_ins_del(t: Seq<char>)
    requires
        t.len() > 0,
        crate::text::ascii_lower(t[0]) != 'i',
        crate::text::ascii_lower(t[0]) != 'd',
    ensures
        !crate::text::ascii_eq_ignore_case(t, "ins"@),
        !crate::text::ascii_eq_ignore_case(t, "del"@),
{
    reveal_strlit("ins");
    reveal_strlit("del");
    if t.len() == 3 {
        assert(crate::text::ascii_lower("ins"@[0]) == 'i');
        assert(crate::text::ascii_lower("del"@[0]) == 'd');
    }
}

proof fn lemma_space_word()
    ensures
        crate::text::ascii_eq_ignore_case("Space"@, "space"@),
{
    reveal_strlit("Space");
    reveal_strlit("space");
    assert forall|i: int| 0 <= i < 5 implies crate::text::ascii_lower(#[trigger] "Space"@[i]) == crate::text::ascii_lower("space"@[i]) by {
        assert(crate::text::ascii_lower('S') == 's');
    }
}

proof fn lemma_key_of_kinds(spec: Seq<char>)
    ensures
        key_of(spec) matches Some(k) ==> (k is Ins || k is Del || k is F || k is ShiftMeta || k is Meta || k is Ctrl),
{
}

/// Describing a key that a specification parses to, and parsing that
/// description, gives the same key back.
pub proof fn law_describe_parses_back(spec: Seq<char>)
    requires
        key_of(spec) is Some,
    ensures
        key_of(key_text(key_of(spec).unwrap())) == key_of(spec),
{
    reveal_strlit("ins");
    reveal_strlit("del");
    reveal_strlit("Ins");
    reveal_strlit("Del");
    reveal_strlit("^Space");
    reveal_strlit("M-Space");
    reveal_strlit("space");
    reveal_strlit("Space");
    reveal_strlit("^");
    reveal_strlit("M-");
    reveal_strlit("m-");
    reveal_strlit("Sh-M-");
    reveal_strlit("sh-m-");
    reveal_strlit("F");
    let k = key_of(spec).unwrap();
    assert(key_of(spec) == Some(k));
    lemma_key_of_kinds(spec);
    let t = key_text(k);
    match k {
        Key::Ins => {
            assert(crate::text::ascii_lower('I') == 'i');
            assert(t == "Ins"@);
            assert forall|i: int| 0 <= i < t.len() implies crate::text::ascii_lower(#[trigger] t[i]) == crate::text::ascii_lower("ins"@[i]) by {
                assert(crate::text::ascii_lower('n') == 'n');
                assert(crate::text::ascii_lower('s') == 's');
            }
            assert(crate::text::ascii_eq_ignore_case(t, "ins"@));
            assert(key_of(t) == Some(Key::Ins));
            assert(key_of(t) == key_of(spec));
        },
        Key::Del => {
            assert(crate::text::ascii_lower('D') == 'd');
            assert(!crate::text::ascii_eq_ignore_case(t, "ins"@)) by {
                assert(crate::text::ascii_lower(t[0]) != crate::text::ascii_lower("ins"@[0]));
            }
            assert(crate::text::ascii_eq_ignore_case(t, "del"@));
            assert(key_of(t) == key_of(spec));
        },
        Key::F(n) => {
            lemma_decimal_digits(n as nat);
            assert(t.drop_first() =~= decimal(n as nat));
            assert(t[0] == 'F');
            assert(!crate::text::ascii_eq_ignore_case(t, "ins"@)) by {
                if t.len() == 3 {
                    assert(crate::text::ascii_lower(t[0]) != crate::text::ascii_lower("ins"@[0]));
                }
            }
            assert(!crate::text::ascii_eq_ignore_case(t, "del"@)) by {
                if t.len() == 3 {
                    assert(crate::text::ascii_lower(t[0]) != crate::text::ascii_lower("del"@[0]));
                }
            }
            assert(key_of(t) == key_of(spec));
        },
        Key::ShiftMeta(c) => {
            assert(t.take(5) =~= "Sh-M-"@);
            assert(t.skip(5) =~= seq![c]);
            assert(t.len() != 3);
            assert(key_of(t) == key_of(spec));
        },
        Key::Meta(c) => {
            lemma_not_ins_del(t);
            lemma_space_word();
            if c == ' ' {
                assert(t.take(2) =~= "M-"@);
                assert(t.skip(2) =~= "Space"@);
                assert(t.take(5) != "Sh-M-"@ && t.take(5) != "sh-m-"@) by {
                    assert(t.take(5)[0] == 'M');
                }
            } else {
                assert(t.take(2) =~= "M-"@);
                assert(t.skip(2) =~= seq![c]);
                assert(t.len() != 5 || t.take(5) != "Sh-M-"@);
            }
            assert(key_of(t) == key_of(spec));
        },
        Key::Ctrl(c) => {
            lemma_not_ins_del(t);
            lemma_space_word();
            assert(t[0] == '^');
            if c == ' ' {
                assert(t.skip(1) =~= "Space"@);
                assert(t.take(5) != "Sh-M-"@ && t.take(5) != "sh-m-"@) by {
                    assert(t.take(5)[0] == '^');
                }
                assert(t.take(2) != "M-"@ && t.take(2) != "m-"@) by {
                    assert(t.take(2)[0] == '^');
                }
            } else {
                assert(t.skip(1) =~= seq![c]);
                assert(t.take(2) != "M-"@ && t.take(2) != "m-"@) by {
                    assert(t.take(2)[0] == '^');
                }
            }
            assert(key_of(t) == key_of(spec));
        },
        _ => { assert(key_of(t) == key_of(spec)); },
    }
}

} // verus!
