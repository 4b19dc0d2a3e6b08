//! Text for the help viewer: each menu's introduction, followed by a
//! listing of that menu's shortcuts built from the live key map (so that
//! `bind`/`unbind` directives show up in it), word-wrapped to the screen.

use crate::keymap::{
    action_description, entries_view, key_rank, key_text, Action, Binding, BindingView, Key, KeyMap, Menu,
};
use crate::text::{is_space, is_space_exec, push_str, str_chars, string_from_chars};
use vstd::prelude::*;

verus! {

// ---------------------------------------------------------------------------
// Introductions
// ---------------------------------------------------------------------------

/// Each menu's help title and introductory paragraphs; the last paragraph
/// introduces the shortcut listing that follows it.
pub open spec fn intro(menu: Menu) -> (Seq<char>, Seq<Seq<char>>) {
    match menu {
        Menu::Search | Menu::Replace => (
            "Search Command Help Text"@,
            seq![
                "Enter the words or characters you would like to search for, and \
                 then press Enter. If there is a match for the text you entered, \
                 the screen will be updated to the location of the nearest match \
                 for the search string."@,
                "The previous search string will be shown in brackets after the \
                 search prompt. Hitting Enter without entering any text will \
                 perform the previous search. If you have selected text with the \
                 mark and then search to replace, only matches in the selected \
                 text will be replaced."@,
                "The following function keys are available in Search mode:"@,
            ],
        ),
        Menu::ReplaceWith => (
            "=== Replacement ==="@,
            seq![
                "Type the characters that should replace what you typed at the \
                 previous prompt, and press Enter."@,
                "The following function keys are available at this prompt:"@,
            ],
        ),
        Menu::GotoLine => (
            "Go To Line Help Text"@,
            seq![
                "Enter the line number that you wish to go to and hit Enter. If \
                 there are fewer lines of text than the number you entered, you \
                 will be brought to the last line of the file."@,
                "The following function keys are available in Go To Line mode:"@,
            ],
        ),
        Menu::Insert => (
            "Insert File Help Text"@,
            seq![
                "Type in the name of a file to be inserted into the current file \
                 buffer at the current cursor location."@,
                "If you need another blank buffer, do not enter any filename, or \
                 type in a nonexistent filename at the prompt and press Enter."@,
                "The following function keys are available in Insert File mode:"@,
            ],
        ),
        Menu::WriteOut => (
            "Write File Help Text"@,
            seq![
                "Type the name that you wish to save the current file as and \
                 press Enter to save the file."@,
                "If you have selected text with the mark, you will be prompted to \
                 save only the selected portion to a separate file. To reduce the \
                 chance of overwriting the current file with just a portion of \
                 it, the current filename is not the default in this mode."@,
                "The following function keys are available in Write File mode:"@,
            ],
        ),
        Menu::Browser => (
            "File Browser Help Text"@,
            seq![
                "The file browser is used to visually browse the directory \
                 structure to select a file for reading or writing. You may use \
                 the arrow keys or Page Up/Down to browse through the files, and \
                 S or Enter to choose the selected file or enter the selected \
                 directory. To move up one level, select the directory called \
                 \"..\" at the top of the file list."@,
                "The following function keys are available in the file browser:"@,
            ],
        ),
        Menu::WhereIsFile => (
            "Browser Search Command Help Text"@,
            seq![
                "Enter the words or characters you would like to search for, and \
                 then press Enter. If there is a match for the text you entered, \
                 the screen will be updated to the location of the nearest match \
                 for the search string."@,
                "The previous search string will be shown in brackets after the \
                 search prompt. Hitting Enter without entering any text will \
                 perform the previous search."@,
                "The following function keys are available at this prompt:"@,
            ],
        ),
        Menu::GotoDir => (
            "Browser Go To Directory Help Text"@,
            seq![
                "Enter the name of the directory you would like to browse to."@,
                "The following function keys are available in Browser Go To \
                 Directory mode:"@,
            ],
        ),
        Menu::Spell => (
            "=== Spelling correction ==="@,
            seq![
                "The spell checker has examined the spelling of all text in the \
                 current buffer or marked region. An unknown word has been \
                 encountered -- it is highlighted and a replacement can now be \
                 edited. After this you will be asked whether to replace each \
                 instance of that unknown word."@,
                "The following function keys are available at this prompt:"@,
            ],
        ),
        Menu::Execute => (
            "Execute Command Help Text"@,
            seq![
                "This mode allows you to insert the output of a command run by \
                 the shell into the current buffer (or into a new buffer). If \
                 the command is preceded by '|' (the pipe symbol), the current \
                 contents of the buffer (or marked region) will be piped to the \
                 command."@,
                "If you just need another blank buffer, do not enter any \
                 command. You can also pick one of four tools, or cut a large \
                 piece of the buffer, or put the editor to sleep."@,
                "The following function keys are available at this prompt:"@,
            ],
        ),
        Menu::Linter => (
            "=== Linter ==="@,
            seq![
                "In this mode, the status bar shows an error message or warning, \
                 and the cursor is put at the corresponding position in the \
                 file. With PageUp and PageDown you can switch to earlier and \
                 later messages."@,
                "The following function keys are available in Linter mode:"@,
            ],
        ),
        Menu::Main => (
            "Main tico help text"@,
            seq![
                "tico is designed to be compatible with GNU nano's keybindings, \
                 configuration, and on-screen layout. There are four main \
                 sections of the editor. The top line shows the program \
                 version, the current filename being edited, and whether or not \
                 the file has been modified. Next is the main editor window \
                 showing the file being edited. The status line is the third \
                 line from the bottom and shows important messages."@,
                "The bottom two lines show the most commonly used shortcuts in \
                 the editor. Shortcuts are written as follows: Control-key \
                 sequences are notated with a '^' and can be entered either by \
                 using the Ctrl key or pressing the Esc key twice. Meta-key \
                 sequences are notated with 'M-' and can be entered using \
                 either the Alt, Cmd, or Esc key, depending on your keyboard \
                 setup."@,
                "The following keystrokes are available in the main editor \
                 window:"@,
            ],
        ),
        _ => (
            "Help Text"@,
            seq![
                "The following function keys are available at this prompt:"@,
            ],
        ),
    }
}

fn intro_for(menu: Menu) -> (r: (&'static str, Vec<&'static str>))
    ensures
        r.0@ == intro(menu).0,
        r.1@.len() == intro(menu).1.len(),
        forall|i: int| 0 <= i < r.1@.len() ==> (#[trigger] r.1@[i])@ == intro(menu).1[i],
{
    match menu {
        Menu::Search | Menu::Replace => (
            "Search Command Help Text",
            vec![
                "Enter the words or characters you would like to search for, and \
                 then press Enter. If there is a match for the text you entered, \
                 the screen will be updated to the location of the nearest match \
                 for the search string.",
                "The previous search string will be shown in brackets after the \
                 search prompt. Hitting Enter without entering any text will \
                 perform the previous search. If you have selected text with the \
                 mark and then search to replace, only matches in the selected \
                 text will be replaced.",
                "The following function keys are available in Search mode:",
            ],
        ),
        Menu::ReplaceWith => (
            "=== Replacement ===",
            vec![
                "Type the characters that should replace what you typed at the \
                 previous prompt, and press Enter.",
                "The following function keys are available at this prompt:",
            ],
        ),
        Menu::GotoLine => (
            "Go To Line Help Text",
            vec![
                "Enter the line number that you wish to go to and hit Enter. If \
                 there are fewer lines of text than the number you entered, you \
                 will be brought to the last line of the file.",
                "The following function keys are available in Go To Line mode:",
            ],
        ),
        Menu::Insert => (
            "Insert File Help Text",
            vec![
                "Type in the name of a file to be inserted into the current file \
                 buffer at the current cursor location.",
                "If you need another blank buffer, do not enter any filename, or \
                 type in a nonexistent filename at the prompt and press Enter.",
                "The following function keys are available in Insert File mode:",
            ],
        ),
        Menu::WriteOut => (
            "Write File Help Text",
            vec![
                "Type the name that you wish to save the current file as and \
                 press Enter to save the file.",
                "If you have selected text with the mark, you will be prompted to \
                 save only the selected portion to a separate file. To reduce the \
                 chance of overwriting the current file with just a portion of \
                 it, the current filename is not the default in this mode.",
                "The following function keys are available in Write File mode:",
            ],
        ),
        Menu::Browser => (
            "File Browser Help Text",
            vec![
                "The file browser is used to visually browse the directory \
                 structure to select a file for reading or writing. You may use \
                 the arrow keys or Page Up/Down to browse through the files, and \
                 S or Enter to choose the selected file or enter the selected \
                 directory. To move up one level, select the directory called \
                 \"..\" at the top of the file list.",
                "The following function keys are available in the file browser:",
            ],
        ),
        Menu::WhereIsFile => (
            "Browser Search Command Help Text",
            vec![
                "Enter the words or characters you would like to search for, and \
                 then press Enter. If there is a match for the text you entered, \
                 the screen will be updated to the location of the nearest match \
                 for the search string.",
                "The previous search string will be shown in brackets after the \
                 search prompt. Hitting Enter without entering any text will \
                 perform the previous search.",
                "The following function keys are available at this prompt:",
            ],
        ),
        Menu::GotoDir => (
            "Browser Go To Directory Help Text",
            vec![
                "Enter the name of the directory you would like to browse to.",
                "The following function keys are available in Browser Go To \
                 Directory mode:",
            ],
        ),
        Menu::Spell => (
            "=== Spelling correction ===",
            vec![
                "The spell checker has examined the spelling of all text in the \
                 current buffer or marked region. An unknown word has been \
                 encountered -- it is highlighted and a replacement can now be \
                 edited. After this you will be asked whether to replace each \
                 instance of that unknown word.",
                "The following function keys are available at this prompt:",
            ],
        ),
        Menu::Execute => (
            "Execute Command Help Text",
            vec![
                "This mode allows you to insert the output of a command run by \
                 the shell into the current buffer (or into a new buffer). If \
                 the command is preceded by '|' (the pipe symbol), the current \
                 contents of the buffer (or marked region) will be piped to the \
                 command.",
                "If you just need another blank buffer, do not enter any \
                 command. You can also pick one of four tools, or cut a large \
                 piece of the buffer, or put the editor to sleep.",
                "The following function keys are available at this prompt:",
            ],
        ),
        Menu::Linter => (
            "=== Linter ===",
            vec![
                "In this mode, the status bar shows an error message or warning, \
                 and the cursor is put at the corresponding position in the \
                 file. With PageUp and PageDown you can switch to earlier and \
                 later messages.",
                "The following function keys are available in Linter mode:",
            ],
        ),
        Menu::Main => (
            "Main tico help text",
            vec![
                "tico is designed to be compatible with GNU nano's keybindings, \
                 configuration, and on-screen layout. There are four main \
                 sections of the editor. The top line shows the program \
                 version, the current filename being edited, and whether or not \
                 the file has been modified. Next is the main editor window \
                 showing the file being edited. The status line is the third \
                 line from the bottom and shows important messages.",
                "The bottom two lines show the most commonly used shortcuts in \
                 the editor. Shortcuts are written as follows: Control-key \
                 sequences are notated with a '^' and can be entered either by \
                 using the Ctrl key or pressing the Esc key twice. Meta-key \
                 sequences are notated with 'M-' and can be entered using \
                 either the Alt, Cmd, or Esc key, depending on your keyboard \
                 setup.",
                "The following keystrokes are available in the main editor \
                 window:",
            ],
        ),
        _ => (
            "Help Text",
            vec![
                "The following function keys are available at this prompt:",
            ],
        ),
    }
}

// ---------------------------------------------------------------------------
// Word wrapping
// ---------------------------------------------------------------------------

/// The words of `text`: its maximal runs of non-white-space characters
/// (std's `split_whitespace`).
pub open spec fn words_of(text: Seq<char>) -> Seq<Seq<char>>
    decreases text.len(),
{
    if text.len() == 0 {
        Seq::empty()
    } else {
        let w = words_of(text.drop_last());
        let c = text.last();
        if is_space(c) {
            w
        } else if text.len() >= 2 && !is_space(text[text.len() - 2]) {
            w.update(w.len() - 1, w.last().push(c))
        } else {
            w.push(seq![c])
        }
    }
}

/// Greedy wrapping, one word at a time: the lines so far and the line being
/// filled. A word goes on the current line, after a space, unless that
/// would make it longer than `width`, in which case the line is finished
/// first.
pub open spec fn wrap_step(st: (Seq<Seq<char>>, Seq<char>), word: Seq<char>, width: nat) -> (Seq<Seq<char>>, Seq<char>) {
    let (lines, cur) = st;
    let extra = if cur.len() == 0 { word.len() } else { cur.len() + 1 + word.len() };
    if extra > width && cur.len() > 0 {
        (lines.push(cur), word)
    } else if cur.len() > 0 {
        (lines, cur.push(' ') + word)
    } else {
        (lines, word)
    }
}

pub open spec fn wrap_fold(words: Seq<Seq<char>>, width: nat) -> (Seq<Seq<char>>, Seq<char>)
    decreases words.len(),
{
    if words.len() == 0 {
        (Seq::empty(), Seq::empty())
    } else {
        wrap_step(wrap_fold(words.drop_last(), width), words.last(), width)
    }
}

/// `text` word-wrapped to `width` columns, breaking only at white space
/// (runs of which become single spaces); at least one (possibly empty) line.
pub open spec fn wrapped(text: Seq<char>, width: nat) -> Seq<Seq<char>> {
    let (lines, cur) = wrap_fold(words_of(text), width);
    let all = if cur.len() > 0 { lines.push(cur) } else { lines };
    if all.len() == 0 {
        seq![Seq::empty()]
    } else {
        all
    }
}

/// A wrapped line fits: it is no longer than `width`, or it is one word
/// longer than that.
pub open spec fn fits(line: Seq<char>, width: nat) -> bool {
    line.len() <= width || !line.contains(' ')
}

proof fn lemma_words_have_no_space(text: Seq<char>)
    ensures
        forall|i: int| 0 <= i < words_of(text).len() ==> !(#[trigger] words_of(text)[i]).contains(' ') && words_of(text)[i].len() > 0,
    decreases text.len(),
{
    if text.len() > 0 {
        lemma_words_have_no_space(text.drop_last());
        let w = words_of(text.drop_last());
        let c = text.last();
        let r = words_of(text);
        if is_space(c) {
            assert(r == w);
        } else if text.len() >= 2 && !is_space(text[text.len() - 2]) {
            assert(text.drop_last().last() == text[text.len() - 2]);
            lemma_words_nonempty_after_word(text.drop_last());
            let x = w.last().push(c);
            assert(r == w.update(w.len() - 1, x));
            assert(!x.contains(' ')) by {
                if x.contains(' ') {
                    let k = choose|k: int| 0 <= k < x.len() && x[k] == ' ';
                    if k < w.last().len() {
                        assert(w.last()[k] == ' ');
                        assert(w[w.len() - 1] == w.last());
                        assert(w.last().contains(' '));
                    }
                }
            }
            assert forall|i: int| 0 <= i < r.len() implies !(#[trigger] r[i]).contains(' ') && r[i].len() > 0 by {
                if i < w.len() - 1 {
                    assert(r[i] == w[i]);
                }
            }
        } else {
            assert(r == w.push(seq![c]));
            assert forall|i: int| 0 <= i < r.len() implies !(#[trigger] r[i]).contains(' ') && r[i].len() > 0 by {
                if i < w.len() {
                    assert(r[i] == w[i]);
                } else {
                    assert(r[i] == seq![c]);
                    if r[i].contains(' ') {
                        let k = choose|k: int| 0 <= k < r[i].len() && r[i][k] == ' ';
                        assert(r[i][k] == c);
                    }
                }
            }
        }
    }
}

proof fn lemma_words_nonempty_after_word(text: Seq<char>)
    requires
        text.len() > 0,
        !is_space(text.last()),
    ensures
        words_of(text).len() > 0,
    decreases text.len(),
{
    if text.len() >= 2 && !is_space(text[text.len() - 2]) {
        assert(text.drop_last().last() == text[text.len() - 2]);
        lemma_words_nonempty_after_word(text.drop_last());
    }
}

proof fn lemma_wrap_fold_fits(words: Seq<Seq<char>>, width: nat)
    requires
        forall|i: int| 0 <= i < words.len() ==> !(#[trigger] words[i]).contains(' ') && words[i].len() > 0,
    ensures
        forall|i: int| 0 <= i < wrap_fold(words, width).0.len() ==> fits(#[trigger] wrap_fold(words, width).0[i], width),
        fits(wrap_fold(words, width).1, width),
    decreases words.len(),
{
    if words.len() > 0 {
        let init = words.drop_last();
        assert forall|i: int| 0 <= i < init.len() implies !(#[trigger] init[i]).contains(' ') && init[i].len() > 0 by {
            assert(init[i] == words[i]);
        }
        lemma_wrap_fold_fits(init, width);
        let (lines, cur) = wrap_fold(init, width);
        let word = words.last();
        assert(!word.contains(' ') && word.len() > 0) by {
            assert(words[words.len() - 1] == word);
        }
        let r = wrap_fold(words, width);
        assert forall|i: int| 0 <= i < r.0.len() implies fits(#[trigger] r.0[i], width) by {
            if i < lines.len() {
                assert(r.0[i] == lines[i]);
            } else {
                assert(r.0[i] == cur);
            }
        }
    }
}

/// Every wrapped line fits its width, unless it is a single word longer
/// than the width.
pub proof fn law_wrapped_lines_fit(text: Seq<char>, width: nat)
    ensures
        forall|i: int| 0 <= i < wrapped(text, width).len() ==> fits(#[trigger] wrapped(text, width)[i], width),
{
    lemma_words_have_no_space(text);
    lemma_wrap_fold_fits(words_of(text), width);
    let (lines, cur) = wrap_fold(words_of(text), width);
    let all = if cur.len() > 0 { lines.push(cur) } else { lines };
    assert forall|i: int| 0 <= i < wrapped(text, width).len() implies fits(#[trigger] wrapped(text, width)[i], width) by {
        if all.len() == 0 {
            assert(wrapped(text, width)[i] == Seq::<char>::empty());
        } else if i < lines.len() {
            assert(wrapped(text, width)[i] == lines[i]);
        } else {
            assert(wrapped(text, width)[i] == cur);
        }
    }
}

fn split_words(text: &[char]) -> (ws: Vec<Vec<char>>)
    ensures
        ws@.map_values(|v: Vec<char>| v@) == words_of(text@),
{
    let mut ws: Vec<Vec<char>> = Vec::new();
    let mut i: usize = 0;
    while i < text.len()
        invariant
            i <= text@.len(),
            ws@.map_values(|v: Vec<char>| v@) == words_of(text@.take(i as int)),
        decreases text.len() - i,
    {
        let c = text[i];
        let ghost prev = words_of(text@.take(i as int));
        proof {
            assert(text@.take(i + 1).drop_last() =~= text@.take(i as int));
            assert(text@.take(i + 1).last() == c);
        }
        if is_space_exec(c) {
        } else if i >= 1 && !is_space_exec(text[i - 1]) {
            proof {
                assert(text@.take(i + 1)[i - 1] == text@[i - 1]);
                lemma_words_nonempty_after_word(text@.take(i as int));
                assert(text@.take(i as int).last() == text@[i - 1]);
            }
            let n = ws.len();
            let mut last = ws.pop().unwrap();
            last.push(c);
            ws.push(last);
            proof {
                assert(ws@.map_values(|v: Vec<char>| v@) =~= prev.update(prev.len() - 1, prev.last().push(c)));
            }
        } else {
            let mut one: Vec<char> = Vec::new();
            one.push(c);
            ws.push(one);
            proof {
                assert(ws@.map_values(|v: Vec<char>| v@) =~= prev.push(seq![c]));
            }
        }
        i += 1;
    }
    proof {
        assert(text@.take(text@.len() as int) =~= text@);
    }
    ws
}

/// Word-wrap `text` (one paragraph) to `width` columns, breaking only at
/// white space.
pub fn wrap(text: &str, width: usize) -> (lines: Vec<String>)
    ensures
        lines@.map_values(|s: String| s@) == wrapped(text@, width as nat),
{
    let cs = str_chars(text);
    let words = split_words(cs.as_slice());
    let ghost wv = words@.map_values(|v: Vec<char>| v@);
    let mut lines: Vec<String> = Vec::new();
    let mut cur: Vec<char> = Vec::new();
    let mut i: usize = 0;
    while i < words.len()
        invariant
            i <= words@.len(),
            wv == words@.map_values(|v: Vec<char>| v@),
            wv == words_of(text@),
            (lines@.map_values(|s: String| s@), cur@) == wrap_fold(wv.take(i as int), width as nat),
        decreases words.len() - i,
    {
        proof {
            assert(wv.take(i + 1).drop_last() =~= wv.take(i as int));
            assert(wv.take(i + 1).last() == words@[i as int]@);
        }
        let word = &words[i];
        let extra: u128 = if cur.len() == 0 { word.len() as u128 } else { cur.len() as u128 + 1 + word.len() as u128 };
        let ghost lv = lines@.map_values(|s: String| s@);
        if extra > width as u128 && cur.len() > 0 {
            lines.push(string_from_chars(cur.as_slice()));
            proof {
                assert(lines@.map_values(|s: String| s@) =~= lv.push(cur@));
            }
            cur = crate::text::sub_chars(word.as_slice(), 0, word.len());
        } else if cur.len() > 0 {
            cur.push(' ');
            crate::text::push_all(&mut cur, word.as_slice());
        } else {
            cur = crate::text::sub_chars(word.as_slice(), 0, word.len());
        }
        proof {
            assert(word@.subrange(0, word@.len() as int) =~= word@);
        }
        i += 1;
    }
    proof {
        assert(wv.take(words@.len() as int) =~= wv);
    }
    let ghost lv = lines@.map_values(|s: String| s@);
    if cur.len() > 0 {
        lines.push(string_from_chars(cur.as_slice()));
        proof {
            assert(lines@.map_values(|s: String| s@) =~= lv.push(cur@));
        }
    }
    if lines.len() == 0 {
        lines.push(String::new());
        proof {
            assert(lines@.map_values(|s: String| s@) =~= seq![Seq::<char>::empty()]);
        }
    }
    lines
}

// ---------------------------------------------------------------------------
// The shortcut listing
// ---------------------------------------------------------------------------

/// `a` comes before `b` in lexicographic character order.
pub open spec fn text_lt(a: Seq<char>, b: Seq<char>) -> bool
    decreases a.len(),
{
    if a.len() == 0 {
        b.len() > 0
    } else if b.len() == 0 {
        false
    } else if a[0] != b[0] {
        a[0] < b[0]
    } else {
        text_lt(a.drop_first(), b.drop_first())
    }
}

fn text_before(a: &[char], b: &[char]) -> (r: bool)
    ensures
        r == text_lt(a@, b@),
    decreases a.len(),
{
    let mut i: usize = 0;
    proof {
        assert(a@.skip(0) =~= a@);
        assert(b@.skip(0) =~= b@);
    }
    while i < a.len() && i < b.len() && a[i] == b[i]
        invariant
            i <= a@.len(),
            i <= b@.len(),
            text_lt(a@, b@) == text_lt(a@.skip(i as int), b@.skip(i as int)),
        decreases a.len() - i,
    {
        proof {
            assert(a@.skip(i as int).drop_first() =~= a@.skip(i + 1));
            assert(b@.skip(i as int).drop_first() =~= b@.skip(i + 1));
        }
        i += 1;
    }
    proof {
        if i < a.len() {
            assert(a@.skip(i as int)[0] == a@[i as int]);
        }
        if i < b.len() {
            assert(b@.skip(i as int)[0] == b@[i as int]);
        }
    }
    if i == a.len() {
        i < b.len()
    } else if i == b.len() {
        false
    } else {
        a[i] < b[i]
    }
}

/// Whether the characters `a` come before the text `b`.
pub fn text_before_strs(a: &[char], b: &str) -> (r: bool)
    ensures
        r == text_lt(a@, b@),
{
    let bc = str_chars(b);
    text_before(a, bc.as_slice())
}

/// One shortcut: the description of the action, and a key bound to it.
pub type Item = (Seq<char>, Key);

/// A menu's action bindings as shortcut items, in listing order.
pub open spec fn menu_items(es: Seq<((Menu, Key), BindingView)>, menu: Menu) -> Seq<Item>
    decreases es.len(),
{
    if es.len() == 0 {
        Seq::empty()
    } else {
        let rest = menu_items(es.drop_last(), menu);
        let e = es.last();
        match e.1 {
            BindingView::Action(a) => if e.0.0 == menu {
                rest.push((action_description(a), e.0.1))
            } else {
                rest
            },
            _ => rest,
        }
    }
}

/// `a` is listed after `b`: by description, then by key rank (Ctrl keys,
/// function keys, Meta keys, ...), then by how the key is written.
pub open spec fn item_after(a: Item, b: Item) -> bool {
    ||| text_lt(b.0, a.0)
    ||| (a.0 == b.0 && (key_rank(b.1).0 < key_rank(a.1).0 || (key_rank(b.1).0 == key_rank(a.1).0 && key_rank(b.1).1
        < key_rank(a.1).1)))
    ||| (a.0 == b.0 && key_rank(b.1) == key_rank(a.1) && text_lt(key_text(b.1), key_text(a.1)))
}

pub open spec fn item_insert(s: Seq<Item>, x: Item) -> Seq<Item>
    decreases s.len(),
{
    if s.len() == 0 {
        seq![x]
    } else if item_after(s[0], x) {
        seq![x] + s
    } else {
        seq![s[0]] + item_insert(s.drop_first(), x)
    }
}

/// The items in listing order.
pub open spec fn sort_items(s: Seq<Item>) -> Seq<Item>
    decreases s.len(),
{
    if s.len() == 0 {
        Seq::empty()
    } else {
        item_insert(sort_items(s.drop_last()), s.last())
    }
}

/// Consecutive items with the same description, grouped: each description
/// with its keys in order.
pub open spec fn runs(items: Seq<Item>) -> Seq<(Seq<char>, Seq<Key>)>
    decreases items.len(),
{
    if items.len() == 0 {
        Seq::empty()
    } else {
        let r = runs(items.drop_last());
        let (d, k) = items.last();
        if r.len() > 0 && r.last().0 == d {
            r.update(r.len() - 1, (d, r.last().1.push(k)))
        } else {
            r.push((d, seq![k]))
        }
    }
}

/// The texts of `keys` separated by ", ".
pub open spec fn key_list(keys: Seq<Key>) -> Seq<char>
    decreases keys.len(),
{
    if keys.len() == 0 {
        Seq::empty()
    } else if keys.len() == 1 {
        key_text(keys[0])
    } else {
        key_list(keys.drop_last()) + ", "@ + key_text(keys.last())
    }
}

/// The key column of a shortcut line: the first key, then the others in
/// parentheses.
pub open spec fn key_column(keys: Seq<Key>) -> Seq<char> {
    if keys.len() > 1 {
        key_text(keys[0]) + "     ("@ + key_list(keys.drop_first()) + ")"@
    } else {
        key_text(keys[0])
    }
}

/// `s` padded with spaces to at least 17 characters.
pub open spec fn pad17(s: Seq<char>) -> Seq<char> {
    if s.len() < 17 {
        s + Seq::new((17 - s.len()) as nat, |i: int| ' ')
    } else {
        s
    }
}

/// One shortcut line: the key column, padded, a space, and the description.
pub open spec fn shortcut_row(run: (Seq<char>, Seq<Key>)) -> Seq<char> {
    pad17(key_column(run.1)) + " "@ + run.0
}

/// The shortcut lines for `menu`: one per action description, with every
/// key bound to it.
pub open spec fn shortcut_rows(es: Seq<((Menu, Key), BindingView)>, menu: Menu) -> Seq<Seq<char>> {
    runs(sort_items(menu_items(es, menu))).map_values(|r: (Seq<char>, Seq<Key>)| shortcut_row(r))
}

pub open spec fn items_view(v: Seq<(&'static str, Key)>) -> Seq<Item> {
    v.map_values(|x: (&'static str, Key)| (x.0@, x.1))
}

fn item_after_exec(a: (&'static str, Key), b: (&'static str, Key)) -> (r: bool)
    ensures
        r == item_after((a.0@, a.1), (b.0@, b.1)),
{
    let ad = str_chars(a.0);
    let bd = str_chars(b.0);
    if text_before(bd.as_slice(), ad.as_slice()) {
        return true;
    }
    if !crate::text::str_eq(a.0, b.0) {
        return false;
    }
    let ra = a.1.display_rank();
    let rb = b.1.display_rank();
    if rb.0 < ra.0 || (rb.0 == ra.0 && rb.1 < ra.1) {
        return true;
    }
    if rb.0 != ra.0 || rb.1 != ra.1 {
        return false;
    }
    let at = a.1.describe();
    let bt = b.1.describe();
    text_before(str_chars(bt.as_str()).as_slice(), str_chars(at.as_str()).as_slice())
}

proof fn lemma_item_insert_at(s: Seq<Item>, x: Item, k: int)
    requires
        0 <= k <= s.len(),
        forall|j: int| 0 <= j < k ==> !item_after(#[trigger] s[j], x),
        k < s.len() ==> item_after(s[k], x),
    ensures
        item_insert(s, x) == s.take(k) + seq![x] + s.skip(k),
    decreases s.len(),
{
    if s.len() == 0 {
        assert(s.take(k) + seq![x] + s.skip(k) =~= seq![x]);
    } else if k == 0 {
        assert(s.take(0) + seq![x] + s.skip(0) =~= seq![x] + s);
    } else {
        let t = s.drop_first();
        assert forall|j: int| 0 <= j < k - 1 implies !item_after(#[trigger] t[j], x) by {
            assert(t[j] == s[j + 1]);
        }
        lemma_item_insert_at(t, x, k - 1);
        assert(s.take(k) + seq![x] + s.skip(k) =~= seq![s[0]] + (t.take(k - 1) + seq![x] + t.skip(k - 1)));
    }
}

fn sorted_items(items: &Vec<(&'static str, Key)>) -> (v: Vec<(&'static str, Key)>)
    ensures
        items_view(v@) == sort_items(items_view(items@)),
{
    let ghost iv = items_view(items@);
    let mut v: Vec<(&'static str, Key)> = Vec::new();
    let mut i: usize = 0;
    while i < items.len()
        invariant
            i <= items@.len(),
            iv == items_view(items@),
            items_view(v@) == sort_items(iv.take(i as int)),
        decreases items.len() - i,
    {
        proof {
            assert(iv.take(i + 1).drop_last() =~= iv.take(i as int));
            assert(iv.take(i + 1).last() == (items@[i as int].0@, items@[i as int].1));
        }
        let x = items[i];
        let mut k: usize = 0;
        while k < v.len() && !item_after_exec(v[k], x)
            invariant
                k <= v@.len(),
                forall|j: int| 0 <= j < k ==> !item_after(#[trigger] items_view(v@)[j], (x.0@, x.1)),
            decreases v.len() - k,
        {
            k += 1;
        }
        proof {
            lemma_item_insert_at(items_view(v@), (x.0@, x.1), k as int);
        }
        let ghost before = items_view(v@);
        v.insert(k, x);
        proof {
            assert(items_view(v@) =~= before.take(k as int) + seq![(x.0@, x.1)] + before.skip(k as int));
        }
        i += 1;
    }
    proof {
        assert(iv.take(items@.len() as int) =~= iv);
    }
    v
}

fn menu_item_list(es: &Vec<((Menu, Key), Binding)>, menu: Menu) -> (v: Vec<(&'static str, Key)>)
    ensures
        items_view(v@) == menu_items(entries_view(es@), menu),
{
    let ghost ev = entries_view(es@);
    let mut v: Vec<(&'static str, Key)> = Vec::new();
    let mut i: usize = 0;
    while i < es.len()
        invariant
            i <= es@.len(),
            ev == entries_view(es@),
            items_view(v@) == menu_items(ev.take(i as int), menu),
        decreases es.len() - i,
    {
        proof {
            assert(ev.take(i + 1).drop_last() =~= ev.take(i as int));
            assert(ev.take(i + 1).last() == (es@[i as int].0, es@[i as int].1@));
        }
        let e = &es[i];
        match &e.1 {
            Binding::Action(a) => {
                if e.0.0 == menu {
                    let ghost before = items_view(v@);
                    v.push((a.description(), e.0.1));
                    proof {
                        assert(items_view(v@) =~= before.push((action_description(*a), e.0.1)));
                    }
                }
            },
            Binding::Macro(_) => {},
        }
        i += 1;
    }
    proof {
        assert(ev.take(es@.len() as int) =~= ev);
    }
    v
}

fn key_column_text(keys: &Vec<Key>) -> (s: Vec<char>)
    requires
        keys@.len() > 0,
    ensures
        s@ == key_column(keys@),
{
    let mut out: Vec<char> = Vec::new();
    let first = keys[0].describe();
    push_str(&mut out, first.as_str());
    if keys.len() > 1 {
        push_str(&mut out, "     (");
        let ghost head = out@;
        let ghost rest = keys@.drop_first();
        let mut i: usize = 1;
        while i < keys.len()
            invariant
                1 <= i <= keys@.len(),
                rest == keys@.drop_first(),
                out@ == head + key_list(rest.take(i - 1)),
            decreases keys.len() - i,
        {
            proof {
                assert(rest.take(i as int).drop_last() =~= rest.take(i - 1));
                assert(rest.take(i as int).last() == keys@[i as int]);
            }
            if i > 1 {
                push_str(&mut out, ", ");
            }
            let t = keys[i].describe();
            push_str(&mut out, t.as_str());
            proof {
                if i == 1 {
                    assert(key_list(rest.take(0)) =~= Seq::<char>::empty());
                    assert(rest.take(1).len() == 1);
                }
                assert(out@ =~= head + key_list(rest.take(i as int)));
            }
            i += 1;
        }
        push_str(&mut out, ")");
        proof {
            assert(rest.take(keys@.len() - 1) =~= rest);
        }
    }
    out
}

/// One formatted line per action bound in `menu` (`^G  (F1)  Display this
/// help text`), built from the live key map and grouping every key bound to
/// the same action onto one line, a primary key and its alternates.
fn shortcut_lines(menu: Menu, keymap: &KeyMap) -> (lines: Vec<String>)
    ensures
        lines@.map_values(|s: String| s@) == shortcut_rows(keymap.listing(), menu),
{
    let es = keymap.entries();
    let items = menu_item_list(&es, menu);
    let sorted = sorted_items(&items);
    let ghost sv = items_view(sorted@);
    // Group into runs of equal descriptions.
    let mut descs: Vec<&'static str> = Vec::new();
    let mut keys: Vec<Vec<Key>> = Vec::new();
    let mut i: usize = 0;
    while i < sorted.len()
        invariant
            i <= sorted@.len(),
            sv == items_view(sorted@),
            descs@.len() == keys@.len(),
            descs@.len() == runs(sv.take(i as int)).len(),
            forall|j: int| 0 <= j < descs@.len() ==> (#[trigger] runs(sv.take(i as int))[j]) == (descs@[j]@, keys@[j]@),
        decreases sorted.len() - i,
    {
        proof {
            assert(sv.take(i + 1).drop_last() =~= sv.take(i as int));
            assert(sv.take(i + 1).last() == (sorted@[i as int].0@, sorted@[i as int].1));
        }
        let (d, k) = sorted[i];
        let n = descs.len();
        let ghost r = runs(sv.take(i as int));
        if n > 0 && crate::text::str_eq(descs[n - 1], d) {
            proof {
                assert(r.last() == (descs@[n - 1]@, keys@[n - 1]@));
            }
            let mut last = keys.pop().unwrap();
            last.push(k);
            keys.push(last);
            proof {
                let r2 = runs(sv.take(i + 1));
                assert forall|j: int| 0 <= j < descs@.len() implies (#[trigger] r2[j]) == (descs@[j]@, keys@[j]@) by {
                    if j < n - 1 {
                        assert(r2[j] == r[j]);
                    }
                }
            }
        } else {
            proof {
                if n > 0 {
                    assert(r.last() == (descs@[n - 1]@, keys@[n - 1]@));
                }
            }
            descs.push(d);
            let mut one: Vec<Key> = Vec::new();
            one.push(k);
            keys.push(one);
            proof {
                let r2 = runs(sv.take(i + 1));
                assert(keys@[n as int]@ =~= seq![k]);
                assert forall|j: int| 0 <= j < descs@.len() implies (#[trigger] r2[j]) == (descs@[j]@, keys@[j]@) by {
                    if j < n {
                        assert(r2[j] == r[j]);
                    }
                }
            }
        }
        i += 1;
    }
    proof {
        assert(sv.take(sorted@.len() as int) =~= sv);
    }
    let ghost rs = runs(sv);
    let mut lines: Vec<String> = Vec::new();
    let mut j: usize = 0;
    while j < descs.len()
        invariant
            j <= descs@.len(),
            rs == runs(sv),
            descs@.len() == keys@.len(),
            descs@.len() == rs.len(),
            forall|t: int| 0 <= t < descs@.len() ==> (#[trigger] rs[t]) == (descs@[t]@, keys@[t]@),
            lines@.map_values(|s: String| s@) == rs.take(j as int).map_values(|r: (Seq<char>, Seq<Key>)| shortcut_row(r)),
        decreases descs.len() - j,
    {
        proof {
            lemma_runs_nonempty(sv);
            assert(rs[j as int] == (descs@[j as int]@, keys@[j as int]@));
            assert(runs(sv)[j as int].1.len() > 0);
            assert(keys@[j as int]@.len() > 0);
        }
        let col = key_column_text(&keys[j]);
        let mut out: Vec<char> = Vec::new();
        crate::text::push_all(&mut out, col.as_slice());
        let mut pad = col.len();
        while pad < 17
            invariant
                col@.len() <= pad <= 17 || (pad == col@.len() && pad >= 17),
                out@ == col@ + Seq::new((pad - col@.len()) as nat, |i: int| ' '),
            decreases 17 - pad,
        {
            out.push(' ');
            proof {
                assert(out@ =~= col@ + Seq::new((pad + 1 - col@.len()) as nat, |i: int| ' '));
            }
            pad += 1;
        }
        proof {
            assert(out@ =~= pad17(col@));
        }
        push_str(&mut out, " ");
        push_str(&mut out, descs[j]);
        let ghost lv = lines@.map_values(|s: String| s@);
        lines.push(string_from_chars(out.as_slice()));
        proof {
            assert(lines@.map_values(|s: String| s@) =~= lv.push(shortcut_row(rs[j as int])));
            assert(rs.take(j + 1).map_values(|r: (Seq<char>, Seq<Key>)| shortcut_row(r)) =~= rs.take(j as int).map_values(
                |r: (Seq<char>, Seq<Key>)| shortcut_row(r),
            ).push(shortcut_row(rs[j as int])));
        }
        j += 1;
    }
    proof {
        assert(rs.take(descs@.len() as int) =~= rs);
    }
    lines
}

proof fn lemma_runs_nonempty(items: Seq<Item>)
    ensures
        forall|j: int| 0 <= j < runs(items).len() ==> (#[trigger] runs(items)[j]).1.len() > 0,
    decreases items.len(),
{
    if items.len() > 0 {
        lemma_runs_nonempty(items.drop_last());
        let r = runs(items.drop_last());
        let rr = runs(items);
        assert forall|j: int| 0 <= j < rr.len() implies (#[trigger] rr[j]).1.len() > 0 by {
            if j < r.len() {
                if j == r.len() - 1 {
                    assert(r[j].1.len() > 0);
                } else {
                    assert(rr[j] == r[j]);
                }
            }
        }
    }
}

// ---------------------------------------------------------------------------
// Help screens
// ---------------------------------------------------------------------------

/// The paragraphs, each wrapped and followed by an empty line.
pub open spec fn wrapped_paragraphs(paras: Seq<Seq<char>>, width: nat) -> Seq<Seq<char>>
    decreases paras.len(),
{
    if paras.len() == 0 {
        Seq::empty()
    } else {
        wrapped_paragraphs(paras.drop_last(), width) + wrapped(paras.last(), width) + seq![Seq::empty()]
    }
}

/// The help screen for `menu`: the title, an empty line, the introduction's
/// paragraphs wrapped to one less than the width (at least 20), and the
/// shortcut listing.
pub open spec fn help_screen(menu: Menu, es: Seq<((Menu, Key), BindingView)>, width: nat) -> Seq<Seq<char>> {
    let w = if width < 20 { 20 } else { width };
    seq![intro(menu).0, Seq::empty()] + wrapped_paragraphs(intro(menu).1, (w - 1) as nat) + shortcut_rows(es, menu)
}

fn push_paragraph(lines: &mut Vec<String>, para: &str, width: usize)
    ensures
        final(lines)@.map_values(|s: String| s@) == old(lines)@.map_values(|s: String| s@) + wrapped(para@, width as nat) + seq![
            Seq::<char>::empty(),
        ],
{
    let w = wrap(para, width);
    let ghost before = lines@.map_values(|s: String| s@);
    let mut i: usize = 0;
    while i < w.len()
        invariant
            i <= w@.len(),
            lines@.map_values(|s: String| s@) == before + w@.take(i as int).map_values(|s: String| s@),
        decreases w.len() - i,
    {
        let ghost prev = lines@.map_values(|s: String| s@);
        lines.push(w[i].clone());
        proof {
            assert(lines@.map_values(|s: String| s@) =~= prev.push(w@[i as int]@));
            assert(w@.take(i + 1).map_values(|s: String| s@) =~= w@.take(i as int).map_values(|s: String| s@).push(w@[i as int]@));
        }
        i += 1;
    }
    let ghost prev = lines@.map_values(|s: String| s@);
    lines.push(String::new());
    proof {
        assert(w@.take(w@.len() as int) =~= w@);
        assert(lines@.map_values(|s: String| s@) =~= prev.push(Seq::<char>::empty()));
    }
}

/// Build the help screen for `menu`: element 0 is the title (shown on its
/// own row, never scrolled); the rest is the scrollable body, the
/// introduction word-wrapped to `width` columns, then the shortcut listing.
pub fn build(menu: Menu, keymap: &KeyMap, width: usize) -> (lines: Vec<String>)
    ensures
        lines@.map_values(|s: String| s@) == help_screen(menu, keymap.listing(), width as nat),
{
    let width = if width < 20 { 20 } else { width };
    let (title, paragraphs) = intro_for(menu);
    let mut lines: Vec<String> = Vec::new();
    lines.push(string_from_chars(str_chars(title).as_slice()));
    lines.push(String::new());
    let ghost paras = intro(menu).1;
    let ghost head = lines@.map_values(|s: String| s@);
    proof {
        assert(head =~= seq![intro(menu).0, Seq::<char>::empty()]);
    }
    let mut i: usize = 0;
    while i < paragraphs.len()
        invariant
            i <= paragraphs@.len(),
            width >= 20,
            paras == intro(menu).1,
            paragraphs@.len() == paras.len(),
            forall|k: int| 0 <= k < paragraphs@.len() ==> (#[trigger] paragraphs@[k])@ == paras[k],
            lines@.map_values(|s: String| s@) == head + wrapped_paragraphs(paras.take(i as int), (width - 1) as nat),
        decreases paragraphs.len() - i,
    {
        proof {
            assert(paras.take(i + 1).drop_last() =~= paras.take(i as int));
            assert(paragraphs@[i as int]@ == paras[i as int]);
        }
        push_paragraph(&mut lines, paragraphs[i], width - 1);
        i += 1;
    }
    proof {
        assert(paras.take(paragraphs@.len() as int) =~= paras);
    }
    let rows = shortcut_lines(menu, keymap);
    let ghost before = lines@.map_values(|s: String| s@);
    let mut j: usize = 0;
    while j < rows.len()
        invariant
            j <= rows@.len(),
            lines@.map_values(|s: String| s@) == before + rows@.take(j as int).map_values(|s: String| s@),
        decreases rows.len() - j,
    {
        let ghost prev = lines@.map_values(|s: String| s@);
        lines.push(rows[j].clone());
        proof {
            assert(lines@.map_values(|s: String| s@) =~= prev.push(rows@[j as int]@));
            assert(rows@.take(j + 1).map_values(|s: String| s@) =~= rows@.take(j as int).map_values(|s: String| s@).push(rows@[j as int]@));
        }
        j += 1;
    }
    proof {
        assert(rows@.take(rows@.len() as int) =~= rows@);
    }
    lines
}

/// The paragraphs of the help for the "file changed on disk while you have
/// unsaved edits" choice.
pub open spec fn conflict_paragraphs() -> Seq<Seq<char>> {
    seq![
        "tico detected that the file's contents on disk no longer match what \
         was last loaded or saved, and this buffer also has edits of its own \
         that haven't been saved. Reloading would discard your edits; saving \
         would discard the on-disk change; so tico asks which you want."@,
        "[R]eload discards your local edits and loads the file's current \
         on-disk contents."@,
        "[K]eep mine ignores the on-disk change and keeps editing as if it \
         hadn't happened. tico won't ask again about this particular change \
         (a further change to the file will still prompt)."@,
        "[M]erge previews a three-way merge of both sets of changes in a \
         scrollable diff screen, which you can then apply or back out of \
         (back out returns here)."@,
        "[C]ancel dismisses this prompt without touching the buffer. Like \
         Keep, tico won't ask again about this same on-disk change."@,
    ]
}

/// The conflict help, at any width, starts with its title and an empty
/// line and ends with an empty line.
pub proof fn law_conflict_help_framed(width: nat)
    ensures
        ({
            let l = seq!["File Changed On Disk Help Text"@, Seq::<char>::empty()] + wrapped_paragraphs(conflict_paragraphs(), width);
            &&& l[0] == "File Changed On Disk Help Text"@
            &&& l[1] == Seq::<char>::empty()
            &&& l.last() == Seq::<char>::empty()
        }),
{
    let p = conflict_paragraphs();
    assert(p.len() == 5);
    let w = wrapped_paragraphs(p, width);
    assert(w == wrapped_paragraphs(p.drop_last(), width) + wrapped(p.last(), width) + seq![Seq::<char>::empty()]);
    assert(w.len() > 0);
    assert(w.last() == Seq::<char>::empty());
}

/// Help for the "file changed on disk, you have unsaved edits" prompt: its
/// title, an empty line, and its paragraphs wrapped to one less than the
/// width (at least 20). Its responses are keystrokes the prompt reads
/// directly, so there is no shortcut listing.
pub fn build_conflict_help(width: usize) -> (lines: Vec<String>)
    ensures
        lines@.map_values(|s: String| s@) == seq!["File Changed On Disk Help Text"@, Seq::<char>::empty()]
            + wrapped_paragraphs(conflict_paragraphs(), ((if width < 20 { 20 } else { width }) - 1) as nat),
{
    let w = (if width < 20 { 20 } else { width }) - 1;
    let paragraphs: Vec<&'static str> = vec![
        "tico detected that the file's contents on disk no longer match what \
         was last loaded or saved, and this buffer also has edits of its own \
         that haven't been saved. Reloading would discard your edits; saving \
         would discard the on-disk change; so tico asks which you want.",
        "[R]eload discards your local edits and loads the file's current \
         on-disk contents.",
        "[K]eep mine ignores the on-disk change and keeps editing as if it \
         hadn't happened. tico won't ask again about this particular change \
         (a further change to the file will still prompt).",
        "[M]erge previews a three-way merge of both sets of changes in a \
         scrollable diff screen, which you can then apply or back out of \
         (back out returns here).",
        "[C]ancel dismisses this prompt without touching the buffer. Like \
         Keep, tico won't ask again about this same on-disk change.",
    ];
    let ghost paras = conflict_paragraphs();
    let mut lines: Vec<String> = Vec::new();
    lines.push(string_from_chars(str_chars("File Changed On Disk Help Text").as_slice()));
    lines.push(String::new());
    let ghost head = lines@.map_values(|s: String| s@);
    proof {
        assert(head =~= seq!["File Changed On Disk Help Text"@, Seq::<char>::empty()]);
    }
    let mut i: usize = 0;
    while i < paragraphs.len()
        invariant
            i <= paragraphs@.len(),
            paras == conflict_paragraphs(),
            paragraphs@.len() == paras.len(),
            forall|k: int| 0 <= k < paragraphs@.len() ==> (#[trigger] paragraphs@[k])@ == paras[k],
            lines@.map_values(|s: String| s@) == head + wrapped_paragraphs(paras.take(i as int), w as nat),
        decreases paragraphs.len() - i,
    {
        proof {
            assert(paras.take(i + 1).drop_last() =~= paras.take(i as int));
        }
        push_paragraph(&mut lines, paragraphs[i], w);
        i += 1;
    }
    proof {
        assert(paras.take(paragraphs@.len() as int) =~= paras);
    }
    lines
}

} // verus!
