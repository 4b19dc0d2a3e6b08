use tico::config::{nanorc, ticorc};
use tico::keymap::{Action, Binding, Key, KeyMap, Menu};
use tico::options::Options;

fn fresh() -> (Options, KeyMap, Vec<String>) {
    (Options::default(), KeyMap::defaults(), Vec::new())
}

#[test]
fn nanorc_sets_and_unsets_options() {
    let (mut o, mut k, mut w) = fresh();
    nanorc::parse("set tabsize 4\nset autoindent\n# comment\nset quotestr \"^> \"\nunset autoindent\nset linenumbers\n", &mut o, &mut k, &mut w);
    assert_eq!(o.tabsize, 4);
    assert!(!o.autoindent);
    assert!(o.linenumbers);
    assert_eq!(o.quotestr, "^> ");
    assert!(w.is_empty(), "{w:?}");
}

#[test]
fn nanorc_skips_syntax_blocks_and_warns_about_the_unknown() {
    let (mut o, mut k, mut w) = fresh();
    let text = "syntax \"c\" \"\\.c$\"\ncolor red \"int\"\nset mouse\ncolor blue \"x\"\nfrobnicate\nset nosuchoption\n";
    nanorc::parse(text, &mut o, &mut k, &mut w);
    assert!(o.mouse);
    assert_eq!(
        w,
        vec![
            "nanorc:4: unrecognized command `color`".to_string(),
            "nanorc:5: unrecognized command `frobnicate`".to_string(),
            "nanorc:6: unknown option: nosuchoption".to_string(),
        ]
    );
}

#[test]
fn nanorc_binds_and_unbinds_keys() {
    let (mut o, mut k, mut w) = fresh();
    nanorc::parse("bind ^Q exit main\nbind M-1 \"hello\" all\nunbind ^G main\nbind ^Z help nowhere\nbind Up help main\n", &mut o, &mut k, &mut w);
    assert_eq!(k.lookup(Menu::Main, Key::Ctrl('Q')), Some(&Binding::Action(Action::Exit)));
    assert_eq!(k.lookup_menu_only(Menu::Search, Key::Meta('1')), Some(&Binding::Macro("hello".to_string())));
    assert_eq!(k.lookup_menu_only(Menu::Main, Key::Ctrl('G')), None);
    assert_eq!(
        w,
        vec!["nanorc:4: unknown menu `nowhere`".to_string(), "nanorc:5: invalid key spec `Up`".to_string()]
    );
}

#[test]
fn ticorc_reads_its_sections() {
    let (mut o, mut k, mut w) = fresh();
    let text = "; comment\n[main]\ntabsize = 3\nset softwrap\nunset softwrap\nmouse\n[keybindings]\n^Y = help\nsearch.^T = \"text\"\n^G = unbind\n[syntax]\ntheme = \"my theme\"\n";
    ticorc::parse(text, &mut o, &mut k, &mut w);
    assert_eq!(o.tabsize, 3);
    assert!(!o.softwrap);
    assert!(o.mouse);
    assert_eq!(k.lookup(Menu::Main, Key::Ctrl('Y')), Some(&Binding::Action(Action::Help)));
    assert_eq!(k.lookup_menu_only(Menu::Search, Key::Ctrl('T')), Some(&Binding::Macro("text".to_string())));
    assert_eq!(k.lookup_menu_only(Menu::Main, Key::Ctrl('G')), None);
    assert_eq!(o.theme, Some("my theme".to_string()));
    assert!(w.is_empty(), "{w:?}");
}

#[test]
fn ticorc_reads_theme_and_size_settings() {
    let (mut o, mut k, mut w) = fresh();
    let text = "[syntax]\ntheme = tico-builtin-gruvbox\nperl.theme = tico-builtin-nord\n[tico]\nmax_syntax_highlight_size = 1MB";
    ticorc::parse(text, &mut o, &mut k, &mut w);
    assert!(w.is_empty(), "{w:?}");
    assert_eq!(o.theme, Some("tico-builtin-gruvbox".to_string()));
    assert_eq!(o.language_themes, vec![("perl".to_string(), "tico-builtin-nord".to_string())]);
    assert_eq!(o.max_syntax_highlight_bytes, 1048576);
}

#[test]
fn ticorc_keeps_language_themes_in_file_order() {
    let (mut o, mut k, mut w) = fresh();
    let text = "[syntax]\nPerl.Theme = a\nrust.theme = b\nperl.theme = c\n";
    ticorc::parse(text, &mut o, &mut k, &mut w);
    assert!(w.is_empty(), "{w:?}");
    assert_eq!(o.theme, None);
    assert_eq!(
        o.language_themes,
        vec![
            ("perl".to_string(), "a".to_string()),
            ("rust".to_string(), "b".to_string()),
            ("perl".to_string(), "c".to_string()),
        ]
    );
}

#[test]
fn ticorc_warns_about_bad_syntax_and_tico_lines() {
    let (mut o, mut k, mut w) = fresh();
    let text = "[syntax]\ncolors\ntheme =\n.theme = x\n[tico]\nmax_syntax_highlight_size = lots\nspeed = 3\n";
    ticorc::parse(text, &mut o, &mut k, &mut w);
    assert_eq!(
        w,
        vec![
            "ticorc:2: expected `key = value`: `colors`".to_string(),
            "ticorc:3: missing value for `theme`".to_string(),
            "ticorc:4: unknown [syntax] setting `.theme`".to_string(),
            "ticorc:6: invalid size `lots`".to_string(),
            "ticorc:7: unknown [tico] setting `speed`".to_string(),
        ]
    );
    assert_eq!(o.max_syntax_highlight_bytes, 4194304);
    assert_eq!(o.theme, None);
    assert!(o.language_themes.is_empty());
}

#[test]
fn ticorc_warns_about_what_it_cannot_read() {
    let (mut o, mut k, mut w) = fresh();
    let text = "tabsize = 2\n[colors]\n[keybindings]\nnoequals\n^Y = nosuchfunction\nbogus = help\n";
    ticorc::parse(text, &mut o, &mut k, &mut w);
    assert_eq!(
        w,
        vec![
            "ticorc:1: setting outside of a [section]: `tabsize = 2`".to_string(),
            "ticorc:2: unknown section [colors]".to_string(),
            "ticorc:4: expected `key = function`: `noequals`".to_string(),
            "ticorc:5: unknown function `nosuchfunction`".to_string(),
            "ticorc:6: invalid key spec `bogus`".to_string(),
        ]
    );
    assert_eq!(o.tabsize, 8);
}
