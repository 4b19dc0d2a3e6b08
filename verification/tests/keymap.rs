use tico::keymap::{is_rebindable, Action, Binding, Key, KeyMap, Menu};

#[test]
fn default_bindings_include_nanos_classics() {
    let km = KeyMap::defaults();
    assert_eq!(km.lookup(Menu::Main, Key::Ctrl('G')), Some(&Binding::Action(Action::Help)));
    assert_eq!(km.lookup(Menu::Main, Key::Ctrl('W')), Some(&Binding::Action(Action::WhereIs)));
}

#[test]
fn a_bound_key_looks_up_to_its_binding() {
    let mut km = KeyMap::new();
    km.bind(Menu::Search, Key::Meta('q'), Binding::Macro("hi".to_string()));
    assert_eq!(km.lookup(Menu::Search, Key::Meta('q')), Some(&Binding::Macro("hi".to_string())));
    assert_eq!(km.lookup_menu_only(Menu::Main, Key::Meta('q')), None);
}

#[test]
fn an_unbound_key_falls_back_to_the_main_menu() {
    let mut km = KeyMap::new();
    km.bind(Menu::Main, Key::Ctrl('X'), Binding::Action(Action::Exit));
    km.bind(Menu::Search, Key::Ctrl('X'), Binding::Action(Action::Cancel));
    km.unbind(Menu::Search, Key::Ctrl('X'));
    assert_eq!(km.lookup(Menu::Search, Key::Ctrl('X')), Some(&Binding::Action(Action::Exit)));
    km.unbind_all_menus(Key::Ctrl('X'));
    assert_eq!(km.lookup(Menu::Search, Key::Ctrl('X')), None);
}

#[test]
fn key_specs_parse_and_describe_back() {
    for spec in ["^G", "M-x", "F5", "^Space", "M-Space", "Ins", "Del", "Sh-M-A"] {
        let key = Key::parse(spec).unwrap_or_else(|| panic!("{spec} should parse"));
        assert_eq!(Key::parse(&key.describe()), Some(key));
    }
    assert_eq!(Key::parse("^g"), Some(Key::Ctrl('G')));
    assert_eq!(Key::parse("F25"), None);
    assert_eq!(Key::parse("bogus"), None);
}

#[test]
fn movement_keys_cannot_be_rebound() {
    assert!(!is_rebindable(&Key::Up));
    assert!(is_rebindable(&Key::Ctrl('K')));
}

#[test]
fn names_parse_to_functions_and_menus() {
    assert_eq!(Action::from_name("help"), Some(Action::Help));
    assert_eq!(Action::from_name("nosuchfunction"), None);
    assert_eq!(Menu::from_name("search"), Some(Menu::Search));
    assert_eq!(Menu::from_name("nowhere"), None);
}

#[test]
fn meta_keys_take_ascii_characters_only() {
    assert_eq!(Key::parse("M-é"), None);
    assert_eq!(Key::parse("M-["), None);
    assert_eq!(Key::parse("M-~"), Some(Key::Meta('~')));
    assert_eq!(Key::parse("M-Space"), Some(Key::Meta(' ')));
}
