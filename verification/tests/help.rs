use tico::help::{build, build_conflict_help, wrap};
use tico::keymap::{KeyMap, Menu};

#[test]
fn search_and_replace_get_distinct_intros() {
    let km = KeyMap::defaults();
    let search = build(Menu::Search, &km, 80);
    let replace_with = build(Menu::ReplaceWith, &km, 80);
    assert_eq!(search[0], "Search Command Help Text");
    assert_eq!(replace_with[0], "=== Replacement ===");
    assert_ne!(search[0], replace_with[0]);
}

#[test]
fn shortcut_listing_reflects_live_keymap() {
    let km = KeyMap::defaults();
    let lines = build(Menu::Main, &km, 80);
    assert!(lines.iter().any(|l| l.contains("^G") && l.contains("Display this help text")));
    assert!(lines.iter().any(|l| l.contains("Search forward")));
}

#[test]
fn wrapping_respects_width() {
    let wrapped = wrap(
        "This is a long sentence that should be wrapped across several lines \
         once it exceeds the requested width.",
        20,
    );
    for line in &wrapped {
        assert!(line.chars().count() <= 20, "line exceeds width: {line:?}");
    }
    assert!(wrapped.len() > 1);
}

#[test]
fn wrapped_words_come_back_in_order() {
    let text = "alpha beta gamma delta epsilon";
    let wrapped = wrap(text, 11);
    assert_eq!(wrapped, vec!["alpha beta".to_string(), "gamma delta".to_string(), "epsilon".to_string()]);
}

#[test]
fn conflict_help_fits_its_width() {
    let lines = build_conflict_help(40);
    assert!(!lines.is_empty());
}
