use tico::theme::{
    builtin_names, first_visit, language_theme_listing, merge_inherited, parse_color_literal, parse_hex, pick_theme_file, split_language_theme, theme_layer,
    theme_source, ColorWhen, Loader, Modifiers, Style, TextAttribute, Theme, ThemeColor, ThemeSource, TomlEntry, TomlField, TomlLeaf,
    UnderlineStyle,
};

#[test]
fn color_when_gates_on_the_terminal_only_for_auto() {
    assert!(ColorWhen::Auto.colorize(true));
    assert!(!ColorWhen::Auto.colorize(false));
    assert!(ColorWhen::Always.colorize(false));
    assert!(!ColorWhen::Never.colorize(true));
    assert_eq!(ColorWhen::default(), ColorWhen::Auto);
}

#[test]
fn searched_lists_directories_then_the_builtins() {
    let loader = Loader::new(vec!["/a/themes".to_string(), "/b".to_string()]);
    assert_eq!(loader.searched(), "/a/themes, /b, built-in themes");
    assert_eq!(Loader::new(Vec::new()).searched(), "built-in themes");
}

#[test]
fn modifiers_combine_the_requested_attributes() {
    let m = Modifiers::any(true, false, true);
    assert!(m.contains(Modifiers::bold()));
    assert!(m.contains(Modifiers::reversed()));
    assert!(!m.contains(Modifiers::italic()));
}

#[test]
fn underline_styles_parse_by_name() {
    assert!(UnderlineStyle::parse("curl").is_some());
    assert!(UnderlineStyle::parse("nonsense").is_none());
}

#[test]
fn language_theme_keys_split_at_the_dot() {
    assert_eq!(split_language_theme("perl.theme"), Some(("perl".to_string(), "theme".to_string())));
    assert_eq!(split_language_theme("theme"), None);
}

#[test]
fn builtin_theme_names_are_listed() {
    let names = builtin_names();
    assert!(!names.is_empty());
}

#[test]
fn color_literals_parse_like_helix() {
    assert_eq!(parse_color_literal("red"), Ok(ThemeColor::DarkRed));
    assert_eq!(parse_color_literal("light-red"), Ok(ThemeColor::Red));
    assert_eq!(parse_color_literal("default"), Ok(ThemeColor::Reset));
    assert_eq!(parse_color_literal("gray"), Ok(ThemeColor::DarkGrey));
    assert_eq!(parse_color_literal("#ff8000"), Ok(ThemeColor::Rgb { r: 255, g: 128, b: 0 }));
    assert_eq!(parse_color_literal("#f80"), Ok(ThemeColor::Rgb { r: 255, g: 136, b: 0 }));
    assert_eq!(parse_color_literal("42"), Ok(ThemeColor::AnsiValue(42)));
    assert_eq!(parse_color_literal("+7"), Ok(ThemeColor::AnsiValue(7)));
    assert_eq!(parse_color_literal("256"), Err("unknown color \"256\"".to_string()));
    assert_eq!(parse_color_literal("#zz"), Err("malformed hex color \"#zz\"".to_string()));
    assert_eq!(parse_color_literal("purple"), Err("unknown color \"purple\"".to_string()));
    assert_eq!(parse_hex("#12345"), None);
    assert_eq!(parse_hex("123456"), None);
}

#[test]
fn scope_styles_fall_back_to_their_longest_defined_prefix() {
    let st = |c: ThemeColor| Style { fg: Some(c), bg: None, underline_color: None, underline: None, modifiers: Modifiers(0) };
    let theme = Theme {
        styles: vec![
            ("keyword".to_string(), st(ThemeColor::Red)),
            ("keyword.control".to_string(), st(ThemeColor::Blue)),
            ("string".to_string(), st(ThemeColor::Green)),
            ("string".to_string(), st(ThemeColor::Cyan)),
        ],
    };
    assert_eq!(theme.style_for_name("keyword.control.import").unwrap().fg, Some(ThemeColor::Blue));
    assert_eq!(theme.style_for_name("keyword.operator").unwrap().fg, Some(ThemeColor::Red));
    assert_eq!(theme.style_for_name("keyword").unwrap().fg, Some(ThemeColor::Red));
    assert_eq!(theme.style_for_name("string.special").unwrap().fg, Some(ThemeColor::Cyan));
    assert!(theme.style_for_name("comment").is_none());
}

fn leaf(v: &toml::Value) -> TomlLeaf {
    match v {
        toml::Value::String(s) => TomlLeaf::Str(s.clone()),
        other => TomlLeaf::Other(other.to_string()),
    }
}

fn field(v: &toml::Value) -> TomlField {
    match v {
        toml::Value::String(s) => TomlField::Str(s.clone()),
        toml::Value::Table(t) => TomlField::Table(t.iter().map(|(k, v)| (k.clone(), leaf(v))).collect(), v.to_string()),
        toml::Value::Array(a) => TomlField::Array(a.iter().map(leaf).collect(), v.to_string()),
        other => TomlField::Other(other.to_string()),
    }
}

fn entry(v: &toml::Value) -> TomlEntry {
    match v {
        toml::Value::String(s) => TomlEntry::Str(s.clone()),
        toml::Value::Table(t) => TomlEntry::Table(t.iter().map(|(k, v)| (k.clone(), field(v))).collect()),
        other => TomlEntry::Other(other.to_string()),
    }
}

fn parse(name: &str, text: &str) -> (Theme, Vec<String>) {
    let mut warnings = Vec::new();
    let table: toml::Table = text.parse().expect("test TOML must parse");
    let entries: Vec<(String, TomlEntry)> = table.iter().map(|(k, v)| (k.clone(), entry(v))).collect();
    let theme = Theme::from_toml(name, entries, &mut warnings);
    (theme, warnings)
}

fn plain() -> Style {
    Style { fg: None, bg: None, underline_color: None, underline: None, modifiers: Modifiers(0) }
}

#[test]
fn bare_string_sets_only_fg() {
    let (t, w) = parse("t", r##""keyword" = "blue""##);
    assert!(w.is_empty(), "{w:?}");
    assert_eq!(t.style_for_name("keyword"), Some(Style { fg: Some(ThemeColor::DarkBlue), ..plain() }));
}

#[test]
fn table_form_parses_every_field() {
    let (t, w) = parse(
        "t",
        r##""string" = { fg = "#ff8800", bg = "black", modifiers = ["bold", "italic", "underlined"], underline = { color = "light-red", style = "curl" } }"##,
    );
    assert!(w.is_empty(), "{w:?}");
    let s = t.style_for_name("string").unwrap();
    assert_eq!(s.fg, Some(ThemeColor::Rgb { r: 255, g: 136, b: 0 }));
    assert_eq!(s.bg, Some(ThemeColor::Black));
    assert!(s.modifiers.contains(Modifiers::bold()));
    assert!(s.modifiers.contains(Modifiers::italic()));
    assert!(!s.modifiers.contains(Modifiers::dim()));
    assert_eq!(s.underline, Some(UnderlineStyle::Curl));
    assert_eq!(s.underline_color, Some(ThemeColor::Red));
    let attrs: Vec<TextAttribute> = s.attributes();
    assert_eq!(attrs, vec![TextAttribute::Bold, TextAttribute::Italic, TextAttribute::Undercurled]);
}

#[test]
fn dotted_scopes_fall_back_to_their_longest_defined_prefix() {
    let (t, _) = parse(
        "t",
        r##"
"keyword" = "blue"
"keyword.control" = "red"
"##,
    );
    assert_eq!(t.style_for_name("keyword.control.import").unwrap().fg, Some(ThemeColor::DarkRed));
    assert_eq!(t.style_for_name("keyword.operator").unwrap().fg, Some(ThemeColor::DarkBlue));
    assert_eq!(t.style_for_name("keyword").unwrap().fg, Some(ThemeColor::DarkBlue));
    assert_eq!(t.style_for_name("function"), None);
}

#[test]
fn palette_names_resolve_and_may_shadow_terminal_colors() {
    let (t, w) = parse(
        "t",
        r##"
"comment" = "mygray"
"string" = "red"

[palette]
mygray = "#808080"
red = "#f00"
"##,
    );
    assert!(w.is_empty(), "{w:?}");
    assert_eq!(t.style_for_name("comment").unwrap().fg, Some(ThemeColor::Rgb { r: 128, g: 128, b: 128 }));
    assert_eq!(t.style_for_name("string").unwrap().fg, Some(ThemeColor::Rgb { r: 255, g: 0, b: 0 }));
}

#[test]
fn terminal_color_names_match_helix_escape_codes() {
    assert_eq!(parse_color_literal("gray"), Ok(ThemeColor::DarkGrey));
    assert_eq!(parse_color_literal("light-gray"), Ok(ThemeColor::Grey));
    assert_eq!(parse_color_literal("white"), Ok(ThemeColor::White));
    assert_eq!(parse_color_literal("default"), Ok(ThemeColor::Reset));
    assert_eq!(parse_color_literal("yellow"), Ok(ThemeColor::DarkYellow));
    assert_eq!(parse_color_literal("light-yellow"), Ok(ThemeColor::Yellow));
    assert_eq!(parse_color_literal("208"), Ok(ThemeColor::AnsiValue(208)));
    assert!(parse_color_literal("chartreuse").is_err());
    assert!(parse_color_literal("#12345").is_err());
}

#[test]
fn bad_entries_warn_but_do_not_sink_the_theme() {
    let (t, w) = parse(
        "t",
        r##"
"keyword" = "blue"
"string" = "nosuchcolor"
"type" = { fg = "red", bogus = 1 }
"##,
    );
    assert_eq!(w.len(), 2, "{w:?}");
    assert!(w[0].contains("string") || w[1].contains("string"));
    assert!(t.style_for_name("keyword").is_some());
    assert!(t.style_for_name("string").is_none());
    assert!(t.style_for_name("type").is_none());
}

#[test]
fn ui_and_rainbow_entries_are_accepted_and_ignored() {
    let (t, w) = parse(
        "t",
        r##"
"ui.background" = { bg = "black" }
"ui.selection" = { modifiers = ["reversed"] }
rainbow = ["red", "green", { fg = "blue" }]
"comment" = "gray"
"##,
    );
    assert!(w.is_empty(), "{w:?}");
    assert!(t.style_for_name("comment").is_some());
    assert!(t.style_for_name("rainbow").is_none());
}

#[test]
fn palette_that_is_not_a_table_warns() {
    let (_, w) = parse("t", "palette = \"x\"\n\"a\" = \"red\"");
    assert_eq!(w, vec!["theme t: [palette] must be a table".to_string()]);
    let (_, w) = parse("t", "\"a\" = { bogus = 1 }\n[palette]\nx = 5");
    assert_eq!(
        w,
        vec!["theme t: palette entry \"x\": not a string".to_string(), "theme t: \"a\": invalid style attribute \"bogus\"".to_string()]
    );
}

/// Follows a theme's `inherits` chain through in-memory "files" in one
/// search directory, `/themes`, as the program does on disk.
fn chain(name: &str, files: &[(&str, &str)], visited: &mut Vec<String>) -> Result<Vec<(String, TomlEntry)>, String> {
    let loader = Loader::new(vec!["/themes".to_string()]);
    let text = match theme_source(name)? {
        ThemeSource::Search(file) => {
            let found: Vec<String> =
                files.iter().filter(|(n, _)| *n == file).map(|(n, _)| format!("/themes/{n}")).collect();
            let path = pick_theme_file(name, &found, visited, &loader.searched())?;
            assert!(first_visit(visited, path.clone()));
            files.iter().find(|(n, _)| format!("/themes/{n}") == path).unwrap().1.to_string()
        }
        ThemeSource::Path(path) => {
            if !first_visit(visited, path.clone()) {
                return Err(format!("cycle in `inherits` chain at {path}"));
            }
            files.iter().find(|(n, _)| *n == path).map(|(_, t)| t.to_string()).ok_or(format!("cannot read {path}"))?
        }
        ThemeSource::Builtin(n) => return Err(format!("built-in {n}")),
    };
    let (table, parent) = theme_layer(&text)?;
    match parent {
        None => Ok(table),
        Some(p) => Ok(merge_inherited(chain(&p, files, visited)?, table)),
    }
}

fn load_in(name: &str, files: &[(&str, &str)], w: &mut Vec<String>) -> Option<Theme> {
    let mut visited = Vec::new();
    match chain(name, files, &mut visited) {
        Ok(table) => Some(Theme::from_toml(name, table, w)),
        Err(e) => {
            w.push(format!("theme {name}: {e}"));
            None
        }
    }
}

#[test]
fn inherits_overlays_child_scopes_and_unions_palettes() {
    let parent = r##"
"keyword" = "kw"
"string" = { fg = "str", modifiers = ["bold"] }
"comment" = "gray"

[palette]
kw = "#000001"
str = "#000002"
"##;
    let child = r##"
inherits = "parent"
"string" = "str"
"type" = "ty"

[palette]
kw = "#000003"
ty = "#000004"
"##;
    let mut w = Vec::new();
    let t = load_in("child", &[("parent.toml", parent), ("child.toml", child)], &mut w).expect("child theme loads");
    assert!(w.is_empty(), "{w:?}");
    assert_eq!(t.style_for_name("keyword").unwrap().fg, Some(ThemeColor::Rgb { r: 0, g: 0, b: 3 }));
    let s = t.style_for_name("string").unwrap();
    assert_eq!(s.fg, Some(ThemeColor::Rgb { r: 0, g: 0, b: 2 }));
    assert!(!s.modifiers.contains(Modifiers::bold()));
    assert_eq!(t.style_for_name("comment").unwrap().fg, Some(ThemeColor::DarkGrey));
    assert_eq!(t.style_for_name("type").unwrap().fg, Some(ThemeColor::Rgb { r: 0, g: 0, b: 4 }));
}

#[test]
fn inherits_cycle_is_an_error_not_a_hang() {
    let mut w = Vec::new();
    assert!(load_in("a", &[("a.toml", "inherits = \"b\"\n"), ("b.toml", "inherits = \"a\"\n")], &mut w).is_none());
    assert!(w.iter().any(|m| m.contains("cycle")), "{w:?}");
    assert_eq!(w, vec!["theme a: cycle in `inherits` chain at a".to_string()]);
}

#[test]
fn missing_theme_reports_where_it_looked() {
    let mut w = Vec::new();
    assert!(load_in("nope", &[], &mut w).is_none());
    assert_eq!(w.len(), 1);
    assert!(w[0].contains("nope") && w[0].contains("/themes"), "{w:?}");
    assert_eq!(w[0], "theme nope: no theme named \"nope\" found (searched /themes, built-in themes)");
}

#[test]
fn explicit_path_loads_directly() {
    let mut w = Vec::new();
    let t = load_in("/tmp/custom.toml", &[("/tmp/custom.toml", "\"keyword\" = \"cyan\"\n")], &mut w).unwrap();
    assert!(w.is_empty(), "{w:?}");
    assert_eq!(t.style_for_name("keyword").unwrap().fg, Some(ThemeColor::DarkCyan));
}

#[test]
fn unknown_builtin_name_is_reported_without_touching_disk() {
    let mut w = Vec::new();
    assert!(load_in("tico-builtin-nope", &[], &mut w).is_none());
    assert!(w[0].contains("no built-in theme"), "{w:?}");
}

#[test]
fn theme_sources_tell_builtins_paths_and_bare_names_apart() {
    assert!(matches!(theme_source("tico-builtin-nord"), Ok(ThemeSource::Builtin(n)) if n == "tico-builtin-nord"));
    assert!(matches!(theme_source("~/x.toml"), Ok(ThemeSource::Path(p)) if p == "~/x.toml"));
    assert!(matches!(theme_source("./perl"), Ok(ThemeSource::Path(p)) if p == "./perl"));
    assert!(matches!(theme_source("gruvbox"), Ok(ThemeSource::Search(f)) if f == "gruvbox.toml"));
    let e = match theme_source("tico-builtin-x") {
        Err(e) => e,
        Ok(_) => panic!("unknown built-in accepted"),
    };
    assert!(e.starts_with("no built-in theme named \"tico-builtin-x\" (built-ins: tico-builtin-default, tico-builtin-catppuccin_mocha,"));
    assert!(e.ends_with("tico-builtin-tokyonight)"));
}

#[test]
fn a_theme_may_inherit_from_a_same_named_one_further_down_the_path() {
    let found = vec!["/a/gruvbox.toml".to_string(), "/b/gruvbox.toml".to_string()];
    let visited = vec!["/a/gruvbox.toml".to_string()];
    assert_eq!(pick_theme_file("gruvbox", &found, &visited, "/a, /b"), Ok("/b/gruvbox.toml".to_string()));
    let all = vec!["/a/gruvbox.toml".to_string(), "/b/gruvbox.toml".to_string()];
    assert_eq!(
        pick_theme_file("gruvbox", &found, &all, "/a, /b"),
        Err("cycle in `inherits` chain at gruvbox".to_string())
    );
    let mut seen = Vec::new();
    assert!(first_visit(&mut seen, "x".to_string()));
    assert!(!first_visit(&mut seen, "x".to_string()));
    assert_eq!(seen, vec!["x".to_string()]);
}

#[test]
fn theme_layers_report_bad_toml_and_bad_parents() {
    assert!(theme_layer("a = ").unwrap_err().starts_with("parse error: "));
    assert_eq!(theme_layer("inherits = 3\n").unwrap_err(), "`inherits` must be a string, not 3");
    assert_eq!(theme_layer("[inherits]\nx = 1\n").unwrap_err(), "`inherits` must be a string, not a table");
    let (table, parent) = theme_layer("inherits = \"base\"\n\"keyword\" = \"red\"\n").unwrap();
    assert_eq!(parent, Some("base".to_string()));
    assert_eq!(table.len(), 2);
}

#[test]
fn merging_replaces_whole_entries_and_keeps_a_non_table_child_palette_out() {
    let layer = |t: &str| theme_layer(t).unwrap().0;
    let parent = layer("\"a\" = \"red\"\n\"b\" = \"blue\"\n[palette]\nx = \"#000001\"\n");
    let child = layer("\"b\" = \"green\"\n\"c\" = \"cyan\"\npalette = \"oops\"\n");
    let m = merge_inherited(parent, child);
    let keys: Vec<&str> = m.iter().map(|(k, _)| k.as_str()).collect();
    assert_eq!(keys, vec!["a", "b", "palette", "c"]);
    assert!(matches!(&m[1].1, TomlEntry::Str(s) if s == "green"));
    assert!(matches!(&m[2].1, TomlEntry::Table(t) if t.len() == 1));
}

#[test]
fn language_theme_listing_keeps_first_order_and_last_theme() {
    let pairs = vec![
        ("perl".to_string(), "a".to_string()),
        ("rust".to_string(), "b".to_string()),
        ("perl".to_string(), "c".to_string()),
    ];
    assert_eq!(
        language_theme_listing(pairs),
        vec![("perl".to_string(), "c".to_string()), ("rust".to_string(), "b".to_string())]
    );
}
