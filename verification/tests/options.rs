use tico::options::{parse_byte_size, parse_color_pair, Options};

#[test]
fn parse_byte_size_plain_bytes() {
    assert_eq!(parse_byte_size("4096"), Some(4096));
    assert_eq!(parse_byte_size("0"), Some(0));
}

#[test]
fn parse_byte_size_kb_mb_gb_suffixes_are_1024_based_and_case_insensitive() {
    assert_eq!(parse_byte_size("4KB"), Some(4 * 1024));
    assert_eq!(parse_byte_size("4kb"), Some(4 * 1024));
    assert_eq!(parse_byte_size("4Kb"), Some(4 * 1024));
    assert_eq!(parse_byte_size("4MB"), Some(4 * 1024 * 1024));
    assert_eq!(parse_byte_size("4mb"), Some(4 * 1024 * 1024));
    assert_eq!(parse_byte_size("2GB"), Some(2 * 1024 * 1024 * 1024));
    assert_eq!(parse_byte_size("2gb"), Some(2 * 1024 * 1024 * 1024));
}

#[test]
fn parse_byte_size_tolerates_surrounding_and_inner_whitespace() {
    assert_eq!(parse_byte_size("  4 MB  "), Some(4 * 1024 * 1024));
}

#[test]
fn parse_byte_size_rejects_garbage() {
    assert_eq!(parse_byte_size(""), None);
    assert_eq!(parse_byte_size("MB"), None);
    assert_eq!(parse_byte_size("4TB"), None);
    assert_eq!(parse_byte_size("four MB"), None);
    assert_eq!(parse_byte_size("-4MB"), None);
}

#[test]
fn parse_byte_size_overflow_returns_none_instead_of_panicking() {
    assert_eq!(parse_byte_size("99999999999999999999GB"), None);
}

#[test]
fn color_pair_reads_attributes_and_both_colors() {
    let cp = parse_color_pair("bold,white,red").unwrap();
    assert!(cp.bold);
    assert!(!cp.italic);
    assert!(cp.fg.is_some());
    assert!(cp.bg.is_some());
    let unknown = parse_color_pair("nosuchcolor").unwrap();
    assert!(unknown.fg.is_none());
}

#[test]
fn default_options_follow_nano() {
    let o = Options::default();
    assert_eq!(o.tabsize, 8);
    assert_eq!(o.fill, -8);
    assert!(!o.view);
}
