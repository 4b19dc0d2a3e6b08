use tico::cli::{parse_file_args, Cli};
use tico::options::Options;

#[test]
fn command_line_flags_override_the_configuration() {
    let mut o = Options::default();
    o.tabsize = 4;
    o.mouse = true;
    let mut cli = Cli::default();
    cli.linenumbers = true;
    cli.tabsize = Some(2);
    cli.quotestr = Some("^#".to_string());
    cli.rcfile = Some("/tmp/rc".to_string());
    cli.apply(&mut o);
    assert!(o.linenumbers);
    assert!(o.mouse, "a flag not given leaves the option as configured");
    assert_eq!(o.tabsize, 2);
    assert_eq!(o.quotestr, "^#");
    assert_eq!(o.rcfile.as_deref(), Some("/tmp/rc"));
    assert!(!o.ignorercfiles);
}

#[test]
fn file_arguments_take_the_preceding_position() {
    let args: Vec<String> = ["+3,7", "a.txt", "b.txt", "+9", "c.txt", "+x,2", "d.txt"].iter().map(|s| s.to_string()).collect();
    let files = parse_file_args(&args);
    assert_eq!(files.len(), 4);
    assert_eq!((files[0].path.as_str(), files[0].line, files[0].column), ("a.txt", Some(3), Some(7)));
    assert_eq!((files[1].path.as_str(), files[1].line, files[1].column), ("b.txt", None, None));
    assert_eq!((files[2].path.as_str(), files[2].line, files[2].column), ("c.txt", Some(9), None));
    assert_eq!((files[3].path.as_str(), files[3].line, files[3].column), ("d.txt", None, Some(2)));
}

#[test]
fn a_trailing_position_without_a_file_is_dropped() {
    let args: Vec<String> = vec!["+5".to_string()];
    assert!(parse_file_args(&args).is_empty());
}
