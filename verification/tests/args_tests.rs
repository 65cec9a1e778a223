use ultranano::args::{parse_args, StartupMode};

fn parse(args: &[&str]) -> Result<StartupMode, String> {
    parse_args(args.iter().map(|arg| arg.to_string()).collect())
}

#[test]
fn parses_help_flag() {
    assert!(matches!(parse(&["un", "--help"]), Ok(StartupMode::Help)));
    assert!(matches!(parse(&["un", "-h"]), Ok(StartupMode::Help)));
}

#[test]
fn parses_version_flag() {
    assert!(matches!(parse(&["un", "--version"]), Ok(StartupMode::Version)));
    assert!(matches!(parse(&["un", "-V"]), Ok(StartupMode::Version)));
}

#[test]
fn parses_optional_filename() {
    assert!(matches!(parse(&["un"]), Ok(StartupMode::Open(None))));
    assert!(matches!(
        parse(&["un", "notes.txt"]),
        Ok(StartupMode::Open(Some(path))) if path == "notes.txt"
    ));
}

#[test]
fn supports_double_dash_before_filename() {
    assert!(matches!(
        parse(&["un", "--", "--notes.txt"]),
        Ok(StartupMode::Open(Some(path))) if path == "--notes.txt"
    ));
}

#[test]
fn rejects_unknown_flags() {
    let error = parse(&["un", "--wat"]).unwrap_err();
    assert!(error.contains("Unknown option: --wat"));
}

#[test]
fn rejects_extra_positional_args() {
    let error = parse(&["un", "a.txt", "b.txt"]).unwrap_err();
    assert!(error.contains("Too many arguments"));
}

#[test]
fn error_messages_name_the_program() {
    assert_eq!(
        parse(&["un", "--wat"]).unwrap_err(),
        "Unknown option: --wat\nTry 'un --help'"
    );
    assert_eq!(
        parse(&["un", "a.txt", "b.txt"]).unwrap_err(),
        "Too many arguments\nUsage: un [FILE]"
    );
}

#[test]
fn flags_after_double_dash_are_file_names() {
    assert!(matches!(
        parse(&["un", "--", "-h"]),
        Ok(StartupMode::Open(Some(path))) if path == "-h"
    ));
    assert!(matches!(parse(&["un", "a.txt", "--help"]), Ok(StartupMode::Help)));
    assert!(matches!(parse(&[]), Ok(StartupMode::Open(None))));
}
