use pdfgreper::cli::{is_pdf_extension, parse_args, ArgError, Command, Flag};
use pdfgreper::pipeline::Mode;

fn args(a: &[&str]) -> Vec<String> {
    a.iter().map(|s| s.to_string()).collect()
}

#[test]
fn full_command_line() {
    let r = parse_args(&args(&[
        "--dir", "docs", "--out", "r.csv", "--recursive", "--bool", "a AND b", "--cporrm", "remove",
        "--folder", "sel",
    ]));
    match r {
        Ok(Command::Run(o)) => {
            assert_eq!(o.dir.as_deref(), Some("docs"));
            assert_eq!(o.out.as_deref(), Some("r.csv"));
            assert!(o.recursive);
            assert_eq!(o.query, "a AND b");
            assert_eq!(o.mode, Mode::Move);
            assert_eq!(o.folder.as_deref(), Some("sel"));
        }
        _ => panic!("expected a run"),
    }
}

#[test]
fn defaults_when_only_query() {
    match parse_args(&args(&["--bool", "x"])) {
        Ok(Command::Run(o)) => {
            assert!(o.dir.is_none());
            assert!(o.out.is_none());
            assert!(!o.recursive);
            assert_eq!(o.mode, Mode::Copy);
            assert!(o.folder.is_none());
        }
        _ => panic!("expected a run"),
    }
}

#[test]
fn query_is_required() {
    assert!(matches!(parse_args(&args(&["--dir", "x"])), Err(ArgError::MissingQuery)));
    assert!(matches!(parse_args(&args(&[])), Err(ArgError::MissingQuery)));
}

#[test]
fn invalid_mode_rejected() {
    assert!(matches!(
        parse_args(&args(&["--bool", "x", "--cporrm", "move"])),
        Err(ArgError::InvalidMode)
    ));
}

#[test]
fn flag_without_value() {
    assert!(matches!(
        parse_args(&args(&["--bool"])),
        Err(ArgError::MissingValue(Flag::Bool))
    ));
    assert!(matches!(
        parse_args(&args(&["--bool", "x", "--folder"])),
        Err(ArgError::MissingValue(Flag::Folder))
    ));
}

#[test]
fn unknown_option() {
    match parse_args(&args(&["--bool", "x", "--fast"])) {
        Err(ArgError::UnknownOption(a)) => assert_eq!(a, "--fast"),
        _ => panic!("expected an unknown option"),
    }
}

#[test]
fn help_stops_reading() {
    assert!(matches!(parse_args(&args(&["--help", "--bogus"])), Ok(Command::Help)));
    assert!(matches!(parse_args(&args(&["--bogus", "--help"])), Err(ArgError::UnknownOption(_))));
}

#[test]
fn pdf_extension_any_case() {
    assert!(is_pdf_extension("pdf"));
    assert!(is_pdf_extension("PdF"));
    assert!(!is_pdf_extension("pdfx"));
    assert!(!is_pdf_extension("txt"));
}
