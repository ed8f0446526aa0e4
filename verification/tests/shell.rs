use shell_repl::shell::{ExitStatus, ParseError, Shell};

#[test]
fn parsed_line_exits_with_zero() {
    let mut shell = Shell;
    let parsed: Result<Vec<String>, ParseError> = Ok(vec!["ls".to_string()]);
    assert_eq!(shell.run_script(&parsed), ExitStatus::ExitedWith(0));
}

#[test]
fn empty_line_is_no_failure() {
    let mut shell = Shell;
    let parsed: Result<(), ParseError> = Err(ParseError::Empty);
    assert_eq!(shell.run_script(&parsed), ExitStatus::ExitedWith(0));
}

#[test]
fn fatal_parse_error_exits_with_minus_one() {
    let mut shell = Shell;
    let parsed: Result<(), ParseError> = Err(ParseError::Fatal("unexpected token".to_string()));
    assert_eq!(shell.run_script(&parsed), ExitStatus::ExitedWith(-1));
}
