use cargo_recursive::command::{CommandSpec, Invocation, RunError};
use cargo_recursive::config::{parse_depth, ConfigError};

fn spec(external: bool, args: &[&str], output: bool, exit_on_error: bool) -> CommandSpec {
    CommandSpec { external, args: args.iter().map(|s| s.to_string()).collect(), output, exit_on_error }
}

#[test]
fn default_tool_gets_every_token() {
    let inv = spec(false, &["build", "--release"], true, false).invocation().unwrap();
    assert!(matches!(inv, Invocation::Default { .. }));
    assert_eq!(inv.program(), "cargo");
    assert_eq!(inv.arguments(), &vec!["build".to_string(), "--release".to_string()]);
}

#[test]
fn external_first_token_is_the_binary() {
    let inv = spec(true, &["make", "-j", "4"], true, false).invocation().unwrap();
    assert_eq!(inv.program(), "make");
    assert_eq!(inv.arguments(), &vec!["-j".to_string(), "4".to_string()]);
    let inv = spec(true, &["ls"], true, false).invocation().unwrap();
    assert_eq!(inv.program(), "ls");
    assert!(inv.arguments().is_empty());
}

#[test]
fn empty_command_has_no_invocation() {
    assert!(matches!(spec(false, &[], true, false).invocation(), Err(RunError::EmptyCommand)));
    assert!(matches!(spec(true, &[], true, true).invocation(), Err(RunError::EmptyCommand)));
}

#[test]
fn judging_exit_codes() {
    let strict = spec(false, &["test"], true, true);
    assert_eq!(strict.judge(Some(0)), Ok(()));
    assert_eq!(strict.judge(Some(2)), Err(RunError::ExitCode(2)));
    assert_eq!(strict.judge(Some(-1)), Err(RunError::ExitCode(-1)));
    assert_eq!(strict.judge(None), Err(RunError::Abnormal));
    let lax = spec(false, &["test"], true, false);
    assert_eq!(lax.judge(Some(0)), Ok(()));
    assert_eq!(lax.judge(Some(101)), Ok(()));
    assert_eq!(lax.judge(None), Ok(()));
}

#[test]
fn suppressed_output_forwards_nothing() {
    for exit_on_error in [false, true] {
        let quiet = spec(false, &["build"], false, exit_on_error);
        let (o, e) = quiet.forwarded(b"compiling".to_vec(), b"warning".to_vec());
        assert!(o.is_empty());
        assert!(e.is_empty());
    }
    let loud = spec(false, &["build"], true, false);
    let (o, e) = loud.forwarded(b"compiling".to_vec(), b"warning".to_vec());
    assert_eq!(o, b"compiling".to_vec());
    assert_eq!(e, b"warning".to_vec());
}

#[test]
fn depth_values() {
    assert_eq!(parse_depth("64"), Ok(64));
    assert_eq!(parse_depth("0"), Ok(0));
    assert_eq!(parse_depth("+7"), Ok(7));
    assert_eq!(parse_depth("007"), Ok(7));
    assert_eq!(parse_depth(&usize::MAX.to_string()), Ok(usize::MAX));
}

#[test]
fn bad_depth_values() {
    for s in ["", "+", "-1", "abc", "6 4", "1.5", "++1", "٣"] {
        assert_eq!(parse_depth(s), Err(ConfigError::BadDepth), "{:?}", s);
    }
    let too_big = format!("{}0", usize::MAX);
    assert_eq!(parse_depth(&too_big), Err(ConfigError::BadDepth));
}
