use xtask_utils::command_ext::{
    Attempt, Command, CommandExt, Error, ErrorKind, ExitStatus, ExitStatusExt, OsError,
};
use xtask_utils::exit::{Exit, DIVIDER};

fn command(program: &str, args: &[&str]) -> Command {
    Command { program: program.to_string(), args: args.iter().map(|a| a.to_string()).collect() }
}

fn status_exit(code: i32, words: &str) -> Exit {
    Exit { code, report: vec![String::new(), DIVIDER.to_string(), words.to_string()] }
}

#[test]
fn from_str_splits_at_white_space() {
    assert_eq!(Command::from_str("echo hello world"), command("echo", &["hello", "world"]));
    assert_eq!(Command::from_str("cat"), command("cat", &[]));
    assert_eq!(Command::from_str("  ls\t-l \n -a  "), command("ls", &["-l", "-a"]));
    assert_eq!(Command::from_str("a\u{a0}b\u{3000}c\u{2003}d"), command("a", &["b", "c", "d"]));
    assert_eq!(Command::from_str("say \"a b\""), command("say", &["\"a", "b\""]));
}

#[test]
fn parse_finds_no_command_in_a_blank_line() {
    assert_eq!(Command::parse(""), None);
    assert_eq!(Command::parse(" \t\r\n"), None);
    assert_eq!(Command::parse("\u{2028}\u{85}"), None);
    assert_eq!(Command::parse(" x "), Some(command("x", &[])));
}

#[test]
fn wait_of_a_single_command() {
    let ls = command("ls", &["-l"]);
    assert_eq!(ls.wait(Attempt::Exited(ExitStatus { code: Some(0) })), Ok(Ok(())));
    assert_eq!(
        ls.wait(Attempt::Exited(ExitStatus { code: Some(2) })),
        Err(status_exit(2, "exit status: 2"))
    );
    assert_eq!(
        ls.wait(Attempt::Exited(ExitStatus { code: None })),
        Err(status_exit(1, "terminated by a signal"))
    );
    assert_eq!(
        ls.wait(Attempt::SpawnFailed(OsError::new("gone"))),
        Ok(Err(Error { name: "ls".to_string(), kind: ErrorKind::Spawn(OsError::new("gone")) }))
    );
    assert_eq!(
        ls.wait(Attempt::WaitFailed(OsError::new("lost"))),
        Ok(Err(Error { name: "ls".to_string(), kind: ErrorKind::Wait(OsError::new("lost")) }))
    );
}

#[test]
fn exec_of_a_single_command() {
    let ls = command("ls", &[]);
    assert_eq!(
        ls.exec(Attempt::Exited(ExitStatus { code: Some(0) })),
        Err(Exit { code: 0, report: vec![] })
    );
    assert_eq!(
        ls.exec(Attempt::Exited(ExitStatus { code: Some(-3) })),
        Err(status_exit(-3, "exit status: -3"))
    );
    assert_eq!(
        ls.exec(Attempt::SpawnFailed(OsError::new("gone"))),
        Ok(Error { name: "ls".to_string(), kind: ErrorKind::Spawn(OsError::new("gone")) })
    );
    assert_eq!(
        ls.exec(Attempt::WaitFailed(OsError::new("lost"))),
        Ok(Error { name: "ls".to_string(), kind: ErrorKind::Wait(OsError::new("lost")) })
    );
}

#[test]
fn status_succeeds_only_with_code_zero() {
    assert!(ExitStatus { code: Some(0) }.success());
    assert!(!ExitStatus { code: Some(1) }.success());
    assert!(!ExitStatus { code: Some(-1) }.success());
    assert!(!ExitStatus { code: None }.success());
    assert_eq!(ExitStatus { code: Some(5) }.code(), Some(5));
    assert_eq!(ExitStatus { code: None }.code(), None);
}

#[test]
fn status_in_words() {
    assert_eq!(ExitStatus { code: Some(0) }.describe(), "exit status: 0");
    assert_eq!(ExitStatus { code: Some(101) }.describe(), "exit status: 101");
    assert_eq!(ExitStatus { code: Some(i32::MIN) }.describe(), "exit status: -2147483648");
    assert_eq!(ExitStatus { code: None }.describe(), "terminated by a signal");
}

#[test]
fn exit_on_err_leaves_with_the_code_of_the_status() {
    assert_eq!(ExitStatus { code: Some(0) }.exit_on_err(), Ok(()));
    assert_eq!(ExitStatus { code: Some(9) }.exit_on_err(), Err(status_exit(9, "exit status: 9")));
    assert_eq!(
        ExitStatus { code: None }.exit_on_err(),
        Err(status_exit(1, "terminated by a signal"))
    );
    assert_eq!(Exit::from_status(&ExitStatus { code: Some(255) }).code, 255);
    assert_eq!(DIVIDER.len(), 38);
    assert!(DIVIDER.chars().all(|c| c == '-'));
}

#[test]
fn exit_on_err_with_calls_back_only_on_failure() {
    let mut called = 0;
    assert_eq!(ExitStatus { code: Some(0) }.exit_on_err_with(|| called += 1), Ok(()));
    assert_eq!(called, 0);
    assert_eq!(
        ExitStatus { code: Some(4) }.exit_on_err_with(|| called += 1),
        Err(status_exit(4, "exit status: 4"))
    );
    assert_eq!(called, 1);
}

#[test]
fn error_in_words() {
    let cause = || OsError::new("os says no");
    let error = |kind| Error { name: "x".to_string(), kind };
    assert_eq!(error(ErrorKind::File(cause())).to_string(), "failed opening file at x");
    assert_eq!(error(ErrorKind::Spawn(cause())).to_string(), "failed spawning x");
    assert_eq!(error(ErrorKind::Wait(cause())).to_string(), "failed waiting for x");
    assert_eq!(
        error(ErrorKind::Exit(ExitStatus { code: Some(3) })).to_string(),
        "child process \"x\" failed: exit status: 3"
    );
}

#[test]
fn error_kind_and_source() {
    let failed = Error { name: "x".to_string(), kind: ErrorKind::Wait(OsError::new("lost")) };
    assert_eq!(failed.kind(), &ErrorKind::Wait(OsError::new("lost")));
    assert_eq!(failed.source(), Some(&OsError::new("lost")));
    assert_eq!(failed.messages(), vec!["failed waiting for x", "lost"]);
    assert_eq!(failed.exit().code, 1);

    let exited = Error { name: "x".to_string(), kind: ErrorKind::Exit(ExitStatus { code: None }) };
    assert_eq!(exited.source(), None);
    assert_eq!(exited.messages(), vec!["child process \"x\" failed: terminated by a signal"]);
    assert_eq!(
        exited.exit(),
        Exit {
            code: 1,
            report: vec!["child process \"x\" failed: terminated by a signal".to_string()],
        }
    );
}
