use xtask_utils::any_err::AnyErr;
use xtask_utils::command_ext::{Attempt, Command, CommandExt, ExitStatus};
use xtask_utils::exit::Exit;
use xtask_utils::result_ext::{ErrorExt, ResultExt};

/// What a run of the helper program left behind.
struct Ran {
    code: i32,
    stdout: String,
    stderr: Vec<String>,
}

fn leave(exit: Exit) -> Ran {
    Ran { code: exit.code, stdout: String::new(), stderr: exit.report }
}

fn result_of(arg: &str, name: &str) -> Result<(), AnyErr> {
    match arg {
        "ok" => Ok(()),
        "err" => Err(AnyErr::new("error1")).context("error 2"),
        arg => panic!("test-helper {name} called with unrecognized arg '{arg}'"),
    }
}

fn exit_code_of(arg: &str) -> i32 {
    arg.parse().unwrap_or_else(|_| panic!("failed to parse '{arg}' as an i32"))
}

/// Runs the helper's own `exit-code` command as a child, and says how it
/// ended.
fn child(code: i32) -> (Command, Attempt) {
    let line = format!("test-helper exit-code {code}");
    let ended = helper(&["exit-code", &code.to_string()]);
    (Command::from_str(&line), Attempt::Exited(ExitStatus { code: Some(ended.code) }))
}

/// The helper program: it does what its first argument names.
fn helper(args: &[&str]) -> Ran {
    match args[0] {
        "err-exit" => leave(AnyErr::new("example error").exit()),
        "res-exit" => leave(result_of(args[1], "res-exit").exit()),
        "res-exit-err" => match result_of(args[1], "res-exit-err").exit_on_err() {
            Err(exit) => leave(exit),
            Ok(()) => Ran { code: 0, stdout: "all good\n".to_string(), stderr: vec![] },
        },
        "exit-code" => Ran { code: exit_code_of(args[1]), stdout: String::new(), stderr: vec![] },
        "exec" => {
            let (command, attempt) = child(exit_code_of(args[1]));
            match command.exec(attempt) {
                Err(exit) => leave(exit),
                Ok(err) => panic!("exec failed: {}", err.to_string()),
            }
        },
        "wait" => {
            let (command, attempt) = child(exit_code_of(args[1]));
            match command.wait(attempt) {
                Err(exit) => leave(exit),
                Ok(waited) => {
                    waited.unwrap();
                    Ran { code: 0, stdout: String::new(), stderr: vec![] }
                },
            }
        },
        arg => panic!("test helper run with unrecognized arg '{arg}'"),
    }
}

fn run_helper(exit_success: bool, args: [&'static str; 2]) -> String {
    let ran = helper(&args);
    if exit_success != (ran.code == 0) {
        println!("{}", ran.stdout);
        println!("{}", ran.stderr.join("\n"));
        if exit_success {
            panic!("expected test helper to exit zero: actual_exit: {}", ran.code);
        } else {
            panic!("expected test helper to exit non-zero")
        }
    }
    ran.stdout
}

#[test]
fn wait_ok() {
    run_helper(true, ["wait", "0"]);
}

#[test]
fn wait_err() {
    run_helper(false, ["wait", "1"]);
}

#[test]
fn exec_ok() {
    run_helper(true, ["exec", "0"]);
}

#[test]
fn exec_err() {
    run_helper(false, ["exec", "1"]);
}

#[test]
fn exit_err_ok() {
    run_helper(true, ["res-exit-err", "ok"]).contains("all good\n");
}

#[test]
fn exit_err_err() {
    run_helper(false, ["res-exit-err", "err"]);
}

#[test]
fn exit_ok() {
    run_helper(true, ["res-exit", "ok"]);
}

#[test]
fn exit_err() {
    run_helper(false, ["res-exit", "err"]);
}

#[test]
fn result_ext_exit_ok() {
    run_helper(true, ["res-exit-err", "ok"]);
}

#[test]
fn result_ext_exit_err() {
    run_helper(false, ["res-exit-err", "err"]);
}

#[test]
fn helper_says_all_good_only_after_a_good_result() {
    assert_eq!(run_helper(true, ["res-exit-err", "ok"]), "all good\n");
    assert_eq!(run_helper(false, ["res-exit-err", "err"]), "");
    assert_eq!(run_helper(true, ["res-exit", "ok"]), "");
}

#[test]
fn helper_reports_the_error_and_its_cause() {
    for command in ["res-exit", "res-exit-err"] {
        let ran = helper(&[command, "err"]);
        assert_eq!(ran.code, 1);
        assert_eq!(ran.stderr, vec!["error 2", "", "Caused by:", "  error1"]);
    }
    let ran = helper(&["err-exit", ""]);
    assert_eq!(ran.code, 1);
    assert_eq!(ran.stderr, vec!["example error"]);
}

#[test]
fn helper_leaves_with_the_code_of_its_child() {
    for command in ["wait", "exec"] {
        let ran = helper(&[command, "7"]);
        assert_eq!(ran.code, 7);
        assert_eq!(
            ran.stderr,
            vec!["", "--------------------------------------", "exit status: 7"]
        );
        let ran = helper(&[command, "0"]);
        assert_eq!(ran.code, 0);
        assert_eq!(ran.stderr, Vec::<String>::new());
    }
}
