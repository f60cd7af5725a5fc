use xtask_utils::any_err::AnyErr;
use xtask_utils::command_ext::{Error, ErrorKind, OsError};
use xtask_utils::exit::{render_report, Exit};
use xtask_utils::result_ext::{ErrorExt, ResultExt};

#[test]
fn context() {
    let err = AnyErr::new("first message");
    let err = err.context("second message");
    assert!(err.to_string().contains("second message"));
    assert!(err
        .source()
        .expect("missing error source")
        .to_string()
        .contains("first message"));
}

#[test]
fn context_of_a_result_keeps_the_value() {
    let good: Result<u8, AnyErr> = Ok(3);
    assert_eq!(good.context("unused"), Ok(3));

    let bad: Result<u8, AnyErr> = Err(AnyErr::new("inner"));
    let wrapped = bad.context("outer").unwrap_err();
    assert_eq!(wrapped.messages(), vec!["outer", "inner"]);
}

#[test]
fn with_context_asks_for_the_message_only_on_an_error() {
    let mut asked = false;
    let good: Result<u8, AnyErr> = Ok(3);
    let kept = good.with_context(|| {
        asked = true;
        "unused".to_string()
    });
    assert_eq!(kept, Ok(3));
    assert!(!asked);

    let bad: Result<u8, OsError> = Err(OsError::new("disk full"));
    let wrapped = bad
        .with_context(|| {
            asked = true;
            format!("writing {}", "log")
        })
        .unwrap_err();
    assert!(asked);
    assert_eq!(wrapped.messages(), vec!["writing log", "disk full"]);
}

#[test]
fn exit_of_a_result() {
    let good: Result<u8, AnyErr> = Ok(3);
    assert_eq!(good.exit(), Exit { code: 0, report: vec![] });
    assert_eq!(good.exit_on_err(), Ok(3));

    let bad: Result<u8, AnyErr> = Err(AnyErr::new("broken"));
    let exit = Exit { code: 1, report: vec!["broken".to_string()] };
    assert_eq!(bad.exit(), exit);
    assert_eq!(bad.exit_on_err(), Err(exit));
}

#[test]
fn exit_of_an_error_reports_every_cause() {
    let err = AnyErr::new("a").context("b").context("c");
    assert_eq!(
        err.exit(),
        Exit {
            code: 1,
            report: vec![
                "c".to_string(),
                String::new(),
                "Caused by:".to_string(),
                "  b".to_string(),
                "  a".to_string(),
            ],
        }
    );

    let failed =
        Error { name: "out/log".to_string(), kind: ErrorKind::File(OsError::new("denied")) };
    assert_eq!(ErrorExt::messages(&failed), vec!["failed opening file at out/log", "denied"]);
    assert_eq!(
        ErrorExt::exit(&failed).report,
        vec!["failed opening file at out/log", "", "Caused by:", "  denied"]
    );
    assert_eq!(failed.context("setup").messages(), vec![
        "setup",
        "failed opening file at out/log",
        "denied"
    ]);
    assert_eq!(OsError::new("denied").exit(), Exit { code: 1, report: vec!["denied".to_string()] });
    assert_eq!(OsError::new("denied").into_any(), AnyErr::new("denied"));
}

#[test]
fn report_of_a_chain() {
    let chain = |messages: &[&str]| messages.iter().map(|m| m.to_string()).collect::<Vec<_>>();
    assert_eq!(render_report(&chain(&[])), Vec::<String>::new());
    assert_eq!(render_report(&chain(&["only"])), vec!["only"]);
    assert_eq!(render_report(&chain(&["top", "cause"])), vec!["top", "", "Caused by:", "  cause"]);
    assert_eq!(
        render_report(&chain(&["top", "", " x "])),
        vec!["top", "", "Caused by:", "  ", "   x "]
    );
}
