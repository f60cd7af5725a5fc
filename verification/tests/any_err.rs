use xtask_utils::any_err::AnyErr;
use xtask_utils::command_ext::{Error, ErrorKind, ExitStatus, OsError};
use xtask_utils::result_ext::ErrorExt;

#[test]
fn retains_message() {
    let err = AnyErr::new("hello world");
    assert!(err.to_string().contains("hello world"));
    let err = AnyErr::with_source("hi again", err);
    assert!(err.to_string().contains("hi again"));
}

#[test]
fn new_error_has_no_source() {
    let err = AnyErr::new("alone");
    assert_eq!(err.to_string(), "alone");
    assert_eq!(err.source(), None);
    assert_eq!(err.messages(), vec!["alone"]);
}

#[test]
fn source_is_kept_with_its_own_sources() {
    let inner = AnyErr::with_source("middle", AnyErr::new("bottom"));
    let err = AnyErr::with_source("top", inner);

    assert_eq!(err.to_string(), "top");
    assert_eq!(err.messages(), vec!["top", "middle", "bottom"]);
    let source = err.source().expect("missing error source");
    assert_eq!(source.to_string(), "middle");
    assert_eq!(source.messages(), vec!["middle", "bottom"]);
    assert_eq!(source.source(), Some(&AnyErr::new("bottom")));
    assert_eq!(AnyErr::caused_by("top", AnyErr::caused_by("middle", AnyErr::new("bottom"))), err);
}

#[test]
fn any_library_error_can_be_a_source() {
    let cause = OsError::new("No such file or directory (os error 2)");
    let err = AnyErr::with_source("could not list", cause);
    assert_eq!(err.messages(), vec!["could not list", "No such file or directory (os error 2)"]);

    let failed = Error { name: "ls".to_string(), kind: ErrorKind::Spawn(OsError::new("gone")) };
    let err = AnyErr::with_source("could not list", failed);
    assert_eq!(err.messages(), vec!["could not list", "failed spawning ls", "gone"]);

    let failed =
        Error { name: "ls".to_string(), kind: ErrorKind::Exit(ExitStatus { code: Some(2) }) };
    let err = AnyErr::with_source("could not list", failed);
    assert_eq!(
        err.messages(),
        vec!["could not list", "child process \"ls\" failed: exit status: 2"]
    );
}
