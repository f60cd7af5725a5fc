//! Commands, the statuses they end with, and the errors of running them.
//!
//! Nothing here runs a command. Whoever does hands in what came of it (an
//! [`Attempt`], an [`ExitStatus`]) and is told what follows: a value or an
//! error for the caller, or, as `Err` of an [`Exit`], the end of the
//! process.

use crate::exit::{Exit, ExitView};
use crate::text::{decimal, decimal_string, has_word, split_whitespace, words};
use vstd::prelude::*;
use vstd::string::StringExecFns;

verus! {

/// The status a child process ended with: its exit code, or none where it
/// did not exit by itself (a signal ended it).
#[derive(Clone, Copy, Debug, PartialEq, Eq, Structural)]
pub struct ExitStatus {
    pub code: Option<i32>,
}

impl ExitStatus {
    /// A child succeeded exactly when it exited with code 0.
    pub open spec fn spec_success(&self) -> bool {
        self.code == Some(0i32)
    }

    /// The status in words.
    pub open spec fn description(self) -> Seq<char> {
        match self.code {
            Some(code) => "exit status: "@ + decimal(code as int),
            None => "terminated by a signal"@,
        }
    }

    /// Whether the child succeeded.
    #[verifier::when_used_as_spec(spec_success)]
    pub fn success(&self) -> (ok: bool)
        ensures
            ok == self.spec_success(),
    {
        match self.code {
            Some(code) => code == 0,
            None => false,
        }
    }

    /// The exit code, where the child exited by itself.
    pub fn code(&self) -> (code: Option<i32>)
        ensures
            code == self.code,
    {
        self.code
    }

    /// Writes the status in words.
    pub fn describe(&self) -> (text: String)
        ensures
            text@ == self.description(),
    {
        match self.code {
            Some(code) => String::from_str("exit status: ").concat(decimal_string(code).as_str()),
            None => String::from_str("terminated by a signal"),
        }
    }
}

/// What the operating system said when it refused an operation.
#[derive(Debug, PartialEq, Eq)]
pub struct OsError {
    pub message: String,
}

impl View for OsError {
    type V = Seq<char>;

    open spec fn view(&self) -> Seq<char> {
        self.message@
    }
}

impl OsError {
    /// An error of the operating system with the given message.
    pub fn new(message: &str) -> (error: OsError)
        ensures
            error@ == message@,
    {
        OsError { message: String::from_str(message) }
    }
}

/// The kinds of error that running a command can meet.
#[derive(Debug, PartialEq, Eq)]
pub enum ErrorKind {
    /// A file could not be opened, or the directories above it made.
    File(OsError),
    /// The operating system did not start the process.
    Spawn(OsError),
    /// Waiting for a process that had started failed.
    Wait(OsError),
    /// The process ran to its end and did not succeed.
    Exit(ExitStatus),
}

/// An [`ErrorKind`] as plain values.
pub enum ErrorKindView {
    File(Seq<char>),
    Spawn(Seq<char>),
    Wait(Seq<char>),
    Exit(ExitStatus),
}

impl View for ErrorKind {
    type V = ErrorKindView;

    open spec fn view(&self) -> ErrorKindView {
        match self {
            ErrorKind::File(cause) => ErrorKindView::File(cause@),
            ErrorKind::Spawn(cause) => ErrorKindView::Spawn(cause@),
            ErrorKind::Wait(cause) => ErrorKindView::Wait(cause@),
            ErrorKind::Exit(status) => ErrorKindView::Exit(*status),
        }
    }
}

/// An error of running a command: what failed (`kind`), and the name of the
/// file or program it failed on.
#[derive(Debug, PartialEq, Eq)]
pub struct Error {
    pub name: String,
    pub kind: ErrorKind,
}

/// An [`Error`] as plain values.
pub struct ErrorView {
    pub name: Seq<char>,
    pub kind: ErrorKindView,
}

impl View for Error {
    type V = ErrorView;

    open spec fn view(&self) -> ErrorView {
        ErrorView { name: self.name@, kind: self.kind@ }
    }
}

impl ErrorView {
    /// The error in words.
    pub open spec fn message(self) -> Seq<char> {
        match self.kind {
            ErrorKindView::File(_) => "failed opening file at "@ + self.name,
            ErrorKindView::Spawn(_) => "failed spawning "@ + self.name,
            ErrorKindView::Wait(_) => "failed waiting for "@ + self.name,
            ErrorKindView::Exit(status) => "child process \""@ + self.name + "\" failed: "@
                + status.description(),
        }
    }

    /// The message of the operating system's error that caused this one;
    /// a failing exit status has no cause.
    pub open spec fn source(self) -> Option<Seq<char>> {
        match self.kind {
            ErrorKindView::File(cause) => Some(cause),
            ErrorKindView::Spawn(cause) => Some(cause),
            ErrorKindView::Wait(cause) => Some(cause),
            ErrorKindView::Exit(_) => None,
        }
    }

    /// The messages of the error and of its cause, the error's first.
    pub open spec fn chain(self) -> Seq<Seq<char>> {
        match self.source() {
            Some(cause) => seq![self.message(), cause],
            None => seq![self.message()],
        }
    }
}

impl Error {
    /// What failed.
    pub fn kind(&self) -> (kind: &ErrorKind)
        ensures
            kind == &self.kind,
    {
        &self.kind
    }

    /// The operating system's error that caused this one, where there is
    /// one.
    pub fn source(&self) -> (cause: Option<&OsError>)
        ensures
            match cause {
                Some(cause) => self@.source() == Some(cause@),
                None => self@.source() is None,
            },
    {
        match &self.kind {
            ErrorKind::File(cause) => Some(cause),
            ErrorKind::Spawn(cause) => Some(cause),
            ErrorKind::Wait(cause) => Some(cause),
            ErrorKind::Exit(_) => None,
        }
    }

    /// The messages of the error and of its cause, the error's first.
    pub fn messages(&self) -> (chain: Vec<String>)
        ensures
            chain.deep_view() == self@.chain(),
    {
        let mut chain: Vec<String> = Vec::new();
        chain.push(self.to_string());
        match self.source() {
            Some(cause) => {
                chain.push(cause.message.clone());
            },
            None => {},
        }
        assert(chain.deep_view() =~= self@.chain());
        chain
    }

    /// The end of the process on this error: its report is written, and
    /// the code is 1.
    pub fn exit(&self) -> (exit: Exit)
        ensures
            exit@ == ExitView::of_error(self@.chain()),
    {
        Exit::from_error(&self.messages())
    }

    /// The error in words.
    pub fn to_string(&self) -> (text: String)
        ensures
            text@ == self@.message(),
    {
        match &self.kind {
            ErrorKind::File(_) => String::from_str("failed opening file at ").concat(
                self.name.as_str(),
            ),
            ErrorKind::Spawn(_) => String::from_str("failed spawning ").concat(self.name.as_str()),
            ErrorKind::Wait(_) => String::from_str("failed waiting for ").concat(
                self.name.as_str(),
            ),
            ErrorKind::Exit(status) => String::from_str("child process \"").concat(
                self.name.as_str(),
            ).concat("\" failed: ").concat(status.describe().as_str()),
        }
    }
}

/// A command: the program to run and the arguments to hand it.
#[derive(Debug, PartialEq, Eq)]
pub struct Command {
    pub program: String,
    pub args: Vec<String>,
}

/// A [`Command`] as plain values.
pub struct CommandView {
    pub program: Seq<char>,
    pub args: Seq<Seq<char>>,
}

impl View for Command {
    type V = CommandView;

    open spec fn view(&self) -> CommandView {
        CommandView { program: self.program@, args: self.args.deep_view() }
    }
}

impl CommandView {
    /// The command that `line` spells: its first word is the program, the
    /// words after it are the arguments.
    pub open spec fn parse(line: Seq<char>) -> CommandView {
        CommandView { program: words(line)[0], args: words(line).skip(1) }
    }
}

impl Command {
    /// Reads a command from `line`, where `line` holds one: `None` exactly
    /// when `line` is empty or all white space.
    pub fn parse(line: &str) -> (command: Option<Command>)
        ensures
            match command {
                Some(command) => has_word(line@) && command@ == CommandView::parse(line@),
                None => !has_word(line@),
            },
    {
        let mut found = split_whitespace(line);
        proof {
            crate::text::lemma_words_empty_iff(line@);
        }
        if found.len() == 0 {
            None
        } else {
            let ghost all = found.deep_view();
            let program = found.remove(0);
            assert(found.deep_view() =~= all.skip(1));
            Some(Command { program, args: found })
        }
    }
}

/// What came of running one command by itself.
#[derive(Debug, PartialEq, Eq)]
pub enum Attempt {
    /// The operating system did not start it.
    SpawnFailed(OsError),
    /// It started, and waiting for it failed.
    WaitFailed(OsError),
    /// It ran to its end.
    Exited(ExitStatus),
}

/// An [`Attempt`] as plain values.
pub enum AttemptView {
    SpawnFailed(Seq<char>),
    WaitFailed(Seq<char>),
    Exited(ExitStatus),
}

impl View for Attempt {
    type V = AttemptView;

    open spec fn view(&self) -> AttemptView {
        match self {
            Attempt::SpawnFailed(cause) => AttemptView::SpawnFailed(cause@),
            Attempt::WaitFailed(cause) => AttemptView::WaitFailed(cause@),
            Attempt::Exited(status) => AttemptView::Exited(*status),
        }
    }
}

impl CommandView {
    /// What `wait` makes of an attempt to run this command: an error that
    /// names the program where it did not start or could not be waited
    /// for, nothing where it succeeded, and the end of the process, with
    /// the child's status, where it failed.
    pub open spec fn waited(self, attempt: AttemptView) -> Result<Result<(), ErrorView>, ExitView> {
        match attempt {
            AttemptView::SpawnFailed(cause) => Ok(
                Err(ErrorView { name: self.program, kind: ErrorKindView::Spawn(cause) }),
            ),
            AttemptView::WaitFailed(cause) => Ok(
                Err(ErrorView { name: self.program, kind: ErrorKindView::Wait(cause) }),
            ),
            AttemptView::Exited(status) => if status.spec_success() {
                Ok(Ok(()))
            } else {
                Err(ExitView::of_status(status))
            },
        }
    }

    /// What `exec` makes of an attempt to run this command: the process
    /// ends as the child did, and only an error comes back.
    pub open spec fn executed(self, attempt: AttemptView) -> Result<ErrorView, ExitView> {
        match self.waited(attempt) {
            Ok(Ok(())) => Err(ExitView::success()),
            Ok(Err(error)) => Ok(error),
            Err(exit) => Err(exit),
        }
    }
}

/// Running one command by itself.
pub trait CommandExt: Sized {
    /// The command as plain values.
    spec fn descriptor(&self) -> CommandView;

    /// What follows from an attempt to run the command in place of this
    /// process: the process ends as the command did, with the command's
    /// exit code, and only the error of an attempt that did not get that
    /// far comes back. Where the platform can replace the process by the
    /// command, no attempt but one that did not start is ever seen.
    fn exec(&self, attempt: Attempt) -> (flow: Result<Error, Exit>)
        ensures
            match flow {
                Ok(error) => self.descriptor().executed(attempt@) == Ok::<ErrorView, ExitView>(
                    error@,
                ),
                Err(exit) => self.descriptor().executed(attempt@) == Err::<ErrorView, ExitView>(
                    exit@,
                ),
            },
    ;

    /// What follows from an attempt to run the command and wait for it:
    /// nothing comes back where it succeeded, an error where it did not
    /// start or could not be waited for, and the process ends with the
    /// command's status where it failed.
    fn wait(&self, attempt: Attempt) -> (flow: Result<Result<(), Error>, Exit>)
        ensures
            match flow {
                Ok(Ok(())) => self.descriptor().waited(attempt@) == Ok::<
                    Result<(), ErrorView>,
                    ExitView,
                >(Ok(())),
                Ok(Err(error)) => self.descriptor().waited(attempt@) == Ok::<
                    Result<(), ErrorView>,
                    ExitView,
                >(Err(error@)),
                Err(exit) => self.descriptor().waited(attempt@) == Err::<
                    Result<(), ErrorView>,
                    ExitView,
                >(exit@),
            },
    ;

    /// Reads a command from a line: the first word is the program, the
    /// words after it are its arguments.
    fn from_str(line: &str) -> (command: Self)
        requires
            has_word(line@),
        ensures
            command.descriptor() == CommandView::parse(line@),
    ;
}

impl CommandExt for Command {
    open spec fn descriptor(&self) -> CommandView {
        self@
    }

    fn exec(&self, attempt: Attempt) -> (flow: Result<Error, Exit>) {
        match self.wait(attempt) {
            Ok(Ok(())) => Err(Exit::success()),
            Ok(Err(error)) => Ok(error),
            Err(exit) => Err(exit),
        }
    }

    fn wait(&self, attempt: Attempt) -> (flow: Result<Result<(), Error>, Exit>) {
        match attempt {
            Attempt::SpawnFailed(cause) => Ok(
                Err(Error { name: self.program.clone(), kind: ErrorKind::Spawn(cause) }),
            ),
            Attempt::WaitFailed(cause) => Ok(
                Err(Error { name: self.program.clone(), kind: ErrorKind::Wait(cause) }),
            ),
            Attempt::Exited(status) => match status.exit_on_err() {
                Ok(()) => Ok(Ok(())),
                Err(exit) => Err(exit),
            },
        }
    }

    fn from_str(line: &str) -> (command: Command) {
        Command::parse(line).unwrap()
    }
}

/// Ending the process on a child's failure.
pub trait ExitStatusExt {
    /// The status as a plain value.
    spec fn status(&self) -> ExitStatus;

    /// The end of the process where the child failed: an empty line, the
    /// divider and the status are written, and the process exits with the
    /// child's code, or with 1 where it has none. Where the child
    /// succeeded, the process goes on.
    fn exit_on_err(&self) -> (flow: Result<(), Exit>)
        ensures
            match flow {
                Ok(()) => self.status().spec_success(),
                Err(exit) => !self.status().spec_success() && exit@ == ExitView::of_status(
                    self.status(),
                ),
            },
    ;

    /// As `exit_on_err`, and calls `f` first where the child failed, and
    /// only then.
    fn exit_on_err_with<F: FnOnce()>(&self, f: F) -> (flow: Result<(), Exit>)
        requires
            !self.status().spec_success() ==> call_requires(f, ()),
        ensures
            match flow {
                Ok(()) => self.status().spec_success(),
                Err(exit) => !self.status().spec_success() && call_ensures(f, (), ()) && exit@
                    == ExitView::of_status(self.status()),
            },
    ;
}

impl ExitStatusExt for ExitStatus {
    open spec fn status(&self) -> ExitStatus {
        *self
    }

    fn exit_on_err(&self) -> (flow: Result<(), Exit>) {
        if self.success() {
            Ok(())
        } else {
            Err(Exit::from_status(self))
        }
    }

    fn exit_on_err_with<F: FnOnce()>(&self, f: F) -> (flow: Result<(), Exit>) {
        if self.success() {
            Ok(())
        } else {
            f();
            Err(Exit::from_status(self))
        }
    }
}

} // verus!
