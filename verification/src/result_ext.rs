//! Ending the process on an error, and saying in what context an error
//! came up.

use crate::any_err::AnyErr;
use crate::command_ext::{Error, ErrorKind, OsError};
use crate::exit::{Exit, ExitView};
use vstd::prelude::*;

verus! {

/// What every error of this library can do.
pub trait ErrorExt: Sized {
    /// The messages of the error and of its causes, from the error itself
    /// down to the innermost cause.
    spec fn chain(&self) -> Seq<Seq<char>>;

    /// The messages of the error and of its causes.
    fn messages(&self) -> (chain: Vec<String>)
        ensures
            chain.deep_view() == self.chain(),
    ;

    /// The error as a message and its causes, with nothing else kept.
    fn into_any(self) -> (any: AnyErr)
        ensures
            any@ == self.chain(),
    ;

    /// The end of the process on the error: the error's message is
    /// written, then, where it has a cause, an empty line, the heading
    /// `Caused by:` and the message of each cause, indented; the code is 1.
    fn exit(&self) -> (exit: Exit)
        ensures
            exit@ == ExitView::of_error(self.chain()),
    {
        Exit::from_error(&self.messages())
    }

    /// The error that says `message` and has this error as its cause.
    fn context(self, message: &str) -> (wrapped: AnyErr)
        ensures
            wrapped@ == seq![message@] + self.chain(),
    {
        AnyErr::caused_by(message, self.into_any())
    }
}

impl ErrorExt for Error {
    open spec fn chain(&self) -> Seq<Seq<char>> {
        self@.chain()
    }

    fn messages(&self) -> (chain: Vec<String>) {
        Error::messages(self)
    }

    fn into_any(self) -> (any: AnyErr) {
        let text = self.to_string();
        match self.kind {
            ErrorKind::File(cause) => AnyErr::with_source(text.as_str(), cause),
            ErrorKind::Spawn(cause) => AnyErr::with_source(text.as_str(), cause),
            ErrorKind::Wait(cause) => AnyErr::with_source(text.as_str(), cause),
            ErrorKind::Exit(_) => AnyErr::new(text.as_str()),
        }
    }
}

impl ErrorExt for OsError {
    open spec fn chain(&self) -> Seq<Seq<char>> {
        seq![self@]
    }

    fn messages(&self) -> (chain: Vec<String>) {
        let mut chain: Vec<String> = Vec::new();
        chain.push(self.message.clone());
        assert(chain.deep_view() =~= seq![self@]);
        chain
    }

    fn into_any(self) -> (any: AnyErr) {
        AnyErr::new(self.message.as_str())
    }
}

/// What a result whose error is one of this library's can do.
pub trait ResultExt<T, E>: Sized {
    /// The messages of the error and of its causes, where the result is an
    /// error.
    spec fn failure(&self) -> Option<Seq<Seq<char>>>;

    /// The end of the process on the result: with code 0 and nothing
    /// written where it is `Ok`, and as the error's `exit` says where it is
    /// `Err`.
    fn exit(&self) -> (exit: Exit)
        ensures
            exit@ == match self.failure() {
                None => ExitView::success(),
                Some(chain) => ExitView::of_error(chain),
            },
    ;

    /// Hands the value out where the result is `Ok`; where it is `Err`,
    /// the process ends as the error's `exit` says.
    fn exit_on_err(self) -> (flow: Result<T, Exit>)
        ensures
            match self.failure() {
                None => flow is Ok,
                Some(chain) => flow is Err && flow->Err_0@ == ExitView::of_error(chain),
            },
    ;

    /// The result with its error, where it has one, put in the context
    /// `message`.
    fn context(self, message: &str) -> (wrapped: Result<T, AnyErr>)
        ensures
            match self.failure() {
                None => wrapped is Ok,
                Some(chain) => wrapped is Err && wrapped->Err_0@ == seq![message@] + chain,
            },
    ;

    /// The result with its error, where it has one, put in the context
    /// that `f` gives; `f` is called only then.
    fn with_context<F: FnOnce() -> String>(self, f: F) -> (wrapped: Result<T, AnyErr>)
        requires
            self.failure() is Some ==> call_requires(f, ()),
        ensures
            match self.failure() {
                None => wrapped is Ok,
                Some(chain) => wrapped is Err && exists|message: String|
                    call_ensures(f, (), message) && wrapped->Err_0@ == seq![message@] + chain,
            },
    ;
}

impl<T, E: ErrorExt> ResultExt<T, E> for Result<T, E> {
    open spec fn failure(&self) -> Option<Seq<Seq<char>>> {
        match self {
            Ok(_) => None,
            Err(error) => Some(error.chain()),
        }
    }

    fn exit(&self) -> (exit: Exit) {
        match self {
            Ok(_) => Exit::success(),
            Err(error) => error.exit(),
        }
    }

    fn exit_on_err(self) -> (flow: Result<T, Exit>)
        ensures
            self is Ok ==> flow == Ok::<T, Exit>(self->Ok_0),
    {
        match self {
            Ok(value) => Ok(value),
            Err(error) => Err(error.exit()),
        }
    }

    fn context(self, message: &str) -> (wrapped: Result<T, AnyErr>)
        ensures
            self is Ok ==> wrapped == Ok::<T, AnyErr>(self->Ok_0),
    {
        match self {
            Ok(value) => Ok(value),
            Err(error) => Err(error.context(message)),
        }
    }

    fn with_context<F: FnOnce() -> String>(self, f: F) -> (wrapped: Result<T, AnyErr>)
        ensures
            self is Ok ==> wrapped == Ok::<T, AnyErr>(self->Ok_0),
    {
        match self {
            Ok(value) => Ok(value),
            Err(error) => {
                let message = f();
                Err(error.context(message.as_str()))
            },
        }
    }
}

} // verus!
