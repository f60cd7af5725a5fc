//! Pipelines: commands run side by side, each reading what the one before
//! it writes, the last writing to a chosen output.

use crate::command_ext::{
    Command, CommandExt, CommandView, Error, ErrorKind, ErrorKindView, ErrorView, OsError,
};
use crate::engine::{Mode, Progress, ProgressView, Spawning};
pub use crate::join::{JoinHandle, Joined, ProcessHandle};
use crate::text::has_word;
use std::borrow::Cow;
use vstd::prelude::*;
use vstd::std_specs::convert::FromSpecImpl;

verus! {

/// Where a process reads its input from, or writes its output to.
#[derive(Debug, PartialEq, Eq)]
pub enum PipeIo {
    /// The stream of the process that runs the pipeline.
    Inherit,
    /// The file at this path. It is made, with the directories above it,
    /// or emptied, only when the process that writes to it is started.
    File(String),
    /// What the process behind this handle writes to its standard output.
    Child(ProcessHandle),
}

/// A [`PipeIo`] as plain values.
pub enum PipeIoView {
    Inherit,
    File(Seq<char>),
    Child(ProcessHandle),
}

impl View for PipeIo {
    type V = PipeIoView;

    open spec fn view(&self) -> PipeIoView {
        match self {
            PipeIo::Inherit => PipeIoView::Inherit,
            PipeIo::File(path) => PipeIoView::File(path@),
            PipeIo::Child(handle) => PipeIoView::Child(*handle),
        }
    }
}

impl Clone for PipeIo {
    fn clone(&self) -> (copy: PipeIo)
        ensures
            copy@ == self@,
    {
        match self {
            PipeIo::Inherit => PipeIo::Inherit,
            PipeIo::File(path) => PipeIo::File(path.clone()),
            PipeIo::Child(handle) => PipeIo::Child(*handle),
        }
    }
}

impl From<String> for PipeIo {
    fn from(path: String) -> (io: PipeIo) {
        PipeIo::File(path)
    }
}

impl FromSpecImpl<String> for PipeIo {
    open spec fn obeys_from_spec() -> bool {
        true
    }

    open spec fn from_spec(path: String) -> PipeIo {
        PipeIo::File(path)
    }
}

impl From<ProcessHandle> for PipeIo {
    fn from(child: ProcessHandle) -> (io: PipeIo) {
        PipeIo::Child(child)
    }
}

impl FromSpecImpl<ProcessHandle> for PipeIo {
    open spec fn obeys_from_spec() -> bool {
        true
    }

    open spec fn from_spec(child: ProcessHandle) -> PipeIo {
        PipeIo::Child(child)
    }
}

/// Where a process that is to be started writes its standard output.
#[derive(Debug, PartialEq, Eq)]
pub enum Stdout {
    /// It is captured, for the next process to read.
    Piped,
    /// It goes to this sink.
    Sink(PipeIo),
}

/// A [`Stdout`] as plain values.
pub enum StdoutView {
    Piped,
    Sink(PipeIoView),
}

impl View for Stdout {
    type V = StdoutView;

    open spec fn view(&self) -> StdoutView {
        match self {
            Stdout::Piped => StdoutView::Piped,
            Stdout::Sink(io) => StdoutView::Sink(io@),
        }
    }
}

/// Why a process was not started.
#[derive(Debug, PartialEq, Eq)]
pub enum SpawnFailure {
    /// Its input could not be opened.
    Input(OsError),
    /// Its output could not be opened.
    Output(OsError),
    /// The operating system did not start it.
    Start(OsError),
}

/// A [`SpawnFailure`] as plain values.
pub enum SpawnFailureView {
    Input(Seq<char>),
    Output(Seq<char>),
    Start(Seq<char>),
}

impl View for SpawnFailure {
    type V = SpawnFailureView;

    open spec fn view(&self) -> SpawnFailureView {
        match self {
            SpawnFailure::Input(cause) => SpawnFailureView::Input(cause@),
            SpawnFailure::Output(cause) => SpawnFailureView::Output(cause@),
            SpawnFailure::Start(cause) => SpawnFailureView::Start(cause@),
        }
    }
}

/// One process to start: the command, where it reads from and where it
/// writes to. The input is opened first, then the output, and then the
/// process is started.
#[derive(Debug, PartialEq, Eq)]
pub struct SpawnRequest {
    pub command: Command,
    pub stdin: PipeIo,
    pub stdout: Stdout,
}

/// A [`SpawnRequest`] as plain values.
pub struct SpawnRequestView {
    pub command: CommandView,
    pub stdin: PipeIoView,
    pub stdout: StdoutView,
}

impl View for SpawnRequest {
    type V = SpawnRequestView;

    open spec fn view(&self) -> SpawnRequestView {
        SpawnRequestView { command: self.command@, stdin: self.stdin@, stdout: self.stdout@ }
    }
}

impl SpawnRequestView {
    /// The error that names the program as the one that did not start.
    pub open spec fn spawn_error(self, cause: Seq<char>) -> ErrorView {
        ErrorView { name: self.command.program, kind: ErrorKindView::Spawn(cause) }
    }

    /// The error that `failure` amounts to for this request. Only a file
    /// can fail to open: the error then names its path. Any other failure
    /// is the program's, which did not start.
    pub open spec fn failure(self, failure: SpawnFailureView) -> ErrorView {
        match failure {
            SpawnFailureView::Input(cause) => match self.stdin {
                PipeIoView::File(path) => ErrorView {
                    name: path,
                    kind: ErrorKindView::File(cause),
                },
                _ => self.spawn_error(cause),
            },
            SpawnFailureView::Output(cause) => match self.stdout {
                StdoutView::Sink(PipeIoView::File(path)) => ErrorView {
                    name: path,
                    kind: ErrorKindView::File(cause),
                },
                _ => self.spawn_error(cause),
            },
            SpawnFailureView::Start(cause) => self.spawn_error(cause),
        }
    }
}

impl SpawnRequest {
    /// The error to report when this request failed with `failure`.
    pub fn failure(&self, failure: SpawnFailure) -> (error: Error)
        ensures
            error@ == self@.failure(failure@),
    {
        match failure {
            SpawnFailure::Input(cause) => match &self.stdin {
                PipeIo::File(path) => Error { name: path.clone(), kind: ErrorKind::File(cause) },
                _ => Error { name: self.command.program.clone(), kind: ErrorKind::Spawn(cause) },
            },
            SpawnFailure::Output(cause) => match &self.stdout {
                Stdout::Sink(PipeIo::File(path)) => Error {
                    name: path.clone(),
                    kind: ErrorKind::File(cause),
                },
                _ => Error { name: self.command.program.clone(), kind: ErrorKind::Spawn(cause) },
            },
            SpawnFailure::Start(cause) => Error {
                name: self.command.program.clone(),
                kind: ErrorKind::Spawn(cause),
            },
        }
    }
}

/// One stage of a pipeline: something that says which process to start
/// for it.
pub trait PipeSection {
    /// Whether the section names a program to run.
    spec fn runnable(&self) -> bool;

    /// The command that the section runs.
    spec fn command(&self) -> CommandView;

    /// The process to start for a stage that another one follows: it reads
    /// from `input`, and what it writes is captured for the next stage.
    fn do_pipe(&self, input: PipeIo) -> (request: SpawnRequest)
        requires
            self.runnable(),
        ensures
            request@ == (SpawnRequestView {
                command: self.command(),
                stdin: input@,
                stdout: StdoutView::Piped,
            }),
    ;

    /// The process to start for the last stage: it reads from `input` and
    /// writes straight to `output`.
    fn end_pipe(&self, input: PipeIo, output: PipeIo) -> (request: SpawnRequest)
        requires
            self.runnable(),
        ensures
            request@ == (SpawnRequestView {
                command: self.command(),
                stdin: input@,
                stdout: StdoutView::Sink(output@),
            }),
    ;
}

impl PipeSection for &str {
    open spec fn runnable(&self) -> bool {
        has_word(self@)
    }

    open spec fn command(&self) -> CommandView {
        CommandView::parse(self@)
    }

    fn do_pipe(&self, input: PipeIo) -> (request: SpawnRequest) {
        SpawnRequest { command: Command::from_str(self), stdin: input, stdout: Stdout::Piped }
    }

    fn end_pipe(&self, input: PipeIo, output: PipeIo) -> (request: SpawnRequest) {
        SpawnRequest {
            command: Command::from_str(self),
            stdin: input,
            stdout: Stdout::Sink(output),
        }
    }
}

impl PipeSection for String {
    open spec fn runnable(&self) -> bool {
        has_word(self@)
    }

    open spec fn command(&self) -> CommandView {
        CommandView::parse(self@)
    }

    fn do_pipe(&self, input: PipeIo) -> (request: SpawnRequest) {
        self.as_str().do_pipe(input)
    }

    fn end_pipe(&self, input: PipeIo, output: PipeIo) -> (request: SpawnRequest) {
        self.as_str().end_pipe(input, output)
    }
}

impl PipeSection for Cow<'_, str> {
    open spec fn runnable(&self) -> bool {
        has_word(self@)
    }

    open spec fn command(&self) -> CommandView {
        CommandView::parse(self@)
    }

    fn do_pipe(&self, input: PipeIo) -> (request: SpawnRequest) {
        match self {
            Cow::Borrowed(line) => line.do_pipe(input),
            Cow::Owned(line) => line.do_pipe(input),
        }
    }

    fn end_pipe(&self, input: PipeIo, output: PipeIo) -> (request: SpawnRequest) {
        match self {
            Cow::Borrowed(line) => line.end_pipe(input, output),
            Cow::Owned(line) => line.end_pipe(input, output),
        }
    }
}

/// A pipeline: the command lines of its stages, first to last, and where
/// the last stage writes to.
#[derive(Debug)]
#[must_use]
pub struct Pipe {
    commands: Vec<String>,
    output: PipeIo,
}

/// A [`Pipe`] as plain values.
pub struct PipeView {
    pub commands: Seq<Seq<char>>,
    pub output: PipeIoView,
}

impl PipeView {
    /// Whether the pipeline can be run: it has a stage, and each stage
    /// names a program.
    pub open spec fn runnable(self) -> bool {
        &&& self.commands.len() >= 1
        &&& forall|i: int| 0 <= i < self.commands.len() ==> has_word(#[trigger] self.commands[i])
    }
}

impl View for Pipe {
    type V = PipeView;

    closed spec fn view(&self) -> PipeView {
        PipeView { commands: self.commands.deep_view(), output: self.output@ }
    }
}

impl Pipe {
    /// A pipeline of the given command lines whose last stage writes to
    /// `output`.
    pub fn new(commands: Vec<String>, output: PipeIo) -> (pipe: Pipe)
        ensures
            pipe@ == (PipeView { commands: commands.deep_view(), output: output@ }),
    {
        Pipe { commands, output }
    }

    /// Whether the pipeline has no stage at all.
    pub fn is_empty(&self) -> (empty: bool)
        ensures
            empty == (self@.commands.len() == 0),
    {
        self.commands.len() == 0
    }

    /// Whether the pipeline can be run.
    pub fn runnable(&self) -> (ok: bool)
        ensures
            ok == self@.runnable(),
    {
        let n = self.commands.len();
        if n == 0 {
            return false;
        }
        let mut i: usize = 0;
        while i < n
            invariant
                n == self.commands.len(),
                i <= n,
                forall|k: int| 0 <= k < i ==> has_word(#[trigger] self.commands.deep_view()[k]),
            decreases n - i,
        {
            let found = Command::parse(self.commands[i].as_str());
            if found.is_none() {
                assert(!has_word(self.commands.deep_view()[i as int]));
                return false;
            }
            i = i + 1;
        }
        true
    }

    /// The run that starts the stages and hands their handles back without
    /// waiting for them.
    pub fn spawn(self) -> (progress: Progress)
        requires
            self@.runnable(),
        ensures
            progress@ == ProgressView::start(self@, Mode::Spawn),
    {
        Progress::Spawn(Spawning::new(self.commands, self.output, Mode::Spawn))
    }

    /// The run that starts the stages, waits for them and then ends the
    /// process: with code 0 where every stage succeeds.
    pub fn exec(self) -> (progress: Progress)
        requires
            self@.runnable(),
        ensures
            progress@ == ProgressView::start(self@, Mode::Exec),
    {
        Progress::Spawn(Spawning::new(self.commands, self.output, Mode::Exec))
    }

    /// The run that starts the stages, waits for them, and comes back only
    /// where every stage succeeds.
    pub fn wait(self) -> (progress: Progress)
        requires
            self@.runnable(),
        ensures
            progress@ == ProgressView::start(self@, Mode::Wait),
    {
        Progress::Spawn(Spawning::new(self.commands, self.output, Mode::Wait))
    }
}

} // verus!
