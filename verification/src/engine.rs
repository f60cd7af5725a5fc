//! The run of a pipeline, step by step. The engine decides; whoever drives
//! it starts, awaits and kills the processes. Each step is either a process
//! to start, a process to wait for, or the end of the run, and the answer to
//! a step gives the next one.

use crate::command_ext::{
    CommandView, Error, ErrorKind, ErrorKindView, ErrorView, ExitStatus, OsError,
};
use crate::exit::{Exit, ExitView};
use crate::join::{first_failure, handle_trees, JoinHandle, Joined, ProcessHandle};
use crate::pipe::{
    PipeIo, PipeIoView, PipeSection, PipeView, SpawnFailure, SpawnFailureView, SpawnRequest,
    SpawnRequestView, StdoutView,
};
use crate::text::has_word;
use crate::tree::Tree;
use vstd::prelude::*;
use vstd::string::StringExecFns;

verus! {

/// What is asked of a run.
#[derive(Clone, Copy, Debug, PartialEq, Eq, Structural)]
pub enum Mode {
    /// Start the stages and hand their handles back.
    Spawn,
    /// Wait for handles that were handed back, and hand the statuses back.
    Join,
    /// Start the stages and wait for them; come back only when every stage
    /// has succeeded.
    Wait,
    /// Start the stages, wait for them, and end the process.
    Exec,
}

/// How a run ended.
#[derive(Debug, PartialEq, Eq)]
pub enum End {
    /// Every stage was started: the handles go to the caller.
    Spawned(JoinHandle),
    /// Every process was waited for: the statuses go to the caller.
    Joined(Joined),
    /// Every stage was started, waited for, and succeeded.
    Waited,
    /// The run failed: the error goes to the caller.
    Failed(Error),
    /// The process ends.
    Exit(Exit),
}

/// An [`End`] as plain values.
pub enum EndView {
    Spawned(Tree<ProcessHandle>),
    Joined(Tree<ExitStatus>),
    Waited,
    Failed(ErrorView),
    Exit(ExitView),
}

impl View for End {
    type V = EndView;

    open spec fn view(&self) -> EndView {
        match self {
            End::Spawned(handles) => EndView::Spawned(handles@),
            End::Joined(joined) => EndView::Joined(joined@),
            End::Waited => EndView::Waited,
            End::Failed(error) => EndView::Failed(error@),
            End::Exit(exit) => EndView::Exit(exit@),
        }
    }
}

/// The end of a run: the processes to kill first, in this order, and then
/// how the run ended.
#[derive(Debug, PartialEq, Eq)]
pub struct Outcome {
    pub cancel: Vec<ProcessHandle>,
    pub end: End,
}

/// An [`Outcome`] as plain values.
pub struct OutcomeView {
    pub cancel: Seq<ProcessHandle>,
    pub end: EndView,
}

impl View for Outcome {
    type V = OutcomeView;

    open spec fn view(&self) -> OutcomeView {
        OutcomeView { cancel: self.cancel@, end: self.end@ }
    }
}

impl OutcomeView {
    /// An end with no process to kill.
    pub open spec fn finished(end: EndView) -> OutcomeView {
        OutcomeView { cancel: Seq::empty(), end }
    }
}

/// A run that has a stage to start.
#[derive(Debug)]
pub struct Spawning {
    commands: Vec<String>,
    output: PipeIo,
    mode: Mode,
    handles: Vec<ProcessHandle>,
}

/// A [`Spawning`] as plain values: the command lines of the stages, where
/// the last one writes to, what is asked of the run, and the handles of the
/// stages started so far, in order.
pub struct SpawningView {
    pub commands: Seq<Seq<char>>,
    pub output: PipeIoView,
    pub mode: Mode,
    pub handles: Seq<ProcessHandle>,
}

/// A run that has a process to wait for.
#[derive(Debug)]
pub struct Joining {
    tree: JoinHandle,
    leaves: Vec<ProcessHandle>,
    statuses: Vec<ExitStatus>,
    mode: Mode,
}

/// A [`Joining`] as plain values: the handles to wait for, what is asked of
/// the run, and the statuses of the processes waited for so far, in the
/// order of the handles.
pub struct JoiningView {
    pub tree: Tree<ProcessHandle>,
    pub statuses: Seq<ExitStatus>,
    pub mode: Mode,
}

/// The next step of a run.
#[derive(Debug)]
#[must_use]
pub enum Progress {
    /// Start the process that `request` describes, and `resume` with its
    /// handle or with why it did not start.
    Spawn(Spawning),
    /// Wait for the process behind `handle`, and `resume` with its status or
    /// with why waiting failed.
    Wait(Joining),
    /// The run is over.
    Done(Outcome),
}

/// A [`Progress`] as plain values.
pub enum ProgressView {
    Spawn(SpawningView),
    Wait(JoiningView),
    Done(OutcomeView),
}

/// The tree of the handles of a pipeline's stages: the one handle of a
/// single stage, or else the handles in a row.
pub open spec fn pipeline_tree(handles: Seq<ProcessHandle>) -> Tree<ProcessHandle> {
    if handles.len() == 1 {
        Tree::Leaf(handles[0])
    } else {
        Tree::List(handles.map_values(|handle: ProcessHandle| Tree::Leaf(handle)))
    }
}

/// The error of a wait that failed.
pub open spec fn wait_error(cause: Seq<char>) -> ErrorView {
    ErrorView { name: "child process"@, kind: ErrorKindView::Wait(cause) }
}

/// The answer to a [`Progress::Spawn`] as plain values.
pub open spec fn spawn_reply(reply: Result<ProcessHandle, SpawnFailure>) -> Result<
    ProcessHandle,
    SpawnFailureView,
> {
    match reply {
        Ok(handle) => Ok(handle),
        Err(failure) => Err(failure@),
    }
}

/// The answer to a [`Progress::Wait`] as plain values.
pub open spec fn wait_reply(reply: Result<ExitStatus, OsError>) -> Result<ExitStatus, Seq<char>> {
    match reply {
        Ok(status) => Ok(status),
        Err(cause) => Err(cause@),
    }
}

impl ProgressView {
    /// The first step of running `pipe`: its first stage is to be started.
    pub open spec fn start(pipe: PipeView, mode: Mode) -> ProgressView {
        ProgressView::Spawn(
            SpawningView {
                commands: pipe.commands,
                output: pipe.output,
                mode,
                handles: Seq::empty(),
            },
        )
    }

    /// The first step of waiting for the processes of `tree`: the leftmost
    /// one is to be waited for. A tree without a process is joined at once.
    pub open spec fn join(tree: Tree<ProcessHandle>, mode: Mode) -> ProgressView {
        if tree.leaves().len() == 0 {
            Self::joined(tree, Seq::empty(), mode)
        } else {
            ProgressView::Wait(JoiningView { tree, statuses: Seq::empty(), mode })
        }
    }

    /// The end of a run whose processes all were waited for, and ended with
    /// `statuses`, in the order of the handles. To `Join`, the statuses go
    /// back in the shape of the handles. `Wait` comes back where every status
    /// is a success; `Exec` then ends the process with code 0. Both end the
    /// process with the first status that is no success.
    pub open spec fn joined(
        tree: Tree<ProcessHandle>,
        statuses: Seq<ExitStatus>,
        mode: Mode,
    ) -> ProgressView {
        ProgressView::Done(
            OutcomeView::finished(
                match mode {
                    Mode::Spawn | Mode::Join => EndView::Joined(tree.relabel(statuses)),
                    Mode::Wait => match first_failure(statuses) {
                        Some(status) => EndView::Exit(ExitView::of_status(status)),
                        None => EndView::Waited,
                    },
                    Mode::Exec => match first_failure(statuses) {
                        Some(status) => EndView::Exit(ExitView::of_status(status)),
                        None => EndView::Exit(ExitView::success()),
                    },
                },
            ),
        )
    }
}

impl ProgressView {
    /// The step that a run reaches from this one when it is answered from
    /// two scripts: `spawns` holds the answers to the processes to start,
    /// `waits` the answers to the processes to wait for, each in the order
    /// in which they are asked. The run stops at its end, or where the
    /// script that it needs has run out.
    pub open spec fn run(
        self,
        spawns: Seq<Result<ProcessHandle, SpawnFailureView>>,
        waits: Seq<Result<ExitStatus, Seq<char>>>,
    ) -> ProgressView
        decreases spawns.len() + waits.len(),
    {
        match self {
            ProgressView::Spawn(spawning) => if spawns.len() > 0 {
                spawning.resume(spawns[0]).run(spawns.drop_first(), waits)
            } else {
                self
            },
            ProgressView::Wait(joining) => if waits.len() > 0 {
                joining.resume(waits[0]).run(spawns, waits.drop_first())
            } else {
                self
            },
            ProgressView::Done(_) => self,
        }
    }

    /// The processes that such a run asks to start, in order.
    pub open spec fn requested(
        self,
        spawns: Seq<Result<ProcessHandle, SpawnFailureView>>,
        waits: Seq<Result<ExitStatus, Seq<char>>>,
    ) -> Seq<SpawnRequestView>
        decreases spawns.len() + waits.len(),
    {
        match self {
            ProgressView::Spawn(spawning) => if spawns.len() > 0 {
                seq![spawning.request()] + spawning.resume(spawns[0]).requested(
                    spawns.drop_first(),
                    waits,
                )
            } else {
                Seq::empty()
            },
            ProgressView::Wait(joining) => if waits.len() > 0 {
                joining.resume(waits[0]).requested(spawns, waits.drop_first())
            } else {
                Seq::empty()
            },
            ProgressView::Done(_) => Seq::empty(),
        }
    }

    /// The processes that such a run asks to wait for, in order.
    pub open spec fn awaited(
        self,
        spawns: Seq<Result<ProcessHandle, SpawnFailureView>>,
        waits: Seq<Result<ExitStatus, Seq<char>>>,
    ) -> Seq<ProcessHandle>
        decreases spawns.len() + waits.len(),
    {
        match self {
            ProgressView::Spawn(spawning) => if spawns.len() > 0 {
                spawning.resume(spawns[0]).awaited(spawns.drop_first(), waits)
            } else {
                Seq::empty()
            },
            ProgressView::Wait(joining) => if waits.len() > 0 {
                seq![joining.handle()] + joining.resume(waits[0]).awaited(
                    spawns,
                    waits.drop_first(),
                )
            } else {
                Seq::empty()
            },
            ProgressView::Done(_) => Seq::empty(),
        }
    }
}

impl SpawningView {
    /// Every stage names a program, and a stage is left to start.
    pub open spec fn wf(self) -> bool {
        &&& self.handles.len() < self.commands.len()
        &&& forall|i: int| 0 <= i < self.commands.len() ==> has_word(#[trigger] self.commands[i])
    }

    /// The number of the stage to start, counted from 0.
    pub open spec fn stage(self) -> int {
        self.handles.len() as int
    }

    /// Whether the stage to start is the last one.
    pub open spec fn at_last(self) -> bool {
        self.handles.len() + 1 == self.commands.len()
    }

    /// The process to start: the first stage reads what this process reads,
    /// every other stage what the stage before it writes; the last stage
    /// writes to the pipeline's output, every other stage is captured.
    pub open spec fn request(self) -> SpawnRequestView {
        SpawnRequestView {
            command: CommandView::parse(self.commands[self.stage()]),
            stdin: if self.stage() == 0 {
                PipeIoView::Inherit
            } else {
                PipeIoView::Child(self.handles[self.stage() - 1])
            },
            stdout: if self.at_last() {
                StdoutView::Sink(self.output)
            } else {
                StdoutView::Piped
            },
        }
    }

    /// Whether a failure to start the stage ends the process, whatever was
    /// asked: `Exec` always does, and so does the last of several stages.
    pub open spec fn failure_exits(self) -> bool {
        self.mode == Mode::Exec || (self.at_last() && self.commands.len() >= 2)
    }

    /// The step after the answer `reply`.
    ///
    /// Where the stage was started and another one is left, that one is
    /// next. Where it was the last, `Spawn` hands the handles back, and
    /// `Wait` and `Exec` go on to wait for them.
    ///
    /// Where the stage was not started, the run is over: the stages started
    /// before it are to be killed, and the error goes to the caller, or ends
    /// the process.
    pub open spec fn resume(self, reply: Result<ProcessHandle, SpawnFailureView>) -> ProgressView {
        match reply {
            Ok(handle) => {
                let handles = self.handles.push(handle);
                if self.at_last() {
                    match self.mode {
                        Mode::Spawn | Mode::Join => ProgressView::Done(
                            OutcomeView::finished(EndView::Spawned(pipeline_tree(handles))),
                        ),
                        Mode::Wait | Mode::Exec => ProgressView::join(
                            pipeline_tree(handles),
                            self.mode,
                        ),
                    }
                } else {
                    ProgressView::Spawn(SpawningView { handles, ..self })
                }
            },
            Err(failure) => {
                let error = self.request().failure(failure);
                ProgressView::Done(
                    OutcomeView {
                        cancel: self.handles,
                        end: if self.failure_exits() {
                            EndView::Exit(ExitView::of_error(error.chain()))
                        } else {
                            EndView::Failed(error)
                        },
                    },
                )
            },
        }
    }
}

impl JoiningView {
    /// A process is left to wait for.
    pub open spec fn wf(self) -> bool {
        self.statuses.len() < self.tree.leaves().len()
    }

    /// The process to wait for: the leftmost one not waited for yet.
    pub open spec fn handle(self) -> ProcessHandle {
        self.tree.leaves()[self.statuses.len() as int]
    }

    /// Whether the process to wait for is the last one.
    pub open spec fn at_last(self) -> bool {
        self.statuses.len() + 1 == self.tree.leaves().len()
    }

    /// The step after the answer `reply`.
    ///
    /// Where the process ended, the next one is waited for, whatever its
    /// status; after the last one the run is joined.
    ///
    /// Where waiting failed, the run is over, and no process is killed: the
    /// processes waited for stay reaped, the others keep running. `Join`
    /// hands the error to the caller; `Wait` and `Exec` end the process with
    /// it.
    pub open spec fn resume(self, reply: Result<ExitStatus, Seq<char>>) -> ProgressView {
        match reply {
            Ok(status) => {
                let statuses = self.statuses.push(status);
                if self.at_last() {
                    ProgressView::joined(self.tree, statuses, self.mode)
                } else {
                    ProgressView::Wait(JoiningView { statuses, ..self })
                }
            },
            Err(cause) => ProgressView::Done(
                OutcomeView::finished(
                    match self.mode {
                        Mode::Spawn | Mode::Join => EndView::Failed(wait_error(cause)),
                        Mode::Wait | Mode::Exec => EndView::Exit(
                            ExitView::of_error(wait_error(cause).chain()),
                        ),
                    },
                ),
            ),
        }
    }
}

impl View for Spawning {
    type V = SpawningView;

    closed spec fn view(&self) -> SpawningView {
        SpawningView {
            commands: self.commands.deep_view(),
            output: self.output@,
            mode: self.mode,
            handles: self.handles@,
        }
    }
}

impl View for Joining {
    type V = JoiningView;

    closed spec fn view(&self) -> JoiningView {
        JoiningView { tree: self.tree@, statuses: self.statuses@, mode: self.mode }
    }
}

impl View for Progress {
    type V = ProgressView;

    open spec fn view(&self) -> ProgressView {
        match self {
            Progress::Spawn(spawning) => ProgressView::Spawn(spawning@),
            Progress::Wait(joining) => ProgressView::Wait(joining@),
            Progress::Done(outcome) => ProgressView::Done(outcome@),
        }
    }
}

/// The handles of a pipeline's stages as a tree.
fn pipeline_handles(handles: Vec<ProcessHandle>) -> (tree: JoinHandle)
    ensures
        tree@ == pipeline_tree(handles@),
{
    let n = handles.len();
    if n == 1 {
        JoinHandle::Cmd(handles[0])
    } else {
        let mut row: Vec<JoinHandle> = Vec::new();
        let mut i: usize = 0;
        while i < n
            invariant
                n == handles.len(),
                i <= n,
                row.len() == i,
                forall|k: int| 0 <= k < i ==> (#[trigger] row[k])@ == Tree::Leaf(handles[k]),
            decreases n - i,
        {
            row.push(JoinHandle::Cmd(handles[i]));
            i = i + 1;
        }
        proof {
            JoinHandle::lemma_view_multiple(row);
            assert(handle_trees(row@) =~= handles@.map_values(
                |handle: ProcessHandle| Tree::Leaf(handle),
            ));
        }
        JoinHandle::Multiple(row)
    }
}

/// The step with which waiting for the processes of `tree` begins.
pub(crate) fn begin_join(tree: JoinHandle, mode: Mode) -> (progress: Progress)
    ensures
        progress@ == ProgressView::join(tree@, mode),
{
    let leaves = tree.leaves();
    if leaves.len() == 0 {
        end_join(tree, Vec::new(), mode)
    } else {
        Progress::Wait(Joining { tree, leaves, statuses: Vec::new(), mode })
    }
}

/// The step with which waiting ends, every process having ended.
fn end_join(tree: JoinHandle, statuses: Vec<ExitStatus>, mode: Mode) -> (progress: Progress)
    requires
        statuses.len() == tree@.leaves().len(),
    ensures
        progress@ == ProgressView::joined(tree@, statuses@, mode),
{
    let (joined, _) = tree.fill(&statuses, 0);
    proof {
        assert(statuses@.subrange(0, statuses.len() as int) == statuses@);
        tree@.lemma_relabel_leaves(statuses@);
    }
    let end = match mode {
        Mode::Spawn | Mode::Join => End::Joined(joined),
        Mode::Wait => match joined.exit_on_err() {
            Err(exit) => End::Exit(exit),
            Ok(()) => End::Waited,
        },
        Mode::Exec => match joined.exit_on_err() {
            Err(exit) => End::Exit(exit),
            Ok(()) => End::Exit(Exit::success()),
        },
    };
    Progress::Done(Outcome { cancel: Vec::new(), end })
}

impl Spawning {
    #[verifier::type_invariant]
    spec fn inv(&self) -> bool {
        self@.wf()
    }

    /// The run of the stages `commands`, none started yet.
    pub(crate) fn new(commands: Vec<String>, output: PipeIo, mode: Mode) -> (spawning: Spawning)
        requires
            commands.len() >= 1,
            forall|i: int| 0 <= i < commands.len() ==> has_word(#[trigger] commands.deep_view()[i]),
        ensures
            spawning@ == (SpawningView {
                commands: commands.deep_view(),
                output: output@,
                mode,
                handles: Seq::empty(),
            }),
    {
        Spawning { commands, output, mode, handles: Vec::new() }
    }

    /// The process to start.
    pub fn request(&self) -> (request: SpawnRequest)
        ensures
            self@.wf(),
            request@ == self@.request(),
    {
        proof {
            use_type_invariant(self);
        }
        let k = self.handles.len();
        let input = if k == 0 {
            PipeIo::Inherit
        } else {
            PipeIo::Child(self.handles[k - 1])
        };
        assert(self.commands.deep_view().len() == self.commands.len());
        assert(self.commands[k as int]@ == self.commands.deep_view()[k as int]);
        if k + 1 == self.commands.len() {
            self.commands[k].end_pipe(input, self.output.clone())
        } else {
            self.commands[k].do_pipe(input)
        }
    }

    /// Takes the answer to the request, the handle of the process or why it
    /// did not start, and gives the next step.
    pub fn resume(self, reply: Result<ProcessHandle, SpawnFailure>) -> (next: Progress)
        ensures
            self@.wf(),
            next@ == self@.resume(spawn_reply(reply)),
    {
        proof {
            use_type_invariant(&self);
        }
        match reply {
            Ok(handle) => {
                let Spawning { commands, output, mode, handles } = self;
                let mut handles = handles;
                handles.push(handle);
                if handles.len() == commands.len() {
                    let tree = pipeline_handles(handles);
                    match mode {
                        Mode::Spawn | Mode::Join => Progress::Done(
                            Outcome { cancel: Vec::new(), end: End::Spawned(tree) },
                        ),
                        Mode::Wait | Mode::Exec => begin_join(tree, mode),
                    }
                } else {
                    Progress::Spawn(Spawning { commands, output, mode, handles })
                }
            },
            Err(failure) => {
                let error = self.request().failure(failure);
                let exits = match self.mode {
                    Mode::Exec => true,
                    _ => self.commands.len() >= 2 && self.handles.len() + 1 == self.commands.len(),
                };
                let end = if exits {
                    End::Exit(error.exit())
                } else {
                    End::Failed(error)
                };
                Progress::Done(Outcome { cancel: self.handles, end })
            },
        }
    }
}

impl Joining {
    #[verifier::type_invariant]
    spec fn inv(&self) -> bool {
        &&& self.leaves@ == self.tree@.leaves()
        &&& self.statuses.len() < self.leaves.len()
    }

    /// The process to wait for.
    pub fn handle(&self) -> (handle: ProcessHandle)
        ensures
            self@.wf(),
            handle == self@.handle(),
    {
        proof {
            use_type_invariant(self);
        }
        self.leaves[self.statuses.len()]
    }

    /// Takes the answer to the wait, the status of the process or why
    /// waiting failed, and gives the next step.
    pub fn resume(self, reply: Result<ExitStatus, OsError>) -> (next: Progress)
        ensures
            self@.wf(),
            next@ == self@.resume(wait_reply(reply)),
    {
        proof {
            use_type_invariant(&self);
        }
        match reply {
            Ok(status) => {
                let Joining { tree, leaves, statuses, mode } = self;
                let mut statuses = statuses;
                statuses.push(status);
                if statuses.len() == leaves.len() {
                    end_join(tree, statuses, mode)
                } else {
                    Progress::Wait(Joining { tree, leaves, statuses, mode })
                }
            },
            Err(cause) => {
                let error = Error {
                    name: String::from_str("child process"),
                    kind: ErrorKind::Wait(cause),
                };
                let end = match self.mode {
                    Mode::Spawn | Mode::Join => End::Failed(error),
                    Mode::Wait | Mode::Exec => End::Exit(error.exit()),
                };
                Progress::Done(Outcome { cancel: Vec::new(), end })
            },
        }
    }
}

impl JoinHandle {
    /// The run that waits for every process of the tree, from left to
    /// right, and hands the statuses back in the shape of the tree.
    pub fn join(self) -> (progress: Progress)
        ensures
            progress@ == ProgressView::join(self@, Mode::Join),
    {
        begin_join(self, Mode::Join)
    }
}

} // verus!
