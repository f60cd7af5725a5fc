//! What holds of every run of the engine, whatever its processes do.

use crate::command_ext::{CommandView, ExitStatus};
use crate::engine::{
    pipeline_tree, wait_error, EndView, JoiningView, Mode, OutcomeView, ProgressView, SpawningView,
};
use crate::exit::ExitView;
use crate::join::{
    all_success, lemma_first_failure_at, lemma_first_failure_none, ProcessHandle,
};
use crate::pipe::{PipeIoView, PipeView, SpawnFailureView, SpawnRequestView, StdoutView};
use crate::tree::Tree;
use vstd::prelude::*;

verus! {

/// The answers of processes that all start, with the handles `handles`.
pub open spec fn started(handles: Seq<ProcessHandle>) -> Seq<
    Result<ProcessHandle, SpawnFailureView>,
> {
    handles.map_values(|handle: ProcessHandle| Ok::<ProcessHandle, SpawnFailureView>(handle))
}

/// The answers of processes that all end, with the statuses `statuses`.
pub open spec fn ended(statuses: Seq<ExitStatus>) -> Seq<Result<ExitStatus, Seq<char>>> {
    statuses.map_values(|status: ExitStatus| Ok::<ExitStatus, Seq<char>>(status))
}

/// The process that the engine starts for stage `i` of `pipe` when the
/// stages before it were started with the handles `handles`.
pub open spec fn stage_request(
    pipe: PipeView,
    handles: Seq<ProcessHandle>,
    i: int,
) -> SpawnRequestView {
    SpawnRequestView {
        command: CommandView::parse(pipe.commands[i]),
        stdin: if i == 0 {
            PipeIoView::Inherit
        } else {
            PipeIoView::Child(handles[i - 1])
        },
        stdout: if i + 1 == pipe.commands.len() {
            StdoutView::Sink(pipe.output)
        } else {
            StdoutView::Piped
        },
    }
}

/// The step after the last stage of a pipeline was started.
pub open spec fn all_spawned(handles: Seq<ProcessHandle>, mode: Mode) -> ProgressView {
    match mode {
        Mode::Spawn | Mode::Join => ProgressView::Done(
            OutcomeView::finished(EndView::Spawned(pipeline_tree(handles))),
        ),
        Mode::Wait | Mode::Exec => ProgressView::join(pipeline_tree(handles), mode),
    }
}

/// The tree of a pipeline of `n` stages has `n` leaves: the handles of the
/// stages, in the order in which they were started.
pub proof fn lemma_pipeline_tree_leaves(handles: Seq<ProcessHandle>)
    ensures
        pipeline_tree(handles).leaves() == handles,
{
    if handles.len() == 1 {
        assert(seq![handles[0]] == handles);
    } else {
        Tree::lemma_leaves_of_leaves(handles);
    }
}

/// While the stages start, the engine asks for one stage after the other,
/// from the first to the last, and then goes on as `all_spawned` says.
proof fn lemma_spawning(
    spawning: SpawningView,
    rest: Seq<ProcessHandle>,
    waits: Seq<Result<ExitStatus, Seq<char>>>,
)
    requires
        spawning.wf(),
        spawning.handles.len() + rest.len() == spawning.commands.len(),
    ensures
        ProgressView::Spawn(spawning).run(started(rest), waits) == all_spawned(
            spawning.handles + rest,
            spawning.mode,
        ).run(Seq::empty(), waits),
        ProgressView::Spawn(spawning).requested(started(rest), waits) == Seq::new(
            rest.len(),
            |i: int|
                stage_request(
                    PipeView { commands: spawning.commands, output: spawning.output },
                    spawning.handles + rest,
                    spawning.handles.len() + i,
                ),
        ),
        ProgressView::Spawn(spawning).awaited(started(rest), waits) == all_spawned(
            spawning.handles + rest,
            spawning.mode,
        ).awaited(Seq::empty(), waits),
    decreases rest.len(),
{
    let pipe = PipeView { commands: spawning.commands, output: spawning.output };
    let all = spawning.handles + rest;
    let spawns = started(rest);
    let next = spawning.resume(spawns[0]);
    let asked = ProgressView::Spawn(spawning).requested(spawns, waits);
    let expected = Seq::new(
        rest.len(),
        |i: int| stage_request(pipe, all, spawning.handles.len() + i),
    );
    assert(spawns[0] == Ok::<ProcessHandle, SpawnFailureView>(rest[0]));
    assert(spawns.drop_first() == started(rest.drop_first()));
    assert(spawning.handles.push(rest[0]) + rest.drop_first() == all);
    assert(spawning.request() == stage_request(pipe, all, spawning.handles.len() as int));
    if spawning.at_last() {
        assert(rest.len() == 1);
        assert(spawning.handles.push(rest[0]) == all);
        assert(next == all_spawned(all, spawning.mode));
        assert(spawns.drop_first() == Seq::<Result<ProcessHandle, SpawnFailureView>>::empty());
        lemma_requests_over(next, waits);
        assert(asked == expected);
    } else {
        let after = SpawningView { handles: spawning.handles.push(rest[0]), ..spawning };
        assert(next == ProgressView::Spawn(after));
        lemma_spawning(after, rest.drop_first(), waits);
        let tail = next.requested(spawns.drop_first(), waits);
        assert(asked == seq![spawning.request()] + tail);
        assert(asked =~= expected);
    }
}

/// A run that has no answer left for a process to start asks for no process
/// to start.
proof fn lemma_requests_over(progress: ProgressView, waits: Seq<Result<ExitStatus, Seq<char>>>)
    ensures
        progress.requested(Seq::empty(), waits) == Seq::<SpawnRequestView>::empty(),
    decreases waits.len(),
{
    match progress {
        ProgressView::Wait(joining) => {
            if waits.len() > 0 {
                lemma_requests_over(joining.resume(waits[0]), waits.drop_first());
            }
        },
        _ => {},
    }
}

/// While the processes end, the engine waits for one after the other, from
/// left to right, and then ends the run as `joined` says.
proof fn lemma_joining(
    joining: JoiningView,
    rest: Seq<ExitStatus>,
    spawns: Seq<Result<ProcessHandle, SpawnFailureView>>,
)
    requires
        joining.wf(),
        joining.statuses.len() + rest.len() == joining.tree.leaves().len(),
    ensures
        ProgressView::Wait(joining).run(spawns, ended(rest)) == ProgressView::joined(
            joining.tree,
            joining.statuses + rest,
            joining.mode,
        ),
        ProgressView::Wait(joining).awaited(spawns, ended(rest)) == joining.tree.leaves().skip(
            joining.statuses.len() as int,
        ),
    decreases rest.len(),
{
    let waits = ended(rest);
    let leaves = joining.tree.leaves();
    let done = joining.statuses.len() as int;
    let next = joining.resume(waits[0]);
    let asked = ProgressView::Wait(joining).awaited(spawns, waits);
    assert(waits[0] == Ok::<ExitStatus, Seq<char>>(rest[0]));
    assert(waits.drop_first() == ended(rest.drop_first()));
    assert(joining.statuses.push(rest[0]) + rest.drop_first() == joining.statuses + rest);
    assert(asked == seq![joining.handle()] + next.awaited(spawns, waits.drop_first()));
    if joining.at_last() {
        assert(rest.len() == 1);
        assert(joining.statuses.push(rest[0]) == joining.statuses + rest);
        assert(next.run(spawns, waits.drop_first()) == next);
        assert(asked =~= leaves.skip(done));
    } else {
        let after = JoiningView { statuses: joining.statuses.push(rest[0]), ..joining };
        lemma_joining(after, rest.drop_first(), spawns);
        assert(asked =~= leaves.skip(done));
    }
}

/// Joining a tree whose processes all end waits for each process once, from
/// left to right, kills none, and hands back the statuses in the shape of
/// the tree: each leaf holds the status of the process whose handle stood
/// there, whichever process ended first.
pub proof fn theorem_join_keeps_order(
    tree: Tree<ProcessHandle>,
    status_of: spec_fn(ProcessHandle) -> ExitStatus,
    spawns: Seq<Result<ProcessHandle, SpawnFailureView>>,
)
    ensures
        ProgressView::join(tree, Mode::Join).run(
            spawns,
            ended(tree.leaves().map_values(status_of)),
        ) == ProgressView::Done(OutcomeView::finished(EndView::Joined(tree.map(status_of)))),
        ProgressView::join(tree, Mode::Join).awaited(
            spawns,
            ended(tree.leaves().map_values(status_of)),
        ) == tree.leaves(),
        tree.same_shape(tree.map(status_of)),
        tree.map(status_of).leaves() == tree.leaves().map_values(status_of),
{
    let statuses = tree.leaves().map_values(status_of);
    tree.lemma_relabel_mapped(status_of);
    tree.lemma_relabel_same_shape(statuses);
    tree.lemma_map_leaves(status_of);
    if tree.leaves().len() == 0 {
        assert(statuses == Seq::<ExitStatus>::empty());
        assert(ended(statuses) == Seq::<Result<ExitStatus, Seq<char>>>::empty());
        assert(tree.leaves() == Seq::<ProcessHandle>::empty());
    } else {
        let joining = JoiningView { tree, statuses: Seq::empty(), mode: Mode::Join };
        lemma_joining(joining, statuses, spawns);
        assert(Seq::<ExitStatus>::empty() + statuses == statuses);
        assert(tree.leaves().skip(0) == tree.leaves());
    }
}

/// The statuses that a join hands back are the only ones in the shape of
/// the handles whose leaves hold the statuses of the processes in the order
/// of the handles.
pub proof fn theorem_joined_is_determined(
    tree: Tree<ProcessHandle>,
    statuses: Seq<ExitStatus>,
    joined: Tree<ExitStatus>,
)
    requires
        statuses.len() == tree.leaves().len(),
        tree.same_shape(joined),
        joined.leaves() == statuses,
    ensures
        joined == tree.relabel(statuses),
{
    tree.lemma_relabel_same_shape(statuses);
    tree.lemma_relabel_leaves(statuses);
    tree.lemma_same_shape_shared(tree.relabel(statuses), joined);
    tree.relabel(statuses).lemma_shape_and_leaves(joined);
}

/// A wait that fails ends the join at once: the processes before it were
/// waited for, none after it is, and none is killed. `Join` hands the error
/// back; `Wait` and `Exec` end the process with it.
pub proof fn theorem_failed_wait_stops_join(
    tree: Tree<ProcessHandle>,
    mode: Mode,
    statuses: Seq<ExitStatus>,
    cause: Seq<char>,
    later: Seq<Result<ExitStatus, Seq<char>>>,
    spawns: Seq<Result<ProcessHandle, SpawnFailureView>>,
)
    requires
        statuses.len() < tree.leaves().len(),
    ensures
        ProgressView::join(tree, mode).run(spawns, ended(statuses).push(Err(cause)) + later)
            == ProgressView::Done(
            OutcomeView::finished(
                match mode {
                    Mode::Spawn | Mode::Join => EndView::Failed(wait_error(cause)),
                    Mode::Wait | Mode::Exec => EndView::Exit(
                        ExitView::of_error(wait_error(cause).chain()),
                    ),
                },
            ),
        ),
        ProgressView::join(tree, mode).awaited(spawns, ended(statuses).push(Err(cause)) + later)
            == tree.leaves().take(statuses.len() as int + 1),
{
    let joining = JoiningView { tree, statuses: Seq::empty(), mode };
    lemma_failed_wait(joining, statuses, cause, later, spawns);
    assert(Seq::<ExitStatus>::empty() + statuses == statuses);
    assert(tree.leaves().subrange(0, statuses.len() as int + 1) == tree.leaves().take(
        statuses.len() as int + 1,
    ));
}

/// The run from any point of a join to a wait that fails.
proof fn lemma_failed_wait(
    joining: JoiningView,
    rest: Seq<ExitStatus>,
    cause: Seq<char>,
    later: Seq<Result<ExitStatus, Seq<char>>>,
    spawns: Seq<Result<ProcessHandle, SpawnFailureView>>,
)
    requires
        joining.statuses.len() + rest.len() < joining.tree.leaves().len(),
    ensures
        ProgressView::Wait(joining).run(spawns, ended(rest).push(Err(cause)) + later)
            == ProgressView::Done(
            OutcomeView::finished(
                match joining.mode {
                    Mode::Spawn | Mode::Join => EndView::Failed(wait_error(cause)),
                    Mode::Wait | Mode::Exec => EndView::Exit(
                        ExitView::of_error(wait_error(cause).chain()),
                    ),
                },
            ),
        ),
        ProgressView::Wait(joining).awaited(spawns, ended(rest).push(Err(cause)) + later)
            == joining.tree.leaves().subrange(
            joining.statuses.len() as int,
            joining.statuses.len() as int + rest.len() as int + 1,
        ),
    decreases rest.len(),
{
    let waits = ended(rest).push(Err(cause)) + later;
    let leaves = joining.tree.leaves();
    let done = joining.statuses.len() as int;
    let next = joining.resume(waits[0]);
    let asked = ProgressView::Wait(joining).awaited(spawns, waits);
    assert(asked == seq![joining.handle()] + next.awaited(spawns, waits.drop_first()));
    if rest.len() == 0 {
        assert(waits[0] == Err::<ExitStatus, Seq<char>>(cause));
        assert(next.run(spawns, waits.drop_first()) == next);
        assert(asked =~= leaves.subrange(done, done + 1));
    } else {
        assert(waits[0] == Ok::<ExitStatus, Seq<char>>(rest[0]));
        assert(waits.drop_first() == ended(rest.drop_first()).push(Err(cause)) + later);
        let after = JoiningView { statuses: joining.statuses.push(rest[0]), ..joining };
        lemma_failed_wait(after, rest.drop_first(), cause, later, spawns);
        assert(asked =~= leaves.subrange(done, done + rest.len() + 1));
    }
}

/// Where every stage of a pipeline starts, the engine starts them from the
/// first to the last and no other process: the first stage reads what this
/// process reads, each later stage what the stage before it writes, and
/// only the last stage writes to the pipeline's output. `Spawn` then hands
/// back a tree with one leaf for each stage, in that order.
pub proof fn theorem_stages_start_in_order(
    pipe: PipeView,
    mode: Mode,
    handles: Seq<ProcessHandle>,
    waits: Seq<Result<ExitStatus, Seq<char>>>,
)
    requires
        pipe.runnable(),
        handles.len() == pipe.commands.len(),
    ensures
        ProgressView::start(pipe, mode).requested(started(handles), waits) == Seq::new(
            handles.len(),
            |i: int| stage_request(pipe, handles, i),
        ),
        ProgressView::start(pipe, Mode::Spawn).run(started(handles), waits) == ProgressView::Done(
            OutcomeView::finished(EndView::Spawned(pipeline_tree(handles))),
        ),
        pipeline_tree(handles).leaves() == handles,
{
    let first = SpawningView {
        commands: pipe.commands,
        output: pipe.output,
        mode,
        handles: Seq::empty(),
    };
    lemma_spawning(first, handles, waits);
    lemma_spawning(SpawningView { mode: Mode::Spawn, ..first }, handles, waits);
    lemma_pipeline_tree_leaves(handles);
    assert(Seq::<ProcessHandle>::empty() + handles == handles);
    assert(ProgressView::start(pipe, mode).requested(started(handles), waits) =~= Seq::new(
        handles.len(),
        |i: int| stage_request(pipe, handles, i),
    ));
}

/// A pipeline of one stage starts one process: it reads what this process
/// reads and writes straight to the pipeline's output, so that a file
/// given as the output receives what the stage writes.
pub proof fn theorem_single_stage_writes_to_the_output(
    pipe: PipeView,
    mode: Mode,
    handle: ProcessHandle,
    waits: Seq<Result<ExitStatus, Seq<char>>>,
)
    requires
        pipe.runnable(),
        pipe.commands.len() == 1,
    ensures
        ProgressView::start(pipe, mode).requested(started(seq![handle]), waits) == seq![
            SpawnRequestView {
                command: CommandView::parse(pipe.commands[0]),
                stdin: PipeIoView::Inherit,
                stdout: StdoutView::Sink(pipe.output),
            },
        ],
{
    theorem_stages_start_in_order(pipe, mode, seq![handle], waits);
    assert(Seq::new(1, |i: int| stage_request(pipe, seq![handle], i)) =~= seq![
        stage_request(pipe, seq![handle], 0),
    ]);
}

/// The end of a run whose stages all start and end, with the statuses
/// `statuses`, in the order of the stages.
proof fn lemma_run_to_end(
    pipe: PipeView,
    mode: Mode,
    handles: Seq<ProcessHandle>,
    statuses: Seq<ExitStatus>,
)
    requires
        pipe.runnable(),
        handles.len() == pipe.commands.len(),
        statuses.len() == handles.len(),
        mode == Mode::Wait || mode == Mode::Exec,
    ensures
        ProgressView::start(pipe, mode).run(started(handles), ended(statuses))
            == ProgressView::joined(pipeline_tree(handles), statuses, mode),
        ProgressView::start(pipe, mode).awaited(started(handles), ended(statuses)) == handles,
{
    let first = SpawningView {
        commands: pipe.commands,
        output: pipe.output,
        mode,
        handles: Seq::empty(),
    };
    let tree = pipeline_tree(handles);
    lemma_spawning(first, handles, ended(statuses));
    lemma_pipeline_tree_leaves(handles);
    assert(Seq::<ProcessHandle>::empty() + handles == handles);
    let joining = JoiningView { tree, statuses: Seq::empty(), mode };
    lemma_joining(joining, statuses, Seq::empty());
    assert(Seq::<ExitStatus>::empty() + statuses == statuses);
    assert(handles.skip(0) == handles);
}

/// Where every stage of a pipeline starts and succeeds, `Wait` comes back,
/// and `Exec` ends the process with code 0 and nothing to report. No
/// process is killed.
pub proof fn theorem_success_returns(
    pipe: PipeView,
    handles: Seq<ProcessHandle>,
    statuses: Seq<ExitStatus>,
)
    requires
        pipe.runnable(),
        handles.len() == pipe.commands.len(),
        statuses.len() == handles.len(),
        all_success(statuses),
    ensures
        ProgressView::start(pipe, Mode::Wait).run(started(handles), ended(statuses))
            == ProgressView::Done(OutcomeView::finished(EndView::Waited)),
        ProgressView::start(pipe, Mode::Exec).run(started(handles), ended(statuses))
            == ProgressView::Done(OutcomeView::finished(EndView::Exit(ExitView::success()))),
        ExitView::success().code == 0,
{
    lemma_run_to_end(pipe, Mode::Wait, handles, statuses);
    lemma_run_to_end(pipe, Mode::Exec, handles, statuses);
    lemma_first_failure_none(statuses);
}

/// Where every stage of a pipeline starts and a stage fails, the statuses
/// are no success, and `Wait` and `Exec` end the process with the status of
/// the first stage, in the order of the pipeline, that failed: with its
/// code, or with 1 where it has none. The order in which the stages end is
/// of no account. Every stage was started, and `Join` still hands back the
/// status of each.
pub proof fn theorem_first_failure_ends_process(
    pipe: PipeView,
    handles: Seq<ProcessHandle>,
    statuses: Seq<ExitStatus>,
    failed: int,
)
    requires
        pipe.runnable(),
        handles.len() == pipe.commands.len(),
        statuses.len() == handles.len(),
        0 <= failed < statuses.len(),
        !statuses[failed].spec_success(),
        forall|i: int| 0 <= i < failed ==> (#[trigger] statuses[i]).spec_success(),
    ensures
        ProgressView::start(pipe, Mode::Wait).run(started(handles), ended(statuses))
            == ProgressView::Done(
            OutcomeView::finished(EndView::Exit(ExitView::of_status(statuses[failed]))),
        ),
        ProgressView::start(pipe, Mode::Exec).run(started(handles), ended(statuses))
            == ProgressView::Done(
            OutcomeView::finished(EndView::Exit(ExitView::of_status(statuses[failed]))),
        ),
        ExitView::of_status(statuses[failed]).code != 0,
        ProgressView::start(pipe, Mode::Spawn).requested(started(handles), ended(statuses)).len()
            == handles.len(),
        ProgressView::join(pipeline_tree(handles), Mode::Join).run(
            Seq::empty(),
            ended(statuses),
        ) == ProgressView::Done(
            OutcomeView::finished(EndView::Joined(pipeline_tree(handles).relabel(statuses))),
        ),
        pipeline_tree(handles).relabel(statuses).leaves() == statuses,
        !all_success(pipeline_tree(handles).relabel(statuses).leaves()),
{
    let tree = pipeline_tree(handles);
    lemma_run_to_end(pipe, Mode::Wait, handles, statuses);
    lemma_run_to_end(pipe, Mode::Exec, handles, statuses);
    lemma_first_failure_at(statuses, failed);
    theorem_stages_start_in_order(pipe, Mode::Spawn, handles, ended(statuses));
    lemma_pipeline_tree_leaves(handles);
    tree.lemma_relabel_leaves(statuses);
    let joining = JoiningView { tree, statuses: Seq::empty(), mode: Mode::Join };
    lemma_joining(joining, statuses, Seq::empty());
    assert(Seq::<ExitStatus>::empty() + statuses == statuses);
}

/// Where a stage of a pipeline does not start, the run is over at once: no
/// later stage is started, no process is waited for, and every stage that
/// was started before is to be killed, in the order in which they were
/// started. The error ends the process where `Exec` was asked or where the
/// stage is the last of several; else it goes back to the caller.
pub proof fn theorem_failed_spawn_cancels(
    pipe: PipeView,
    mode: Mode,
    handles: Seq<ProcessHandle>,
    failure: SpawnFailureView,
    later: Seq<Result<ProcessHandle, SpawnFailureView>>,
    waits: Seq<Result<ExitStatus, Seq<char>>>,
)
    requires
        pipe.runnable(),
        handles.len() < pipe.commands.len(),
    ensures
        ProgressView::start(pipe, mode).run(started(handles).push(Err(failure)) + later, waits)
            == ProgressView::Done(
            OutcomeView {
                cancel: handles,
                end: {
                    let error = stage_request(pipe, handles, handles.len() as int).failure(
                        failure,
                    );
                    if mode == Mode::Exec || (pipe.commands.len() >= 2 && handles.len() + 1
                        == pipe.commands.len()) {
                        EndView::Exit(ExitView::of_error(error.chain()))
                    } else {
                        EndView::Failed(error)
                    }
                },
            },
        ),
        ProgressView::start(pipe, mode).requested(
            started(handles).push(Err(failure)) + later,
            waits,
        ) == Seq::new(handles.len() + 1, |i: int| stage_request(pipe, handles, i)),
        ProgressView::start(pipe, mode).awaited(
            started(handles).push(Err(failure)) + later,
            waits,
        ) == Seq::<ProcessHandle>::empty(),
{
    let first = SpawningView {
        commands: pipe.commands,
        output: pipe.output,
        mode,
        handles: Seq::empty(),
    };
    lemma_failed_spawn(first, handles, failure, later, waits);
    assert(Seq::<ProcessHandle>::empty() + handles == handles);
    assert(ProgressView::start(pipe, mode).requested(
        started(handles).push(Err(failure)) + later,
        waits,
    ) =~= Seq::new(handles.len() + 1, |i: int| stage_request(pipe, handles, i)));
}

/// The run from any stage to a stage that does not start.
proof fn lemma_failed_spawn(
    spawning: SpawningView,
    rest: Seq<ProcessHandle>,
    failure: SpawnFailureView,
    later: Seq<Result<ProcessHandle, SpawnFailureView>>,
    waits: Seq<Result<ExitStatus, Seq<char>>>,
)
    requires
        spawning.handles.len() + rest.len() < spawning.commands.len(),
    ensures
        ({
            let pipe = PipeView { commands: spawning.commands, output: spawning.output };
            let all = spawning.handles + rest;
            let spawns = started(rest).push(Err(failure)) + later;
            &&& ProgressView::Spawn(spawning).run(spawns, waits) == ProgressView::Done(
                OutcomeView {
                    cancel: all,
                    end: {
                        let error = stage_request(pipe, all, all.len() as int).failure(failure);
                        if spawning.mode == Mode::Exec || (pipe.commands.len() >= 2 && all.len()
                            + 1 == pipe.commands.len()) {
                            EndView::Exit(ExitView::of_error(error.chain()))
                        } else {
                            EndView::Failed(error)
                        }
                    },
                },
            )
            &&& ProgressView::Spawn(spawning).requested(spawns, waits) == Seq::new(
                (rest.len() + 1) as nat,
                |i: int| stage_request(pipe, all, spawning.handles.len() + i),
            )
            &&& ProgressView::Spawn(spawning).awaited(spawns, waits) == Seq::<
                ProcessHandle,
            >::empty()
        }),
    decreases rest.len(),
{
    let pipe = PipeView { commands: spawning.commands, output: spawning.output };
    let all = spawning.handles + rest;
    let spawns = started(rest).push(Err(failure)) + later;
    let next = spawning.resume(spawns[0]);
    let asked = ProgressView::Spawn(spawning).requested(spawns, waits);
    let expected = Seq::new(
        (rest.len() + 1) as nat,
        |i: int| stage_request(pipe, all, spawning.handles.len() + i),
    );
    assert(asked == seq![spawning.request()] + next.requested(spawns.drop_first(), waits));
    assert(spawning.request() == stage_request(pipe, all, spawning.handles.len() as int));
    if rest.len() == 0 {
        assert(spawns[0] == Err::<ProcessHandle, SpawnFailureView>(failure));
        assert(all == spawning.handles);
        assert(next.run(spawns.drop_first(), waits) == next);
        assert(next.awaited(spawns.drop_first(), waits) == Seq::<ProcessHandle>::empty());
        assert(asked =~= expected);
    } else {
        assert(spawns[0] == Ok::<ProcessHandle, SpawnFailureView>(rest[0]));
        assert(spawns.drop_first() == started(rest.drop_first()).push(Err(failure)) + later);
        assert(spawning.handles.push(rest[0]) + rest.drop_first() == all);
        let after = SpawningView { handles: spawning.handles.push(rest[0]), ..spawning };
        assert(next == ProgressView::Spawn(after));
        lemma_failed_spawn(after, rest.drop_first(), failure, later, waits);
        assert(asked =~= expected);
    }
}

/// Where every stage of a pipeline starts and waiting for one of them
/// fails, `Wait` and `Exec` end the process with the error of that wait: the
/// stages before it were waited for, no stage after it is, and no process
/// is killed.
pub proof fn theorem_failed_wait_ends_process(
    pipe: PipeView,
    mode: Mode,
    handles: Seq<ProcessHandle>,
    statuses: Seq<ExitStatus>,
    cause: Seq<char>,
    later: Seq<Result<ExitStatus, Seq<char>>>,
)
    requires
        pipe.runnable(),
        handles.len() == pipe.commands.len(),
        statuses.len() < handles.len(),
        mode == Mode::Wait || mode == Mode::Exec,
    ensures
        ProgressView::start(pipe, mode).run(
            started(handles),
            ended(statuses).push(Err(cause)) + later,
        ) == ProgressView::Done(
            OutcomeView::finished(EndView::Exit(ExitView::of_error(wait_error(cause).chain()))),
        ),
        ProgressView::start(pipe, mode).awaited(
            started(handles),
            ended(statuses).push(Err(cause)) + later,
        ) == handles.take(statuses.len() as int + 1),
{
    let first = SpawningView {
        commands: pipe.commands,
        output: pipe.output,
        mode,
        handles: Seq::empty(),
    };
    let waits = ended(statuses).push(Err(cause)) + later;
    lemma_spawning(first, handles, waits);
    lemma_pipeline_tree_leaves(handles);
    assert(Seq::<ProcessHandle>::empty() + handles == handles);
    theorem_failed_wait_stops_join(
        pipeline_tree(handles),
        mode,
        statuses,
        cause,
        later,
        Seq::empty(),
    );
}

/// Whether a run that was asked for `mode` may end with `end`.
pub open spec fn end_fits(mode: Mode, end: EndView) -> bool {
    match mode {
        Mode::Spawn => end is Spawned || end is Failed || end is Exit,
        Mode::Join => end is Joined || end is Failed,
        Mode::Wait => end is Waited || end is Failed || end is Exit,
        Mode::Exec => end is Exit,
    }
}

/// Whether the step `progress` belongs to a run that was asked for `mode`.
pub open spec fn step_fits(mode: Mode, progress: ProgressView) -> bool {
    match progress {
        ProgressView::Spawn(spawning) => spawning.mode == mode && mode != Mode::Join,
        ProgressView::Wait(joining) => joining.mode == mode && mode != Mode::Spawn,
        ProgressView::Done(outcome) => end_fits(mode, outcome.end),
    }
}

/// Each step of a run belongs to the same run as the step before it.
proof fn lemma_steps_fit(
    mode: Mode,
    progress: ProgressView,
    spawns: Seq<Result<ProcessHandle, SpawnFailureView>>,
    waits: Seq<Result<ExitStatus, Seq<char>>>,
)
    requires
        step_fits(mode, progress),
    ensures
        step_fits(mode, progress.run(spawns, waits)),
    decreases spawns.len() + waits.len(),
{
    match progress {
        ProgressView::Spawn(spawning) => {
            if spawns.len() > 0 {
                lemma_steps_fit(mode, spawning.resume(spawns[0]), spawns.drop_first(), waits);
            }
        },
        ProgressView::Wait(joining) => {
            if waits.len() > 0 {
                lemma_steps_fit(mode, joining.resume(waits[0]), spawns, waits.drop_first());
            }
        },
        ProgressView::Done(_) => {},
    }
}

/// However its processes answer, a run ends only in a way that fits what
/// was asked: `Exec` never hands anything back and always ends the
/// process; `Spawn` hands back handles or an error, or ends the process;
/// `Wait` comes back with nothing or with an error, or ends the process.
pub proof fn theorem_pipeline_ends_as_asked(
    pipe: PipeView,
    mode: Mode,
    spawns: Seq<Result<ProcessHandle, SpawnFailureView>>,
    waits: Seq<Result<ExitStatus, Seq<char>>>,
)
    requires
        mode != Mode::Join,
    ensures
        match ProgressView::start(pipe, mode).run(spawns, waits) {
            ProgressView::Done(outcome) => end_fits(mode, outcome.end),
            _ => true,
        },
{
    lemma_steps_fit(mode, ProgressView::start(pipe, mode), spawns, waits);
}

/// However its processes answer, a join ends with the statuses or with an
/// error; it starts no process, kills none, and never ends the process.
pub proof fn theorem_join_ends_as_asked(
    tree: Tree<ProcessHandle>,
    spawns: Seq<Result<ProcessHandle, SpawnFailureView>>,
    waits: Seq<Result<ExitStatus, Seq<char>>>,
)
    ensures
        match ProgressView::join(tree, Mode::Join).run(spawns, waits) {
            ProgressView::Done(outcome) => {
                &&& outcome.end is Joined || outcome.end is Failed
                &&& outcome.cancel == Seq::<ProcessHandle>::empty()
            },
            ProgressView::Wait(_) => true,
            ProgressView::Spawn(_) => false,
        },
        ProgressView::join(tree, Mode::Join).requested(spawns, waits) == Seq::<
            SpawnRequestView,
        >::empty(),
{
    lemma_join_only_waits(ProgressView::join(tree, Mode::Join), spawns, waits);
}

/// A run that waits, or is over, starts no process and kills none.
proof fn lemma_join_only_waits(
    progress: ProgressView,
    spawns: Seq<Result<ProcessHandle, SpawnFailureView>>,
    waits: Seq<Result<ExitStatus, Seq<char>>>,
)
    requires
        match progress {
            ProgressView::Spawn(_) => false,
            ProgressView::Wait(joining) => joining.mode == Mode::Join,
            ProgressView::Done(outcome) => (outcome.end is Joined || outcome.end is Failed)
                && outcome.cancel == Seq::<ProcessHandle>::empty(),
        },
    ensures
        match progress.run(spawns, waits) {
            ProgressView::Done(outcome) => {
                &&& outcome.end is Joined || outcome.end is Failed
                &&& outcome.cancel == Seq::<ProcessHandle>::empty()
            },
            ProgressView::Wait(_) => true,
            ProgressView::Spawn(_) => false,
        },
        progress.requested(spawns, waits) == Seq::<SpawnRequestView>::empty(),
    decreases waits.len(),
{
    match progress {
        ProgressView::Wait(joining) => {
            if waits.len() > 0 {
                lemma_join_only_waits(joining.resume(waits[0]), spawns, waits.drop_first());
            }
        },
        _ => {},
    }
}

/// A run that gets as many answers as the pipeline has stages, to the
/// processes to start and to the processes to wait for, comes to its end.
pub proof fn theorem_enough_answers_end_the_run(
    pipe: PipeView,
    mode: Mode,
    spawns: Seq<Result<ProcessHandle, SpawnFailureView>>,
    waits: Seq<Result<ExitStatus, Seq<char>>>,
)
    requires
        pipe.runnable(),
        spawns.len() >= pipe.commands.len(),
        waits.len() >= pipe.commands.len(),
    ensures
        ProgressView::start(pipe, mode).run(spawns, waits) is Done,
{
    let first = SpawningView {
        commands: pipe.commands,
        output: pipe.output,
        mode,
        handles: Seq::empty(),
    };
    lemma_spawning_ends(first, spawns, waits);
}

/// A join that gets as many answers as the tree has leaves comes to its
/// end.
pub proof fn theorem_enough_answers_end_the_join(
    tree: Tree<ProcessHandle>,
    mode: Mode,
    spawns: Seq<Result<ProcessHandle, SpawnFailureView>>,
    waits: Seq<Result<ExitStatus, Seq<char>>>,
)
    requires
        waits.len() >= tree.leaves().len(),
    ensures
        ProgressView::join(tree, mode).run(spawns, waits) is Done,
{
    if tree.leaves().len() > 0 {
        lemma_joining_ends(JoiningView { tree, statuses: Seq::empty(), mode }, spawns, waits);
    }
}

/// A run with stages to start ends when it gets an answer for each of them
/// and for each process to wait for.
proof fn lemma_spawning_ends(
    spawning: SpawningView,
    spawns: Seq<Result<ProcessHandle, SpawnFailureView>>,
    waits: Seq<Result<ExitStatus, Seq<char>>>,
)
    requires
        spawning.wf(),
        spawns.len() >= spawning.commands.len() - spawning.handles.len(),
        waits.len() >= spawning.commands.len(),
    ensures
        ProgressView::Spawn(spawning).run(spawns, waits) is Done,
    decreases spawns.len(),
{
    let next = spawning.resume(spawns[0]);
    match spawns[0] {
        Ok(handle) => {
            let handles = spawning.handles.push(handle);
            if spawning.at_last() {
                lemma_pipeline_tree_leaves(handles);
                theorem_enough_answers_end_the_join(
                    pipeline_tree(handles),
                    spawning.mode,
                    spawns.drop_first(),
                    waits,
                );
                assert(next.run(spawns.drop_first(), waits) is Done);
            } else {
                lemma_spawning_ends(
                    SpawningView { handles, ..spawning },
                    spawns.drop_first(),
                    waits,
                );
            }
        },
        Err(_) => {
            assert(next.run(spawns.drop_first(), waits) == next);
        },
    }
}

/// A run with processes to wait for ends when it gets an answer for each
/// of them.
proof fn lemma_joining_ends(
    joining: JoiningView,
    spawns: Seq<Result<ProcessHandle, SpawnFailureView>>,
    waits: Seq<Result<ExitStatus, Seq<char>>>,
)
    requires
        joining.wf(),
        waits.len() >= joining.tree.leaves().len() - joining.statuses.len(),
    ensures
        ProgressView::Wait(joining).run(spawns, waits) is Done,
    decreases waits.len(),
{
    let next = joining.resume(waits[0]);
    match waits[0] {
        Ok(status) => {
            if joining.at_last() {
                assert(next.run(spawns, waits.drop_first()) == next);
            } else {
                lemma_joining_ends(
                    JoiningView { statuses: joining.statuses.push(status), ..joining },
                    spawns,
                    waits.drop_first(),
                );
            }
        },
        Err(_) => {
            assert(next.run(spawns, waits.drop_first()) == next);
        },
    }
}

} // verus!
