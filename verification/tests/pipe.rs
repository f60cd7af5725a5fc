use std::collections::HashMap;
use xtask_utils::command_ext::{Error, ErrorKind, ExitStatus, OsError};
use xtask_utils::engine::{End, Outcome, Progress};
use xtask_utils::exit::{Exit, DIVIDER};
use xtask_utils::join::{JoinHandle, Joined, ProcessHandle};
use xtask_utils::pipe::{Pipe, PipeIo, PipeSection, SpawnFailure, SpawnRequest, Stdout};

const FAIL_CMD: &str = "cargo run --manifest-path test-helper -- exit-code 1";

/// One process of the pretended machine.
struct Child {
    line: String,
    output: String,
    status: ExitStatus,
    killed: bool,
    waited: bool,
}

/// A pretended machine: `echo` writes its arguments, `cat` copies what it
/// reads, `cargo ... exit-code N` exits with N, `sleep` cannot be waited
/// for, and no other program exists.
struct Machine {
    children: Vec<Child>,
    files: HashMap<String, String>,
    terminal: String,
    requests: Vec<SpawnRequest>,
}

impl Machine {
    fn new() -> Machine {
        Machine {
            children: Vec::new(),
            files: HashMap::new(),
            terminal: String::new(),
            requests: Vec::new(),
        }
    }

    fn copy(request: &SpawnRequest) -> SpawnRequest {
        let line = request.command.program.clone() + " " + &request.command.args.join(" ");
        let line = line.trim().to_string();
        match &request.stdout {
            Stdout::Piped => line.do_pipe(request.stdin.clone()),
            Stdout::Sink(sink) => line.end_pipe(request.stdin.clone(), sink.clone()),
        }
    }

    fn spawn(&mut self, request: &SpawnRequest) -> Result<ProcessHandle, SpawnFailure> {
        self.requests.push(Machine::copy(request));
        let input = match &request.stdin {
            PipeIo::Inherit => String::new(),
            PipeIo::File(path) => match self.files.get(path) {
                Some(text) => text.clone(),
                None => return Err(SpawnFailure::Input(OsError::new("not found"))),
            },
            PipeIo::Child(handle) => self.children[handle.id as usize].output.clone(),
        };
        if let Stdout::Sink(PipeIo::File(path)) = &request.stdout {
            if path.starts_with("/proc/") {
                return Err(SpawnFailure::Output(OsError::new("Permission denied (os error 13)")));
            }
            self.files.insert(path.clone(), String::new());
        }
        let args = &request.command.args;
        let (output, code) = match request.command.program.as_str() {
            "echo" => (args.join(" ") + "\n", Some(0)),
            "cat" => (input, Some(0)),
            "sleep" => (String::new(), Some(0)),
            "kill-me" => (String::new(), None),
            "cargo" => (String::new(), Some(args[args.len() - 1].parse::<i32>().unwrap())),
            _ => {
                return Err(
                    SpawnFailure::Start(OsError::new("No such file or directory (os error 2)")),
                )
            },
        };
        match &request.stdout {
            Stdout::Piped => {},
            Stdout::Sink(PipeIo::File(path)) => {
                self.files.insert(path.clone(), output.clone());
            },
            Stdout::Sink(_) => self.terminal.push_str(&output),
        }
        let line = request.command.program.clone();
        self.children.push(
            Child { line, output, status: ExitStatus { code }, killed: false, waited: false },
        );
        Ok(ProcessHandle { id: (self.children.len() - 1) as u64 })
    }

    fn wait(&mut self, handle: ProcessHandle) -> Result<ExitStatus, OsError> {
        let child = &mut self.children[handle.id as usize];
        assert!(!child.waited, "a process is waited for only once");
        if child.line == "sleep" {
            return Err(OsError::new("No child processes (os error 10)"));
        }
        child.waited = true;
        Ok(child.status)
    }

    fn run(&mut self, first: Progress) -> Outcome {
        let mut progress = first;
        loop {
            progress = match progress {
                Progress::Spawn(spawning) => {
                    let request = spawning.request();
                    let reply = self.spawn(&request);
                    spawning.resume(reply)
                },
                Progress::Wait(joining) => {
                    let reply = self.wait(joining.handle());
                    joining.resume(reply)
                },
                Progress::Done(outcome) => {
                    for handle in &outcome.cancel {
                        self.children[handle.id as usize].killed = true;
                    }
                    return outcome;
                },
            }
        }
    }

    fn spawned(&self) -> Vec<String> {
        self.children.iter().map(|child| child.line.clone()).collect()
    }

    fn killed(&self) -> Vec<u64> {
        (0..self.children.len()).filter(|i| self.children[*i].killed).map(|i| i as u64).collect()
    }

    fn waited(&self) -> Vec<u64> {
        (0..self.children.len()).filter(|i| self.children[*i].waited).map(|i| i as u64).collect()
    }
}

fn pipe(lines: &[&str], output: PipeIo) -> Pipe {
    let pipe = Pipe::new(lines.iter().map(|line| line.to_string()).collect(), output);
    assert!(pipe.runnable());
    pipe
}

fn handles(outcome: Outcome) -> JoinHandle {
    assert_eq!(outcome.cancel, vec![]);
    match outcome.end {
        End::Spawned(handles) => handles,
        end => panic!("the stages were not all started: {:?}", end),
    }
}

fn statuses(outcome: Outcome) -> Joined {
    assert_eq!(outcome.cancel, vec![]);
    match outcome.end {
        End::Joined(joined) => joined,
        end => panic!("the processes were not all waited for: {:?}", end),
    }
}

fn status(code: i32) -> ExitStatus {
    ExitStatus { code: Some(code) }
}

fn leaf(id: u64) -> JoinHandle {
    JoinHandle::Cmd(ProcessHandle { id })
}

fn status_exit(code: i32, words: &str) -> Exit {
    Exit { code, report: vec![String::new(), DIVIDER.to_string(), words.to_string()] }
}

#[test]
fn happy_path() {
    let temp = "/tmp/xtask_utils/1700000000000000.txt".to_string();
    let mut machine = Machine::new();

    let outcome = machine.run(
        pipe(&["echo hello world", "cat", "cat"], PipeIo::from(temp.clone())).wait(),
    );

    assert_eq!(outcome, Outcome { cancel: vec![], end: End::Waited });
    assert_eq!(machine.files[&temp].trim(), "hello world");
    assert_eq!(machine.files[&temp], "hello world\n");
}

#[test]
fn single_command_fail() {
    let mut machine = Machine::new();
    let spawned = machine.run(pipe(&[FAIL_CMD], PipeIo::Inherit).spawn());
    let result = statuses(machine.run(handles(spawned).join()));
    assert!(!result.success());
}

#[test]
fn multi_command_first_fail() {
    let mut machine = Machine::new();
    let spawned = machine.run(pipe(&[FAIL_CMD, "cat", "cat"], PipeIo::Inherit).spawn());
    let result = statuses(machine.run(handles(spawned).join()));
    assert!(!result.success());
}

#[test]
fn multi_command_last_fail() {
    let mut machine = Machine::new();
    let spawned = machine.run(pipe(&["echo hello", "cat", FAIL_CMD], PipeIo::Inherit).spawn());
    let result = statuses(machine.run(handles(spawned).join()));
    assert!(!result.success());
}

#[test]
fn multi_command_mid_fail() {
    let mut machine = Machine::new();
    let spawned = machine.run(pipe(&["echo hello", FAIL_CMD, "echo"], PipeIo::Inherit).spawn());
    let result = statuses(machine.run(handles(spawned).join()));
    assert!(!result.success());
}

#[test]
fn single_stage_writes_its_output_to_the_file() {
    let mut machine = Machine::new();
    let path = "target/deep/down/out.txt".to_string();

    let outcome = machine.run(pipe(&["echo one  two"], PipeIo::from(path.clone())).wait());

    assert_eq!(outcome, Outcome { cancel: vec![], end: End::Waited });
    assert_eq!(machine.files[&path], "one two\n");
    assert_eq!(machine.requests.len(), 1);
    assert_eq!(machine.requests[0].stdin, PipeIo::Inherit);
    assert_eq!(machine.requests[0].stdout, Stdout::Sink(PipeIo::File(path)));
}

#[test]
fn single_stage_gives_a_single_handle() {
    let mut machine = Machine::new();
    let spawned = machine.run(pipe(&["cat"], PipeIo::Inherit).spawn());
    assert_eq!(handles(spawned), leaf(0));
    assert_eq!(machine.waited(), Vec::<u64>::new());
}

#[test]
fn stages_are_wired_from_left_to_right() {
    let mut machine = Machine::new();

    let spawned = machine.run(pipe(&["echo a", "cat", "cat"], PipeIo::Inherit).spawn());

    assert_eq!(handles(spawned), JoinHandle::Multiple(vec![leaf(0), leaf(1), leaf(2)]));
    assert_eq!(machine.spawned(), vec!["echo", "cat", "cat"]);
    let wiring: Vec<(&PipeIo, &Stdout)> =
        machine.requests.iter().map(|request| (&request.stdin, &request.stdout)).collect();
    assert_eq!(
        wiring,
        vec![
            (&PipeIo::Inherit, &Stdout::Piped),
            (&PipeIo::Child(ProcessHandle { id: 0 }), &Stdout::Piped),
            (&PipeIo::Child(ProcessHandle { id: 1 }), &Stdout::Sink(PipeIo::Inherit)),
        ]
    );
    assert_eq!(machine.terminal, "a\n");
    assert_eq!(machine.waited(), Vec::<u64>::new());
}

#[test]
fn first_stage_spawn_failure_is_returned() {
    for lines in [vec!["nowhere"], vec!["nowhere", "cat", "cat"]] {
        let mut machine = Machine::new();
        let spawned = machine.run(pipe(&lines, PipeIo::Inherit).spawn());
        let mut machine = Machine::new();
        let waited = machine.run(pipe(&lines, PipeIo::Inherit).wait());

        let error = Error {
            name: "nowhere".to_string(),
            kind: ErrorKind::Spawn(OsError::new("No such file or directory (os error 2)")),
        };
        assert_eq!(spawned.cancel, vec![]);
        assert_eq!(spawned.end, End::Failed(error));
        assert_eq!(waited.end, spawned.end);
        assert_eq!(machine.spawned(), Vec::<String>::new());
    }
}

#[test]
fn middle_stage_spawn_failure_kills_the_stages_before_it() {
    let mut machine = Machine::new();

    let outcome =
        machine.run(pipe(&["echo a", "cat", "nowhere -x", "cat", "cat"], PipeIo::Inherit).wait());

    assert_eq!(outcome.cancel, vec![ProcessHandle { id: 0 }, ProcessHandle { id: 1 }]);
    assert_eq!(
        outcome.end,
        End::Failed(
            Error {
                name: "nowhere".to_string(),
                kind: ErrorKind::Spawn(OsError::new("No such file or directory (os error 2)")),
            }
        )
    );
    assert_eq!(machine.spawned(), vec!["echo", "cat"]);
    assert_eq!(machine.requests.len(), 3);
    assert_eq!(machine.killed(), vec![0, 1]);
    assert_eq!(machine.waited(), Vec::<u64>::new());
}

#[test]
fn last_stage_spawn_failure_ends_the_process() {
    let report = vec![
        "failed spawning nowhere".to_string(),
        String::new(),
        "Caused by:".to_string(),
        "  No such file or directory (os error 2)".to_string(),
    ];
    for mode in 0..3 {
        let mut machine = Machine::new();
        let pipe = pipe(&["echo a", "cat", "nowhere"], PipeIo::Inherit);
        let outcome = machine.run(match mode {
            0 => pipe.spawn(),
            1 => pipe.wait(),
            _ => pipe.exec(),
        });

        assert_eq!(outcome.cancel, vec![ProcessHandle { id: 0 }, ProcessHandle { id: 1 }]);
        assert_eq!(outcome.end, End::Exit(Exit { code: 1, report: report.clone() }));
        assert_eq!(machine.killed(), vec![0, 1]);
    }
}

#[test]
fn sink_that_cannot_be_opened_is_a_file_error() {
    let mut machine = Machine::new();

    let outcome = machine.run(pipe(&["echo a"], PipeIo::from("/proc/nope/out".to_string())).wait());

    assert_eq!(outcome.cancel, vec![]);
    match &outcome.end {
        End::Failed(error) => {
            assert!(matches!(error.kind(), ErrorKind::File(_)));
            assert_eq!(error.to_string(), "failed opening file at /proc/nope/out");
            assert_eq!(error.source(), Some(&OsError::new("Permission denied (os error 13)")));
        },
        end => panic!("{:?}", end),
    }
    assert_eq!(machine.spawned(), Vec::<String>::new());

    let mut machine = Machine::new();
    let outcome =
        machine.run(pipe(&["echo a", "cat"], PipeIo::from("/proc/nope/out".to_string())).spawn());
    assert_eq!(outcome.cancel, vec![ProcessHandle { id: 0 }]);
    assert_eq!(
        outcome.end,
        End::Exit(
            Exit {
                code: 1,
                report: vec![
                    "failed opening file at /proc/nope/out".to_string(),
                    String::new(),
                    "Caused by:".to_string(),
                    "  Permission denied (os error 13)".to_string(),
                ],
            }
        )
    );
}

#[test]
fn exec_ends_the_process_on_any_spawn_failure() {
    let mut machine = Machine::new();
    let outcome = machine.run(pipe(&["echo a", "nowhere", "cat"], PipeIo::Inherit).exec());
    assert_eq!(outcome.cancel, vec![ProcessHandle { id: 0 }]);
    match outcome.end {
        End::Exit(exit) => {
            assert_eq!(exit.code, 1);
            assert_eq!(exit.report[0], "failed spawning nowhere");
        },
        end => panic!("{:?}", end),
    }

    let mut machine = Machine::new();
    let outcome = machine.run(pipe(&["nowhere"], PipeIo::Inherit).exec());
    assert_eq!(outcome.cancel, vec![]);
    assert!(matches!(outcome.end, End::Exit(Exit { code: 1, .. })));
}

#[test]
fn wait_and_exec_when_every_stage_succeeds() {
    for n in 1..6 {
        let lines: Vec<&str> = (0..n).map(|i| if i == 0 { "echo x" } else { "cat" }).collect();

        let mut machine = Machine::new();
        let waited = machine.run(pipe(&lines, PipeIo::Inherit).wait());
        assert_eq!(waited, Outcome { cancel: vec![], end: End::Waited });
        assert_eq!(machine.waited(), (0..n as u64).collect::<Vec<u64>>());
        assert_eq!(machine.terminal, "x\n");

        let mut machine = Machine::new();
        let executed = machine.run(pipe(&lines, PipeIo::Inherit).exec());
        assert_eq!(
            executed,
            Outcome { cancel: vec![], end: End::Exit(Exit { code: 0, report: vec![] }) }
        );
    }
}

#[test]
fn first_failing_stage_ends_the_process() {
    let lines = [
        "echo a",
        "cargo run -- exit-code 3",
        "cat",
        "cargo run -- exit-code 4",
        "kill-me",
    ];
    let mut machine = Machine::new();
    let waited = machine.run(pipe(&lines, PipeIo::Inherit).wait());
    assert_eq!(
        waited,
        Outcome { cancel: vec![], end: End::Exit(status_exit(3, "exit status: 3")) }
    );
    assert_eq!(machine.spawned().len(), 5);
    assert_eq!(machine.waited(), vec![0, 1, 2, 3, 4]);
    assert_eq!(machine.killed(), Vec::<u64>::new());

    let mut machine = Machine::new();
    let executed = machine.run(pipe(&lines, PipeIo::Inherit).exec());
    assert_eq!(executed, waited);

    let mut machine = Machine::new();
    let executed = machine.run(pipe(&["cat", "kill-me", FAIL_CMD], PipeIo::Inherit).exec());
    assert_eq!(
        executed,
        Outcome { cancel: vec![], end: End::Exit(status_exit(1, "terminated by a signal")) }
    );
}

#[test]
fn failing_first_stage_gives_a_failing_first_leaf() {
    let mut machine = Machine::new();
    let spawned = machine.run(pipe(&[FAIL_CMD, "cat", "cat"], PipeIo::Inherit).spawn());
    let result = statuses(machine.run(handles(spawned).join()));

    assert_eq!(result, Joined::Multiple(vec![
        Joined::Cmd(status(1)),
        Joined::Cmd(status(0)),
        Joined::Cmd(status(0)),
    ]));
    assert!(!result.success());
    assert_eq!(result.first_failure(), Some(status(1)));

    let mut machine = Machine::new();
    let waited = machine.run(pipe(&[FAIL_CMD, "cat", "cat"], PipeIo::Inherit).wait());
    match waited.end {
        End::Exit(exit) => assert_ne!(exit.code, 0),
        end => panic!("{:?}", end),
    }
}

#[test]
fn failing_middle_stage_does_not_keep_later_stages_from_starting() {
    let mut machine = Machine::new();
    let spawned = machine.run(pipe(&["cat", FAIL_CMD, "echo"], PipeIo::Inherit).spawn());
    assert_eq!(machine.spawned(), vec!["cat", "cargo", "echo"]);
    let result = statuses(machine.run(handles(spawned).join()));

    assert!(!result.success());
    assert_eq!(
        result,
        Joined::Multiple(vec![
            Joined::Cmd(status(0)),
            Joined::Cmd(status(1)),
            Joined::Cmd(status(0)),
        ])
    );
}

#[test]
fn join_keeps_the_order_and_the_shape_of_the_handles() {
    let mut machine = Machine::new();
    for line in ["cargo exit-code 10", "cargo exit-code 11", "cargo exit-code 12", "echo"] {
        machine.spawn(&line.do_pipe(PipeIo::Inherit)).unwrap();
    }
    let tree = JoinHandle::Multiple(vec![
        JoinHandle::Multiple(vec![leaf(2), JoinHandle::Multiple(vec![])]),
        leaf(0),
        JoinHandle::Multiple(vec![JoinHandle::Multiple(vec![leaf(3), leaf(1)])]),
    ]);
    assert_eq!(
        tree.leaves(),
        vec![
            ProcessHandle { id: 2 },
            ProcessHandle { id: 0 },
            ProcessHandle { id: 3 },
            ProcessHandle { id: 1 },
        ]
    );

    let result = statuses(machine.run(tree.join()));

    assert_eq!(
        result,
        Joined::Multiple(vec![
            Joined::Multiple(vec![Joined::Cmd(status(12)), Joined::Multiple(vec![])]),
            Joined::Cmd(status(10)),
            Joined::Multiple(vec![Joined::Multiple(vec![
                Joined::Cmd(status(0)),
                Joined::Cmd(status(11)),
            ])]),
        ])
    );
    assert_eq!(result.first_failure(), Some(status(12)));
    assert!(!result.success());
    assert_eq!(result.exit_on_err(), Err(status_exit(12, "exit status: 12")));
}

#[test]
fn join_of_no_process_is_done_at_once() {
    let tree =
        JoinHandle::Multiple(vec![JoinHandle::Multiple(vec![]), JoinHandle::Multiple(vec![])]);
    match tree.join() {
        Progress::Done(outcome) => {
            let result = statuses(outcome);
            assert_eq!(
                result,
                Joined::Multiple(vec![Joined::Multiple(vec![]), Joined::Multiple(vec![])])
            );
            assert!(result.success());
            assert_eq!(result.exit_on_err(), Ok(()));
        },
        progress => panic!("{:?}", progress),
    }
}

#[test]
fn wait_error_stops_the_join_and_kills_nothing() {
    let lines = ["echo a", "sleep 1", "cat"];
    let error = Error {
        name: "child process".to_string(),
        kind: ErrorKind::Wait(OsError::new("No child processes (os error 10)")),
    };
    assert_eq!(error.to_string(), "failed waiting for child process");

    let mut machine = Machine::new();
    let spawned = machine.run(pipe(&lines, PipeIo::Inherit).spawn());
    let joined = machine.run(handles(spawned).join());
    assert_eq!(joined, Outcome { cancel: vec![], end: End::Failed(error) });
    assert_eq!(machine.waited(), vec![0]);
    assert_eq!(machine.killed(), Vec::<u64>::new());

    let report = vec![
        "failed waiting for child process".to_string(),
        String::new(),
        "Caused by:".to_string(),
        "  No child processes (os error 10)".to_string(),
    ];
    let mut machine = Machine::new();
    let waited = machine.run(pipe(&lines, PipeIo::Inherit).wait());
    assert_eq!(
        waited,
        Outcome { cancel: vec![], end: End::Exit(Exit { code: 1, report: report.clone() }) }
    );
    assert_eq!(machine.waited(), vec![0]);

    let mut machine = Machine::new();
    let executed = machine.run(pipe(&lines, PipeIo::Inherit).exec());
    assert_eq!(executed, waited);
}

#[test]
fn cancel_gives_every_handle_depth_first() {
    let tree = JoinHandle::Multiple(vec![
        leaf(4),
        JoinHandle::Multiple(vec![leaf(9), JoinHandle::Multiple(vec![leaf(1)]), leaf(7)]),
        leaf(2),
    ]);
    let ids: Vec<u64> = tree.cancel().iter().map(|handle| handle.id).collect();
    assert_eq!(ids, vec![4, 9, 1, 7, 2]);
    assert_eq!(leaf(3).cancel(), vec![ProcessHandle { id: 3 }]);
    assert_eq!(JoinHandle::Multiple(vec![]).cancel(), vec![]);
}

#[test]
fn success_does_not_depend_on_the_shape() {
    let flat = Joined::Multiple(vec![Joined::Cmd(status(0)), Joined::Cmd(status(0))]);
    let nested = Joined::Multiple(vec![Joined::Multiple(vec![
        Joined::Cmd(status(0)),
        Joined::Multiple(vec![Joined::Cmd(status(0))]),
    ])]);
    assert!(flat.success());
    assert!(nested.success());
    assert!(Joined::Cmd(status(0)).success());
    assert!(Joined::Multiple(vec![]).success());

    let deep_failure = Joined::Multiple(vec![
        Joined::Cmd(status(0)),
        Joined::Multiple(vec![Joined::Multiple(vec![Joined::Cmd(ExitStatus { code: None })])]),
        Joined::Cmd(status(2)),
    ]);
    assert!(!deep_failure.success());
    assert!(!Joined::Cmd(status(-1)).success());
    assert_eq!(deep_failure.exit_on_err(), Err(status_exit(1, "terminated by a signal")));
}

#[test]
fn sections_say_which_process_to_start() {
    let request = "grep -v  x".do_pipe(PipeIo::Child(ProcessHandle { id: 3 }));
    assert_eq!(request.command.program, "grep");
    assert_eq!(request.command.args, vec!["-v", "x"]);
    assert_eq!(request.stdin, PipeIo::Child(ProcessHandle { id: 3 }));
    assert_eq!(request.stdout, Stdout::Piped);

    let request = "sort".to_string().end_pipe(PipeIo::Inherit, PipeIo::from("out".to_string()));
    assert_eq!(request.command.program, "sort");
    assert_eq!(request.command.args, Vec::<String>::new());
    assert_eq!(request.stdout, Stdout::Sink(PipeIo::File("out".to_string())));

    let owned: std::borrow::Cow<str> = std::borrow::Cow::Owned("wc -l".to_string());
    let borrowed: std::borrow::Cow<str> = std::borrow::Cow::Borrowed("wc -l");
    assert_eq!(owned.do_pipe(PipeIo::Inherit), borrowed.do_pipe(PipeIo::Inherit));
    assert_eq!(
        owned.end_pipe(PipeIo::Inherit, PipeIo::Inherit),
        "wc -l".end_pipe(PipeIo::Inherit, PipeIo::Inherit)
    );
}

#[test]
fn failure_names_the_file_or_the_program() {
    let cause = || OsError::new("denied");
    let request = "tee log"
        .end_pipe(PipeIo::File("in.txt".to_string()), PipeIo::File("out.txt".to_string()));
    assert_eq!(
        request.failure(SpawnFailure::Input(cause())),
        Error { name: "in.txt".to_string(), kind: ErrorKind::File(cause()) }
    );
    assert_eq!(
        request.failure(SpawnFailure::Output(cause())),
        Error { name: "out.txt".to_string(), kind: ErrorKind::File(cause()) }
    );
    assert_eq!(
        request.failure(SpawnFailure::Start(cause())),
        Error { name: "tee".to_string(), kind: ErrorKind::Spawn(cause()) }
    );

    let request = "tee log".do_pipe(PipeIo::Inherit);
    for failure in [SpawnFailure::Input(cause()), SpawnFailure::Output(cause())] {
        assert_eq!(
            request.failure(failure),
            Error { name: "tee".to_string(), kind: ErrorKind::Spawn(cause()) }
        );
    }
    let request = "tee".end_pipe(PipeIo::Child(ProcessHandle { id: 0 }), PipeIo::Inherit);
    for failure in [SpawnFailure::Input(cause()), SpawnFailure::Output(cause())] {
        assert_eq!(
            request.failure(failure),
            Error { name: "tee".to_string(), kind: ErrorKind::Spawn(cause()) }
        );
    }
}

#[test]
fn pipe_io_from_a_path_or_a_child() {
    assert_eq!(PipeIo::from("a/b.txt".to_string()), PipeIo::File("a/b.txt".to_string()));
    assert_eq!(PipeIo::from(ProcessHandle { id: 8 }), PipeIo::Child(ProcessHandle { id: 8 }));
    assert_eq!(PipeIo::File("x".to_string()).clone(), PipeIo::File("x".to_string()));
}

#[test]
fn pipe_is_runnable_when_every_stage_names_a_program() {
    assert!(Pipe::new(vec!["a".to_string()], PipeIo::Inherit).runnable());
    assert!(!Pipe::new(vec![], PipeIo::Inherit).runnable());
    assert!(!Pipe::new(vec!["a".to_string(), " \t".to_string()], PipeIo::Inherit).runnable());
    assert!(!Pipe::new(vec![String::new()], PipeIo::Inherit).runnable());
}
