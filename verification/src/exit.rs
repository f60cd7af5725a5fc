//! The end of the process as a value: what is written to the diagnostic
//! stream, and the exit code.

use crate::command_ext::ExitStatus;
use vstd::prelude::*;
use vstd::string::StringExecFns;

verus! {

/// The line that sets a failing status apart from what was printed before it.
pub const DIVIDER: &'static str = "--------------------------------------";

/// The end of the process: the lines to write to the diagnostic stream, in
/// order, and the code to exit with.
#[derive(Debug, PartialEq, Eq)]
pub struct Exit {
    pub code: i32,
    pub report: Vec<String>,
}

/// An [`Exit`] as plain values.
pub struct ExitView {
    pub code: i32,
    pub report: Seq<Seq<char>>,
}

impl View for Exit {
    type V = ExitView;

    open spec fn view(&self) -> ExitView {
        ExitView { code: self.code, report: self.report.deep_view() }
    }
}

/// `line` behind two spaces.
pub open spec fn indented(line: Seq<char>) -> Seq<char> {
    "  "@ + line
}

/// The report of an error whose messages, from the error itself down to its
/// innermost cause, are `chain`: the error's own message, then, where it has
/// a cause, an empty line, the heading `Caused by:` and each cause's message,
/// indented.
pub open spec fn error_report(chain: Seq<Seq<char>>) -> Seq<Seq<char>> {
    if chain.len() <= 1 {
        chain
    } else {
        seq![chain[0], Seq::empty(), "Caused by:"@] + Seq::new(
            (chain.len() - 1) as nat,
            |i: int| indented(chain[i + 1]),
        )
    }
}

impl ExitView {
    /// Leaving with code 0 and nothing to report.
    pub open spec fn success() -> ExitView {
        ExitView { code: 0, report: Seq::empty() }
    }

    /// Leaving because a child ended with `status`: an empty line, the
    /// divider and the status are reported, and the code is the child's, or
    /// 1 where it has none.
    pub open spec fn of_status(status: ExitStatus) -> ExitView {
        ExitView {
            code: match status.code {
                Some(code) => code,
                None => 1,
            },
            report: seq![Seq::empty(), DIVIDER@, status.description()],
        }
    }

    /// Leaving because of an error with the messages `chain`: its report is
    /// written and the code is 1.
    pub open spec fn of_error(chain: Seq<Seq<char>>) -> ExitView {
        ExitView { code: 1, report: error_report(chain) }
    }
}

/// Renders the report of an error from the messages of the error and its
/// causes, outermost first.
pub fn render_report(chain: &Vec<String>) -> (lines: Vec<String>)
    ensures
        lines.deep_view() == error_report(chain.deep_view()),
{
    let mut lines: Vec<String> = Vec::new();
    let n = chain.len();
    if n == 0 {
        assert(lines.deep_view() =~= error_report(chain.deep_view()));
        return lines;
    }
    lines.push(chain[0].clone());
    if n == 1 {
        assert(lines.deep_view() =~= error_report(chain.deep_view()));
        return lines;
    }
    lines.push(String::new());
    lines.push(String::from_str("Caused by:"));
    let ghost head = lines.deep_view();
    assert(head =~= seq![chain.deep_view()[0], Seq::empty(), "Caused by:"@]);
    let mut i: usize = 1;
    while i < n
        invariant
            n == chain.len(),
            1 <= i <= n,
            lines.deep_view() == head + Seq::new(
                (i - 1) as nat,
                |k: int| indented(chain.deep_view()[k + 1]),
            ),
        decreases n - i,
    {
        let line = String::from_str("  ").concat(chain[i].as_str());
        let ghost before = lines.deep_view();
        lines.push(line);
        assert(lines.deep_view() =~= before.push(line@));
        assert(lines.deep_view() =~= head + Seq::new(
            i as nat,
            |k: int| indented(chain.deep_view()[k + 1]),
        ));
        i = i + 1;
    }
    lines
}

impl Exit {
    /// Leaves with code 0 and nothing to report.
    pub fn success() -> (exit: Exit)
        ensures
            exit@ == ExitView::success(),
    {
        let exit = Exit { code: 0, report: Vec::new() };
        assert(exit.report.deep_view() =~= Seq::empty());
        exit
    }

    /// Leaves because a child ended with `status`.
    pub fn from_status(status: &ExitStatus) -> (exit: Exit)
        ensures
            exit@ == ExitView::of_status(*status),
    {
        let mut report: Vec<String> = Vec::new();
        report.push(String::new());
        report.push(String::from_str(DIVIDER));
        report.push(status.describe());
        assert(report.deep_view() =~= seq![Seq::empty(), DIVIDER@, status.description()]);
        let code = match status.code {
            Some(code) => code,
            None => 1,
        };
        Exit { code, report }
    }

    /// Leaves because of an error with the messages `chain`, from the error
    /// itself down to its innermost cause.
    pub fn from_error(chain: &Vec<String>) -> (exit: Exit)
        ensures
            exit@ == ExitView::of_error(chain.deep_view()),
    {
        Exit { code: 1, report: render_report(chain) }
    }
}

} // verus!
