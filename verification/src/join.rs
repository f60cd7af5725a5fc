//! The handles of the processes of a run, and the statuses they end with.

use crate::command_ext::ExitStatus;
use crate::exit::{Exit, ExitView};
use crate::tree::Tree;
use vstd::prelude::*;

verus! {

/// Stands for one child process that was started and not yet waited for.
/// Whoever starts the processes hands the handles out and finds the process
/// again by `id`.
#[derive(Clone, Copy, Debug, PartialEq, Eq, Hash, Structural)]
pub struct ProcessHandle {
    pub id: u64,
}

/// The handles of one run: one process, or handles in the order in which
/// their processes were started.
#[derive(Debug, PartialEq, Eq)]
#[must_use]
pub enum JoinHandle {
    Cmd(ProcessHandle),
    Multiple(Vec<JoinHandle>),
}

impl JoinHandle {
    /// The tree of handles that this value stands for.
    pub open spec fn tree(self) -> Tree<ProcessHandle>
        decreases self,
    {
        match self {
            JoinHandle::Cmd(handle) => Tree::Leaf(handle),
            JoinHandle::Multiple(handles) => Tree::List(
                Seq::new(
                    handles@.len(),
                    |i: int|
                        if 0 <= i < handles@.len() {
                            handles@[i].tree()
                        } else {
                            arbitrary()
                        },
                ),
            ),
        }
    }
}

impl View for JoinHandle {
    type V = Tree<ProcessHandle>;

    open spec fn view(&self) -> Tree<ProcessHandle> {
        self.tree()
    }
}

/// The statuses that came of joining a [`JoinHandle`], in the same shape.
#[derive(Debug, PartialEq, Eq)]
#[must_use]
pub enum Joined {
    Cmd(ExitStatus),
    Multiple(Vec<Joined>),
}

impl Joined {
    /// The tree of statuses that this value stands for.
    pub open spec fn tree(self) -> Tree<ExitStatus>
        decreases self,
    {
        match self {
            Joined::Cmd(status) => Tree::Leaf(status),
            Joined::Multiple(joined) => Tree::List(
                Seq::new(
                    joined@.len(),
                    |i: int|
                        if 0 <= i < joined@.len() {
                            joined@[i].tree()
                        } else {
                            arbitrary()
                        },
                ),
            ),
        }
    }
}

impl View for Joined {
    type V = Tree<ExitStatus>;

    open spec fn view(&self) -> Tree<ExitStatus> {
        self.tree()
    }
}

/// The trees that the handles of `handles` stand for.
pub open spec fn handle_trees(handles: Seq<JoinHandle>) -> Seq<Tree<ProcessHandle>> {
    handles.map_values(|handle: JoinHandle| handle@)
}

/// The trees that the results of `joined` stand for.
pub open spec fn status_trees(joined: Seq<Joined>) -> Seq<Tree<ExitStatus>> {
    joined.map_values(|joined: Joined| joined@)
}

/// Whether every status of `statuses` is a success.
pub open spec fn all_success(statuses: Seq<ExitStatus>) -> bool {
    forall|i: int| 0 <= i < statuses.len() ==> (#[trigger] statuses[i]).spec_success()
}

/// The first status of `statuses`, from the left, that is no success.
pub open spec fn first_failure(statuses: Seq<ExitStatus>) -> Option<ExitStatus>
    decreases statuses.len(),
{
    if statuses.len() == 0 {
        None
    } else if !statuses[0].spec_success() {
        Some(statuses[0])
    } else {
        first_failure(statuses.drop_first())
    }
}

/// The first failure of two rows of statuses, one after the other, is that
/// of the first row, or else that of the second.
pub proof fn lemma_first_failure_concat(a: Seq<ExitStatus>, b: Seq<ExitStatus>)
    ensures
        first_failure(a + b) == if first_failure(a) is Some {
            first_failure(a)
        } else {
            first_failure(b)
        },
    decreases a.len(),
{
    if a.len() == 0 {
        assert(a + b == b);
    } else {
        assert((a + b)[0] == a[0]);
        assert((a + b).drop_first() == a.drop_first() + b);
        lemma_first_failure_concat(a.drop_first(), b);
    }
}

/// The status at `i` is the first failure when it is no success and every
/// status before it is one.
pub proof fn lemma_first_failure_at(statuses: Seq<ExitStatus>, i: int)
    requires
        0 <= i < statuses.len(),
        !statuses[i].spec_success(),
        forall|j: int| 0 <= j < i ==> (#[trigger] statuses[j]).spec_success(),
    ensures
        first_failure(statuses) == Some(statuses[i]),
    decreases i,
{
    if i > 0 {
        let rest = statuses.drop_first();
        assert(statuses[0].spec_success());
        assert forall|j: int| 0 <= j < i - 1 implies (#[trigger] rest[j]).spec_success() by {
            assert(rest[j] == statuses[j + 1]);
        }
        assert(rest[i - 1] == statuses[i]);
        lemma_first_failure_at(rest, i - 1);
    }
}

/// There is no first failure exactly when every status is a success.
pub proof fn lemma_first_failure_none(statuses: Seq<ExitStatus>)
    ensures
        first_failure(statuses) is None <==> all_success(statuses),
        first_failure(statuses) is Some ==> !first_failure(statuses)->Some_0.spec_success(),
    decreases statuses.len(),
{
    if statuses.len() > 0 {
        let rest = statuses.drop_first();
        lemma_first_failure_none(rest);
        if statuses[0].spec_success() {
            if all_success(rest) {
                assert forall|i: int| 0 <= i < statuses.len() implies (
                #[trigger] statuses[i]).spec_success() by {
                    if i > 0 {
                        assert(statuses[i] == rest[i - 1]);
                    }
                }
            } else {
                let i = choose|i: int| 0 <= i < rest.len() && !(#[trigger] rest[i]).spec_success();
                assert(statuses[i + 1] == rest[i]);
            }
        }
    }
}

impl JoinHandle {
    /// What a row of handles stands for is the row of what each stands
    /// for.
    pub proof fn lemma_view_multiple(handles: Vec<JoinHandle>)
        ensures
            JoinHandle::Multiple(handles)@ == Tree::List(handle_trees(handles@)),
    {
        assert(JoinHandle::Multiple(handles)@->List_0 =~= handle_trees(handles@));
    }

    /// Appends the handles at the leaves, from left to right, to `out`.
    #[verifier::loop_isolation(false)]
    fn collect(&self, out: &mut Vec<ProcessHandle>)
        ensures
            final(out)@ == old(out)@ + self@.leaves(),
        decreases self,
    {
        match self {
            JoinHandle::Cmd(handle) => {
                out.push(*handle);
            },
            JoinHandle::Multiple(handles) => {
                proof {
                    Self::lemma_view_multiple(*handles);
                }
                let ghost trees = handle_trees(handles@);
                let n = handles.len();
                let mut i: usize = 0;
                assert(trees.take(0) == Seq::<Tree<ProcessHandle>>::empty());
                while i < n
                    invariant
                        n == handles.len(),
                        i <= n,
                        trees == handle_trees(handles@),
                        out@ == old(out)@ + Tree::leaves_of(trees.take(i as int)),
                    decreases n - i,
                {
                    proof {
                        Tree::lemma_leaves_of_take(trees, i as int);
                    }
                    assert(decreases_to!(*handles => handles[i as int]));
                    handles[i].collect(out);
                    i = i + 1;
                }
                assert(trees.take(n as int) == trees);
            },
        }
    }

    /// The handles at the leaves, from left to right.
    pub fn leaves(&self) -> (handles: Vec<ProcessHandle>)
        ensures
            handles@ == self@.leaves(),
    {
        let mut handles: Vec<ProcessHandle> = Vec::new();
        self.collect(&mut handles);
        handles
    }

    /// Gives the run up: returns every handle of the tree, from left to
    /// right, for its process to be killed. Whether a kill takes effect is
    /// of no account; a process that has already ended is no error.
    pub fn cancel(self) -> (kill: Vec<ProcessHandle>)
        ensures
            kill@ == self@.leaves(),
    {
        self.leaves()
    }

    /// The results of the same shape as this tree whose leaves hold, from
    /// left to right, the statuses from `start` on; and the position behind
    /// the last status taken.
    #[verifier::loop_isolation(false)]
    pub(crate) fn fill(&self, statuses: &Vec<ExitStatus>, start: usize) -> (filled: (Joined, usize))
        requires
            start + self@.leaves().len() <= statuses.len(),
        ensures
            filled.1 == start + self@.leaves().len(),
            filled.0@ == self@.relabel(statuses@.subrange(start as int, filled.1 as int)),
        decreases self,
    {
        match self {
            JoinHandle::Cmd(_) => {
                (Joined::Cmd(statuses[start]), start + 1)
            },
            JoinHandle::Multiple(handles) => {
                proof {
                    Self::lemma_view_multiple(*handles);
                }
                let ghost trees = handle_trees(handles@);
                let n = handles.len();
                let mut built: Vec<Joined> = Vec::new();
                let mut at: usize = start;
                let mut i: usize = 0;
                assert(trees.take(0) == Seq::<Tree<ProcessHandle>>::empty());
                assert(trees.take(n as int) == trees);
                assert(status_trees(built@) =~= Seq::<Tree<ExitStatus>>::empty());
                while i < n
                    invariant
                        n == handles.len(),
                        i <= n,
                        trees == handle_trees(handles@),
                        start + Tree::leaves_of(trees).len() <= statuses.len(),
                        at == start + Tree::leaves_of(trees.take(i as int)).len(),
                        at <= start + Tree::leaves_of(trees).len(),
                        status_trees(built@) == Tree::relabel_all(
                            trees.take(i as int),
                            statuses@.subrange(start as int, at as int),
                        ),
                    decreases n - i,
                {
                    proof {
                        Tree::lemma_leaves_of_take(trees, i as int);
                        lemma_leaves_of_prefix(trees, i + 1);
                    }
                    let ghost before = status_trees(built@);
                    assert(decreases_to!(*handles => handles[i as int]));
                    let (child, next) = handles[i].fill(statuses, at);
                    built.push(child);
                    proof {
                        let labels = statuses@.subrange(start as int, next as int);
                        let count = Tree::leaves_of(trees.take(i as int)).len() as int;
                        assert(trees.take(i + 1).drop_last() == trees.take(i as int));
                        assert(labels.take(count) == statuses@.subrange(start as int, at as int));
                        assert(labels.skip(count) == statuses@.subrange(at as int, next as int));
                        assert(status_trees(built@) =~= before.push(child@));
                    }
                    at = next;
                    i = i + 1;
                }
                let joined = Joined::Multiple(built);
                proof {
                    Joined::lemma_view_multiple(built);
                }
                (joined, at)
            },
        }
    }
}

/// The leaves of the first `n` trees of a row are no more than those of
/// the whole row.
pub proof fn lemma_leaves_of_prefix<T>(trees: Seq<Tree<T>>, n: int)
    requires
        0 <= n <= trees.len(),
    ensures
        Tree::leaves_of(trees.take(n)).len() <= Tree::leaves_of(trees).len(),
    decreases trees.len() - n,
{
    if n < trees.len() {
        Tree::lemma_leaves_of_take(trees, n);
        lemma_leaves_of_prefix(trees, n + 1);
    } else {
        assert(trees.take(n) == trees);
    }
}

impl Joined {
    /// What a row of results stands for is the row of what each stands
    /// for.
    pub proof fn lemma_view_multiple(joined: Vec<Joined>)
        ensures
            Joined::Multiple(joined)@ == Tree::List(status_trees(joined@)),
    {
        assert(Joined::Multiple(joined)@->List_0 =~= status_trees(joined@));
    }

    /// The first status, from left to right, that is no success.
    #[verifier::loop_isolation(false)]
    pub fn first_failure(&self) -> (failure: Option<ExitStatus>)
        ensures
            failure == first_failure(self@.leaves()),
        decreases self,
    {
        match self {
            Joined::Cmd(status) => {
                proof {
                    reveal_with_fuel(first_failure, 2);
                }
                if status.success() {
                    None
                } else {
                    Some(*status)
                }
            },
            Joined::Multiple(joined) => {
                proof {
                    Self::lemma_view_multiple(*joined);
                }
                let ghost trees = status_trees(joined@);
                let n = joined.len();
                let mut i: usize = 0;
                assert(trees.take(0) == Seq::<Tree<ExitStatus>>::empty());
                assert(trees.take(n as int) == trees);
                while i < n
                    invariant
                        n == joined.len(),
                        i <= n,
                        trees == status_trees(joined@),
                        first_failure(Tree::leaves_of(trees.take(i as int))) is None,
                    decreases n - i,
                {
                    proof {
                        Tree::lemma_leaves_of_take(trees, i as int);
                        lemma_first_failure_concat(
                            Tree::leaves_of(trees.take(i as int)),
                            trees[i as int].leaves(),
                        );
                    }
                    assert(decreases_to!(*joined => joined[i as int]));
                    let found = joined[i].first_failure();
                    if found.is_some() {
                        proof {
                            lemma_first_failure_rest(trees, i as int + 1);
                        }
                        return found;
                    }
                    i = i + 1;
                }
                None
            },
        }
    }

    /// Whether every process succeeded, whatever the shape of the tree.
    pub fn success(&self) -> (ok: bool)
        ensures
            ok == all_success(self@.leaves()),
    {
        proof {
            lemma_first_failure_none(self@.leaves());
        }
        self.first_failure().is_none()
    }

    /// The end of the process where a child failed: with the first status,
    /// from left to right, that is no success. Where every child
    /// succeeded, the process goes on.
    pub fn exit_on_err(self) -> (flow: Result<(), Exit>)
        ensures
            match first_failure(self@.leaves()) {
                Some(status) => flow is Err && flow->Err_0@ == ExitView::of_status(status),
                None => flow is Ok,
            },
    {
        match self.first_failure() {
            Some(status) => Err(Exit::from_status(&status)),
            None => Ok(()),
        }
    }
}

/// A failure among the first `n` trees of a row is the row's first failure.
pub proof fn lemma_first_failure_rest(trees: Seq<Tree<ExitStatus>>, n: int)
    requires
        0 <= n <= trees.len(),
        first_failure(Tree::leaves_of(trees.take(n))) is Some,
    ensures
        first_failure(Tree::leaves_of(trees)) == first_failure(Tree::leaves_of(trees.take(n))),
    decreases trees.len() - n,
{
    if n < trees.len() {
        Tree::lemma_leaves_of_take(trees, n);
        lemma_first_failure_concat(Tree::leaves_of(trees.take(n)), trees[n].leaves());
        lemma_first_failure_rest(trees, n + 1);
    } else {
        assert(trees.take(n) == trees);
    }
}

} // verus!
