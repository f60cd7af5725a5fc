//! Trees with values at their leaves: the mathematical model of the handles
//! of a run and of the statuses that come of joining them.

use vstd::prelude::*;

verus! {

/// A tree that is one value, or a sequence of trees in order.
pub enum Tree<T> {
    Leaf(T),
    List(Seq<Tree<T>>),
}

impl<T> Tree<T> {
    /// The values at the leaves, from left to right.
    pub open spec fn leaves(self) -> Seq<T>
        decreases self,
    {
        match self {
            Tree::Leaf(x) => seq![x],
            Tree::List(ts) => Self::leaves_of(ts),
        }
    }

    /// The leaves of the trees of `ts`, one tree after the other.
    pub open spec fn leaves_of(ts: Seq<Tree<T>>) -> Seq<T>
        decreases ts,
    {
        if ts.len() == 0 {
            Seq::empty()
        } else {
            Self::leaves_of(ts.drop_last()) + ts.last().leaves()
        }
    }

    /// Whether the two trees branch alike, whatever their leaves hold.
    pub open spec fn same_shape<U>(self, other: Tree<U>) -> bool
        decreases self,
    {
        match self {
            Tree::Leaf(_) => other is Leaf,
            Tree::List(ts) => {
                &&& other is List
                &&& ts.len() == other->List_0.len()
                &&& forall|i: int|
                    0 <= i < ts.len() ==> (#[trigger] ts[i]).same_shape(other->List_0[i])
            },
        }
    }

    /// The tree of the same shape whose leaves hold, from left to right,
    /// the first of `labels`, the second, and so on.
    pub open spec fn relabel<U>(self, labels: Seq<U>) -> Tree<U>
        decreases self,
    {
        match self {
            Tree::Leaf(_) => Tree::Leaf(labels[0]),
            Tree::List(ts) => Tree::List(Self::relabel_all(ts, labels)),
        }
    }

    /// The trees of `ts`, relabelled in one sweep from left to right.
    pub open spec fn relabel_all<U>(ts: Seq<Tree<T>>, labels: Seq<U>) -> Seq<Tree<U>>
        decreases ts,
    {
        if ts.len() == 0 {
            Seq::empty()
        } else {
            let before = Self::leaves_of(ts.drop_last()).len() as int;
            Self::relabel_all(ts.drop_last(), labels.take(before)).push(
                ts.last().relabel(labels.skip(before)),
            )
        }
    }

    /// The tree of the same shape in which each leaf `x` holds `f(x)`.
    pub open spec fn map<U>(self, f: spec_fn(T) -> U) -> Tree<U>
        decreases self,
    {
        match self {
            Tree::Leaf(x) => Tree::Leaf(f(x)),
            Tree::List(ts) => Tree::List(
                Seq::new(
                    ts.len(),
                    |i: int|
                        if 0 <= i < ts.len() {
                            ts[i].map(f)
                        } else {
                            arbitrary()
                        },
                ),
            ),
        }
    }

    /// The leaves of a row of trees with one more tree at its end.
    pub proof fn lemma_leaves_of_push(ts: Seq<Tree<T>>, t: Tree<T>)
        ensures
            Self::leaves_of(ts.push(t)) == Self::leaves_of(ts) + t.leaves(),
    {
        assert(ts.push(t).drop_last() == ts);
    }

    /// The leaves of the first `i + 1` trees are those of the first `i`,
    /// then those of the tree at `i`.
    pub proof fn lemma_leaves_of_take(ts: Seq<Tree<T>>, i: int)
        requires
            0 <= i < ts.len(),
        ensures
            Self::leaves_of(ts.take(i + 1)) == Self::leaves_of(ts.take(i)) + ts[i].leaves(),
    {
        assert(ts.take(i + 1).drop_last() == ts.take(i));
    }

    /// A row of single leaves has those leaves' values as its leaves.
    pub proof fn lemma_leaves_of_leaves(xs: Seq<T>)
        ensures
            Self::leaves_of(xs.map_values(|x: T| Tree::Leaf(x))) == xs,
        decreases xs.len(),
    {
        let ts = xs.map_values(|x: T| Tree::Leaf(x));
        if xs.len() > 0 {
            Self::lemma_leaves_of_leaves(xs.drop_last());
            assert(ts.drop_last() == xs.drop_last().map_values(|x: T| Tree::Leaf(x)));
            assert(ts.last().leaves() == seq![xs.last()]);
            assert(xs.drop_last() + seq![xs.last()] == xs);
        }
    }

    /// Relabelling a row of `n` trees gives `n` trees.
    pub proof fn lemma_relabel_all_len<U>(ts: Seq<Tree<T>>, labels: Seq<U>)
        ensures
            Self::relabel_all(ts, labels).len() == ts.len(),
        decreases ts,
    {
        if ts.len() > 0 {
            let before = Self::leaves_of(ts.drop_last()).len() as int;
            Self::lemma_relabel_all_len(ts.drop_last(), labels.take(before));
        }
    }

    /// Relabelling keeps the shape.
    pub proof fn lemma_relabel_same_shape<U>(self, labels: Seq<U>)
        ensures
            self.same_shape(self.relabel(labels)),
        decreases self,
    {
        match self {
            Tree::Leaf(_) => {},
            Tree::List(ts) => {
                Self::lemma_relabel_all_same_shape(ts, labels);
            },
        }
    }

    /// Relabelling a row keeps the shape of each of its trees.
    pub proof fn lemma_relabel_all_same_shape<U>(ts: Seq<Tree<T>>, labels: Seq<U>)
        ensures
            Self::relabel_all(ts, labels).len() == ts.len(),
            forall|i: int|
                0 <= i < ts.len() ==> (#[trigger] ts[i]).same_shape(
                    Self::relabel_all(ts, labels)[i],
                ),
        decreases ts,
    {
        Self::lemma_relabel_all_len(ts, labels);
        if ts.len() > 0 {
            let before = Self::leaves_of(ts.drop_last()).len() as int;
            let front = Self::relabel_all(ts.drop_last(), labels.take(before));
            Self::lemma_relabel_all_same_shape(ts.drop_last(), labels.take(before));
            ts.last().lemma_relabel_same_shape(labels.skip(before));
            assert forall|i: int| 0 <= i < ts.len() implies (#[trigger] ts[i]).same_shape(
                Self::relabel_all(ts, labels)[i],
            ) by {
                if i < ts.len() - 1 {
                    assert(ts[i] == ts.drop_last()[i]);
                    assert(Self::relabel_all(ts, labels)[i] == front[i]);
                }
            }
        }
    }

    /// With as many labels as leaves, the leaves of the relabelled tree are
    /// the labels, in order.
    pub proof fn lemma_relabel_leaves<U>(self, labels: Seq<U>)
        requires
            labels.len() == self.leaves().len(),
        ensures
            self.relabel(labels).leaves() == labels,
        decreases self,
    {
        match self {
            Tree::Leaf(_) => {
                assert(seq![labels[0]] == labels);
            },
            Tree::List(ts) => {
                Self::lemma_relabel_all_leaves(ts, labels);
            },
        }
    }

    /// With as many labels as leaves, the leaves of the relabelled row are
    /// the labels, in order.
    pub proof fn lemma_relabel_all_leaves<U>(ts: Seq<Tree<T>>, labels: Seq<U>)
        requires
            labels.len() == Self::leaves_of(ts).len(),
        ensures
            Tree::<U>::leaves_of(Self::relabel_all(ts, labels)) == labels,
        decreases ts,
    {
        if ts.len() == 0 {
            assert(labels == Seq::<U>::empty());
        } else {
            let before = Self::leaves_of(ts.drop_last()).len() as int;
            let front = Self::relabel_all(ts.drop_last(), labels.take(before));
            let back = ts.last().relabel(labels.skip(before));
            Self::lemma_relabel_all_leaves(ts.drop_last(), labels.take(before));
            ts.last().lemma_relabel_leaves(labels.skip(before));
            Tree::<U>::lemma_leaves_of_push(front, back);
            assert(labels.take(before) + labels.skip(before) == labels);
        }
    }

    /// Mapping a tree maps its leaves.
    pub proof fn lemma_map_leaves<U>(self, f: spec_fn(T) -> U)
        ensures
            self.map(f).leaves() == self.leaves().map_values(f),
        decreases self,
    {
        match self {
            Tree::Leaf(x) => {
                assert(seq![f(x)] == seq![x].map_values(f));
            },
            Tree::List(ts) => {
                Self::lemma_map_leaves_of(ts, f, ts.len() as int);
                assert(ts.take(ts.len() as int) == ts);
                let mapped = Seq::new(
                    ts.len(),
                    |i: int|
                        if 0 <= i < ts.len() {
                            ts[i].map(f)
                        } else {
                            arbitrary()
                        },
                );
                assert(mapped.take(ts.len() as int) == mapped);
                assert(self.map(f) == Tree::List(mapped)) by {
                    assert(self.map(f)->List_0 =~= mapped);
                }
            },
        }
    }

    /// Mapping each tree of the first `n` of a row maps the row's leaves.
    proof fn lemma_map_leaves_of<U>(ts: Seq<Tree<T>>, f: spec_fn(T) -> U, n: int)
        requires
            0 <= n <= ts.len(),
        ensures
            Tree::<U>::leaves_of(
                Seq::new(
                    ts.len(),
                    |i: int|
                        if 0 <= i < ts.len() {
                            ts[i].map(f)
                        } else {
                            arbitrary()
                        },
                ).take(n),
            ) == Self::leaves_of(ts.take(n)).map_values(f),
        decreases ts, n,
    {
        let mapped = Seq::new(
            ts.len(),
            |i: int|
                if 0 <= i < ts.len() {
                    ts[i].map(f)
                } else {
                    arbitrary()
                },
        );
        if n == 0 {
            assert(mapped.take(0) == Seq::<Tree<U>>::empty());
            assert(ts.take(0) == Seq::<Tree<T>>::empty());
            assert(Seq::<T>::empty().map_values(f) == Seq::<U>::empty());
        } else {
            Self::lemma_map_leaves_of(ts, f, n - 1);
            ts[n - 1].lemma_map_leaves(f);
            Self::lemma_leaves_of_take(ts, n - 1);
            Tree::<U>::lemma_leaves_of_take(mapped, n - 1);
            let a = Self::leaves_of(ts.take(n - 1));
            let b = ts[n - 1].leaves();
            assert((a + b).map_values(f) == a.map_values(f) + b.map_values(f));
        }
    }

    /// Relabelling a tree with its own leaves, each mapped by `f`, maps the
    /// tree by `f`.
    pub proof fn lemma_relabel_mapped<U>(self, f: spec_fn(T) -> U)
        ensures
            self.relabel(self.leaves().map_values(f)) == self.map(f),
        decreases self,
    {
        match self {
            Tree::Leaf(x) => {},
            Tree::List(ts) => {
                Self::lemma_relabel_all_mapped(ts, f);
                assert(self.map(f)->List_0 =~= Self::relabel_all(
                    ts,
                    Self::leaves_of(ts).map_values(f),
                ));
            },
        }
    }

    /// Relabelling a row with its own leaves, each mapped by `f`, maps each
    /// tree of the row by `f`.
    pub proof fn lemma_relabel_all_mapped<U>(ts: Seq<Tree<T>>, f: spec_fn(T) -> U)
        ensures
            Self::relabel_all(ts, Self::leaves_of(ts).map_values(f)).len() == ts.len(),
            forall|i: int|
                0 <= i < ts.len() ==> #[trigger] Self::relabel_all(
                    ts,
                    Self::leaves_of(ts).map_values(f),
                )[i] == ts[i].map(f),
        decreases ts,
    {
        let labels = Self::leaves_of(ts).map_values(f);
        Self::lemma_relabel_all_len(ts, labels);
        if ts.len() > 0 {
            let front = ts.drop_last();
            let before = Self::leaves_of(front).len() as int;
            assert(labels.take(before) == Self::leaves_of(front).map_values(f));
            assert(labels.skip(before) == ts.last().leaves().map_values(f));
            Self::lemma_relabel_all_mapped(front, f);
            ts.last().lemma_relabel_mapped(f);
            Self::lemma_relabel_all_len(front, labels.take(before));
            assert forall|i: int| 0 <= i < ts.len() implies #[trigger] Self::relabel_all(
                ts,
                labels,
            )[i] == ts[i].map(f) by {
                if i < ts.len() - 1 {
                    assert(ts[i] == front[i]);
                }
            }
        }
    }

    /// Two trees of the same shape with the same leaves are the same tree.
    pub proof fn lemma_shape_and_leaves(self, other: Tree<T>)
        requires
            self.same_shape(other),
            self.leaves() == other.leaves(),
        ensures
            self == other,
        decreases self,
    {
        match self {
            Tree::Leaf(x) => {
                assert(other.leaves()[0] == x);
            },
            Tree::List(ts) => {
                let us = other->List_0;
                Self::lemma_rows_shape_and_leaves(ts, us);
                assert(ts =~= us);
            },
        }
    }

    /// Two rows of trees of the same shapes with the same leaves are the
    /// same row.
    pub proof fn lemma_rows_shape_and_leaves(ts: Seq<Tree<T>>, us: Seq<Tree<T>>)
        requires
            ts.len() == us.len(),
            forall|i: int| 0 <= i < ts.len() ==> (#[trigger] ts[i]).same_shape(us[i]),
            Self::leaves_of(ts) == Self::leaves_of(us),
        ensures
            forall|i: int| 0 <= i < ts.len() ==> #[trigger] ts[i] == us[i],
        decreases ts,
    {
        if ts.len() > 0 {
            let n = ts.len() - 1;
            ts[n].lemma_same_shape_as_many_leaves(us[n]);
            let a = Self::leaves_of(ts.drop_last());
            let b = Self::leaves_of(us.drop_last());
            assert(a =~= (a + ts[n].leaves()).take(a.len() as int));
            assert(b =~= (b + us[n].leaves()).take(b.len() as int));
            assert(ts[n].leaves() =~= (a + ts[n].leaves()).skip(a.len() as int));
            assert(us[n].leaves() =~= (b + us[n].leaves()).skip(b.len() as int));
            assert forall|i: int| 0 <= i < n implies (#[trigger] ts.drop_last()[i]).same_shape(
                us.drop_last()[i],
            ) by {
                assert(ts.drop_last()[i] == ts[i]);
                assert(us.drop_last()[i] == us[i]);
            }
            Self::lemma_rows_shape_and_leaves(ts.drop_last(), us.drop_last());
            ts[n].lemma_shape_and_leaves(us[n]);
            assert forall|i: int| 0 <= i < ts.len() implies #[trigger] ts[i] == us[i] by {
                if i < n {
                    assert(ts.drop_last()[i] == ts[i]);
                    assert(us.drop_last()[i] == us[i]);
                }
            }
        }
    }

    /// Trees of the same shape have as many leaves.
    pub proof fn lemma_same_shape_as_many_leaves<U>(self, other: Tree<U>)
        requires
            self.same_shape(other),
        ensures
            self.leaves().len() == other.leaves().len(),
        decreases self,
    {
        match self {
            Tree::Leaf(_) => {},
            Tree::List(ts) => {
                Self::lemma_rows_as_many_leaves(ts, other->List_0);
            },
        }
    }

    /// Rows of trees of the same shapes have as many leaves.
    pub proof fn lemma_rows_as_many_leaves<U>(ts: Seq<Tree<T>>, us: Seq<Tree<U>>)
        requires
            ts.len() == us.len(),
            forall|i: int| 0 <= i < ts.len() ==> (#[trigger] ts[i]).same_shape(us[i]),
        ensures
            Self::leaves_of(ts).len() == Tree::<U>::leaves_of(us).len(),
        decreases ts,
    {
        if ts.len() > 0 {
            let n = ts.len() - 1;
            assert forall|i: int| 0 <= i < n implies (#[trigger] ts.drop_last()[i]).same_shape(
                us.drop_last()[i],
            ) by {
                assert(ts.drop_last()[i] == ts[i]);
                assert(us.drop_last()[i] == us[i]);
            }
            Self::lemma_rows_as_many_leaves(ts.drop_last(), us.drop_last());
            ts[n].lemma_same_shape_as_many_leaves(us[n]);
        }
    }

    /// Two trees that each have the shape of this tree have the same shape.
    pub proof fn lemma_same_shape_shared<U, V>(self, a: Tree<U>, b: Tree<V>)
        requires
            self.same_shape(a),
            self.same_shape(b),
        ensures
            a.same_shape(b),
        decreases self,
    {
        match self {
            Tree::Leaf(_) => {},
            Tree::List(ts) => {
                let left = a->List_0;
                let right = b->List_0;
                assert forall|i: int| 0 <= i < left.len() implies (#[trigger] left[i]).same_shape(
                    right[i],
                ) by {
                    ts[i].lemma_same_shape_shared(left[i], right[i]);
                }
            },
        }
    }
}

} // verus!
