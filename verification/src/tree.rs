//! The mathematical model of a directory tree and of its display rows.

use vstd::prelude::*;
use crate::lex::lemma_lex_common_prefix;
use crate::lex::lemma_lex_extension;
use crate::lex::lemma_lex_lt_transitive;
use crate::lex::lemma_lex_trichotomy;
use crate::tree_index::child_key;
use crate::tree_index::index_lt;

verus! {

/// A directory tree as a value: each node with its flags, texts and children.
pub ghost struct Tree {
    pub path: Seq<char>,
    pub is_dir: bool,
    pub is_err: bool,
    pub is_expanded: bool,
    pub children: Seq<Tree>,
    pub display_text: Seq<char>,
    pub icon: char,
}

impl Tree {
    /// Whether every step of `index` names an existing child.
    pub open spec fn has(self, index: Seq<usize>) -> bool
        decreases index.len(),
    {
        index.len() == 0 || (index[0] < self.children.len() && self.children[index[0] as int].has(
            index.drop_first(),
        ))
    }

    /// The node that `index` names.
    pub open spec fn at(self, index: Seq<usize>) -> Tree
        recommends
            self.has(index),
        decreases index.len(),
    {
        if index.len() == 0 {
            self
        } else {
            self.children[index[0] as int].at(index.drop_first())
        }
    }

    /// The node reached by following `index` leniently: a step that names
    /// no child is skipped.
    pub open spec fn locate(self, index: Seq<usize>) -> Tree
        decreases index.len(),
    {
        if index.len() == 0 {
            self
        } else if index[0] < self.children.len() {
            self.children[index[0] as int].locate(index.drop_first())
        } else {
            self.locate(index.drop_first())
        }
    }

    /// The steps of `index` that `locate` takes: those that name a child.
    pub open spec fn settle(self, index: Seq<usize>) -> Seq<usize>
        decreases index.len(),
    {
        if index.len() == 0 {
            Seq::empty()
        } else if index[0] < self.children.len() {
            seq![index[0]] + self.children[index[0] as int].settle(index.drop_first())
        } else {
            self.settle(index.drop_first())
        }
    }

    /// This tree with the node that `locate` reaches replaced by `sub`.
    pub open spec fn with_located(self, index: Seq<usize>, sub: Tree) -> Tree
        decreases index.len(),
    {
        if index.len() == 0 {
            sub
        } else if index[0] < self.children.len() {
            Tree {
                children: self.children.update(
                    index[0] as int,
                    self.children[index[0] as int].with_located(index.drop_first(), sub),
                ),
                ..self
            }
        } else {
            self.with_located(index.drop_first(), sub)
        }
    }

    /// This tree with the node that `index` names replaced by `sub`.
    pub open spec fn with_at(self, index: Seq<usize>, sub: Tree) -> Tree
        recommends
            self.has(index),
        decreases index.len(),
    {
        if index.len() == 0 {
            sub
        } else {
            Tree {
                children: self.children.update(
                    index[0] as int,
                    self.children[index[0] as int].with_at(index.drop_first(), sub),
                ),
                ..self
            }
        }
    }

    /// This node collapsed: not expanded, without children.
    pub open spec fn collapsed(self) -> Tree {
        Tree { is_expanded: false, children: Seq::empty(), ..self }
    }

    /// The display rows under the first `n` children, top to bottom, each
    /// as the tree index of its node. A node's row comes before the rows of
    /// its children. Child numbers are machine integers; children beyond
    /// their range have no rows.
    pub open spec fn rows_upto(self, n: nat) -> Seq<Seq<usize>>
        decreases self, n,
    {
        if n == 0 || n > self.children.len() || n - 1 > usize::MAX {
            Seq::empty()
        } else {
            let i = (n - 1) as usize;
            self.rows_upto((n - 1) as nat) + seq![seq![i]] + self.children[i as int].rows().map_values(
                |row: Seq<usize>| seq![i] + row,
            )
        }
    }

    /// The display rows of this tree: every node below the root, in display
    /// order, as its tree index.
    pub open spec fn rows(self) -> Seq<Seq<usize>>
        decreases self, self.children.len() + 1,
    {
        self.rows_upto(self.children.len())
    }

    /// The tree index shown in row `flat_index`; the root's where there is
    /// no such row.
    pub open spec fn row_index(self, flat_index: nat) -> Seq<usize> {
        if flat_index < self.rows().len() {
            self.rows()[flat_index as int]
        } else {
            Seq::empty()
        }
    }
}

/// How many of `rows`, each read below `prefix`, come strictly before
/// `target` in display order.
pub open spec fn rows_before(rows: Seq<Seq<usize>>, prefix: Seq<usize>, target: Seq<usize>) -> nat
    decreases rows.len(),
{
    if rows.len() == 0 {
        0
    } else {
        rows_before(rows.drop_last(), prefix, target) + if index_lt(prefix + rows.last(), target) {
            1nat
        } else {
            0nat
        }
    }
}

impl Tree {
    /// The rows under the first `n` children are the first rows under the
    /// first `m`, for `n <= m`.
    pub proof fn lemma_rows_upto_prefix(self, n: nat, m: nat)
        requires
            n <= m <= self.children.len(),
            m <= usize::MAX + 1,
        ensures
            self.rows_upto(n).len() <= self.rows_upto(m).len(),
            self.rows_upto(n) == self.rows_upto(m).take(self.rows_upto(n).len() as int),
        decreases m,
    {
        if n == m {
            assert(self.rows_upto(n) =~= self.rows_upto(m).take(self.rows_upto(n).len() as int));
        } else {
            self.lemma_rows_upto_prefix(n, (m - 1) as nat);
            assert(self.rows_upto(n) =~= self.rows_upto(m).take(self.rows_upto(n).len() as int));
        }
    }

    /// Every row under the first `n` children names a node of the tree.
    pub proof fn lemma_rows_upto_valid(self, n: nat)
        requires
            n <= self.children.len(),
        ensures
            forall|k: int|
                0 <= k < self.rows_upto(n).len() ==> self.has(#[trigger] self.rows_upto(n)[k]),
        decreases self, n,
    {
        if n > 0 && n - 1 <= usize::MAX {
            let i = (n - 1) as usize;
            let head = self.rows_upto((n - 1) as nat);
            let child = self.children[i as int];
            self.lemma_rows_upto_valid((n - 1) as nat);
            child.lemma_rows_valid();
            assert forall|k: int| 0 <= k < self.rows_upto(n).len() implies self.has(
                #[trigger] self.rows_upto(n)[k],
            ) by {
                let row = self.rows_upto(n)[k];
                if k < head.len() {
                    assert(row == head[k]);
                    assert(self.has(row));
                } else if k == head.len() {
                    assert(row == seq![i]);
                    assert(row.drop_first() =~= Seq::<usize>::empty());
                    assert(child.has(Seq::<usize>::empty()));
                    assert(self.has(row));
                } else {
                    let below = child.rows()[k - head.len() - 1];
                    assert(row == seq![i] + below);
                    assert(row.drop_first() =~= below);
                    assert(child.has(below));
                    assert(self.has(row));
                }
            }
        }
    }

    /// Following an index that names a node leniently leads to that node.
    pub proof fn lemma_locate_valid(self, index: Seq<usize>)
        requires
            self.has(index),
        ensures
            self.locate(index) == self.at(index),
            self.settle(index) == index,
        decreases index.len(),
    {
        if index.len() > 0 {
            self.children[index[0] as int].lemma_locate_valid(index.drop_first());
            assert(seq![index[0]] + index.drop_first() =~= index);
        }
    }

    /// Every display row names a node of the tree.
    pub proof fn lemma_rows_valid(self)
        ensures
            forall|k: int| 0 <= k < self.rows().len() ==> self.has(#[trigger] self.rows()[k]),
            forall|flat_index: nat| self.has(#[trigger] self.row_index(flat_index)),
        decreases self, self.children.len() + 1,
    {
        self.lemma_rows_upto_valid(self.children.len());
        assert(self.rows() == self.rows_upto(self.children.len()));
        assert(self.has(Seq::<usize>::empty()));
    }
}

/// Counting rows before a target goes part by part.
pub proof fn lemma_rows_before_concat(
    a: Seq<Seq<usize>>,
    b: Seq<Seq<usize>>,
    prefix: Seq<usize>,
    target: Seq<usize>,
)
    ensures
        rows_before(a + b, prefix, target) == rows_before(a, prefix, target) + rows_before(
            b,
            prefix,
            target,
        ),
    decreases b.len(),
{
    if b.len() == 0 {
        assert(a + b =~= a);
    } else {
        assert((a + b).drop_last() =~= a + b.drop_last());
        assert((a + b).last() == b.last());
        lemma_rows_before_concat(a, b.drop_last(), prefix, target);
    }
}

/// Rows below child `i` count as rows read below the prefix extended by `i`.
pub proof fn lemma_rows_before_child(
    rows: Seq<Seq<usize>>,
    i: usize,
    prefix: Seq<usize>,
    target: Seq<usize>,
)
    ensures
        rows_before(rows.map_values(|row: Seq<usize>| seq![i] + row), prefix, target)
            == rows_before(rows, prefix.push(i), target),
    decreases rows.len(),
{
    let lifted = rows.map_values(|row: Seq<usize>| seq![i] + row);
    if rows.len() > 0 {
        assert(lifted.drop_last() =~= rows.drop_last().map_values(|row: Seq<usize>| seq![i] + row));
        assert(prefix + lifted.last() =~= prefix.push(i) + rows.last());
        lemma_rows_before_child(rows.drop_last(), i, prefix, target);
    }
}

/// No more rows come before a target than there are rows, and none does
/// when the prefix itself does not come before the target.
pub proof fn lemma_rows_before_bounds(rows: Seq<Seq<usize>>, prefix: Seq<usize>, target: Seq<usize>)
    ensures
        rows_before(rows, prefix, target) <= rows.len(),
        !index_lt(prefix, target) ==> rows_before(rows, prefix, target) == 0,
    decreases rows.len(),
{
    if rows.len() > 0 {
        lemma_rows_before_bounds(rows.drop_last(), prefix, target);
        lemma_lex_extension(prefix, rows.last(), target, child_key());
    }
}

/// Whether each of `rows` comes strictly before the next in display
/// order.
pub open spec fn rows_ascend(rows: Seq<Seq<usize>>) -> bool {
    forall|i: int, j: int| 0 <= i < j < rows.len() ==> index_lt(#[trigger] rows[i], #[trigger] rows[j])
}

impl Tree {
    /// The rows under the first `n` children name a child below `n` first
    /// and come in ascending display order.
    pub proof fn lemma_rows_upto_ascend(self, n: nat)
        requires
            n <= self.children.len(),
        ensures
            rows_ascend(self.rows_upto(n)),
            forall|k: int|
                0 <= k < self.rows_upto(n).len() ==> (#[trigger] self.rows_upto(n)[k]).len() > 0
                    && self.rows_upto(n)[k][0] < n,
        decreases self, n,
    {
        if n > 0 && n - 1 <= usize::MAX {
            let i = (n - 1) as usize;
            let head = self.rows_upto((n - 1) as nat);
            let child = self.children[i as int];
            let lifted = child.rows().map_values(|row: Seq<usize>| seq![i] + row);
            let all = self.rows_upto(n);
            self.lemma_rows_upto_ascend((n - 1) as nat);
            child.lemma_rows_ascend();
            assert(all == head + seq![seq![i]] + lifted);
            assert forall|k: int| 0 <= k < all.len() implies (#[trigger] all[k]).len() > 0 && all[k][0]
                < n by {
                if k < head.len() {
                    assert(all[k] == head[k]);
                } else if k > head.len() {
                    assert(all[k] == seq![i] + child.rows()[k - head.len() - 1]);
                }
            }
            assert forall|a: int, b: int| 0 <= a < b < all.len() implies index_lt(
                #[trigger] all[a],
                #[trigger] all[b],
            ) by {
                if b < head.len() {
                    assert(all[a] == head[a] && all[b] == head[b]);
                } else if a < head.len() {
                    // A row of an earlier child comes before every row of this one.
                    assert(all[a] == head[a]);
                    assert(all[a][0] < i);
                    assert(all[b][0] == i) by {
                        if b > head.len() {
                            assert(all[b] == seq![i] + child.rows()[b - head.len() - 1]);
                        }
                    }
                } else if a == head.len() {
                    let below = child.rows()[b - head.len() - 1];
                    assert(all[a] == seq![i]);
                    assert(all[b] == seq![i] + below);
                    lemma_lex_extension(seq![i], below, Seq::<usize>::empty(), child_key());
                } else {
                    let first = child.rows()[a - head.len() - 1];
                    let second = child.rows()[b - head.len() - 1];
                    assert(all[a] == seq![i] + first);
                    assert(all[b] == seq![i] + second);
                    assert(index_lt(first, second));
                    lemma_lex_common_prefix(seq![i], first, second, child_key());
                }
            }
        }
    }

    /// The display rows come in ascending display order: a node before
    /// what is below it, and before its later siblings.
    pub proof fn lemma_rows_ascend(self)
        ensures
            rows_ascend(self.rows()),
            forall|k: int| 0 <= k < self.rows().len() ==> (#[trigger] self.rows()[k]).len() > 0,
        decreases self, self.children.len() + 1,
    {
        if self.children.len() <= usize::MAX + 1 {
            self.lemma_rows_upto_ascend(self.children.len());
        }
        assert(self.rows() == self.rows_upto(self.children.len()));
    }

    /// Rows and tree indices turn into each other: the row of the tree
    /// index shown in row `k` is `k`.
    pub proof fn law_row_round_trip(self, k: int)
        requires
            0 <= k < self.rows().len(),
        ensures
            rows_before(self.rows(), Seq::empty(), self.row_index(k as nat)) == k,
    {
        self.lemma_rows_ascend();
        lemma_rows_before_ascending(self.rows(), k);
    }
}

/// Of rows in ascending order, as many come before the row at `k` as `k`
/// says; and all come before a target that the last one comes before.
pub proof fn lemma_rows_before_ascending(rows: Seq<Seq<usize>>, k: int)
    requires
        rows_ascend(rows),
        0 <= k <= rows.len(),
    ensures
        k < rows.len() ==> rows_before(rows, Seq::empty(), rows[k]) == k,
        forall|target: Seq<usize>|
            k == rows.len() && (rows.len() > 0 ==> index_lt(rows.last(), target))
                ==> #[trigger] rows_before(rows, Seq::empty(), target) == rows.len(),
    decreases rows.len(),
{
    if rows.len() > 0 {
        let shorter = rows.drop_last();
        let last = rows.last();
        assert(Seq::<usize>::empty() + last =~= last);
        assert forall|i: int, j: int| 0 <= i < j < shorter.len() implies index_lt(
            #[trigger] shorter[i],
            #[trigger] shorter[j],
        ) by {
            assert(shorter[i] == rows[i] && shorter[j] == rows[j]);
        }
        if k < rows.len() - 1 {
            lemma_rows_before_ascending(shorter, k);
            assert(shorter[k] == rows[k]);
            assert(index_lt(rows[k], last));
            lemma_lex_trichotomy(rows[k], last, child_key());
        } else if k == rows.len() - 1 {
            lemma_rows_before_ascending(shorter, shorter.len() as int);
            if shorter.len() > 0 {
                assert(shorter.last() == rows[rows.len() - 2]);
                assert(index_lt(shorter.last(), last));
            }
            lemma_lex_trichotomy(last, last, child_key());
            assert(rows_before(shorter, Seq::empty(), last) == shorter.len());
        } else {
            lemma_rows_before_ascending(shorter, shorter.len() as int);
            assert forall|target: Seq<usize>| index_lt(last, target) implies #[trigger] rows_before(
                rows,
                Seq::empty(),
                target,
            ) == rows.len() by {
                if shorter.len() > 0 {
                    assert(shorter.last() == rows[rows.len() - 2]);
                    lemma_lex_lt_transitive(shorter.last(), last, target, child_key());
                }
                assert(rows_before(shorter, Seq::empty(), target) == shorter.len());
            }
        }
    }
}

} // verus!
