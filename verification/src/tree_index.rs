//! The position of a node in a tree: the child numbers on the way down from
//! the root.

use std::cmp::Ordering;
use vstd::prelude::*;
use crate::lex::lex_lt;

verus! {

/// The key by which child numbers are ordered: the number itself.
pub open spec fn child_key() -> spec_fn(usize) -> int {
    |i: usize| i as int
}

/// Whether tree index `a` comes strictly before `b` in display order.
pub open spec fn index_lt(a: Seq<usize>, b: Seq<usize>) -> bool {
    lex_lt(a, b, child_key())
}

/// Child numbers from the root down. The empty index is the root itself.
#[derive(Debug)]
pub struct TreeIndex {
    pub index: Vec<usize>,
}

impl View for TreeIndex {
    type V = Seq<usize>;

    open spec fn view(&self) -> Seq<usize> {
        self.index@
    }
}

impl Clone for TreeIndex {
    fn clone(&self) -> (copy: TreeIndex)
        ensures
            copy@ == self@,
    {
        TreeIndex { index: self.index.clone() }
    }
}

impl TreeIndex {
    /// The index of the root.
    pub fn new() -> (root: TreeIndex)
        ensures
            root@ == Seq::<usize>::empty(),
    {
        TreeIndex { index: Vec::new() }
    }

    /// The index made of the given child numbers.
    pub fn from(index: Vec<usize>) -> (tree_index: TreeIndex)
        ensures
            tree_index@ == index@,
    {
        TreeIndex { index }
    }

    /// The index of the parent; the root is its own parent.
    pub fn get_parent(&self) -> (parent: TreeIndex)
        ensures
            parent@ == if self@.len() == 0 {
                self@
            } else {
                self@.drop_last()
            },
    {
        let mut index = self.index.clone();
        index.pop();
        TreeIndex { index }
    }

    /// Whether this is the index of the root.
    pub fn is_root(&self) -> (root: bool)
        ensures
            root == (self@.len() == 0),
    {
        self.index.len() == 0
    }

    /// The place of `self` relative to `other` in display order: 0 when
    /// `self` comes first, 2 when `other` does, 1 when they are the same.
    pub fn rank(&self, other: &TreeIndex) -> (place: u8)
        ensures
            place <= 2,
            (place == 0) == index_lt(self@, other@),
            (place == 2) == index_lt(other@, self@),
            (place == 1) == (self@ == other@),
    {
        let mut i: usize = 0;
        proof {
            assert(self@.skip(0) =~= self@);
            assert(other@.skip(0) =~= other@);
        }
        while i < self.index.len() && i < other.index.len()
            invariant
                i <= self@.len(),
                i <= other@.len(),
                self@.take(i as int) == other@.take(i as int),
                index_lt(self@, other@) == index_lt(self@.skip(i as int), other@.skip(i as int)),
                index_lt(other@, self@) == index_lt(other@.skip(i as int), self@.skip(i as int)),
            decreases self@.len() - i,
        {
            let a = self.index[i];
            let b = other.index[i];
            proof {
                assert(self@.skip(i as int)[0] == a);
                assert(other@.skip(i as int)[0] == b);
                assert(self@.skip(i as int).drop_first() =~= self@.skip(i + 1));
                assert(other@.skip(i as int).drop_first() =~= other@.skip(i + 1));
            }
            if a < b {
                assert(self@[i as int] != other@[i as int]);
                return 0;
            } else if a > b {
                assert(self@[i as int] != other@[i as int]);
                return 2;
            }
            proof {
                assert(self@.take(i + 1) =~= self@.take(i as int).push(a));
                assert(other@.take(i + 1) =~= other@.take(i as int).push(b));
            }
            i += 1;
        }
        proof {
            if self@.len() == other@.len() {
                assert(self@.take(i as int) =~= self@);
                assert(other@.take(i as int) =~= other@);
            }
        }
        if self.index.len() < other.index.len() {
            0
        } else if self.index.len() > other.index.len() {
            2
        } else {
            1
        }
    }

    /// Compares two indices in display order: `Less` when `self` comes
    /// first, `Greater` when `other` does, `Equal` when they are the same.
    pub fn compare(&self, other: &TreeIndex) -> (order: Ordering)
        ensures
            (order == Ordering::Less) == index_lt(self@, other@),
            (order == Ordering::Greater) == index_lt(other@, self@),
            (order == Ordering::Equal) == (self@ == other@),
    {
        let place = self.rank(other);
        if place == 0 {
            Ordering::Less
        } else if place == 2 {
            Ordering::Greater
        } else {
            Ordering::Equal
        }
    }

    /// Whether `self` is `other` or comes after it in display order.
    pub fn at_or_after(&self, other: &TreeIndex) -> (result: bool)
        ensures
            result == !index_lt(self@, other@),
    {
        self.rank(other) != 0
    }
}

} // verus!
