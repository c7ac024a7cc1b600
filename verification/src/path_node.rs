//! Nodes of the directory tree shown by the file explorer.
//!
//! A node never touches the file system. Whoever expands a directory reads
//! it and hands the outcome over as a [`DirListing`].

use std::cmp::Ordering;
use vstd::prelude::*;
use vstd::string::StringExecFns;
use vstd::seq_lib::to_multiset_build;
use vstd::seq_lib::to_multiset_insert;
use crate::lex::lemma_lex_le_transitive;
use crate::lex::lemma_lex_trichotomy;
use crate::renderer::style_for;
use crate::renderer::Renderer;
use crate::text::char_key;
use crate::text::texts;
use crate::tree_explorer::collapse_at_cursor;
use crate::tree_explorer::TreeExplorer;
use crate::text::text_lt;
use crate::text::text_rank;
use crate::tree::lemma_rows_before_bounds;
use crate::tree::lemma_rows_before_child;
use crate::tree::lemma_rows_before_concat;
use crate::tree::rows_before;
use crate::tree::Tree;
use crate::tree_index::index_lt;
use crate::tree_index::TreeIndex;

verus! {

/// Where directories go among the children of a node.
#[derive(Clone, Copy, Debug)]
pub enum PathNodeOrdering {
    /// Put the directory items on the top.
    Top,
    /// Put the directory items on the bottom.
    Bottom,
    /// Keep the origin order.
    Keep,
}

/// Whether node `a` has to come strictly before `b` under `ordering`:
/// directories on their side of the files, and by display text within each
/// group. Without an ordering no node has to come before another.
pub open spec fn node_lt(a: Tree, b: Tree, ordering: PathNodeOrdering) -> bool {
    match ordering {
        PathNodeOrdering::Top => (a.is_dir && !b.is_dir) || (a.is_dir == b.is_dir && text_lt(
            a.display_text,
            b.display_text,
        )),
        PathNodeOrdering::Bottom => (!a.is_dir && b.is_dir) || (a.is_dir == b.is_dir && text_lt(
            a.display_text,
            b.display_text,
        )),
        PathNodeOrdering::Keep => false,
    }
}

/// Whether no node of `nodes` has to come before an earlier one.
pub open spec fn nodes_sorted(nodes: Seq<Tree>, ordering: PathNodeOrdering) -> bool {
    forall|i: int, j: int| 0 <= i < j < nodes.len() ==> !node_lt(nodes[j], nodes[i], ordering)
}

/// One entry of a directory as read from disk.
pub struct DirEntry {
    /// File name, shown in the tree.
    pub name: String,
    /// Path of the entry.
    pub path: String,
    /// Whether the entry is a directory.
    pub is_dir: bool,
    /// Icon shown in front of the name when the entry is a file.
    pub icon: char,
}

/// What reading a path as a directory gave.
pub enum DirListing {
    /// The path is not a directory.
    NotADirectory,
    /// The path is a directory that could not be read.
    Unreadable,
    /// The entries of the directory, in the order they were read.
    Entries(Vec<DirEntry>),
}

/// The node that stands for a directory entry: a collapsed leaf.
pub open spec fn entry_node(entry: DirEntry) -> Tree {
    Tree {
        path: entry.path@,
        is_dir: entry.is_dir,
        is_err: false,
        is_expanded: false,
        children: Seq::empty(),
        display_text: entry.name@,
        icon: entry.icon,
    }
}

/// The nodes that stand for `entries`, in the same order.
pub open spec fn entry_nodes(entries: Seq<DirEntry>) -> Seq<Tree> {
    entries.map_values(|entry: DirEntry| entry_node(entry))
}

/// Whether `after` is `before` expanded with `listing`. A path that is no
/// directory leaves the node as it was. An unreadable directory is marked
/// as expanded and failed, with no children. Otherwise the node is expanded
/// and its children are the listed entries, each once, sorted by `ordering`.
pub open spec fn expanded_as(
    before: Tree,
    listing: DirListing,
    ordering: PathNodeOrdering,
    after: Tree,
) -> bool {
    match listing {
        DirListing::NotADirectory => after == before,
        DirListing::Unreadable => after == Tree {
            is_expanded: true,
            is_err: true,
            children: Seq::empty(),
            ..before
        },
        DirListing::Entries(entries) => {
            &&& after == Tree { is_expanded: true, children: after.children, ..before }
            &&& nodes_sorted(after.children, ordering)
            &&& after.children.to_multiset() == entry_nodes(entries@).to_multiset()
        },
    }
}

/// Whether `after` is `before` with the node that `index` leads to expanded
/// with `listing`, everything else unchanged. Steps of `index` that name
/// no child are skipped.
pub open spec fn expansion(
    before: Tree,
    index: Seq<usize>,
    listing: DirListing,
    ordering: PathNodeOrdering,
    after: Tree,
) -> bool {
    let grown = after.at(before.settle(index));
    &&& after == before.with_located(index, grown)
    &&& expanded_as(before.locate(index), listing, ordering, grown)
}

/// A file or directory in the tree, with the children it shows.
#[derive(Debug)]
pub struct PathNode {
    pub path: String,
    pub is_dir: bool,
    pub is_err: bool,
    pub is_expanded: bool,
    pub children: Vec<PathNode>,
    pub display_text: String,
    /// Icon shown in front of the text when the node is a file.
    pub icon: char,
}

impl View for PathNode {
    type V = Tree;

    open spec fn view(&self) -> Tree {
        self.model()
    }
}

impl PathNode {
    /// The tree that this node stands for.
    pub open spec fn model(&self) -> Tree
        decreases self, self.children@.len() + 1,
    {
        Tree {
            path: self.path@,
            is_dir: self.is_dir,
            is_err: self.is_err,
            is_expanded: self.is_expanded,
            children: self.child_models(self.children@.len()),
            display_text: self.display_text@,
            icon: self.icon,
        }
    }

    /// The models of the first `n` children.
    pub open spec fn child_models(&self, n: nat) -> Seq<Tree>
        decreases self, n,
    {
        if n == 0 || n > self.children@.len() {
            Seq::empty()
        } else {
            self.child_models((n - 1) as nat).push(self.children@[n - 1].model())
        }
    }

    proof fn lemma_child_models(&self, n: nat)
        requires
            n <= self.children@.len(),
        ensures
            self.child_models(n) == models(self.children@.take(n as int)),
        decreases n,
    {
        if n == 0 {
            assert(self.child_models(n) =~= models(self.children@.take(n as int)));
        } else {
            self.lemma_child_models((n - 1) as nat);
            assert(self.children@.take(n as int) =~= self.children@.take(n - 1).push(
                self.children@[n - 1],
            ));
            assert(self.child_models(n) =~= models(self.children@.take(n as int)));
        }
    }
}

/// The model of a node has one child per child of the node: its model.
pub broadcast proof fn lemma_model_children(node: PathNode)
    ensures
        #[trigger] node@.children == models(node.children@),
{
    node.lemma_child_models(node.children@.len());
    assert(node.children@.take(node.children@.len() as int) =~= node.children@);
}

/// The models of `nodes`, in the same order.
pub open spec fn models(nodes: Seq<PathNode>) -> Seq<Tree> {
    nodes.map_values(|node: PathNode| node@)
}

/// The icon of a node that was not given one.
pub const NO_ICON: char = ' ';

/// A collapsed node for `path` that is not known to be a directory.
pub open spec fn plain_node(path: Seq<char>) -> Tree {
    Tree {
        path,
        is_dir: false,
        is_err: false,
        is_expanded: false,
        children: Seq::empty(),
        display_text: path,
        icon: NO_ICON,
    }
}

impl PathNodeOrdering {
    /// Directories first, then by display text.
    pub fn dir_top(a: &PathNode, b: &PathNode) -> (order: Ordering)
        ensures
            (order == Ordering::Less) == node_lt(a@, b@, PathNodeOrdering::Top),
            (order == Ordering::Greater) == node_lt(b@, a@, PathNodeOrdering::Top),
    {
        if a.is_dir && !b.is_dir {
            Ordering::Less
        } else if !a.is_dir && b.is_dir {
            Ordering::Greater
        } else {
            let place = text_rank(a.display_text.as_str(), b.display_text.as_str());
            if place == 0 {
                Ordering::Less
            } else if place == 2 {
                Ordering::Greater
            } else {
                Ordering::Equal
            }
        }
    }

    /// Directories last, otherwise by display text.
    pub fn dir_bottom(a: &PathNode, b: &PathNode) -> (order: Ordering)
        ensures
            (order == Ordering::Less) == node_lt(a@, b@, PathNodeOrdering::Bottom),
            (order == Ordering::Greater) == node_lt(b@, a@, PathNodeOrdering::Bottom),
    {
        if a.is_dir && !b.is_dir {
            Ordering::Greater
        } else if !a.is_dir && b.is_dir {
            Ordering::Less
        } else {
            let place = text_rank(a.display_text.as_str(), b.display_text.as_str());
            if place == 0 {
                Ordering::Less
            } else if place == 2 {
                Ordering::Greater
            } else {
                Ordering::Equal
            }
        }
    }

    /// Compares two nodes under this ordering.
    pub fn compare(&self, a: &PathNode, b: &PathNode) -> (order: Ordering)
        ensures
            (order == Ordering::Less) == node_lt(a@, b@, *self),
            (order == Ordering::Greater) == node_lt(b@, a@, *self),
    {
        match self {
            PathNodeOrdering::Top => Self::dir_top(a, b),
            PathNodeOrdering::Bottom => Self::dir_bottom(a, b),
            _ => Ordering::Equal,
        }
    }

    /// Whether `a` has to come strictly before `b` under this ordering.
    pub fn precedes(&self, a: &PathNode, b: &PathNode) -> (before: bool)
        ensures
            before == node_lt(a@, b@, *self),
    {
        match self.compare(a, b) {
            Ordering::Less => true,
            _ => false,
        }
    }
}

/// The order of nodes never puts two nodes before each other, and a node
/// that comes before `b` comes before everything that `b` does not follow.
pub proof fn lemma_node_order(a: Tree, b: Tree, c: Tree, ordering: PathNodeOrdering)
    ensures
        !(node_lt(a, b, ordering) && node_lt(b, a, ordering)),
        node_lt(a, b, ordering) && !node_lt(c, b, ordering) ==> node_lt(a, c, ordering),
{
    lemma_lex_trichotomy(a.display_text, b.display_text, char_key());
    lemma_lex_le_transitive(a.display_text, b.display_text, c.display_text, char_key());
}

/// Puts `node` into `sorted` behind every node that it does not precede.
fn insert_sorted(sorted: &mut Vec<PathNode>, node: PathNode, ordering: &PathNodeOrdering)
    requires
        nodes_sorted(models(old(sorted)@), *ordering),
    ensures
        nodes_sorted(models(final(sorted)@), *ordering),
        models(final(sorted)@).to_multiset() == models(old(sorted)@).to_multiset().insert(node@),
{
    broadcast use lemma_model_children;

    let mut pos: usize = 0;
    while pos < sorted.len() && !ordering.precedes(&node, &sorted[pos])
        invariant
            pos <= sorted@.len(),
            forall|k: int| 0 <= k < pos ==> !node_lt(node@, #[trigger] models(sorted@)[k], *ordering),
        decreases sorted@.len() - pos,
    {
        pos += 1;
    }
    let ghost before = models(sorted@);
    sorted.insert(pos, node);
    proof {
        let after = models(sorted@);
        assert(after =~= before.insert(pos as int, node@));
        to_multiset_insert(before, pos as int, node@);
        assert forall|i: int, j: int| 0 <= i < j < after.len() implies !node_lt(
            after[j],
            after[i],
            *ordering,
        ) by {
            if j == pos {
                assert(after[i] == before[i]);
            } else if i == pos {
                assert(after[j] == before[j - 1]);
                lemma_node_order(node@, before[pos as int], before[j - 1], *ordering);
                lemma_node_order(node@, before[j - 1], before[pos as int], *ordering);
            } else {
                let bi = if i < pos { i } else { i - 1 };
                let bj = if j < pos { j } else { j - 1 };
                assert(after[i] == before[bi]);
                assert(after[j] == before[bj]);
            }
        }
    }
}

impl PathNode {
    /// A collapsed node for `path`, not marked as a directory.
    pub fn plain(path: &str) -> (node: PathNode)
        ensures
            node@ == plain_node(path@),
    {
        broadcast use lemma_model_children;

        let node = PathNode {
            children: Vec::new(),
            display_text: String::from_str(path),
            is_dir: false,
            is_err: false,
            is_expanded: false,
            path: String::from_str(path),
            icon: NO_ICON,
        };
        assert(node@.children =~= Seq::empty());
        node
    }

    /// The collapsed root of a tree for the directory `working_dir`.
    pub fn new(working_dir: &str) -> (node: PathNode)
        ensures
            node@ == (Tree { is_dir: true, ..plain_node(working_dir@) }),
    {
        broadcast use lemma_model_children;

        let mut node = Self::plain(working_dir);
        let ghost before = node@;
        node.is_dir = true;
        assert(node@.children =~= before.children);
        node
    }

    /// The collapsed leaf that stands for a directory entry.
    pub fn from_entry(entry: &DirEntry) -> (node: PathNode)
        ensures
            node@ == entry_node(*entry),
    {
        broadcast use lemma_model_children;

        let node = PathNode {
            children: Vec::new(),
            display_text: entry.name.clone(),
            is_dir: entry.is_dir,
            is_err: false,
            is_expanded: false,
            path: entry.path.clone(),
            icon: entry.icon,
        };
        assert(node@.children =~= Seq::empty());
        node
    }
    /// The children for a directory listing: one collapsed node per entry,
    /// sorted by `node_ordering`. A directory that could not be listed has
    /// none and is marked as failed.
    pub fn list_children(&mut self, node_ordering: &PathNodeOrdering, listing: &DirListing) -> (children:
        Vec<PathNode>)
        ensures
            match *listing {
                DirListing::Entries(entries) => {
                    &&& final(self)@ == old(self)@
                    &&& nodes_sorted(models(children@), *node_ordering)
                    &&& models(children@).to_multiset() == entry_nodes(entries@).to_multiset()
                },
                _ => {
                    &&& final(self)@ == (Tree { is_err: true, ..old(self)@ })
                    &&& children@.len() == 0
                },
            },
    {
        broadcast use lemma_model_children;

        match listing {
            DirListing::Entries(entries) => {
                let mut children: Vec<PathNode> = Vec::new();
                let ghost all = entries@;
                assert(entry_nodes(all.take(0)) =~= models(children@));
                let mut i: usize = 0;
                while i < entries.len()
                    invariant
                        i <= entries@.len(),
                        all == entries@,
                        nodes_sorted(models(children@), *node_ordering),
                        models(children@).to_multiset() == entry_nodes(all.take(i as int)).to_multiset(),
                    decreases entries@.len() - i,
                {
                    let node = PathNode::from_entry(&entries[i]);
                    proof {
                        assert(entry_nodes(all.take(i + 1)) =~= entry_nodes(all.take(i as int)).push(
                            node@,
                        ));
                        to_multiset_build(entry_nodes(all.take(i as int)), node@);
                    }
                    insert_sorted(&mut children, node, node_ordering);
                    i += 1;
                }
                assert(all.take(all.len() as int) =~= all);
                children
            },
            _ => {
                let ghost before = self@;
                self.is_err = true;
                assert(self@.children =~= before.children);
                Vec::new()
            },
        }
    }

    /// Expands the node that `tree_index` leads to, with what reading its
    /// path as a directory gave. Steps of `tree_index` that name no child
    /// are skipped. Nothing else in the tree changes.
    pub fn expand(&mut self, tree_index: &TreeIndex, node_ordering: &PathNodeOrdering, listing: &DirListing)
        ensures
            expansion(old(self)@, tree_index@, *listing, *node_ordering, final(self)@),
    {
        assert(tree_index@.skip(0) =~= tree_index@);
        self.expand_below(tree_index, 0, node_ordering, listing)
    }

    fn expand_below(
        &mut self,
        tree_index: &TreeIndex,
        depth: usize,
        node_ordering: &PathNodeOrdering,
        listing: &DirListing,
    )
        requires
            depth <= tree_index@.len(),
        ensures
            expansion(
                old(self)@,
                tree_index@.skip(depth as int),
                *listing,
                *node_ordering,
                final(self)@,
            ),
        decreases tree_index@.len() - depth,
    {
        broadcast use lemma_model_children;

        let ghost rest = tree_index@.skip(depth as int);
        let ghost before = self@;
        if depth == tree_index.index.len() {
            assert(rest.len() == 0);
            match listing {
                DirListing::NotADirectory => {},
                other => {
                    let children = self.list_children(node_ordering, other);
                    let ghost listed = self@;
                    self.is_expanded = true;
                    self.children = children;
                    proof {
                        assert(self@.children =~= models(children@));
                        assert(self@ == (Tree {
                            is_expanded: true,
                            children: models(children@),
                            ..listed
                        }));
                        if !(*other is Entries) {
                            assert(models(children@) =~= Seq::<Tree>::empty());
                        }
                    }
                },
            }
        } else {
            let i = tree_index.index[depth];
            proof {
                assert(rest.len() > 0);
                assert(rest[0] == i);
                assert(rest.drop_first() =~= tree_index@.skip(depth + 1));
            }
            if i < self.children.len() {
                let child = &mut self.children[i];
                child.expand_below(tree_index, depth + 1, node_ordering, listing);
                proof {
                    let grown = self.children@[i as int]@;
                    let below = before.children[i as int].settle(rest.drop_first());
                    let sub = grown.at(below);
                    assert(self@.children =~= before.children.update(i as int, grown));
                    assert(before.settle(rest) == seq![i] + below);
                    assert((seq![i] + below).drop_first() =~= below);
                    assert(self@.at(before.settle(rest)) == sub);
                    assert(before.locate(rest) == before.children[i as int].locate(rest.drop_first()));
                    assert(grown == before.children[i as int].with_located(rest.drop_first(), sub));
                    assert(self@ == (Tree { children: before.children.update(i as int, grown), ..before }));
                }
            } else {
                self.expand_below(tree_index, depth + 1, node_ordering, listing);
                proof {
                    assert(before.settle(rest) == before.settle(rest.drop_first()));
                    assert(before.locate(rest) == before.locate(rest.drop_first()));
                }
            }
        }
    }

    /// Collapses the node that `tree_index` names: it loses its children
    /// and is no longer expanded. Nothing else in the tree changes.
    pub fn collapse(&mut self, tree_index: &TreeIndex)
        requires
            old(self)@.has(tree_index@),
        ensures
            final(self)@ == old(self)@.with_at(tree_index@, old(self)@.at(tree_index@).collapsed()),
    {
        assert(tree_index@.skip(0) =~= tree_index@);
        self.collapse_below(tree_index, 0)
    }

    fn collapse_below(&mut self, tree_index: &TreeIndex, depth: usize)
        requires
            depth <= tree_index@.len(),
            old(self)@.has(tree_index@.skip(depth as int)),
        ensures
            final(self)@ == old(self)@.with_at(
                tree_index@.skip(depth as int),
                old(self)@.at(tree_index@.skip(depth as int)).collapsed(),
            ),
        decreases tree_index@.len() - depth,
    {
        broadcast use lemma_model_children;

        let ghost rest = tree_index@.skip(depth as int);
        if depth == tree_index.index.len() {
            self.is_expanded = false;
            self.children = Vec::new();
            assert(self@.children =~= Seq::empty());
        } else {
            let i = tree_index.index[depth];
            proof {
                assert(rest[0] == i);
                assert(rest.drop_first() =~= tree_index@.skip(depth + 1));
            }
            let ghost before = self@;
            let child = &mut self.children[i];
            child.collapse_below(tree_index, depth + 1);
            proof {
                assert(self@.children =~= before.children.update(i as int, self.children@[i as int]@));
            }
        }
    }

    /// The node that `tree_index` names.
    pub fn get_child_path_node(&self, tree_index: &TreeIndex) -> (node: &PathNode)
        requires
            self@.has(tree_index@),
        ensures
            node@ == self@.at(tree_index@),
    {
        assert(tree_index@.skip(0) =~= tree_index@);
        self.descend(tree_index, 0)
    }

    fn descend(&self, tree_index: &TreeIndex, depth: usize) -> (node: &PathNode)
        requires
            depth <= tree_index@.len(),
            self@.has(tree_index@.skip(depth as int)),
        ensures
            node@ == self@.at(tree_index@.skip(depth as int)),
        decreases tree_index@.len() - depth,
    {
        broadcast use lemma_model_children;

        if depth == tree_index.index.len() {
            self
        } else {
            let i = tree_index.index[depth];
            proof {
                assert(tree_index@.skip(depth as int)[0] == i);
                assert(tree_index@.skip(depth as int).drop_first() =~= tree_index@.skip(depth + 1));
            }
            self.children[i].descend(tree_index, depth + 1)
        }
    }

    /// The node reached by following `tree_index` and skipping every step
    /// that names no child.
    pub fn locate(&self, tree_index: &TreeIndex) -> (node: &PathNode)
        ensures
            node@ == self@.locate(tree_index@),
    {
        assert(tree_index@.skip(0) =~= tree_index@);
        self.locate_below(tree_index, 0)
    }

    fn locate_below(&self, tree_index: &TreeIndex, depth: usize) -> (node: &PathNode)
        requires
            depth <= tree_index@.len(),
        ensures
            node@ == self@.locate(tree_index@.skip(depth as int)),
        decreases tree_index@.len() - depth,
    {
        broadcast use lemma_model_children;

        if depth == tree_index.index.len() {
            self
        } else {
            let i = tree_index.index[depth];
            proof {
                assert(tree_index@.skip(depth as int)[0] == i);
                assert(tree_index@.skip(depth as int).drop_first() =~= tree_index@.skip(depth + 1));
            }
            if i < self.children.len() {
                self.children[i].locate_below(tree_index, depth + 1)
            } else {
                self.locate_below(tree_index, depth + 1)
            }
        }
    }
    /// The tree index of the node shown in row `flat_index`, counting rows
    /// from zero; the root's index where there is no such row.
    pub fn flat_index_to_tree_index(&self, flat_index: usize) -> (tree_index: TreeIndex)
        requires
            flat_index < usize::MAX,
        ensures
            tree_index@ == self@.row_index(flat_index as nat),
    {
        let mut tree_index = TreeIndex::new();
        let mut remaining: usize = flat_index + 1;
        let found = self.flat_index_to_tree_index_recursive(&mut remaining, &mut tree_index);
        proof {
            if found {
                assert(tree_index@ =~= self@.rows()[flat_index as int]);
            }
        }
        tree_index
    }

    /// Walks the rows below this node, one step of `flat_index` per row.
    /// With `flat_index` at zero this node is the one looked for. Otherwise
    /// the walk ends at the row numbered `flat_index - 1`, whose tree index
    /// is appended to `tree_index`; or, where the node has fewer rows, it
    /// leaves `tree_index` as it was and takes the rows off `flat_index`.
    pub fn flat_index_to_tree_index_recursive(
        &self,
        flat_index: &mut usize,
        tree_index: &mut TreeIndex,
    ) -> (found: bool)
        ensures
            found == (*old(flat_index) <= self@.rows().len()),
            found ==> *final(flat_index) == 0 && final(tree_index)@ == old(tree_index)@ + (if *old(
                flat_index,
            ) == 0 {
                Seq::<usize>::empty()
            } else {
                self@.rows()[*old(flat_index) - 1]
            }),
            !found ==> final(tree_index)@ == old(tree_index)@ && *final(flat_index) == *old(flat_index)
                - self@.rows().len(),
        decreases self,
    {
        broadcast use lemma_model_children;

        let ghost wanted = *flat_index;
        let ghost start = tree_index@;
        if *flat_index == 0 {
            assert(tree_index@ =~= start + Seq::<usize>::empty());
            return true;
        }
        let mut c: usize = 0;
        while c < self.children.len()
            invariant
                c <= self.children@.len(),
                self@.children == models(self.children@),
                wanted == *old(flat_index),
                start == old(tree_index)@,
                tree_index@ == start,
                wanted > self@.rows_upto(c as nat).len(),
                *flat_index == wanted - self@.rows_upto(c as nat).len(),
            decreases self.children@.len() - c,
        {
            let ghost head = self@.rows_upto(c as nat);
            let ghost child = self@.children[c as int];
            let ghost seen = *flat_index - 1;
            proof {
                self@.lemma_rows_upto_prefix((c + 1) as nat, self@.children.len());
                assert(self@.rows_upto((c + 1) as nat) == head + seq![seq![c]] + child.rows().map_values(
                    |row: Seq<usize>| seq![c] + row,
                ));
            }
            *flat_index -= 1;
            tree_index.index.push(c);
            if self.children[c].flat_index_to_tree_index_recursive(flat_index, tree_index) {
                proof {
                    let row = self@.rows()[wanted - 1];
                    assert(row == self@.rows_upto((c + 1) as nat)[wanted - 1]);
                    if seen == 0 {
                        assert(row == seq![c]);
                        assert(tree_index@ =~= start + row);
                    } else {
                        assert(row == seq![c] + child.rows()[seen - 1]);
                        assert(tree_index@ =~= start + row);
                    }
                }
                return true;
            }
            tree_index.index.pop();
            assert(tree_index@ =~= start);
            c += 1;
        }
        false
    }

    /// How many nodes of this subtree, the node itself counted, come
    /// strictly before `target_tree_index` in display order, where
    /// `current_tree_index` is the index of this node.
    pub fn tree_index_to_flat_index_recursive(
        &self,
        target_tree_index: &TreeIndex,
        current_tree_index: &TreeIndex,
    ) -> (count: usize)
        requires
            self@.rows().len() < usize::MAX,
        ensures
            count == (if index_lt(current_tree_index@, target_tree_index@) {
                1nat
            } else {
                0nat
            }) + rows_before(self@.rows(), current_tree_index@, target_tree_index@),
        decreases self,
    {
        broadcast use lemma_model_children;

        let ghost target = target_tree_index@;
        let ghost current = current_tree_index@;
        proof {
            lemma_rows_before_bounds(self@.rows(), current, target);
        }
        if current_tree_index.at_or_after(target_tree_index) {
            return 0;
        }
        if self.children.len() == 0 {
            return 1;
        }
        let mut sum: usize = 1;
        let mut index: usize = 0;
        while index < self.children.len()
            invariant
                index <= self.children@.len(),
                self@.children == models(self.children@),
                self@.rows().len() < usize::MAX,
                target == target_tree_index@,
                current == current_tree_index@,
                sum == 1 + rows_before(self@.rows_upto(index as nat), current, target),
            decreases self.children@.len() - index,
        {
            let ghost head = self@.rows_upto(index as nat);
            let ghost child = self@.children[index as int];
            let ghost lifted = child.rows().map_values(|row: Seq<usize>| seq![index] + row);
            let mut new_current_tree_index = current_tree_index.clone();
            new_current_tree_index.index.push(index);
            proof {
                self@.lemma_rows_upto_prefix((index + 1) as nat, self@.children.len());
                assert(self@.rows_upto((index + 1) as nat) == head + seq![seq![index]] + lifted);
                lemma_rows_before_concat(head + seq![seq![index]], lifted, current, target);
                lemma_rows_before_concat(head, seq![seq![index]], current, target);
                lemma_rows_before_child(child.rows(), index, current, target);
                assert(seq![seq![index]].drop_last() =~= Seq::<Seq<usize>>::empty());
                assert(rows_before(Seq::<Seq<usize>>::empty(), current, target) == 0);
                assert(current + seq![index] =~= current.push(index));
                assert(rows_before(seq![seq![index]], current, target) == if index_lt(
                    current.push(index),
                    target,
                ) {
                    1nat
                } else {
                    0nat
                });
                lemma_rows_before_bounds(self@.rows_upto((index + 1) as nat), current, target);
            }
            let part = self.children[index].tree_index_to_flat_index_recursive(
                target_tree_index,
                &new_current_tree_index,
            );
            sum += part;
            index += 1;
        }
        sum
    }

    /// The row in which the node at `tree_index` is shown, counting from
    /// zero: the number of rows that come before `tree_index` in display
    /// order. For an index that names no node this is the row it would
    /// take.
    pub fn tree_index_to_flat_index(&self, tree_index: &TreeIndex) -> (flat_index: usize)
        requires
            tree_index@.len() > 0,
            self@.rows().len() < usize::MAX,
        ensures
            flat_index == rows_before(self@.rows(), Seq::empty(), tree_index@),
    {
        // The root is counted as well, hence one is taken off.
        self.tree_index_to_flat_index_recursive(tree_index, &TreeIndex::new()) - 1
    }

    /// The node shown in row `flat_index`; the root where there is no such
    /// row.
    pub fn path_node_at(&self, flat_index: usize) -> (node: &PathNode)
        requires
            flat_index < usize::MAX,
        ensures
            node@ == self@.locate(self@.row_index(flat_index as nat)),
    {
        let tree_index = self.flat_index_to_tree_index(flat_index);
        self.locate(&tree_index)
    }

    /// Whether the node shown in row `flat_index` is an expanded directory,
    /// given whether its path is a directory on disk.
    pub fn is_node_expanded(&self, flat_index: usize, path_is_dir: bool) -> (expanded: bool)
        requires
            flat_index < usize::MAX,
        ensures
            expanded == (path_is_dir && self@.locate(self@.row_index(flat_index as nat)).is_expanded),
    {
        let node = self.path_node_at(flat_index);
        if !path_is_dir {
            return false;
        }
        node.is_expanded
    }
    /// A copy of this node with everything below it.
    pub fn duplicate(&self) -> (copy: PathNode)
        ensures
            copy@ == self@,
        decreases self,
    {
        broadcast use lemma_model_children;

        let mut children: Vec<PathNode> = Vec::new();
        let mut i: usize = 0;
        while i < self.children.len()
            invariant
                i <= self.children@.len(),
                models(children@) == models(self.children@.take(i as int)),
            decreases self.children@.len() - i,
        {
            let child = self.children[i].duplicate();
            proof {
                assert(self.children@.take(i + 1) =~= self.children@.take(i as int).push(
                    self.children@[i as int],
                ));
                assert(models(self.children@.take(i + 1)) =~= models(self.children@.take(i as int)).push(
                    child@,
                ));
                assert(models(children@.push(child)) =~= models(children@).push(child@));
            }
            children.push(child);
            i += 1;
        }
        assert(self.children@.take(self.children@.len() as int) =~= self.children@);
        let copy = PathNode {
            path: self.path.clone(),
            is_dir: self.is_dir,
            is_err: self.is_err,
            is_expanded: self.is_expanded,
            children,
            display_text: self.display_text.clone(),
            icon: self.icon,
        };
        assert(copy@.children == self@.children);
        copy
    }

    /// The root of a tree for the directory `working_dir`, expanded with
    /// what reading it gave: directories first.
    pub fn new_expanded(working_dir: &str, listing: &DirListing) -> (node: PathNode)
        ensures
            expanded_as(
                Tree { is_dir: true, ..plain_node(working_dir@) },
                *listing,
                PathNodeOrdering::Top,
                node@,
            ),
    {
        let mut path_node = Self::new(working_dir);
        path_node.expand(&TreeIndex::new(), &PathNodeOrdering::Top, listing);
        path_node
    }

    /// Expands the node shown in row `lnum` with what reading its path
    /// gave, directories first, and renders the tree.
    pub fn expand_at(&mut self, lnum: usize, listing: &DirListing) -> (lines: Vec<String>)
        requires
            lnum < usize::MAX,
        ensures
            expansion(
                old(self)@,
                old(self)@.row_index(lnum as nat),
                *listing,
                PathNodeOrdering::Top,
                final(self)@,
            ),
            texts(lines@) == style_for(true).lines(final(self)@, 0),
    {
        let tree_index = self.flat_index_to_tree_index(lnum);
        self.expand(&tree_index, &PathNodeOrdering::Top, listing);
        let renderer = Renderer::new(true);
        renderer.render(self)
    }

    /// Toggles at row `lnum`, going by the root: where the root is
    /// expanded, the lines are those of a copy of the tree collapsed at the
    /// cursor, and the tree itself stays as it is. Where it is not, the
    /// node in row `lnum` is expanded with `listing`, then the node that is
    /// in row `lnum` after that, and the tree is rendered.
    pub fn toggle_at(&mut self, lnum: usize, listing: &DirListing) -> (lines: Vec<String>)
        requires
            lnum < usize::MAX,
            old(self)@.rows().len() < usize::MAX,
        ensures
            old(self)@.is_expanded ==> final(self)@ == old(self)@ && texts(lines@) == style_for(
                true,
            ).lines(collapse_at_cursor(old(self)@, lnum), 0),
            !old(self)@.is_expanded ==> texts(lines@) == style_for(true).lines(final(self)@, 0)
                && exists|mid: Tree|
                {
                    &&& expansion(
                        old(self)@,
                        old(self)@.row_index(lnum as nat),
                        *listing,
                        PathNodeOrdering::Top,
                        mid,
                    )
                    &&& #[trigger] expansion(
                        mid,
                        mid.row_index(lnum as nat),
                        *listing,
                        PathNodeOrdering::Top,
                        final(self)@,
                    )
                },
    {
        let tree_index = self.flat_index_to_tree_index(lnum);
        if self.is_expanded {
            let renderer = Renderer::new(true);
            let mut tree_explorer = TreeExplorer::new(self.duplicate(), renderer, PathNodeOrdering::Top);
            return tree_explorer.do_collapse(lnum);
        } else {
            self.expand(&tree_index, &PathNodeOrdering::Top, listing);
        }
        let ghost mid = self@;
        let lines = self.expand_at(lnum, listing);
        assert(expansion(mid, mid.row_index(lnum as nat), *listing, PathNodeOrdering::Top, self@));
        lines
    }

    /// Toggles the node shown in row `flat_index` and renders the tree.
    /// `listing` is what reading the node's path as a directory gave. A
    /// directory that is expanded is collapsed; anything else is expanded
    /// with `listing`, directories first.
    pub fn toggle(&mut self, flat_index: usize, listing: &DirListing) -> (lines: Vec<String>)
        requires
            flat_index < usize::MAX,
        ensures
            ({
                let index = old(self)@.row_index(flat_index as nat);
                let target = old(self)@.at(index);
                if !(*listing is NotADirectory) && target.is_expanded {
                    final(self)@ == old(self)@.with_at(index, target.collapsed())
                } else {
                    expansion(old(self)@, index, *listing, PathNodeOrdering::Top, final(self)@)
                }
            }),
            texts(lines@) == style_for(true).lines(final(self)@, 0),
    {
        let tree_index = self.flat_index_to_tree_index(flat_index);
        let path_is_dir = match listing {
            DirListing::NotADirectory => false,
            _ => true,
        };
        proof {
            self@.lemma_rows_valid();
            self@.lemma_locate_valid(tree_index@);
        }
        if self.is_node_expanded(flat_index, path_is_dir) {
            self.collapse(&tree_index);
        } else {
            self.expand(&tree_index, &PathNodeOrdering::Top, listing);
        }
        let renderer = Renderer::new(true);
        renderer.render(self)
    }
}

impl From<&str> for PathNode {
    /// A collapsed node for `path`, not marked as a directory.
    fn from(path: &str) -> (node: PathNode)
        ensures
            node@ == plain_node(path@),
    {
        PathNode::plain(path)
    }
}

impl vstd::std_specs::convert::FromSpecImpl<&str> for PathNode {
    open spec fn obeys_from_spec() -> bool {
        false
    }

    open spec fn from_spec(path: &str) -> PathNode {
        arbitrary()
    }
}

impl Clone for PathNode {
    fn clone(&self) -> (copy: PathNode)
        ensures
            copy@ == self@,
    {
        self.duplicate()
    }
}

} // verus!