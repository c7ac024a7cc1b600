//! The file explorer: a tree, how it is drawn and how it is ordered.

use vstd::prelude::*;
use crate::path_node::DirListing;
use crate::path_node::PathNode;
use crate::path_node::PathNodeOrdering;
use crate::path_node::expansion;
use crate::renderer::Renderer;
use crate::text::texts;
use crate::tree::Tree;
use crate::tree::rows_before;
use crate::tree_index::TreeIndex;

verus! {

/// How far the row of the parent directory is from the cursor, for the node
/// at `index`: zero for an expanded directory and for a node right below
/// the root; otherwise the parent's row less the cursor row, wrapping.
pub open spec fn parent_dir_cursor_delta(root: Tree, index: Seq<usize>, cursor_row: usize) -> usize {
    let node = root.at(index);
    if node.is_dir && node.is_expanded {
        0
    } else if index.len() <= 1 {
        0
    } else {
        (rows_before(root.rows(), Seq::empty(), index.drop_last()) as usize).wrapping_sub(cursor_row)
    }
}

/// The tree after a collapse with the cursor in row `cursor_row`: the node
/// in that row is collapsed where the distance to its parent directory is
/// zero; otherwise the tree is unchanged.
pub open spec fn collapse_at_cursor(root: Tree, cursor_row: usize) -> Tree {
    let index = root.row_index(cursor_row as nat);
    if parent_dir_cursor_delta(root, index, cursor_row) == 0 {
        root.with_at(index, root.at(index).collapsed())
    } else {
        root
    }
}

/// A directory tree with its renderer and the ordering of its entries.
pub struct TreeExplorer {
    pub root_node: PathNode,
    pub renderer: Renderer,
    pub path_node_ordering: PathNodeOrdering,
}

impl TreeExplorer {
    pub fn new(root_node: PathNode, renderer: Renderer, path_node_ordering: PathNodeOrdering) -> (explorer:
        TreeExplorer)
        ensures
            explorer.root_node == root_node,
            explorer.renderer == renderer,
            explorer.path_node_ordering == path_node_ordering,
    {
        TreeExplorer { root_node, renderer, path_node_ordering }
    }

    /// Expands the node in row `cursor_row` with what reading its path
    /// gave, and renders the tree.
    pub fn do_expand(&mut self, cursor_row: usize, listing: &DirListing) -> (lines: Vec<String>)
        requires
            cursor_row < usize::MAX,
        ensures
            expansion(
                old(self).root_node@,
                old(self).root_node@.row_index(cursor_row as nat),
                *listing,
                old(self).path_node_ordering,
                final(self).root_node@,
            ),
            final(self).renderer == old(self).renderer,
            final(self).path_node_ordering == old(self).path_node_ordering,
            texts(lines@) == final(self).renderer.style().lines(final(self).root_node@, 0),
    {
        let tree_index = self.root_node.flat_index_to_tree_index(cursor_row);
        self.root_node.expand(&tree_index, &self.path_node_ordering, listing);
        self.renderer.render(&self.root_node)
    }

    /// Whether `self` is `before` after a toggle in row `cursor_row`, where
    /// `listing` is what reading the path of the node in that row gave: an
    /// expanded directory is collapsed, anything else is expanded with
    /// `listing`; renderer and ordering stay.
    pub open spec fn toggled_from(&self, before: &TreeExplorer, cursor_row: usize, listing: DirListing) -> bool {
        let index = before.root_node@.row_index(cursor_row as nat);
        let target = before.root_node@.at(index);
        &&& self.renderer == before.renderer
        &&& self.path_node_ordering == before.path_node_ordering
        &&& if !(listing is NotADirectory) && target.is_expanded {
            self.root_node@ == before.root_node@.with_at(index, target.collapsed())
        } else {
            expansion(before.root_node@, index, listing, before.path_node_ordering, self.root_node@)
        }
    }

    /// Toggles the node in row `cursor_row` and renders the tree.
    /// `listing` is what reading the node's path as a directory gave.
    pub fn do_toggle(&mut self, cursor_row: usize, listing: &DirListing) -> (lines: Vec<String>)
        requires
            cursor_row < usize::MAX,
        ensures
            final(self).toggled_from(old(self), cursor_row, *listing),
            texts(lines@) == final(self).renderer.style().lines(final(self).root_node@, 0),
    {
        let tree_index = self.root_node.flat_index_to_tree_index(cursor_row);
        let path_is_dir = match listing {
            DirListing::NotADirectory => false,
            _ => true,
        };
        proof {
            self.root_node@.lemma_rows_valid();
            self.root_node@.lemma_locate_valid(tree_index@);
        }
        if self.root_node.is_node_expanded(cursor_row, path_is_dir) {
            self.root_node.collapse(&tree_index);
        } else {
            self.root_node.expand(&tree_index, &self.path_node_ordering, listing);
        }
        self.renderer.render(&self.root_node)
    }

    /// Reloads the opened directories. Nothing is reloaded so far.
    pub fn do_reload(&mut self)
        ensures
            *final(self) == *old(self),
    {
    }

    /// Collapses at the cursor and renders the tree: the node in row
    /// `cursor_row` is collapsed where it is an expanded directory or
    /// stands right below the root.
    pub fn do_collapse(&mut self, cursor_row: usize) -> (lines: Vec<String>)
        requires
            cursor_row < usize::MAX,
            old(self).root_node@.rows().len() < usize::MAX,
        ensures
            final(self).root_node@ == collapse_at_cursor(old(self).root_node@, cursor_row),
            final(self).renderer == old(self).renderer,
            final(self).path_node_ordering == old(self).path_node_ordering,
            texts(lines@) == final(self).renderer.style().lines(final(self).root_node@, 0),
    {
        let tree_index = self.root_node.flat_index_to_tree_index(cursor_row);
        proof {
            self.root_node@.lemma_rows_valid();
        }
        let cursor_delta = self.get_parent_dir_cursor_delta(&tree_index, cursor_row);
        if cursor_delta == 0 {
            self.root_node.collapse(&tree_index);
        }
        self.renderer.render(&self.root_node)
    }

    /// How far the row of the parent directory is from the cursor.
    pub fn get_parent_dir_cursor_delta(&self, tree_index: &TreeIndex, cursor_row: usize) -> (delta: usize)
        requires
            self.root_node@.has(tree_index@),
            self.root_node@.rows().len() < usize::MAX,
        ensures
            delta == parent_dir_cursor_delta(self.root_node@, tree_index@, cursor_row),
    {
        let child_path_node = self.root_node.get_child_path_node(tree_index);
        if child_path_node.is_dir && child_path_node.is_expanded {
            return 0;
        }
        let parent_path_node_tree_index = tree_index.get_parent();
        if parent_path_node_tree_index.is_root() {
            return 0;
        }
        let parent_flat_index = self.root_node.tree_index_to_flat_index(&parent_path_node_tree_index);
        parent_flat_index.wrapping_sub(cursor_row)
    }
}

} // verus!
