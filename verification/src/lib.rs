//! Session control, tree navigation and line truncation for an incremental
//! fuzzy-search backend.

pub mod cache;
pub mod ctags;
pub mod dumb_jump;
pub mod helptags;
pub mod lex;
pub mod path_node;
pub mod preview;
pub mod printer;
pub mod renderer;
pub mod scale;
pub mod session;
pub mod source_item;
pub mod text;
pub mod tree;
pub mod tree_explorer;
pub mod tree_index;
