use maple_core::path_node::{DirEntry, DirListing, PathNode, PathNodeOrdering};
use maple_core::renderer::Renderer;
use maple_core::tree_explorer::TreeExplorer;
use maple_core::tree_index::TreeIndex;
use std::cmp::Ordering;

fn dir(parent: &str, name: &str) -> DirEntry {
    DirEntry {
        name: name.to_string(),
        path: format!("{}/{}", parent, name),
        is_dir: true,
        icon: ' ',
    }
}

fn file(parent: &str, name: &str) -> DirEntry {
    DirEntry {
        name: name.to_string(),
        path: format!("{}/{}", parent, name),
        is_dir: false,
        icon: '*',
    }
}

/// What a directory read gives for the paths of the test tree. The entries
/// come in no particular order, as they do from a file system.
fn read_test_dir(path: &str) -> DirListing {
    let root = "./tests/test_dirs";
    let entries = match path {
        "./tests/test_dirs" => vec![
            file(path, "f07"),
            dir(path, "dir2"),
            file(path, "f00"),
            file(path, "f09"),
            dir(path, "dir0"),
            file(path, "f03"),
            file(path, "f01"),
            file(path, "f05"),
            dir(path, "dir1"),
            file(path, "f02"),
            file(path, "f08"),
            file(path, "f04"),
            file(path, "f06"),
        ],
        "./tests/test_dirs/dir0" => vec![file(path, "file2"), dir(path, "dir3"), file(path, "file1")],
        "./tests/test_dirs/dir0/dir3" => vec![file(path, "file5"), file(path, "file4")],
        "./tests/test_dirs/dir1" => vec![
            file(path, "file33"),
            file(path, "file30"),
            dir(path, "dir4"),
            file(path, "file32"),
            file(path, "file31"),
        ],
        "./tests/test_dirs/dir1/dir4" => vec![
            file(path, "file21"),
            dir(path, "dir7"),
            dir(path, "dir5"),
            file(path, "file20"),
            dir(path, "dir6"),
        ],
        "./tests/test_dirs/dir1/dir4/dir7" => {
            vec![file(path, "file12"), file(path, "file10"), file(path, "file11")]
        }
        "./tests/test_dirs/dir2"
        | "./tests/test_dirs/dir1/dir4/dir5"
        | "./tests/test_dirs/dir1/dir4/dir6" => vec![],
        _ => {
            assert!(path.starts_with(root) || !path.starts_with(root));
            return DirListing::NotADirectory;
        }
    };
    DirListing::Entries(entries)
}

fn expand(node: &mut PathNode, index: Vec<usize>) {
    let tree_index = TreeIndex::from(index);
    let listing = read_test_dir(node.locate(&tree_index).path.as_str());
    node.expand(&tree_index, &PathNodeOrdering::Top, &listing);
}

fn get_expanded_path_node() -> PathNode {
    let mut path_node = PathNode::from("./tests/test_dirs");
    expand(&mut path_node, vec![]);
    expand(&mut path_node, vec![0]);
    expand(&mut path_node, vec![0, 0]);
    expand(&mut path_node, vec![1]);
    expand(&mut path_node, vec![1, 0]);
    expand(&mut path_node, vec![1, 0, 2]);
    path_node
}

/// What a directory read gives for the paths of a small plugin checkout.
fn read_plugin_dir(path: &str) -> DirListing {
    let entries = match path {
        "/home/xlc/.vim/plugged/vim-clap" => vec![
            file(path, "README.md"),
            dir(path, "autoload"),
            file(path, "Cargo.toml"),
            dir(path, "crates"),
            dir(path, "doc"),
            file(path, "LICENSE"),
            dir(path, "plugin"),
            dir(path, "pythonx"),
            file(path, "Makefile"),
            dir(path, "syntax"),
        ],
        "/home/xlc/.vim/plugged/vim-clap/crates" => vec![dir(path, "printer"), dir(path, "nerdtree")],
        "/home/xlc/.vim/plugged/vim-clap/doc" => vec![file(path, "clap.txt")],
        "/home/xlc/.vim/plugged/vim-clap/autoload" => vec![file(path, "clap.vim")],
        "/home/xlc/.vim/plugged/vim-clap/pythonx" => vec![],
        "/home/xlc/.vim/plugged/vim-clap/plugin"
        | "/home/xlc/.vim/plugged/vim-clap/syntax"
        | "/home/xlc/.vim/plugged/vim-clap/crates/printer"
        | "/home/xlc/.vim/plugged/vim-clap/crates/nerdtree" => return DirListing::Unreadable,
        _ => return DirListing::NotADirectory,
    };
    DirListing::Entries(entries)
}

fn expand_row(root: &mut PathNode, row: usize) {
    let tree_index = root.flat_index_to_tree_index(row);
    let listing = read_plugin_dir(root.path_node_at(row).path.as_str());
    root.expand(&tree_index, &PathNodeOrdering::Top, &listing);
}

#[test]
fn test_expand() {
    let mut root = PathNode::new("/home/xlc/.vim/plugged/vim-clap");

    expand_row(&mut root, 0);
    let renderer = Renderer::new(true);
    let lines = renderer.render(&root);
    for line in lines {
        println!("{}", line);
    }

    expand_row(&mut root, 7);
    println!("is expanded: {}", root.is_node_expanded(7, false));
    let renderer = Renderer::new(true);
    let _lines = renderer.render(&root);

    expand_row(&mut root, 2);
    println!("is expanded: {}", root.is_node_expanded(2, true));
    let renderer = Renderer::new(true);
    let _lines = renderer.render(&root);

    expand_row(&mut root, 4);
    println!("is expanded: {}", root.is_node_expanded(4, true));
    let renderer = Renderer::new(true);
    let lines = renderer.render(&root);
    for line in lines {
        println!("{}", line);
    }

}

#[test]
fn path_node_test_expand() {
    let mut root = PathNode::new_expanded(
        "/home/xlc/.vim/plugged/vim-clap",
        &read_plugin_dir("/home/xlc/.vim/plugged/vim-clap"),
    );

    expand_row(&mut root, 0);
    let renderer = Renderer::new(true);
    let lines = renderer.render(&root);

    for line in lines {
        println!("{}", line);
    }
    expand_row(&mut root, 7);
    let renderer = Renderer::new(true);
    let lines = renderer.render(&root);
    for line in lines {
        println!("{}", line);
    }
}

#[test]
fn first_dirs() {
    let path_node = {
        let mut path_node = PathNode::from("./tests/test_dirs");
        expand(&mut path_node, vec![]);
        expand(&mut path_node, vec![0]);
        expand(&mut path_node, vec![0, 0]);
        path_node
    };

    let child_path_node = path_node.get_child_path_node(&TreeIndex::from(vec![0, 0, 0]));

    assert_eq!("file4", child_path_node.display_text);
}

#[test]
fn complex_dirs() {
    let path_node = get_expanded_path_node();

    let child_path_node = path_node.get_child_path_node(&TreeIndex::from(vec![1, 0, 2, 2]));

    assert_eq!("file12", child_path_node.display_text);
}

#[test]
fn path_node_complex_dirs() {
    let path_node = get_expanded_path_node();

    let flat_index = path_node.tree_index_to_flat_index(&TreeIndex::from(vec![4]));

    assert_eq!(22, flat_index);
}

#[test]
fn complex_dirs2() {
    let path_node = get_expanded_path_node();

    let flat_index = path_node.tree_index_to_flat_index(&TreeIndex::from(vec![5]));

    assert_eq!(23, flat_index);
}

#[test]
fn complex_dirs3() {
    let path_node = get_expanded_path_node();

    let flat_index = path_node.tree_index_to_flat_index(&TreeIndex::from(vec![1, 0, 4]));

    assert_eq!(15, flat_index);
}

#[test]
fn total_count() {
    let path_node = get_expanded_path_node();

    let flat_index = path_node.tree_index_to_flat_index(&TreeIndex::from(vec![100_000]));

    assert_eq!(31, flat_index);
}

#[test]
fn zero() {
    let path_node = get_expanded_path_node();

    let flat_index = path_node.tree_index_to_flat_index(&TreeIndex::from(vec![0]));

    assert_eq!(0, flat_index);
}

#[test]
fn test_tree_explorer() {
    let root_node = PathNode::new("/home/xlc/.vim/plugged/vim-clap");
    let renderer = Renderer::new(true);
    let mut tree_explorer = TreeExplorer::new(root_node, renderer, PathNodeOrdering::Top);
    let listing = read_plugin_dir(tree_explorer.root_node.path_node_at(0).path.as_str());
    let lines = tree_explorer.do_expand(0, &listing);
    println!("");
    for line in lines {
        println!("{}", line);
    }

    let listing = read_plugin_dir(tree_explorer.root_node.path_node_at(7).path.as_str());
    let lines = tree_explorer.do_expand(7, &listing);
    for line in lines {
        println!("{}", line);
    }

    let listing = read_plugin_dir(tree_explorer.root_node.path_node_at(2).path.as_str());
    let lines = tree_explorer.do_expand(2, &listing);
    for line in lines {
        println!("{}", line);
    }
}

#[test]
fn truncate_string_test() {
    let tc = Renderer::truncate_string;
    assert_eq!(tc("hello world", 5), "hell~");
    assert_eq!(tc("hello world", 1), "~");
    assert_eq!(tc("hello world", 0), "");
    assert_eq!(tc("aaa▶bbb▶ccc", 8), "aaa▶bbb~");
    assert_eq!(tc("aaa▶bbb▶ccc", 6), "aaa▶b~");
    assert_eq!(tc("aaa▶bbb▶ccc", 4), "aaa~");
}

#[test]
fn rows_and_tree_indices_round_trip() {
    let path_node = get_expanded_path_node();
    let lines = Renderer::new(false).render(&path_node);
    assert_eq!(lines.len(), 31);
    for row in 0..lines.len() {
        let tree_index = path_node.flat_index_to_tree_index(row);
        assert!(!tree_index.index.is_empty());
        assert_eq!(path_node.tree_index_to_flat_index(&tree_index), row);
    }
    assert_eq!(path_node.flat_index_to_tree_index(0).index, vec![0]);
    assert_eq!(path_node.flat_index_to_tree_index(1).index, vec![0, 0]);
    assert_eq!(path_node.flat_index_to_tree_index(2).index, vec![0, 0, 0]);
    assert_eq!(path_node.flat_index_to_tree_index(15).index, vec![1, 0, 4]);
    assert_eq!(path_node.flat_index_to_tree_index(30).index, vec![12]);
    // Past the last row the root's index comes back.
    assert!(path_node.flat_index_to_tree_index(31).index.is_empty());
    assert!(path_node.flat_index_to_tree_index(1000).index.is_empty());
}

#[test]
fn render_draws_markers_indentation_and_suffixes() {
    let mut root = PathNode::from("./tests/test_dirs");
    expand(&mut root, vec![]);
    expand(&mut root, vec![0]);
    let lines = Renderer::new(false).render(&root);
    assert_eq!(lines[0], "v dir0/");
    assert_eq!(lines[1], "\u{2502}   > dir3/");
    assert_eq!(lines[2], "\u{2502}   * file1");
    assert_eq!(lines[3], "\u{2514}   * file2");
    assert_eq!(lines[4], "> dir1/");
    assert_eq!(lines[5], "> dir2/");
    assert_eq!(lines[6], "* f00");
    assert_eq!(lines.len(), 4 + 12);

    let glyphs = Renderer::new(true).render(&root);
    assert_eq!(glyphs[0], "\u{e5fe} dir0/");
    assert_eq!(glyphs[4], "\u{e5ff} dir1/");

    let renderer = Renderer::new(false);
    assert_eq!(renderer.get_indent(0, true), "");
    assert_eq!(renderer.get_indent(2, true), "\u{2514}   \u{2514}   ");
    assert_eq!(renderer.get_indent(1, false), "\u{2502}   ");
}

#[test]
fn ordering_puts_directories_where_asked() {
    let mut a_dir = PathNode::from("b");
    a_dir.is_dir = true;
    let a_file = PathNode::from("a");
    let other_file = PathNode::from("ab");

    assert_eq!(PathNodeOrdering::Top.compare(&a_dir, &a_file), Ordering::Less);
    assert_eq!(PathNodeOrdering::Top.compare(&a_file, &a_dir), Ordering::Greater);
    assert_eq!(PathNodeOrdering::Bottom.compare(&a_dir, &a_file), Ordering::Greater);
    assert_eq!(PathNodeOrdering::Bottom.compare(&a_file, &a_dir), Ordering::Less);
    assert_eq!(PathNodeOrdering::Keep.compare(&a_dir, &a_file), Ordering::Equal);
    assert_eq!(PathNodeOrdering::Top.compare(&a_file, &other_file), Ordering::Less);
    assert_eq!(PathNodeOrdering::Top.compare(&other_file, &a_file), Ordering::Greater);
    assert_eq!(PathNodeOrdering::Top.compare(&a_file, &a_file), Ordering::Equal);

    let mut root = PathNode::from("./tests/test_dirs");
    let listing = read_test_dir("./tests/test_dirs/dir0");
    root.expand(&TreeIndex::new(), &PathNodeOrdering::Bottom, &listing);
    let names: Vec<&str> = root.children.iter().map(|c| c.display_text.as_str()).collect();
    assert_eq!(names, vec!["file1", "file2", "dir3"]);

    let mut root = PathNode::from("./tests/test_dirs");
    root.expand(&TreeIndex::new(), &PathNodeOrdering::Keep, &listing);
    let names: Vec<&str> = root.children.iter().map(|c| c.display_text.as_str()).collect();
    assert_eq!(names, vec!["file2", "dir3", "file1"]);
}

#[test]
fn expand_handles_failures_and_lenient_indices() {
    let mut root = PathNode::from("./tests/test_dirs");
    root.expand(&TreeIndex::new(), &PathNodeOrdering::Top, &DirListing::NotADirectory);
    assert!(!root.is_expanded);
    assert!(!root.is_err);
    assert!(root.children.is_empty());

    root.expand(&TreeIndex::new(), &PathNodeOrdering::Top, &DirListing::Unreadable);
    assert!(root.is_expanded);
    assert!(root.is_err);
    assert!(root.children.is_empty());

    let mut root = PathNode::from("./tests/test_dirs");
    expand(&mut root, vec![]);
    // A step that names no child is skipped: [40, 1] leads to child 1.
    let listing = read_test_dir("./tests/test_dirs/dir1");
    root.expand(&TreeIndex::from(vec![40, 1]), &PathNodeOrdering::Top, &listing);
    assert!(root.children[1].is_expanded);
    assert_eq!(root.children[1].children.len(), 5);
    assert_eq!(root.children[1].children[0].display_text, "dir4");
    assert!(!root.children[0].is_expanded);
}

#[test]
fn toggle_collapses_expanded_directories() {
    let mut root = get_expanded_path_node();
    // Row 1 is dir0/dir3, expanded with two files.
    let listing = read_test_dir("./tests/test_dirs/dir0/dir3");
    assert!(root.is_node_expanded(1, true));
    assert!(!root.is_node_expanded(1, false));
    let lines = root.toggle(1, &listing);
    assert_eq!(lines.len(), 29);
    assert!(!root.children[0].children[0].is_expanded);
    assert!(root.children[0].children[0].children.is_empty());
    let lines = root.toggle(1, &listing);
    assert_eq!(lines.len(), 31);
    assert!(root.children[0].children[0].is_expanded);

    let mut before = root.clone();
    before.collapse(&TreeIndex::from(vec![1, 0]));
    assert_eq!(Renderer::new(true).render(&before).len(), 31 - 8);
}

#[test]
fn explorer_collapses_at_the_cursor() {
    let root = get_expanded_path_node();
    let mut explorer = TreeExplorer::new(root, Renderer::new(false), PathNodeOrdering::Top);
    // Row 0 is dir0, an expanded directory: it is collapsed.
    let lines = explorer.do_collapse(0);
    assert_eq!(lines.len(), 31 - 5);
    assert_eq!(lines[0], "> dir0/");
    // Row 1 is now dir1, expanded as well.
    assert_eq!(explorer.get_parent_dir_cursor_delta(&TreeIndex::from(vec![1]), 1), 0);
    // A file two levels down is not collapsed: the tree stays as it is.
    let tree_index = explorer.root_node.flat_index_to_tree_index(8);
    assert_eq!(tree_index.index, vec![1, 0, 2, 2]);
    let delta = explorer.get_parent_dir_cursor_delta(&tree_index, 8);
    assert_eq!(delta, 5usize.wrapping_sub(8));
    let lines = explorer.do_collapse(8);
    assert_eq!(lines.len(), 26);
    explorer.do_reload();
    assert_eq!(explorer.renderer.render(&explorer.root_node).len(), 26);
}

#[test]
fn tree_index_order_and_parent() {
    let a = TreeIndex::from(vec![1, 0]);
    let b = TreeIndex::from(vec![1, 0, 2]);
    let c = TreeIndex::from(vec![1, 1]);
    assert_eq!(a.compare(&b), Ordering::Less);
    assert_eq!(b.compare(&c), Ordering::Less);
    assert_eq!(c.compare(&a), Ordering::Greater);
    assert_eq!(a.compare(&a.clone()), Ordering::Equal);
    assert!(b.at_or_after(&a));
    assert!(a.at_or_after(&a));
    assert!(!a.at_or_after(&b));
    assert_eq!(b.get_parent().index, vec![1, 0]);
    assert!(TreeIndex::new().get_parent().index.is_empty());
    assert!(TreeIndex::new().is_root());
}
