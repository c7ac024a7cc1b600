//! Turns a directory tree into the lines shown by the file explorer.

use vstd::prelude::*;
use vstd::string::StringExecFns;
use crate::path_node::lemma_model_children;
use crate::path_node::models;
use crate::path_node::PathNode;
use crate::text::chars_of;
use crate::text::repeat;
use crate::text::repeat_str;
use crate::text::string_of;
use crate::text::texts;
use crate::tree::Tree;

verus! {

/// The characters that mark the state of a directory.
#[derive(Clone, Copy, Debug)]
pub struct IconChar {
    pub err: char,
    pub expanded: char,
    pub collapsed: char,
}

/// The marker of `node` among `icons`: failure before expansion.
pub open spec fn icon_for(icons: IconChar, node: Tree) -> char {
    if node.is_err {
        icons.err
    } else if node.is_expanded {
        icons.expanded
    } else {
        icons.collapsed
    }
}

/// The markers drawn with common symbols.
pub open spec fn symbol_icons() -> IconChar {
    IconChar { err: '\u{2a2f}', expanded: '\u{25bc}', collapsed: '\u{25b6}' }
}

/// The markers drawn with patched-font glyphs.
pub open spec fn glyph_icons() -> IconChar {
    IconChar { err: '\u{2a2f}', expanded: '\u{e5fe}', collapsed: '\u{e5ff}' }
}

/// The markers drawn with plain letters.
pub open spec fn ascii_icons() -> IconChar {
    IconChar { err: 'x', expanded: 'v', collapsed: '>' }
}

impl Default for IconChar {
    fn default() -> (icons: IconChar)
        ensures
            icons == symbol_icons(),
    {
        IconChar { err: '\u{2a2f}', expanded: '\u{25bc}', collapsed: '\u{25b6}' }
    }
}

impl IconChar {
    /// The marker for a directory node.
    pub fn char_for(&self, path_node: &PathNode) -> (icon: char)
        ensures
            icon == icon_for(*self, path_node@),
    {
        if path_node.is_err {
            self.err
        } else if path_node.is_expanded {
            self.expanded
        } else {
            self.collapsed
        }
    }
}

/// What decides how a line looks.
pub ghost struct RenderStyle {
    /// Columns per level of indentation, at least one.
    pub indent: nat,
    /// The character that follows the branch mark.
    pub indent_char: char,
    /// The markers of directories.
    pub icons: IconChar,
}

/// The style of a renderer made for the given kind of terminal.
pub open spec fn style_for(use_utf8: bool) -> RenderStyle {
    RenderStyle {
        indent: 2,
        indent_char: ' ',
        icons: if use_utf8 {
            glyph_icons()
        } else {
            ascii_icons()
        },
    }
}

impl RenderStyle {
    /// One level of indentation: the branch mark, a space, the indent
    /// character, and blanks up to the indent width.
    pub open spec fn indent_unit(self, is_last: bool) -> Seq<char> {
        seq![if is_last { '\u{2514}' } else { '\u{2502}' }, ' ', self.indent_char] + repeat(
            seq![' '],
            (self.indent - 1) as nat,
        )
    }

    /// The indentation of a line at `depth`.
    pub open spec fn indent_text(self, depth: nat, is_last: bool) -> Seq<char> {
        repeat(self.indent_unit(is_last), depth)
    }

    /// What stands in front of the name: the directory marker or the file
    /// icon, and a space.
    pub open spec fn prefix_text(self, node: Tree) -> Seq<char> {
        seq![if node.is_dir { icon_for(self.icons, node) } else { node.icon }, ' ']
    }

    /// What follows the name: a slash for a directory.
    pub open spec fn suffix_text(self, node: Tree) -> Seq<char> {
        if node.is_dir {
            seq!['/']
        } else {
            Seq::empty()
        }
    }

    /// The line for `node` at `depth`; `is_last` says whether it is the
    /// last child of its parent.
    pub open spec fn line(self, node: Tree, depth: nat, is_last: bool) -> Seq<char> {
        self.indent_text(depth, is_last) + self.prefix_text(node) + node.display_text
            + self.suffix_text(node)
    }

    /// The lines for the first `n` children of `tree` and all that is shown
    /// below them, the children standing at `depth`.
    pub open spec fn lines_upto(self, tree: Tree, depth: nat, n: nat) -> Seq<Seq<char>>
        decreases tree, n,
    {
        if n == 0 || n > tree.children.len() {
            Seq::empty()
        } else {
            let child = tree.children[n - 1];
            self.lines_upto(tree, depth, (n - 1) as nat) + seq![
                self.line(child, depth, n == tree.children.len()),
            ] + self.lines(child, depth + 1)
        }
    }

    /// The lines for all that is shown below `tree`, its children standing
    /// at `depth`: one line per display row, in display order.
    pub open spec fn lines(self, tree: Tree, depth: nat) -> Seq<Seq<char>>
        decreases tree, tree.children.len() + 1,
    {
        self.lines_upto(tree, depth, tree.children.len())
    }
}

/// `string` cut to `desired_char_count` characters: unchanged where it is
/// short enough, otherwise its first characters with a tilde in the last
/// place.
pub open spec fn truncated(string: Seq<char>, desired_char_count: nat) -> Seq<char> {
    if desired_char_count < 1 {
        Seq::empty()
    } else if desired_char_count >= string.len() {
        string
    } else {
        string.take(desired_char_count - 1).push('~')
    }
}

/// Renders a tree line by line.
#[derive(Clone, Copy, Debug)]
pub struct Renderer {
    use_utf8: bool,
    show_indent: bool,
    indent: usize,
    indent_char: char,
    icon_char: IconChar,
}

impl Default for Renderer {
    fn default() -> (renderer: Renderer)
        ensures
            renderer.style() == (RenderStyle { icons: symbol_icons(), ..style_for(true) }),
    {
        Renderer {
            use_utf8: true,
            show_indent: true,
            indent: 2,
            indent_char: ' ',
            icon_char: IconChar { err: '\u{2a2f}', expanded: '\u{25bc}', collapsed: '\u{25b6}' },
        }
    }
}

impl Renderer {
    #[verifier::type_invariant]
    spec fn inv(self) -> bool {
        self.indent >= 1
    }

    /// How this renderer draws.
    pub closed spec fn style(&self) -> RenderStyle {
        RenderStyle {
            indent: self.indent as nat,
            indent_char: self.indent_char,
            icons: self.icon_char,
        }
    }

    /// A renderer with patched-font markers where the terminal shows
    /// UTF-8, with plain letters where it does not.
    pub fn new(use_utf8: bool) -> (renderer: Renderer)
        ensures
            renderer.style() == style_for(use_utf8),
    {
        let icon_char = if use_utf8 {
            IconChar { err: '\u{2a2f}', expanded: '\u{e5fe}', collapsed: '\u{e5ff}' }
        } else {
            IconChar { err: 'x', expanded: 'v', collapsed: '>' }
        };
        Renderer { use_utf8: true, show_indent: true, indent: 2, indent_char: ' ', icon_char }
    }

    /// Cuts `string` to `desired_char_count` characters; a tilde in the
    /// last place shows that something was cut.
    pub fn truncate_string(string: &str, desired_char_count: usize) -> (cut: String)
        ensures
            cut@ == truncated(string@, desired_char_count as nat),
    {
        if desired_char_count < 1 {
            return String::new();
        }
        let chars = chars_of(string);
        if desired_char_count >= chars.len() {
            return String::from_str(string);
        }
        let mut cut = string_of(&chars, 0, desired_char_count - 1);
        cut.push('~');
        cut
    }

    /// The lines for everything shown below `path_node`, top to bottom:
    /// one line for each display row.
    pub fn render(&self, path_node: &PathNode) -> (lines: Vec<String>)
        ensures
            texts(lines@) == self.style().lines(path_node@, 0),
            lines@.len() == path_node@.rows().len(),
    {
        let mut res: Vec<String> = Vec::new();
        let indent_last = String::new();
        let indent_mid = String::new();
        self.render_path_node_recursive(
            path_node,
            &mut res,
            Ghost(0),
            indent_last.as_str(),
            indent_mid.as_str(),
        );
        assert(texts(res@) =~= self.style().lines(path_node@, 0)) by {
            assert(texts(Seq::<String>::empty()) =~= Seq::<Seq<char>>::empty());
        }
        res
    }

    fn render_path_node_recursive(
        &self,
        path_node: &PathNode,
        texts: &mut Vec<String>,
        Ghost(depth): Ghost<nat>,
        indent_last: &str,
        indent_mid: &str,
    )
        requires
            indent_last@ == self.style().indent_text(depth, true),
            indent_mid@ == self.style().indent_text(depth, false),
        ensures
            crate::text::texts(final(texts)@) == crate::text::texts(old(texts)@) + self.style().lines(
                path_node@,
                depth,
            ),
            final(texts)@.len() == old(texts)@.len() + path_node@.rows().len(),
        decreases path_node,
    {
        broadcast use lemma_model_children;

        let ghost style = self.style();
        let ghost tree = path_node@;
        let ghost start = crate::text::texts(texts@);
        let ghost count = texts@.len();
        let unit_last = self.indent_unit(true);
        let unit_mid = self.indent_unit(false);
        let mut next_last = String::from_str(indent_last);
        next_last.append(unit_last.as_str());
        let mut next_mid = String::from_str(indent_mid);
        next_mid.append(unit_mid.as_str());
        let mut i: usize = 0;
        assert(start + style.lines_upto(tree, depth, 0) =~= start);
        while i < path_node.children.len()
            invariant
                i <= path_node.children@.len(),
                style == self.style(),
                tree == path_node@,
                tree.children == models(path_node.children@),
                indent_last@ == style.indent_text(depth, true),
                indent_mid@ == style.indent_text(depth, false),
                next_last@ == style.indent_text(depth + 1, true),
                next_mid@ == style.indent_text(depth + 1, false),
                crate::text::texts(texts@) == start + style.lines_upto(tree, depth, i as nat),
                texts@.len() == count + tree.rows_upto(i as nat).len(),
            decreases path_node.children@.len() - i,
        {
            let child = &path_node.children[i];
            let dir_prefix = self.get_dir_prefix(child);
            let dir_suffix = self.get_dir_suffix(child);
            let is_last = i == path_node.children.len() - 1;
            let mut text = String::from_str(if is_last { indent_last } else { indent_mid });
            text.append(dir_prefix.as_str());
            text.append(child.display_text.as_str());
            text.append(dir_suffix.as_str());
            let ghost before = crate::text::texts(texts@);
            texts.push(text);
            proof {
                assert(text@ == style.line(child@, depth, is_last));
                assert(crate::text::texts(texts@) =~= before.push(text@));
            }
            self.render_path_node_recursive(
                child,
                texts,
                Ghost(depth + 1),
                next_last.as_str(),
                next_mid.as_str(),
            );
            proof {
                assert(tree.children[i as int] == child@);
                assert(crate::text::texts(texts@) =~= start + style.lines_upto(
                    tree,
                    depth,
                    (i + 1) as nat,
                ));
                assert(tree.rows_upto((i + 1) as nat) == tree.rows_upto(i as nat) + seq![seq![i]]
                    + child@.rows().map_values(|row: Seq<usize>| seq![i] + row));
            }
            i += 1;
        }
    }

    /// What stands in front of the name of `path_node`.
    pub fn get_dir_prefix(&self, path_node: &PathNode) -> (prefix: String)
        ensures
            prefix@ == self.style().prefix_text(path_node@),
    {
        let mut prefix = String::new();
        if path_node.is_dir {
            prefix.push(self.icon_char.char_for(path_node));
        } else {
            prefix.push(path_node.icon);
        }
        prefix.push(' ');
        assert(prefix@ =~= self.style().prefix_text(path_node@));
        prefix
    }

    /// What follows the name of `path_node`.
    pub fn get_dir_suffix(&self, path_node: &PathNode) -> (suffix: String)
        ensures
            suffix@ == self.style().suffix_text(path_node@),
    {
        if path_node.is_dir {
            let mut suffix = String::new();
            suffix.push('/');
            assert(suffix@ =~= seq!['/']);
            suffix
        } else {
            String::new()
        }
    }

    /// One level of indentation.
    pub fn indent_unit(&self, is_last: bool) -> (unit: String)
        ensures
            unit@ == self.style().indent_unit(is_last),
    {
        proof {
            use_type_invariant(self);
        }
        let mut unit = String::new();
        if is_last {
            unit.push('\u{2514}');
        } else {
            unit.push('\u{2502}');
        }
        unit.push(' ');
        unit.push(self.indent_char);
        let blanks = repeat_str(" ", self.indent - 1);
        proof {
            reveal_strlit(" ");
            assert(" "@ =~= seq![' ']);
        }
        unit.append(blanks.as_str());
        assert(unit@ =~= self.style().indent_unit(is_last));
        unit
    }

    /// The indentation of a line at `depth`.
    pub fn get_indent(&self, depth: usize, is_last: bool) -> (indent: String)
        ensures
            indent@ == self.style().indent_text(depth as nat, is_last),
    {
        let unit = self.indent_unit(is_last);
        repeat_str(unit.as_str(), depth)
    }
}

} // verus!
