//! Tags as ctags reports them, and the tree of scopes they form.

use vstd::prelude::*;
use vstd::string::StringExecFns;
use crate::text::decimal;
use crate::text::repeat;
use crate::text::repeat_str;
use crate::text::text_rank;
use crate::text::texts;
use crate::text::u64_to_string;

verus! {

/// Generate ctags recursively given the directory.
#[derive(Debug)]
pub struct Ctags {
    /// The directory to generate recursive ctags.
    pub dir: String,
    /// Exclude files and directories matching 'pattern'.
    pub exclude: Vec<String>,
}

/// The name of the scope that a tag belongs to.
#[derive(Debug)]
pub struct ScopeName(pub String);

/// The scope that a tag belongs to.
#[derive(Debug)]
pub struct Scope {
    pub name: ScopeName,
    pub scope_kind: String,
}

/// Type parsed from the line produced by ctags.
#[derive(Debug)]
pub struct BaseTag {
    pub name: String,
    pub line_number: usize,
    pub kind: String,
    pub access: Option<String>,
    pub signature: Option<String>,
    pub scope: Option<Scope>,
}

/// A tag with its place in the tree of scopes.
#[derive(Debug)]
pub struct TreeTag {
    pub inner: BaseTag,
    pub depth: usize,
    pub parent: Option<BaseTag>,
    pub children: Vec<TreeTag>,
}

/// The tags of a file as a forest.
#[derive(Debug)]
pub struct FileTags {
    pub root_tags: Vec<TreeTag>,
}

/// A copy of an optional text.
fn copy_text(text: &Option<String>) -> (copy: Option<String>)
    ensures
        copy == *text,
{
    match text {
        Some(inner) => Some(inner.clone()),
        None => None,
    }
}

impl BaseTag {
    /// A copy of this tag, field for field.
    pub fn duplicate(&self) -> (copy: BaseTag)
        ensures
            copy == *self,
    {
        BaseTag {
            name: self.name.clone(),
            line_number: self.line_number,
            kind: self.kind.clone(),
            access: copy_text(&self.access),
            signature: copy_text(&self.signature),
            scope: match &self.scope {
                Some(scope) => Some(
                    Scope {
                        name: ScopeName(scope.name.0.clone()),
                        scope_kind: scope.scope_kind.clone(),
                    },
                ),
                None => None,
            },
        }
    }

    /// Whether this tag stands outside any scope.
    pub open spec fn is_root(&self) -> bool {
        self.scope is None
    }

    /// Whether this tag belongs to the scope named `name`.
    pub open spec fn in_scope_of(&self, name: Seq<char>) -> bool {
        self.scope matches Some(scope) && scope.name.0@ == name
    }

    /// Whether this tag belongs to the scope named `name`.
    pub fn belongs_to(&self, name: &str) -> (inside: bool)
        ensures
            inside == self.in_scope_of(name@),
    {
        match &self.scope {
            Some(scope) => text_rank(scope.name.0.as_str(), name) == 1,
            None => false,
        }
    }
}

/// The tags of the first `n` of `taglines` that stand outside any scope,
/// in order.
pub open spec fn roots_upto(taglines: Seq<BaseTag>, n: nat) -> Seq<BaseTag>
    decreases n,
{
    if n == 0 || n > taglines.len() {
        Seq::empty()
    } else if taglines[n - 1].is_root() {
        roots_upto(taglines, (n - 1) as nat).push(taglines[n - 1])
    } else {
        roots_upto(taglines, (n - 1) as nat)
    }
}

/// The tags of the first `n` of `taglines` that belong to the scope
/// named `name`, in order.
pub open spec fn members_upto(taglines: Seq<BaseTag>, name: Seq<char>, n: nat) -> Seq<BaseTag>
    decreases n,
{
    if n == 0 || n > taglines.len() {
        Seq::empty()
    } else if taglines[n - 1].in_scope_of(name) {
        members_upto(taglines, name, (n - 1) as nat).push(taglines[n - 1])
    } else {
        members_upto(taglines, name, (n - 1) as nat)
    }
}

impl TreeTag {
    /// Whether this is the tree tag of a tag outside any scope: at depth
    /// one, without parent and children.
    pub open spec fn is_fresh(&self, inner: BaseTag) -> bool {
        &&& self.inner == inner
        &&& self.depth == 1
        &&& self.parent is None
        &&& self.children@.len() == 0
    }

    /// Whether this is the tree tag of the member `inner` of a scope at
    /// `depth`: one level deeper, without children. The tag itself is
    /// kept as parent.
    pub open spec fn is_member(&self, inner: BaseTag, depth: usize) -> bool {
        &&& self.inner == inner
        &&& self.depth == depth + 1
        &&& self.parent == Some(inner)
        &&& self.children@.len() == 0
    }

    /// Whether this is the tree of the root tag `inner` among `taglines`:
    /// at depth one, with the members of its scope as children, in order.
    pub open spec fn is_tree_of(&self, inner: BaseTag, taglines: Seq<BaseTag>) -> bool {
        let members = members_upto(taglines, inner.name@, taglines.len());
        &&& self.inner == inner
        &&& self.depth == 1
        &&& self.parent is None
        &&& self.children@.len() == members.len()
        &&& forall|k: int|
            0 <= k < members.len() ==> (#[trigger] self.children@[k]).is_member(members[k], 1)
    }

    /// The tree tag of a tag outside any scope.
    pub fn from_base(inner: BaseTag) -> (tag: TreeTag)
        ensures
            tag.is_fresh(inner),
    {
        TreeTag { inner, depth: 1, parent: None, children: Vec::new() }
    }

    /// The text in front of this tag's line: a tab per level, the name, a
    /// colon, the line number.
    pub open spec fn heading_spec(&self) -> Seq<char> {
        repeat(seq!['\t'], self.depth as nat) + self.inner.name@ + seq![':'] + decimal(
            self.inner.line_number as nat,
        )
    }

    /// The text in front of this tag's line.
    pub fn heading(&self) -> (text: String)
        ensures
            text@ == self.heading_spec(),
    {
        proof {
            reveal_strlit("\t");
            assert("\t"@ =~= seq!['\t']);
        }
        let mut text = repeat_str("\t", self.depth);
        text.append(self.inner.name.as_str());
        text.push(':');
        text.append(u64_to_string(self.inner.line_number as u64).as_str());
        assert(text@ =~= self.heading_spec());
        text
    }

    /// The headings of this tag and of the first `n` of its children with
    /// all below them, top to bottom.
    pub open spec fn headings_upto(&self, n: nat) -> Seq<Seq<char>>
        decreases self, n,
    {
        if n == 0 || n > self.children@.len() {
            seq![self.heading_spec()]
        } else {
            self.headings_upto((n - 1) as nat) + self.children@[n - 1].headings()
        }
    }

    /// The headings of this tag and of all below it, top to bottom.
    pub open spec fn headings(&self) -> Seq<Seq<char>>
        decreases self, self.children@.len() + 1,
    {
        self.headings_upto(self.children@.len())
    }

    /// Appends the headings of this tag and of all below it to `out`.
    pub fn list_recursive(&self, out: &mut Vec<String>)
        ensures
            texts(final(out)@) == texts(old(out)@) + self.headings(),
        decreases self,
    {
        let ghost start = texts(out@);
        let heading = self.heading();
        out.push(heading);
        assert(texts(out@) =~= start + self.headings_upto(0));
        let mut i: usize = 0;
        while i < self.children.len()
            invariant
                i <= self.children@.len(),
                texts(out@) == start + self.headings_upto(i as nat),
            decreases self.children@.len() - i,
        {
            self.children[i].list_recursive(out);
            assert(texts(out@) =~= start + self.headings_upto((i + 1) as nat));
            i += 1;
        }
    }
}

/// The children of the scope `name` among `taglines`, one level below
/// `depth`.
pub fn scope_members(taglines: &Vec<BaseTag>, name: &str, depth: usize) -> (members: Vec<TreeTag>)
    requires
        depth < usize::MAX,
    ensures
        members@.len() == members_upto(taglines@, name@, taglines@.len()).len(),
        forall|k: int|
            0 <= k < members@.len() ==> (#[trigger] members@[k]).is_member(
                members_upto(taglines@, name@, taglines@.len())[k],
                depth,
            ),
{
    let mut members: Vec<TreeTag> = Vec::new();
    let mut i: usize = 0;
    while i < taglines.len()
        invariant
            i <= taglines@.len(),
            depth < usize::MAX,
            members@.len() == members_upto(taglines@, name@, i as nat).len(),
            forall|k: int|
                0 <= k < members@.len() ==> (#[trigger] members@[k]).is_member(
                    members_upto(taglines@, name@, i as nat)[k],
                    depth,
                ),
        decreases taglines@.len() - i,
    {
        if taglines[i].belongs_to(name) {
            let child = TreeTag {
                inner: taglines[i].duplicate(),
                depth: depth + 1,
                parent: Some(taglines[i].duplicate()),
                children: Vec::new(),
            };
            members.push(child);
        }
        i += 1;
    }
    members
}

/// The forest of `taglines`: a tree for every tag outside any scope, in
/// order, with the tags of its scope as children.
pub fn build_tree(taglines: &Vec<BaseTag>) -> (forest: FileTags)
    ensures
        forest.root_tags@.len() == roots_upto(taglines@, taglines@.len()).len(),
        forall|r: int|
            0 <= r < forest.root_tags@.len() ==> (#[trigger] forest.root_tags@[r]).is_tree_of(
                roots_upto(taglines@, taglines@.len())[r],
                taglines@,
            ),
{
    let mut root_tags: Vec<TreeTag> = Vec::new();
    let mut i: usize = 0;
    while i < taglines.len()
        invariant
            i <= taglines@.len(),
            root_tags@.len() == roots_upto(taglines@, i as nat).len(),
            forall|r: int|
                0 <= r < root_tags@.len() ==> (#[trigger] root_tags@[r]).is_tree_of(
                    roots_upto(taglines@, i as nat)[r],
                    taglines@,
                ),
        decreases taglines@.len() - i,
    {
        if taglines[i].scope.is_none() {
            let mut root = TreeTag::from_base(taglines[i].duplicate());
            root.children = scope_members(taglines, taglines[i].name.as_str(), 1);
            root_tags.push(root);
        }
        i += 1;
    }
    FileTags { root_tags }
}

/// The headings of the first `n` of `roots` with all below them.
pub open spec fn forest_headings(roots: Seq<TreeTag>, n: nat) -> Seq<Seq<char>>
    decreases n,
{
    if n == 0 || n > roots.len() {
        Seq::empty()
    } else {
        forest_headings(roots, (n - 1) as nat) + roots[n - 1].headings()
    }
}

impl FileTags {
    /// The headings of all tags, tree by tree, each top to bottom.
    pub fn listing(&self) -> (lines: Vec<String>)
        ensures
            texts(lines@) == forest_headings(self.root_tags@, self.root_tags@.len()),
    {
        let mut lines: Vec<String> = Vec::new();
        let mut i: usize = 0;
        assert(texts(lines@) =~= forest_headings(self.root_tags@, 0));
        while i < self.root_tags.len()
            invariant
                i <= self.root_tags@.len(),
                texts(lines@) == forest_headings(self.root_tags@, i as nat),
            decreases self.root_tags@.len() - i,
        {
            self.root_tags[i].list_recursive(&mut lines);
            i += 1;
        }
        lines
    }
}

} // verus!
