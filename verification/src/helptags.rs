//! Finding and merging the help tags of the editor's runtime path.

use vstd::prelude::*;
use vstd::string::StringExecFns;
use crate::text::chars_of;
use crate::text::repeat;
use crate::text::sort_lines;
use crate::text::split;
use crate::text::split_text;
use crate::text::string_of;
use crate::text::texts;
use crate::text::texts_sorted;

verus! {

/// Columns that the tag name takes in a line of output.
pub const TAG_COLUMNS: usize = 60;

/// Parse and display Vim helptags.
#[derive(Debug)]
pub struct Helptags {
    /// Tempfile containing the info of vim helptags.
    pub meta_info: String,
}

/// `x` without the slash at its end, if it has one.
pub open spec fn without_trailing_slash(x: Seq<char>) -> Seq<char> {
    if x.len() > 0 && x.last() == '/' {
        x.drop_last()
    } else {
        x
    }
}

/// `x` without the slash at its end, if it has one.
pub fn strip_trailing_slash(x: &str) -> (stripped: String)
    ensures
        stripped@ == without_trailing_slash(x@),
{
    let chars = chars_of(x);
    let count = chars.len();
    if count > 0 && chars[count - 1] == '/' {
        let stripped = string_of(&chars, 0, count - 1);
        assert(chars@.subrange(0, count - 1) =~= x@.drop_last());
        stripped
    } else {
        String::from_str(x)
    }
}

/// The tags file `doc_tag` below the directories of `runtimepath`, one per
/// directory, in order.
pub open spec fn tags_files_of(doc_tag: Seq<char>, runtimepath: Seq<char>) -> Seq<Seq<char>> {
    split(runtimepath, ',').map_values(|dir: Seq<char>| without_trailing_slash(dir) + doc_tag)
}

/// The paths of the tags file `doc_tag` below each directory of the
/// comma-separated `runtimepath`.
pub fn tags_files(doc_tag: &str, runtimepath: &str) -> (files: Vec<String>)
    ensures
        texts(files@) == tags_files_of(doc_tag@, runtimepath@),
{
    let dirs = split_text(runtimepath, ',');
    let mut files: Vec<String> = Vec::new();
    let mut i: usize = 0;
    while i < dirs.len()
        invariant
            i <= dirs@.len(),
            texts(dirs@) == split(runtimepath@, ','),
            texts(files@) == tags_files_of(doc_tag@, runtimepath@).take(i as int),
        decreases dirs@.len() - i,
    {
        let mut file = strip_trailing_slash(dirs[i].as_str());
        file.append(doc_tag);
        proof {
            let all = tags_files_of(doc_tag@, runtimepath@);
            assert(texts(dirs@)[i as int] == dirs@[i as int]@);
            assert(all[i as int] == file@);
            assert(all.take(i + 1) =~= all.take(i as int).push(all[i as int]));
            assert(texts(files@.push(file)) =~= texts(files@).push(file@));
        }
        files.push(file);
        i += 1;
    }
    assert(tags_files_of(doc_tag@, runtimepath@).take(dirs@.len() as int) =~= tags_files_of(
        doc_tag@,
        runtimepath@,
    ));
    files
}

/// A line of output for a tag: the name, filled with blanks up to
/// [`TAG_COLUMNS`] characters, a tab, and the file.
pub open spec fn helptag_text(name: Seq<char>, file: Seq<char>) -> Seq<char> {
    let fill = if name.len() < TAG_COLUMNS {
        (TAG_COLUMNS - name.len()) as nat
    } else {
        0
    };
    name + repeat(seq![' '], fill) + seq!['\t'] + file
}

/// A line of output for a tag.
pub fn helptag_line(name: &str, file: &str) -> (line: String)
    ensures
        line@ == helptag_text(name@, file@),
{
    let mut line = String::from_str(name);
    let count = name.unicode_len();
    let fill = if count < TAG_COLUMNS { TAG_COLUMNS - count } else { 0 };
    let mut i: usize = 0;
    while i < fill
        invariant
            i <= fill,
            line@ == name@ + repeat(seq![' '], i as nat),
        decreases fill - i,
    {
        line.push(' ');
        assert(line@ =~= name@ + (repeat(seq![' '], i as nat) + seq![' ']));
        i += 1;
    }
    line.push('\t');
    line.append(file);
    assert(line@ =~= helptag_text(name@, file@));
    line
}

/// Whether a line of a tags file holds a tag: a name, a tab, a file.
pub open spec fn is_helptag(line: Seq<char>) -> bool {
    split(line, '\t').len() >= 2
}

/// The name of the tag in a line of a tags file.
pub open spec fn tag_name(line: Seq<char>) -> Seq<char> {
    split(line, '\t')[0]
}

/// Whether the tag of line `i` was not named by an earlier line.
pub open spec fn first_of_its_name(lines: Seq<Seq<char>>, i: int) -> bool {
    forall|k: int| 0 <= k < i ==> tag_name(#[trigger] lines[k]) != tag_name(lines[i])
}

/// The output lines for the tags in the first `n` of `lines`, in the
/// order of the lines: one for each tag name, made from the first line that
/// names it.
pub open spec fn merged_upto(lines: Seq<Seq<char>>, n: nat) -> Seq<Seq<char>>
    decreases n,
{
    if n == 0 || n > lines.len() {
        Seq::empty()
    } else if first_of_its_name(lines, n - 1) {
        merged_upto(lines, (n - 1) as nat).push(
            helptag_text(split(lines[n - 1], '\t')[0], split(lines[n - 1], '\t')[1]),
        )
    } else {
        merged_upto(lines, (n - 1) as nat)
    }
}

/// The output lines for the tags in `lines`, one for each tag name, made
/// from the first line that names it.
pub open spec fn merged(lines: Seq<Seq<char>>) -> Seq<Seq<char>> {
    merged_upto(lines, lines.len())
}

/// Whether one of `names` is `name`.
pub fn names_contain(names: &Vec<String>, name: &str) -> (found: bool)
    ensures
        found == exists|k: int| 0 <= k < names@.len() && (#[trigger] names@[k])@ == name@,
{
    let mut k: usize = 0;
    while k < names.len()
        invariant
            k <= names@.len(),
            forall|q: int| 0 <= q < k ==> (#[trigger] names@[q])@ != name@,
        decreases names@.len() - k,
    {
        if crate::text::text_rank(names[k].as_str(), name) == 1 {
            return true;
        }
        k += 1;
    }
    false
}

/// The output for the lines of some tags files: one line per tag name,
/// made from the first line that names it, in the order of `str`.
pub fn merge_helptags(lines: &Vec<String>) -> (output: Vec<String>)
    requires
        forall|i: int| 0 <= i < lines@.len() ==> is_helptag(#[trigger] lines@[i]@),
    ensures
        texts_sorted(texts(output@)),
        texts(output@).to_multiset() == merged(texts(lines@)).to_multiset(),
{
    let mut names: Vec<String> = Vec::new();
    let mut found: Vec<String> = Vec::new();
    let ghost all = texts(lines@);
    let mut i: usize = 0;
    while i < lines.len()
        invariant
            i <= lines@.len(),
            all == texts(lines@),
            forall|k: int| 0 <= k < lines@.len() ==> is_helptag(#[trigger] lines@[k]@),
            texts(found@) == merged_upto(all, i as nat),
            names@.len() == i,
            forall|k: int| 0 <= k < i ==> (#[trigger] names@[k])@ == tag_name(all[k]),
        decreases lines@.len() - i,
    {
        assert(is_helptag(lines@[i as int]@));
        assert(all[i as int] == lines@[i as int]@);
        let fields = split_text(lines[i].as_str(), '\t');
        assert(texts(fields@)[0] == fields@[0]@ && texts(fields@)[1] == fields@[1]@);
        let seen = names_contain(&names, fields[0].as_str());
        proof {
            if seen {
                let k = choose|k: int| 0 <= k < names@.len() && (#[trigger] names@[k])@ == fields@[0]@;
                assert(tag_name(all[k]) == tag_name(all[i as int]));
                assert(!first_of_its_name(all, i as int));
            } else {
                assert forall|k: int| 0 <= k < i implies tag_name(#[trigger] all[k]) != tag_name(
                    all[i as int],
                ) by {
                    assert(names@[k]@ == tag_name(all[k]));
                }
                assert(first_of_its_name(all, i as int));
            }
        }
        if !seen {
            let line = helptag_line(fields[0].as_str(), fields[1].as_str());
            proof {
                assert(texts(found@.push(line)) =~= texts(found@).push(line@));
            }
            found.push(line);
        }
        names.push(fields[0].clone());
        i += 1;
    }
    sort_lines(found)
}

} // verus!
