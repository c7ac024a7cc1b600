//! Results of a search-based jump as they go to the editor.

use std::collections::HashMap;
use vstd::prelude::*;
use vstd::string::StringExecFns;
use crate::text::decimal;
use crate::text::text_rank;
use crate::text::u64_to_string;
use crate::preview::lines_between;

verus! {

/// How many results are sent to the editor at most.
pub const TOP_ITEMS: usize = 200;

/// All the lines as well as their match indices that can be sent to the
/// editor directly.
#[derive(Debug)]
pub struct Lines {
    pub lines: Vec<String>,
    pub indices: Vec<Vec<usize>>,
}

/// What is sent of the results: the top lines with their indices, and the
/// number of all lines.
pub struct TopLines {
    pub lines: Vec<String>,
    pub indices: Vec<Vec<usize>>,
    pub total: usize,
}

impl Lines {
    /// Constructs a new instance of [`Lines`].
    pub fn new(lines: Vec<String>, indices: Vec<Vec<usize>>) -> (all: Lines)
        ensures
            all.lines == lines,
            all.indices == indices,
    {
        Lines { lines, indices }
    }

    /// The number of lines.
    pub fn total(&self) -> (total: usize)
        ensures
            total == self.lines@.len(),
    {
        self.lines.len()
    }

    /// What is sent to the editor: the first lines and indices, at most
    /// [`TOP_ITEMS`] of each, and the number of all lines.
    pub fn top(&self) -> (top: TopLines)
        ensures
            top.total == self.lines@.len(),
            top.lines@ == lines_between(self.lines@, 0, TOP_ITEMS as int),
            top.indices@.len() == lines_between(self.indices@, 0, TOP_ITEMS as int).len(),
            forall|i: int|
                0 <= i < top.indices@.len() ==> (#[trigger] top.indices@[i])@ == self.indices@[i]@,
    {
        let mut lines: Vec<String> = Vec::new();
        let mut i: usize = 0;
        let to = if TOP_ITEMS < self.lines.len() { TOP_ITEMS } else { self.lines.len() };
        while i < to
            invariant
                i <= to <= self.lines@.len(),
                lines@ == self.lines@.subrange(0, i as int),
            decreases to - i,
        {
            lines.push(self.lines[i].clone());
            assert(self.lines@.subrange(0, i + 1) =~= self.lines@.subrange(0, i as int).push(
                self.lines@[i as int],
            ));
            i += 1;
        }
        let mut indices: Vec<Vec<usize>> = Vec::new();
        let mut k: usize = 0;
        let upto = if TOP_ITEMS < self.indices.len() { TOP_ITEMS } else { self.indices.len() };
        while k < upto
            invariant
                k <= upto <= self.indices@.len(),
                indices@.len() == k,
                forall|j: int| 0 <= j < k ==> (#[trigger] indices@[j])@ == self.indices@[j]@,
            decreases upto - k,
        {
            indices.push(self.indices[k].clone());
            k += 1;
        }
        TopLines { lines, indices, total: self.lines.len() }
    }
}

/// Whether a jump is searched for at all: an empty query finds nothing.
pub fn should_search(query: &str) -> (search: bool)
    ensures
        search == (query@.len() > 0),
{
    !query.is_empty()
}

/// A line of a grouped result, with the indices of its matches if it has
/// any.
#[derive(Debug)]
pub struct DisplayLine {
    pub display: String,
    pub indices: Option<Vec<usize>>,
}

/// Where a result line leads.
#[derive(Debug)]
pub struct Location {
    pub path: String,
    pub line_number: u64,
}

/// The result lines in groups, and where each of them leads.
#[derive(Debug)]
pub struct DisplayLines {
    pub lines: Vec<DisplayLine>,
    pub locations: HashMap<usize, Location>,
}

/// What a jump found, plain or in groups.
#[derive(Debug)]
pub enum Results {
    Lines(Lines),
    DisplayLines(DisplayLines),
}

/// One place that a search found, with the line made for it.
#[derive(Debug)]
pub struct JumpMatch {
    /// The file in which the place lies.
    pub path: String,
    /// The number of the line, where it is known.
    pub line_number: Option<u64>,
    /// The line shown for the place.
    pub display: String,
    /// Where the word stands in that line.
    pub indices: Vec<usize>,
}

/// Whether no match before `i` lies in the file of match `i`.
pub open spec fn opens_group(matches: Seq<JumpMatch>, i: int) -> bool {
    forall|k: int| 0 <= k < i ==> (#[trigger] matches[k]).path@ != matches[i].path@
}

/// How many of the first `n` matches lie in the file `path`.
pub open spec fn in_file(matches: Seq<JumpMatch>, path: Seq<char>, n: nat) -> nat
    decreases n,
{
    if n == 0 || n > matches.len() {
        0
    } else {
        in_file(matches, path, (n - 1) as nat) + if matches[n - 1].path@ == path {
            1nat
        } else {
            0nat
        }
    }
}

/// How many files the first `n` matches lie in.
pub open spec fn files_upto(matches: Seq<JumpMatch>, n: nat) -> nat
    decreases n,
{
    if n == 0 || n > matches.len() {
        0
    } else {
        files_upto(matches, (n - 1) as nat) + if opens_group(matches, n - 1) {
            1nat
        } else {
            0nat
        }
    }
}

/// A shown line as a value: its text and, where it has any, its indices.
pub ghost struct ShownLine {
    pub display: Seq<char>,
    pub indices: Option<Seq<usize>>,
}

impl DisplayLine {
    /// This line as a value.
    pub open spec fn shown(&self) -> ShownLine {
        ShownLine {
            display: self.display@,
            indices: match self.indices {
                Some(indices) => Some(indices@),
                None => None,
            },
        }
    }
}

/// The lines of `lines` as values.
pub open spec fn shown_lines(lines: Seq<DisplayLine>) -> Seq<ShownLine> {
    lines.map_values(|line: DisplayLine| line.shown())
}

/// A line without indices.
pub open spec fn plain_line(display: Seq<char>) -> ShownLine {
    ShownLine { display, indices: None }
}

/// The line above all groups: how many matches of which kind in how
/// many files.
pub open spec fn title_text(matches: Seq<JumpMatch>, kind: Seq<char>) -> Seq<char> {
    decimal(matches.len()) + seq![' '] + kind + " in "@ + decimal(
        files_upto(matches, matches.len()),
    ) + " files"@
}

/// The line above a group: the file and, in brackets, how many matches
/// lie in it.
pub open spec fn header_text(matches: Seq<JumpMatch>, path: Seq<char>) -> Seq<char> {
    path + " ["@ + decimal(in_file(matches, path, matches.len())) + seq![']']
}

/// The lines for those of the first `n` matches that lie in `path`.
pub open spec fn member_lines(matches: Seq<JumpMatch>, path: Seq<char>, n: nat) -> Seq<ShownLine>
    decreases n,
{
    if n == 0 || n > matches.len() {
        Seq::empty()
    } else if matches[n - 1].path@ == path {
        member_lines(matches, path, (n - 1) as nat).push(
            ShownLine {
                display: matches[n - 1].display@,
                indices: Some(matches[n - 1].indices@),
            },
        )
    } else {
        member_lines(matches, path, (n - 1) as nat)
    }
}

/// The lines for the group of the file `path`: the title above the first
/// group only, the header, a line for each match in the file, and an empty
/// line.
pub open spec fn group_lines(
    matches: Seq<JumpMatch>,
    kind: Seq<char>,
    path: Seq<char>,
    first: bool,
) -> Seq<ShownLine> {
    (if first {
        seq![plain_line(title_text(matches, kind))]
    } else {
        Seq::empty()
    }) + seq![plain_line(header_text(matches, path))] + member_lines(matches, path, matches.len())
        + seq![plain_line(Seq::empty())]
}

/// The lines for the groups that the first `n` matches open, group by
/// group in the order in which the files first occur.
pub open spec fn grouped_lines(matches: Seq<JumpMatch>, kind: Seq<char>, n: nat) -> Seq<ShownLine>
    decreases n,
{
    if n == 0 || n > matches.len() {
        Seq::empty()
    } else if opens_group(matches, n - 1) {
        grouped_lines(matches, kind, (n - 1) as nat) + group_lines(
            matches,
            kind,
            matches[n - 1].path@,
            files_upto(matches, (n - 1) as nat) == 0,
        )
    } else {
        grouped_lines(matches, kind, (n - 1) as nat)
    }
}

/// Where a match leads; an unknown line number counts as zero.
pub open spec fn leads_to(found: JumpMatch) -> (Seq<char>, u64) {
    (
        found.path@,
        match found.line_number {
            Some(number) => number,
            None => 0,
        },
    )
}

/// Where those of the first `n` matches lead that lie in `path`.
pub open spec fn member_places(matches: Seq<JumpMatch>, path: Seq<char>, n: nat) -> Seq<
    (Seq<char>, u64),
>
    decreases n,
{
    if n == 0 || n > matches.len() {
        Seq::empty()
    } else if matches[n - 1].path@ == path {
        member_places(matches, path, (n - 1) as nat).push(leads_to(matches[n - 1]))
    } else {
        member_places(matches, path, (n - 1) as nat)
    }
}

/// Where the matches lead, group by group, for the groups that the first
/// `n` matches open.
pub open spec fn grouped_places(matches: Seq<JumpMatch>, n: nat) -> Seq<(Seq<char>, u64)>
    decreases n,
{
    if n == 0 || n > matches.len() {
        Seq::empty()
    } else if opens_group(matches, n - 1) {
        grouped_places(matches, (n - 1) as nat) + member_places(
            matches,
            matches[n - 1].path@,
            matches.len(),
        )
    } else {
        grouped_places(matches, (n - 1) as nat)
    }
}

/// Whether `locations` numbers `places` from two on and holds nothing
/// else.
pub open spec fn numbers_places(locations: Map<usize, Location>, places: Seq<(Seq<char>, u64)>) -> bool {
    &&& forall|key: usize| locations.contains_key(key) <==> 2 <= key < places.len() + 2
    &&& forall|k: int|
        0 <= k < places.len() ==> {
            let location = #[trigger] locations[(k + 2) as usize];
            (location.path@, location.line_number) == places[k]
        }
}

/// No more matches lie in a file than there are matches, and no more
/// places or lines come of them.
pub proof fn lemma_members_bound(matches: Seq<JumpMatch>, path: Seq<char>, n: nat)
    requires
        n <= matches.len(),
    ensures
        in_file(matches, path, n) <= n,
        member_places(matches, path, n).len() == in_file(matches, path, n),
        member_lines(matches, path, n).len() == in_file(matches, path, n),
    decreases n,
{
    if n > 0 {
        lemma_members_bound(matches, path, (n - 1) as nat);
    }
}

/// A file holds none of the first `n` matches exactly if each of them
/// lies elsewhere; and it holds no fewer of more matches.
pub proof fn lemma_in_file(matches: Seq<JumpMatch>, path: Seq<char>, n: nat, m: nat)
    requires
        n <= m <= matches.len(),
    ensures
        (in_file(matches, path, n) == 0) == (forall|k: int|
            0 <= k < n ==> (#[trigger] matches[k]).path@ != path),
        in_file(matches, path, n) <= in_file(matches, path, m),
    decreases m,
{
    if n > 0 {
        lemma_in_file(matches, path, (n - 1) as nat, (n - 1) as nat);
    }
    if m > n {
        lemma_in_file(matches, path, n, (m - 1) as nat);
    }
}

/// How many of the first `m` matches lie in a file that one of the first
/// `n` matches lies in.
pub open spec fn touched(matches: Seq<JumpMatch>, n: nat, m: nat) -> nat
    decreases m,
{
    if m == 0 || m > matches.len() {
        0
    } else {
        touched(matches, n, (m - 1) as nat) + if in_file(matches, matches[m - 1].path@, n) > 0 {
            1nat
        } else {
            0nat
        }
    }
}

/// One more match touches the matches of its file if it is the first in
/// that file, and nothing otherwise.
pub proof fn lemma_touched_step(matches: Seq<JumpMatch>, n: nat, m: nat)
    requires
        1 <= n <= matches.len(),
        m <= matches.len(),
    ensures
        touched(matches, n, m) == touched(matches, (n - 1) as nat, m) + if in_file(
            matches,
            matches[n - 1].path@,
            (n - 1) as nat,
        ) == 0 {
            in_file(matches, matches[n - 1].path@, m)
        } else {
            0
        },
        touched(matches, n, m) <= m,
    decreases m,
{
    if m > 0 {
        lemma_touched_step(matches, n, (m - 1) as nat);
    }
}

/// The groups opened by the first `n` matches hold the matches that they
/// touch: each match once, and so no more than there are matches.
pub proof fn lemma_places_bound(matches: Seq<JumpMatch>, n: nat)
    requires
        n <= matches.len(),
    ensures
        files_upto(matches, n) <= n,
        grouped_places(matches, n).len() == touched(matches, n, matches.len()),
        grouped_places(matches, n).len() <= matches.len(),
    decreases n,
{
    if n > 0 {
        let path = matches[n - 1].path@;
        lemma_places_bound(matches, (n - 1) as nat);
        lemma_members_bound(matches, path, matches.len());
        lemma_touched_step(matches, n, matches.len());
        lemma_in_file(matches, path, (n - 1) as nat, (n - 1) as nat);
    } else {
        lemma_touched_none(matches, matches.len());
    }
}

/// Without a match nothing is touched.
pub proof fn lemma_touched_none(matches: Seq<JumpMatch>, m: nat)
    requires
        m <= matches.len(),
    ensures
        touched(matches, 0, m) == 0,
    decreases m,
{
    if m > 0 {
        lemma_touched_none(matches, (m - 1) as nat);
    }
}

/// Whether no match before `i` lies in the file of match `i`.
pub fn starts_group(matches: &Vec<JumpMatch>, i: usize) -> (first: bool)
    requires
        i < matches@.len(),
    ensures
        first == opens_group(matches@, i as int),
{
    let mut k: usize = 0;
    while k < i
        invariant
            k <= i < matches@.len(),
            forall|q: int| 0 <= q < k ==> (#[trigger] matches@[q]).path@ != matches@[i as int].path@,
        decreases i - k,
    {
        if text_rank(matches[k].path.as_str(), matches[i].path.as_str()) == 1 {
            return false;
        }
        k += 1;
    }
    true
}

/// How many files the matches lie in.
pub fn count_files(matches: &Vec<JumpMatch>) -> (files: usize)
    ensures
        files == files_upto(matches@, matches@.len()),
{
    let mut files: usize = 0;
    let mut i: usize = 0;
    while i < matches.len()
        invariant
            i <= matches@.len(),
            files == files_upto(matches@, i as nat),
            files <= i,
        decreases matches@.len() - i,
    {
        if starts_group(matches, i) {
            files += 1;
        }
        i += 1;
    }
    files
}

/// How many matches lie in the file `path`.
pub fn count_in_file(matches: &Vec<JumpMatch>, path: &str) -> (count: usize)
    ensures
        count == in_file(matches@, path@, matches@.len()),
{
    let mut count: usize = 0;
    let mut i: usize = 0;
    while i < matches.len()
        invariant
            i <= matches@.len(),
            count == in_file(matches@, path@, i as nat),
            count <= i,
        decreases matches@.len() - i,
    {
        if text_rank(matches[i].path.as_str(), path) == 1 {
            count += 1;
        }
        i += 1;
    }
    count
}

/// A line without indices.
fn plain(display: String) -> (line: DisplayLine)
    ensures
        line.shown() == plain_line(display@),
{
    DisplayLine { display, indices: None }
}

/// Puts the matches into groups by file, in the order in which the files
/// first occur. A title stands above the first group, a header above each
/// group and an empty line below it. The matches are numbered from two on
/// in the order of their lines, and `locations` says where each number
/// leads.
pub fn render(matches: &Vec<JumpMatch>, kind: &str) -> (results: Results)
    requires
        matches@.len() + 2 <= usize::MAX,
    ensures
        results matches Results::DisplayLines(grouped) && shown_lines(grouped.lines@)
            == grouped_lines(matches@, kind@, matches@.len()) && numbers_places(
            grouped.locations@,
            grouped_places(matches@, matches@.len()),
        ),
{
    broadcast use vstd::std_specs::hash::group_hash_axioms;

    let keys_len = count_files(matches);
    let total = matches.len();
    let mut lines: Vec<DisplayLine> = Vec::new();
    let mut locations: HashMap<usize, Location> = HashMap::new();
    let mut lnum: usize = 2;
    let mut groups: usize = 0;
    let mut i: usize = 0;
    assert(shown_lines(lines@) =~= grouped_lines(matches@, kind@, 0));
    while i < total
        invariant
            i <= total,
            total == matches@.len(),
            total + 2 <= usize::MAX,
            keys_len == files_upto(matches@, matches@.len()),
            groups == files_upto(matches@, i as nat),
            shown_lines(lines@) == grouped_lines(matches@, kind@, i as nat),
            lnum == grouped_places(matches@, i as nat).len() + 2,
            numbers_places(locations@, grouped_places(matches@, i as nat)),
        decreases total - i,
    {
        proof {
            lemma_places_bound(matches@, i as nat);
            lemma_places_bound(matches@, (i + 1) as nat);
        }
        if starts_group(matches, i) {
            let path = matches[i].path.as_str();
            let ghost so_far = shown_lines(lines@);
            let ghost placed = grouped_places(matches@, i as nat);
            if groups == 0 {
                let mut title = u64_to_string(total as u64);
                title.push(' ');
                title.append(kind);
                title.append(" in ");
                title.append(u64_to_string(keys_len as u64).as_str());
                title.append(" files");
                assert(title@ =~= title_text(matches@, kind@));
                let line = plain(title);
                proof {
                    assert(shown_lines(lines@.push(line)) =~= shown_lines(lines@).push(line.shown()));
                }
                lines.push(line);
            }
            let mut header = String::from_str(path);
            header.append(" [");
            header.append(u64_to_string(count_in_file(matches, path) as u64).as_str());
            header.push(']');
            assert(header@ =~= header_text(matches@, path@));
            let head = plain(header);
            proof {
                assert(shown_lines(lines@.push(head)) =~= shown_lines(lines@).push(head.shown()));
            }
            lines.push(head);
            let ghost above = shown_lines(lines@);
            let mut k: usize = 0;
            assert(above + member_lines(matches@, path@, 0) =~= above);
            assert(placed + member_places(matches@, path@, 0) =~= placed);
            proof {
                lemma_members_bound(matches@, path@, total as nat);
            }
            while k < total
                invariant
                    k <= total,
                    total == matches@.len(),
                    total + 2 <= usize::MAX,
                    path@ == matches@[i as int].path@,
                    shown_lines(lines@) == above + member_lines(matches@, path@, k as nat),
                    lnum == placed.len() + member_places(matches@, path@, k as nat).len() + 2,
                    placed.len() + in_file(matches@, path@, total as nat) <= total,
                    numbers_places(locations@, placed + member_places(matches@, path@, k as nat)),
                decreases total - k,
            {
                if text_rank(matches[k].path.as_str(), path) == 1 {
                    let found = &matches[k];
                    let ghost before = locations@;
                    let ghost places = placed + member_places(matches@, path@, k as nat);
                    let location = Location {
                        path: found.path.clone(),
                        line_number: match found.line_number {
                            Some(number) => number,
                            None => 0,
                        },
                    };
                    proof {
                        lemma_members_bound(matches@, path@, (k + 1) as nat);
                        lemma_in_file(matches@, path@, (k + 1) as nat, total as nat);
                    }
                    locations.insert(lnum, location);
                    lnum += 1;
                    let line = DisplayLine {
                        display: found.display.clone(),
                        indices: Some(found.indices.clone()),
                    };
                    proof {
                        assert(shown_lines(lines@.push(line)) =~= shown_lines(lines@).push(
                            line.shown(),
                        ));
                        assert(placed + member_places(matches@, path@, (k + 1) as nat) =~= places.push(
                            leads_to(*found),
                        ));
                    }
                    lines.push(line);
                }
                k += 1;
            }
            let blank = plain(String::new());
            proof {
                assert(shown_lines(lines@.push(blank)) =~= shown_lines(lines@).push(blank.shown()));
            }
            lines.push(blank);
            groups += 1;
            proof {
                assert(shown_lines(lines@) =~= so_far + group_lines(
                    matches@,
                    kind@,
                    path@,
                    files_upto(matches@, i as nat) == 0,
                ));
            }
        }
        i += 1;
    }
    Results::DisplayLines(DisplayLines { lines, locations })
}

} // verus!
