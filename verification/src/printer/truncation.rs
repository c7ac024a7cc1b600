//! Cutting a matched line so that its matches stay visible.

use std::collections::HashMap;
use vstd::prelude::*;
use vstd::string::StringExecFns;
use crate::printer::legacy::truncate_line_impl;
use crate::printer::legacy::truncated_line;
use crate::printer::width::byte_len;
use crate::printer::width::char_display_width;
use crate::printer::width::char_slice;
use crate::printer::width::fitting_chars;
use crate::printer::width::fitting_len;
use crate::printer::width::lemma_text_width_push;
use crate::printer::width::text_width;
use crate::printer::width::width_fits;
use crate::printer::width::width_of_chars;
use crate::source_item::SourceItem;
use crate::text::chars_of;
use crate::text::string_of;

verus! {

/// Columns that the sign column and the borders take from the window.
pub const WINWIDTH_OFFSET: usize = 4;

/// Length of the mark that stands for what was cut.
pub const DOTS_LEN: usize = 2;

/// Bytes that an icon and the blank behind it take in front of a line.
pub const ICON_LEN: usize = 4;

/// One-based line number as the editor counts.
pub type VimLineNumber = usize;

/// The full text of each line that was cut, under its number.
pub type LinesTruncatedMap = HashMap<VimLineNumber, String>;

/// The mark that stands for what was cut.
pub open spec fn dots() -> Seq<char> {
    seq!['.', '.']
}

/// How many characters at the start of `text` are dropped outright: those
/// beyond `max_width` characters.
pub open spec fn surplus(text: Seq<char>, max_width: nat) -> nat {
    if text.len() > max_width {
        (text.len() - max_width) as nat
    } else {
        0
    }
}

/// Whether a cut in front of character `k` is late enough: the surplus
/// and the width of the characters from there up to `k` do not exceed the
/// width of the text, and what remains of that width is less than
/// `max_width`.
pub open spec fn cut_reached(text: Seq<char>, max_width: nat, k: int) -> bool {
    let dropped = surplus(text, max_width);
    let trimmed = dropped + text_width(text.subrange(dropped as int, k + 1));
    trimmed <= text_width(text) && text_width(text) - trimmed < max_width
}

/// The first position from `from` on at which a cut is late enough; the
/// length of the text where there is none.
pub open spec fn left_cut(text: Seq<char>, max_width: nat, from: nat) -> nat
    decreases text.len() - from,
{
    if from >= text.len() {
        text.len()
    } else if cut_reached(text, max_width, from as int) {
        from
    } else {
        left_cut(text, max_width, from + 1)
    }
}

/// What is left of `text` when its front is cut, and where the cut is, in
/// bytes. Without a cut the text comes back whole, with zero.
pub open spec fn trimmed_left(text: Seq<char>, max_width: nat) -> (Seq<char>, usize) {
    let cut = left_cut(text, max_width, surplus(text, max_width));
    if cut < text.len() {
        (text.skip(cut as int), byte_len(text.take(cut as int)))
    } else {
        (text, 0)
    }
}

/// Cuts the front of `chars` until what is left fits `max_width`.
pub fn trim_left_chars(chars: &Vec<char>, max_width: usize) -> (cut: (String, usize))
    requires
        width_fits(chars@),
    ensures
        cut.0@ == trimmed_left(chars@, max_width as nat).0,
        cut.1 == trimmed_left(chars@, max_width as nat).1,
{
    let chars_count = chars.len();
    let diff: usize = if chars_count > max_width {
        chars_count - max_width
    } else {
        0
    };
    assert(chars@.subrange(0, chars@.len() as int) =~= chars@);
    let text_width = width_of_chars(chars, 0, chars_count);
    let mut consumed: usize = 0;
    let mut k: usize = diff;
    assert(chars@.subrange(diff as int, diff as int) =~= Seq::<char>::empty());
    while k < chars_count
        invariant
            diff <= k <= chars_count,
            chars_count == chars@.len(),
            diff == surplus(chars@, max_width as nat),
            width_fits(chars@),
            text_width == crate::printer::width::text_width(chars@),
            consumed == crate::printer::width::text_width(chars@.subrange(diff as int, k as int)),
            consumed <= 4 * (k - diff),
            left_cut(chars@, max_width as nat, diff as nat) == left_cut(
                chars@,
                max_width as nat,
                k as nat,
            ),
        decreases chars_count - k,
    {
        let w = char_display_width(chars[k]);
        proof {
            lemma_text_width_push(chars@.subrange(diff as int, k as int), chars@[k as int]);
            assert(chars@.subrange(diff as int, k + 1) =~= chars@.subrange(diff as int, k as int).push(
                chars@[k as int],
            ));
        }
        consumed += w;
        if diff <= text_width && consumed <= text_width - diff && text_width - diff - consumed
            < max_width {
            let kept = string_of(chars, k, chars_count);
            let dropped = string_of(chars, 0, k);
            proof {
                assert(chars@.subrange(k as int, chars_count as int) =~= chars@.skip(k as int));
                assert(chars@.subrange(0, k as int) =~= chars@.take(k as int));
            }
            return (kept, dropped.as_str().len());
        }
        k += 1;
    }
    (string_of(chars, 0, chars_count), 0)
}

/// Cuts the front of `text` until what is left fits `max_width`. Returns
/// what is left and where the cut is, in bytes.
pub fn trim_left(text: &str, max_width: usize) -> (cut: (String, usize))
    requires
        width_fits(text@),
    ensures
        cut.0@ == trimmed_left(text@, max_width as nat).0,
        cut.1 == trimmed_left(text@, max_width as nat).1,
{
    let chars = chars_of(text);
    trim_left_chars(&chars, max_width)
}

/// `x` moved left by `diff`; it stays where `diff` is larger.
pub open spec fn pulled(x: usize, diff: usize) -> usize {
    if x >= diff {
        (x - diff) as usize
    } else {
        x
    }
}

/// The match indices behind a cut of `diff` and the leading mark: each
/// moved left by `diff` and right by the mark, up to the first that would
/// not be below `max_width`.
pub open spec fn shifted_left(indices: Seq<usize>, diff: usize, max_width: usize) -> Seq<usize>
    decreases indices.len(),
{
    if indices.len() == 0 {
        Seq::empty()
    } else if pulled(indices[0], diff) + DOTS_LEN < max_width {
        seq![(pulled(indices[0], diff) + DOTS_LEN) as usize] + shifted_left(
            indices.drop_first(),
            diff,
            max_width,
        )
    } else {
        Seq::empty()
    }
}

/// The match indices behind a cut of `diff` and the leading mark.
pub fn shift_left(indices: &Vec<usize>, diff: usize, max_width: usize) -> (shifted: Vec<usize>)
    requires
        max_width >= DOTS_LEN,
    ensures
        shifted@ == shifted_left(indices@, diff, max_width),
{
    let mut shifted: Vec<usize> = Vec::new();
    let mut i: usize = 0;
    assert(indices@.skip(0) =~= indices@);
    while i < indices.len()
        invariant
            i <= indices@.len(),
            max_width >= DOTS_LEN,
            shifted_left(indices@, diff, max_width) == shifted@ + shifted_left(
                indices@.skip(i as int),
                diff,
                max_width,
            ),
        decreases indices@.len() - i,
    {
        let x = indices[i];
        let moved = if x >= diff { x - diff } else { x };
        proof {
            assert(indices@.skip(i as int)[0] == x);
            assert(indices@.skip(i as int).drop_first() =~= indices@.skip(i + 1));
        }
        if moved < max_width - DOTS_LEN {
            proof {
                assert(shifted@.push((moved + DOTS_LEN) as usize) + shifted_left(
                    indices@.skip(i + 1),
                    diff,
                    max_width,
                ) =~= shifted@ + (seq![(moved + DOTS_LEN) as usize] + shifted_left(
                    indices@.skip(i + 1),
                    diff,
                    max_width,
                )));
            }
            shifted.push(moved + DOTS_LEN);
        } else {
            assert(shifted@ + Seq::<usize>::empty() =~= shifted@);
            return shifted;
        }
        i += 1;
    }
    assert(shifted@ + Seq::<usize>::empty() =~= shifted@);
    shifted
}

/// How a line with its match indices is cut to fit `winwidth` columns
/// less `prefix_len`; `None` where it is left as it is. A line is cut only
/// where it is too wide, has a match and leaves room for the mark. Where
/// everything up to the last match fits in front of the mark, the end is
/// cut and the indices stay. Otherwise the end is cut behind the last
/// match where more than the mark follows, the front is cut, and the
/// indices move with it.
pub open spec fn truncated_text(
    winwidth: usize,
    text: Seq<char>,
    indices: Seq<usize>,
    prefix_len: usize,
) -> Option<(Seq<char>, Seq<usize>)> {
    let max_width = (winwidth - prefix_len) as usize;
    if text_width(text) <= max_width || indices.len() == 0 || max_width < DOTS_LEN {
        None
    } else {
        let last_matched = indices.last();
        let room = (max_width - DOTS_LEN) as nat;
        let leading = char_slice(text, 0, last_matched as nat);
        if text_width(leading) <= room {
            Some((text.take(fitting_len(text, room) as int) + dots(), indices))
        } else {
            let trailing = char_slice(text, last_matched as nat, text.len());
            let shortened = if text_width(trailing) > DOTS_LEN {
                leading + dots()
            } else {
                text
            };
            let cut = trimmed_left(shortened, room);
            Some((dots() + cut.0, shifted_left(indices, cut.1, max_width)))
        }
    }
}

/// Cuts `text` with its match indices to fit `winwidth` columns less
/// `prefix_len`. Returns `None` where the line is left as it is.
pub fn truncate_text(winwidth: usize, text: &str, indices: &Vec<usize>, prefix_len: usize) -> (cut:
    Option<(String, Vec<usize>)>)
    requires
        prefix_len <= winwidth,
        width_fits(text@ + dots()),
    ensures
        match truncated_text(winwidth, text@, indices@, prefix_len) {
            Some((line, moved)) => cut matches Some(pair) && pair.0@ == line && pair.1@ == moved,
            None => cut is None,
        },
{
    let max_width = winwidth - prefix_len;
    let chars = chars_of(text);
    let count = chars.len();
    assert(chars@.subrange(0, count as int) =~= text@);
    let display_width = width_of_chars(&chars, 0, count);
    if display_width <= max_width || indices.len() == 0 || max_width < DOTS_LEN {
        return None;
    }
    let last_matched = indices[indices.len() - 1];
    let room = max_width - DOTS_LEN;
    let lead_len = if last_matched < count { last_matched } else { count };
    let ghost leading = char_slice(text@, 0, last_matched as nat);
    let ghost trailing = char_slice(text@, last_matched as nat, text@.len());
    assert(leading =~= chars@.subrange(0, lead_len as int));
    assert(trailing =~= chars@.subrange(lead_len as int, count as int));
    proof {
        reveal_strlit("..");
        assert(".."@ =~= dots());
    }
    if width_of_chars(&chars, 0, lead_len) <= room {
        let fits = fitting_chars(&chars, room);
        let mut trimmed = string_of(&chars, 0, fits);
        trimmed.append("..");
        assert(chars@.subrange(0, fits as int) =~= text@.take(fits as int));
        Some((trimmed, indices.clone()))
    } else {
        let mut shortened: Vec<char> = Vec::new();
        if width_of_chars(&chars, lead_len, count) > DOTS_LEN {
            let mut i: usize = 0;
            while i < lead_len
                invariant
                    i <= lead_len <= chars@.len(),
                    shortened@ == chars@.subrange(0, i as int),
                decreases lead_len - i,
            {
                shortened.push(chars[i]);
                assert(chars@.subrange(0, i + 1) =~= chars@.subrange(0, i as int).push(chars@[i as int]));
                i += 1;
            }
            shortened.push('.');
            shortened.push('.');
            assert(shortened@ =~= leading + dots());
        } else {
            shortened = chars;
        }
        let cut = trim_left_chars(&shortened, room);
        let mut line = String::from_str("..");
        line.append(cut.0.as_str());
        Some((line, shift_left(indices, cut.1, max_width)))
    }
}

/// One line of a batch after fitting: `shown` with `moved` is the cut
/// line and its indices where the line was cut, and then `truncated_map`
/// holds the full line under `lnum`; else `shown` is the full line,
/// `moved` its indices, and the map has no entry for `lnum`.
pub open spec fn line_fitted(
    full: Seq<char>,
    indices: Seq<usize>,
    cut: Option<(Seq<char>, Seq<usize>)>,
    shown: Seq<char>,
    moved: Seq<usize>,
    truncated_map: Map<usize, String>,
    lnum: usize,
) -> bool {
    match cut {
        Some((line, shifted)) => {
            &&& shown == line
            &&& moved == shifted
            &&& truncated_map.contains_key(lnum)
            &&& truncated_map[lnum]@ == full
        },
        None => {
            &&& shown == full
            &&& moved == indices
            &&& !truncated_map.contains_key(lnum)
        },
    }
}

/// Long matched lines can cause the matched items invisible: cuts every
/// line that is too wide for the window so that its matches show.
///
/// `winwidth` is the width of the display window, `skipped` the number of
/// leading characters that an icon takes. Returns the lines with scores and
/// indices, in the order given, and the full text of each line that was
/// cut, under its one-based number.
pub fn truncate_long_matched_lines<T>(
    lines: Vec<(SourceItem, T, Vec<usize>)>,
    winwidth: usize,
    skipped: Option<usize>,
) -> (fitted: (Vec<(String, T, Vec<usize>)>, LinesTruncatedMap))
    requires
        winwidth >= WINWIDTH_OFFSET,
        skipped matches Some(n) ==> n <= winwidth - WINWIDTH_OFFSET,
        forall|i: int| 0 <= i < lines@.len() ==> width_fits(#[trigger] lines@[i].0.shown() + dots()),
    ensures
        fitted.0@.len() == lines@.len(),
        forall|i: int|
            0 <= i < lines@.len() ==> {
                &&& (#[trigger] fitted.0@[i]).1 == lines@[i].1
                &&& line_fitted(
                    lines@[i].0.shown(),
                    lines@[i].2@,
                    truncated_text(
                        (winwidth - WINWIDTH_OFFSET) as usize,
                        lines@[i].0.shown(),
                        lines@[i].2@,
                        skipped.unwrap_or(0),
                    ),
                    fitted.0@[i].0@,
                    fitted.0@[i].2@,
                    fitted.1@,
                    (i + 1) as usize,
                )
            },
        forall|lnum: usize| fitted.1@.contains_key(lnum) ==> 1 <= lnum <= lines@.len(),
{
    broadcast use vstd::std_specs::hash::group_hash_axioms;

    let mut truncated_map: HashMap<usize, String> = HashMap::new();
    let mut fitted: Vec<(String, T, Vec<usize>)> = Vec::new();
    let mut lnum: usize = 0;
    let width = winwidth - WINWIDTH_OFFSET;
    let prefix_len = match skipped {
        Some(n) => n,
        None => 0,
    };
    let ghost all = lines@;
    let total = lines.len();
    for entry in it: lines
        invariant
            it.seq() == all,
            all.len() == total,
            lnum == it.index(),
            prefix_len == skipped.unwrap_or(0),
            prefix_len <= width,
            width == winwidth - WINWIDTH_OFFSET,
            forall|i: int| 0 <= i < all.len() ==> width_fits(#[trigger] all[i].0.shown() + dots()),
            fitted@.len() == lnum,
            forall|i: int|
                0 <= i < lnum ==> {
                    &&& (#[trigger] fitted@[i]).1 == all[i].1
                    &&& line_fitted(
                        all[i].0.shown(),
                        all[i].2@,
                        truncated_text(width, all[i].0.shown(), all[i].2@, prefix_len),
                        fitted@[i].0@,
                        fitted@[i].2@,
                        truncated_map@,
                        (i + 1) as usize,
                    )
                },
            forall|key: usize| truncated_map@.contains_key(key) ==> 1 <= key <= lnum,
    {
        let ghost row = all[lnum as int];
        assert(width_fits(row.0.shown() + dots()));
        let (item, score, indices) = entry;
        let line = match item.display_text {
            Some(text) => text,
            None => item.raw,
        };
        lnum += 1;
        let ghost before = truncated_map@;
        match truncate_text(width, line.as_str(), &indices, prefix_len) {
            Some((truncated, truncated_indices)) => {
                truncated_map.insert(lnum, line);
                fitted.push((truncated, score, truncated_indices));
            },
            None => {
                fitted.push((line, score, indices));
            },
        }
        assert forall|i: int| 0 <= i < lnum implies {
            &&& (#[trigger] fitted@[i]).1 == all[i].1
            &&& line_fitted(
                all[i].0.shown(),
                all[i].2@,
                truncated_text(width, all[i].0.shown(), all[i].2@, prefix_len),
                fitted@[i].0@,
                fitted@[i].2@,
                truncated_map@,
                (i + 1) as usize,
            )
        } by {
            if i < lnum - 1 {
                assert(!before.contains_key(lnum));
            }
        }
    }
    (fitted, truncated_map)
}

/// Cuts every grep line that is too long for the window, pairing lines and
/// indices in the order given; what is left over of the longer list is
/// dropped. Returns the lines, their indices, and the full text of each
/// line that was cut, under its one-based number.
pub fn truncate_grep_lines(
    lines: Vec<String>,
    indices: Vec<Vec<usize>>,
    winwidth: usize,
    skipped: Option<usize>,
) -> (fitted: (Vec<String>, Vec<Vec<usize>>, LinesTruncatedMap))
    requires
        winwidth >= WINWIDTH_OFFSET,
    ensures
        fitted.0@.len() == fitted.1@.len(),
        fitted.0@.len() == if lines@.len() <= indices@.len() {
            lines@.len()
        } else {
            indices@.len()
        },
        forall|i: int|
            0 <= i < fitted.0@.len() ==> line_fitted(
                lines@[i]@,
                indices@[i]@,
                truncated_line(
                    (winwidth - WINWIDTH_OFFSET) as usize,
                    lines@[i]@,
                    indices@[i]@,
                    skipped,
                ),
                #[trigger] fitted.0@[i]@,
                fitted.1@[i]@,
                fitted.2@,
                (i + 1) as usize,
            ),
        forall|lnum: usize| fitted.2@.contains_key(lnum) ==> 1 <= lnum <= fitted.0@.len(),
{
    broadcast use vstd::std_specs::hash::group_hash_axioms;

    let mut truncated_map: HashMap<usize, String> = HashMap::new();
    let mut out_lines: Vec<String> = Vec::new();
    let mut out_indices: Vec<Vec<usize>> = Vec::new();
    let width = winwidth - WINWIDTH_OFFSET;
    let count = if lines.len() <= indices.len() { lines.len() } else { indices.len() };
    let mut lnum: usize = 0;
    while lnum < count
        invariant
            lnum <= count,
            count <= lines@.len(),
            count <= indices@.len(),
            width == winwidth - WINWIDTH_OFFSET,
            out_lines@.len() == lnum,
            out_indices@.len() == lnum,
            forall|i: int|
                0 <= i < lnum ==> line_fitted(
                    lines@[i]@,
                    indices@[i]@,
                    truncated_line(width, lines@[i]@, indices@[i]@, skipped),
                    #[trigger] out_lines@[i]@,
                    out_indices@[i]@,
                    truncated_map@,
                    (i + 1) as usize,
                ),
            forall|key: usize| truncated_map@.contains_key(key) ==> 1 <= key <= lnum,
        decreases count - lnum,
    {
        let line = &lines[lnum];
        let line_indices = &indices[lnum];
        lnum += 1;
        let ghost before = truncated_map@;
        match truncate_line_impl(width, line.as_str(), line_indices, skipped) {
            Some((truncated, truncated_indices)) => {
                truncated_map.insert(lnum, line.clone());
                out_lines.push(truncated);
                out_indices.push(truncated_indices);
            },
            None => {
                out_lines.push(line.clone());
                out_indices.push(line_indices.clone());
            },
        }
        assert forall|i: int| 0 <= i < lnum implies line_fitted(
            lines@[i]@,
            indices@[i]@,
            truncated_line(width, lines@[i]@, indices@[i]@, skipped),
            #[trigger] out_lines@[i]@,
            out_indices@[i]@,
            truncated_map@,
            (i + 1) as usize,
        ) by {
            if i < lnum - 1 {
                assert(!before.contains_key(lnum));
            }
        }
    }
    (out_lines, out_indices, truncated_map)
}

/// The text and indices of a line after fitting: those of the cut where
/// there is one, else the full line with its own indices.
pub open spec fn fitted_pair(
    full: Seq<char>,
    indices: Seq<usize>,
    cut: Option<(Seq<char>, Seq<usize>)>,
) -> (Seq<char>, Seq<usize>) {
    match cut {
        Some(pair) => pair,
        None => (full, indices),
    }
}

/// `text` with `icon` and a blank in front.
pub open spec fn iconized(icon: Seq<char>, text: Seq<char>) -> Seq<char> {
    icon + seq![' '] + text
}

/// `indices`, each moved right by the room that an icon takes.
pub open spec fn behind_icon(indices: Seq<usize>) -> Seq<usize> {
    indices.map_values(|x: usize| (x + ICON_LEN) as usize)
}

/// The match indices moved right by the room that an icon takes.
pub fn shift_behind_icon(indices: &Vec<usize>) -> (shifted: Vec<usize>)
    requires
        forall|i: int| 0 <= i < indices@.len() ==> indices@[i] + ICON_LEN <= usize::MAX,
    ensures
        shifted@ == behind_icon(indices@),
{
    let mut shifted: Vec<usize> = Vec::new();
    let mut i: usize = 0;
    while i < indices.len()
        invariant
            i <= indices@.len(),
            forall|k: int| 0 <= k < indices@.len() ==> indices@[k] + ICON_LEN <= usize::MAX,
            shifted@ == behind_icon(indices@.take(i as int)),
        decreases indices@.len() - i,
    {
        proof {
            assert(behind_icon(indices@.take(i + 1)) =~= behind_icon(indices@.take(i as int)).push(
                (indices@[i as int] + ICON_LEN) as usize,
            ));
        }
        shifted.push(indices[i] + ICON_LEN);
        i += 1;
    }
    assert(indices@.take(indices@.len() as int) =~= indices@);
    shifted
}

/// The top items made ready for display: each line cut to the window, and,
/// where `icons` are given, with the icon of its full text and a blank
/// in front and its indices moved behind them. `icons` holds one icon
/// per item, in the order of the items. Returns the lines, their indices,
/// and the full text of each line that was cut, under its one-based
/// number.
pub fn process_top_items<T>(
    top_list: Vec<(SourceItem, T, Vec<usize>)>,
    winwidth: usize,
    icons: Option<Vec<String>>,
) -> (shown: (Vec<String>, Vec<Vec<usize>>, LinesTruncatedMap))
    requires
        winwidth >= WINWIDTH_OFFSET + ICON_LEN,
        winwidth <= usize::MAX - ICON_LEN,
        forall|i: int| 0 <= i < top_list@.len() ==> width_fits(#[trigger] top_list@[i].0.shown() + dots()),
        icons matches Some(given) ==> given@.len() == top_list@.len() && forall|i: int, k: int|
            0 <= i < top_list@.len() && 0 <= k < top_list@[i].2@.len() ==> #[trigger] top_list@[i].2@[k]
                + ICON_LEN <= usize::MAX,
    ensures
        shown.0@.len() == top_list@.len(),
        shown.1@.len() == top_list@.len(),
        forall|i: int|
            0 <= i < top_list@.len() ==> {
                let full = top_list@[i].0.shown();
                let cut = truncated_text(
                    (winwidth - WINWIDTH_OFFSET) as usize,
                    full,
                    top_list@[i].2@,
                    0,
                );
                let pair = fitted_pair(full, top_list@[i].2@, cut);
                &&& (#[trigger] shown.0@[i])@ == match icons {
                    Some(given) => iconized(given@[i]@, pair.0),
                    None => pair.0,
                }
                &&& shown.1@[i]@ == match icons {
                    Some(_) => behind_icon(pair.1),
                    None => pair.1,
                }
                &&& shown.2@.contains_key((i + 1) as usize) == (cut is Some)
                &&& cut is Some ==> shown.2@[(i + 1) as usize]@ == full
            },
        forall|lnum: usize| shown.2@.contains_key(lnum) ==> 1 <= lnum <= top_list@.len(),
{
    let ghost all = top_list@;
    let ghost width = (winwidth - WINWIDTH_OFFSET) as usize;
    let (truncated_lines, truncated_map) = truncate_long_matched_lines(top_list, winwidth, None);
    let mut lines: Vec<String> = Vec::new();
    let mut indices: Vec<Vec<usize>> = Vec::new();
    let ghost fitted = truncated_lines@;
    let total = truncated_lines.len();
    for entry in it: truncated_lines
        invariant
            it.seq() == fitted,
            fitted.len() == total,
            fitted.len() == all.len(),
            width == winwidth - WINWIDTH_OFFSET,
            winwidth >= WINWIDTH_OFFSET + ICON_LEN,
            winwidth <= usize::MAX - ICON_LEN,
            lines@.len() == it.index(),
            indices@.len() == it.index(),
            icons matches Some(given) ==> given@.len() == all.len() && forall|i: int, k: int|
                0 <= i < all.len() && 0 <= k < all[i].2@.len() ==> #[trigger] all[i].2@[k] + ICON_LEN
                    <= usize::MAX,
            forall|i: int|
                0 <= i < all.len() ==> line_fitted(
                    all[i].0.shown(),
                    all[i].2@,
                    truncated_text(width, all[i].0.shown(), all[i].2@, 0),
                    (#[trigger] fitted[i]).0@,
                    fitted[i].2@,
                    truncated_map@,
                    (i + 1) as usize,
                ),
            forall|i: int|
                0 <= i < it.index() ==> {
                    let pair = fitted_pair(
                        all[i].0.shown(),
                        all[i].2@,
                        truncated_text(width, all[i].0.shown(), all[i].2@, 0),
                    );
                    &&& (#[trigger] lines@[i])@ == match icons {
                        Some(given) => iconized(given@[i]@, pair.0),
                        None => pair.0,
                    }
                    &&& indices@[i]@ == match icons {
                        Some(_) => behind_icon(pair.1),
                        None => pair.1,
                    }
                    &&& truncated_map@.contains_key((i + 1) as usize) == (truncated_text(
                        width,
                        all[i].0.shown(),
                        all[i].2@,
                        0,
                    ) is Some)
                    &&& truncated_text(width, all[i].0.shown(), all[i].2@, 0) is Some
                        ==> truncated_map@[(i + 1) as usize]@ == all[i].0.shown()
                },
    {
        let ghost i = it.index();
        let (text, _, idxs) = entry;
        proof {
            let full = all[i].0.shown();
            let cut = truncated_text(width, full, all[i].2@, 0);
            let pair = fitted_pair(full, all[i].2@, cut);
            assert(line_fitted(
                full,
                all[i].2@,
                cut,
                fitted[i].0@,
                fitted[i].2@,
                truncated_map@,
                (i + 1) as usize,
            ));
            assert(text@ == pair.0 && idxs@ == pair.1);
            lemma_truncated_indices(width, full, all[i].2@, 0);
            if icons is Some {
                assert forall|k: int| 0 <= k < idxs@.len() implies idxs@[k] + ICON_LEN
                    <= usize::MAX by {
                    if pair.1 == all[i].2@ {
                        assert(all[i].2@[k] + ICON_LEN <= usize::MAX);
                    }
                }
            }
        }
        match &icons {
            Some(given) => {
                let mut line = given[lines.len()].clone();
                line.push(' ');
                line.append(text.as_str());
                assert(line@ =~= iconized(given@[i]@, text@));
                lines.push(line);
                indices.push(shift_behind_icon(&idxs));
            },
            None => {
                lines.push(text);
                indices.push(idxs);
            },
        }
    }
    (lines, indices, truncated_map)
}

/// Indices that moved with a cut lie below the width they were cut to.
pub proof fn lemma_shifted_left_bound(indices: Seq<usize>, diff: usize, max_width: usize)
    ensures
        forall|k: int|
            0 <= k < shifted_left(indices, diff, max_width).len() ==> #[trigger] shifted_left(
                indices,
                diff,
                max_width,
            )[k] < max_width,
    decreases indices.len(),
{
    if indices.len() > 0 {
        lemma_shifted_left_bound(indices.drop_first(), diff, max_width);
        let rest = shifted_left(indices.drop_first(), diff, max_width);
        assert forall|k: int| 0 <= k < shifted_left(indices, diff, max_width).len() implies #[trigger] shifted_left(
            indices,
            diff,
            max_width,
        )[k] < max_width by {
            if k > 0 {
                assert(shifted_left(indices, diff, max_width)[k] == rest[k - 1]);
            }
        }
    }
}

/// The indices of a cut line are those of the full line, or lie below
/// the width that the line was cut to.
pub proof fn lemma_truncated_indices(winwidth: usize, text: Seq<char>, indices: Seq<usize>, prefix_len: usize)
    requires
        prefix_len <= winwidth,
    ensures
        truncated_text(winwidth, text, indices, prefix_len) matches Some(pair) ==> pair.1 == indices
            || forall|k: int| 0 <= k < pair.1.len() ==> #[trigger] pair.1[k] < winwidth - prefix_len,
{
    let max_width = (winwidth - prefix_len) as usize;
    if truncated_text(winwidth, text, indices, prefix_len) is Some {
        let room = (max_width - DOTS_LEN) as nat;
        let leading = char_slice(text, 0, indices.last() as nat);
        if text_width(leading) > room {
            let trailing = char_slice(text, indices.last() as nat, text.len());
            let shortened = if text_width(trailing) > DOTS_LEN {
                leading + dots()
            } else {
                text
            };
            lemma_shifted_left_bound(indices, trimmed_left(shortened, room).1, max_width);
        }
    }
}

} // verus!
