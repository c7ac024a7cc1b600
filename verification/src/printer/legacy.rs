//! The first way of cutting lines, by bytes and match positions. Grep lines
//! are still cut this way.

use vstd::prelude::*;
use vstd::string::StringExecFns;
use crate::printer::width::byte_len;
use crate::printer::width::char_slice;
use crate::printer::width::slice_of;
use crate::text::chars_of;

verus! {

/// Where the cut line starts before it is moved on: as far before the
/// last match as the window is wide, but not behind the first match.
pub open spec fn first_start(winwidth: usize, first: usize, last: usize) -> int {
    if last - winwidth >= first {
        first as int
    } else {
        last - winwidth
    }
}

/// The start moved on by the width of the mark, at most `rounds` times,
/// while the first match stays at least that far away and a window's width
/// of the line follows. `None` where the start would lie behind the line.
pub open spec fn moved_start(
    start: int,
    first: usize,
    line_len: usize,
    winwidth: usize,
    rounds: nat,
) -> Option<int>
    decreases rounds,
{
    if rounds == 0 || first - start < 2 {
        Some(start)
    } else if start > line_len {
        None
    } else if line_len - start >= winwidth {
        moved_start(start + 2, first, line_len, winwidth, (rounds - 1) as nat)
    } else {
        Some(start)
    }
}

/// The start moved on once more by what follows the last match, where
/// that is less than the distance to the first match.
pub open spec fn final_start(start: int, first: usize, last: usize, line_len: usize) -> int {
    let trailing_dist = line_len - last;
    if trailing_dist < first - start {
        start + trailing_dist
    } else {
        start
    }
}

/// The line with its front cut: the skipped characters, the mark, and the
/// line from `start` on.
pub open spec fn left_truncated(line: Seq<char>, start: int, skipped: Option<usize>) -> Seq<char> {
    let icon = match skipped {
        Some(n) => char_slice(line, 0, n as nat),
        None => Seq::empty(),
    };
    icon + seq!['.', '.'] + char_slice(line, start as nat, byte_len(line) as nat)
}

/// The match indices moved left by `offset`, up to the first that lies
/// before `offset` or would not be below `max_index`.
pub open spec fn moved_indices(indices: Seq<usize>, offset: usize, max_index: usize) -> Seq<usize>
    decreases indices.len(),
{
    if indices.len() == 0 {
        Seq::empty()
    } else if indices[0] >= offset && indices[0] - offset < max_index {
        seq![(indices[0] - offset) as usize] + moved_indices(indices.drop_first(), offset, max_index)
    } else {
        Seq::empty()
    }
}

/// How a line with its match indices is cut by bytes to fit `winwidth`;
/// `None` where it is left as it is: without a match, with the last match
/// inside the window, with a match behind the end of the line, or with a
/// window too narrow for the mark. The front is cut so that the matches
/// come into the window, the mark is put in its place, and what is still
/// too long is cut at the end, with a mark again.
pub open spec fn truncated_line(
    winwidth: usize,
    line: Seq<char>,
    indices: Seq<usize>,
    skipped: Option<usize>,
) -> Option<(Seq<char>, Seq<usize>)> {
    let line_len = byte_len(line);
    if indices.len() == 0 || indices.last() <= winwidth || indices.last() > line_len {
        None
    } else {
        let first = indices[0];
        let last = indices.last();
        match moved_start(first_start(winwidth, first, last), first, line_len, winwidth, 3) {
            None => None,
            Some(moved) => {
                let start = final_start(moved, first, last, line_len);
                let left = left_truncated(line, start, skipped);
                let left_len = byte_len(left);
                let offset = if line_len >= left_len {
                    (line_len - left_len) as usize
                } else {
                    0
                };
                if left_len <= winwidth {
                    Some((left, moved_indices(indices, offset, winwidth)))
                } else if winwidth == 0 {
                    None
                } else if left_len == winwidth + 1 {
                    Some(
                        (
                            char_slice(left, 0, (winwidth - 1) as nat) + seq!['.'],
                            moved_indices(indices, offset, (winwidth - 1) as usize),
                        ),
                    )
                } else if winwidth < 2 {
                    None
                } else {
                    Some(
                        (
                            char_slice(left, 0, (winwidth - 2) as nat) + seq!['.', '.'],
                            moved_indices(indices, offset, (winwidth - 2) as usize),
                        ),
                    )
                }
            },
        }
    }
}

/// The match indices moved left by `offset`.
pub fn move_indices(indices: &Vec<usize>, offset: usize, max_index: usize) -> (moved: Vec<usize>)
    ensures
        moved@ == moved_indices(indices@, offset, max_index),
{
    let mut moved: Vec<usize> = Vec::new();
    let mut i: usize = 0;
    assert(indices@.skip(0) =~= indices@);
    while i < indices.len()
        invariant
            i <= indices@.len(),
            moved_indices(indices@, offset, max_index) == moved@ + moved_indices(
                indices@.skip(i as int),
                offset,
                max_index,
            ),
        decreases indices@.len() - i,
    {
        let x = indices[i];
        proof {
            assert(indices@.skip(i as int)[0] == x);
            assert(indices@.skip(i as int).drop_first() =~= indices@.skip(i + 1));
        }
        if x >= offset && x - offset < max_index {
            proof {
                assert(moved@.push((x - offset) as usize) + moved_indices(
                    indices@.skip(i + 1),
                    offset,
                    max_index,
                ) =~= moved@ + (seq![(x - offset) as usize] + moved_indices(
                    indices@.skip(i + 1),
                    offset,
                    max_index,
                )));
            }
            moved.push(x - offset);
        } else {
            assert(moved@ + Seq::<usize>::empty() =~= moved@);
            return moved;
        }
        i += 1;
    }
    assert(moved@ + Seq::<usize>::empty() =~= moved@);
    moved
}

/// Cuts `line` with its match indices by bytes to fit `winwidth`. Returns
/// `None` where the line is left as it is.
pub fn truncate_line_impl(winwidth: usize, line: &str, indices: &Vec<usize>, skipped: Option<usize>) -> (cut:
    Option<(String, Vec<usize>)>)
    ensures
        match truncated_line(winwidth, line@, indices@, skipped) {
            Some((text, moved)) => cut matches Some(pair) && pair.0@ == text && pair.1@ == moved,
            None => cut is None,
        },
{
    if indices.len() == 0 {
        return None;
    }
    let last_idx = indices[indices.len() - 1];
    let first_idx = indices[0];
    let line_len = line.len();
    if last_idx <= winwidth || last_idx > line_len {
        return None;
    }
    let mut start = last_idx - winwidth;
    if start >= first_idx {
        start = first_idx;
    }
    let ghost begin = start as int;
    let mut round: usize = 0;
    let mut moving = true;
    while round < 3 && moving
        invariant
            round <= 3,
            start <= first_idx,
            last_idx <= line_len,
            indices@.len() > 0,
            first_idx == indices@[0],
            last_idx == indices@.last(),
            last_idx > winwidth,
            line_len == byte_len(line@),
            begin == first_start(winwidth, first_idx, last_idx),
            moved_start(begin, first_idx, line_len, winwidth, 3) == (if moving {
                moved_start(start as int, first_idx, line_len, winwidth, (3 - round) as nat)
            } else {
                Some(start as int)
            }),
        decreases 3 - round,
    {
        if first_idx - start >= 2 {
            if start > line_len {
                return None;
            }
            if line_len - start >= winwidth {
                start += 2;
            } else {
                moving = false;
            }
        } else {
            moving = false;
        }
        round += 1;
    }
    let trailing_dist = line_len - last_idx;
    if trailing_dist < first_idx - start {
        start += trailing_dist;
    }
    let chars = chars_of(line);
    let mut left_truncated = match skipped {
        Some(n) => slice_of(&chars, 0, n),
        None => String::new(),
    };
    left_truncated.append("..");
    left_truncated.append(slice_of(&chars, start, line_len).as_str());
    proof {
        reveal_strlit("..");
        assert(".."@ =~= seq!['.', '.']);
        reveal_strlit(".");
        assert("."@ =~= seq!['.']);
        assert(left_truncated@ =~= crate::printer::legacy::left_truncated(line@, start as int, skipped));
    }
    let left_truncated_len = left_truncated.as_str().len();
    let offset = if line_len >= left_truncated_len {
        line_len - left_truncated_len
    } else {
        0
    };
    if left_truncated_len <= winwidth {
        return Some((left_truncated, move_indices(indices, offset, winwidth)));
    }
    if winwidth == 0 {
        return None;
    }
    let left_chars = chars_of(left_truncated.as_str());
    if left_truncated_len == winwidth + 1 {
        let mut truncated = slice_of(&left_chars, 0, winwidth - 1);
        truncated.append(".");
        Some((truncated, move_indices(indices, offset, winwidth - 1)))
    } else if winwidth < 2 {
        None
    } else {
        let mut truncated = slice_of(&left_chars, 0, winwidth - 2);
        truncated.append("..");
        Some((truncated, move_indices(indices, offset, winwidth - 2)))
    }
}

} // verus!
