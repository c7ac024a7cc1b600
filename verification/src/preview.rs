//! Which lines of a file are shown around a target line.

use vstd::prelude::*;

verus! {

/// The largest file, in bytes, that is read for a preview.
pub const MAX_PREVIEW_BYTES: usize = 33_554_432;

/// The lines shown around a target line.
pub struct PreviewInfo {
    /// Number of the first line shown, counting from zero.
    pub start: usize,
    /// Number of the line behind the last that can be shown.
    pub end: usize,
    /// Where the target line stands among the lines shown.
    pub highlight_lnum: usize,
    /// The lines shown.
    pub lines: Vec<String>,
}

/// The window around `target_line` with `size` lines on either side:
/// first line, end, and the place of the target line in the window. Near
/// the top of the file the window starts at the first line.
pub open spec fn window_of(target_line: usize, size: usize) -> (int, int, int) {
    if target_line > size {
        (target_line - size, target_line + size, size as int)
    } else {
        (0, 2 * size, target_line as int)
    }
}

/// The window around `target_line` with `size` lines on either side.
pub fn preview_window(target_line: usize, size: usize) -> (window: (usize, usize, usize))
    requires
        target_line + size <= usize::MAX,
        2 * size <= usize::MAX,
    ensures
        (window.0 as int, window.1 as int, window.2 as int) == window_of(target_line, size),
        window.0 <= window.1,
{
    if target_line > size {
        (target_line - size, target_line + size, size)
    } else {
        (0, 2 * size, target_line)
    }
}

/// The lines `start..end` of `lines`, both ends cut to its length.
pub open spec fn lines_between<T>(lines: Seq<T>, start: int, end: int) -> Seq<T> {
    let to = if end < lines.len() { end } else { lines.len() as int };
    let from = if start < to { start } else { to };
    lines.subrange(from, to)
}

/// Copies the lines `start..end` of `lines`, both ends cut to its length.
pub fn select_lines(lines: &Vec<String>, start: usize, end: usize) -> (selected: Vec<String>)
    ensures
        selected@ == lines_between(lines@, start as int, end as int),
{
    let to = if end < lines.len() { end } else { lines.len() };
    let from = if start < to { start } else { to };
    let mut selected: Vec<String> = Vec::new();
    let mut i: usize = from;
    while i < to
        invariant
            from <= i <= to <= lines@.len(),
            selected@ == lines@.subrange(from as int, i as int),
        decreases to - i,
    {
        selected.push(lines[i].clone());
        assert(lines@.subrange(from as int, i + 1) =~= lines@.subrange(from as int, i as int).push(
            lines@[i as int],
        ));
        i += 1;
    }
    selected
}

/// Whether a file of `filesize` bytes is small enough for a preview.
pub fn preview_size_allowed(filesize: usize) -> (allowed: bool)
    ensures
        allowed == (filesize <= MAX_PREVIEW_BYTES),
{
    filesize <= MAX_PREVIEW_BYTES
}

/// The preview of a file given as its `lines`: those around
/// `target_line`, `size` on either side.
pub fn read_preview_lines(lines: &Vec<String>, target_line: usize, size: usize) -> (info: PreviewInfo)
    requires
        target_line + size <= usize::MAX,
        2 * size <= usize::MAX,
    ensures
        (info.start as int, info.end as int, info.highlight_lnum as int) == window_of(target_line, size),
        info.lines@ == lines_between(lines@, info.start as int, info.end as int),
{
    let (start, end, highlight_lnum) = preview_window(target_line, size);
    PreviewInfo { start, end, highlight_lnum, lines: select_lines(lines, start, end) }
}

/// At most `size` lines of `lines` from line `start_line` on.
pub fn read_lines_from(lines: &Vec<String>, start_line: usize, size: usize) -> (selected: Vec<String>)
    ensures
        selected@ == lines_between(lines@, start_line as int, start_line + size),
{
    let count = lines.len();
    let end = if size <= usize::MAX - start_line { start_line + size } else { usize::MAX };
    assert(end >= count || end == start_line + size);
    select_lines(lines, start_line, end)
}

/// The first `number` lines of `lines`.
pub fn read_first_lines(lines: &Vec<String>, number: usize) -> (selected: Vec<String>)
    ensures
        selected@ == lines_between(lines@, 0, number as int),
{
    select_lines(lines, 0, number)
}

} // verus!
