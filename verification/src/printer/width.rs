//! Display widths of characters and texts, and cuts by width.

use unicode_width::UnicodeWidthChar;
use vstd::prelude::*;
use vstd::utf8::encode_utf8;
use crate::text::chars_of;
use crate::text::string_of;

verus! {

/// The width that `unicode_width` gives a character in a CJK context, or
/// `None` for a control character.
pub uninterp spec fn cjk_width(c: char) -> Option<usize>;

/// What is known of the CJK width of every character: printable ASCII is
/// one column wide, the control characters below U+00A0 have no width, and
/// nothing is wider than three columns.
pub open spec fn cjk_width_known(c: char, width: Option<usize>) -> bool {
    let code = c as u32;
    if 0x20 <= code && code < 0x7f {
        width == Some(1usize)
    } else if code < 0xa0 {
        width is None
    } else {
        width matches Some(columns) && columns <= 3
    }
}

/// Calls `UnicodeWidthChar::width_cjk` of `unicode_width`. The result is a
/// function of the character alone. Printable ASCII is one column wide,
/// the control characters below U+00A0 have no width, and no character is
/// wider than three columns.
#[verifier::external_body]
fn width_cjk(c: char) -> (width: Option<usize>)
    ensures
        width == cjk_width(c),
        cjk_width_known(c, width),
{
    UnicodeWidthChar::width_cjk(c)
}

/// The columns a character takes, given its CJK width `cjk`: four for a
/// tab, one for a line break and for any other character without a width.
pub open spec fn width_given(c: char, cjk: Option<usize>) -> nat {
    if c == '\t' {
        4
    } else if c == '\r' || c == '\n' {
        1
    } else {
        match cjk {
            Some(columns) => columns as nat,
            None => 1,
        }
    }
}

/// The columns a character takes on screen.
pub open spec fn char_width(c: char) -> nat {
    width_given(c, cjk_width(c))
}

/// The columns a text takes on screen: the sum over its characters.
pub open spec fn text_width(text: Seq<char>) -> nat
    decreases text.len(),
{
    if text.len() == 0 {
        0
    } else {
        text_width(text.drop_last()) + char_width(text.last())
    }
}

/// Whether the width of any part of `text` fits a machine integer.
pub open spec fn width_fits(text: Seq<char>) -> bool {
    4 * text.len() <= usize::MAX
}

/// The columns a character takes, given its CJK width.
pub fn width_from(c: char, cjk: Option<usize>) -> (width: usize)
    ensures
        width == width_given(c, cjk),
{
    match c {
        '\t' => 4,
        '\r' | '\n' => 1,
        _ => match cjk {
            Some(columns) => columns,
            None => 1,
        },
    }
}

/// The columns a character takes on screen.
pub fn char_display_width(c: char) -> (width: usize)
    ensures
        width == char_width(c),
        width <= 4,
{
    width_from(c, width_cjk(c))
}

/// The length of `text` in bytes when encoded as UTF-8.
pub open spec fn byte_len(text: Seq<char>) -> usize {
    encode_utf8(text).len() as usize
}

/// The characters `start..end` of `line`, both ends cut to its length.
pub open spec fn char_slice(line: Seq<char>, start: nat, end: nat) -> Seq<char> {
    let to = if end < line.len() { end } else { line.len() };
    let from = if start < to { start } else { to };
    line.subrange(from as int, to as int)
}

/// The characters `start..end` of `line`, counted in characters and not
/// in bytes; both ends are cut to the length of the line.
pub fn utf8_str_slice(line: &str, start: usize, end: usize) -> (slice: String)
    ensures
        slice@ == char_slice(line@, start as nat, end as nat),
{
    let chars = chars_of(line);
    slice_of(&chars, start, end)
}

/// The characters `start..end` of `chars`, both ends cut to its length.
pub fn slice_of(chars: &Vec<char>, start: usize, end: usize) -> (slice: String)
    ensures
        slice@ == char_slice(chars@, start as nat, end as nat),
{
    let to = if end < chars.len() { end } else { chars.len() };
    let from = if start < to { start } else { to };
    string_of(chars, from, to)
}

/// Appending a character adds its width.
pub proof fn lemma_text_width_push(text: Seq<char>, c: char)
    ensures
        text_width(text.push(c)) == text_width(text) + char_width(c),
{
    assert(text.push(c).drop_last() =~= text);
}

/// The width of a text is the width of any prefix plus that of the rest.
pub proof fn lemma_text_width_split(text: Seq<char>, at: int)
    requires
        0 <= at <= text.len(),
    ensures
        text_width(text) == text_width(text.take(at)) + text_width(text.skip(at)),
    decreases text.len(),
{
    if at == text.len() {
        assert(text.take(at) =~= text);
        assert(text.skip(at) =~= Seq::<char>::empty());
    } else {
        lemma_text_width_split(text.drop_last(), at);
        assert(text.drop_last().take(at) =~= text.take(at));
        assert(text.skip(at).drop_last() =~= text.drop_last().skip(at));
    }
}

/// The columns a text takes on screen.
pub fn str_display_width(s: &str) -> (width: usize)
    requires
        width_fits(s@),
    ensures
        width == text_width(s@),
{
    let chars = chars_of(s);
    assert(chars@.subrange(0, chars@.len() as int) =~= s@);
    width_of_chars(&chars, 0, chars.len())
}

/// The columns that `chars[from..to]` take on screen.
pub fn width_of_chars(chars: &Vec<char>, from: usize, to: usize) -> (width: usize)
    requires
        from <= to <= chars@.len(),
        width_fits(chars@),
    ensures
        width == text_width(chars@.subrange(from as int, to as int)),
        width <= 4 * (to - from),
{
    let mut width: usize = 0;
    let mut i: usize = from;
    assert(chars@.subrange(from as int, from as int) =~= Seq::<char>::empty());
    while i < to
        invariant
            from <= i <= to <= chars@.len(),
            width_fits(chars@),
            width == text_width(chars@.subrange(from as int, i as int)),
            width <= 4 * (i - from),
        decreases to - i,
    {
        let w = char_display_width(chars[i]);
        proof {
            lemma_text_width_push(chars@.subrange(from as int, i as int), chars@[i as int]);
            assert(chars@.subrange(from as int, i + 1) =~= chars@.subrange(from as int, i as int).push(
                chars@[i as int],
            ));
        }
        width += w;
        i += 1;
    }
    width
}

/// How many characters from the start of `text` fit into `max_width`
/// columns: the length of the longest prefix that is not wider.
pub open spec fn fitting_len(text: Seq<char>, max_width: nat) -> nat
    decreases text.len(),
{
    if text.len() == 0 {
        0
    } else if text_width(text) <= max_width {
        text.len()
    } else {
        fitting_len(text.drop_last(), max_width)
    }
}

/// The width of `text` as far as it is needed to tell whether it goes
/// beyond `max_width`: the width of the shortest prefix that is wider than
/// `max_width`, or of the whole text where none is.
pub open spec fn limited_width(text: Seq<char>, max_width: nat) -> nat {
    let fits = fitting_len(text, max_width);
    if fits == text.len() {
        text_width(text)
    } else {
        text_width(text.take(fits as int + 1))
    }
}

/// A longer text is at least as wide.
pub proof fn lemma_text_width_monotone(text: Seq<char>, n: int)
    requires
        0 <= n <= text.len(),
    ensures
        text_width(text.take(n)) <= text_width(text),
{
    lemma_text_width_split(text, n);
}

/// The longest fitting prefix fits, and one character more does not.
pub proof fn lemma_fitting_len(text: Seq<char>, max_width: nat)
    ensures
        fitting_len(text, max_width) <= text.len(),
        text_width(text.take(fitting_len(text, max_width) as int)) <= max_width,
        fitting_len(text, max_width) < text.len() ==> text_width(
            text.take(fitting_len(text, max_width) as int + 1),
        ) > max_width,
        (fitting_len(text, max_width) == text.len()) == (text_width(text) <= max_width),
    decreases text.len(),
{
    if text.len() == 0 {
        assert(text.take(0) =~= text);
    } else if text_width(text) <= max_width {
        assert(text.take(text.len() as int) =~= text);
    } else {
        let shorter = text.drop_last();
        lemma_fitting_len(shorter, max_width);
        let fits = fitting_len(shorter, max_width) as int;
        assert(shorter.take(fits) =~= text.take(fits));
        if fits < shorter.len() {
            assert(shorter.take(fits + 1) =~= text.take(fits + 1));
        } else {
            assert(text.take(fits + 1) =~= text);
        }
    }
}

/// The first `n` characters fit exactly when `n` is no more than the
/// number of fitting characters.
pub proof fn lemma_fitting_len_is_first(text: Seq<char>, max_width: nat, n: int)
    requires
        0 <= n <= text.len(),
    ensures
        (text_width(text.take(n)) <= max_width) == (n <= fitting_len(text, max_width)),
{
    lemma_fitting_len(text, max_width);
    let fits = fitting_len(text, max_width) as int;
    if n <= fits {
        lemma_text_width_monotone(text.take(fits), n);
        assert(text.take(fits).take(n) =~= text.take(n));
    } else {
        lemma_text_width_monotone(text.take(n), fits + 1);
        assert(text.take(n).take(fits + 1) =~= text.take(fits + 1));
    }
}

/// The width of `text`, counted only until it goes beyond `max_width`.
pub fn display_width_with_limit(text: &str, max_width: usize) -> (width: usize)
    requires
        width_fits(text@),
    ensures
        width == limited_width(text@, max_width as nat),
        (width > max_width) == (text_width(text@) > max_width),
{
    let chars = chars_of(text);
    let mut acc: usize = 0;
    let mut i: usize = 0;
    assert(chars@.take(0) =~= Seq::<char>::empty());
    while i < chars.len()
        invariant
            i <= chars@.len(),
            chars@ == text@,
            width_fits(chars@),
            acc == text_width(chars@.take(i as int)),
            acc <= max_width,
            acc <= 4 * i,
        decreases chars@.len() - i,
    {
        let w = char_display_width(chars[i]);
        proof {
            lemma_text_width_push(chars@.take(i as int), chars@[i as int]);
            assert(chars@.take(i + 1) =~= chars@.take(i as int).push(chars@[i as int]));
        }
        acc += w;
        if acc > max_width {
            proof {
                lemma_fitting_len_is_first(chars@, max_width as nat, i as int);
                lemma_fitting_len_is_first(chars@, max_width as nat, i + 1);
                lemma_fitting_len(chars@, max_width as nat);
                lemma_text_width_monotone(chars@, i + 1);
            }
            return acc;
        }
        i += 1;
    }
    proof {
        assert(chars@.take(chars@.len() as int) =~= chars@);
        lemma_fitting_len(chars@, max_width as nat);
    }
    acc
}

/// Whether `text` is wider than `max_width` columns.
pub fn overflow(text: &str, max_width: usize) -> (wider: bool)
    requires
        width_fits(text@),
    ensures
        wider == (text_width(text@) > max_width),
{
    display_width_with_limit(text, max_width) > max_width
}

/// The longest prefix of `chars` that is not wider than `max_width`
/// columns, as a number of characters.
pub fn fitting_chars(chars: &Vec<char>, max_width: usize) -> (fits: usize)
    requires
        width_fits(chars@),
    ensures
        fits == fitting_len(chars@, max_width as nat),
        fits <= chars@.len(),
{
    let mut trimmed: usize = 0;
    let mut i: usize = 0;
    assert(chars@.take(0) =~= Seq::<char>::empty());
    while i < chars.len()
        invariant
            i <= chars@.len(),
            width_fits(chars@),
            trimmed == text_width(chars@.take(i as int)),
            trimmed <= max_width,
            trimmed <= 4 * i,
        decreases chars@.len() - i,
    {
        let w = char_display_width(chars[i]);
        proof {
            lemma_text_width_push(chars@.take(i as int), chars@[i as int]);
            assert(chars@.take(i + 1) =~= chars@.take(i as int).push(chars@[i as int]));
        }
        trimmed += w;
        if trimmed > max_width {
            proof {
                lemma_fitting_len_is_first(chars@, max_width as nat, i as int);
                lemma_fitting_len_is_first(chars@, max_width as nat, i + 1);
            }
            return i;
        }
        i += 1;
    }
    proof {
        assert(chars@.take(chars@.len() as int) =~= chars@);
        lemma_fitting_len(chars@, max_width as nat);
    }
    chars.len()
}

/// The longest prefix of `text` that is not wider than `max_width`
/// columns.
pub fn trim_right(text: &str, max_width: usize) -> (left: String)
    requires
        width_fits(text@),
    ensures
        left@ == text@.take(fitting_len(text@, max_width as nat) as int),
        text_width(left@) <= max_width,
{
    let chars = chars_of(text);
    let fits = fitting_chars(&chars, max_width);
    proof {
        lemma_fitting_len(text@, max_width as nat);
    }
    string_of(&chars, 0, fits)
}

} // verus!
