//! Small verified helpers on strings: character access, building, decimal
//! rendering and ordering.

use vstd::prelude::*;
use vstd::string::StringExecFns;
use vstd::seq_lib::to_multiset_build;
use vstd::seq_lib::to_multiset_insert;
use crate::lex::lemma_lex_le_transitive;
use crate::lex::lemma_lex_trichotomy;
use crate::lex::lex_lt;

verus! {

/// std's `String::push`: the character is appended to the string, which
/// is otherwise unchanged.
pub assume_specification[ String::push ](s: &mut String, c: char)
    ensures
        final(s)@ == old(s)@.push(c),
;

/// The characters of `s`, in order.
pub fn chars_of(s: &str) -> (v: Vec<char>)
    ensures
        v@ == s@,
{
    let mut v: Vec<char> = Vec::new();
    for c in it: s.chars()
        invariant
            it.seq() == s@,
            v@.len() == it.index(),
            forall|i: int| 0 <= i < v@.len() ==> v@[i] == it.seq()[i],
    {
        v.push(c);
    }
    v
}

/// The string made of `chars[from..to]`.
pub fn string_of(chars: &Vec<char>, from: usize, to: usize) -> (s: String)
    requires
        from <= to <= chars@.len(),
    ensures
        s@ == chars@.subrange(from as int, to as int),
{
    let mut s = String::new();
    let mut i: usize = from;
    while i < to
        invariant
            from <= i <= to <= chars@.len(),
            s@ == chars@.subrange(from as int, i as int),
        decreases to - i,
    {
        s.push(chars[i]);
        i += 1;
    }
    s
}

/// `unit` written `n` times.
pub open spec fn repeat(unit: Seq<char>, n: nat) -> Seq<char>
    decreases n,
{
    if n == 0 {
        Seq::empty()
    } else {
        repeat(unit, (n - 1) as nat) + unit
    }
}

/// `unit` written `n` times.
pub fn repeat_str(unit: &str, n: usize) -> (s: String)
    ensures
        s@ == repeat(unit@, n as nat),
{
    let mut s = String::new();
    let mut i: usize = 0;
    while i < n
        invariant
            i <= n,
            s@ == repeat(unit@, i as nat),
        decreases n - i,
    {
        s.append(unit);
        i += 1;
    }
    s
}

/// The texts of `strings`, in the same order.
pub open spec fn texts(strings: Seq<String>) -> Seq<Seq<char>> {
    strings.map_values(|s: String| s@)
}

/// The character for a single decimal digit.
pub open spec fn digit_char(d: nat) -> char
    recommends
        d < 10,
{
    (48 + d) as char
}

/// The decimal numeral of `n`, without leading zeros.
pub open spec fn decimal(n: nat) -> Seq<char>
    decreases n,
{
    if n < 10 {
        seq![digit_char(n)]
    } else {
        decimal(n / 10).push(digit_char(n % 10))
    }
}

/// Renders `n` as a decimal numeral.
pub fn u64_to_string(n: u64) -> (s: String)
    ensures
        s@ == decimal(n as nat),
{
    let mut digits: Vec<char> = Vec::new();
    let mut rest: u64 = n;
    // `suffix` holds the digits produced so far, least significant last.
    let ghost mut suffix: Seq<char> = Seq::empty();
    while rest >= 10
        invariant
            digits@.len() == suffix.len(),
            forall|i: int| 0 <= i < suffix.len() ==> suffix[i] == digits@[suffix.len() - 1 - i],
            decimal(n as nat) == decimal(rest as nat) + suffix,
        decreases rest,
    {
        let d: u8 = (rest % 10) as u8;
        let c: char = (48u8 + d) as char;
        proof {
            assert(c == digit_char((rest % 10) as nat));
            assert(decimal(rest as nat) == decimal((rest / 10) as nat).push(c));
            assert(decimal((rest / 10) as nat).push(c) + suffix =~= decimal((rest / 10) as nat)
                + (seq![c] + suffix));
            suffix = seq![c] + suffix;
        }
        digits.push(c);
        rest = rest / 10;
    }
    let first: char = (48u8 + rest as u8) as char;
    assert(decimal(rest as nat) == seq![first]);
    let mut s = String::new();
    s.push(first);
    let mut i: usize = digits.len();
    while i > 0
        invariant
            i <= digits@.len(),
            digits@.len() == suffix.len(),
            forall|k: int| 0 <= k < suffix.len() ==> suffix[k] == digits@[suffix.len() - 1 - k],
            s@ == seq![first] + suffix.subrange(0, suffix.len() - i),
        decreases i,
    {
        i -= 1;
        s.push(digits[i]);
        assert(s@ =~= seq![first] + suffix.subrange(0, suffix.len() - i));
    }
    assert(suffix.subrange(0, suffix.len() as int) =~= suffix);
    s
}

/// The key by which characters are ordered: the code point.
pub open spec fn char_key() -> spec_fn(char) -> int {
    |c: char| c as int
}

/// Whether text `a` comes strictly before `b`, character by character in
/// code-point order; a proper prefix comes first. This is the order of
/// `str`.
pub open spec fn text_lt(a: Seq<char>, b: Seq<char>) -> bool {
    lex_lt(a, b, char_key())
}

/// The place of `a` relative to `b` in the order of `str`: 0 when `a` comes
/// first, 2 when `b` does, 1 when they are the same.
pub fn text_rank(a: &str, b: &str) -> (place: u8)
    ensures
        place <= 2,
        (place == 0) == text_lt(a@, b@),
        (place == 2) == text_lt(b@, a@),
        (place == 1) == (a@ == b@),
{
    let x = chars_of(a);
    let y = chars_of(b);
    let mut i: usize = 0;
    proof {
        assert(x@.skip(0) =~= x@);
        assert(y@.skip(0) =~= y@);
    }
    while i < x.len() && i < y.len()
        invariant
            x@ == a@,
            y@ == b@,
            i <= x@.len(),
            i <= y@.len(),
            x@.take(i as int) == y@.take(i as int),
            text_lt(x@, y@) == text_lt(x@.skip(i as int), y@.skip(i as int)),
            text_lt(y@, x@) == text_lt(y@.skip(i as int), x@.skip(i as int)),
        decreases x@.len() - i,
    {
        let c = x[i];
        let d = y[i];
        proof {
            assert(x@.skip(i as int)[0] == c);
            assert(y@.skip(i as int)[0] == d);
            assert(x@.skip(i as int).drop_first() =~= x@.skip(i + 1));
            assert(y@.skip(i as int).drop_first() =~= y@.skip(i + 1));
        }
        if c < d {
            assert(x@[i as int] != y@[i as int]);
            return 0;
        } else if c > d {
            assert(x@[i as int] != y@[i as int]);
            return 2;
        }
        proof {
            assert(x@.take(i + 1) =~= x@.take(i as int).push(c));
            assert(y@.take(i + 1) =~= y@.take(i as int).push(d));
        }
        i += 1;
    }
    proof {
        if x@.len() == y@.len() {
            assert(x@.take(i as int) =~= x@);
            assert(y@.take(i as int) =~= y@);
        }
    }
    if x.len() < y.len() {
        0
    } else if x.len() > y.len() {
        2
    } else {
        1
    }
}

/// Whether no text of `lines` comes before an earlier one.
pub open spec fn texts_sorted(lines: Seq<Seq<char>>) -> bool {
    forall|i: int, j: int| 0 <= i < j < lines.len() ==> !text_lt(lines[j], lines[i])
}

/// Puts `line` into `sorted` behind every line that it does not precede.
fn insert_line(sorted: &mut Vec<String>, line: String)
    requires
        texts_sorted(texts(old(sorted)@)),
    ensures
        texts_sorted(texts(final(sorted)@)),
        texts(final(sorted)@).to_multiset() == texts(old(sorted)@).to_multiset().insert(line@),
{
    let mut pos: usize = 0;
    while pos < sorted.len() && text_rank(line.as_str(), sorted[pos].as_str()) != 0
        invariant
            pos <= sorted@.len(),
            forall|k: int| 0 <= k < pos ==> !text_lt(line@, #[trigger] texts(sorted@)[k]),
        decreases sorted@.len() - pos,
    {
        pos += 1;
    }
    let ghost before = texts(sorted@);
    assert(pos == sorted@.len() || text_lt(line@, before[pos as int]));
    sorted.insert(pos, line);
    proof {
        let after = texts(sorted@);
        assert(after =~= before.insert(pos as int, line@));
        to_multiset_insert(before, pos as int, line@);
        assert forall|i: int, j: int| 0 <= i < j < after.len() implies !text_lt(after[j], after[i]) by {
            if j == pos {
                assert(after[i] == before[i]);
                assert(after[j] == line@);
                assert(!text_lt(line@, before[i]));
            } else if i == pos {
                assert(after[j] == before[j - 1]);
                assert(after[i] == line@);
                assert(text_lt(line@, before[pos as int]));
                lemma_lex_trichotomy(line@, before[pos as int], char_key());
                lemma_lex_trichotomy(line@, before[j - 1], char_key());
                lemma_lex_le_transitive(line@, before[pos as int], before[j - 1], char_key());
                if j - 1 > pos {
                    assert(!text_lt(before[j - 1], before[pos as int]));
                }
                assert(text_lt(line@, before[j - 1]));
            } else {
                let bi = if i < pos { i } else { i - 1 };
                let bj = if j < pos { j } else { j - 1 };
                assert(after[i] == before[bi]);
                assert(after[j] == before[bj]);
            }
        }
    }
}

/// The lines in the order of `str`, each as often as it was given.
pub fn sort_lines(lines: Vec<String>) -> (sorted: Vec<String>)
    ensures
        texts_sorted(texts(sorted@)),
        texts(sorted@).to_multiset() == texts(lines@).to_multiset(),
{
    let mut sorted: Vec<String> = Vec::new();
    let ghost all = lines@;
    assert(texts(all.take(0)) =~= texts(sorted@));
    for line in it: lines
        invariant
            it.seq() == all,
            texts_sorted(texts(sorted@)),
            texts(sorted@).to_multiset() == texts(all.take(it.index())).to_multiset(),
    {
        proof {
            assert(texts(all.take(it.index() + 1)) =~= texts(all.take(it.index())).push(line@));
            to_multiset_build(texts(all.take(it.index())), line@);
        }
        insert_line(&mut sorted, line);
    }
    assert(all.take(all.len() as int) =~= all);
    sorted
}

/// The pieces of `text` between the separators: one more than there are
/// separators.
pub open spec fn split(text: Seq<char>, sep: char) -> Seq<Seq<char>>
    decreases text.len(),
{
    if text.len() == 0 {
        seq![Seq::empty()]
    } else if text.last() == sep {
        split(text.drop_last(), sep).push(Seq::empty())
    } else {
        let before = split(text.drop_last(), sep);
        before.update(before.len() - 1, before.last().push(text.last()))
    }
}

/// The pieces of `text` between the separators `sep`, in order.
pub fn split_text(text: &str, sep: char) -> (pieces: Vec<String>)
    ensures
        texts(pieces@) == split(text@, sep),
        pieces@.len() >= 1,
{
    let chars = chars_of(text);
    let mut pieces: Vec<String> = Vec::new();
    let mut current = String::new();
    let mut i: usize = 0;
    assert(chars@.take(0) =~= Seq::<char>::empty());
    assert(texts(pieces@).push(current@) =~= split(chars@.take(0), sep));
    while i < chars.len()
        invariant
            i <= chars@.len(),
            chars@ == text@,
            texts(pieces@).push(current@) == split(chars@.take(i as int), sep),
        decreases chars@.len() - i,
    {
        let c = chars[i];
        proof {
            assert(chars@.take(i + 1).drop_last() =~= chars@.take(i as int));
            assert(chars@.take(i + 1).last() == c);
        }
        if c == sep {
            let ghost done = texts(pieces@).push(current@);
            pieces.push(current);
            current = String::new();
            assert(texts(pieces@) =~= done);
        } else {
            let ghost before = texts(pieces@).push(current@);
            current.push(c);
            assert(texts(pieces@).push(current@) =~= before.update(
                before.len() - 1,
                before.last().push(c),
            ));
        }
        i += 1;
    }
    assert(chars@.take(chars@.len() as int) =~= chars@);
    let ghost done = texts(pieces@).push(current@);
    pieces.push(current);
    assert(texts(pieces@) =~= done);
    pieces
}

} // verus!
