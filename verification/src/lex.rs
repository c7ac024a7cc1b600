//! Lexicographic order on sequences, by an integer key of the items.

use vstd::prelude::*;

verus! {

/// Whether `a` comes strictly before `b`: at the first position where they
/// differ `a` has the smaller key, or `a` is a proper prefix of `b`.
pub open spec fn lex_lt<T>(a: Seq<T>, b: Seq<T>, key: spec_fn(T) -> int) -> bool
    decreases a.len(),
{
    if b.len() == 0 {
        false
    } else if a.len() == 0 {
        true
    } else if key(a[0]) != key(b[0]) {
        key(a[0]) < key(b[0])
    } else {
        lex_lt(a.drop_first(), b.drop_first(), key)
    }
}

/// Whether `a` and `b` have the same keys throughout.
pub open spec fn lex_eq<T>(a: Seq<T>, b: Seq<T>, key: spec_fn(T) -> int) -> bool {
    &&& a.len() == b.len()
    &&& forall|i: int| 0 <= i < a.len() ==> key(a[i]) == key(b[i])
}

/// Whether `a` does not come after `b`.
pub open spec fn lex_le<T>(a: Seq<T>, b: Seq<T>, key: spec_fn(T) -> int) -> bool {
    !lex_lt(b, a, key)
}

/// Of two sequences exactly one holds: the first is before the second, they
/// have equal keys, or the second is before the first.
pub proof fn lemma_lex_trichotomy<T>(a: Seq<T>, b: Seq<T>, key: spec_fn(T) -> int)
    ensures
        lex_lt(a, b, key) ==> !lex_lt(b, a, key) && !lex_eq(a, b, key),
        lex_eq(a, b, key) ==> !lex_lt(a, b, key) && !lex_lt(b, a, key),
        lex_lt(a, b, key) || lex_eq(a, b, key) || lex_lt(b, a, key),
    decreases a.len(),
{
    if a.len() == 0 || b.len() == 0 {
    } else if key(a[0]) != key(b[0]) {
    } else {
        let a1 = a.drop_first();
        let b1 = b.drop_first();
        lemma_lex_trichotomy(a1, b1, key);
        if lex_eq(a1, b1, key) {
            assert forall|i: int| 0 <= i < a.len() implies key(a[i]) == key(b[i]) by {
                if i > 0 {
                    assert(a1[i - 1] == a[i]);
                    assert(b1[i - 1] == b[i]);
                }
            }
        }
        if lex_eq(a, b, key) {
            assert forall|i: int| 0 <= i < a1.len() implies key(a1[i]) == key(b1[i]) by {
                assert(a1[i] == a[i + 1]);
                assert(b1[i] == b[i + 1]);
            }
        }
    }
}

/// The strict order is transitive.
pub proof fn lemma_lex_lt_transitive<T>(a: Seq<T>, b: Seq<T>, c: Seq<T>, key: spec_fn(T) -> int)
    requires
        lex_lt(a, b, key),
        lex_lt(b, c, key),
    ensures
        lex_lt(a, c, key),
    decreases a.len(),
{
    if a.len() == 0 {
    } else if key(a[0]) != key(b[0]) || key(b[0]) != key(c[0]) {
    } else {
        lemma_lex_lt_transitive(a.drop_first(), b.drop_first(), c.drop_first(), key);
    }
}

/// The order is transitive in its mixed forms as well.
pub proof fn lemma_lex_le_transitive<T>(a: Seq<T>, b: Seq<T>, c: Seq<T>, key: spec_fn(T) -> int)
    ensures
        lex_le(a, b, key) && lex_le(b, c, key) ==> lex_le(a, c, key),
        lex_lt(a, b, key) && lex_le(b, c, key) ==> lex_lt(a, c, key),
        lex_le(a, b, key) && lex_lt(b, c, key) ==> lex_lt(a, c, key),
    decreases a.len() + b.len() + c.len(),
{
    if a.len() == 0 || b.len() == 0 || c.len() == 0 {
    } else if key(a[0]) != key(b[0]) || key(b[0]) != key(c[0]) {
    } else {
        lemma_lex_le_transitive(a.drop_first(), b.drop_first(), c.drop_first(), key);
    }
}

/// Whatever is appended to `a`, the result does not come before `a`; and if
/// it comes before `b`, so does `a`.
pub proof fn lemma_lex_extension<T>(a: Seq<T>, tail: Seq<T>, b: Seq<T>, key: spec_fn(T) -> int)
    ensures
        lex_le(a, a + tail, key),
        lex_lt(a + tail, b, key) ==> lex_lt(a, b, key),
        tail.len() > 0 ==> lex_lt(a, a + tail, key),
    decreases a.len(),
{
    if a.len() == 0 {
        assert(a + tail =~= tail);
    } else {
        assert((a + tail).drop_first() =~= a.drop_first() + tail);
        assert((a + tail)[0] == a[0]);
        if b.len() > 0 {
            lemma_lex_extension(a.drop_first(), tail, b.drop_first(), key);
        } else {
            lemma_lex_extension(a.drop_first(), tail, b, key);
        }
    }
}

/// A common prefix does not change the order of what follows it.
pub proof fn lemma_lex_common_prefix<T>(p: Seq<T>, a: Seq<T>, b: Seq<T>, key: spec_fn(T) -> int)
    ensures
        lex_lt(p + a, p + b, key) == lex_lt(a, b, key),
    decreases p.len(),
{
    if p.len() == 0 {
        assert(p + a =~= a);
        assert(p + b =~= b);
    } else {
        assert((p + a).drop_first() =~= p.drop_first() + a);
        assert((p + b).drop_first() =~= p.drop_first() + b);
        assert((p + a)[0] == p[0]);
        assert((p + b)[0] == p[0]);
        lemma_lex_common_prefix(p.drop_first(), a, b, key);
    }
}

} // verus!
