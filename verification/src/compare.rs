//! Lexicographic comparison of lines, the order the merge walks by.

use vstd::prelude::*;

verus! {

/// Three-way comparison of two character sequences by code point, a
/// proper prefix ordering before anything it is a prefix of: the order
/// that `str`'s `Ord` implements.
pub open spec fn cmp_chars(a: Seq<char>, b: Seq<char>) -> core::cmp::Ordering
    decreases a.len(),
{
    if a.len() == 0 && b.len() == 0 {
        core::cmp::Ordering::Equal
    } else if a.len() == 0 {
        core::cmp::Ordering::Less
    } else if b.len() == 0 {
        core::cmp::Ordering::Greater
    } else if (a[0] as int) < (b[0] as int) {
        core::cmp::Ordering::Less
    } else if (a[0] as int) > (b[0] as int) {
        core::cmp::Ordering::Greater
    } else {
        cmp_chars(a.drop_first(), b.drop_first())
    }
}

/// Relies on `str`'s `Ord` impl: strings are ordered lexicographically by
/// byte value, which (per std's documentation) sorts Unicode code points
/// by their positions in the code charts.
pub assume_specification[ <str as Ord>::cmp ](a: &str, b: &str) -> (r: core::cmp::Ordering)
    ensures
        r == cmp_chars(a@, b@),
;

/// Comparing a sequence against itself yields `Equal`.
pub proof fn lemma_cmp_refl(a: Seq<char>)
    ensures
        cmp_chars(a, a) == core::cmp::Ordering::Equal,
    decreases a.len(),
{
    if a.len() > 0 {
        lemma_cmp_refl(a.drop_first());
    }
}

/// The comparison yields `Equal` exactly on equal sequences.
pub proof fn lemma_cmp_eq_iff(a: Seq<char>, b: Seq<char>)
    ensures
        cmp_chars(a, b) == core::cmp::Ordering::Equal <==> a == b,
    decreases a.len(),
{
    if a.len() == 0 || b.len() == 0 {
        if a.len() == 0 && b.len() == 0 {
            assert(a =~= b);
        } else {
            assert(a.len() != b.len());
        }
    } else {
        lemma_cmp_eq_iff(a.drop_first(), b.drop_first());
        if cmp_chars(a, b) == core::cmp::Ordering::Equal {
            assert(a[0] == b[0]);
            assert(a =~= seq![a[0]] + a.drop_first());
            assert(b =~= seq![b[0]] + b.drop_first());
        }
        if a == b {
            assert(a.drop_first() =~= b.drop_first());
        }
    }
}

/// One line sorts no later than another.
pub open spec fn line_le(a: Seq<char>, b: Seq<char>) -> bool {
    cmp_chars(a, b) != core::cmp::Ordering::Greater
}

/// The order is transitive.
pub proof fn lemma_cmp_trans(x: Seq<char>, y: Seq<char>, z: Seq<char>)
    requires
        line_le(x, y),
        line_le(y, z),
    ensures
        line_le(x, z),
    decreases x.len(),
{
    if x.len() > 0 {
        assert(y.len() > 0);
        assert(z.len() > 0);
        if (x[0] as int) == (y[0] as int) && (y[0] as int) == (z[0] as int) {
            lemma_cmp_trans(x.drop_first(), y.drop_first(), z.drop_first());
        }
    }
}

/// Swapping the arguments mirrors the comparison.
pub proof fn lemma_cmp_flip(a: Seq<char>, b: Seq<char>)
    ensures
        cmp_chars(a, b) == core::cmp::Ordering::Greater <==> cmp_chars(b, a)
            == core::cmp::Ordering::Less,
    decreases a.len(),
{
    if a.len() > 0 && b.len() > 0 && (a[0] as int) == (b[0] as int) {
        lemma_cmp_flip(a.drop_first(), b.drop_first());
    }
}

} // verus!
