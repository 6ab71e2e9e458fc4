//! Shared sequence helpers for block processing: pairing the two channels
//! of a stereo block, and the prefix lemmas the block-fold proofs lean on.

use vstd::prelude::*;

verus! {

/// Two channels side by side, truncated to the shorter one.
pub open spec fn zip_spec(a: Seq<i64>, b: Seq<i64>) -> Seq<(i64, i64)> {
    Seq::new(if a.len() <= b.len() { a.len() } else { b.len() }, |i: int| (a[i], b[i]))
}

/// Taking one more element and dropping it back is taking the prefix.
pub proof fn lemma_take_snoc<T>(xs: Seq<T>, i: int)
    requires
        0 <= i < xs.len(),
    ensures
        xs.take(i + 1).drop_last() == xs.take(i),
        xs.take(i + 1).last() == xs[i],
{
    assert(xs.take(i + 1).drop_last() =~= xs.take(i));
}

/// A full-length prefix is the sequence itself.
pub proof fn lemma_take_all<T>(xs: Seq<T>)
    ensures
        xs.take(xs.len() as int) == xs,
{
    assert(xs.take(xs.len() as int) =~= xs);
}

} // verus!
