//! The randomness source of the draw: thin wrappers around the process-wide
//! generator.

use vstd::prelude::*;

verus! {

/// Relies on `rand::Rng::gen_range` over `0..n`: the sample lies in the
/// (non-empty) range. The value itself depends on the generator's state, so
/// nothing more is assumed of it.
#[verifier::external_body]
pub(crate) fn pick_index(n: usize) -> (r: usize)
    requires
        n > 0,
    ensures
        r < n,
{
    rand::Rng::gen_range(&mut rand::thread_rng(), 0..n)
}

/// Relies on `rand::seq::SliceRandom::shuffle`: it permutes the slice in
/// place by swaps, so the new contents are a rearrangement of the old. Which
/// permutation comes out depends on the generator's state.
#[verifier::external_body]
pub(crate) fn shuffle_names(v: &mut Vec<String>)
    ensures
        final(v)@.to_multiset() == old(v)@.to_multiset(),
{
    rand::seq::SliceRandom::shuffle(v.as_mut_slice(), &mut rand::thread_rng())
}

} // verus!
