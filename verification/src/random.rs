//! The random source. Nothing here is proved: each contract states what the
//! `rand` crate documents or its source shows.

use rand::rngs::StdRng;
use rand::seq::SliceRandom;
use rand::{Rng, SeedableRng};
use vstd::prelude::*;

verus! {

/// `rand::rngs::StdRng`, the generator that every draw goes through. Its
/// state is opaque to the proofs.
#[verifier::external_type_specification]
#[verifier::external_body]
pub struct ExStdRng(rand::rngs::StdRng);

/// Calls `StdRng::from_entropy`, which seeds a generator from the operating
/// system. Nothing is claimed of the generator. The call panics when the
/// operating system cannot provide entropy.
#[verifier::external_body]
pub(crate) fn fresh_rng() -> StdRng {
    StdRng::from_entropy()
}

/// Calls `Rng::gen_range` on `0..bound`. The range must not be empty, since
/// `gen_range` panics on an empty range; the value drawn lies in the range.
/// Which value is drawn is not stated, so two calls may differ.
#[verifier::external_body]
pub(crate) fn random_index(rng: &mut StdRng, bound: usize) -> (index: usize)
    requires
        bound > 0,
    ensures
        index < bound,
{
    rng.gen_range(0..bound)
}

/// Calls `SliceRandom::shuffle`, which permutes the slice in place by
/// swapping elements: afterwards the vector holds the same characters, each
/// as often as before. Which permutation results is not stated.
#[verifier::external_body]
pub(crate) fn shuffle_chars(chars: &mut Vec<char>, rng: &mut StdRng)
    ensures
        final(chars)@.to_multiset() == old(chars)@.to_multiset(),
{
    chars.shuffle(rng)
}

} // verus!
