//! Groth15 structure-preserving signatures on pairs of group elements, in the
//! standard form (messages in G2) and the flipped form (messages in G1).
pub mod flipped;
pub mod standard;

use vstd::prelude::*;
use ark_std::rand::rngs::StdRng;
use crate::curve::{group_order, Scalar};

verus! {

/// A non-zero scalar drawn by `rng`: draws are repeated while they come out
/// zero. A zero draw has probability one in the group order, so the bound on
/// the number of redraws is never reached in practice; past it the scalar one
/// is returned.
pub(crate) fn rand_nonzero(rng: &mut StdRng) -> (res: Scalar)
    ensures
        0 < res@ < group_order(),
{
    let mut r = Scalar::rand(rng);
    let mut redraws: u64 = 0;
    while r.is_zero() && redraws < u64::MAX
        decreases u64::MAX - redraws,
    {
        r = Scalar::rand(rng);
        redraws = redraws + 1;
    }
    proof { use_type_invariant(&r); r.lemma_value(); }
    if r.is_zero() {
        Scalar::one()
    } else {
        r
    }
}

} // verus!
