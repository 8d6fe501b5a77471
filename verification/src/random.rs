//! The random source used by world generation.

use vstd::prelude::*;
use rand::rngs::StdRng;
use rand::Rng;

verus! {

/// `rand::rngs::StdRng`, the seedable generator that world generation draws
/// from.  Its state is opaque here.
#[verifier::external_type_specification]
#[verifier::external_body]
pub struct ExStdRng(rand::rngs::StdRng);

/// Draws an index uniformly from `0..n` with `rand::Rng::gen_range`.
///
/// Not proved: that the value `gen_range` returns for the half-open range
/// `0..n` lies inside that range.  `gen_range` panics on an empty range,
/// which is why `n` must be positive.  Nothing is claimed about which index
/// comes out or about the generator's state afterwards.
#[verifier::external_body]
pub(crate) fn draw_below(rng: &mut StdRng, n: usize) -> (k: usize)
    requires
        n > 0,
    ensures
        k < n,
{
    rng.gen_range(0..n)
}

} // verus!
