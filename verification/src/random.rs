//! The one place where chance enters: a generator seeded by the operating
//! system and bounded draws from it.

use rand::rngs::StdRng;
use rand::{Rng, SeedableRng};
use vstd::prelude::*;

verus! {

/// `rand::rngs::StdRng`, carried through as an opaque value.
#[verifier::external_type_specification]
#[verifier::external_body]
pub struct ExStdRng(StdRng);

/// `rand::SeedableRng::from_entropy` for `rand::rngs::StdRng`: a generator
/// seeded by the operating system. Nothing is claimed of it.
#[verifier::external_body]
pub(crate) fn entropy_rng() -> (rng: StdRng) {
    StdRng::from_entropy()
}

/// `rand::Rng::gen_range(0, bound)` on a `StdRng`: a draw from the half-open
/// range from 0 to `bound`. The call panics on an empty range, so `bound`
/// must be positive; all that is claimed of the draw is that it lies in the
/// range.
#[verifier::external_body]
pub(crate) fn draw_below(rng: &mut StdRng, bound: usize) -> (r: usize)
    requires
        bound > 0,
    ensures
        r < bound,
{
    rng.gen_range(0, bound)
}

} // verus!
