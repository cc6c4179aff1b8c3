//! The random source that drives randomisation.

use rand::rngs::StdRng;
use rand::Rng;
use vstd::prelude::*;

verus! {

/// The seedable generator of the `rand` crate, carried through opaquely.
#[verifier::external_type_specification]
#[verifier::external_body]
pub struct ExStdRng(StdRng);

/// Relies on `rand::Rng::gen::<bool>` on a `StdRng`: a fair coin that
/// advances the generator. Nothing is promised of which side comes up.
#[verifier::external_body]
pub(crate) fn coin(rng: &mut StdRng) -> (r: bool) {
    rng.gen::<bool>()
}

} // verus!
