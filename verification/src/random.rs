//! The random source that every stochastic operation is handed, and the one
//! primitive draw that the strategies are built from.

use rand::rngs::StdRng;
use rand::Rng;
use vstd::prelude::*;

verus! {

/// `rand::rngs::StdRng`, carried through the library as an opaque value.
#[verifier::external_type_specification]
#[verifier::external_body]
pub struct ExStdRng(StdRng);

/// Calls `rand::Rng::gen_ratio`, which returns `true` with probability
/// `numerator / denominator`.
///
/// The outcome is random, so the contract only states the two cases that the
/// method's documentation guarantees: a zero numerator never hits, and a
/// numerator equal to the denominator always hits. The method panics on a zero
/// denominator or a numerator above the denominator; both are excluded here.
#[verifier::external_body]
pub(crate) fn draw_ratio(rng: &mut StdRng, numerator: u32, denominator: u32) -> (hit: bool)
    requires
        denominator > 0,
        numerator <= denominator,
    ensures
        numerator == 0 ==> !hit,
        numerator == denominator ==> hit,
{
    rng.gen_ratio(numerator, denominator)
}

} // verus!
