//! What the library asks of a gene type.

use rand::rngs::StdRng;
use vstd::prelude::*;

verus! {

/// A real-valued gene.
///
/// The library copies genes and puts them in order; it never adds, scales or
/// compares them. Where a real number has to be drawn or computed (filling a
/// fresh network, perturbing a gene, firing a neuron) the gene type does it,
/// through this trait. The draws take the random source that the library
/// passes along, so that they stay in stream order.
pub trait Gene: Copy {
    /// A fresh parameter for a randomized network. Implementations draw it
    /// uniformly from the closed interval between minus one and one.
    fn random(rng: &mut StdRng) -> Self;

    /// The magnitude of one perturbation, before it is scaled. Implementations
    /// draw it uniformly from the half-open unit interval.
    fn magnitude(rng: &mut StdRng) -> Self;

    /// The gene after one perturbation: the gene plus (or, when `negative` is
    /// set, minus) `coefficient` times `magnitude`.
    fn shifted(self, negative: bool, coefficient: Self, magnitude: Self) -> Self;

    /// The output of a neuron with the given bias and weights for the given
    /// inputs, of which there are as many as weights: the sum of the bias and
    /// of each input times its weight, or zero where that sum is negative.
    fn activated(bias: Self, weights: &[Self], inputs: &[Self]) -> Self;
}

} // verus!
