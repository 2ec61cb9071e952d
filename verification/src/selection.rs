//! Selection: picking a parent from a population.

use crate::individual::{fitnesses, total, Individual};
use rand::distributions::WeightedError;
use rand::rngs::StdRng;
use rand::seq::SliceRandom;
use vstd::prelude::*;

verus! {

/// `rand::distributions::WeightedError`, carried as an opaque value.
#[verifier::external_type_specification]
#[verifier::external_body]
pub struct ExWeightedError(WeightedError);

/// A way of picking one member of a population. The same member may be picked
/// again by a later call.
///
/// Selection asks that somebody in the population has a positive fitness: an
/// empty population has nobody to pick, and where all fitness is zero there is
/// nothing to pick by.
pub trait SelectionMethod {
    /// Whether selection may pick the member at `index` of a population whose
    /// members have the fitness that `scores` lists.
    spec fn selects(&self, scores: Seq<u64>, index: int) -> bool;

    /// Picks one member of `population`.
    fn select<'a, I: Individual>(&self, rng: &mut StdRng, population: &'a [I]) -> (chosen: &'a I)
        requires
            total(fitnesses(population@)) > 0,
        ensures
            exists|i: int|
                0 <= i < population@.len() && #[trigger] population@[i] == *chosen && self.selects(
                    fitnesses(population@),
                    i,
                ),
    ;
}

/// Roulette-wheel selection: a member is picked with a probability
/// proportional to its fitness.
#[derive(Clone, Copy, Debug, Default)]
pub struct RouletteWheel;

/// Calls `rand::seq::SliceRandom::choose_weighted` on the population, with each
/// member's fitness, widened to 128 bits, as its weight.
///
/// The method builds the running sums of the weights, draws a value below
/// their total and returns the member whose share of the total the value
/// falls into. It fails when there is no member or when the total is zero;
/// unsigned weights rule out its third failure, a negative weight, and 128
/// bits hold the sum of any slice of 64-bit weights. Which member comes back
/// is random; the contract states what holds of every outcome: the call
/// succeeds exactly when the total is positive, and the member returned is
/// one of the population whose own fitness is positive, since a member of
/// fitness zero has an empty share.
#[verifier::external_body]
fn choose_by_fitness<'a, I: Individual>(rng: &mut StdRng, population: &'a [I]) -> (choice: Result<
    &'a I,
    WeightedError,
>)
    ensures
        choice is Ok <==> total(fitnesses(population@)) > 0,
        choice matches Ok(chosen) ==> exists|i: int|
            0 <= i < population@.len() && #[trigger] population@[i] == *chosen
                && population@[i].spec_fitness() > 0,
{
    population.choose_weighted(rng, |individual: &I| u128::from(individual.fitness()))
}

impl SelectionMethod for RouletteWheel {
    /// Only a member with a positive fitness is ever picked.
    open spec fn selects(&self, scores: Seq<u64>, index: int) -> bool {
        0 <= index < scores.len() && scores[index] > 0
    }

    /// Picks a member with a probability proportional to its fitness. A member
    /// of fitness zero is never picked.
    fn select<'a, I: Individual>(&self, rng: &mut StdRng, population: &'a [I]) -> (chosen: &'a I)
        ensures
            chosen.spec_fitness() > 0,
    {
        match choose_by_fitness(rng, population) {
            Ok(chosen) => chosen,
            Err(_) => vstd::pervasive::unreached(),
        }
    }
}

} // verus!
