//! Individuals: whatever carries a genome and a fitness.

use crate::chromosome::Chromosome;
use vstd::prelude::*;

verus! {

/// A member of a population.
///
/// Fitness is a non-negative integer score. An individual is created from a
/// genome alone, with no fitness yet; fitness accumulates while the individual
/// lives and is read when the next generation is bred.
pub trait Individual: Sized {
    type Gene: Copy;

    /// The genes that the individual carries.
    spec fn spec_chromosome(&self) -> Seq<Self::Gene>;

    /// The individual's fitness.
    spec fn spec_fitness(&self) -> u64;

    /// A fresh individual around `chromosome`, with fitness zero.
    fn create(chromosome: Chromosome<Self::Gene>) -> (fresh: Self)
        ensures
            fresh.spec_chromosome() == chromosome@,
            fresh.spec_fitness() == 0,
    ;

    /// The individual's genome.
    fn chromosome(&self) -> (chromosome: &Chromosome<Self::Gene>)
        ensures
            chromosome@ == self.spec_chromosome(),
    ;

    /// The individual's fitness.
    fn fitness(&self) -> (fitness: u64)
        ensures
            fitness == self.spec_fitness(),
    ;
}

/// The fitness of each member, in population order.
pub open spec fn fitnesses<I: Individual>(population: Seq<I>) -> Seq<u64> {
    population.map_values(|individual: I| individual.spec_fitness())
}

/// The sum of a sequence of scores.
pub open spec fn total(scores: Seq<u64>) -> int
    decreases scores.len(),
{
    if scores.len() == 0 {
        0
    } else {
        total(scores.drop_last()) + scores.last()
    }
}

/// Every member carries a genome of the same length.
pub open spec fn same_genome_length<I: Individual>(population: Seq<I>) -> bool {
    forall|i: int, j: int|
        0 <= i < population.len() && 0 <= j < population.len() ==> (
        #[trigger] population[i]).spec_chromosome().len() == (
        #[trigger] population[j]).spec_chromosome().len()
}

/// A sum of scores is bounded by the largest score times their number, and is
/// never negative.
pub proof fn lemma_total_bounds(scores: Seq<u64>)
    ensures
        0 <= total(scores) <= scores.len() * u64::MAX,
    decreases scores.len(),
{
    if scores.len() > 0 {
        lemma_total_bounds(scores.drop_last());
        assert((scores.len() - 1) * u64::MAX + u64::MAX == scores.len() * u64::MAX)
            by (nonlinear_arith);
    } else {
        assert(scores.len() * u64::MAX == 0) by (nonlinear_arith)
            requires
                scores.len() == 0,
        ;
    }
}

/// A sum of scores is positive exactly when one of the scores is.
pub proof fn lemma_total_positive(scores: Seq<u64>)
    ensures
        total(scores) > 0 <==> exists|i: int| 0 <= i < scores.len() && #[trigger] scores[i] > 0,
    decreases scores.len(),
{
    if scores.len() > 0 {
        let front = scores.drop_last();
        lemma_total_positive(front);
        lemma_total_bounds(front);
        if total(scores) > 0 {
            if scores.last() > 0 {
                assert(scores[scores.len() - 1] > 0);
            } else {
                let i = choose|i: int| 0 <= i < front.len() && #[trigger] front[i] > 0;
                assert(scores[i] > 0);
            }
        }
        if exists|i: int| 0 <= i < scores.len() && #[trigger] scores[i] > 0 {
            let i = choose|i: int| 0 <= i < scores.len() && #[trigger] scores[i] > 0;
            if i < front.len() {
                assert(front[i] > 0);
            }
        }
    }
}

/// The sum of the members' fitness.
pub fn total_fitness<I: Individual>(population: &[I]) -> (sum: u128)
    ensures
        sum == total(fitnesses(population@)),
{
    let ghost scores = fitnesses(population@);
    let mut sum: u128 = 0;
    let mut i: usize = 0;
    let count = population.len();
    while i < count
        invariant
            count == population@.len(),
            scores == fitnesses(population@),
            i <= count,
            sum == total(scores.subrange(0, i as int)),
        decreases count - i,
    {
        proof {
            lemma_total_bounds(scores.subrange(0, i as int));
            assert(scores.subrange(0, i + 1).drop_last() =~= scores.subrange(0, i as int));
            assert(i * u64::MAX + u64::MAX <= u128::MAX) by (nonlinear_arith)
                requires
                    i <= u64::MAX,
            ;
        }
        sum = sum + population[i].fitness() as u128;
        i = i + 1;
    }
    proof {
        assert(scores.subrange(0, i as int) =~= scores);
    }
    sum
}

} // verus!
