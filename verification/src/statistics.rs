//! Fitness statistics of one generation.

use crate::individual::{fitnesses, lemma_total_bounds, total, Individual};
use vstd::prelude::*;

verus! {

/// An arithmetic mean, kept exact as a sum over a count.
#[derive(Debug, Clone, Copy, PartialEq, Eq, Structural)]
pub struct Mean {
    pub total: u128,
    pub count: usize,
}

/// The least, the greatest and the summed fitness of a population, taken at a
/// generation boundary.
#[derive(Debug, Clone, Copy, PartialEq, Eq, Structural)]
pub struct Statistics {
    pub min_fitness: u64,
    pub max_fitness: u64,
    pub total_fitness: u128,
    pub population: usize,
}

/// `statistics` describes `scores`: it holds their number and their sum, its
/// minimum and maximum occur among them, and none lies outside the two.
pub open spec fn summarizes(statistics: Statistics, scores: Seq<u64>) -> bool {
    &&& statistics.population == scores.len()
    &&& statistics.total_fitness == total(scores)
    &&& forall|i: int|
        0 <= i < scores.len() ==> statistics.min_fitness <= #[trigger] scores[i]
            <= statistics.max_fitness
    &&& exists|i: int| 0 <= i < scores.len() && #[trigger] scores[i] == statistics.min_fitness
    &&& exists|i: int| 0 <= i < scores.len() && #[trigger] scores[i] == statistics.max_fitness
}

/// The mean of a population lies between its least and its greatest fitness:
/// the summed fitness is at least the minimum and at most the maximum, each
/// taken once per member.
pub proof fn lemma_mean_between_extremes(statistics: Statistics, scores: Seq<u64>)
    requires
        summarizes(statistics, scores),
    ensures
        statistics.min_fitness * statistics.population <= statistics.total_fitness
            <= statistics.max_fitness * statistics.population,
{
    lemma_total_between(scores, statistics.min_fitness as int, statistics.max_fitness as int);
}

/// A sum of scores that all lie between `low` and `high` lies between `low`
/// and `high` times their number.
proof fn lemma_total_between(scores: Seq<u64>, low: int, high: int)
    requires
        forall|i: int| 0 <= i < scores.len() ==> low <= #[trigger] scores[i] <= high,
    ensures
        low * scores.len() <= total(scores) <= high * scores.len(),
    decreases scores.len(),
{
    if scores.len() > 0 {
        let front = scores.drop_last();
        assert forall|i: int| 0 <= i < front.len() implies low <= #[trigger] front[i] <= high by {
            assert(front[i] == scores[i]);
        }
        lemma_total_between(front, low, high);
        assert(low * (scores.len() - 1) + low == low * scores.len()) by (nonlinear_arith);
        assert(high * (scores.len() - 1) + high == high * scores.len()) by (nonlinear_arith);
        assert(low <= scores[scores.len() - 1] <= high);
    } else {
        assert(low * scores.len() == 0 && high * scores.len() == 0) by (nonlinear_arith)
            requires
                scores.len() == 0,
        ;
    }
}

impl Statistics {
    /// The statistics of a population that has at least one member.
    pub fn analyze<I: Individual>(population: &[I]) -> (statistics: Statistics)
        requires
            population@.len() > 0,
        ensures
            summarizes(statistics, fitnesses(population@)),
    {
        let ghost scores = fitnesses(population@);
        let count = population.len();
        let first = population[0].fitness();
        let mut min_fitness: u64 = first;
        let mut max_fitness: u64 = first;
        let mut sum: u128 = first as u128;
        let mut i: usize = 1;
        let ghost mut at_min: int = 0;
        let ghost mut at_max: int = 0;
        proof {
            assert(scores.subrange(0, 1).drop_last() =~= Seq::<u64>::empty());
            assert(total(Seq::<u64>::empty()) == 0);
            assert(scores.subrange(0, 1).last() == scores[0]);
            assert(total(scores.subrange(0, 1)) == scores[0]);
        }
        while i < count
            invariant
                count == population@.len(),
                scores == fitnesses(population@),
                1 <= i <= count,
                sum == total(scores.subrange(0, i as int)),
                0 <= at_min < i,
                0 <= at_max < i,
                scores[at_min] == min_fitness,
                scores[at_max] == max_fitness,
                forall|k: int| 0 <= k < i ==> min_fitness <= #[trigger] scores[k] <= max_fitness,
            decreases count - i,
        {
            let fitness = population[i].fitness();
            proof {
                lemma_total_bounds(scores.subrange(0, i as int));
                assert(scores.subrange(0, i + 1).drop_last() =~= scores.subrange(0, i as int));
                assert(i * u64::MAX + u64::MAX <= u128::MAX) by (nonlinear_arith)
                    requires
                        i <= u64::MAX,
                ;
            }
            sum = sum + fitness as u128;
            if fitness < min_fitness {
                min_fitness = fitness;
                proof {
                    at_min = i as int;
                }
            }
            if fitness > max_fitness {
                max_fitness = fitness;
                proof {
                    at_max = i as int;
                }
            }
            i = i + 1;
        }
        proof {
            assert(scores.subrange(0, i as int) =~= scores);
        }
        Statistics { min_fitness, max_fitness, total_fitness: sum, population: count }
    }

    /// The least fitness in the population.
    pub fn min_fitness(&self) -> (fitness: u64)
        ensures
            fitness == self.min_fitness,
    {
        self.min_fitness
    }

    /// The greatest fitness in the population.
    pub fn max_fitness(&self) -> (fitness: u64)
        ensures
            fitness == self.max_fitness,
    {
        self.max_fitness
    }

    /// The mean fitness of the population, as the exact fraction of the summed
    /// fitness over the number of members.
    pub fn avg_fitness(&self) -> (mean: Mean)
        ensures
            mean.total == self.total_fitness,
            mean.count == self.population,
    {
        Mean { total: self.total_fitness, count: self.population }
    }
}

} // verus!
