//! The genetic algorithm: breeding one generation from the one before.

use crate::crossover::Crossover;
use crate::individual::{fitnesses, same_genome_length, total, Individual};
use crate::mutation::Mutation;
use crate::selection::SelectionMethod;
use crate::statistics::{summarizes, Statistics};
use rand::rngs::StdRng;
use vstd::prelude::*;

verus! {

/// A genetic algorithm, made of one strategy of each kind.
pub struct GeneticAlgorithm<S, C, M> {
    pub selection_method: S,
    pub crossover_method: C,
    pub mutation_method: M,
}

/// Whether `child` is an individual that the algorithm may breed from
/// `population`: a fresh individual whose genome is the mutation of a crossing
/// of the genomes of two members that selection may pick. The two need not be
/// different members.
pub open spec fn bred_from<S, C, M, I>(
    algorithm: GeneticAlgorithm<S, C, M>,
    population: Seq<I>,
    child: I,
) -> bool where S: SelectionMethod, I: Individual, C: Crossover<I::Gene>, M: Mutation<I::Gene> {
    &&& child.spec_fitness() == 0
    &&& exists|i: int, j: int, crossed: Seq<I::Gene>|
        {
            &&& 0 <= i < population.len()
            &&& 0 <= j < population.len()
            &&& algorithm.selection_method.selects(fitnesses(population), i)
            &&& algorithm.selection_method.selects(fitnesses(population), j)
            &&& #[trigger] algorithm.crossover_method.crosses(
                population[i].spec_chromosome(),
                population[j].spec_chromosome(),
                crossed,
            )
            &&& algorithm.mutation_method.mutates(crossed, child.spec_chromosome())
        }
}

impl<S: SelectionMethod, C, M> GeneticAlgorithm<S, C, M> {
    /// An algorithm that selects, crosses and mutates by the given strategies.
    pub fn new(selection_method: S, crossover_method: C, mutation_method: M) -> (algorithm: Self)
        ensures
            algorithm.selection_method == selection_method,
            algorithm.crossover_method == crossover_method,
            algorithm.mutation_method == mutation_method,
    {
        GeneticAlgorithm { selection_method, crossover_method, mutation_method }
    }

    /// Breeds the next generation and reports on the one given.
    ///
    /// For each member of `population` one child is bred: two parents are
    /// selected (possibly the same member twice), their genomes are crossed,
    /// the result is mutated, and a fresh individual is created around it. All
    /// children are bred from `population` itself; none becomes a parent
    /// within the same call.
    ///
    /// The new generation has the size of the old one, each of its members is
    /// bred from `population` and carries a genome of the common length, and
    /// the statistics are those of `population`.
    pub fn evolve<I>(&self, rng: &mut StdRng, population: &[I]) -> (bred: (Vec<I>, Statistics))
        where
            I: Individual,
            C: Crossover<I::Gene>,
            M: Mutation<I::Gene>,
        requires
            total(fitnesses(population@)) > 0,
            same_genome_length(population@),
        ensures
            bred.0@.len() == population@.len(),
            forall|k: int|
                0 <= k < bred.0@.len() ==> bred_from(*self, population@, #[trigger] bred.0@[k])
                    && bred.0@[k].spec_chromosome().len() == population@[0].spec_chromosome().len(),
            summarizes(bred.1, fitnesses(population@)),
    {
        let count = population.len();
        let mut offspring: Vec<I> = Vec::new();
        let mut k: usize = 0;
        while k < count
            invariant
                count == population@.len(),
                total(fitnesses(population@)) > 0,
                same_genome_length(population@),
                k <= count,
                offspring@.len() == k,
                forall|j: int|
                    0 <= j < k ==> bred_from(*self, population@, #[trigger] offspring@[j])
                        && offspring@[j].spec_chromosome().len()
                        == population@[0].spec_chromosome().len(),
            decreases count - k,
        {
            let first = self.selection_method.select(rng, population);
            let second = self.selection_method.select(rng, population);
            let parent_one = first.chromosome();
            let parent_two = second.chromosome();
            let mut child = self.crossover_method.crossover(rng, parent_one, parent_two);
            let ghost crossed = child@;
            self.mutation_method.mutate(rng, &mut child);
            let ghost mutated = child@;
            let fresh = I::create(child);
            proof {
                let i = choose|i: int|
                    0 <= i < population@.len() && #[trigger] population@[i] == *first
                        && self.selection_method.selects(fitnesses(population@), i);
                let j = choose|j: int|
                    0 <= j < population@.len() && #[trigger] population@[j] == *second
                        && self.selection_method.selects(fitnesses(population@), j);
                assert(self.crossover_method.crosses(
                    population@[i].spec_chromosome(),
                    population@[j].spec_chromosome(),
                    crossed,
                ));
                assert(self.mutation_method.mutates(crossed, fresh.spec_chromosome()));
                assert(bred_from(*self, population@, fresh));
            }
            offspring.push(fresh);
            k = k + 1;
        }
        proof {
            assert(fitnesses(population@).len() == population@.len());
        }
        let statistics = Statistics::analyze(population);
        (offspring, statistics)
    }
}

} // verus!
