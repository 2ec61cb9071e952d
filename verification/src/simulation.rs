//! The simulation: a world, the genetic algorithm that renews its agents, and
//! the clock that says when.
//!
//! Moving the agents, letting them see and think is arithmetic on reals and is
//! left to the host. What is decided here is the bookkeeping around it: what
//! eating does, when a generation ends, and what the next generation is.

use crate::brain::{brain_topology, Brain};
use crate::crossover::{Crossover, UniformCrossOver};
use crate::gene::Gene;
use crate::genetic::{bred_from, GeneticAlgorithm};
use crate::individual::{fitnesses, lemma_total_positive, total, Individual};
use crate::mutation::{GaussianMutation, Mutation};
use crate::network::{lemma_network_flat_len, network_flat, weight_count};
use crate::selection::{RouletteWheel, SelectionMethod};
use crate::statistics::{summarizes, Statistics};
use crate::world::{scores, Animal, AnimalIndividual, Point, World};
use rand::rngs::StdRng;
use vstd::prelude::*;

verus! {

/// The number of steps after which a generation is due for renewal: the step
/// that takes the age beyond this length ends the generation.
pub const GENERATION_LENGTH: usize = 2000;

/// The chance with which a simulation's mutation perturbs a gene, as numerator
/// and denominator.
pub const MUTATION_CHANCE: (u32, u32) = (1, 100);

/// A simulation: a world, the algorithm that renews its agents, and the
/// number of steps taken in the present generation.
pub struct Simulation<G> {
    pub world: World<G>,
    pub ga: GeneticAlgorithm<RouletteWheel, UniformCrossOver, GaussianMutation<G>>,
    pub age: usize,
}

/// Whether the step taken at `age` ends the generation.
pub open spec fn evolution_due(age: int) -> bool {
    age + 1 > GENERATION_LENGTH
}

/// The age after the step taken at `age`.
pub open spec fn next_age(age: int) -> int {
    if evolution_due(age) {
        0
    } else {
        age + 1
    }
}

/// The age after `steps` steps, starting from `age`.
pub open spec fn age_after(age: int, steps: nat) -> int
    decreases steps,
{
    if steps == 0 {
        age
    } else {
        next_age(age_after(age, (steps - 1) as nat))
    }
}

/// Whether `young` has a brain that the algorithm may breed from the agents
/// `aged`: one whose genome is the mutation of a crossing of the brains of two
/// agents that selection may pick by their scores.
pub open spec fn bred_from_agents<G: Gene>(
    algorithm: GeneticAlgorithm<RouletteWheel, UniformCrossOver, GaussianMutation<G>>,
    aged: Seq<Animal<G>>,
    young: Animal<G>,
) -> bool {
    exists|i: int, j: int, crossed: Seq<G>|
        {
            &&& 0 <= i < aged.len()
            &&& 0 <= j < aged.len()
            &&& algorithm.selection_method.selects(scores(aged), i)
            &&& algorithm.selection_method.selects(scores(aged), j)
            &&& #[trigger] algorithm.crossover_method.crosses(
                network_flat(aged[i].brain.nn@),
                network_flat(aged[j].brain.nn@),
                crossed,
            )
            &&& algorithm.mutation_method.mutates(crossed, network_flat(young.brain.nn@))
        }
}

impl<G> Simulation<G> {
    /// A simulation of `world` at age zero. Its agents are renewed by roulette
    /// selection, uniform crossover and gaussian mutation with a chance of
    /// [`MUTATION_CHANCE`] and the given coefficient.
    pub fn new(world: World<G>, coefficient: G) -> (simulation: Self)
        ensures
            simulation.world == world,
            simulation.age == 0,
            simulation.ga.mutation_method.spec_chance_numerator() == MUTATION_CHANCE.0,
            simulation.ga.mutation_method.spec_chance_denominator() == MUTATION_CHANCE.1,
            simulation.ga.mutation_method.spec_coefficient() == coefficient,
    {
        let mutation = GaussianMutation::new(MUTATION_CHANCE.0, MUTATION_CHANCE.1, coefficient);
        let ga = GeneticAlgorithm::new(RouletteWheel, UniformCrossOver, mutation);
        Simulation { world, ga, age: 0 }
    }

    /// The world as it stands.
    pub fn world(&self) -> (world: &World<G>)
        ensures
            *world == self.world,
    {
        &self.world
    }

    /// The agent `animal` eats the piece of food `food`: its score goes up by
    /// one and the food moves to `relocated`. Nothing else changes.
    pub fn feed(&mut self, animal: usize, food: usize, relocated: Point<G>)
        requires
            animal < old(self).world.animals@.len(),
            food < old(self).world.food@.len(),
            old(self).world.animals@[animal as int].score < usize::MAX,
        ensures
            final(self).age == old(self).age,
            final(self).ga == old(self).ga,
            final(self).world.obstacles == old(self).world.obstacles,
            final(self).world.animals@.len() == old(self).world.animals@.len(),
            final(self).world.food@.len() == old(self).world.food@.len(),
            forall|i: int|
                0 <= i < final(self).world.animals@.len() && i != animal
                    ==> #[trigger] final(self).world.animals@[i] == old(self).world.animals@[i],
            forall|j: int|
                0 <= j < final(self).world.food@.len() && j != food
                    ==> #[trigger] final(self).world.food@[j] == old(self).world.food@[j],
            final(self).world.food@[food as int].spec_position() == relocated,
            final(self).world.animals@[animal as int] == old(self).world.animals@[animal as int].fed(),
            old(self).world.wf() ==> final(self).world.wf(),
    {
        self.world.food[food].relocate(relocated);
        self.world.animals[animal].feed();
    }
}

impl<G: Gene> Simulation<G> {
    /// `after` is `before` one generation later, and `statistics` describes
    /// the generation that ended.
    ///
    /// The age is back at zero. Every agent has been replaced, slot by slot,
    /// by one with a score of zero, no vision reading, and a brain bred from
    /// the agents of `before` that goes with the vision of the agent it
    /// replaces; place, heading, speed and vision are those of the replaced
    /// agent. Food, obstacles and the algorithm are untouched.
    pub open spec fn evolved(before: Self, after: Self, statistics: Statistics) -> bool {
        &&& after.age == 0
        &&& after.ga == before.ga
        &&& after.world.food == before.world.food
        &&& after.world.obstacles == before.world.obstacles
        &&& after.world.wf()
        &&& summarizes(statistics, scores(before.world.animals@))
        &&& after.world.animals@.len() == before.world.animals@.len()
        &&& forall|k: int|
            0 <= k < after.world.animals@.len() ==> {
                let young = #[trigger] after.world.animals@[k];
                let aged = before.world.animals@[k];
                &&& young.score == 0
                &&& young.vision_input@.len() == 0
                &&& young.vision == aged.vision
                &&& young.pos == aged.pos
                &&& young.rotation == aged.rotation
                &&& young.speed == aged.speed
                &&& bred_from_agents(before.ga, before.world.animals@, young)
            }
    }

    /// Ends the generation: breeds a new agent for every agent of the world
    /// from the brains and scores of the present ones, puts it in the place
    /// of the agent it stands in for, and sets the age back to zero. Returns
    /// the statistics of the generation that ended.
    ///
    /// The new agents keep the place, heading and speed of those they replace,
    /// and the food stays where it is; scattering both anew is the host's
    /// part.
    pub fn evolve(&mut self, rng: &mut StdRng) -> (statistics: Statistics)
        requires
            old(self).world.wf(),
            total(scores(old(self).world.animals@)) > 0,
        ensures
            Self::evolved(*old(self), *final(self), statistics),
    {
        self.age = 0;
        let count = self.world.animals.len();
        let ghost aged = self.world.animals@;
        let mut current: Vec<AnimalIndividual<G>> = Vec::new();
        let mut i: usize = 0;
        while i < count
            invariant
                count == aged.len(),
                self.world.animals@ == aged,
                i <= count,
                current@.len() == i,
                forall|j: int|
                    0 <= j < i ==> (#[trigger] current@[j]).fitness == aged[j].score
                        && current@[j].chromosome@ == network_flat(aged[j].brain.nn@),
            decreases count - i,
        {
            current.push(AnimalIndividual::from_animal(&self.world.animals[i]));
            i = i + 1;
        }
        proof {
            assert(fitnesses(current@) =~= scores(aged));
            assert forall|a: int, b: int|
                0 <= a < current@.len() && 0 <= b < current@.len() implies (
            #[trigger] current@[a]).spec_chromosome().len() == (
            #[trigger] current@[b]).spec_chromosome().len() by {
                assert(aged[a].wf() && aged[b].wf());
                lemma_network_flat_len(aged[a].brain.nn@, brain_topology(aged[a].vision.cells));
                lemma_network_flat_len(aged[b].brain.nn@, brain_topology(aged[b].vision.cells));
            }
            lemma_total_positive(scores(aged));
            assert(count > 0);
            assert(aged[0].wf());
            lemma_network_flat_len(aged[0].brain.nn@, brain_topology(aged[0].vision.cells));
        }
        let (offspring, statistics) = self.ga.evolve(rng, current.as_slice());
        let mut animals: Vec<Animal<G>> = Vec::new();
        let mut k: usize = 0;
        while k < count
            invariant
                count == aged.len(),
                self.world.animals@ == aged,
                offspring@.len() == count,
                k <= count,
                animals@.len() == k,
                count > 0,
                forall|j: int| 0 <= j < count ==> (#[trigger] aged[j]).wf(),
                forall|j: int|
                    0 <= j < count ==> (#[trigger] aged[j]).vision.cells == aged[0].vision.cells,
                forall|j: int|
                    0 <= j < count ==> (#[trigger] offspring@[j]).spec_chromosome().len()
                        == weight_count(brain_topology(aged[0].vision.cells)),
                forall|j: int|
                    0 <= j < count ==> bred_from(self.ga, current@, #[trigger] offspring@[j]),
                fitnesses(current@) == scores(aged),
                current@.len() == count,
                forall|j: int|
                    0 <= j < count ==> (#[trigger] current@[j]).chromosome@ == network_flat(
                        aged[j].brain.nn@,
                    ),
                forall|j: int|
                    0 <= j < k ==> {
                        let young = #[trigger] animals@[j];
                        &&& young.wf()
                        &&& young.score == 0
                        &&& young.vision_input@.len() == 0
                        &&& young.vision == aged[j].vision
                        &&& young.pos == aged[j].pos
                        &&& young.rotation == aged[j].rotation
                        &&& young.speed == aged[j].speed
                        &&& bred_from_agents(self.ga, aged, young)
                    },
            decreases count - k,
        {
            let replaced = &self.world.animals[k];
            let vision = replaced.vision;
            proof {
                assert(aged[k as int].wf());
                assert(aged[k as int].vision.cells == aged[0].vision.cells);
                assert(offspring@[k as int].spec_chromosome().len() == weight_count(
                    brain_topology(aged[0].vision.cells),
                ));
            }
            let brain = match Brain::from_genes(offspring[k].chromosome().as_slice(), &vision) {
                Ok(brain) => brain,
                Err(_) => vstd::pervasive::unreached(),
            };
            proof {
                let child = offspring@[k as int];
                assert(bred_from(self.ga, current@, child));
                let (i, j, crossed) = choose|i: int, j: int, crossed: Seq<G>|
                    {
                        &&& 0 <= i < current@.len()
                        &&& 0 <= j < current@.len()
                        &&& self.ga.selection_method.selects(fitnesses(current@), i)
                        &&& self.ga.selection_method.selects(fitnesses(current@), j)
                        &&& #[trigger] self.ga.crossover_method.crosses(
                            current@[i].spec_chromosome(),
                            current@[j].spec_chromosome(),
                            crossed,
                        )
                        &&& self.ga.mutation_method.mutates(crossed, child.spec_chromosome())
                    };
                assert(current@[i].chromosome@ == network_flat(aged[i].brain.nn@));
                assert(current@[j].chromosome@ == network_flat(aged[j].brain.nn@));
                assert(self.ga.crossover_method.crosses(
                    network_flat(aged[i].brain.nn@),
                    network_flat(aged[j].brain.nn@),
                    crossed,
                ));
                assert(network_flat(brain.nn@) == child.spec_chromosome());
            }
            animals.push(
                Animal {
                    pos: replaced.pos,
                    rotation: replaced.rotation,
                    speed: replaced.speed,
                    vision,
                    brain,
                    vision_input: Vec::new(),
                    score: 0,
                },
            );
            k = k + 1;
        }
        self.world.animals = animals;
        proof {
            assert forall|a: int, b: int|
                0 <= a < self.world.animals@.len() && 0 <= b < self.world.animals@.len() implies (
            #[trigger] self.world.animals@[a]).vision.cells == (
            #[trigger] self.world.animals@[b]).vision.cells by {
                assert(aged[a].vision.cells == aged[0].vision.cells);
                assert(aged[b].vision.cells == aged[0].vision.cells);
            }
        }
        statistics
    }

    /// Closes one step of the simulation, after the host has moved the agents,
    /// fed them and let them think: the age goes up by one, and if that takes
    /// it beyond [`GENERATION_LENGTH`] the generation ends as in
    /// [`Simulation::evolve`] and its statistics are returned.
    pub fn step_forward(&mut self, rng: &mut StdRng) -> (report: Option<Statistics>)
        requires
            old(self).age < usize::MAX,
            evolution_due(old(self).age as int) ==> old(self).world.wf() && total(
                scores(old(self).world.animals@),
            ) > 0,
        ensures
            final(self).age == next_age(old(self).age as int),
            match report {
                Some(statistics) => evolution_due(old(self).age as int) && Self::evolved(
                    *old(self),
                    *final(self),
                    statistics,
                ),
                None => {
                    &&& !evolution_due(old(self).age as int)
                    &&& final(self).age == old(self).age + 1
                    &&& final(self).world == old(self).world
                    &&& final(self).ga == old(self).ga
                },
            },
    {
        self.age = self.age + 1;
        if self.age > GENERATION_LENGTH {
            Some(self.evolve(rng))
        } else {
            None
        }
    }
}

/// In a run that starts at age zero, no step up to and including the
/// `GENERATION_LENGTH`-th ends the generation, and the step after it does and
/// brings the age back to zero.
pub proof fn lemma_generation_clock(steps: nat)
    requires
        steps <= GENERATION_LENGTH,
    ensures
        age_after(0, steps) == steps,
        evolution_due(age_after(0, steps)) <==> steps == GENERATION_LENGTH,
        steps == GENERATION_LENGTH ==> age_after(0, steps + 1) == 0,
    decreases steps,
{
    if steps > 0 {
        lemma_generation_clock((steps - 1) as nat);
    }
    assert(age_after(0, steps + 1) == next_age(age_after(0, steps)));
}

} // verus!
