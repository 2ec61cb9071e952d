//! The world: agents, food and obstacles on the unit torus.

use crate::brain::{brain_topology, Brain};
use crate::chromosome::Chromosome;
use crate::gene::Gene;
use crate::individual::{lemma_total_bounds, total, Individual};
use crate::network::{
    fits, lemma_fitting_network_accepts, network_fires, network_flat, rebuilds, NetworkTopology,
    ShapeMismatch,
};
use rand::rngs::StdRng;
use vstd::prelude::*;

verus! {

/// A point of the plane.
#[derive(Debug, Clone, Copy, PartialEq)]
pub struct Point<G> {
    pub x: G,
    pub y: G,
}

/// The configuration of an agent's vision: how far it sees, how wide its
/// field of view is, and into how many cells the field is divided.
#[derive(Debug, Clone, Copy, PartialEq)]
pub struct Vision<G> {
    pub range: G,
    pub angle: G,
    pub cells: usize,
}

impl<G> Vision<G> {
    /// A vision of the given range and field of view, divided into `cells`
    /// cells.
    pub fn new(range: G, angle: G, cells: usize) -> (vision: Self)
        ensures
            vision.range == range,
            vision.angle == angle,
            vision.cells == cells,
    {
        Vision { range, angle, cells }
    }

    /// The number of cells, which is the length of every vision reading.
    pub fn cells(&self) -> (cells: usize)
        ensures
            cells == self.cells,
    {
        self.cells
    }
}

/// A piece of food. Food is never destroyed: when it is eaten it moves.
#[derive(Debug, Clone)]
pub struct Food<G> {
    pos: Point<G>,
}

impl<G> Food<G> {
    /// Where the food lies.
    pub closed spec fn spec_position(&self) -> Point<G> {
        self.pos
    }

    /// A piece of food at `pos`.
    pub fn new(pos: Point<G>) -> (food: Self)
        ensures
            food.spec_position() == pos,
    {
        Food { pos }
    }

    /// Where the food lies.
    pub fn position(&self) -> (pos: &Point<G>)
        ensures
            *pos == self.spec_position(),
    {
        &self.pos
    }

    /// Moves the food to `pos`.
    pub fn relocate(&mut self, pos: Point<G>)
        ensures
            final(self).spec_position() == pos,
    {
        self.pos = pos;
    }
}

/// An obstacle. Obstacles stay where they are for the whole run.
#[derive(Debug, Clone)]
pub struct Obstacle<G> {
    pub pos: Point<G>,
}

impl<G> Obstacle<G> {
    /// Where the obstacle stands.
    pub fn position(&self) -> (pos: &Point<G>)
        ensures
            *pos == self.pos,
    {
        &self.pos
    }
}

/// An agent: where it is and where it is heading, how it sees, what it
/// thinks with, what it saw last, and how much it has eaten.
#[derive(Debug, Clone)]
pub struct Animal<G> {
    pub pos: Point<G>,
    pub rotation: G,
    pub speed: G,
    pub vision: Vision<G>,
    pub brain: Brain<G>,
    pub vision_input: Vec<G>,
    pub score: usize,
}

impl<G> Animal<G> {
    /// The agent's brain is the one that goes with its vision.
    pub open spec fn wf(&self) -> bool {
        &&& self.vision.cells * 2 <= usize::MAX
        &&& fits(self.brain.nn@, brain_topology(self.vision.cells))
    }

    /// Where the agent is.
    pub fn position(&self) -> (pos: &Point<G>)
        ensures
            *pos == self.pos,
    {
        &self.pos
    }

    /// Where the agent is heading, as an angle.
    pub fn rotation(&self) -> (rotation: &G)
        ensures
            *rotation == self.rotation,
    {
        &self.rotation
    }

    /// How many pieces of food the agent has eaten in this generation.
    pub fn score(&self) -> (score: usize)
        ensures
            score == self.score,
    {
        self.score
    }

    /// Whether the agent's brain is the one that goes with its vision.
    pub fn is_consistent(&self) -> (answer: bool)
        ensures
            answer == self.wf(),
    {
        if self.vision.cells > usize::MAX / 2 {
            return false;
        }
        let layers = [
            NetworkTopology { neurons: self.vision.cells },
            NetworkTopology { neurons: self.vision.cells * 2 },
            NetworkTopology { neurons: 2 },
        ];
        proof {
            assert(layers@ =~= brain_topology(self.vision.cells));
        }
        self.brain.nn.has_topology(layers.as_slice())
    }

    /// The agent after it has eaten one more piece of food: its score is one
    /// higher and nothing else about it has changed.
    pub open spec fn fed(self) -> Self {
        Animal { score: (self.score + 1) as usize, ..self }
    }

    /// Counts one more piece of food eaten.
    pub fn feed(&mut self)
        requires
            old(self).score < usize::MAX,
        ensures
            *final(self) == old(self).fed(),
    {
        self.score = self.score + 1;
    }
}

impl<G: Copy> Animal<G> {
    /// How far the agent moves in one step.
    pub fn speed(&self) -> (speed: G)
        ensures
            speed == self.speed,
    {
        self.speed
    }

    /// The agent's brain as a genome.
    pub fn as_chromosome(&self) -> (chromosome: Chromosome<G>)
        ensures
            chromosome@ == network_flat(self.brain.nn@),
    {
        self.brain.as_chromosome()
    }

    /// The agent that `chromosome` encodes for `vision`, put at `pos` with the
    /// given heading and speed, or the reason why the genome encodes no brain
    /// for that vision. The agent starts with a score of zero and has seen
    /// nothing yet.
    pub fn from_chromosome(
        chromosome: Chromosome<G>,
        vision: Vision<G>,
        pos: Point<G>,
        rotation: G,
        speed: G,
    ) -> (outcome: Result<Animal<G>, ShapeMismatch>)
        requires
            vision.cells * 2 <= usize::MAX,
        ensures
            match outcome {
                Ok(animal) => {
                    &&& rebuilds(brain_topology(vision.cells), chromosome@, Ok(animal.brain.nn))
                    &&& animal.wf()
                    &&& animal.pos == pos
                    &&& animal.rotation == rotation
                    &&& animal.speed == speed
                    &&& animal.vision == vision
                    &&& animal.score == 0
                    &&& animal.vision_input@.len() == 0
                },
                Err(mismatch) => rebuilds::<G>(
                    brain_topology(vision.cells),
                    chromosome@,
                    Err(mismatch),
                ),
            },
    {
        match Brain::from_chromosome(chromosome, &vision) {
            Ok(brain) => Ok(
                Animal { pos, rotation, speed, vision, brain, vision_input: Vec::new(), score: 0 },
            ),
            Err(mismatch) => Err(mismatch),
        }
    }
}

impl<G: Gene> Animal<G> {
    /// What the agent's brain answers to the vision reading `reading`, which
    /// has to hold one value per cell of the agent's vision: two values, the
    /// change of speed first and the change of heading second.
    pub fn think(&self, reading: Vec<G>) -> (answer: Vec<G>)
        requires
            self.wf(),
            reading@.len() == self.vision.cells,
        ensures
            answer@.len() == 2,
            network_fires(self.brain.nn@, reading@, answer@),
    {
        proof {
            lemma_fitting_network_accepts(self.brain.nn@, brain_topology(self.vision.cells));
        }
        self.brain.nn.propagate(reading)
    }

    /// An agent with a freshly drawn brain for `vision`, put at `pos` with the
    /// given heading and speed. It starts with a score of zero and a vision
    /// reading of `reading`.
    pub fn randomize(
        rng: &mut StdRng,
        vision: Vision<G>,
        pos: Point<G>,
        rotation: G,
        speed: G,
        reading: Vec<G>,
    ) -> (animal: Animal<G>)
        requires
            vision.cells * 2 <= usize::MAX,
        ensures
            animal.wf(),
            animal.pos == pos,
            animal.rotation == rotation,
            animal.speed == speed,
            animal.vision == vision,
            animal.score == 0,
            animal.vision_input == reading,
    {
        let brain = Brain::randomize(rng, &vision);
        Animal { pos, rotation, speed, vision, brain, vision_input: reading, score: 0 }
    }
}

/// An agent as the genetic algorithm sees it: a genome and a fitness.
#[derive(Debug, Clone)]
pub struct AnimalIndividual<G> {
    pub fitness: u64,
    pub chromosome: Chromosome<G>,
}

impl<G: Copy> AnimalIndividual<G> {
    /// The individual that stands for `animal`: its brain as genome, its score
    /// as fitness.
    pub fn from_animal(animal: &Animal<G>) -> (individual: Self)
        ensures
            individual.fitness == animal.score,
            individual.chromosome@ == network_flat(animal.brain.nn@),
    {
        AnimalIndividual { fitness: animal.score as u64, chromosome: animal.as_chromosome() }
    }

    /// The agent that the individual's genome encodes for `vision`, put at
    /// `pos` with the given heading and speed.
    pub fn to_animal(self, vision: Vision<G>, pos: Point<G>, rotation: G, speed: G) -> (outcome:
        Result<Animal<G>, ShapeMismatch>)
        requires
            vision.cells * 2 <= usize::MAX,
        ensures
            match outcome {
                Ok(animal) => {
                    &&& rebuilds(
                        brain_topology(vision.cells),
                        self.chromosome@,
                        Ok(animal.brain.nn),
                    )
                    &&& animal.wf()
                    &&& animal.pos == pos
                    &&& animal.rotation == rotation
                    &&& animal.speed == speed
                    &&& animal.vision == vision
                    &&& animal.score == 0
                    &&& animal.vision_input@.len() == 0
                },
                Err(mismatch) => rebuilds::<G>(
                    brain_topology(vision.cells),
                    self.chromosome@,
                    Err(mismatch),
                ),
            },
    {
        Animal::from_chromosome(self.chromosome, vision, pos, rotation, speed)
    }
}

impl<G: Copy> Individual for AnimalIndividual<G> {
    type Gene = G;

    open spec fn spec_chromosome(&self) -> Seq<G> {
        self.chromosome@
    }

    open spec fn spec_fitness(&self) -> u64 {
        self.fitness
    }

    /// An individual around `chromosome` that has no fitness yet.
    fn create(chromosome: Chromosome<G>) -> (fresh: Self) {
        AnimalIndividual { fitness: 0, chromosome }
    }

    fn chromosome(&self) -> (chromosome: &Chromosome<G>) {
        &self.chromosome
    }

    fn fitness(&self) -> (fitness: u64) {
        self.fitness
    }
}

/// The score of each agent, in order.
pub open spec fn scores<G>(animals: Seq<Animal<G>>) -> Seq<u64> {
    animals.map_values(|animal: Animal<G>| animal.score as u64)
}

/// Everything there is: the agents, the food and the obstacles.
#[derive(Debug, Clone)]
pub struct World<G> {
    pub animals: Vec<Animal<G>>,
    pub food: Vec<Food<G>>,
    pub obstacles: Vec<Obstacle<G>>,
}

impl<G> World<G> {
    /// Every agent's brain goes with its vision, and all agents see through
    /// the same number of cells, so that their genomes have one length.
    pub open spec fn wf(&self) -> bool {
        &&& forall|i: int| 0 <= i < self.animals@.len() ==> (#[trigger] self.animals@[i]).wf()
        &&& forall|i: int, j: int|
            0 <= i < self.animals@.len() && 0 <= j < self.animals@.len() ==> (
            #[trigger] self.animals@[i]).vision.cells == (#[trigger] self.animals@[j]).vision.cells
    }

    /// A world of the given agents, food and obstacles.
    pub fn new(animals: Vec<Animal<G>>, food: Vec<Food<G>>, obstacles: Vec<Obstacle<G>>) -> (world:
        Self)
        ensures
            world.animals == animals,
            world.food == food,
            world.obstacles == obstacles,
    {
        World { animals, food, obstacles }
    }

    /// The agents, in order.
    pub fn animals(&self) -> (animals: &[Animal<G>])
        ensures
            animals@ == self.animals@,
    {
        self.animals.as_slice()
    }

    /// The pieces of food, in order.
    pub fn food(&self) -> (food: &[Food<G>])
        ensures
            food@ == self.food@,
    {
        self.food.as_slice()
    }

    /// The obstacles, in order.
    pub fn obstacles(&self) -> (obstacles: &[Obstacle<G>])
        ensures
            obstacles@ == self.obstacles@,
    {
        self.obstacles.as_slice()
    }

    /// The sum of the agents' scores.
    pub fn total_score(&self) -> (sum: u128)
        ensures
            sum == total(scores(self.animals@)),
    {
        let ghost all = scores(self.animals@);
        let count = self.animals.len();
        let mut sum: u128 = 0;
        let mut i: usize = 0;
        while i < count
            invariant
                count == self.animals@.len(),
                all == scores(self.animals@),
                i <= count,
                sum == total(all.subrange(0, i as int)),
            decreases count - i,
        {
            proof {
                lemma_total_bounds(all.subrange(0, i as int));
                assert(all.subrange(0, i + 1).drop_last() =~= all.subrange(0, i as int));
                assert(i * u64::MAX + u64::MAX <= u128::MAX) by (nonlinear_arith)
                    requires
                        i <= u64::MAX,
                ;
            }
            sum = sum + self.animals[i].score as u128;
            i = i + 1;
        }
        proof {
            assert(all.subrange(0, i as int) =~= all);
        }
        sum
    }

    /// Whether every agent's brain goes with its vision and all agents see
    /// through the same number of cells.
    pub fn is_consistent(&self) -> (answer: bool)
        ensures
            answer == self.wf(),
    {
        let count = self.animals.len();
        let mut i: usize = 0;
        while i < count
            invariant
                count == self.animals@.len(),
                i <= count,
                forall|k: int| 0 <= k < i ==> (#[trigger] self.animals@[k]).wf(),
                forall|k: int|
                    0 <= k < i ==> (#[trigger] self.animals@[k]).vision.cells
                        == self.animals@[0].vision.cells,
            decreases count - i,
        {
            if !self.animals[i].is_consistent() {
                return false;
            }
            if self.animals[i].vision.cells != self.animals[0].vision.cells {
                return false;
            }
            i = i + 1;
        }
        true
    }
}

/// The number of agents in a freshly made world.
pub const POPULATION: usize = 50;

/// The number of pieces of food in a freshly made world.
pub const FOOD: usize = 30;

/// The number of obstacles along each edge of the unit square.
pub const OBSTACLES_PER_EDGE: u32 = 99;

/// The number of lattice steps that the unit length is divided into.
pub const LATTICE_STEPS: u32 = 100;

/// The place of the `k`-th boundary obstacle, in lattice steps: the obstacles
/// run along the bottom edge first, then the top, the left and the right one,
/// each edge from its origin onwards.
pub open spec fn lattice_point(k: int) -> (u32, u32) {
    let edge = k / (OBSTACLES_PER_EDGE as int);
    let along = (k % (OBSTACLES_PER_EDGE as int)) as u32;
    if edge == 0 {
        (along, 0u32)
    } else if edge == 1 {
        (along, LATTICE_STEPS)
    } else if edge == 2 {
        (0u32, along)
    } else {
        (LATTICE_STEPS, along)
    }
}

/// The places of the boundary obstacles, in lattice steps of a hundredth of
/// the unit length.
pub fn boundary_lattice() -> (points: Vec<(u32, u32)>)
    ensures
        points@.len() == 4 * OBSTACLES_PER_EDGE,
        forall|k: int| 0 <= k < points@.len() ==> #[trigger] points@[k] == lattice_point(k),
{
    let mut points: Vec<(u32, u32)> = Vec::new();
    let mut i: u32 = 0;
    while i < OBSTACLES_PER_EDGE
        invariant
            i <= OBSTACLES_PER_EDGE,
            points@.len() == i,
            forall|k: int| 0 <= k < points@.len() ==> #[trigger] points@[k] == lattice_point(k),
        decreases OBSTACLES_PER_EDGE - i,
    {
        points.push((i, 0));
        i = i + 1;
    }
    i = 0;
    while i < OBSTACLES_PER_EDGE
        invariant
            i <= OBSTACLES_PER_EDGE,
            points@.len() == OBSTACLES_PER_EDGE + i,
            forall|k: int| 0 <= k < points@.len() ==> #[trigger] points@[k] == lattice_point(k),
        decreases OBSTACLES_PER_EDGE - i,
    {
        points.push((i, LATTICE_STEPS));
        i = i + 1;
    }
    i = 0;
    while i < OBSTACLES_PER_EDGE
        invariant
            i <= OBSTACLES_PER_EDGE,
            points@.len() == 2 * OBSTACLES_PER_EDGE + i,
            forall|k: int| 0 <= k < points@.len() ==> #[trigger] points@[k] == lattice_point(k),
        decreases OBSTACLES_PER_EDGE - i,
    {
        points.push((0, i));
        i = i + 1;
    }
    i = 0;
    while i < OBSTACLES_PER_EDGE
        invariant
            i <= OBSTACLES_PER_EDGE,
            points@.len() == 3 * OBSTACLES_PER_EDGE + i,
            forall|k: int| 0 <= k < points@.len() ==> #[trigger] points@[k] == lattice_point(k),
        decreases OBSTACLES_PER_EDGE - i,
    {
        points.push((LATTICE_STEPS, i));
        i = i + 1;
    }
    points
}

} // verus!
