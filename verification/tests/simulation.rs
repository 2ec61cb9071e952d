use evolution_sim::simulation::GENERATION_LENGTH;
use evolution_sim::world::{boundary_lattice, FOOD, LATTICE_STEPS, OBSTACLES_PER_EDGE, POPULATION};
use evolution_sim::{
    Animal, AnimalIndividual, Food, Gene, Obstacle, Point, ShapeMismatch, Simulation, Vision,
    World,
};
use rand::rngs::StdRng;
use rand::{Rng, SeedableRng};

#[derive(Debug, Clone, Copy, PartialEq)]
struct Real(f32);

impl Gene for Real {
    fn random(rng: &mut StdRng) -> Self {
        Real(rng.gen_range(-1.0..=1.0))
    }

    fn magnitude(rng: &mut StdRng) -> Self {
        Real(rng.gen::<f32>())
    }

    fn shifted(self, negative: bool, coefficient: Self, magnitude: Self) -> Self {
        let sign = if negative { -1.0 } else { 1.0 };
        Real(self.0 + sign * coefficient.0 * magnitude.0)
    }

    fn activated(bias: Self, weights: &[Self], inputs: &[Self]) -> Self {
        let sum = inputs.iter().zip(weights).map(|(input, weight)| input.0 * weight.0).sum::<f32>();
        Real((bias.0 + sum).max(0.0))
    }
}

fn point(x: f32, y: f32) -> Point<Real> {
    Point { x: Real(x), y: Real(y) }
}

fn vision(cells: usize) -> Vision<Real> {
    Vision::new(Real(0.25), Real(3.9), cells)
}

fn small_simulation(rng: &mut StdRng, animals: usize, cells: usize) -> Simulation<Real> {
    let animals = (0..animals)
        .map(|i| {
            Animal::randomize(
                rng,
                vision(cells),
                point(i as f32 * 0.1, 0.5),
                Real(i as f32),
                Real(0.002),
                vec![Real(0.0); cells],
            )
        })
        .collect();
    let food = vec![Food::new(point(0.1, 0.1)), Food::new(point(0.9, 0.9))];
    let obstacles = vec![Obstacle { pos: point(0.0, 0.0) }];
    Simulation::new(World::new(animals, food, obstacles), Real(0.3))
}

#[test]
fn rules_of_the_world() {
    assert_eq!(GENERATION_LENGTH, 2000);
    assert_eq!(POPULATION, 50);
    assert_eq!(FOOD, 30);
    assert_eq!(OBSTACLES_PER_EDGE, 99);
    assert_eq!(LATTICE_STEPS, 100);
}

#[test]
fn boundary_lattice_runs_along_the_four_edges() {
    let points = boundary_lattice();
    assert_eq!(points.len(), 396);
    assert_eq!(points[0], (0, 0));
    assert_eq!(points[1], (1, 0));
    assert_eq!(points[98], (98, 0));
    assert_eq!(points[99], (0, 100));
    assert_eq!(points[197], (98, 100));
    assert_eq!(points[198], (0, 0));
    assert_eq!(points[200], (0, 2));
    assert_eq!(points[296], (0, 98));
    assert_eq!(points[297], (100, 0));
    assert_eq!(points[395], (100, 98));
}

#[test]
fn new_simulation_starts_at_age_zero() {
    let mut rng = StdRng::seed_from_u64(1);
    let simulation = small_simulation(&mut rng, 3, 2);
    assert_eq!(simulation.age, 0);
    assert_eq!(simulation.world().animals().len(), 3);
    assert_eq!(simulation.world().food().len(), 2);
    assert_eq!(simulation.world().obstacles().len(), 1);
    assert!(simulation.world().is_consistent());
}

#[test]
fn randomized_animal_is_consistent_and_has_eaten_nothing() {
    let mut rng = StdRng::seed_from_u64(2);
    let animal = Animal::randomize(
        &mut rng,
        vision(3),
        point(0.25, 0.75),
        Real(1.5),
        Real(0.0005),
        vec![Real(0.0); 3],
    );
    assert!(animal.is_consistent());
    assert_eq!(animal.score(), 0);
    assert_eq!(*animal.position(), point(0.25, 0.75));
    assert_eq!(*animal.rotation(), Real(1.5));
    assert_eq!(animal.speed(), Real(0.0005));
    assert_eq!(animal.vision_input, vec![Real(0.0); 3]);
    assert_eq!(animal.as_chromosome().len(), (3 + 1) * 6 + (6 + 1) * 2);
}

#[test]
fn animal_from_chromosome_carries_the_genome_in_its_brain() {
    let mut rng = StdRng::seed_from_u64(3);
    let parent =
        Animal::randomize(&mut rng, vision(3), point(0.0, 0.0), Real(0.0), Real(0.0), Vec::new());
    let genes = parent.as_chromosome().into_vec();
    let child = Animal::from_chromosome(
        parent.as_chromosome(),
        vision(3),
        point(0.5, 0.5),
        Real(2.0),
        Real(0.001),
    )
    .ok()
    .unwrap();
    assert_eq!(child.as_chromosome().into_vec(), genes);
    assert_eq!(child.score(), 0);
    assert_eq!(child.speed(), Real(0.001));
    assert!(child.vision_input.is_empty());
    assert!(child.is_consistent());
}

#[test]
fn animal_from_chromosome_rejects_a_genome_of_the_wrong_length() {
    let mut rng = StdRng::seed_from_u64(4);
    let parent =
        Animal::randomize(&mut rng, vision(3), point(0.0, 0.0), Real(0.0), Real(0.0), Vec::new());
    let mut genes = parent.as_chromosome().into_vec();
    genes.pop();
    let short = Animal::from_chromosome(
        evolution_sim::Chromosome::from_vec(genes.clone()),
        vision(3),
        point(0.0, 0.0),
        Real(0.0),
        Real(0.0),
    );
    assert_eq!(short.err(), Some(ShapeMismatch::TooFewWeights));
    genes.push(Real(0.0));
    genes.push(Real(0.0));
    let long = Animal::from_chromosome(
        evolution_sim::Chromosome::from_vec(genes),
        vision(3),
        point(0.0, 0.0),
        Real(0.0),
        Real(0.0),
    );
    assert_eq!(long.err(), Some(ShapeMismatch::TooManyWeights));
}

#[test]
fn individual_stands_for_its_animal_and_back() {
    let mut rng = StdRng::seed_from_u64(5);
    let mut animal =
        Animal::randomize(&mut rng, vision(2), point(0.0, 0.0), Real(0.0), Real(0.0), Vec::new());
    animal.feed();
    animal.feed();
    let individual = AnimalIndividual::from_animal(&animal);
    assert_eq!(individual.fitness, 2);
    assert_eq!(individual.chromosome.as_slice(), animal.as_chromosome().as_slice());
    let back = individual
        .to_animal(vision(2), point(0.3, 0.3), Real(1.0), Real(0.001))
        .ok()
        .unwrap();
    assert_eq!(back.score(), 0);
    assert_eq!(back.as_chromosome().as_slice(), animal.as_chromosome().as_slice());
}

#[test]
fn feeding_scores_one_and_moves_the_food() {
    let mut rng = StdRng::seed_from_u64(6);
    let mut simulation = small_simulation(&mut rng, 3, 2);
    simulation.feed(1, 0, point(0.4, 0.6));
    simulation.feed(1, 1, point(0.7, 0.2));
    simulation.feed(2, 0, point(0.3, 0.3));
    let world = simulation.world();
    assert_eq!(world.animals()[0].score(), 0);
    assert_eq!(world.animals()[1].score(), 2);
    assert_eq!(world.animals()[2].score(), 1);
    assert_eq!(*world.food()[0].position(), point(0.3, 0.3));
    assert_eq!(*world.food()[1].position(), point(0.7, 0.2));
    assert_eq!(simulation.age, 0);
}

#[test]
fn evolve_replaces_every_animal_and_reports_on_the_old_ones() {
    let mut rng = StdRng::seed_from_u64(7);
    let mut simulation = small_simulation(&mut rng, 4, 3);
    simulation.feed(0, 0, point(0.5, 0.5));
    simulation.feed(2, 0, point(0.5, 0.5));
    simulation.feed(2, 1, point(0.5, 0.5));
    simulation.feed(2, 1, point(0.2, 0.8));
    simulation.age = 17;
    let statistics = simulation.evolve(&mut rng);
    assert_eq!(statistics.min_fitness(), 0);
    assert_eq!(statistics.max_fitness(), 3);
    assert_eq!(statistics.total_fitness, 4);
    assert_eq!(statistics.population, 4);
    assert_eq!(simulation.age, 0);
    assert_eq!(simulation.world().animals().len(), 4);
    assert!(simulation.world().is_consistent());
    for (i, animal) in simulation.world().animals().iter().enumerate() {
        assert_eq!(animal.score(), 0);
        assert!(animal.vision_input.is_empty());
        assert_eq!(animal.vision.cells(), 3);
        assert_eq!(*animal.position(), point(i as f32 * 0.1, 0.5));
        assert_eq!(*animal.rotation(), Real(i as f32));
    }
    assert_eq!(*simulation.world().food()[1].position(), point(0.2, 0.8));
    assert_eq!(simulation.world().obstacles().len(), 1);
}

#[test]
fn generation_ends_on_the_step_after_its_length() {
    let mut rng = StdRng::seed_from_u64(8);
    let mut simulation = small_simulation(&mut rng, 3, 2);
    simulation.feed(0, 0, point(0.5, 0.5));
    for step in 1..=GENERATION_LENGTH {
        assert!(simulation.step_forward(&mut rng).is_none());
        assert_eq!(simulation.age, step);
    }
    let report = simulation.step_forward(&mut rng);
    assert_eq!(report.map(|statistics| statistics.total_fitness), Some(1));
    assert_eq!(simulation.age, 0);
    assert!(simulation.step_forward(&mut rng).is_none());
    assert_eq!(simulation.age, 1);
}

#[test]
fn inconsistent_worlds_are_told_apart() {
    let mut rng = StdRng::seed_from_u64(9);
    let mut simulation = small_simulation(&mut rng, 2, 2);
    let stranger =
        Animal::randomize(&mut rng, vision(3), point(0.0, 0.0), Real(0.0), Real(0.0), Vec::new());
    assert!(stranger.is_consistent());
    simulation.world.animals.push(stranger);
    assert!(!simulation.world().is_consistent());
    simulation.world.animals.pop();
    assert!(simulation.world().is_consistent());
    simulation.world.animals[0].vision = vision(5);
    assert!(!simulation.world.animals[0].is_consistent());
    assert!(!simulation.world().is_consistent());
}

#[test]
fn animal_answers_with_a_change_of_speed_and_a_change_of_heading() {
    let mut rng = StdRng::seed_from_u64(10);
    let animal =
        Animal::randomize(&mut rng, vision(4), point(0.0, 0.0), Real(0.0), Real(0.0), Vec::new());
    let answer = animal.think(vec![Real(0.1), Real(0.2), Real(0.3), Real(0.4)]);
    assert_eq!(answer.len(), 2);
    assert_eq!(answer, animal.brain.nn.propagate(vec![Real(0.1), Real(0.2), Real(0.3), Real(0.4)]));
}
