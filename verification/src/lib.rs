//! Neuro-evolution of simple agents: a genetic algorithm over flat genomes, the
//! feed-forward networks those genomes encode, and the generation cycle of a
//! simulated world.
//!
//! The library never computes with real numbers itself. It is generic over the
//! gene type and moves genes around without looking inside them; where a real
//! has to be drawn or computed, the gene type does it (see [`Gene`]). Wherever
//! the library compares or sums a quantity (fitness, sizes, ages), the
//! quantity is an integer.

pub mod brain;
pub mod chromosome;
pub mod crossover;
pub mod gene;
pub mod genetic;
pub mod individual;
pub mod mutation;
pub mod network;
pub mod random;
pub mod selection;
pub mod simulation;
pub mod statistics;
pub mod world;

pub use brain::Brain;
pub use chromosome::Chromosome;
pub use crossover::{Crossover, UniformCrossOver};
pub use gene::Gene;
pub use genetic::GeneticAlgorithm;
pub use individual::Individual;
pub use mutation::{GaussianMutation, Mutation};
pub use network::{Layer, Network, NetworkTopology, Neuron, NeuronModel, ShapeMismatch};
pub use selection::{RouletteWheel, SelectionMethod};
pub use simulation::Simulation;
pub use statistics::{Mean, Statistics};
pub use world::{Animal, AnimalIndividual, Food, Obstacle, Point, Vision, World};
