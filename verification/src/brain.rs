//! The brain of an agent: a network sized by the agent's vision.

use crate::chromosome::Chromosome;
use crate::gene::Gene;
use crate::network::{
    fits, network_flat, rebuilds, weight_count, Network, NetworkTopology, ShapeMismatch,
};
use crate::world::Vision;
use rand::rngs::StdRng;
use vstd::prelude::*;

verus! {

/// A brain. Its network reads one value per vision cell, has a hidden layer
/// twice that wide, and gives two outputs: a change of speed and a change of
/// heading.
#[derive(Debug, Clone)]
pub struct Brain<G> {
    pub nn: Network<G>,
}

/// The topology of the brain that goes with a vision of `cells` cells.
pub open spec fn brain_topology(cells: usize) -> Seq<NetworkTopology> {
    seq![
        NetworkTopology { neurons: cells },
        NetworkTopology { neurons: (cells * 2) as usize },
        NetworkTopology { neurons: 2 },
    ]
}

/// The genome of a brain for `cells` cells has one bias and `cells` weights
/// for each of the `2 * cells` hidden neurons, and one bias and `2 * cells`
/// weights for each of the two output neurons.
pub proof fn lemma_brain_weight_count(cells: usize)
    requires
        cells * 2 <= usize::MAX,
    ensures
        weight_count(brain_topology(cells)) == (cells + 1) * (2 * cells) + (2 * cells + 1) * 2,
{
    let topology = brain_topology(cells);
    let front = topology.drop_last();
    assert(front.len() == 2);
    assert(front.drop_last().len() == 1);
    assert(weight_count(front.drop_last()) == 0);
    assert(weight_count(front) == (cells + 1) * (2 * cells)) by {
        assert(front[0].neurons == cells);
        assert(front.last().neurons == 2 * cells);
    }
    assert(topology[1].neurons == 2 * cells);
    assert(topology.last().neurons == 2);
}

impl<G: Copy> Brain<G> {
    /// The layer sizes of the brain that goes with `vision`.
    pub fn topology(vision: &Vision<G>) -> (layers: [NetworkTopology; 3])
        requires
            vision.cells * 2 <= usize::MAX,
        ensures
            layers@ == brain_topology(vision.cells),
    {
        let layers = [
            NetworkTopology { neurons: vision.cells() },
            NetworkTopology { neurons: vision.cells() * 2 },
            NetworkTopology { neurons: 2 },
        ];
        proof {
            assert(layers@ =~= brain_topology(vision.cells));
        }
        layers
    }

    /// The brain's parameters as a genome, in the network's flat order.
    pub fn as_chromosome(&self) -> (chromosome: Chromosome<G>)
        ensures
            chromosome@ == network_flat(self.nn@),
    {
        Chromosome::from_vec(self.nn.weights())
    }

    /// The brain that `genes` encode for `vision`, or the reason why they
    /// encode none.
    pub fn from_genes(genes: &[G], vision: &Vision<G>) -> (outcome: Result<Brain<G>, ShapeMismatch>)
        requires
            vision.cells * 2 <= usize::MAX,
        ensures
            match outcome {
                Ok(brain) => rebuilds(brain_topology(vision.cells), genes@, Ok(brain.nn)),
                Err(mismatch) => rebuilds::<G>(
                    brain_topology(vision.cells),
                    genes@,
                    Err(mismatch),
                ),
            },
    {
        let layers = Brain::topology(vision);
        match Network::from_weights(layers.as_slice(), genes) {
            Ok(nn) => Ok(Brain { nn }),
            Err(mismatch) => Err(mismatch),
        }
    }

    /// The brain that `chromosome` encodes for `vision`, or the reason why it
    /// encodes none.
    pub fn from_chromosome(chromosome: Chromosome<G>, vision: &Vision<G>) -> (outcome: Result<
        Brain<G>,
        ShapeMismatch,
    >)
        requires
            vision.cells * 2 <= usize::MAX,
        ensures
            match outcome {
                Ok(brain) => rebuilds(brain_topology(vision.cells), chromosome@, Ok(brain.nn)),
                Err(mismatch) => rebuilds::<G>(
                    brain_topology(vision.cells),
                    chromosome@,
                    Err(mismatch),
                ),
            },
    {
        Brain::from_genes(chromosome.as_slice(), vision)
    }
}

impl<G: Gene> Brain<G> {
    /// A brain for `vision` with freshly drawn parameters.
    pub fn randomize(rng: &mut StdRng, vision: &Vision<G>) -> (brain: Brain<G>)
        requires
            vision.cells * 2 <= usize::MAX,
        ensures
            fits(brain.nn@, brain_topology(vision.cells)),
    {
        let layers = Brain::topology(vision);
        Brain { nn: Network::randomize(rng, layers.as_slice()) }
    }
}

} // verus!
