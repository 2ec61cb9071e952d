//! The genome: a flat, ordered sequence of genes.

use vstd::prelude::*;

verus! {

/// A genome. The order of the genes is meaningful: it is the order in which a
/// network's parameters are laid out.
#[derive(Debug, Clone, PartialEq)]
pub struct Chromosome<G> {
    genome: Vec<G>,
}

impl<G> View for Chromosome<G> {
    type V = Seq<G>;

    closed spec fn view(&self) -> Seq<G> {
        self.genome@
    }
}

impl<G> Chromosome<G> {
    /// Builds a genome from its genes, keeping their order.
    pub fn from_vec(genes: Vec<G>) -> (chromosome: Self)
        ensures
            chromosome@ == genes@,
    {
        Chromosome { genome: genes }
    }

    /// Gives the genes back, in order.
    pub fn into_vec(self) -> (genes: Vec<G>)
        ensures
            genes@ == self@,
    {
        self.genome
    }

    /// The number of genes.
    pub fn len(&self) -> (n: usize)
        ensures
            n == self@.len(),
    {
        self.genome.len()
    }

    /// The genes as a slice, for read-only traversal.
    pub fn as_slice(&self) -> (genes: &[G])
        ensures
            genes@ == self@,
    {
        self.genome.as_slice()
    }

    /// An iterator over the genes, in order.
    pub fn iter(&self) -> (genes: std::slice::Iter<'_, G>)
        ensures
            vstd::std_specs::slice::into_iter_elts(genes) == self@,
    {
        self.genome.as_slice().iter()
    }

    /// Replaces the gene at `index`, leaving every other gene as it was.
    pub fn set(&mut self, index: usize, gene: G)
        requires
            index < old(self)@.len(),
        ensures
            final(self)@ == old(self)@.update(index as int, gene),
    {
        self.genome[index] = gene;
    }
}

impl<G: Copy> Chromosome<G> {
    /// The gene at `index`.
    pub fn get(&self, index: usize) -> (gene: G)
        requires
            index < self@.len(),
        ensures
            gene == self@[index as int],
    {
        self.genome[index]
    }
}

} // verus!
