//! Crossover: making one child genome out of two parents.

use crate::chromosome::Chromosome;
use crate::random::draw_ratio;
use rand::rngs::StdRng;
use vstd::prelude::*;

verus! {

/// A way of crossing two genomes of equal length into a child of that length.
pub trait Crossover<G: Copy> {
    /// Whether `child` is a genome that crossing `one` with `two` may give.
    spec fn crosses(&self, one: Seq<G>, two: Seq<G>, child: Seq<G>) -> bool;

    /// Crosses two parents of equal length into a child of that length.
    fn crossover(
        &self,
        rng: &mut StdRng,
        parent_one: &Chromosome<G>,
        parent_two: &Chromosome<G>,
    ) -> (child: Chromosome<G>)
        requires
            parent_one@.len() == parent_two@.len(),
        ensures
            child@.len() == parent_one@.len(),
            self.crosses(parent_one@, parent_two@, child@),
    ;
}

/// Uniform crossover: every gene of the child is taken from one parent or the
/// other on the toss of a fair coin, one toss per gene in genome order.
#[derive(Clone, Copy, Debug, Default)]
pub struct UniformCrossOver;

/// The child that uniform crossover makes of `one` and `two` when the coin
/// falls as `picks` says: gene by gene, the first parent's where the pick is
/// set and the second parent's where it is not.
pub open spec fn mixed<G>(one: Seq<G>, two: Seq<G>, picks: Seq<bool>) -> Seq<G> {
    Seq::new(
        one.len(),
        |i: int|
            if picks[i] {
                one[i]
            } else {
                two[i]
            },
    )
}

/// However the picks fall, the child that they make of two parents of equal
/// length is one that uniform crossover may give: it is as long as the parents
/// and has each of its genes from one of them.
pub proof fn lemma_mixed_crosses<G: Copy>(one: Seq<G>, two: Seq<G>, picks: Seq<bool>)
    requires
        one.len() == two.len(),
    ensures
        UniformCrossOver.crosses(one, two, mixed(one, two, picks)),
{
}

impl UniformCrossOver {
    /// Crosses two parents by an explicit sequence of picks.
    pub fn combine<G: Copy>(
        parent_one: &Chromosome<G>,
        parent_two: &Chromosome<G>,
        picks: &[bool],
    ) -> (child: Chromosome<G>)
        requires
            parent_one@.len() == parent_two@.len(),
            picks@.len() == parent_one@.len(),
        ensures
            child@ == mixed(parent_one@, parent_two@, picks@),
    {
        let length = parent_one.len();
        let mut genes: Vec<G> = Vec::new();
        let mut i: usize = 0;
        while i < length
            invariant
                length == parent_one@.len(),
                length == parent_two@.len(),
                length == picks@.len(),
                i <= length,
                genes@.len() == i,
                forall|k: int|
                    0 <= k < i ==> genes@[k] == mixed(parent_one@, parent_two@, picks@)[k],
            decreases length - i,
        {
            let gene = if picks[i] {
                parent_one.get(i)
            } else {
                parent_two.get(i)
            };
            genes.push(gene);
            i = i + 1;
        }
        proof {
            assert(genes@ =~= mixed(parent_one@, parent_two@, picks@));
        }
        Chromosome::from_vec(genes)
    }
}

impl<G: Copy> Crossover<G> for UniformCrossOver {
    /// The child is as long as the first parent, and each of its genes is the
    /// gene that one of the parents has in that place.
    open spec fn crosses(&self, one: Seq<G>, two: Seq<G>, child: Seq<G>) -> bool {
        &&& child.len() == one.len()
        &&& forall|i: int|
            0 <= i < child.len() ==> #[trigger] child[i] == one[i] || child[i] == two[i]
    }

    /// Tosses one fair coin per gene, in genome order, and crosses the parents
    /// by the outcome. Whatever the coin does, every gene of the child is the
    /// gene that one of the parents has in that place.
    fn crossover(
        &self,
        rng: &mut StdRng,
        parent_one: &Chromosome<G>,
        parent_two: &Chromosome<G>,
    ) -> (child: Chromosome<G>)
        ensures
            forall|i: int|
                0 <= i < child@.len() ==> #[trigger] child@[i] == parent_one@[i] || child@[i]
                    == parent_two@[i],
    {
        let length = parent_one.len();
        let mut picks: Vec<bool> = Vec::new();
        let mut i: usize = 0;
        while i < length
            invariant
                i <= length,
                picks@.len() == i,
            decreases length - i,
        {
            picks.push(draw_ratio(rng, 1, 2));
            i = i + 1;
        }
        UniformCrossOver::combine(parent_one, parent_two, picks.as_slice())
    }
}

} // verus!
