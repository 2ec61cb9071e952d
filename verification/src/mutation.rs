//! Mutation: perturbing a freshly crossed genome in place.

use crate::chromosome::Chromosome;
use crate::gene::Gene;
use crate::random::draw_ratio;
use rand::rngs::StdRng;
use vstd::prelude::*;

verus! {

/// A way of mutating a genome in place. A mutation may change genes; it never
/// changes how many there are.
pub trait Mutation<G: Copy> {
    /// Whether `after` is a genome that mutating `before` may give.
    spec fn mutates(&self, before: Seq<G>, after: Seq<G>) -> bool;

    /// Mutates `child` in place.
    fn mutate(&self, rng: &mut StdRng, child: &mut Chromosome<G>)
        ensures
            final(child)@.len() == old(child)@.len(),
            self.mutates(old(child)@, final(child)@),
    ;
}

/// Gaussian mutation: each gene is perturbed, independently of the others, with
/// a fixed chance, by at most a fixed coefficient in either direction.
///
/// The chance is a fraction `chance_numerator / chance_denominator` between
/// zero and one.
pub struct GaussianMutation<G> {
    chance_numerator: u32,
    chance_denominator: u32,
    coefficient: G,
}

impl<G> GaussianMutation<G> {
    #[verifier::type_invariant]
    spec fn chance_is_a_probability(self) -> bool {
        0 < self.chance_denominator && self.chance_numerator <= self.chance_denominator
    }

    /// The numerator of the chance.
    pub closed spec fn spec_chance_numerator(&self) -> u32 {
        self.chance_numerator
    }

    /// The denominator of the chance.
    pub closed spec fn spec_chance_denominator(&self) -> u32 {
        self.chance_denominator
    }

    /// The coefficient that bounds a perturbation.
    pub closed spec fn spec_coefficient(&self) -> G {
        self.coefficient
    }

    /// A mutation that perturbs each gene with chance
    /// `chance_numerator / chance_denominator`. The chance has to lie between
    /// zero and one.
    pub fn new(chance_numerator: u32, chance_denominator: u32, coefficient: G) -> (mutation: Self)
        requires
            0 < chance_denominator,
            chance_numerator <= chance_denominator,
        ensures
            mutation.spec_chance_numerator() == chance_numerator,
            mutation.spec_chance_denominator() == chance_denominator,
            mutation.spec_coefficient() == coefficient,
    {
        GaussianMutation { chance_numerator, chance_denominator, coefficient }
    }
}

/// `after` is `before` shifted by `coefficient` times a magnitude, in one
/// direction or the other.
pub open spec fn perturbs<G: Gene>(before: G, coefficient: G, after: G) -> bool {
    exists|negative: bool, magnitude: G| #[trigger]
        call_ensures(G::shifted, (before, negative, coefficient, magnitude), after)
}

impl<G: Gene> GaussianMutation<G> {
    /// Perturbs `gene` in the drawn direction by the drawn magnitude, scaled by
    /// the mutation's coefficient.
    pub fn perturb(&self, gene: G, negative: bool, magnitude: G) -> (mutated: G)
        ensures
            call_ensures(G::shifted, (gene, negative, self.spec_coefficient(), magnitude), mutated),
            perturbs(gene, self.spec_coefficient(), mutated),
    {
        gene.shifted(negative, self.coefficient, magnitude)
    }

    /// What becomes of one gene once its sign and its chance are drawn:
    /// untouched unless the draw for the chance came up, and otherwise
    /// perturbed in the drawn direction by a magnitude that is drawn now.
    pub fn mutate_gene(&self, rng: &mut StdRng, gene: G, negative: bool, applies: bool) -> (mutated:
        G)
        ensures
            !applies ==> mutated == gene,
            applies ==> perturbs(gene, self.spec_coefficient(), mutated),
    {
        if applies {
            let magnitude = G::magnitude(rng);
            self.perturb(gene, negative, magnitude)
        } else {
            gene
        }
    }
}

impl<G: Gene> Mutation<G> for GaussianMutation<G> {
    /// The genome keeps its length, and each gene is either kept or perturbed
    /// by the mutation's coefficient: kept for sure where the chance is zero,
    /// perturbed for sure where it is one.
    open spec fn mutates(&self, before: Seq<G>, after: Seq<G>) -> bool {
        &&& after.len() == before.len()
        &&& forall|i: int|
            0 <= i < after.len() ==> #[trigger] after[i] == before[i] || perturbs(
                before[i],
                self.spec_coefficient(),
                after[i],
            )
        &&& self.spec_chance_numerator() == 0 ==> after == before
        &&& self.spec_chance_numerator() == self.spec_chance_denominator() ==> forall|i: int|
            0 <= i < after.len() ==> perturbs(
                before[i],
                self.spec_coefficient(),
                #[trigger] after[i],
            )
    }

    /// For every gene in order: draws a fair sign, then draws whether the gene
    /// is perturbed at all, and if so draws a magnitude and perturbs the gene
    /// by it. With a chance of zero the genome comes out as it went in.
    fn mutate(&self, rng: &mut StdRng, child: &mut Chromosome<G>)
        ensures
            self.spec_chance_numerator() == 0 ==> final(child)@ == old(child)@,
    {
        proof {
            use_type_invariant(self);
        }
        let length = child.len();
        let mut i: usize = 0;
        while i < length
            invariant
                0 < self.chance_denominator,
                self.chance_numerator <= self.chance_denominator,
                i <= length,
                child@.len() == length,
                length == old(child)@.len(),
                self.chance_numerator == 0 ==> child@ == old(child)@,
                forall|j: int| i <= j < length ==> child@[j] == old(child)@[j],
                forall|j: int|
                    0 <= j < i ==> #[trigger] child@[j] == old(child)@[j] || perturbs(
                        old(child)@[j],
                        self.coefficient,
                        child@[j],
                    ),
                self.chance_numerator == self.chance_denominator ==> forall|j: int|
                    0 <= j < i ==> perturbs(old(child)@[j], self.coefficient, #[trigger] child@[j]),
            decreases length - i,
        {
            let negative = draw_ratio(rng, 1, 2);
            let applies = draw_ratio(rng, self.chance_numerator, self.chance_denominator);
            let gene = child.get(i);
            let mutated = self.mutate_gene(rng, gene, negative, applies);
            child.set(i, mutated);
            proof {
                if self.chance_numerator == 0 {
                    assert(child@ =~= old(child)@);
                }
            }
            i = i + 1;
        }
    }
}

} // verus!
