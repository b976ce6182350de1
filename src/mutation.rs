//! Perturbing a child genome.
use vstd::prelude::*;
use crate::chromosome::Chromosome;
use rand::rngs::StdRng;

verus! {

/// A way of changing genes of a child in place; the genome keeps its length.
pub trait MutationMethod<G> {
    /// Holds of a method that never changes a gene. Nothing is promised
    /// unless an implementation says so.
    open spec fn leaves_genes(&self) -> bool {
        false
    }

    fn mutate(&self, rng: &mut StdRng, child: &mut Chromosome<G>)
        ensures
            final(child)@.len() == old(child)@.len(),
            self.leaves_genes() ==> final(child)@ == old(child)@,
    ;
}

/// Leaves every gene as it is: breeding by selection and crossover alone.
#[derive(Clone, Copy, Debug, Default)]
pub struct NoMutation;

impl<G> MutationMethod<G> for NoMutation {
    open spec fn leaves_genes(&self) -> bool {
        true
    }

    fn mutate(&self, rng: &mut StdRng, child: &mut Chromosome<G>) {
    }
}

} // verus!
