//! Combining two parent genomes into a child.
use vstd::prelude::*;
use crate::chromosome::Chromosome;
use crate::random::flip_coin;
use rand::rngs::StdRng;

verus! {

/// The child of `parent_a` and `parent_b` under these coin tosses: at each
/// place, parent A's gene where the coin came up true, parent B's otherwise.
pub open spec fn crossed<G>(coins: Seq<bool>, parent_a: Seq<G>, parent_b: Seq<G>) -> Seq<G> {
    Seq::new(coins.len(), |i: int| if coins[i] { parent_a[i] } else { parent_b[i] })
}

/// A way of building a child genome from two parents of equal length: each
/// gene of the child is the gene at the same place in one of the parents.
pub trait CrossoverMethod {
    fn crossover<G: Copy>(
        &self,
        rng: &mut StdRng,
        parent_a: &Chromosome<G>,
        parent_b: &Chromosome<G>,
    ) -> (child: Chromosome<G>)
        requires
            parent_a@.len() == parent_b@.len(),
        ensures
            child@.len() == parent_a@.len(),
            forall|i: int|
                0 <= i < child@.len() ==> #[trigger] child@[i] == parent_a@[i] || child@[i] == parent_b@[i],
    ;
}

/// Builds the child of two parents under the given coin tosses, one for each
/// gene.
pub fn crossover_with<G: Copy>(
    coins: &Vec<bool>,
    parent_a: &Chromosome<G>,
    parent_b: &Chromosome<G>,
) -> (child: Chromosome<G>)
    requires
        coins@.len() == parent_a@.len(),
        parent_a@.len() == parent_b@.len(),
    ensures
        child@ == crossed(coins@, parent_a@, parent_b@),
{
    let n = coins.len();
    let mut genes: Vec<G> = Vec::with_capacity(n);
    let mut i: usize = 0;
    while i < n
        invariant
            n == coins@.len(),
            n == parent_a@.len(),
            n == parent_b@.len(),
            i <= n,
            genes@ == crossed(coins@, parent_a@, parent_b@).take(i as int),
        decreases n - i,
    {
        if coins[i] {
            genes.push(parent_a.get(i));
        } else {
            genes.push(parent_b.get(i));
        }
        i = i + 1;
        assert(genes@ =~= crossed(coins@, parent_a@, parent_b@).take(i as int));
    }
    assert(genes@ =~= crossed(coins@, parent_a@, parent_b@));
    Chromosome::from_genes(genes)
}

/// Takes each gene from one parent or the other on the toss of a fair coin.
#[derive(Clone, Copy, Debug, Default)]
pub struct UniformCrossover;

impl UniformCrossover {
    pub fn new() -> (r: Self) {
        UniformCrossover
    }
}

impl CrossoverMethod for UniformCrossover {
    /// Tosses one coin for each gene, in order, and builds the child with
    /// `crossover_with`.
    fn crossover<G: Copy>(
        &self,
        rng: &mut StdRng,
        parent_a: &Chromosome<G>,
        parent_b: &Chromosome<G>,
    ) -> (child: Chromosome<G>)
        ensures
            exists|coins: Seq<bool>|
                coins.len() == parent_a@.len() && child@ == crossed(coins, parent_a@, parent_b@),
    {
        let n = parent_a.len();
        let mut coins: Vec<bool> = Vec::with_capacity(n);
        let mut i: usize = 0;
        while i < n
            invariant
                n == parent_a@.len(),
                i <= n,
                coins@.len() == i,
            decreases n - i,
        {
            coins.push(flip_coin(rng));
            i = i + 1;
        }
        let child = crossover_with(&coins, parent_a, parent_b);
        assert(child@.len() == parent_a@.len());
        child
    }
}

} // verus!
