//! The generation step: select, cross over, mutate, rebuild.
use vstd::prelude::*;
use crate::chromosome::Chromosome;
use crate::crossover::CrossoverMethod;
use crate::individual::{scores, Individual};
use crate::mutation::MutationMethod;
use crate::random::{lemma_weight_sum_nonneg, weight_sum};
use crate::selection::{SelectionError, SelectionMethod};
use rand::rngs::StdRng;

verus! {

/// Every member of `population` carries a genome of `len` genes.
pub open spec fn genomes_of_len<G, I: Individual<G>>(population: Seq<I>, len: nat) -> bool {
    forall|i: int| 0 <= i < population.len() ==> (#[trigger] population[i]).genome().len() == len
}

/// The member that stands in for a failed draw among `n` members: the first
/// for the first parent, the second (the first, when there is only one) for
/// the second parent.
pub open spec fn fallback_index(n: nat, second: bool) -> int {
    if second && n > 1 {
        1
    } else {
        0
    }
}

/// Member `j` can pass genes on: when some member has a positive fitness,
/// those members can; when none has, the fallback members can.
pub open spec fn is_donor<G, I: Individual<G>>(population: Seq<I>, j: int) -> bool {
    if weight_sum(scores(population)) > 0 {
        population[j].score() > 0
    } else {
        j == fallback_index(population.len(), false) || j == fallback_index(population.len(), true)
    }
}

/// `gene` is the gene at place `i` of some donor of `population`.
pub open spec fn from_donor<G, I: Individual<G>>(population: Seq<I>, i: int, gene: G) -> bool {
    exists|j: int|
        0 <= j < population.len() && is_donor(population, j) && #[trigger] population[j].genome()[i]
            == gene
}

/// The genome of the drawn parent, or that of the fallback member when the
/// draw failed.
pub fn parent_or_fallback<'a, G, I: Individual<G>>(
    drawn: Result<&'a I, SelectionError>,
    population: &'a Vec<I>,
    second: bool,
) -> (r: &'a Chromosome<G>)
    requires
        population@.len() > 0,
    ensures
        drawn matches Ok(p) ==> r@ == p.genome(),
        drawn is Err ==> r@ == population@[fallback_index(population@.len(), second)].genome(),
{
    match drawn {
        Ok(p) => p.chromosome(),
        Err(_) => {
            let k: usize = if second && population.len() > 1 {
                1
            } else {
                0
            };
            population[k].chromosome()
        },
    }
}

/// A genetic algorithm made of a selection, a crossover and a mutation
/// strategy.
pub struct GeneticAlgorithm<S, C, M> {
    selection_method: S,
    crossover_method: C,
    mutation_method: M,
}

impl<S, C, M> GeneticAlgorithm<S, C, M> {
    /// The selection strategy.
    pub closed spec fn selection(&self) -> S {
        self.selection_method
    }

    /// The crossover strategy.
    pub closed spec fn crossover(&self) -> C {
        self.crossover_method
    }

    /// The mutation strategy.
    pub closed spec fn mutation(&self) -> M {
        self.mutation_method
    }
}

impl<S: SelectionMethod, C: CrossoverMethod, M> GeneticAlgorithm<S, C, M> {
    pub fn new(selection_method: S, crossover_method: C, mutation_method: M) -> (r: Self)
        ensures
            r.selection() == selection_method,
            r.crossover() == crossover_method,
            r.mutation() == mutation_method,
    {
        GeneticAlgorithm { selection_method, crossover_method, mutation_method }
    }

    /// Breeds a new population of the same size. For each child, two parents
    /// are drawn by the selection strategy (a failed draw falls back as
    /// `parent_or_fallback` says), crossed over, and the child is mutated.
    /// Where the mutation leaves genes as they are, every gene of a child is
    /// the gene at the same place of a donor: a member with a positive
    /// fitness, or a fallback member when no member has one.
    pub fn evolve<G: Copy, I: Individual<G>>(&self, rng: &mut StdRng, population: &Vec<I>) -> (r: Vec<I>)
        where
            M: MutationMethod<G>,
        requires
            population@.len() > 0,
            genomes_of_len(population@, population@[0].genome().len()),
            weight_sum(scores(population@)) <= u32::MAX,
        ensures
            r@.len() == population@.len(),
            genomes_of_len(r@, population@[0].genome().len()),
            self.mutation().leaves_genes() ==> forall|k: int, i: int|
                0 <= k < r@.len() && 0 <= i < population@[0].genome().len() ==> from_donor(
                    population@,
                    i,
                    #[trigger] r@[k].genome()[i],
                ),
    {
        let ghost len = population@[0].genome().len();
        let ghost pop = population@;
        proof {
            lemma_weight_sum_nonneg(scores(pop));
        }
        let n = population.len();
        let mut next: Vec<I> = Vec::with_capacity(n);
        let mut k: usize = 0;
        while k < n
            invariant
                n == population@.len(),
                pop == population@,
                n > 0,
                k <= n,
                next@.len() == k,
                len == population@[0].genome().len(),
                genomes_of_len(population@, len),
                genomes_of_len(next@, len),
                weight_sum(scores(population@)) <= u32::MAX,
                weight_sum(scores(population@)) >= 0,
                self.mutation().leaves_genes() ==> forall|c: int, i: int|
                    0 <= c < k && 0 <= i < len ==> from_donor(pop, i, #[trigger] next@[c].genome()[i]),
            decreases n - k,
        {
            let drawn_a = self.selection_method.select(rng, population);
            let ghost da = drawn_a;
            let parent_a = parent_or_fallback(drawn_a, population, false);
            let drawn_b = self.selection_method.select(rng, population);
            let ghost db = drawn_b;
            let parent_b = parent_or_fallback(drawn_b, population, true);
            proof {
                assert(exists|j: int|
                    0 <= j < n && is_donor(pop, j) && pop[j].genome() == parent_a@) by {
                    if da is Ok {
                        let j = choose|j: int|
                            0 <= j < n && pop[j] == *da->Ok_0 && pop[j].score() > 0;
                        assert(is_donor(pop, j));
                    } else {
                        assert(is_donor(pop, fallback_index(n as nat, false)));
                    }
                }
                assert(exists|j: int|
                    0 <= j < n && is_donor(pop, j) && pop[j].genome() == parent_b@) by {
                    if db is Ok {
                        let j = choose|j: int|
                            0 <= j < n && pop[j] == *db->Ok_0 && pop[j].score() > 0;
                        assert(is_donor(pop, j));
                    } else {
                        assert(is_donor(pop, fallback_index(n as nat, true)));
                    }
                }
                assert(genomes_of_len(pop, len));
                let ja = choose|j: int| 0 <= j < n && is_donor(pop, j) && pop[j].genome() == parent_a@;
                let jb = choose|j: int| 0 <= j < n && is_donor(pop, j) && pop[j].genome() == parent_b@;
                assert(pop[ja].genome().len() == len);
                assert(pop[jb].genome().len() == len);
            }
            let mut child = self.crossover_method.crossover(rng, parent_a, parent_b);
            let ghost crossed = child@;
            self.mutation_method.mutate(rng, &mut child);
            let individual = I::from_chromosome(child);
            proof {
                if self.mutation().leaves_genes() {
                    let ja = choose|j: int| 0 <= j < n && is_donor(pop, j) && pop[j].genome() == parent_a@;
                    let jb = choose|j: int| 0 <= j < n && is_donor(pop, j) && pop[j].genome() == parent_b@;
                    assert forall|i: int| 0 <= i < len implies from_donor(
                        pop,
                        i,
                        #[trigger] individual.genome()[i],
                    ) by {
                        assert(individual.genome()[i] == crossed[i]);
                        if crossed[i] == parent_a@[i] {
                            assert(pop[ja].genome()[i] == individual.genome()[i]);
                        } else {
                            assert(pop[jb].genome()[i] == individual.genome()[i]);
                        }
                    }
                }
            }
            next.push(individual);
            k = k + 1;
            proof {
                if self.mutation().leaves_genes() {
                    assert forall|c: int, i: int|
                        0 <= c < k && 0 <= i < len implies from_donor(
                        pop,
                        i,
                        #[trigger] next@[c].genome()[i],
                    ) by {
                        if c == k - 1 {
                            assert(next@[c] == individual);
                        }
                    }
                }
            }
        }
        next
    }
}

} // verus!
