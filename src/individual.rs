//! What the genetic algorithm asks of the things it evolves.
use vstd::prelude::*;
use crate::chromosome::Chromosome;

verus! {

/// Something that reports a fitness and carries a genome of genes `G`.
pub trait Individual<G>: Sized {
    /// The genome this individual carries.
    spec fn genome(&self) -> Seq<G>;

    /// The fitness this individual reports.
    spec fn score(&self) -> u32;

    fn fitness(&self) -> (r: u32)
        ensures
            r == self.score(),
    ;

    fn chromosome(&self) -> (r: &Chromosome<G>)
        ensures
            r@ == self.genome(),
    ;

    fn from_chromosome(chromosome: Chromosome<G>) -> (r: Self)
        ensures
            r.genome() == chromosome@,
    ;
}

/// The fitness of each member of `population`, in order.
pub open spec fn scores<G, I: Individual<G>>(population: Seq<I>) -> Seq<u32> {
    population.map_values(|p: I| p.score())
}

/// An animal as the genetic algorithm sees it: its fitness and its genome.
#[derive(Debug)]
pub struct AnimalIndividual<G> {
    fitness: u32,
    chromosome: Chromosome<G>,
}

impl<G: Copy> AnimalIndividual<G> {
    /// An individual of the given fitness carrying `chromosome`.
    pub fn new(fitness: u32, chromosome: Chromosome<G>) -> (r: Self)
        ensures
            r.score() == fitness,
            r.genome() == chromosome@,
    {
        AnimalIndividual { fitness, chromosome }
    }

    /// Gives the genome back.
    pub fn into_chromosome(self) -> (r: Chromosome<G>)
        ensures
            r@ == self.genome(),
    {
        self.chromosome
    }
}

impl<G: Copy> Individual<G> for AnimalIndividual<G> {
    closed spec fn genome(&self) -> Seq<G> {
        self.chromosome@
    }

    closed spec fn score(&self) -> u32 {
        self.fitness
    }

    fn fitness(&self) -> (r: u32) {
        self.fitness
    }

    fn chromosome(&self) -> (r: &Chromosome<G>) {
        &self.chromosome
    }

    /// A newborn individual has fitness 0.
    fn from_chromosome(chromosome: Chromosome<G>) -> (r: Self)
        ensures
            r.score() == 0,
    {
        AnimalIndividual { fitness: 0, chromosome }
    }
}

} // verus!
