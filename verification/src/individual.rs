use vstd::prelude::*;

use crate::chromosome::Chromosome;
use crate::gene::Gene;

verus! {

/// A member of a population: a genome and the fitness that its evaluation
/// gave it. Higher fitness is better.
pub trait Individual: Sized {
    /// The fitness of the individual.
    spec fn score(&self) -> Gene;

    /// The genes of the individual.
    spec fn genome(&self) -> Seq<Gene>;

    fn fitness(&self) -> (fitness: Gene)
        ensures
            fitness == self.score(),
    ;

    fn chromosome(&self) -> (chromosome: &Chromosome)
        ensures
            chromosome@ == self.genome(),
    ;

    /// A new individual with the genes of `chromosome`. It has not been
    /// evaluated: what fitness it starts with is the implementor's choice.
    fn create(chromosome: Chromosome) -> (made: Self)
        ensures
            made.genome() == chromosome@,
    ;
}

/// The fitness of each member of a population, in order.
pub open spec fn scores<I: Individual>(population: Seq<I>) -> Seq<Gene> {
    Seq::new(population.len(), |i: int| population[i].score())
}

/// The genomes of a population all have the length `length`.
pub open spec fn genomes_have_length<I: Individual>(population: Seq<I>, length: nat) -> bool {
    forall|i: int| 0 <= i < population.len() ==> (#[trigger] population[i]).genome().len() == length
}

} // verus!
