use vstd::prelude::*;

use crate::chromosome::Chromosome;
use crate::crossover::CrossoverMethod;
use crate::gene::Gene;
use crate::individual::{genomes_have_length, scores, Individual};
use crate::mutation::MutationMethod;
use crate::random::{Draw, RandomSource, Recorder};
use crate::selection::SelectionMethod;

verus! {

/// How one member of the next generation is bred: which two members of the
/// population are selected as its parents, what their crossover makes of
/// them, what the mutation makes of that, and the draws that each of the four
/// steps makes.
pub struct Breeding {
    pub first: int,
    pub second: int,
    pub first_draws: Seq<Draw>,
    pub second_draws: Seq<Draw>,
    pub crossover_draws: Seq<Draw>,
    pub mutation_draws: Seq<Draw>,
    pub crossed: Seq<Gene>,
    pub child: Seq<Gene>,
}

impl Breeding {
    /// The draws of the breeding, in their order: those of the selection of
    /// the first parent, of the selection of the second, of the crossover,
    /// of the mutation.
    pub open spec fn draws(self) -> Seq<Draw> {
        self.first_draws + self.second_draws + self.crossover_draws + self.mutation_draws
    }
}

/// The draws of several breedings, one breeding after the other.
pub open spec fn all_draws(breedings: Seq<Breeding>) -> Seq<Draw>
    decreases breedings.len(),
{
    if breedings.len() == 0 {
        Seq::empty()
    } else {
        all_draws(breedings.drop_last()) + breedings.last().draws()
    }
}

/// The generational step of a genetic search, over any way to select, to
/// cross and to mutate.
///
/// The engine works on genomes only. It never evaluates fitness: it reads the
/// fitness that the members of a population already carry, and the members of
/// the population it returns have yet to be evaluated.
pub struct GeneticAlgorithm<C, M, S> {
    crossover_method: C,
    mutation_method: M,
    selection_method: S,
}

impl<C, M, S> GeneticAlgorithm<C, M, S> where
    C: CrossoverMethod,
    M: MutationMethod,
    S: SelectionMethod,
 {
    /// The way the engine crosses.
    pub closed spec fn crossover_method(&self) -> C {
        self.crossover_method
    }

    /// The way the engine mutates.
    pub closed spec fn mutation_method(&self) -> M {
        self.mutation_method
    }

    /// The way the engine selects.
    pub closed spec fn selection_method(&self) -> S {
        self.selection_method
    }

    /// `breeding` is a way in which the engine may breed a child from
    /// `population`: each step is one that its method may take, on what the
    /// steps before it gave. The two parents may be one and the same member.
    pub open spec fn breeds<I: Individual>(&self, population: Seq<I>, breeding: Breeding) -> bool {
        &&& 0 <= breeding.first < population.len()
        &&& 0 <= breeding.second < population.len()
        &&& self.selection_method().selects(
            scores(population),
            breeding.first_draws,
            breeding.first,
        )
        &&& self.selection_method().selects(
            scores(population),
            breeding.second_draws,
            breeding.second,
        )
        &&& self.crossover_method().crosses(
            population[breeding.first].genome(),
            population[breeding.second].genome(),
            breeding.crossover_draws,
            breeding.crossed,
        )
        &&& self.mutation_method().mutates(
            breeding.crossed,
            breeding.mutation_draws,
            breeding.child,
        )
    }

    /// `breedings` are ways in which the engine may breed the next
    /// generation from `population`: one for each member that the
    /// population has.
    pub open spec fn breeds_all<I: Individual>(
        &self,
        population: Seq<I>,
        breedings: Seq<Breeding>,
    ) -> bool {
        &&& breedings.len() == population.len()
        &&& forall|k: int|
            0 <= k < breedings.len() ==> self.breeds(population, #[trigger] breedings[k])
    }

    /// The engine that selects, crosses and mutates in the given ways.
    pub fn new(crossover_method: C, mutation_method: M, selection_method: S) -> (engine: Self)
        ensures
            engine.crossover_method() == crossover_method,
            engine.mutation_method() == mutation_method,
            engine.selection_method() == selection_method,
    {
        GeneticAlgorithm { crossover_method, mutation_method, selection_method }
    }

    /// The next generation: as many new individuals as `population` has
    /// members. Each is made on its own, of a crossover of two selected
    /// parents, mutated. The draws from `rng` are those of the first new
    /// individual, then those of the second, and so on; for each, they are
    /// made in this order: the selection of the first parent, the selection
    /// of the second, the crossover, the mutation.
    pub fn evolve<I: Individual, R: RandomSource>(
        &self,
        rng: &mut Recorder<R>,
        population: &[I],
    ) -> (next: Vec<I>)
        requires
            population@.len() > 0,
            genomes_have_length(population@, population@[0].genome().len()),
        ensures
            next@.len() == population@.len(),
            genomes_have_length(next@, population@[0].genome().len()),
            exists|breedings: Seq<Breeding>|
                {
                    &&& #[trigger] self.breeds_all(population@, breedings)
                    &&& final(rng).drawn() == old(rng).drawn() + all_draws(breedings)
                    &&& forall|k: int|
                        0 <= k < next@.len() ==> (#[trigger] next@[k]).genome()
                            == breedings[k].child
                },
    {
        let ghost length = population@[0].genome().len();
        let ghost before = rng.drawn();
        let ghost mut breedings: Seq<Breeding> = Seq::empty();
        let size: usize = population.len();
        let mut next: Vec<I> = Vec::new();
        let mut made: usize = 0;
        assert(rng.drawn() =~= before + all_draws(breedings));
        while made < size
            invariant
                size == population@.len(),
                length == population@[0].genome().len(),
                genomes_have_length(population@, length),
                made <= size,
                next@.len() == made,
                genomes_have_length(next@, length),
                before == old(rng).drawn(),
                breedings.len() == made,
                rng.drawn() == before + all_draws(breedings),
                forall|k: int| 0 <= k < made ==> self.breeds(population@, #[trigger] breedings[k]),
                forall|k: int| 0 <= k < made ==> (#[trigger] next@[k]).genome() == breedings[k].child,
            decreases size - made,
        {
            let ghost so_far = breedings;
            let ghost all = scores(population@);
            let ghost log0 = rng.drawn();
            let first: &I = self.selection_method.select(rng, population);
            let ghost (first_draws, a) = choose|draws: Seq<Draw>, index: int|
                {
                    &&& #[trigger] self.selection_method.selects(all, draws, index)
                    &&& rng.drawn() == log0 + draws
                    &&& 0 <= index < population@.len()
                    &&& *first == population@[index]
                };
            let ghost log1 = rng.drawn();
            let second: &I = self.selection_method.select(rng, population);
            let ghost (second_draws, b) = choose|draws: Seq<Draw>, index: int|
                {
                    &&& #[trigger] self.selection_method.selects(all, draws, index)
                    &&& rng.drawn() == log1 + draws
                    &&& 0 <= index < population@.len()
                    &&& *second == population@[index]
                };
            let parent_a: &Chromosome = first.chromosome();
            let parent_b: &Chromosome = second.chromosome();
            let ghost log2 = rng.drawn();
            let mut child: Chromosome = self.crossover_method.crossover(rng, parent_a, parent_b);
            let ghost crossed = child@;
            let ghost crossover_draws = choose|draws: Seq<Draw>|
                {
                    &&& #[trigger] self.crossover_method.crosses(
                        parent_a@,
                        parent_b@,
                        draws,
                        crossed,
                    )
                    &&& rng.drawn() == log2 + draws
                };
            let ghost log3 = rng.drawn();
            self.mutation_method.mutate(rng, &mut child);
            let ghost mutated = child@;
            let ghost mutation_draws = choose|draws: Seq<Draw>|
                {
                    &&& #[trigger] self.mutation_method.mutates(crossed, draws, mutated)
                    &&& rng.drawn() == log3 + draws
                };
            let individual: I = I::create(child);
            let ghost breeding = Breeding {
                first: a,
                second: b,
                first_draws,
                second_draws,
                crossover_draws,
                mutation_draws,
                crossed,
                child: mutated,
            };
            let ghost children = next@;
            next.push(individual);
            made = made + 1;
            proof {
                breedings = so_far.push(breeding);
                assert(self.breeds(population@, breeding));
                assert(breedings.drop_last() =~= so_far);
                assert(breedings.last() == breeding);
                assert(rng.drawn() =~= before + all_draws(breedings));
                assert(forall|k: int| 0 <= k < made - 1 ==> next@[k] == children[k]);
                assert(forall|k: int| 0 <= k < made - 1 ==> breedings[k] == so_far[k]);
            }
        }
        proof {
            assert(self.breeds_all(population@, breedings));
        }
        next
    }
}

} // verus!
