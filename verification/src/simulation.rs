use vstd::prelude::*;

use crate::cart::{
    cart_sizes, higher, lemma_cart_genes, Cart, CartIndividual, State, CART_GENES,
};
use crate::crossover::CrossoverMethod;
use crate::encoding::lemma_encode_decoded;
use crate::gene::{Gene, ZERO};
use crate::genetic_algorithm::{all_draws, Breeding, GeneticAlgorithm};
use crate::individual::{genomes_have_length, Individual};
use crate::mutation::MutationMethod;
use crate::network::network_genes;
use crate::random::{RandomSource, Recorder};
use crate::selection::SelectionMethod;

verus! {

/// A population of carts, the height they are to reach, and the genetic
/// search that breeds the next population from them.
pub struct Simulation<C, M, S> {
    carts: Vec<Cart>,
    height_goal: Gene,
    genetic_algorithm: GeneticAlgorithm<C, M, S>,
}

impl<C, M, S> Simulation<C, M, S> where C: CrossoverMethod, M: MutationMethod, S: SelectionMethod {
    /// The carts, in order.
    pub closed spec fn carts(&self) -> Seq<Cart> {
        self.carts@
    }

    /// The height the carts are to reach.
    pub closed spec fn height_goal(&self) -> Gene {
        self.height_goal
    }

    /// The genetic search.
    pub closed spec fn genetic_algorithm(&self) -> GeneticAlgorithm<C, M, S> {
        self.genetic_algorithm
    }

    /// `cart` has just been bred: it is at the origin and at rest, has
    /// reached no height, and `genes` encode its engine.
    pub open spec fn fresh(cart: Cart, genes: Seq<Gene>) -> bool {
        &&& cart.state() == (State { pos_x: ZERO, pos_y: ZERO, vel_x: ZERO })
        &&& cart.max_height_reached() == ZERO
        &&& network_genes(cart.engine()) == genes
    }

    /// A simulation of `carts` that are to reach `height_goal`.
    pub fn new(carts: Vec<Cart>, height_goal: Gene, genetic_algorithm: GeneticAlgorithm<C, M, S>) -> (simulation:
        Self)
        ensures
            simulation.carts() == carts@,
            simulation.height_goal() == height_goal,
            simulation.genetic_algorithm() == genetic_algorithm,
    {
        Simulation { carts, height_goal, genetic_algorithm }
    }

    /// The carts, in order.
    pub fn population(&self) -> (carts: &Vec<Cart>)
        ensures
            carts@ == self.carts(),
    {
        &self.carts
    }

    /// The height the carts are to reach.
    pub fn goal(&self) -> (height_goal: Gene)
        ensures
            height_goal == self.height_goal(),
    {
        self.height_goal
    }

    /// Moves the cart at `index` to `state`; the other carts stay.
    pub fn advance(&mut self, index: usize, state: State)
        requires
            index < old(self).carts().len(),
        ensures
            final(self).height_goal() == old(self).height_goal(),
            final(self).genetic_algorithm() == old(self).genetic_algorithm(),
            final(self).carts().len() == old(self).carts().len(),
            forall|i: int|
                0 <= i < final(self).carts().len() && i != index ==> final(self).carts()[i] == old(
                    self,
                ).carts()[i],
            final(self).carts()[index as int].engine() == old(self).carts()[index as int].engine(),
            final(self).carts()[index as int].state() == state,
            final(self).carts()[index as int].max_height_reached() == higher(
                old(self).carts()[index as int].max_height_reached(),
                state.pos_y,
            ),
    {
        self.carts[index].advance(state);
    }

    /// Replaces the carts by the next generation: as many carts as before,
    /// each at the origin and at rest with no height reached. They are bred
    /// as the genetic search breeds, with the same draws in the same order,
    /// from the population in which each cart before is an individual with
    /// its greatest height as fitness and the genes of its engine as genome.
    pub fn evolve<R: RandomSource>(&mut self, rng: &mut Recorder<R>)
        requires
            old(self).carts().len() > 0,
        ensures
            final(self).height_goal() == old(self).height_goal(),
            final(self).genetic_algorithm() == old(self).genetic_algorithm(),
            final(self).carts().len() == old(self).carts().len(),
            exists|population: Seq<CartIndividual>, breedings: Seq<Breeding>|
                {
                    &&& stands_for(population, old(self).carts())
                    &&& #[trigger] old(self).genetic_algorithm().breeds_all(population, breedings)
                    &&& final(rng).drawn() == old(rng).drawn() + all_draws(breedings)
                    &&& forall|k: int|
                        0 <= k < final(self).carts().len() ==> Self::fresh(
                            #[trigger] final(self).carts()[k],
                            breedings[k].child,
                        )
                },
    {
        let ghost before = self.carts@;
        let size: usize = self.carts.len();
        let mut population: Vec<CartIndividual> = Vec::new();
        let mut seen: usize = 0;
        while seen < size
            invariant
                size == self.carts@.len(),
                seen <= size,
                population@.len() == seen,
                forall|i: int|
                    0 <= i < seen ==> {
                        &&& (#[trigger] population@[i]).score() == self.carts@[i].max_height_reached()
                        &&& population@[i].genome() == network_genes(self.carts@[i].engine())
                        &&& population@[i].genome().len() == CART_GENES
                    },
            decreases size - seen,
        {
            let individual: CartIndividual = CartIndividual::from_cart(&self.carts[seen]);
            population.push(individual);
            seen = seen + 1;
        }
        let ghost log = rng.drawn();
        let mut next: Vec<CartIndividual> = self.genetic_algorithm.evolve(rng, population.as_slice());
        let ghost breedings = choose|breedings: Seq<Breeding>|
            {
                &&& #[trigger] self.genetic_algorithm.breeds_all(population@, breedings)
                &&& rng.drawn() == log + all_draws(breedings)
                &&& forall|k: int|
                    0 <= k < next@.len() ==> (#[trigger] next@[k]).genome() == breedings[k].child
            };
        proof {
            lemma_cart_genes();
        }
        let mut last_first: Vec<Cart> = Vec::new();
        while next.len() > 0
            invariant
                size == before.len(),
                breedings.len() == size,
                next@.len() + last_first@.len() == size,
                genomes_have_length(next@, CART_GENES as nat),
                forall|k: int|
                    0 <= k < next@.len() ==> (#[trigger] next@[k]).genome() == breedings[k].child,
                forall|j: int|
                    0 <= j < last_first@.len() ==> Self::fresh(
                        #[trigger] last_first@[j],
                        breedings[size - 1 - j].child,
                    ),
            decreases next@.len(),
        {
            let ghost last = next@.last();
            let individual: CartIndividual = next.pop().unwrap();
            let ghost genes = individual.genome();
            proof {
                assert(individual == last);
                lemma_cart_genes();
                lemma_encode_decoded(cart_sizes(), genes);
            }
            match individual.into_cart() {
                Ok(cart) => {
                    last_first.push(cart);
                },
                Err(_) => {
                    // does not happen: what is bred from carts has as many
                    // genes as the engine of a cart takes
                    assert(false);
                },
            }
        }
        let mut carts: Vec<Cart> = Vec::new();
        while last_first.len() > 0
            invariant
                size == before.len(),
                breedings.len() == size,
                last_first@.len() + carts@.len() == size,
                forall|j: int|
                    0 <= j < last_first@.len() ==> Self::fresh(
                        #[trigger] last_first@[j],
                        breedings[size - 1 - j].child,
                    ),
                forall|k: int|
                    0 <= k < carts@.len() ==> Self::fresh(#[trigger] carts@[k], breedings[k].child),
            decreases last_first@.len(),
        {
            let cart: Cart = last_first.pop().unwrap();
            carts.push(cart);
        }
        self.carts = carts;
        proof {
            assert(stands_for(population@, before));
            assert(before == old(self).carts());
            assert(old(self).genetic_algorithm().breeds_all(population@, breedings));
            assert(rng.drawn() == old(rng).drawn() + all_draws(breedings));
            assert(forall|k: int|
                0 <= k < self.carts().len() ==> Self::fresh(
                    #[trigger] self.carts()[k],
                    breedings[k].child,
                ));
        }
    }
}

/// In `population`, each of `carts` is an individual, in their order, with
/// its greatest height as fitness and the genes of its engine as genome.
pub open spec fn stands_for(population: Seq<CartIndividual>, carts: Seq<Cart>) -> bool {
    &&& population.len() == carts.len()
    &&& forall|i: int|
        0 <= i < population.len() ==> {
            &&& (#[trigger] population[i]).score() == carts[i].max_height_reached()
            &&& population[i].genome() == network_genes(carts[i].engine())
        }
}

} // verus!
