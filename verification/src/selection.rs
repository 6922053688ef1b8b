use vstd::prelude::*;

use crate::gene::{is_non_negative, is_positive, Gene};
use crate::gene::{spec_is_non_negative, spec_is_positive};
use crate::individual::{scores, Individual};
use crate::random::{drawable, Draw, RandomSource, Recorder};

verus! {

/// A way to choose a parent from a population.
pub trait SelectionMethod {
    /// From a population with the fitnesses `scores`, this method may make
    /// the draws `draws` and then chooses the member at `index`.
    spec fn selects(&self, scores: Seq<Gene>, draws: Seq<Draw>, index: int) -> bool;

    /// Chooses one member of `population`. The same member may be chosen
    /// again by the next call.
    fn select<'a, I: Individual, R: RandomSource>(&self, rng: &mut Recorder<R>, population: &'a [I]) -> (chosen:
        &'a I)
        requires
            population@.len() > 0,
        ensures
            population@.contains(*chosen),
            exists|draws: Seq<Draw>, index: int|
                {
                    &&& #[trigger] self.selects(scores(population@), draws, index)
                    &&& final(rng).drawn() == old(rng).drawn() + draws
                    &&& 0 <= index < population@.len()
                    &&& *chosen == population@[index]
                },
    ;
}

/// Fitness-proportionate selection: a member is chosen with a probability
/// that is its fitness divided by the sum of all fitnesses.
///
/// Such a draw exists only where every fitness is a number that is not
/// negative and at least one of them is greater than zero. There one draw is
/// made, weighted by the fitnesses in the order of the population, and the
/// member at the index drawn is chosen. From any other population the first
/// member is chosen, and nothing is drawn.
pub struct RouletteWheelSelection;

/// The position that a draw selects in a population of `size` members: the
/// position drawn where there is one, the first where there is none.
pub open spec fn picked(size: nat, drawn: Option<usize>) -> int {
    match drawn {
        Some(index) if index < size => index as int,
        _ => 0,
    }
}

impl RouletteWheelSelection {
    /// Fitness-proportionate selection. It has nothing to configure.
    pub fn new() -> (method: Self)
        ensures
            method == RouletteWheelSelection,
    {
        RouletteWheelSelection
    }

    /// The member of `population` that a draw selects: the one at the
    /// position drawn, or the first where nothing was drawn.
    pub fn pick<'a, I: Individual>(&self, population: &'a [I], drawn: Option<usize>) -> (chosen:
        &'a I)
        requires
            population@.len() > 0,
        ensures
            *chosen == population@[picked(population@.len(), drawn)],
    {
        match drawn {
            Some(index) => {
                if index < population.len() {
                    &population[index]
                } else {
                    &population[0]
                }
            },
            None => &population[0],
        }
    }
}

impl SelectionMethod for RouletteWheelSelection {
    /// Where a weighted draw exists, that one draw is made, and the index
    /// it gives is chosen, or the first where it gives none. Where none
    /// exists, nothing is drawn and the first index is chosen.
    open spec fn selects(&self, scores: Seq<Gene>, draws: Seq<Draw>, index: int) -> bool {
        if drawable(scores) {
            exists|drawn: Option<usize>|
                {
                    &&& draws == seq![Draw::WeightedIndex { weights: scores, index: drawn }]
                    &&& index == #[trigger] picked(scores.len(), drawn)
                }
        } else {
            draws == Seq::<Draw>::empty() && index == 0
        }
    }

    fn select<'a, I: Individual, R: RandomSource>(&self, rng: &mut Recorder<R>, population: &'a [I]) -> (chosen:
        &'a I)
        ensures
            !drawable(scores(population@)) ==> {
                &&& *chosen == population@[0]
                &&& final(rng).drawn() == old(rng).drawn()
            },
            drawable(scores(population@)) ==> exists|drawn: Option<usize>|
                {
                    &&& final(rng).drawn() == old(rng).drawn().push(
                        Draw::WeightedIndex { weights: scores(population@), index: drawn },
                    )
                    &&& *chosen == population@[#[trigger] picked(population@.len(), drawn)]
                },
    {
        let ghost all = scores(population@);
        let mut weights: Vec<Gene> = Vec::new();
        let mut all_valid: bool = true;
        let mut some_positive: bool = false;
        let mut seen: usize = 0;
        while seen < population.len()
            invariant
                seen <= population@.len(),
                all == scores(population@),
                weights@ == all.take(seen as int),
                all_valid == (forall|i: int|
                    0 <= i < seen ==> spec_is_non_negative(#[trigger] all[i])),
                some_positive == (exists|i: int| 0 <= i < seen && spec_is_positive(#[trigger] all[i])),
            decreases population@.len() - seen,
        {
            let fitness: Gene = population[seen].fitness();
            weights.push(fitness);
            proof {
                assert(fitness == all[seen as int]);
                assert(weights@ =~= all.take(seen + 1));
            }
            all_valid = all_valid && is_non_negative(fitness);
            some_positive = some_positive || is_positive(fitness);
            seen = seen + 1;
        }
        assert(weights@ =~= all);
        let ghost before = rng.drawn();
        let drawn: Option<usize> = if all_valid && some_positive {
            rng.weighted_index(&weights)
        } else {
            None
        };
        let chosen: &'a I = self.pick(population, drawn);
        proof {
            let index = picked(population@.len(), drawn);
            if drawable(all) {
                let draws = seq![Draw::WeightedIndex { weights: all, index: drawn }];
                assert(rng.drawn() =~= before + draws);
                assert(self.selects(all, draws, index));
            } else {
                assert(rng.drawn() =~= before + Seq::<Draw>::empty());
                assert(self.selects(all, Seq::<Draw>::empty(), index));
            }
        }
        chosen
    }
}

} // verus!
