use vstd::prelude::*;

use crate::gene::Gene;
use crate::gene::{spec_is_non_negative, spec_is_positive, spec_is_probability};

verus! {

/// A draw that is weighted by `weights` exists: every weight is a number that
/// is not negative, and at least one is greater than zero.
pub open spec fn drawable(weights: Seq<Gene>) -> bool {
    &&& forall|i: int| 0 <= i < weights.len() ==> spec_is_non_negative(#[trigger] weights[i])
    &&& exists|i: int| 0 <= i < weights.len() && spec_is_positive(#[trigger] weights[i])
}

/// A source of randomness.
///
/// Nothing is promised about what a draw returns: whatever the operations of
/// this library guarantee, they guarantee for every outcome. They draw from a
/// source through a [`Recorder`], which keeps the record of the draws.
pub trait RandomSource {
    /// A fair coin: `true` and `false` with equal probability.
    fn coin(&mut self) -> bool;

    /// An event of probability `chance`: `true` with that probability.
    fn happens(&mut self, chance: Gene) -> bool
        requires
            spec_is_probability(chance),
    ;

    /// A real drawn uniformly from the closed interval from -1 to 1.
    fn weight(&mut self) -> Gene;

    /// `gene` moved by `coefficient * u`, where `u` is drawn uniformly from
    /// the interval from 0 (included) to 1 (excluded): downwards if
    /// `downwards`, upwards otherwise.
    fn jitter(&mut self, gene: Gene, coefficient: Gene, downwards: bool) -> Gene;

    /// The index of one of `weights`, each drawn with a probability
    /// proportional to its weight; `None` where no such draw can be made.
    fn weighted_index(&mut self, weights: &Vec<Gene>) -> Option<usize>
        requires
            drawable(weights@),
    ;
}

/// One draw from a source: what was asked of it, and what it returned.
pub enum Draw {
    /// A coin, and whether it showed `true`.
    Coin { heads: bool },
    /// An event of the probability `chance`, and whether it happened.
    Happens { chance: Gene, happened: bool },
    /// A weight, and the real that was drawn.
    Weight { weight: Gene },
    /// A jitter of `gene` by at most `coefficient`, downwards or upwards, and
    /// where it moved the gene to.
    Jitter { gene: Gene, coefficient: Gene, downwards: bool, moved: Gene },
    /// A draw weighted by `weights`, and the index that was drawn, if any.
    WeightedIndex { weights: Seq<Gene>, index: Option<usize> },
}

/// The draws of as many coins as `heads` is long, with those outcomes.
pub open spec fn coins(heads: Seq<bool>) -> Seq<Draw> {
    Seq::new(heads.len(), |i: int| Draw::Coin { heads: heads[i] })
}

/// The draws of as many weights as `weights` is long, with those outcomes.
pub open spec fn weights_drawn(weights: Seq<Gene>) -> Seq<Draw> {
    Seq::new(weights.len(), |i: int| Draw::Weight { weight: weights[i] })
}

/// The one source of randomness that every stochastic operation draws from,
/// together with the record of what has been drawn from it so far.
///
/// The recorder is handed to each operation explicitly, and each draw goes
/// through it. So an operation can say which draws it makes, in which order,
/// and what it makes of their outcomes: a source that replays the same
/// outcomes yields the same result.
pub struct Recorder<R> {
    source: R,
    drawn: Ghost<Seq<Draw>>,
}

impl<R: RandomSource> Recorder<R> {
    /// The source that the draws come from.
    pub closed spec fn source(&self) -> R {
        self.source
    }

    /// The draws made so far, first to last.
    pub closed spec fn drawn(&self) -> Seq<Draw> {
        self.drawn@
    }

    /// A recorder over `source`, from which nothing has been drawn yet.
    pub fn new(source: R) -> (recorder: Self)
        ensures
            recorder.source() == source,
            recorder.drawn() == Seq::<Draw>::empty(),
    {
        Recorder { source, drawn: Ghost(Seq::empty()) }
    }

    /// The source, as the draws have left it.
    pub fn inner(&self) -> (source: &R)
        ensures
            *source == self.source(),
    {
        &self.source
    }

    /// Gives up the recorder for its source.
    pub fn into_inner(self) -> (source: R)
        ensures
            source == self.source(),
    {
        self.source
    }

    /// Draws a fair coin.
    pub fn coin(&mut self) -> (heads: bool)
        ensures
            final(self).drawn() == old(self).drawn().push(Draw::Coin { heads }),
    {
        let heads: bool = self.source.coin();
        self.drawn = Ghost(self.drawn@.push(Draw::Coin { heads }));
        heads
    }

    /// Draws whether an event of the probability `chance` happens.
    pub fn happens(&mut self, chance: Gene) -> (happened: bool)
        requires
            spec_is_probability(chance),
        ensures
            final(self).drawn() == old(self).drawn().push(Draw::Happens { chance, happened }),
    {
        let happened: bool = self.source.happens(chance);
        self.drawn = Ghost(self.drawn@.push(Draw::Happens { chance, happened }));
        happened
    }

    /// Draws a real from the closed interval from -1 to 1.
    pub fn weight(&mut self) -> (weight: Gene)
        ensures
            final(self).drawn() == old(self).drawn().push(Draw::Weight { weight }),
    {
        let weight: Gene = self.source.weight();
        self.drawn = Ghost(self.drawn@.push(Draw::Weight { weight }));
        weight
    }

    /// Draws how far `gene` is moved, by at most `coefficient`, and returns
    /// where that moves it to.
    pub fn jitter(&mut self, gene: Gene, coefficient: Gene, downwards: bool) -> (moved: Gene)
        ensures
            final(self).drawn() == old(self).drawn().push(
                Draw::Jitter { gene, coefficient, downwards, moved },
            ),
    {
        let moved: Gene = self.source.jitter(gene, coefficient, downwards);
        self.drawn = Ghost(self.drawn@.push(Draw::Jitter { gene, coefficient, downwards, moved }));
        moved
    }

    /// Draws the index of one of `weights`, by weight.
    pub fn weighted_index(&mut self, weights: &Vec<Gene>) -> (index: Option<usize>)
        requires
            drawable(weights@),
        ensures
            final(self).drawn() == old(self).drawn().push(
                Draw::WeightedIndex { weights: weights@, index },
            ),
    {
        let index: Option<usize> = self.source.weighted_index(weights);
        self.drawn = Ghost(self.drawn@.push(Draw::WeightedIndex { weights: weights@, index }));
        index
    }
}

} // verus!
