use vstd::prelude::*;

use crate::chromosome::Chromosome;
use crate::gene::{is_zero, Gene};
use crate::gene::{spec_is_probability, spec_is_zero};
use crate::random::{Draw, RandomSource, Recorder};

verus! {

/// A way to perturb a genome.
pub trait MutationMethod {
    /// With the genome `before`, this method may make the draws `draws` and
    /// then turns it into `after`.
    spec fn mutates(&self, before: Seq<Gene>, draws: Seq<Draw>, after: Seq<Gene>) -> bool;

    /// Perturbs `child` in place. Its length stays.
    fn mutate<R: RandomSource>(&self, rng: &mut Recorder<R>, child: &mut Chromosome)
        ensures
            final(child)@.len() == old(child)@.len(),
            exists|draws: Seq<Draw>|
                {
                    &&& #[trigger] self.mutates(old(child)@, draws, final(child)@)
                    &&& final(rng).drawn() == old(rng).drawn() + draws
                },
    ;
}

/// What is drawn for one gene: the direction, and where the gene is moved to
/// if it is touched.
pub struct Touch {
    pub downwards: bool,
    pub moved: Option<Gene>,
}

/// For each gene, where it is moved to if it is touched.
pub open spec fn moves(touches: Seq<Touch>) -> Seq<Option<Gene>> {
    Seq::new(touches.len(), |i: int| touches[i].moved)
}

/// Per-gene jitter: each gene is touched with the probability `chance`, and a
/// touched gene is moved, up or down with equal probability, by at most
/// `coeff`. The distance is uniform between nothing and `coeff`; it is not
/// normally distributed, whatever the name says.
pub struct GaussianMutation {
    chance: Gene,
    coeff: Gene,
}

impl GaussianMutation {
    /// The probability with which a gene is touched.
    pub closed spec fn chance(&self) -> Gene {
        self.chance
    }

    /// The largest distance by which a touched gene is moved.
    pub closed spec fn coeff(&self) -> Gene {
        self.coeff
    }

    /// The chance is a probability.
    #[verifier::type_invariant]
    pub open spec fn well_formed(&self) -> bool {
        spec_is_probability(self.chance())
    }

    /// No gene is ever moved: the chance or the coefficient is zero.
    pub open spec fn inert(&self) -> bool {
        spec_is_zero(self.chance()) || spec_is_zero(self.coeff())
    }

    /// What becomes of a genome where `moves` holds, for each touched gene,
    /// the value it is moved to, and `None` for each gene that is not
    /// touched.
    pub open spec fn applied(&self, before: Seq<Gene>, moves: Seq<Option<Gene>>) -> Seq<Gene> {
        Seq::new(
            before.len(),
            |i: int|
                match moves[i] {
                    Some(moved) if !self.inert() => moved,
                    _ => before[i],
                },
        )
    }

    /// The draws that are made for `gene` where their outcome is `touch`: a
    /// coin for the direction, then whether the gene is touched, and only
    /// for a touched gene a third, for the distance.
    pub open spec fn draws_for(&self, gene: Gene, touch: Touch) -> Seq<Draw> {
        let two = seq![
            Draw::Coin { heads: touch.downwards },
            Draw::Happens { chance: self.chance(), happened: touch.moved is Some },
        ];
        match touch.moved {
            Some(moved) => two.push(
                Draw::Jitter {
                    gene,
                    coefficient: self.coeff(),
                    downwards: touch.downwards,
                    moved,
                },
            ),
            None => two,
        }
    }

    /// The draws that are made for the first genes of `genes`, as many as
    /// there are `touches`, where their outcomes are `touches`: those for the
    /// first gene, then those for the second, and so on.
    pub open spec fn draws(&self, genes: Seq<Gene>, touches: Seq<Touch>) -> Seq<Draw>
        decreases touches.len(),
    {
        if touches.len() == 0 {
            Seq::empty()
        } else {
            self.draws(genes, touches.drop_last()) + self.draws_for(
                genes[touches.len() - 1],
                touches.last(),
            )
        }
    }

    /// The mutation that touches a gene with the probability `chance` and
    /// moves a touched gene by at most `coeff`.
    pub fn new(chance: Gene, coeff: Gene) -> (method: Self)
        requires
            spec_is_probability(chance),
        ensures
            method.chance() == chance,
            method.coeff() == coeff,
    {
        GaussianMutation { chance, coeff }
    }

    /// Moves the touched genes of `child` to the values that `moves` holds
    /// for them. Where the chance or the coefficient is zero, no gene counts
    /// as touched, whatever `moves` holds.
    pub fn apply(&self, child: &mut Chromosome, moves: &Vec<Option<Gene>>)
        requires
            moves@.len() == old(child)@.len(),
        ensures
            final(child)@ == self.applied(old(child)@, moves@),
    {
        let inert: bool = is_zero(self.chance) || is_zero(self.coeff);
        let length: usize = child.len();
        let mut done: usize = 0;
        while done < length
            invariant
                length == old(child)@.len(),
                length == moves@.len(),
                child@.len() == length,
                done <= length,
                inert == self.inert(),
                forall|i: int|
                    0 <= i < done ==> child@[i] == self.applied(old(child)@, moves@)[i],
                forall|i: int| done <= i < length ==> child@[i] == old(child)@[i],
            decreases length - done,
        {
            match moves[done] {
                Some(moved) => {
                    if !inert {
                        child.set(done, moved);
                    }
                },
                None => {},
            }
            done = done + 1;
        }
        assert(child@ =~= self.applied(old(child)@, moves@));
    }
}

impl MutationMethod for GaussianMutation {
    /// The draws are those for each gene in turn, and each gene becomes
    /// what its draws make of it. Where the chance or the coefficient is
    /// zero, that is what it was, bit for bit.
    open spec fn mutates(&self, before: Seq<Gene>, draws: Seq<Draw>, after: Seq<Gene>) -> bool {
        exists|touches: Seq<Touch>|
            {
                &&& touches.len() == before.len()
                &&& draws == #[trigger] self.draws(before, touches)
                &&& after == self.applied(before, moves(touches))
            }
    }

    /// For each gene, first to last, two draws are made: a coin for the
    /// direction, then whether the gene is touched. Only for a touched gene a
    /// third follows, for the distance. Each gene is then what its draws
    /// make of it: where it was moved to if it was touched, and what it was
    /// if it was not.
    fn mutate<R: RandomSource>(&self, rng: &mut Recorder<R>, child: &mut Chromosome)
        ensures
            self.inert() ==> final(child)@ == old(child)@,
            exists|touches: Seq<Touch>|
                {
                    &&& touches.len() == old(child)@.len()
                    &&& final(rng).drawn() == old(rng).drawn() + #[trigger] self.draws(
                        old(child)@,
                        touches,
                    )
                    &&& final(child)@ == self.applied(old(child)@, moves(touches))
                },
    {
        proof {
            use_type_invariant(self);
        }
        let ghost before = rng.drawn();
        let ghost mut touches: Seq<Touch> = Seq::empty();
        let length: usize = child.len();
        let mut moved_to: Vec<Option<Gene>> = Vec::new();
        let mut done: usize = 0;
        assert(rng.drawn() =~= before + self.draws(child@, touches));
        while done < length
            invariant
                length == child@.len(),
                child@ == old(child)@,
                done <= length,
                before == old(rng).drawn(),
                touches.len() == done,
                moved_to@ == moves(touches),
                rng.drawn() == before + self.draws(child@, touches),
                spec_is_probability(self.chance),
            decreases length - done,
        {
            let ghost so_far = touches;
            let gene: Gene = child.get(done);
            let downwards: bool = rng.coin();
            let touched: bool = rng.happens(self.chance);
            if touched {
                let moved: Gene = rng.jitter(gene, self.coeff, downwards);
                moved_to.push(Some(moved));
                proof {
                    touches = touches.push(Touch { downwards, moved: Some(moved) });
                }
            } else {
                moved_to.push(None);
                proof {
                    touches = touches.push(Touch { downwards, moved: None });
                }
            }
            done = done + 1;
            proof {
                assert(touches.drop_last() =~= so_far);
                assert(moved_to@ =~= moves(touches));
                assert(rng.drawn() =~= before + self.draws(child@, touches));
            }
        }
        self.apply(child, &moved_to);
        assert(self.inert() ==> child@ =~= old(child)@);
        assert(self.mutates(old(child)@, self.draws(old(child)@, touches), child@));
    }
}

} // verus!
