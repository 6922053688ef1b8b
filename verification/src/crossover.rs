use vstd::prelude::*;

use crate::chromosome::Chromosome;
use crate::gene::Gene;
use crate::random::{coins, Draw, RandomSource, Recorder};

verus! {

/// A way to combine the genomes of two parents into the genome of a child.
pub trait CrossoverMethod {
    /// Of `parent_a` and `parent_b`, this method may make the draws `draws`
    /// and then makes the genome `child`.
    spec fn crosses(
        &self,
        parent_a: Seq<Gene>,
        parent_b: Seq<Gene>,
        draws: Seq<Draw>,
        child: Seq<Gene>,
    ) -> bool;

    /// Makes a child of two parents of equal length. The child has their
    /// length.
    fn crossover<R: RandomSource>(
        &self,
        rng: &mut Recorder<R>,
        parent_a: &Chromosome,
        parent_b: &Chromosome,
    ) -> (child: Chromosome)
        requires
            parent_a@.len() == parent_b@.len(),
        ensures
            child@.len() == parent_a@.len(),
            exists|draws: Seq<Draw>|
                {
                    &&& #[trigger] self.crosses(parent_a@, parent_b@, draws, child@)
                    &&& final(rng).drawn() == old(rng).drawn() + draws
                },
    ;
}

/// Uniform crossover: each gene of the child is the gene that one of the
/// parents has at that position; which parent gives it is decided by a fair
/// coin, position by position.
pub struct UniformCrossover;

/// The child that takes each gene from `parent_a` where `from_a` says so,
/// and from `parent_b` where it does not.
pub open spec fn combined(parent_a: Seq<Gene>, parent_b: Seq<Gene>, from_a: Seq<bool>) -> Seq<Gene> {
    Seq::new(
        parent_a.len(),
        |i: int|
            if from_a[i] {
                parent_a[i]
            } else {
                parent_b[i]
            },
    )
}

impl UniformCrossover {
    /// Uniform crossover. It has nothing to configure.
    pub fn new() -> (method: Self)
        ensures
            method == UniformCrossover,
    {
        UniformCrossover
    }

    /// The child of two parents for given outcomes of the coin, one for each
    /// position: `true` takes the gene of `parent_a`, `false` that of
    /// `parent_b`.
    pub fn combine(&self, parent_a: &Chromosome, parent_b: &Chromosome, from_a: &Vec<bool>) -> (child:
        Chromosome)
        requires
            parent_a@.len() == parent_b@.len(),
            from_a@.len() == parent_a@.len(),
        ensures
            child@ == combined(parent_a@, parent_b@, from_a@),
    {
        let length: usize = parent_a.len();
        let mut genes: Vec<Gene> = Vec::new();
        let mut done: usize = 0;
        while done < length
            invariant
                length == parent_a@.len(),
                length == parent_b@.len(),
                length == from_a@.len(),
                done <= length,
                genes@ == combined(parent_a@, parent_b@, from_a@).take(done as int),
            decreases length - done,
        {
            let gene: Gene = if from_a[done] {
                parent_a.get(done)
            } else {
                parent_b.get(done)
            };
            genes.push(gene);
            done = done + 1;
            assert(genes@ =~= combined(parent_a@, parent_b@, from_a@).take(done as int));
        }
        assert(genes@ =~= combined(parent_a@, parent_b@, from_a@));
        Chromosome::from_iter(genes)
    }
}

impl CrossoverMethod for UniformCrossover {
    open spec fn crosses(
        &self,
        parent_a: Seq<Gene>,
        parent_b: Seq<Gene>,
        draws: Seq<Draw>,
        child: Seq<Gene>,
    ) -> bool {
        exists|from_a: Seq<bool>|
            {
                &&& from_a.len() == parent_a.len()
                &&& draws == #[trigger] coins(from_a)
                &&& child == combined(parent_a, parent_b, from_a)
            }
    }

    /// One coin is drawn for each position, first position first: on `true`
    /// the gene comes from `parent_a`, on `false` from `parent_b`.
    fn crossover<R: RandomSource>(
        &self,
        rng: &mut Recorder<R>,
        parent_a: &Chromosome,
        parent_b: &Chromosome,
    ) -> (child: Chromosome)
        ensures
            exists|from_a: Seq<bool>|
                {
                    &&& from_a.len() == parent_a@.len()
                    &&& final(rng).drawn() == old(rng).drawn() + #[trigger] coins(from_a)
                    &&& child@ == combined(parent_a@, parent_b@, from_a)
                },
    {
        let ghost before = rng.drawn();
        let length: usize = parent_a.len();
        let mut from_a: Vec<bool> = Vec::new();
        let mut drawn: usize = 0;
        assert(rng.drawn() =~= before + coins(from_a@));
        while drawn < length
            invariant
                drawn <= length,
                from_a@.len() == drawn,
                before == old(rng).drawn(),
                rng.drawn() == before + coins(from_a@),
            decreases length - drawn,
        {
            let coin: bool = rng.coin();
            from_a.push(coin);
            drawn = drawn + 1;
            assert(rng.drawn() =~= before + coins(from_a@));
        }
        let child: Chromosome = self.combine(parent_a, parent_b, &from_a);
        assert(self.crosses(parent_a@, parent_b@, coins(from_a@), child@));
        child
    }
}

} // verus!
