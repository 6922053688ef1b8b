use vstd::prelude::*;

use crate::gene::Gene;

verus! {

/// A genome: a fixed-length ordered sequence of genes.
///
/// The evolutionary operators see nothing of a chromosome but its length and
/// its genes by position; what the genes mean is the business of whatever
/// decodes them.
#[derive(Debug, PartialEq)]
pub struct Chromosome {
    genes: Vec<Gene>,
}

impl View for Chromosome {
    type V = Seq<Gene>;

    closed spec fn view(&self) -> Seq<Gene> {
        self.genes@
    }
}

impl Clone for Chromosome {
    /// A chromosome with the same genes.
    fn clone(&self) -> (copy: Self)
        ensures
            copy@ == self@,
    {
        Chromosome { genes: self.genes.clone() }
    }
}

impl Chromosome {
    /// The number of genes.
    pub fn len(&self) -> (length: usize)
        ensures
            length == self@.len(),
    {
        self.genes.len()
    }

    /// The gene at `index`.
    pub fn get(&self, index: usize) -> (gene: Gene)
        requires
            index < self@.len(),
        ensures
            gene == self@[index as int],
    {
        self.genes[index]
    }

    /// Replaces the gene at `index`, leaving every other gene as it was.
    pub fn set(&mut self, index: usize, gene: Gene)
        requires
            index < old(self)@.len(),
        ensures
            final(self)@ == old(self)@.update(index as int, gene),
    {
        self.genes[index] = gene;
    }

    /// The genes in order, borrowed.
    pub fn iter(&self) -> (genes: &[Gene])
        ensures
            genes@ == self@,
    {
        self.genes.as_slice()
    }

    /// The genes in order, borrowed for writing: what is written through the
    /// borrow becomes the chromosome, gene for gene.
    pub fn iter_mut(&mut self) -> (genes: &mut [Gene])
        ensures
            genes@ == old(self)@,
            final(self)@ == final(genes)@,
    {
        self.genes.as_mut_slice()
    }

    /// The chromosome that holds exactly `genes`, in their order.
    pub fn from_iter(genes: Vec<Gene>) -> (chromosome: Self)
        ensures
            chromosome@ == genes@,
    {
        Chromosome { genes }
    }

    /// Gives up the chromosome for its genes, in their order.
    pub fn into_iter(self) -> (genes: Vec<Gene>)
        ensures
            genes@ == self@,
    {
        self.genes
    }
}

} // verus!
