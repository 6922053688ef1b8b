use vstd::prelude::*;

use crate::gene::Gene;

verus! {

/// A sequence of genes that is read once, front to back.
///
/// Decoding a network consumes such a stream: every bias and every weight is
/// the next unread gene.
pub struct GeneStream {
    genes: Vec<Gene>,
    next: usize,
}

impl GeneStream {
    /// All the genes of the stream, read or not.
    pub closed spec fn genes(&self) -> Seq<Gene> {
        self.genes@
    }

    /// How many genes have been read.
    pub closed spec fn position(&self) -> nat {
        self.next as nat
    }

    /// No more genes have been read than there are.
    #[verifier::type_invariant]
    pub open spec fn in_bounds(&self) -> bool {
        self.position() <= self.genes().len()
    }

    /// A stream over `genes` of which nothing has been read yet.
    pub fn new(genes: Vec<Gene>) -> (stream: Self)
        ensures
            stream.genes() == genes@,
            stream.position() == 0,
    {
        GeneStream { genes, next: 0 }
    }

    /// Reads the next gene, or reports with `None` that all have been read.
    pub fn next(&mut self) -> (gene: Option<Gene>)
        ensures
            final(self).genes() == old(self).genes(),
            match gene {
                Some(g) => {
                    &&& old(self).position() < old(self).genes().len()
                    &&& g == old(self).genes()[old(self).position() as int]
                    &&& final(self).position() == old(self).position() + 1
                },
                None => {
                    &&& old(self).position() == old(self).genes().len()
                    &&& final(self).position() == old(self).position()
                },
            },
    {
        proof {
            use_type_invariant(&*self);
        }
        if self.next < self.genes.len() {
            let gene: Gene = self.genes[self.next];
            self.next = self.next + 1;
            Some(gene)
        } else {
            None
        }
    }
}

} // verus!
