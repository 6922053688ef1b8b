use vstd::prelude::*;

use crate::gene::Gene;
use crate::random::{weights_drawn, RandomSource, Recorder};
use crate::stream::GeneStream;

verus! {

/// Why a sequence of genes does not decode into a network of a given topology.
#[derive(Clone, Copy, Debug, PartialEq, Eq, Structural)]
pub enum WeightsError {
    /// The genes ran out before every bias and weight had one.
    NotEnoughWeights,
    /// Genes were left over after every bias and weight had one.
    TooManyWeights,
}

impl WeightsError {
    /// What went wrong, in words.
    pub fn message(&self) -> (message: &'static str)
        ensures
            message == match self {
                WeightsError::NotEnoughWeights => "got not enough weights",
                WeightsError::TooManyWeights => "got too many weights",
            },
    {
        match self {
            WeightsError::NotEnoughWeights => "got not enough weights",
            WeightsError::TooManyWeights => "got too many weights",
        }
    }
}

/// One neuron: a bias and one weight for each of its inputs.
pub struct Neuron {
    pub bias: Gene,
    pub weights: Vec<Gene>,
}

/// What a neuron is, mathematically.
pub struct NeuronModel {
    pub bias: Gene,
    pub weights: Seq<Gene>,
}

impl NeuronModel {
    /// The genes that encode the neuron: its bias, then its weights in input
    /// order.
    pub open spec fn genes(self) -> Seq<Gene> {
        seq![self.bias] + self.weights
    }
}

/// The number of genes that encode a neuron with `inputs` inputs.
pub open spec fn neuron_size(inputs: nat) -> nat {
    inputs + 1
}

/// The neuron with `inputs` inputs whose encoding starts at position `at` of
/// `genes`.
pub open spec fn decode_neuron(inputs: nat, genes: Seq<Gene>, at: int) -> NeuronModel {
    NeuronModel { bias: genes[at], weights: genes.subrange(at + 1, at + 1 + inputs) }
}

impl View for Neuron {
    type V = NeuronModel;

    open spec fn view(&self) -> NeuronModel {
        NeuronModel { bias: self.bias, weights: self.weights@ }
    }
}

impl Neuron {
    /// A neuron with `output_size` weights; the bias and then each weight, in
    /// order, is one draw from `rng`. So the genes that encode the neuron
    /// are what was drawn, in the order of the draws.
    pub fn random<R: RandomSource>(rng: &mut Recorder<R>, output_size: usize) -> (neuron: Self)
        ensures
            neuron@.weights.len() == output_size,
            final(rng).drawn() == old(rng).drawn() + weights_drawn(neuron@.genes()),
    {
        let ghost before = rng.drawn();
        let bias: Gene = rng.weight();
        let mut weights: Vec<Gene> = Vec::new();
        let mut drawn: usize = 0;
        assert(rng.drawn() =~= before + weights_drawn(seq![bias] + weights@));
        while drawn < output_size
            invariant
                drawn <= output_size,
                weights@.len() == drawn,
                before == old(rng).drawn(),
                rng.drawn() == before + weights_drawn(seq![bias] + weights@),
            decreases output_size - drawn,
        {
            let weight: Gene = rng.weight();
            weights.push(weight);
            drawn = drawn + 1;
            assert(rng.drawn() =~= before + weights_drawn(seq![bias] + weights@));
        }
        Neuron { bias, weights }
    }

    /// Appends to `genes` the genes that encode the neuron.
    pub fn encode(&self, genes: &mut Vec<Gene>)
        ensures
            final(genes)@ == old(genes)@ + self@.genes(),
    {
        let ghost before = genes@;
        genes.push(self.bias);
        let mut written: usize = 0;
        while written < self.weights.len()
            invariant
                written <= self.weights@.len(),
                genes@ == before + seq![self.bias] + self.weights@.take(written as int),
            decreases self.weights@.len() - written,
        {
            genes.push(self.weights[written]);
            written = written + 1;
            assert(self.weights@.take(written as int) =~= self.weights@.take(written - 1).push(
                self.weights@[written - 1],
            ));
        }
        assert(self.weights@.take(written as int) =~= self.weights@);
        assert(genes@ =~= before + self@.genes());
    }

    /// Decodes a neuron with `input_size` inputs from the unread genes of
    /// `weights`: the next gene is its bias, the `input_size` after it are its
    /// weights. Where fewer than `input_size + 1` genes are unread, the stream
    /// is read to its end and the decoding fails.
    pub fn from_weights(input_size: usize, weights: &mut GeneStream) -> (decoded: Result<
        Self,
        WeightsError,
    >)
        ensures
            final(weights).genes() == old(weights).genes(),
            match decoded {
                Ok(neuron) => {
                    &&& old(weights).position() + neuron_size(input_size as nat) <= old(
                        weights,
                    ).genes().len()
                    &&& neuron@ == decode_neuron(
                        input_size as nat,
                        old(weights).genes(),
                        old(weights).position() as int,
                    )
                    &&& final(weights).position() == old(weights).position() + neuron_size(
                        input_size as nat,
                    )
                },
                Err(error) => {
                    &&& error == WeightsError::NotEnoughWeights
                    &&& old(weights).position() + neuron_size(input_size as nat) > old(
                        weights,
                    ).genes().len()
                    &&& final(weights).position() == old(weights).genes().len()
                },
            },
    {
        let ghost start = weights.position() as int;
        let ghost all = weights.genes();
        let bias: Gene = match weights.next() {
            Some(gene) => gene,
            None => {
                return Err(WeightsError::NotEnoughWeights);
            },
        };
        let mut read: Vec<Gene> = Vec::new();
        let mut count: usize = 0;
        while count < input_size
            invariant
                count <= input_size,
                all == old(weights).genes(),
                start == old(weights).position(),
                weights.genes() == all,
                weights.position() == start + 1 + count,
                start + 1 + count <= all.len(),
                read@ == all.subrange(start + 1, start + 1 + count),
            decreases input_size - count,
        {
            match weights.next() {
                Some(gene) => {
                    read.push(gene);
                },
                None => {
                    return Err(WeightsError::NotEnoughWeights);
                },
            }
            count = count + 1;
            assert(read@ =~= all.subrange(start + 1, start + 1 + count));
        }
        Ok(Neuron { bias, weights: read })
    }
}

} // verus!
