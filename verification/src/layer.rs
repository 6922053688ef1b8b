use vstd::prelude::*;

use crate::gene::Gene;
use crate::neuron::{decode_neuron, neuron_size, Neuron, NeuronModel, WeightsError};
use crate::random::{weights_drawn, RandomSource, Recorder};
use crate::stream::GeneStream;

verus! {

/// One layer: its neurons in order. Each takes the whole output of the layer
/// before it as its input.
pub struct Layer {
    pub neurons: Vec<Neuron>,
}

/// The number of genes that encode a layer of `outputs` neurons with `inputs`
/// inputs each.
pub open spec fn layer_size(inputs: nat, outputs: nat) -> nat {
    outputs * neuron_size(inputs)
}

/// The layer of `outputs` neurons with `inputs` inputs each whose encoding
/// starts at position `at` of `genes`: neuron after neuron, without gaps.
pub open spec fn decode_layer(inputs: nat, outputs: nat, genes: Seq<Gene>, at: int) -> Seq<
    NeuronModel,
> {
    Seq::new(outputs, |n: int| decode_neuron(inputs, genes, at + n * neuron_size(inputs)))
}

/// The genes that encode a layer: the genes of its neurons, one neuron after
/// the other.
pub open spec fn layer_genes(layer: Seq<NeuronModel>) -> Seq<Gene>
    decreases layer.len(),
{
    if layer.len() == 0 {
        Seq::empty()
    } else {
        layer_genes(layer.drop_last()) + layer.last().genes()
    }
}

/// Every neuron of `layer` has `inputs` weights.
pub open spec fn layer_takes(layer: Seq<NeuronModel>, inputs: nat) -> bool {
    forall|n: int| 0 <= n < layer.len() ==> (#[trigger] layer[n]).weights.len() == inputs
}

impl View for Layer {
    type V = Seq<NeuronModel>;

    open spec fn view(&self) -> Seq<NeuronModel> {
        Seq::new(self.neurons@.len(), |n: int| self.neurons@[n]@)
    }
}

/// One more of `total` things of one size: what the sizes of `done` and of
/// `done + 1` of them are to each other and to the size of all.
pub proof fn lemma_size_step(size: nat, done: nat, total: nat)
    requires
        done < total,
    ensures
        (done + 1) * size == done * size + size,
        (done + 1) * size <= total * size,
{
    assert((done + 1) * size == done * size + size) by (nonlinear_arith);
    assert((done + 1) * size <= total * size) by (nonlinear_arith)
        requires
            done + 1 <= total,
    ;
}

impl Layer {
    /// A layer of `output_neurons` neurons with `input_neurons` weights each;
    /// the neurons are drawn from `rng` one after the other. So the genes
    /// that encode the layer are what was drawn, in the order of the draws.
    pub fn random<R: RandomSource>(
        rng: &mut Recorder<R>,
        input_neurons: usize,
        output_neurons: usize,
    ) -> (layer: Self)
        ensures
            layer@.len() == output_neurons,
            layer_takes(layer@, input_neurons as nat),
            final(rng).drawn() == old(rng).drawn() + weights_drawn(layer_genes(layer@)),
    {
        let ghost before = rng.drawn();
        let ghost mut made_so_far: Seq<NeuronModel> = Seq::empty();
        let mut neurons: Vec<Neuron> = Vec::new();
        let mut made: usize = 0;
        assert(rng.drawn() =~= before + weights_drawn(layer_genes(made_so_far)));
        while made < output_neurons
            invariant
                made <= output_neurons,
                neurons@.len() == made,
                made_so_far == Seq::new(neurons@.len(), |n: int| neurons@[n]@),
                forall|n: int| 0 <= n < made ==> (#[trigger] neurons@[n])@.weights.len() == input_neurons,
                before == old(rng).drawn(),
                rng.drawn() == before + weights_drawn(layer_genes(made_so_far)),
            decreases output_neurons - made,
        {
            let neuron: Neuron = Neuron::random(rng, input_neurons);
            let ghost model = neuron@;
            neurons.push(neuron);
            made = made + 1;
            proof {
                let longer = Seq::new(neurons@.len(), |n: int| neurons@[n]@);
                assert(longer.drop_last() =~= made_so_far);
                assert(longer.last() == model);
                assert(weights_drawn(layer_genes(longer)) =~= weights_drawn(
                    layer_genes(made_so_far),
                ) + weights_drawn(model.genes()));
                assert(rng.drawn() =~= before + weights_drawn(layer_genes(longer)));
                made_so_far = longer;
            }
        }
        let layer = Layer { neurons };
        assert(layer@ =~= made_so_far);
        layer
    }

    /// Whether every neuron of the layer has `inputs` weights, so that the
    /// layer can be fed `inputs` values.
    pub fn takes(&self, inputs: usize) -> (fits: bool)
        ensures
            fits == layer_takes(self@, inputs as nat),
    {
        let mut seen: usize = 0;
        while seen < self.neurons.len()
            invariant
                seen <= self.neurons@.len(),
                forall|n: int| 0 <= n < seen ==> (#[trigger] self@[n]).weights.len() == inputs,
            decreases self.neurons@.len() - seen,
        {
            if self.neurons[seen].weights.len() != inputs {
                assert(self@[seen as int].weights.len() != inputs);
                return false;
            }
            seen = seen + 1;
        }
        true
    }

    /// Appends to `genes` the genes that encode the layer.
    pub fn encode(&self, genes: &mut Vec<Gene>)
        ensures
            final(genes)@ == old(genes)@ + layer_genes(self@),
    {
        let ghost before = genes@;
        let mut written: usize = 0;
        assert(self@.take(0) =~= Seq::empty());
        while written < self.neurons.len()
            invariant
                written <= self.neurons@.len(),
                genes@ == before + layer_genes(self@.take(written as int)),
            decreases self.neurons@.len() - written,
        {
            self.neurons[written].encode(genes);
            written = written + 1;
            proof {
                let longer = self@.take(written as int);
                assert(longer.drop_last() =~= self@.take(written - 1));
                assert(longer.last() == self.neurons@[written - 1]@);
                assert(genes@ =~= before + layer_genes(longer));
            }
        }
        assert(self@.take(written as int) =~= self@);
    }

    /// Decodes a layer of `output_size` neurons with `input_size` inputs each
    /// from the unread genes of `weights`, neuron after neuron. Where the
    /// unread genes are fewer than the layer takes, the stream is read to its
    /// end and the decoding fails.
    pub fn from_weights(input_size: usize, output_size: usize, weights: &mut GeneStream) -> (decoded:
        Result<Self, WeightsError>)
        ensures
            final(weights).genes() == old(weights).genes(),
            match decoded {
                Ok(layer) => {
                    &&& old(weights).position() + layer_size(
                        input_size as nat,
                        output_size as nat,
                    ) <= old(weights).genes().len()
                    &&& layer@ == decode_layer(
                        input_size as nat,
                        output_size as nat,
                        old(weights).genes(),
                        old(weights).position() as int,
                    )
                    &&& final(weights).position() == old(weights).position() + layer_size(
                        input_size as nat,
                        output_size as nat,
                    )
                },
                Err(error) => {
                    &&& error == WeightsError::NotEnoughWeights
                    &&& old(weights).position() + layer_size(
                        input_size as nat,
                        output_size as nat,
                    ) > old(weights).genes().len()
                    &&& final(weights).position() == old(weights).genes().len()
                },
            },
    {
        let ghost start = weights.position() as int;
        let ghost all = weights.genes();
        let ghost size = neuron_size(input_size as nat);
        proof {
            use_type_invariant(&*weights);
        }
        let mut neurons: Vec<Neuron> = Vec::new();
        let mut made: usize = 0;
        while made < output_size
            invariant
                made <= output_size,
                all == old(weights).genes(),
                start == old(weights).position(),
                size == neuron_size(input_size as nat),
                weights.genes() == all,
                weights.position() == start + made * size,
                start + made * size <= all.len(),
                neurons@.len() == made,
                forall|n: int|
                    0 <= n < made ==> (#[trigger] neurons@[n])@ == decode_neuron(
                        input_size as nat,
                        all,
                        start + n * size,
                    ),
            decreases output_size - made,
        {
            proof {
                lemma_size_step(size, made as nat, output_size as nat);
            }
            match Neuron::from_weights(input_size, weights) {
                Ok(neuron) => {
                    neurons.push(neuron);
                },
                Err(error) => {
                    return Err(error);
                },
            }
            made = made + 1;
        }
        let layer = Layer { neurons };
        assert(layer@ =~= decode_layer(input_size as nat, output_size as nat, all, start));
        Ok(layer)
    }
}

} // verus!
