use vstd::prelude::*;

use crate::encoding::lemma_encode_decoded;
use crate::gene::Gene;
use crate::layer::{decode_layer, layer_genes, layer_size, layer_takes, Layer};
use crate::neuron::{NeuronModel, WeightsError};
use crate::random::{weights_drawn, RandomSource, Recorder};
use crate::stream::GeneStream;

verus! {

/// The number of neurons in one layer of a topology.
pub struct NeuronsInLayer(pub usize);

/// A feed-forward network: its layers in order, the first one fed by the
/// network's input.
pub struct Network {
    layers: Vec<Layer>,
}

/// What a network is, mathematically: for each layer, its neurons.
pub type NetworkModel = Seq<Seq<NeuronModel>>;

/// A topology as plain numbers: the size of the input, then the number of
/// neurons of each layer.
pub open spec fn layer_sizes(topology: Seq<NeuronsInLayer>) -> Seq<nat> {
    Seq::new(topology.len(), |i: int| topology[i].0 as nat)
}

/// The number of genes that encode the first `layers` layers of a network with
/// the sizes `sizes`.
pub open spec fn genes_before(sizes: Seq<nat>, layers: nat) -> nat
    decreases layers,
{
    if layers == 0 {
        0
    } else {
        genes_before(sizes, (layers - 1) as nat) + layer_size(
            sizes[layers - 1],
            sizes[layers as int],
        )
    }
}

/// The number of genes that encode a network with the sizes `sizes`: for each
/// layer, and each neuron in it, one bias and one weight per input.
pub open spec fn weight_count(sizes: Seq<nat>) -> nat {
    if sizes.len() < 2 {
        0
    } else {
        genes_before(sizes, (sizes.len() - 1) as nat)
    }
}

/// The network with the sizes `sizes` that `genes` encode: layer after layer,
/// without gaps.
pub open spec fn decode_network(sizes: Seq<nat>, genes: Seq<Gene>) -> NetworkModel {
    Seq::new(
        (sizes.len() - 1) as nat,
        |l: int| decode_layer(sizes[l], sizes[l + 1], genes, genes_before(sizes, l as nat) as int),
    )
}

/// The genes that encode a network: the genes of its layers, one layer after
/// the other.
pub open spec fn network_genes(network: NetworkModel) -> Seq<Gene>
    decreases network.len(),
{
    if network.len() == 0 {
        Seq::empty()
    } else {
        network_genes(network.drop_last()) + layer_genes(network.last())
    }
}

/// `network` has the sizes `sizes`: one layer for each size after the first,
/// with that many neurons, each with one weight for every neuron of the layer
/// before it (for the first layer: for every input).
pub open spec fn has_shape(network: NetworkModel, sizes: Seq<nat>) -> bool {
    &&& sizes.len() >= 2
    &&& network.len() == sizes.len() - 1
    &&& forall|l: int|
        0 <= l < network.len() ==> {
            &&& (#[trigger] network[l]).len() == sizes[l + 1]
            &&& layer_takes(network[l], sizes[l])
        }
}

/// How many values layer `l` of `network` is given where the network is fed
/// `inputs` values: for the first layer those, for every other layer one from
/// each neuron of the layer before.
pub open spec fn given_to(network: NetworkModel, inputs: nat, l: int) -> nat {
    if l == 0 {
        inputs
    } else {
        network[l - 1].len()
    }
}

/// Layer `l` of `network` fits what it is given where the network is fed
/// `inputs` values: each of its neurons has one weight for each value.
pub open spec fn layer_fits(network: NetworkModel, inputs: nat, l: int) -> bool {
    layer_takes(network[l], given_to(network, inputs, l))
}

/// `network` can be fed `inputs` values: each of its layers fits what it is
/// given.
pub open spec fn feeds(network: NetworkModel, inputs: nat) -> bool {
    forall|l: int| 0 <= l < network.len() ==> #[trigger] layer_fits(network, inputs, l)
}

/// A network with the sizes `sizes` can be fed as many values as the first
/// size says.
pub proof fn lemma_shape_feeds(network: NetworkModel, sizes: Seq<nat>)
    requires
        has_shape(network, sizes),
    ensures
        feeds(network, sizes[0]),
{
    assert forall|l: int| 0 <= l < network.len() implies #[trigger] layer_fits(
        network,
        sizes[0],
        l,
    ) by {
        assert(layer_takes(network[l], sizes[l]));
        if l > 0 {
            assert(network[l - 1].len() == sizes[l]);
        }
    }
}

impl View for Network {
    type V = NetworkModel;

    closed spec fn view(&self) -> NetworkModel {
        Seq::new(self.layers@.len(), |l: int| self.layers@[l]@)
    }
}

/// The genes of the first layers of a network come before, and are no more
/// than, the genes of more of its layers.
pub proof fn lemma_genes_before_grows(sizes: Seq<nat>, fewer: nat, more: nat)
    requires
        fewer <= more,
    ensures
        genes_before(sizes, fewer) <= genes_before(sizes, more),
    decreases more,
{
    if fewer < more {
        lemma_genes_before_grows(sizes, fewer, (more - 1) as nat);
    }
}

impl Network {
    /// The network made of `layers`, in their order.
    pub fn new(layers: Vec<Layer>) -> (network: Self)
        ensures
            network@ == Seq::new(layers@.len(), |l: int| layers@[l]@),
    {
        Network { layers }
    }

    /// The layers, in order.
    pub fn layers(&self) -> (layers: &Vec<Layer>)
        ensures
            self@ == Seq::new(layers@.len(), |l: int| layers@[l]@),
    {
        &self.layers
    }

    /// A network of the given topology; its layers are drawn from `rng` one
    /// after the other, first to last. So the genes that encode the network
    /// are what was drawn, in the order of the draws.
    pub fn random<R: RandomSource>(rng: &mut Recorder<R>, topology: &[NeuronsInLayer]) -> (network:
        Self)
        requires
            topology@.len() >= 2,
        ensures
            has_shape(network@, layer_sizes(topology@)),
            final(rng).drawn() == old(rng).drawn() + weights_drawn(network_genes(network@)),
    {
        let ghost sizes = layer_sizes(topology@);
        let ghost before = rng.drawn();
        let ghost mut made_so_far: NetworkModel = Seq::empty();
        let mut layers: Vec<Layer> = Vec::new();
        let count: usize = topology.len() - 1;
        let mut made: usize = 0;
        assert(rng.drawn() =~= before + weights_drawn(network_genes(made_so_far)));
        while made < count
            invariant
                count == topology@.len() - 1,
                sizes == layer_sizes(topology@),
                made <= count,
                layers@.len() == made,
                made_so_far == Seq::new(layers@.len(), |l: int| layers@[l]@),
                forall|l: int|
                    0 <= l < made ==> {
                        &&& (#[trigger] layers@[l])@.len() == sizes[l + 1]
                        &&& layer_takes(layers@[l]@, sizes[l])
                    },
                before == old(rng).drawn(),
                rng.drawn() == before + weights_drawn(network_genes(made_so_far)),
            decreases count - made,
        {
            let layer: Layer = Layer::random(rng, topology[made].0, topology[made + 1].0);
            let ghost model = layer@;
            layers.push(layer);
            made = made + 1;
            proof {
                let longer = Seq::new(layers@.len(), |l: int| layers@[l]@);
                assert(longer.drop_last() =~= made_so_far);
                assert(longer.last() == model);
                assert(weights_drawn(network_genes(longer)) =~= weights_drawn(
                    network_genes(made_so_far),
                ) + weights_drawn(layer_genes(model)));
                assert(rng.drawn() =~= before + weights_drawn(network_genes(longer)));
                made_so_far = longer;
            }
        }
        let network = Network { layers };
        assert(network@ =~= made_so_far);
        network
    }

    /// Whether the network can be fed `inputs` values: whether each of its
    /// layers fits what it is given, the first `inputs` values and every
    /// other the output of the layer before it.
    pub fn accepts(&self, inputs: usize) -> (fits: bool)
        ensures
            fits == feeds(self@, inputs as nat),
    {
        let mut given: usize = inputs;
        let mut seen: usize = 0;
        while seen < self.layers.len()
            invariant
                seen <= self.layers@.len(),
                given == given_to(self@, inputs as nat, seen as int),
                forall|l: int| 0 <= l < seen ==> #[trigger] layer_fits(self@, inputs as nat, l),
            decreases self.layers@.len() - seen,
        {
            if !self.layers[seen].takes(given) {
                assert(!layer_fits(self@, inputs as nat, seen as int));
                return false;
            }
            assert(layer_fits(self@, inputs as nat, seen as int));
            given = self.layers[seen].neurons.len();
            seen = seen + 1;
        }
        true
    }

    /// The genes that encode the network: layer by layer, neuron by neuron,
    /// each neuron's bias and then its weights in input order.
    pub fn weights(&self) -> (genes: Vec<Gene>)
        ensures
            genes@ == network_genes(self@),
    {
        let mut genes: Vec<Gene> = Vec::new();
        let mut written: usize = 0;
        assert(self@.take(0) =~= Seq::empty());
        while written < self.layers.len()
            invariant
                written <= self.layers@.len(),
                genes@ == network_genes(self@.take(written as int)),
            decreases self.layers@.len() - written,
        {
            self.layers[written].encode(&mut genes);
            written = written + 1;
            proof {
                let longer = self@.take(written as int);
                assert(longer.drop_last() =~= self@.take(written - 1));
                assert(longer.last() == self.layers@[written - 1]@);
                assert(genes@ =~= network_genes(longer));
            }
        }
        assert(self@.take(written as int) =~= self@);
        genes
    }

    /// Decodes the network of the given topology from `weights`, which must
    /// hold exactly the genes of such a network: no fewer and no more.
    pub fn from_weights(topology: &[NeuronsInLayer], weights: Vec<Gene>) -> (decoded: Result<
        Self,
        WeightsError,
    >)
        requires
            topology@.len() >= 2,
        ensures
            match decoded {
                Ok(network) => {
                    &&& weights@.len() == weight_count(layer_sizes(topology@))
                    &&& network@ == decode_network(layer_sizes(topology@), weights@)
                    &&& has_shape(network@, layer_sizes(topology@))
                },
                Err(WeightsError::NotEnoughWeights) => weights@.len() < weight_count(
                    layer_sizes(topology@),
                ),
                Err(WeightsError::TooManyWeights) => weights@.len() > weight_count(
                    layer_sizes(topology@),
                ),
            },
    {
        let ghost sizes = layer_sizes(topology@);
        let ghost all = weights@;
        let mut stream: GeneStream = GeneStream::new(weights);
        let mut layers: Vec<Layer> = Vec::new();
        let count: usize = topology.len() - 1;
        let mut made: usize = 0;
        while made < count
            invariant
                count == topology@.len() - 1,
                sizes == layer_sizes(topology@),
                made <= count,
                all == weights@,
                stream.genes() == all,
                stream.position() == genes_before(sizes, made as nat),
                stream.position() <= all.len(),
                layers@.len() == made,
                forall|l: int|
                    0 <= l < made ==> (#[trigger] layers@[l])@ == decode_layer(
                        sizes[l],
                        sizes[l + 1],
                        all,
                        genes_before(sizes, l as nat) as int,
                    ),
            decreases count - made,
        {
            match Layer::from_weights(topology[made].0, topology[made + 1].0, &mut stream) {
                Ok(layer) => {
                    layers.push(layer);
                },
                Err(error) => {
                    proof {
                        assert(sizes[made as int] == topology@[made as int].0);
                        assert(sizes[made + 1] == topology@[made + 1].0);
                        assert(genes_before(sizes, (made + 1) as nat) == genes_before(
                            sizes,
                            made as nat,
                        ) + layer_size(sizes[made as int], sizes[made + 1]));
                        lemma_genes_before_grows(
                            sizes,
                            (made + 1) as nat,
                            (sizes.len() - 1) as nat,
                        );
                    }
                    return Err(error);
                },
            }
            made = made + 1;
        }
        match stream.next() {
            Some(_) => Err(WeightsError::TooManyWeights),
            None => {
                let network = Network { layers };
                assert(network@ =~= decode_network(sizes, all));
                proof {
                    lemma_encode_decoded(sizes, all);
                }
                Ok(network)
            },
        }
    }
}

} // verus!
