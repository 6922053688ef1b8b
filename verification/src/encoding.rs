//! The encoding of a network as genes and its decoding are inverse to each
//! other. The two laws at the end of this file say so; the lemmas before them
//! establish where in the encoding each neuron and each layer sits.
use vstd::prelude::*;

use crate::gene::Gene;
use crate::layer::{decode_layer, layer_genes, layer_size, layer_takes, lemma_size_step};
use crate::network::{
    decode_network, genes_before, has_shape, lemma_genes_before_grows, network_genes,
    weight_count, NetworkModel,
};
use crate::neuron::{decode_neuron, neuron_size, NeuronModel};

verus! {

/// Where the genes of a neuron stand in a sequence, the neuron is what decodes
/// from there.
proof fn lemma_neuron_genes_decode(neuron: NeuronModel, genes: Seq<Gene>, at: int)
    requires
        0 <= at,
        at + neuron_size(neuron.weights.len()) <= genes.len(),
        genes.subrange(at, at + neuron_size(neuron.weights.len())) == neuron.genes(),
    ensures
        decode_neuron(neuron.weights.len(), genes, at) == neuron,
{
    let inputs = neuron.weights.len();
    let part = genes.subrange(at, at + inputs + 1);
    let decoded = decode_neuron(inputs, genes, at);
    assert(part[0] == genes[at]);
    assert(neuron.genes()[0] == neuron.bias);
    assert forall|i: int| 0 <= i < inputs implies decoded.weights[i] == neuron.weights[i] by {
        assert(part[i + 1] == genes[at + 1 + i]);
        assert(neuron.genes()[i + 1] == neuron.weights[i]);
    }
    assert(decoded.weights =~= neuron.weights);
}

/// The genes of a decoded neuron are the genes it was decoded from.
proof fn lemma_decoded_neuron_genes(inputs: nat, genes: Seq<Gene>, at: int)
    requires
        0 <= at,
        at + neuron_size(inputs) <= genes.len(),
    ensures
        decode_neuron(inputs, genes, at).genes() == genes.subrange(at, at + neuron_size(inputs)),
{
    assert(decode_neuron(inputs, genes, at).genes() =~= genes.subrange(
        at,
        at + neuron_size(inputs),
    ));
}

/// A layer whose neurons all have `inputs` weights is encoded by as many genes
/// as a layer of its size takes.
proof fn lemma_layer_genes_len(layer: Seq<NeuronModel>, inputs: nat)
    requires
        layer_takes(layer, inputs),
    ensures
        layer_genes(layer).len() == layer_size(inputs, layer.len()),
    decreases layer.len(),
{
    if layer.len() == 0 {
        assert(layer_size(inputs, 0) == 0) by (nonlinear_arith);
    } else {
        let shorter = layer.drop_last();
        assert(layer_takes(shorter, inputs)) by {
            assert forall|n: int| 0 <= n < shorter.len() implies (#[trigger] shorter[n]).weights.len()
                == inputs by {
                assert(shorter[n] == layer[n]);
            }
        }
        lemma_layer_genes_len(shorter, inputs);
        assert(layer.last() == layer[layer.len() - 1]);
        lemma_size_step(neuron_size(inputs), shorter.len(), layer.len());
    }
}

/// In the encoding of a layer, the genes of its neuron `n` stand behind those
/// of the `n` neurons before it.
proof fn lemma_layer_genes_part(layer: Seq<NeuronModel>, inputs: nat, n: int)
    requires
        layer_takes(layer, inputs),
        0 <= n < layer.len(),
    ensures
        (n + 1) * neuron_size(inputs) <= layer_genes(layer).len(),
        layer_genes(layer).subrange(n * neuron_size(inputs), (n + 1) * neuron_size(inputs))
            == layer[n].genes(),
    decreases layer.len(),
{
    let size = neuron_size(inputs);
    let shorter = layer.drop_last();
    assert(layer_takes(shorter, inputs)) by {
        assert forall|k: int| 0 <= k < shorter.len() implies (#[trigger] shorter[k]).weights.len()
            == inputs by {
            assert(shorter[k] == layer[k]);
        }
    }
    lemma_layer_genes_len(shorter, inputs);
    lemma_layer_genes_len(layer, inputs);
    lemma_size_step(size, n as nat, layer.len());
    lemma_size_step(size, shorter.len(), layer.len());
    assert(layer.last() == layer[layer.len() - 1]);
    if n == layer.len() - 1 {
        assert(layer_genes(layer).subrange(n * size, (n + 1) * size) =~= layer.last().genes());
    } else {
        lemma_layer_genes_part(shorter, inputs, n);
        assert(shorter[n] == layer[n]);
        assert(layer_genes(layer).subrange(n * size, (n + 1) * size) =~= layer_genes(
            shorter,
        ).subrange(n * size, (n + 1) * size));
    }
}

/// Where the genes of a layer stand in a sequence, the layer is what decodes
/// from there.
proof fn lemma_layer_genes_decode(layer: Seq<NeuronModel>, inputs: nat, genes: Seq<Gene>, at: int)
    requires
        layer_takes(layer, inputs),
        0 <= at,
        at + layer_size(inputs, layer.len()) <= genes.len(),
        genes.subrange(at, at + layer_size(inputs, layer.len())) == layer_genes(layer),
    ensures
        decode_layer(inputs, layer.len(), genes, at) == layer,
{
    let size = neuron_size(inputs);
    let whole = layer_size(inputs, layer.len());
    let decoded = decode_layer(inputs, layer.len(), genes, at);
    assert forall|n: int| 0 <= n < layer.len() implies decoded[n] == layer[n] by {
        lemma_layer_genes_part(layer, inputs, n);
        lemma_layer_genes_len(layer, inputs);
        lemma_size_step(size, n as nat, layer.len());
        assert(genes.subrange(at + n * size, at + n * size + size) =~= genes.subrange(
            at,
            at + whole,
        ).subrange(n * size, (n + 1) * size));
        lemma_neuron_genes_decode(layer[n], genes, at + n * size);
    }
    assert(decoded =~= layer);
}

/// The genes of a decoded layer are the genes it was decoded from.
proof fn lemma_decoded_layer_genes(inputs: nat, outputs: nat, genes: Seq<Gene>, at: int)
    requires
        0 <= at,
        at + layer_size(inputs, outputs) <= genes.len(),
    ensures
        layer_genes(decode_layer(inputs, outputs, genes, at)) == genes.subrange(
            at,
            at + layer_size(inputs, outputs),
        ),
    decreases outputs,
{
    let size = neuron_size(inputs);
    let decoded = decode_layer(inputs, outputs, genes, at);
    if outputs == 0 {
        assert(layer_size(inputs, 0) == 0) by (nonlinear_arith);
        assert(layer_genes(decoded) =~= genes.subrange(at, at + 0));
    } else {
        let fewer = (outputs - 1) as nat;
        lemma_size_step(size, fewer, outputs);
        lemma_decoded_layer_genes(inputs, fewer, genes, at);
        assert(decoded.drop_last() =~= decode_layer(inputs, fewer, genes, at));
        assert(decoded.last() == decode_neuron(inputs, genes, at + fewer * size));
        lemma_decoded_neuron_genes(inputs, genes, at + fewer * size);
        assert(layer_genes(decoded) =~= genes.subrange(at, at + layer_size(inputs, outputs)));
    }
}

/// The first `layers` layers of a network of a given shape are encoded by as
/// many genes as layers of their sizes take.
proof fn lemma_network_genes_len(network: NetworkModel, sizes: Seq<nat>, layers: int)
    requires
        has_shape(network, sizes),
        0 <= layers <= network.len(),
    ensures
        network_genes(network.take(layers)).len() == genes_before(sizes, layers as nat),
    decreases layers,
{
    let first = network.take(layers);
    if layers > 0 {
        lemma_network_genes_len(network, sizes, layers - 1);
        assert(first.drop_last() =~= network.take(layers - 1));
        assert(first.last() == network[layers - 1]);
        lemma_layer_genes_len(network[layers - 1], sizes[layers - 1]);
    }
}

/// In the encoding of the first `layers` layers of a network, the genes of
/// its layer `l` stand behind those of the `l` layers before it.
proof fn lemma_network_genes_part(network: NetworkModel, sizes: Seq<nat>, layers: int, l: int)
    requires
        has_shape(network, sizes),
        0 <= l < layers <= network.len(),
    ensures
        genes_before(sizes, (l + 1) as nat) <= network_genes(network.take(layers)).len(),
        network_genes(network.take(layers)).subrange(
            genes_before(sizes, l as nat) as int,
            genes_before(sizes, (l + 1) as nat) as int,
        ) == layer_genes(network[l]),
    decreases layers,
{
    let first = network.take(layers);
    let fewer = network.take(layers - 1);
    let from = genes_before(sizes, l as nat) as int;
    let to = genes_before(sizes, (l + 1) as nat) as int;
    lemma_network_genes_len(network, sizes, layers);
    lemma_network_genes_len(network, sizes, layers - 1);
    lemma_genes_before_grows(sizes, (l + 1) as nat, layers as nat);
    assert(first.drop_last() =~= fewer);
    assert(first.last() == network[layers - 1]);
    if l == layers - 1 {
        assert(network_genes(first).subrange(from, to) =~= layer_genes(network[l]));
    } else {
        lemma_network_genes_part(network, sizes, layers - 1, l);
        assert(network_genes(first).subrange(from, to) =~= network_genes(fewer).subrange(
            from,
            to,
        ));
    }
}

/// The genes of the first `layers` layers of a decoded network are the genes
/// they were decoded from.
proof fn lemma_decoded_network_genes(sizes: Seq<nat>, genes: Seq<Gene>, layers: int)
    requires
        sizes.len() >= 2,
        0 <= layers <= sizes.len() - 1,
        genes_before(sizes, layers as nat) <= genes.len(),
    ensures
        network_genes(decode_network(sizes, genes).take(layers)) == genes.subrange(
            0,
            genes_before(sizes, layers as nat) as int,
        ),
    decreases layers,
{
    let decoded = decode_network(sizes, genes);
    let first = decoded.take(layers);
    if layers == 0 {
        assert(network_genes(first) =~= genes.subrange(0, 0));
    } else {
        let from = genes_before(sizes, (layers - 1) as nat) as int;
        lemma_genes_before_grows(sizes, (layers - 1) as nat, layers as nat);
        lemma_decoded_network_genes(sizes, genes, layers - 1);
        assert(first.drop_last() =~= decoded.take(layers - 1));
        assert(first.last() == decode_layer(sizes[layers - 1], sizes[layers], genes, from));
        lemma_decoded_layer_genes(sizes[layers - 1], sizes[layers], genes, from);
        assert(network_genes(first) =~= genes.subrange(
            0,
            genes_before(sizes, layers as nat) as int,
        ));
    }
}

/// Decoding undoes encoding: a network of a given shape is encoded by exactly
/// as many genes as that shape takes, and decoding those genes against the
/// shape gives the network back, neuron for neuron and gene for gene.
pub proof fn lemma_decode_encoded(network: NetworkModel, sizes: Seq<nat>)
    requires
        has_shape(network, sizes),
    ensures
        network_genes(network).len() == weight_count(sizes),
        decode_network(sizes, network_genes(network)) == network,
{
    let genes = network_genes(network);
    let decoded = decode_network(sizes, genes);
    assert(network.take(network.len() as int) =~= network);
    lemma_network_genes_len(network, sizes, network.len() as int);
    assert forall|l: int| 0 <= l < network.len() implies decoded[l] == network[l] by {
        lemma_network_genes_part(network, sizes, network.len() as int, l);
        lemma_genes_before_grows(sizes, l as nat, (l + 1) as nat);
        assert(network[l].len() == sizes[l + 1]);
        lemma_layer_genes_decode(network[l], sizes[l], genes, genes_before(sizes, l as nat) as int);
    }
    assert(decoded =~= network);
}

/// Encoding undoes decoding: what decodes from exactly as many genes as a
/// topology takes has the shape of that topology, and is encoded by those
/// same genes in the same order.
pub proof fn lemma_encode_decoded(sizes: Seq<nat>, genes: Seq<Gene>)
    requires
        sizes.len() >= 2,
        genes.len() == weight_count(sizes),
    ensures
        has_shape(decode_network(sizes, genes), sizes),
        network_genes(decode_network(sizes, genes)) == genes,
{
    let decoded = decode_network(sizes, genes);
    assert forall|l: int| 0 <= l < decoded.len() implies layer_takes(
        #[trigger] decoded[l],
        sizes[l],
    ) by {
        let from = genes_before(sizes, l as nat) as int;
        let size = neuron_size(sizes[l]);
        lemma_genes_before_grows(sizes, (l + 1) as nat, (sizes.len() - 1) as nat);
        assert forall|n: int| 0 <= n < decoded[l].len() implies (#[trigger] decoded[l][n]).weights.len()
            == sizes[l] by {
            lemma_size_step(size, n as nat, sizes[l + 1]);
            assert(decoded[l][n] == decode_neuron(sizes[l], genes, from + n * size));
        }
    }
    lemma_decoded_network_genes(sizes, genes, sizes.len() - 1);
    assert(decoded.take(sizes.len() - 1) =~= decoded);
    assert(genes.subrange(0, genes.len() as int) =~= genes);
}

} // verus!
