use approx::{AbsDiffEq, RelativeEq};
use pole_cart::gene::{clamp, is_non_negative, is_number, is_positive, is_probability, is_zero, relu};
use pole_cart::{
    GeneStream, Layer, Network, NeuronsInLayer, Neuron, RandomSource, Recorder, WeightsError,
};
use rand::seq::SliceRandom;
use rand::{Rng, SeedableRng};
use rand_chacha::ChaCha8Rng;

fn bits(float: f32) -> u32 {
    float.to_bits()
}

fn float(gene: u32) -> f32 {
    f32::from_bits(gene)
}

fn genes(floats: &[f32]) -> Vec<u32> {
    floats.iter().map(|float| float.to_bits()).collect()
}

fn floats(genes: &[u32]) -> Vec<f32> {
    genes.iter().map(|gene| f32::from_bits(*gene)).collect()
}

fn close(actual: &[f32], expected: &[f32]) -> bool {
    actual.relative_eq(expected, f32::default_epsilon(), f32::default_max_relative())
}

fn near(actual: f32, expected: f32) -> bool {
    actual.relative_eq(&expected, f32::default_epsilon(), f32::default_max_relative())
}

fn topology(sizes: &[usize]) -> Vec<NeuronsInLayer> {
    sizes.iter().map(|size| NeuronsInLayer(*size)).collect()
}

struct Source(ChaCha8Rng);

impl Source {
    fn seeded() -> Self {
        Source(ChaCha8Rng::from_seed(Default::default()))
    }
}

impl RandomSource for Source {
    fn coin(&mut self) -> bool {
        self.0.gen_bool(0.5)
    }

    fn happens(&mut self, chance: u32) -> bool {
        self.0.gen_bool(float(chance) as f64)
    }

    fn weight(&mut self) -> u32 {
        bits(self.0.gen_range(-1.0..=1.0))
    }

    fn jitter(&mut self, gene: u32, coefficient: u32, downwards: bool) -> u32 {
        let sign: f32 = if downwards { -1.0 } else { 1.0 };
        bits(float(gene) + sign * float(coefficient) * self.0.gen::<f32>())
    }

    fn weighted_index(&mut self, weights: &Vec<u32>) -> Option<usize> {
        let positions: Vec<usize> = (0..weights.len()).collect();
        positions
            .choose_weighted(&mut self.0, |position| float(weights[*position]))
            .ok()
            .copied()
    }
}

#[test]
fn random_neuron() {
    let mut rng = Recorder::new(Source::seeded());
    let neuron = Neuron::random(&mut rng, 4);

    assert!(near(float(neuron.bias), -0.6255188));
    assert!(close(
        &floats(&neuron.weights),
        [0.67383957, 0.8181262, 0.26284897, 0.5238807].as_ref()
    ));
}

#[test]
fn neuron_successful_from_weights() {
    let mut weights = GeneStream::new(genes(&[0.5_f32, 2.0, 3.0, 4.0, -5.0]));

    let neuron = Neuron::from_weights(4, &mut weights).unwrap();
    assert!(near(float(neuron.bias), 0.5));
    assert!(close(&floats(&neuron.weights), [2.0, 3.0, 4.0, -5.0].as_ref()));
    assert_eq!(weights.next(), None);
}

#[test]
fn no_bias() {
    let mut weights = GeneStream::new(vec![]);
    let decoded = Neuron::from_weights(3, &mut weights);
    assert!(matches!(decoded, Err(WeightsError::NotEnoughWeights)));
}

#[test]
fn no_weights() {
    let mut weights = GeneStream::new(genes(&[1.2_f32, 3.4, 5.6]));
    let decoded = Neuron::from_weights(3, &mut weights);
    assert!(matches!(decoded, Err(WeightsError::NotEnoughWeights)));
}

#[test]
fn neuron_from_weights_reads_only_its_own_genes() {
    let mut weights = GeneStream::new(vec![1, 2, 3, 4, 5, 6, 7]);
    let first = Neuron::from_weights(2, &mut weights).unwrap();
    let second = Neuron::from_weights(2, &mut weights).unwrap();
    assert_eq!((first.bias, first.weights), (1, vec![2, 3]));
    assert_eq!((second.bias, second.weights), (4, vec![5, 6]));
    assert_eq!(weights.next(), Some(7));
    assert_eq!(weights.next(), None);
    assert_eq!(weights.next(), None);
}

#[test]
fn neuron_without_inputs_is_its_bias() {
    let mut weights = GeneStream::new(vec![9]);
    let neuron = Neuron::from_weights(0, &mut weights).unwrap();
    assert_eq!((neuron.bias, neuron.weights.len()), (9, 0));
    let mut written = vec![1];
    neuron.encode(&mut written);
    assert_eq!(written, vec![1, 9]);
}

#[test]
fn random_layer() {
    let mut rng = Recorder::new(Source::seeded());
    let layer = Layer::random(&mut rng, 4, 3);

    assert_eq!(layer.neurons.len(), 3);
    assert_eq!(layer.neurons[0].weights.len(), 4);
    assert_eq!(layer.neurons[1].weights.len(), 4);
    assert_eq!(layer.neurons[2].weights.len(), 4);
}

#[test]
fn random_layer_draws_neuron_after_neuron() {
    let mut rng = Recorder::new(Source::seeded());
    let layer = Layer::random(&mut rng, 4, 2);
    let mut again = Recorder::new(Source::seeded());
    let first = Neuron::random(&mut again, 4);
    let second = Neuron::random(&mut again, 4);
    assert_eq!(layer.neurons[0].bias, first.bias);
    assert_eq!(layer.neurons[0].weights, first.weights);
    assert_eq!(layer.neurons[1].bias, second.bias);
    assert_eq!(layer.neurons[1].weights, second.weights);
}

#[test]
fn layer_successful_from_weights() {
    let mut weights = GeneStream::new(genes(&[0.1_f32, -0.2, 0.3, -0.4, 0.5, 0.3, 0.2, 0.1]));

    let layer = Layer::from_weights(3, 2, &mut weights).unwrap();

    assert_eq!(layer.neurons.len(), 2);
    assert!(near(float(layer.neurons[0].bias), 0.1));
    assert!(near(float(layer.neurons[1].bias), 0.5));
}

#[test]
fn layer_from_weights_needs_every_gene() {
    let mut weights = GeneStream::new(vec![1, 2, 3, 4, 5, 6, 7]);
    let decoded = Layer::from_weights(3, 2, &mut weights);
    assert!(matches!(decoded, Err(WeightsError::NotEnoughWeights)));

    let mut weights = GeneStream::new(vec![1, 2, 3]);
    let layer = Layer::from_weights(3, 0, &mut weights).unwrap();
    assert_eq!(layer.neurons.len(), 0);
    assert_eq!(weights.next(), Some(1));
}

#[test]
fn random_network() {
    let mut rng = Recorder::new(Source::seeded());
    let network = Network::random(&mut rng, &topology(&[5, 4, 3, 2]));

    assert_eq!(network.layers()[0].neurons.len(), 4);
    assert_eq!(network.layers()[1].neurons.len(), 3);
    assert_eq!(network.layers()[2].neurons.len(), 2);

    assert_eq!(network.layers()[0].neurons[0].weights.len(), 5);
    assert_eq!(network.layers()[0].neurons[1].weights.len(), 5);
    assert_eq!(network.layers()[0].neurons[2].weights.len(), 5);
    assert_eq!(network.layers()[0].neurons[3].weights.len(), 5);
}

#[test]
fn random_network_has_the_shape_of_its_topology() {
    let mut rng = Recorder::new(Source::seeded());
    let sizes = [3usize, 1, 4, 2];
    let network = Network::random(&mut rng, &topology(&sizes));
    assert_eq!(network.layers().len(), 3);
    for (at, layer) in network.layers().iter().enumerate() {
        assert_eq!(layer.neurons.len(), sizes[at + 1]);
        for neuron in &layer.neurons {
            assert_eq!(neuron.weights.len(), sizes[at]);
            assert!((-1.0..=1.0).contains(&float(neuron.bias)));
        }
    }
    assert_eq!(network.weights().len(), 1 * 4 + 4 * 2 + 2 * 5);
}

#[test]
fn too_many_weights() {
    let decoded = Network::from_weights(&topology(&[4, 3, 2]), genes(&vec![2.3_f32; 35]));
    assert!(matches!(decoded, Err(WeightsError::TooManyWeights)));
}

#[test]
fn lib_successful_from_weights() {
    let network = Network::from_weights(&topology(&[4, 3, 2]), genes(&vec![2.3_f32; 23])).unwrap();

    assert_eq!(network.layers().len(), 2);
    assert_eq!(network.layers()[0].neurons.len(), 3);
    assert_eq!(network.layers()[1].neurons.len(), 2);
}

#[test]
fn from_weights_counts_the_genes() {
    // 3 * (4 + 1) + 2 * (3 + 1) = 23
    let sizes = topology(&[4, 3, 2]);
    let one_fewer = Network::from_weights(&sizes, vec![7; 22]);
    assert!(matches!(one_fewer, Err(WeightsError::NotEnoughWeights)));
    let one_more = Network::from_weights(&sizes, vec![7; 24]);
    assert!(matches!(one_more, Err(WeightsError::TooManyWeights)));
    let none = Network::from_weights(&sizes, vec![]);
    assert!(matches!(none, Err(WeightsError::NotEnoughWeights)));
    assert!(Network::from_weights(&sizes, vec![7; 23]).is_ok());
}

#[test]
fn from_weights_places_each_gene() {
    let network = Network::from_weights(&topology(&[2, 2, 1]), (1..=9).collect()).unwrap();
    let layers = network.layers();
    assert_eq!(layers.len(), 2);
    assert_eq!((layers[0].neurons[0].bias, &layers[0].neurons[0].weights), (1, &vec![2, 3]));
    assert_eq!((layers[0].neurons[1].bias, &layers[0].neurons[1].weights), (4, &vec![5, 6]));
    assert_eq!((layers[1].neurons[0].bias, &layers[1].neurons[0].weights), (7, &vec![8, 9]));
}

#[test]
fn from_weights_undoes_weights() {
    for sizes in [vec![1usize, 1], vec![4, 8, 1], vec![5, 4, 3, 2], vec![3, 0, 2], vec![0, 2]] {
        let mut rng = Recorder::new(Source::seeded());
        let network = Network::random(&mut rng, &topology(&sizes));
        let weights = network.weights();
        let decoded = Network::from_weights(&topology(&sizes), weights.clone()).unwrap();
        assert_eq!(decoded.weights(), weights);
        assert_eq!(decoded.layers().len(), network.layers().len());
        for (left, right) in decoded.layers().iter().zip(network.layers()) {
            assert_eq!(left.neurons.len(), right.neurons.len());
            for (left, right) in left.neurons.iter().zip(&right.neurons) {
                assert_eq!(left.bias, right.bias);
                assert_eq!(left.weights, right.weights);
            }
        }
    }
}

fn samples() -> Vec<f32> {
    let mut samples = vec![
        0.0,
        -0.0,
        f32::MIN_POSITIVE,
        -f32::MIN_POSITIVE,
        f32::from_bits(1),
        f32::from_bits(0x8000_0001),
        0.5,
        -0.5,
        0.85,
        1.0,
        -1.0,
        2.9999998,
        3.0,
        3.0000002,
        -2.9999998,
        -3.0,
        -3.0000002,
        f32::MAX,
        f32::MIN,
        f32::INFINITY,
        f32::NEG_INFINITY,
        f32::NAN,
        -f32::NAN,
        f32::from_bits(0x7F80_0001),
        f32::from_bits(0xFFFF_FFFF),
    ];
    let mut rng = ChaCha8Rng::from_seed(Default::default());
    for _ in 0..2000 {
        samples.push(f32::from_bits(rng.gen::<u32>()));
        samples.push(rng.gen_range(-10.0..10.0));
    }
    samples
}

#[test]
fn relu_is_the_greater_of_a_number_and_zero() {
    for sample in samples() {
        let expected = sample.max(0.0);
        let actual = float(relu(bits(sample)));
        if expected == 0.0 {
            assert_eq!(bits(actual), bits(0.0));
        } else {
            assert_eq!(bits(actual), bits(expected));
        }
    }
}

#[test]
fn clamp_keeps_a_number_within_the_bound() {
    for bound in [3.0_f32, 0.5, f32::MIN_POSITIVE, f32::MAX, f32::INFINITY] {
        for sample in samples() {
            let expected = sample.min(bound).max(-bound);
            let actual = float(clamp(bits(sample), bits(bound)));
            assert_eq!(bits(actual), bits(expected));
            assert!(-bound <= actual && actual <= bound);
        }
    }
    assert_eq!(float(clamp(bits(7.5), bits(3.0))), 3.0);
    assert_eq!(float(clamp(bits(-7.5), bits(3.0))), -3.0);
    assert_eq!(float(clamp(bits(1.25), bits(3.0))), 1.25);
    assert_eq!(float(clamp(bits(f32::NAN), bits(3.0))), 3.0);
}

#[test]
fn encodings_are_told_apart() {
    for sample in samples() {
        let gene = bits(sample);
        assert_eq!(is_number(gene), !sample.is_nan());
        assert_eq!(is_zero(gene), sample == 0.0);
        assert_eq!(is_non_negative(gene), sample >= 0.0);
        assert_eq!(is_positive(gene), sample > 0.0);
        assert_eq!(is_probability(gene), (0.0..=1.0).contains(&sample));
    }
}

#[test]
fn weights_error_says_what_went_wrong() {
    assert_eq!(WeightsError::NotEnoughWeights.message(), "got not enough weights");
    assert_eq!(WeightsError::TooManyWeights.message(), "got too many weights");
}

#[test]
fn network_accepts_what_its_first_layer_takes() {
    let network = Network::from_weights(&topology(&[3, 2, 1]), vec![0; 11]).unwrap();
    assert!(network.accepts(3));
    assert!(!network.accepts(2));
    assert!(!network.accepts(4));

    let crooked = Network::new(vec![
        Layer {
            neurons: vec![Neuron { bias: 0, weights: vec![0, 0] }],
        },
        Layer {
            neurons: vec![Neuron { bias: 0, weights: vec![0, 0] }],
        },
    ]);
    assert!(!crooked.accepts(2));
    assert!(Network::new(vec![]).accepts(5));

    let layer = Layer {
        neurons: vec![
            Neuron { bias: 0, weights: vec![0, 0] },
            Neuron { bias: 0, weights: vec![0] },
        ],
    };
    assert!(!layer.takes(2));
    assert!(!layer.takes(1));
}
