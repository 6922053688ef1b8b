//! Neuroevolution of small feed-forward networks: genomes, the operators that
//! select, recombine and perturb them, the generational step, and the network
//! that a genome encodes.
//!
//! Every number here is a single-precision real, held as the bits of its
//! encoding (see [`gene`]). The library stores such numbers, compares them and
//! moves them about; it does no arithmetic on them. Where an operation needs
//! chance, it draws from a [`RandomSource`] that its caller hands it, through
//! a [`Recorder`]; what it guarantees holds for every outcome of the draws.
//!
//! - [`chromosome`], [`individual`]: genomes and the members of a population.
//! - [`selection`], [`crossover`], [`mutation`], [`genetic_algorithm`]: the
//!   operators and the generational step.
//! - [`neuron`], [`layer`], [`network`], [`stream`]: networks, their encoding
//!   as genes and their decoding; [`encoding`] proves the two inverse to each
//!   other.
//! - [`cart`], [`pole`], [`simulation`]: the carts that the networks drive.
pub mod cart;
pub mod chromosome;
pub mod crossover;
pub mod encoding;
pub mod gene;
pub mod genetic_algorithm;
pub mod individual;
pub mod layer;
pub mod mutation;
pub mod network;
pub mod neuron;
pub mod pole;
pub mod random;
pub mod selection;
pub mod simulation;
pub mod stream;

pub use cart::{Cart, CartIndividual};
pub use chromosome::Chromosome;
pub use crossover::{CrossoverMethod, UniformCrossover};
pub use gene::Gene;
pub use genetic_algorithm::GeneticAlgorithm;
pub use individual::Individual;
pub use layer::Layer;
pub use mutation::{GaussianMutation, MutationMethod};
pub use network::{Network, NeuronsInLayer};
pub use neuron::{Neuron, NeuronModel, WeightsError};
pub use pole::State;
pub use random::{Draw, RandomSource, Recorder};
pub use selection::{RouletteWheelSelection, SelectionMethod};
pub use simulation::Simulation;
pub use stream::GeneStream;
