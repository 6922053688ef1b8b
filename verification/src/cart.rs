use vstd::prelude::*;

use crate::chromosome::Chromosome;
use crate::encoding::lemma_decode_encoded;
use crate::gene::{
    clamp, clamped, rank, spec_is_non_negative, spec_is_number, Gene, INFINITY, ZERO,
};
use crate::individual::Individual;
use crate::layer::layer_size;
use crate::network::{
    decode_network, feeds, genes_before, has_shape, layer_sizes, lemma_shape_feeds, network_genes,
    weight_count, Network, NetworkModel, NeuronsInLayer,
};
use crate::neuron::WeightsError;
use crate::random::{weights_drawn, RandomSource, Recorder};

verus! {

/// The sizes of the network that drives a cart. Its four inputs are the three
/// numbers of the cart's state and the height it is to reach; its one output
/// is the acceleration it asks for.
pub open spec fn cart_sizes() -> Seq<nat> {
    seq![4, 8, 1]
}

/// The number of genes that encode the network of a cart.
pub const CART_GENES: usize = 49;

/// A network of the sizes of a cart's takes `CART_GENES` genes.
pub proof fn lemma_cart_genes()
    ensures
        weight_count(cart_sizes()) == CART_GENES,
{
    let sizes = cart_sizes();
    assert(sizes[0] == 4 && sizes[1] == 8 && sizes[2] == 1);
    assert(layer_size(4, 8) == 40) by (nonlinear_arith);
    assert(layer_size(8, 1) == 9) by (nonlinear_arith);
    assert(genes_before(sizes, 0) == 0);
    assert(genes_before(sizes, 1) == genes_before(sizes, 0) + layer_size(sizes[0], sizes[1]));
    assert(genes_before(sizes, 2) == genes_before(sizes, 1) + layer_size(sizes[1], sizes[2]));
}

/// The topology of the network that drives a cart.
pub fn topology() -> (topology: Vec<NeuronsInLayer>)
    ensures
        layer_sizes(topology@) == cart_sizes(),
{
    let topology: Vec<NeuronsInLayer> = vec![NeuronsInLayer(4), NeuronsInLayer(8), NeuronsInLayer(1)];
    assert(layer_sizes(topology@) =~= cart_sizes());
    topology
}

/// The greatest acceleration that the engine of a cart may ask for, in either
/// direction: the encoding of `3.0`.
pub const ACC_MAX: Gene = 0x4040_0000;

/// The acceleration that a cart is given where its engine asks for `asked`:
/// what is asked for, kept within `ACC_MAX` of zero.
pub fn limit_acceleration(asked: Gene) -> (given: Gene)
    ensures
        given == clamped(asked, ACC_MAX),
        spec_is_number(given),
        -rank(ACC_MAX) <= rank(given) <= rank(ACC_MAX),
{
    clamp(asked, ACC_MAX)
}

/// Where a cart is on the curve and how fast it moves along the ground.
#[derive(Clone, Copy, Debug)]
pub struct State {
    pub pos_x: Gene,
    pub pos_y: Gene,
    pub vel_x: Gene,
}

impl Default for State {
    /// At the origin and at rest.
    fn default() -> (state: Self)
        ensures
            state == (State { pos_x: ZERO, pos_y: ZERO, vel_x: ZERO }),
    {
        State { pos_x: ZERO, pos_y: ZERO, vel_x: ZERO }
    }
}

/// The greater of a height reached so far and a height reached now. What is
/// not a number never counts as reached.
pub open spec fn higher(so_far: Gene, height: Gene) -> Gene {
    if spec_is_number(height) && rank(height) > rank(so_far) {
        height
    } else {
        so_far
    }
}

/// A cart on a curve, driven by a network, with the greatest height it has
/// reached: its fitness.
pub struct Cart {
    engine: Network,
    state: State,
    max_height_reached: Gene,
}

impl Cart {
    /// The network that drives the cart.
    pub closed spec fn engine(&self) -> NetworkModel {
        self.engine@
    }

    /// Where the cart is.
    pub closed spec fn state(&self) -> State {
        self.state
    }

    /// The greatest height the cart has reached so far.
    pub closed spec fn max_height_reached(&self) -> Gene {
        self.max_height_reached
    }

    /// The engine has the sizes of a cart's network, and the greatest height
    /// is a number that is not negative.
    #[verifier::type_invariant]
    pub open spec fn well_formed(&self) -> bool {
        &&& has_shape(self.engine(), cart_sizes())
        &&& self.max_height_reached() <= INFINITY
    }

    /// A cart at the origin and at rest that has reached no height yet, with
    /// an engine drawn from `rng`: the genes that encode it are what was
    /// drawn, in the order of the draws.
    pub fn random<R: RandomSource>(rng: &mut Recorder<R>) -> (cart: Self)
        ensures
            has_shape(cart.engine(), cart_sizes()),
            final(rng).drawn() == old(rng).drawn() + weights_drawn(network_genes(cart.engine())),
            cart.state() == (State { pos_x: ZERO, pos_y: ZERO, vel_x: ZERO }),
            cart.max_height_reached() == ZERO,
    {
        let topology: Vec<NeuronsInLayer> = topology();
        let engine: Network = Network::random(rng, topology.as_slice());
        Cart { engine, state: State::default(), max_height_reached: ZERO }
    }

    /// The network that drives the cart.
    pub fn network(&self) -> (engine: &Network)
        ensures
            engine@ == self.engine(),
            has_shape(engine@, cart_sizes()),
            feeds(engine@, 4),
    {
        proof {
            use_type_invariant(self);
            lemma_shape_feeds(self.engine(), cart_sizes());
        }
        &self.engine
    }

    /// Where the cart is.
    pub fn position(&self) -> (state: State)
        ensures
            state == self.state(),
    {
        self.state
    }

    /// The greatest height the cart has reached so far: its fitness.
    pub fn height_reached(&self) -> (height: Gene)
        ensures
            height == self.max_height_reached(),
            height <= INFINITY,
    {
        proof {
            use_type_invariant(self);
        }
        self.max_height_reached
    }

    /// What the engine is fed: where the cart is, how fast it moves, and the
    /// height it is to reach.
    pub fn inputs(&self, height_goal: Gene) -> (inputs: Vec<Gene>)
        ensures
            inputs@ == seq![
                self.state().pos_x,
                self.state().pos_y,
                self.state().vel_x,
                height_goal,
            ],
    {
        vec![self.state.pos_x, self.state.pos_y, self.state.vel_x, height_goal]
    }

    /// Moves the cart to `state`, the outcome of one step of its dynamics,
    /// and counts the height it has there. The greatest height reached never
    /// decreases.
    pub fn advance(&mut self, state: State)
        ensures
            final(self).engine() == old(self).engine(),
            final(self).state() == state,
            final(self).max_height_reached() == higher(old(self).max_height_reached(), state.pos_y),
            rank(final(self).max_height_reached()) >= rank(old(self).max_height_reached()),
    {
        proof {
            use_type_invariant(&*self);
        }
        self.state = state;
        if self.max_height_reached < state.pos_y && state.pos_y <= INFINITY {
            self.max_height_reached = state.pos_y;
        }
    }
}

/// A cart as the genetic search sees it: the fitness it reached and the genes
/// of its engine.
pub struct CartIndividual {
    fitness: Gene,
    chromosome: Chromosome,
}

impl CartIndividual {
    /// The individual that stands for `cart`: its fitness is the greatest
    /// height the cart has reached, its genes encode the cart's engine.
    pub fn from_cart(cart: &Cart) -> (individual: Self)
        ensures
            individual.score() == cart.max_height_reached(),
            spec_is_non_negative(individual.score()),
            individual.genome() == network_genes(cart.engine()),
            individual.genome().len() == CART_GENES,
            decode_network(cart_sizes(), individual.genome()) == cart.engine(),
    {
        proof {
            use_type_invariant(cart);
            lemma_decode_encoded(cart.engine(), cart_sizes());
            lemma_cart_genes();
        }
        CartIndividual {
            fitness: cart.max_height_reached,
            chromosome: Chromosome::from_iter(cart.engine.weights()),
        }
    }

    /// The cart that the genes of the individual encode, at the origin and at
    /// rest, with no height reached yet. There is such a cart where the
    /// genes are exactly as many as its engine takes.
    pub fn into_cart(self) -> (cart: Result<Cart, WeightsError>)
        ensures
            match cart {
                Ok(cart) => {
                    &&& self.genome().len() == CART_GENES
                    &&& cart.engine() == decode_network(cart_sizes(), self.genome())
                    &&& cart.state() == (State { pos_x: ZERO, pos_y: ZERO, vel_x: ZERO })
                    &&& cart.max_height_reached() == ZERO
                },
                Err(WeightsError::NotEnoughWeights) => self.genome().len() < CART_GENES,
                Err(WeightsError::TooManyWeights) => self.genome().len() > CART_GENES,
            },
    {
        proof {
            lemma_cart_genes();
        }
        let topology: Vec<NeuronsInLayer> = topology();
        match Network::from_weights(topology.as_slice(), self.chromosome.into_iter()) {
            Ok(engine) => Ok(Cart { engine, state: State::default(), max_height_reached: ZERO }),
            Err(error) => Err(error),
        }
    }
}

impl Individual for CartIndividual {
    closed spec fn score(&self) -> Gene {
        self.fitness
    }

    closed spec fn genome(&self) -> Seq<Gene> {
        self.chromosome@
    }

    fn fitness(&self) -> (fitness: Gene) {
        self.fitness
    }

    fn chromosome(&self) -> (chromosome: &Chromosome) {
        &self.chromosome
    }

    /// The new individual has the fitness zero.
    fn create(chromosome: Chromosome) -> (made: Self)
        ensures
            made.score() == ZERO,
    {
        CartIndividual { fitness: ZERO, chromosome }
    }
}

} // verus!
