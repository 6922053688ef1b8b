use approx::{AbsDiffEq, RelativeEq};
use pole_cart::cart::{limit_acceleration, State, ACC_MAX, CART_GENES};
use pole_cart::pole::{Turn, PI};
use pole_cart::{
    Cart, CartIndividual, Chromosome, GaussianMutation, GeneticAlgorithm, Individual,
    RandomSource, Recorder, RouletteWheelSelection, Simulation, UniformCrossover, WeightsError,
};
use rand::seq::SliceRandom;
use rand::{Rng, SeedableRng};
use rand_chacha::ChaCha8Rng;
use std::f32::consts;

fn bits(float: f32) -> u32 {
    float.to_bits()
}

fn float(gene: u32) -> f32 {
    f32::from_bits(gene)
}

fn floats(genes: &[u32]) -> Vec<f32> {
    genes.iter().map(|gene| f32::from_bits(*gene)).collect()
}

fn close(actual: &[f32], expected: &[f32]) -> bool {
    actual.relative_eq(expected, f32::default_epsilon(), f32::default_max_relative())
}

fn near(actual: f32, expected: f32) -> bool {
    actual.relative_eq(&expected, f32::default_epsilon(), f32::default_max_relative())
}

fn at_height(height: f32) -> State {
    State {
        pos_x: bits(height.sqrt()),
        pos_y: bits(height),
        vel_x: bits(0.0),
    }
}

struct Source(ChaCha8Rng);

impl Source {
    fn seeded() -> Self {
        Source(ChaCha8Rng::from_seed(Default::default()))
    }
}

impl RandomSource for Source {
    fn coin(&mut self) -> bool {
        self.0.gen_bool(0.5)
    }

    fn happens(&mut self, chance: u32) -> bool {
        self.0.gen_bool(float(chance) as f64)
    }

    fn weight(&mut self) -> u32 {
        bits(self.0.gen_range(-1.0..=1.0))
    }

    fn jitter(&mut self, gene: u32, coefficient: u32, downwards: bool) -> u32 {
        let sign: f32 = if downwards { -1.0 } else { 1.0 };
        bits(float(gene) + sign * float(coefficient) * self.0.gen::<f32>())
    }

    fn weighted_index(&mut self, weights: &Vec<u32>) -> Option<usize> {
        let positions: Vec<usize> = (0..weights.len()).collect();
        positions
            .choose_weighted(&mut self.0, |position| float(weights[*position]))
            .ok()
            .copied()
    }
}

#[test]
fn convert_carts() {
    let mut rng = Recorder::new(Source::seeded());
    let mut cart = Cart::random(&mut rng);

    cart.advance(at_height(2.0));

    let cart_individual = CartIndividual::from_cart(&cart);
    assert!(near(float(cart_individual.fitness()), 2.0));
    let original_weights = floats(&cart.network().weights());
    let expected_weights = floats(cart_individual.chromosome().iter());
    assert!(close(original_weights.as_slice(), expected_weights.as_slice()));
}

#[test]
fn random_cart_is_at_rest() {
    let mut rng = Recorder::new(Source::seeded());
    let cart = Cart::random(&mut rng);
    let state = cart.position();
    assert_eq!((state.pos_x, state.pos_y, state.vel_x), (0, 0, 0));
    assert_eq!(cart.height_reached(), 0);
    assert_eq!(cart.network().layers().len(), 2);
    assert_eq!(cart.network().layers()[0].neurons.len(), 8);
    assert_eq!(cart.network().layers()[0].neurons[0].weights.len(), 4);
    assert_eq!(cart.network().layers()[1].neurons.len(), 1);
    assert_eq!(cart.network().layers()[1].neurons[0].weights.len(), 8);
    assert_eq!(cart.network().weights().len(), 49);
}

#[test]
fn greatest_height_never_decreases() {
    let mut rng = Recorder::new(Source::seeded());
    let mut cart = Cart::random(&mut rng);
    let heights = [0.25f32, 0.0, 1.5, 1.25, f32::NAN, -3.0, -0.0, 1.5, f32::INFINITY, 2.0];
    let expected = [0.25f32, 0.25, 1.5, 1.5, 1.5, 1.5, 1.5, 1.5, f32::INFINITY, f32::INFINITY];
    for (height, expected) in heights.iter().zip(expected) {
        let state = State {
            pos_x: bits(1.0),
            pos_y: bits(*height),
            vel_x: bits(-2.0),
        };
        cart.advance(state);
        assert_eq!(cart.height_reached(), bits(expected));
        assert_eq!(cart.height_reached(), bits(expected.max(*height)));
        assert_eq!(cart.position().pos_y, bits(*height));
        assert_eq!(cart.position().pos_x, bits(1.0));
        assert_eq!(cart.position().vel_x, bits(-2.0));
    }
}

#[test]
fn created_individual_has_no_fitness() {
    let individual = CartIndividual::create(Chromosome::from_iter(vec![5; 49]));
    assert_eq!(individual.fitness(), bits(0.0));
    assert_eq!(individual.chromosome().len(), 49);
}

#[test]
fn cart_of_an_individual() {
    let mut rng = Recorder::new(Source::seeded());
    let mut cart = Cart::random(&mut rng);
    cart.advance(at_height(4.0));
    let weights = cart.network().weights();

    let back = CartIndividual::from_cart(&cart).into_cart().unwrap();
    assert_eq!(back.network().weights(), weights);
    assert_eq!(back.height_reached(), 0);
    assert_eq!(back.position().pos_x, 0);
    assert_eq!(back.position().pos_y, 0);
    assert_eq!(back.position().vel_x, 0);

    let short = CartIndividual::create(Chromosome::from_iter(vec![5; 48]));
    assert!(matches!(short.into_cart(), Err(WeightsError::NotEnoughWeights)));
    let long = CartIndividual::create(Chromosome::from_iter(vec![5; 50]));
    assert!(matches!(long.into_cart(), Err(WeightsError::TooManyWeights)));
}

#[test]
fn simulation_breeds_as_many_carts() {
    let mut rng = Recorder::new(Source::seeded());
    let mut carts = Vec::new();
    for member in 0..6 {
        let mut cart = Cart::random(&mut rng);
        cart.advance(at_height(member as f32));
        carts.push(cart);
    }
    let engine = GeneticAlgorithm::new(
        UniformCrossover::new(),
        GaussianMutation::new(bits(0.0), bits(0.5)),
        RouletteWheelSelection::new(),
    );
    let mut simulation = Simulation::new(carts, bits(5.0), engine);
    assert_eq!(simulation.goal(), bits(5.0));
    simulation.advance(0, at_height(9.0));
    assert_eq!(simulation.population()[0].height_reached(), bits(9.0));
    assert_eq!(simulation.population()[1].height_reached(), bits(1.0));

    let before: Vec<Vec<u32>> = simulation
        .population()
        .iter()
        .map(|cart| cart.network().weights())
        .collect();
    simulation.evolve(&mut rng);
    assert_eq!(simulation.population().len(), 6);
    assert_eq!(simulation.goal(), bits(5.0));
    for cart in simulation.population() {
        assert_eq!(cart.height_reached(), 0);
        assert_eq!(cart.position().pos_y, 0);
        let weights = cart.network().weights();
        assert_eq!(weights.len(), 49);
        // without mutation, each gene is the gene of a cart before
        for (position, gene) in weights.iter().enumerate() {
            assert!(before.iter().any(|parent| parent[position] == *gene));
        }
    }
}

#[test]
fn acceleration_is_kept_within_its_maximum() {
    assert_eq!(ACC_MAX, bits(3.0));
    for asked in [0.0_f32, -0.0, 1.5, -1.5, 3.0, -3.0, 3.5, -3.5, 1e30, -1e30] {
        let given = float(limit_acceleration(bits(asked)));
        assert_eq!(bits(given), bits(asked.min(3.0).max(-3.0)));
    }
    assert_eq!(float(limit_acceleration(bits(f32::INFINITY))), 3.0);
    assert_eq!(float(limit_acceleration(bits(f32::NEG_INFINITY))), -3.0);
    assert_eq!(float(limit_acceleration(bits(f32::NAN))), 3.0);
}

#[test]
fn engine_is_fed_the_state_and_the_goal() {
    let mut rng = Recorder::new(Source::seeded());
    let mut cart = Cart::random(&mut rng);
    assert_eq!(cart.inputs(bits(5.0)), vec![0, 0, 0, bits(5.0)]);
    cart.advance(State {
        pos_x: bits(0.5),
        pos_y: bits(0.25),
        vel_x: bits(-1.0),
    });
    assert_eq!(
        floats(&cart.inputs(bits(5.0))),
        vec![0.5, 0.25, -1.0, 5.0]
    );
    assert!(cart.network().accepts(4));
    assert_eq!(CART_GENES, 8 * (4 + 1) + 1 * (8 + 1));
}

#[test]
fn pole_angle_is_brought_back_within_a_half_turn() {
    assert_eq!(PI, bits(consts::PI));
    let rest = pole_cart::State::default();
    assert_eq!(
        (rest.cart_position, rest.cart_velocity, rest.pole_angle, rest.pole_angular_velocity),
        (0, 0, 0, 0)
    );
    assert_eq!(rest.turn(), Turn::Stay);

    let mut angles = vec![
        0.0_f32,
        -0.0,
        1.0,
        -1.0,
        consts::PI,
        -consts::PI,
        f32::from_bits(bits(consts::PI) - 1),
        f32::from_bits(bits(consts::PI) + 1),
        f32::from_bits(bits(-consts::PI) - 1),
        f32::from_bits(bits(-consts::PI) + 1),
        4.0,
        -4.0,
        f32::INFINITY,
        f32::NEG_INFINITY,
        f32::NAN,
        -f32::NAN,
    ];
    let mut rng = ChaCha8Rng::from_seed(Default::default());
    for _ in 0..2000 {
        angles.push(f32::from_bits(rng.gen::<u32>()));
        angles.push(rng.gen_range(-7.0..7.0));
    }
    for angle in angles {
        let state = pole_cart::State {
            pole_angle: bits(angle),
            ..rest
        };
        let expected = if angle < -consts::PI {
            Turn::Forwards
        } else if angle >= consts::PI {
            Turn::Backwards
        } else {
            Turn::Stay
        };
        assert_eq!(state.turn(), expected);
    }
}
