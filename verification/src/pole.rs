use vstd::prelude::*;

use crate::gene::{rank, spec_is_number, Gene, INFINITY, NEGATIVE_INFINITY, NEGATIVE_ZERO, ZERO};

verus! {

/// The encoding of the single-precision number nearest to a half turn, in
/// radians.
pub const PI: Gene = 0x4049_0FDB;

/// A cart with a pole hinged on it: where the cart is and how fast it moves,
/// and the angle of the pole and how fast it turns.
#[derive(Clone, Copy, Debug)]
pub struct State {
    pub cart_position: Gene,
    pub cart_velocity: Gene,
    pub pole_angle: Gene,
    pub pole_angular_velocity: Gene,
}

impl Default for State {
    /// At the origin and at rest, the pole upright and still.
    fn default() -> (state: Self)
        ensures
            state == (State {
                cart_position: ZERO,
                cart_velocity: ZERO,
                pole_angle: ZERO,
                pole_angular_velocity: ZERO,
            }),
    {
        State {
            cart_position: ZERO,
            cart_velocity: ZERO,
            pole_angle: ZERO,
            pole_angular_velocity: ZERO,
        }
    }
}

/// What brings an angle back to between a half turn backwards (included) and
/// a half turn forwards (excluded).
#[derive(Clone, Copy, Debug, PartialEq, Eq, Structural)]
pub enum Turn {
    /// The angle is below a half turn backwards: a full turn is to be added.
    Forwards,
    /// The angle is a half turn forwards or more: a full turn is to be taken
    /// away.
    Backwards,
    /// The angle is in between, or not a number: it stays.
    Stay,
}

/// The angle that `angle` encodes is below a half turn backwards.
pub open spec fn below_half_turn(angle: Gene) -> bool {
    spec_is_number(angle) && rank(angle) < -rank(PI)
}

/// The angle that `angle` encodes is a half turn forwards or more.
pub open spec fn beyond_half_turn(angle: Gene) -> bool {
    spec_is_number(angle) && rank(angle) >= rank(PI)
}

impl State {
    /// What brings the angle of the pole back within a half turn of upright.
    pub fn turn(&self) -> (turn: Turn)
        ensures
            turn == Turn::Forwards <==> below_half_turn(self.pole_angle),
            turn == Turn::Backwards <==> beyond_half_turn(self.pole_angle),
    {
        let angle: Gene = self.pole_angle;
        if NEGATIVE_ZERO + PI < angle && angle <= NEGATIVE_INFINITY {
            Turn::Forwards
        } else if PI <= angle && angle <= INFINITY {
            Turn::Backwards
        } else {
            Turn::Stay
        }
    }
}

} // verus!
