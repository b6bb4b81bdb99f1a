//! Where new cones appear.

use rand::Rng;
use vstd::prelude::*;

verus! {

/// The number of nano-units in one world unit.
pub const NANO_UNITS_PER_UNIT: i64 = 1_000_000_000;

/// Half the width of the play field, in nano-units: 550 world units.
pub const PLAY_FIELD_HALF_WIDTH: i64 = 550_000_000_000;

/// Half the height of the play field, in nano-units: 325 world units.
pub const PLAY_FIELD_HALF_HEIGHT: i64 = 325_000_000_000;

/// A point of the world, in nano-units from its centre.
#[derive(Clone, Copy, Debug, PartialEq, Eq, Structural)]
pub struct Position {
    pub x: i64,
    pub y: i64,
}

impl Position {
    /// Whether the point lies within the play field, borders included.
    pub open spec fn in_play_field(self) -> bool {
        &&& -PLAY_FIELD_HALF_WIDTH <= self.x <= PLAY_FIELD_HALF_WIDTH
        &&& -PLAY_FIELD_HALF_HEIGHT <= self.y <= PLAY_FIELD_HALF_HEIGHT
    }
}

/// Draws a number from `low` up to, but not including, `high`.
///
/// Trusted: the body calls `rand::Rng::gen_range` on the generator that
/// `rand::thread_rng` returns, with the half-open range `low..high`. The
/// contract claims only that the number drawn lies in that range, which holds
/// of every draw; `gen_range` panics on an empty range, which `requires`
/// leaves out. Nothing is claimed of how the draws are distributed.
#[verifier::external_body]
fn random_in_range(low: i64, high: i64) -> (drawn: i64)
    requires
        low < high,
    ensures
        low <= drawn < high,
{
    rand::thread_rng().gen_range(low..high)
}

/// Draws the place of a new cone, anywhere in the play field.
pub fn random_spawn_position() -> (at: Position)
    ensures
        at.in_play_field(),
        at.x < PLAY_FIELD_HALF_WIDTH,
        at.y < PLAY_FIELD_HALF_HEIGHT,
{
    let x = random_in_range(-PLAY_FIELD_HALF_WIDTH, PLAY_FIELD_HALF_WIDTH);
    let y = random_in_range(-PLAY_FIELD_HALF_HEIGHT, PLAY_FIELD_HALF_HEIGHT);
    Position { x, y }
}

} // verus!
