//! The rules of a small arcade round: a player sprite catches traffic cones
//! that appear on a timer, and a score and a high score are kept.
//!
//! The library holds no window, no sound and no clock. Once per frame the
//! host hands [`round::game_logic`] what it has observed (elapsed time, keyboard,
//! window, collisions) and receives the list of [`command::Command`]s to
//! carry out.
//!
//! Lengths are whole numbers of nano-units: 1_000_000_000 of them make one
//! world unit, so a speed of 100 units per second is 100 nano-units per
//! nanosecond and every distance the rules compute is exact.

pub mod command;
pub mod input;
pub mod laws;
pub mod round;
pub mod spawn;
pub mod text;
pub mod timer;
