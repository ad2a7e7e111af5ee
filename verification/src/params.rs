//! Physical constants of the simulation, as fixed-point scalars
//! (see [`crate::fx::FX_SCALE`]).

use vstd::prelude::*;

verus! {

/// Gravitational acceleration, 15 units/s²; also the rate of the extra
/// downward velocity bleed applied while a controlled body is grounded.
pub const GRAVITY: i64 = 54000;

/// Vertical velocity gained by a jump, 10 units/s.
pub const JUMP_SPEED: i64 = 36000;

/// Horizontal velocity gained by a wall kick, 10 units/s.
pub const JUMP_KICK: i64 = 36000;

/// Margin by which the contact refresh inflates the other box, 0.01 units.
pub const CONTACT_MARGIN: i64 = 36;

/// Default top speed of the player relative to its surface, 10 units/s.
pub const PLAYER_TOP_SPEED: i64 = 36000;

/// Default acceleration of the player, 60 units/s².
pub const PLAYER_ACCELERATION: i64 = 216000;

} // verus!
