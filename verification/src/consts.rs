use vstd::prelude::*;

verus! {

// All lengths in this crate are in tenths of a display pixel, so that every
// physics constant (in particular the acceleration, 0.1 px per tick squared)
// is an integer.

/// Side length of the square play area.
pub const SCREEN_SIZE: i64 = 7000;

/// Half the side length; the play area spans [-SCREEN_HALF, SCREEN_HALF]
/// on both axes.
pub const SCREEN_HALF: i64 = 3500;

/// Radius of a falling pie.
pub const PIE_RADIUS: i64 = 500;

/// Per-tick decrease of a pie's vertical velocity (constant downward
/// acceleration).
pub const PIE_ACCEL: i64 = 1;

/// A new pie is spawned on every tick whose counter is a multiple of this.
pub const PIE_SPAWN_RATE: u64 = 45;

/// Width of the plate.
pub const PLATE_W: i64 = 1000;

/// Height of the plate.
pub const PLATE_H: i64 = 200;

/// Vertical centre of the plate, fixed near the bottom edge: the plate's
/// bottom side rests on the bottom of the play area, so its centre sits half
/// of PLATE_H above it.
pub const PLATE_Y: i64 = -SCREEN_HALF + 100;

/// How many reference digits one request to the digit source asks for.
pub const DIGITS_LOADED_AT_ONCE: usize = 100;

/// Bound on every coordinate handed in from outside (the pointer position),
/// generous enough for any screen and small enough that the squared
/// distances of the collision test fit in an i64.
pub const COORD_LIMIT: i64 = 1_000_000_000;

} // verus!
