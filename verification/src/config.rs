//! The constants of the game, on the fixed-point scale of `fixed`.

use vstd::prelude::*;
use crate::fixed::ONE;

verus! {

/// The share of its speed that a moving thing loses in one tick.
pub const DRAG: i64 = 150;

/// What is left of a speed after one tick of drag: one less `DRAG`.
pub const KEPT: i64 = ONE - DRAG;

/// The speed, per second, that no new asteroid reaches.
pub const MAX_SPEED: i64 = 200_000_000;

/// The least share of `MAX_SPEED` at which a new asteroid moves.
pub const SPEED_FLOOR: i64 = 250_000;

/// The least share of its radius that a ray of an asteroid's outline has.
pub const OUTLINE_FLOOR: i64 = 350_000;

/// The fewest rays in an asteroid's outline.
pub const MIN_RAYS: i64 = 8;

/// The most rays in an asteroid's outline.
pub const MAX_RAYS: i64 = 13;

/// What the thrust adds to the ship's speed per tick, for each second of the
/// time step.
pub const SPEED: i64 = 412_500;

/// The angle by which the ship turns in one tick.
pub const ROT_SPEED: i64 = 1_500;

/// The size of the ship: its outline is given for a ship of size one.
pub const SHIP_SCALE: i64 = 41_250_000;

/// How far ahead of its centre the ship's nose is: half of `SHIP_SCALE`.
pub const NOSE_OFFSET: i64 = 20_625_000;

/// How far a particle may drift from where its asteroid burst.
pub const MAX_PARTICLE_DIST: i64 = 33_000_000;

/// The speed, per second, that no fragment of the ship reaches.
pub const SEGMENT_SPEED: i64 = 57_750_000;

/// The least share of `SEGMENT_SPEED` at which a fragment flies off.
pub const SEGMENT_FLOOR: i64 = 500_000;

/// The speed, per second, that no particle reaches.
pub const PARTICLE_SPEED: i64 = 57_750_000;

/// The least share of `PARTICLE_SPEED` at which a particle flies off.
pub const PARTICLE_FLOOR: i64 = 350_000;

/// The number of particles that one hit on the smallest asteroid sets free.
pub const PARTICLE_COUNT: usize = 6;

/// The speed of a laser, per second.
pub const LASER_SPEED: i64 = 907_500_000;

/// The time between two shots.
pub const LASER_COOLDOWN: i64 = 300_000;

/// How long the ship's explosion lasts.
pub const EXPLOSION_DURATION: i64 = 2_000_000;

/// The lives of a new game.
pub const MAX_LIVES: u32 = 3;

/// The number of asteroids that the field is filled up to after every tick.
pub const TARGET_POPULATION: usize = 10;

/// The fewest pieces that an asteroid breaks into.
pub const MIN_PIECES: i64 = 2;

/// The most pieces that an asteroid breaks into.
pub const MAX_PIECES: i64 = 3;

} // verus!
