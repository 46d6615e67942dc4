//! Simulation core of an arcade space game: a ship, its lasers and a field of
//! breakable asteroids in a wrap-around arena.
//!
//! Every quantity is a fixed-point integer, so that a tick is exact, total and
//! the same on every machine.

pub mod angle;
pub mod arena;
pub mod asteroid;
pub mod config;
pub mod cue;
pub mod fixed;
pub mod laser;
pub mod particle;
pub mod player;
pub mod random;
pub mod shape;
pub mod size;
pub mod state;
pub mod sweep;
pub mod vector;
