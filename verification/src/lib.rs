//! Simulation core of a fish-feeding game: pellets dropped by the player fall
//! through the playfield, fish roam a horizontal band, speed up near a pellet
//! and stop to eat on contact, and plants sway on a slow cycle.
//!
//! Positions are whole numbers of sub-units ([`geometry::UNIT`] to one
//! playfield unit) and time is counted in nanoseconds, so every step is exact.

pub mod fish;
pub mod geometry;
pub mod pellet;
pub mod player;
pub mod prop;
pub mod rules;
pub mod timer;
pub mod world;
