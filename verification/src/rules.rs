//! The numbers that govern a session: the playfield's bounds, the speeds,
//! the radii and the durations.

use vstd::prelude::*;
use crate::geometry::COORD_MAX;

verus! {

/// Largest distance that anything may travel in one step.
pub const SPEED_MAX: i64 = 1_000_000_000;

/// The parameters of the simulation. Lengths are in sub-units, speeds in
/// sub-units per step, durations in nanoseconds.
#[derive(Clone, Copy, Debug, PartialEq, Eq)]
pub struct Rules {
    /// Left bound of the band that fish roam: a fish that has moved to the left of
    /// it turns round.
    pub left: i64,
    /// Right bound of that band, and of the player's reach.
    pub right: i64,
    /// Pellets below this height leave the playfield.
    pub floor: i64,
    pub slow_speed: i64,
    pub fast_speed: i64,
    pub fall_speed: i64,
    /// A pellet closer than this to a fish is eaten.
    pub hit_radius: i64,
    /// A pellet closer than this to a fish makes it hurry.
    pub alert_radius: i64,
    /// How long a fish stays with its meal.
    pub eating_time: u64,
    /// How long the player waits between two pellets.
    pub spawn_cooldown: u64,
    /// How long a plant shows one frame.
    pub prop_period: u64,
}

impl Rules {
    /// The bounds lie within the coordinate range and no speed is negative or
    /// above `SPEED_MAX`.
    pub open spec fn wf(self) -> bool {
        &&& -COORD_MAX <= self.left <= COORD_MAX
        &&& -COORD_MAX <= self.right <= COORD_MAX
        &&& -COORD_MAX <= self.floor <= COORD_MAX
        &&& 0 <= self.slow_speed <= SPEED_MAX
        &&& 0 <= self.fast_speed <= SPEED_MAX
        &&& 0 <= self.fall_speed <= SPEED_MAX
    }

    /// The rules of the standard playfield: a band of 384 units above a floor at
    /// height 0, fish at 1 or 3 units a step, pellets falling 1 unit a step, hit
    /// within 16 units and alert within 32, meals of 5 s, a pellet a second, and
    /// plants that change frame every half second.
    pub open spec fn standard_rules() -> Rules {
        Rules {
            left: 0,
            right: 384_000,
            floor: 0,
            slow_speed: 1_000,
            fast_speed: 3_000,
            fall_speed: 1_000,
            hit_radius: 16_000,
            alert_radius: 32_000,
            eating_time: 5_000_000_000,
            spawn_cooldown: 1_000_000_000,
            prop_period: 500_000_000,
        }
    }

    pub fn standard() -> (rules: Rules)
        ensures
            rules == Rules::standard_rules(),
            rules.wf(),
    {
        Rules {
            left: 0,
            right: 384_000,
            floor: 0,
            slow_speed: 1_000,
            fast_speed: 3_000,
            fall_speed: 1_000,
            hit_radius: 16_000,
            alert_radius: 32_000,
            eating_time: 5_000_000_000,
            spawn_cooldown: 1_000_000_000,
            prop_period: 500_000_000,
        }
    }

    /// Whether these rules are well-formed.
    pub fn is_valid(&self) -> (ok: bool)
        ensures
            ok == self.wf(),
    {
        -COORD_MAX <= self.left && self.left <= COORD_MAX
            && -COORD_MAX <= self.right && self.right <= COORD_MAX
            && -COORD_MAX <= self.floor && self.floor <= COORD_MAX
            && 0 <= self.slow_speed && self.slow_speed <= SPEED_MAX
            && 0 <= self.fast_speed && self.fast_speed <= SPEED_MAX
            && 0 <= self.fall_speed && self.fall_speed <= SPEED_MAX
    }
}

} // verus!
