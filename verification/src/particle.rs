//! The sparks that the smallest asteroid bursts into.

use vstd::prelude::*;
use crate::angle::FULL_TURN;
use crate::config::{KEPT, MAX_PARTICLE_DIST, PARTICLE_FLOOR, PARTICLE_SPEED};
use crate::fixed::{spec_times, times, Fixed, ONE};
use crate::vector::Vec2;

verus! {

/// A spark. The asteroid that burst owns it, and it goes when the asteroid goes.
#[derive(Clone, Copy, Debug, PartialEq, Eq, Structural)]
pub struct Particle {
    pub pos: Vec2,
    /// The unit vector along which it flies.
    pub dir: Vec2,
    /// Its speed, per second.
    pub speed: Fixed,
    /// Its age; a spark does not age while it flies.
    pub lifetime: Fixed,
}

impl Particle {
    /// The spark that starts at `origin`, flies at the angle `theta` and has the
    /// share `pace` of the greatest speed.
    pub open spec fn spec_spawn(origin: Vec2, theta: Fixed, pace: Fixed) -> Particle {
        Particle {
            pos: origin,
            dir: Vec2::spec_from_angle(theta),
            speed: spec_times(PARTICLE_SPEED as int, pace as int) as i64,
            lifetime: 0,
        }
    }

    /// The spark one tick of length `dt` later: drag takes its share of the
    /// speed first, then the spark moves at what is left.
    pub open spec fn spec_drifted(self, dt: Fixed) -> Particle {
        let speed = spec_times(self.speed as int, KEPT as int) as i64;
        Particle {
            speed,
            pos: self.pos.spec_plus(self.dir.spec_scaled(speed).spec_scaled(dt)),
            ..self
        }
    }

    /// Whether the spark is further from `origin` than a spark may drift.
    pub open spec fn spec_scattered(self, origin: Vec2) -> bool {
        !self.pos.spec_within(origin, MAX_PARTICLE_DIST)
    }

    /// A new spark at `origin` for the angle and the share of speed drawn.
    pub fn spawn(origin: Vec2, theta: Fixed, pace: Fixed) -> (p: Particle)
        ensures
            p == Particle::spec_spawn(origin, theta, pace),
    {
        Particle {
            pos: origin,
            dir: Vec2::from_angle(theta),
            speed: times(PARTICLE_SPEED, pace),
            lifetime: 0,
        }
    }

    /// The spark one tick of length `dt` later.
    pub fn drifted(self, dt: Fixed) -> (p: Particle)
        ensures
            p == self.spec_drifted(dt),
    {
        let speed: Fixed = times(self.speed, KEPT);
        Particle {
            pos: self.pos.plus(self.dir.scaled(speed).scaled(dt)),
            dir: self.dir,
            speed,
            lifetime: self.lifetime,
        }
    }

    /// Whether the spark is further from `origin` than a spark may drift.
    pub fn scattered(&self, origin: Vec2) -> (b: bool)
        ensures
            b == self.spec_scattered(origin),
    {
        !self.pos.within(origin, MAX_PARTICLE_DIST)
    }
}

/// Whether `p` is a spark as a burst at `origin` sets it free: at the origin,
/// at some angle, and with a share of the greatest speed that is not below the
/// floor.
pub open spec fn fresh_particle(p: Particle, origin: Vec2) -> bool {
    exists|theta: Fixed, pace: Fixed|
        0 <= theta < FULL_TURN && PARTICLE_FLOOR <= pace < ONE && p == #[trigger] Particle::spec_spawn(
            origin,
            theta,
            pace,
        )
}

} // verus!
