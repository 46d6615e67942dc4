//! The ship's projectiles.

use vstd::prelude::*;
use crate::arena::spec_in_bounds;
use crate::config::LASER_SPEED;
use crate::fixed::Fixed;
use crate::vector::Vec2;

verus! {

/// A projectile. The ship owns it; an asteroid that it reaches marks it `hit`,
/// and the ship drops it in the tick after.
#[derive(Clone, Copy, Debug, PartialEq, Eq, Structural)]
pub struct Laser {
    /// The unit vector along which it flies.
    pub dir: Vec2,
    pub pos: Vec2,
    pub hit: bool,
}

impl Laser {
    /// The laser after flying for `dt`.
    pub open spec fn spec_advanced(self, dt: Fixed) -> Laser {
        Laser { pos: self.pos.spec_plus(self.dir.spec_scaled(LASER_SPEED).spec_scaled(dt)), ..self }
    }

    /// Whether the ship drops the laser: it has left the arena or hit something.
    pub open spec fn spec_spent(self) -> bool {
        !spec_in_bounds(self.pos) || self.hit
    }

    /// The laser after flying for `dt`.
    pub fn advanced(self, dt: Fixed) -> (l: Laser)
        ensures
            l == self.spec_advanced(dt),
    {
        Laser { dir: self.dir, pos: self.pos.plus(self.dir.scaled(LASER_SPEED).scaled(dt)), hit: self.hit }
    }

    /// Whether the ship drops the laser.
    pub fn spent(&self) -> (b: bool)
        ensures
            b == self.spec_spent(),
    {
        !crate::arena::in_bounds(self.pos) || self.hit
    }
}

} // verus!
