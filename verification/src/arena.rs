//! The arena: a rectangle centred on the origin whose opposite edges meet.

use vstd::prelude::*;
use crate::fixed::{minus, plus, spec_minus, spec_plus, Fixed};
use crate::vector::Vec2;

verus! {

/// The full extent of the arena along x.
pub const WINDOW_W: i64 = 1_320_000_000;

/// The full extent of the arena along y.
pub const WINDOW_H: i64 = 957_000_000;

/// Half the extent along x: the arena reaches from `-HALF_W` to `HALF_W`.
pub const HALF_W: i64 = 660_000_000;

/// Half the extent along y: the arena reaches from `-HALF_H` to `HALF_H`.
pub const HALF_H: i64 = 478_500_000;

/// Whether a point lies in the arena, edges included.
pub open spec fn spec_in_bounds(point: Vec2) -> bool {
    &&& -HALF_W <= point.x <= HALF_W
    &&& -HALF_H <= point.y <= HALF_H
}

/// The same point in display coordinates: origin at the top left, y downwards.
pub open spec fn spec_to_draw_vector(point: Vec2) -> Vec2 {
    Vec2 {
        x: spec_plus(point.x as int, HALF_W as int) as i64,
        y: spec_minus(HALF_H as int, point.y as int) as i64,
    }
}

/// One coordinate after it has left through an edge and come back through the
/// opposite one: moved by the full extent, once, if it lies beyond `half`.
pub open spec fn spec_wrap_axis(x: int, half: int) -> int {
    if x > half {
        x - 2 * half
    } else if x < -half {
        x + 2 * half
    } else {
        x
    }
}

/// A position after wrapping, each axis on its own.
pub open spec fn spec_wrap(point: Vec2) -> Vec2 {
    Vec2 {
        x: spec_wrap_axis(point.x as int, HALF_W as int) as i64,
        y: spec_wrap_axis(point.y as int, HALF_H as int) as i64,
    }
}

/// Whether a point lies in the arena, edges included.
pub fn in_bounds(point: Vec2) -> (b: bool)
    ensures
        b == spec_in_bounds(point),
{
    point.x >= -HALF_W && point.x <= HALF_W && point.y >= -HALF_H && point.y <= HALF_H
}

/// The same point in display coordinates.
pub fn to_draw_vector(point: Vec2) -> (v: Vec2)
    ensures
        v == spec_to_draw_vector(point),
{
    Vec2 { x: plus(point.x, HALF_W), y: minus(HALF_H, point.y) }
}

fn wrap_axis(x: Fixed, half: Fixed) -> (r: Fixed)
    requires
        0 <= half <= WINDOW_W,
    ensures
        r == spec_wrap_axis(x as int, half as int),
{
    if x > half {
        x - 2 * half
    } else if x < -half {
        x + 2 * half
    } else {
        x
    }
}

/// Brings a position that has left the arena back in on the other side. A
/// position more than a full extent outside stays outside, nearer by one extent.
pub fn wrap(point: Vec2) -> (v: Vec2)
    ensures
        v == spec_wrap(point),
{
    Vec2 { x: wrap_axis(point.x, HALF_W), y: wrap_axis(point.y, HALF_H) }
}

/// A position no more than a full extent outside the arena is inside after
/// wrapping.
pub proof fn lemma_wrap_lands_inside(point: Vec2)
    requires
        -HALF_W - WINDOW_W <= point.x <= HALF_W + WINDOW_W,
        -HALF_H - WINDOW_H <= point.y <= HALF_H + WINDOW_H,
    ensures
        spec_in_bounds(spec_wrap(point)),
{
}

} // verus!
