//! Two-dimensional vectors of fixed-point numbers.

use vstd::prelude::*;
use crate::angle::{cosine, lemma_unit_nonzero, sine, spec_cos, spec_sin};
use crate::fixed::{abs, clamp, is_sqrt, isqrt, lemma_product_bound, lemma_sqrt_exists, magnitude,
    minus, plus, round_div, rounded, spec_isqrt, spec_minus, spec_plus, spec_times, times, Fixed,
    ONE};

verus! {

/// A point or a displacement in the plane.
#[derive(Clone, Copy, Debug, PartialEq, Eq, Structural)]
pub struct Vec2 {
    pub x: Fixed,
    pub y: Fixed,
}

/// The square of the distance between two points, as an exact integer.
pub open spec fn dist_sq(a: Vec2, b: Vec2) -> int {
    (a.x - b.x) * (a.x - b.x) + (a.y - b.y) * (a.y - b.y)
}

/// The square of the length of a vector, as an exact integer.
pub open spec fn len_sq(v: Vec2) -> int {
    v.x * v.x + v.y * v.y
}

impl Vec2 {
    /// The sum of two vectors.
    pub open spec fn spec_plus(self, other: Vec2) -> Vec2 {
        Vec2 {
            x: spec_plus(self.x as int, other.x as int) as i64,
            y: spec_plus(self.y as int, other.y as int) as i64,
        }
    }

    /// The difference of two vectors.
    pub open spec fn spec_minus(self, other: Vec2) -> Vec2 {
        Vec2 {
            x: spec_minus(self.x as int, other.x as int) as i64,
            y: spec_minus(self.y as int, other.y as int) as i64,
        }
    }

    /// The vector with both components multiplied by `k`.
    pub open spec fn spec_scaled(self, k: Fixed) -> Vec2 {
        Vec2 {
            x: spec_times(self.x as int, k as int) as i64,
            y: spec_times(self.y as int, k as int) as i64,
        }
    }

    /// The dot product on the fixed-point scale.
    pub open spec fn spec_dot(self, other: Vec2) -> int {
        clamp(round_div(self.x * other.x + self.y * other.y, ONE as int))
    }

    /// The length of the vector in raw units, rounded down.
    pub open spec fn spec_norm(self) -> int {
        spec_isqrt(len_sq(self))
    }

    /// The distance to `other` in raw units, rounded down; the difference of
    /// the two saturates in each component.
    pub open spec fn spec_distance_to(self, other: Vec2) -> int {
        self.spec_minus(other).spec_norm()
    }

    /// The vector of length one that points the same way.
    pub open spec fn spec_normalized(self) -> Vec2 {
        Vec2 {
            x: round_div(self.x * ONE, self.spec_norm()) as i64,
            y: round_div(self.y * ONE, self.spec_norm()) as i64,
        }
    }

    /// Whether `other` lies at most `reach` away.
    pub open spec fn spec_within(self, other: Vec2, reach: Fixed) -> bool {
        reach >= 0 && dist_sq(self, other) <= reach * reach
    }

    /// Whether `other` lies less than `reach` away.
    pub open spec fn spec_inside(self, other: Vec2, reach: Fixed) -> bool {
        reach > 0 && dist_sq(self, other) < reach * reach
    }

    /// The vector turned counter-clockwise by `angle`.
    pub open spec fn spec_rotated(self, angle: Fixed) -> Vec2 {
        let c = spec_cos(angle as int);
        let s = spec_sin(angle as int);
        Vec2 {
            x: spec_minus(spec_times(self.x as int, c), spec_times(self.y as int, s)) as i64,
            y: spec_plus(spec_times(self.x as int, s), spec_times(self.y as int, c)) as i64,
        }
    }

    /// The unit vector at `angle` from the x axis.
    pub open spec fn spec_from_angle(angle: Fixed) -> Vec2 {
        (Vec2 { x: spec_cos(angle as int) as i64, y: spec_sin(angle as int) as i64 })
            .spec_normalized()
    }

    /// The vector with the components given.
    pub fn new(x: Fixed, y: Fixed) -> (v: Vec2)
        ensures
            v == (Vec2 { x, y }),
    {
        Vec2 { x, y }
    }

    /// The vector of no length.
    pub fn zero() -> (v: Vec2)
        ensures
            v == (Vec2 { x: 0, y: 0 }),
    {
        Vec2 { x: 0, y: 0 }
    }

    /// The sum of two vectors, each component saturating.
    pub fn plus(self, other: Vec2) -> (v: Vec2)
        ensures
            v == self.spec_plus(other),
    {
        Vec2 { x: plus(self.x, other.x), y: plus(self.y, other.y) }
    }

    /// The difference of two vectors, each component saturating.
    pub fn minus(self, other: Vec2) -> (v: Vec2)
        ensures
            v == self.spec_minus(other),
    {
        Vec2 { x: minus(self.x, other.x), y: minus(self.y, other.y) }
    }

    /// The vector with both components multiplied by `k`.
    pub fn scaled(self, k: Fixed) -> (v: Vec2)
        ensures
            v == self.spec_scaled(k),
    {
        Vec2 { x: times(self.x, k), y: times(self.y, k) }
    }

    /// The dot product on the fixed-point scale, saturating.
    pub fn dot(self, other: Vec2) -> (d: Fixed)
        ensures
            d == self.spec_dot(other),
    {
        proof {
            lemma_product_bound(self.x as int, other.x as int);
            lemma_product_bound(self.y as int, other.y as int);
        }
        let p: i128 = (self.x as i128) * (other.x as i128);
        let q: i128 = (self.y as i128) * (other.y as i128);
        let top: i128 = 0x4000_0000_0000_0000_0000_0000_0000_0000;
        if p == top && q == top {
            assert(round_div(p + q, ONE as int) > i64::MAX);
            i64::MAX
        } else {
            rounded(p + q, ONE as u64)
        }
    }

    /// Whether `other` lies at most `reach` away; exact for all points.
    pub fn within(self, other: Vec2, reach: Fixed) -> (b: bool)
        ensures
            b == self.spec_within(other, reach),
    {
        if reach < 0 {
            return false;
        }
        let dx: i128 = self.x as i128 - other.x as i128;
        let dy: i128 = self.y as i128 - other.y as i128;
        let r: i128 = reach as i128;
        if dx > r || dx < -r || dy > r || dy < -r {
            proof {
                lemma_square_grows(r as int, dx as int);
                lemma_square_grows(r as int, dy as int);
                lemma_square_nonneg(dx as int);
                lemma_square_nonneg(dy as int);
            }
            return false;
        }
        proof {
            lemma_square_bound(dx as int, r as int);
            lemma_square_bound(dy as int, r as int);
            lemma_reach_square(r as int);
        }
        dx * dx + dy * dy <= r * r
    }

    /// The length of the vector in raw units, rounded down.
    pub fn norm(self) -> (n: u64)
        ensures
            n == self.spec_norm(),
            is_sqrt(len_sq(self), n as int),
    {
        let ax: u128 = magnitude(self.x) as u128;
        let ay: u128 = magnitude(self.y) as u128;
        proof {
            lemma_product_bound(self.x as int, self.x as int);
            lemma_product_bound(self.y as int, self.y as int);
            assert(ax * ax == self.x * self.x) by (nonlinear_arith)
                requires
                    ax == abs(self.x as int),
            ;
            assert(ay * ay == self.y * self.y) by (nonlinear_arith)
                requires
                    ay == abs(self.y as int),
            ;
        }
        isqrt(ax * ax + ay * ay)
    }

    /// The distance to `other` in raw units, rounded down.
    pub fn distance_to(self, other: Vec2) -> (d: u64)
        ensures
            d == self.spec_distance_to(other),
    {
        self.minus(other).norm()
    }

    /// The zero vector points nowhere and has no unit vector: callers test for it.
    pub fn normalized(self) -> (v: Vec2)
        requires
            self.x != 0 || self.y != 0,
        ensures
            v == self.spec_normalized(),
            -ONE <= v.x <= ONE,
            -ONE <= v.y <= ONE,
    {
        let n: u64 = self.norm();
        proof {
            lemma_normalized_range(self);
        }
        Vec2 {
            x: rounded((self.x as i128) * (ONE as i128), n),
            y: rounded((self.y as i128) * (ONE as i128), n),
        }
    }

    /// The vector turned counter-clockwise by `angle`.
    pub fn rotated(self, angle: Fixed) -> (v: Vec2)
        ensures
            v == self.spec_rotated(angle),
    {
        let c: Fixed = cosine(angle);
        let s: Fixed = sine(angle);
        Vec2 {
            x: minus(times(self.x, c), times(self.y, s)),
            y: plus(times(self.x, s), times(self.y, c)),
        }
    }

    /// The unit vector at `angle` from the x axis.
    pub fn from_angle(angle: Fixed) -> (v: Vec2)
        ensures
            v == Vec2::spec_from_angle(angle),
            -ONE <= v.x <= ONE,
            -ONE <= v.y <= ONE,
    {
        proof {
            lemma_unit_nonzero(angle as int);
        }
        let raw: Vec2 = Vec2 { x: cosine(angle), y: sine(angle) };
        raw.normalized()
    }

    /// Whether `other` lies less than `reach` away; exact for all points.
    pub fn inside(self, other: Vec2, reach: Fixed) -> (b: bool)
        ensures
            b == self.spec_inside(other, reach),
    {
        if reach <= 0 {
            return false;
        }
        let dx: i128 = self.x as i128 - other.x as i128;
        let dy: i128 = self.y as i128 - other.y as i128;
        let r: i128 = reach as i128;
        if dx > r || dx < -r || dy > r || dy < -r {
            proof {
                lemma_square_grows(r as int, dx as int);
                lemma_square_grows(r as int, dy as int);
                lemma_square_nonneg(dx as int);
                lemma_square_nonneg(dy as int);
            }
            return false;
        }
        proof {
            lemma_square_bound(dx as int, r as int);
            lemma_square_bound(dy as int, r as int);
            lemma_reach_square(r as int);
        }
        dx * dx + dy * dy < r * r
    }
}

/// A vector other than zero has a length of at least one raw unit, no component
/// is longer than the vector, and the components of its unit vector lie between
/// minus one and one.
pub proof fn lemma_normalized_range(v: Vec2)
    requires
        v.x != 0 || v.y != 0,
    ensures
        is_sqrt(len_sq(v), v.spec_norm()),
        v.spec_norm() >= 1,
        abs(v.x as int) <= v.spec_norm(),
        abs(v.y as int) <= v.spec_norm(),
        -ONE <= round_div(v.x * ONE, v.spec_norm()) <= ONE,
        -ONE <= round_div(v.y * ONE, v.spec_norm()) <= ONE,
{
    let x = v.x as int;
    let y = v.y as int;
    let n = v.spec_norm();
    lemma_square_nonneg(x);
    lemma_square_nonneg(y);
    lemma_sqrt_exists(len_sq(v));
    assert(is_sqrt(len_sq(v), n));
    assert(n >= 1 && abs(x) <= n && abs(y) <= n) by (nonlinear_arith)
        requires
            x != 0 || y != 0,
            0 <= n,
            n * n <= x * x + y * y < (n + 1) * (n + 1),
    ;
    lemma_unit_component(x, n);
    lemma_unit_component(y, n);
}

/// A component no longer than the whole gives a quotient no greater than one.
pub proof fn lemma_unit_component(x: int, n: int)
    requires
        n >= 1,
        abs(x) <= n,
    ensures
        -ONE <= round_div(x * ONE, n) <= ONE,
{
    let a = abs(x) * ONE;
    assert(0 <= (a + n / 2) / n <= ONE) by (nonlinear_arith)
        requires
            n >= 1,
            0 <= a <= n * ONE,
    ;
    if x >= 0 {
        assert(x * ONE == a);
    } else {
        assert(-(x * ONE) == a) by (nonlinear_arith)
            requires
                a == (-x) * ONE,
        ;
    }
}

/// The square of a reach that fits in an `i64` leaves room to be doubled.
pub proof fn lemma_reach_square(r: int)
    requires
        0 <= r <= i64::MAX,
    ensures
        r * r <= 0x3FFF_FFFF_FFFF_FFFF_0000_0000_0000_0001,
{
    assert(r * r <= 0x3FFF_FFFF_FFFF_FFFF_0000_0000_0000_0001) by (nonlinear_arith)
        requires
            0 <= r <= 0x7FFF_FFFF_FFFF_FFFF,
    ;
}

/// A square is never negative.
pub proof fn lemma_square_nonneg(d: int)
    ensures
        d * d >= 0,
{
    assert(d * d >= 0) by (nonlinear_arith);
}

/// A number beyond `r` in size has a square beyond that of `r`.
pub proof fn lemma_square_grows(r: int, d: int)
    requires
        r >= 0,
    ensures
        abs(d) > r ==> d * d > r * r,
{
    assert(abs(d) > r ==> d * d > r * r) by (nonlinear_arith)
        requires
            r >= 0,
    ;
}

/// A number within `r` in size has a square within that of `r`.
pub proof fn lemma_square_bound(d: int, r: int)
    requires
        -r <= d <= r,
    ensures
        0 <= d * d <= r * r,
{
    assert(0 <= d * d <= r * r) by (nonlinear_arith)
        requires
            -r <= d <= r,
    ;
}

} // verus!
