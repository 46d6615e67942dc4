//! What there is to draw of the ship and the asteroids: line segments, in the
//! coordinates of the arena but for the marks that count the lives.

use vstd::prelude::*;
use crate::angle::HALF_TURN;
use crate::asteroid::{Asteroid, AsteroidView};
use crate::config::SHIP_SCALE;
use crate::fixed::{plus, spec_plus, Fixed};
use crate::player::{Player, PlayerView};
use crate::vector::Vec2;

verus! {

/// The size of a mark that stands for a life.
pub const LIFE_SIZE: i64 = 41_250_000;

/// Where the row of marks begins on the display, less one mark.
pub const LIFE_LEFT: i64 = 165_000_000;

/// How far below the top of the display the row of marks is.
pub const LIFE_TOP: i64 = 45_000_000;

/// A straight line between two points.
#[derive(Clone, Copy, Debug, PartialEq, Eq, Structural)]
pub struct Line {
    pub from: Vec2,
    pub to: Vec2,
}

/// A point of the ship's outline where the ship is: turned by `angle`, grown
/// to the size of the ship and moved to `at`.
pub open spec fn spec_placed(point: Vec2, angle: Fixed, at: Vec2) -> Vec2 {
    point.spec_rotated(angle).spec_scaled(SHIP_SCALE).spec_plus(at)
}

/// The lines from each point to the next, and from the last to the first.
pub open spec fn spec_closed(points: Seq<Vec2>) -> Seq<Line> {
    Seq::new(
        points.len(),
        |i: int| Line { from: points[i], to: points[(i + 1) % (points.len() as int)] },
    )
}

/// The mark for life number `index`, counted from one: the ship's outline
/// upside down, in display coordinates.
pub open spec fn spec_life_icon(points: Seq<Vec2>, index: u32) -> Seq<Vec2> {
    Seq::new(
        points.len(),
        |i: int|
            points[i].spec_rotated(HALF_TURN).spec_scaled(LIFE_SIZE).spec_plus(
                Vec2 {
                    x: spec_plus(LIFE_LEFT as int, index * LIFE_SIZE) as i64,
                    y: LIFE_TOP,
                },
            ),
    )
}

/// The outline of a whole asteroid where the asteroid is; nothing for one that
/// has burst, of which only the sparks are left.
pub open spec fn spec_asteroid_shape(a: AsteroidView) -> Seq<Line> {
    if a.destroyed {
        Seq::empty()
    } else {
        spec_closed(Seq::new(a.points.len(), |i: int| a.points[i].spec_plus(a.pos)))
    }
}

impl PlayerView {
    /// The line that fragment `i` of the exploding ship is drawn as.
    pub open spec fn spec_fragment_line(self, i: int) -> Line {
        let s = self.segments[i];
        Line {
            from: spec_placed(s.start, s.angle, self.pos).spec_plus(s.ds),
            to: spec_placed(s.end, s.angle, self.pos).spec_plus(s.ds),
        }
    }

    /// The corners of the flying ship where the ship is, with those of the
    /// flame behind them while the engine runs and the flame is lit.
    pub open spec fn spec_hull(self, flicker: bool) -> Seq<Vec2> {
        let outline = if flicker && self.thrusting {
            self.points + self.flames
        } else {
            self.points
        };
        Seq::new(outline.len(), |i: int| spec_placed(outline[i], self.angle_r, self.pos))
    }

    /// The lines that the ship is drawn as: its fragments while it explodes,
    /// its closed outline while it flies.
    pub open spec fn spec_shape(self, flicker: bool) -> Seq<Line> {
        if self.exploding {
            Seq::new(self.segments.len(), |i: int| self.spec_fragment_line(i))
        } else {
            spec_closed(self.spec_hull(flicker))
        }
    }
}

/// A point of the ship's outline where the ship is.
pub fn placed(point: Vec2, angle: Fixed, at: Vec2) -> (v: Vec2)
    ensures
        v == spec_placed(point, angle, at),
{
    point.rotated(angle).scaled(SHIP_SCALE).plus(at)
}

/// The lines from each point to the next, and from the last to the first.
pub fn closed(points: &Vec<Vec2>) -> (lines: Vec<Line>)
    ensures
        lines@ == spec_closed(points@),
{
    let n: usize = points.len();
    let mut lines: Vec<Line> = Vec::new();
    let mut i: usize = 0;
    while i < n
        invariant
            i <= n,
            n == points@.len(),
            lines@.len() == i,
            forall|j: int| 0 <= j < i ==> lines@[j] == spec_closed(points@)[j],
        decreases n - i,
    {
        lines.push(Line { from: points[i], to: points[(i + 1) % n] });
        i = i + 1;
    }
    lines
}

/// The mark for life number `index`, counted from one.
pub fn life_icon(points: &Vec<Vec2>, index: u32) -> (icon: Vec<Vec2>)
    ensures
        icon@ == spec_life_icon(points@, index),
{
    let at: Vec2 = Vec2 { x: plus(LIFE_LEFT, (index as i64) * LIFE_SIZE), y: LIFE_TOP };
    let n: usize = points.len();
    let mut icon: Vec<Vec2> = Vec::new();
    let mut i: usize = 0;
    while i < n
        invariant
            i <= n,
            n == points@.len(),
            at == (Vec2 { x: spec_plus(LIFE_LEFT as int, index * LIFE_SIZE) as i64, y: LIFE_TOP }),
            icon@.len() == i,
            forall|j: int| 0 <= j < i ==> icon@[j] == spec_life_icon(points@, index)[j],
        decreases n - i,
    {
        icon.push(points[i].rotated(HALF_TURN).scaled(LIFE_SIZE).plus(at));
        i = i + 1;
    }
    icon
}

impl Asteroid {
    /// The lines that the asteroid is drawn as.
    pub fn shape(&self) -> (lines: Vec<Line>)
        ensures
            lines@ == spec_asteroid_shape(self@),
    {
        if self.destroyed {
            return Vec::new();
        }
        let n: usize = self.points.len();
        let mut corners: Vec<Vec2> = Vec::new();
        let mut i: usize = 0;
        while i < n
            invariant
                i <= n,
                n == self.points@.len(),
                corners@.len() == i,
                forall|j: int| 0 <= j < i ==> corners@[j] == self.points@[j].spec_plus(self.pos),
            decreases n - i,
        {
            corners.push(self.points[i].plus(self.pos));
            i = i + 1;
        }
        assert(corners@ == Seq::new(self@.points.len(), |i: int| self@.points[i].spec_plus(self@.pos)));
        closed(&corners)
    }
}

impl Player {
    /// The lines that the ship is drawn as. `flicker` says whether the flame
    /// of a running engine is lit at this moment.
    pub fn shape(&self, flicker: bool) -> (lines: Vec<Line>)
        ensures
            lines@ == self@.spec_shape(flicker),
    {
        if self.exploding {
            let n: usize = self.segments.len();
            let mut lines: Vec<Line> = Vec::new();
            let mut i: usize = 0;
            while i < n
                invariant
                    i <= n,
                    n == self.segments@.len(),
                    lines@.len() == i,
                    forall|j: int| 0 <= j < i ==> lines@[j] == self@.spec_fragment_line(j),
                decreases n - i,
            {
                let s = self.segments[i];
                lines.push(
                    Line {
                        from: placed(s.start, s.angle, self.pos).plus(s.ds),
                        to: placed(s.end, s.angle, self.pos).plus(s.ds),
                    },
                );
                i = i + 1;
            }
            return lines;
        }
        let lit: bool = flicker && self.thrusting;
        let ghost outline: Seq<Vec2> = if lit {
            self.points@ + self.flames@
        } else {
            self.points@
        };
        let mut hull: Vec<Vec2> = Vec::new();
        let n: usize = self.points.len();
        let mut i: usize = 0;
        while i < n
            invariant
                i <= n,
                n == self.points@.len(),
                n <= outline.len(),
                forall|j: int| 0 <= j < n ==> outline[j] == self.points@[j],
                hull@.len() == i,
                forall|j: int| 0 <= j < i ==> hull@[j] == spec_placed(outline[j], self.angle_r, self.pos),
            decreases n - i,
        {
            hull.push(placed(self.points[i], self.angle_r, self.pos));
            i = i + 1;
        }
        if lit {
            let m: usize = self.flames.len();
            let mut k: usize = 0;
            while k < m
                invariant
                    k <= m,
                    m == self.flames@.len(),
                    n == self.points@.len(),
                    outline == self.points@ + self.flames@,
                    hull@.len() == n + k,
                    forall|j: int|
                        0 <= j < n + k ==> hull@[j] == spec_placed(outline[j], self.angle_r, self.pos),
                decreases m - k,
            {
                hull.push(placed(self.flames[k], self.angle_r, self.pos));
                k = k + 1;
            }
        }
        assert(hull@ == self@.spec_hull(flicker));
        closed(&hull)
    }

    /// The marks that count the lives left, one for each.
    pub fn life_icons(&self) -> (icons: Vec<Vec<Vec2>>)
        ensures
            icons@.len() == self.lives,
            forall|i: int|
                0 <= i < self.lives ==> (#[trigger] icons@[i])@ == spec_life_icon(
                    self.points@,
                    (i + 1) as u32,
                ),
    {
        let mut icons: Vec<Vec<Vec2>> = Vec::new();
        let mut i: u32 = 0;
        while i < self.lives
            invariant
                i <= self.lives,
                icons@.len() == i,
                forall|j: int|
                    0 <= j < i ==> (#[trigger] icons@[j])@ == spec_life_icon(
                        self.points@,
                        (j + 1) as u32,
                    ),
            decreases self.lives - i,
        {
            icons.push(life_icon(&self.points, i + 1));
            i = i + 1;
        }
        icons
    }
}

} // verus!
