//! The asteroids: how one is made, how it moves, and what a hit does to it.

use vstd::prelude::*;
use crate::angle::FULL_TURN;
use crate::arena::{in_bounds, spec_in_bounds, HALF_H, HALF_W, WINDOW_H, WINDOW_W};
use crate::config::{MAX_PIECES, MAX_RAYS, MAX_SPEED, MIN_PIECES, MIN_RAYS, OUTLINE_FLOOR,
    PARTICLE_COUNT, PARTICLE_FLOOR, SPEED_FLOOR};
use crate::cue::{repeated, Cue};
use crate::fixed::{spec_times, times, Fixed, ONE};
use crate::laser::Laser;
use crate::particle::{fresh_particle, Particle};
use crate::random::{draw, rng_min, weighted_size, MAX_DRAWS};
use crate::size::AsteroidSize;
use crate::vector::Vec2;

verus! {

/// An asteroid, or the cloud of sparks that is left of one.
#[derive(Clone, Debug, PartialEq, Eq)]
pub struct Asteroid {
    pub size: AsteroidSize,
    /// The radius of the disc that lasers and the ship collide with.
    pub radius: Fixed,
    /// The outline around `pos`: a closed polygon, the first point repeated at
    /// the end.
    pub points: Vec<Vec2>,
    /// The velocity, per second.
    pub velocity: Vec2,
    pub pos: Vec2,
    /// The sparks, once the asteroid has burst.
    pub particles: Vec<Particle>,
    /// Whether the asteroid has burst into sparks.
    pub destroyed: bool,
    /// Whether the asteroid is to be taken off the field after this tick.
    pub stale: bool,
}

/// An asteroid as a mathematical value.
pub struct AsteroidView {
    pub size: AsteroidSize,
    pub radius: Fixed,
    pub points: Seq<Vec2>,
    pub velocity: Vec2,
    pub pos: Vec2,
    pub particles: Seq<Particle>,
    pub destroyed: bool,
    pub stale: bool,
}

impl View for Asteroid {
    type V = AsteroidView;

    open spec fn view(&self) -> AsteroidView {
        AsteroidView {
            size: self.size,
            radius: self.radius,
            points: self.points@,
            velocity: self.velocity,
            pos: self.pos,
            particles: self.particles@,
            destroyed: self.destroyed,
            stale: self.stale,
        }
    }
}

/// The draws that decide what a new asteroid looks like.
pub struct Blueprint {
    pub size: AsteroidSize,
    pub pos: Vec2,
    /// The point that the asteroid sets out for.
    pub target: Vec2,
    /// The share of `MAX_SPEED` at which it moves.
    pub pace: Fixed,
    /// For each ray of the outline, its length as a share of the radius.
    pub mags: Seq<Fixed>,
}

impl Blueprint {
    /// Whether the draws are such as `Asteroid::generate` makes: a target in
    /// the arena, a pace and ray lengths that are not below their floors, and
    /// a number of rays within its limits.
    pub open spec fn drawn(self) -> bool {
        &&& -HALF_W <= self.target.x < HALF_W
        &&& -HALF_H <= self.target.y < HALF_H
        &&& SPEED_FLOOR <= self.pace < ONE
        &&& MIN_RAYS <= self.mags.len() <= MAX_RAYS
        &&& forall|i: int| 0 <= i < self.mags.len() ==> OUTLINE_FLOOR <= #[trigger] self.mags[i] < ONE
    }
}

/// The unit vector from `from` towards `target`; along the x axis where the
/// two are the same point, from which no direction leads to the other.
pub open spec fn spec_aim(from: Vec2, target: Vec2) -> Vec2 {
    let d = target.spec_minus(from);
    if d.x == 0 && d.y == 0 {
        Vec2 { x: ONE, y: 0 }
    } else {
        d.spec_normalized()
    }
}

/// The angle of ray `i` of `n`, which divide the turn evenly.
pub open spec fn spec_ray_angle(i: int, n: int) -> int {
    (FULL_TURN * i) / n
}

/// The end of ray `i` of an outline of `mags.len()` rays around the origin.
pub open spec fn spec_ray(radius: Fixed, mags: Seq<Fixed>, i: int) -> Vec2 {
    Vec2::spec_from_angle(spec_ray_angle(i, mags.len() as int) as i64).spec_scaled(
        spec_times(radius as int, mags[i] as int) as i64,
    )
}

/// The outline with the ray lengths `mags`: the ends of the rays in turn, and
/// the first of them once more to close the polygon.
pub open spec fn spec_outline(radius: Fixed, mags: Seq<Fixed>) -> Seq<Vec2> {
    Seq::new(
        mags.len() + 1,
        |i: int|
            if i < mags.len() {
                spec_ray(radius, mags, i)
            } else {
                spec_ray(radius, mags, 0)
            },
    )
}

/// The asteroid that the draws in `b` give.
pub open spec fn spec_assemble(b: Blueprint) -> AsteroidView {
    AsteroidView {
        size: b.size,
        radius: b.size.spec_radius() as i64,
        points: spec_outline(b.size.spec_radius() as i64, b.mags),
        velocity: spec_aim(b.pos, b.target).spec_scaled(
            spec_times(MAX_SPEED as int, b.pace as int) as i64,
        ),
        pos: b.pos,
        particles: Seq::empty(),
        destroyed: false,
        stale: false,
    }
}

/// Whether `a` is an asteroid as `Asteroid::generate` makes one when asked for
/// the size and the position given: whole, of that size, at that position or,
/// where none is given, somewhere outside the arena and less than a full
/// extent from the origin.
pub open spec fn generated(a: AsteroidView, size: Option<AsteroidSize>, pos: Option<Vec2>) -> bool {
    exists|b: Blueprint|
        {
            &&& b.drawn()
            &&& a == #[trigger] spec_assemble(b)
            &&& size matches Some(s) ==> b.size == s
            &&& match pos {
                Some(p) => b.pos == p,
                None => !spec_in_bounds(b.pos) && -WINDOW_W <= b.pos.x < WINDOW_W && -WINDOW_H
                    <= b.pos.y < WINDOW_H,
            }
        }
}

/// Whether the list `after` is the list `before` with the sparks of `bursts`
/// bursts at `origin` behind it.
pub open spec fn burst(before: Seq<Particle>, after: Seq<Particle>, origin: Vec2, bursts: nat) -> bool {
    &&& after.len() == before.len() + PARTICLE_COUNT * bursts
    &&& after.subrange(0, before.len() as int) == before
    &&& forall|i: int| before.len() <= i < after.len() ==> fresh_particle(#[trigger] after[i], origin)
}

/// Whether the list `after` is the list `before` with the pieces of `splits`
/// asteroids behind it, each of which broke at `pos` into two or three pieces
/// of the class `size`.
pub open spec fn pieces(
    before: Seq<Asteroid>,
    after: Seq<Asteroid>,
    size: AsteroidSize,
    pos: Vec2,
    splits: nat,
) -> bool {
    &&& before.len() + MIN_PIECES * splits <= after.len() <= before.len() + MAX_PIECES * splits
    &&& after.subrange(0, before.len() as int) == before
    &&& forall|i: int|
        before.len() <= i < after.len() ==> generated((#[trigger] after[i])@, Some(size), Some(pos))
}

/// The index of the first spark from `from` on that is too far from `origin`
/// after one more tick, or the length of the list where there is none.
pub open spec fn first_escape(ps: Seq<Particle>, origin: Vec2, dt: Fixed, from: int) -> int
    decreases ps.len() - from,
{
    if from < 0 || from >= ps.len() {
        ps.len() as int
    } else if ps[from].spec_drifted(dt).spec_scattered(origin) {
        from
    } else {
        first_escape(ps, origin, dt, from + 1)
    }
}

/// The sparks of a burst asteroid one tick later. They move in turn, and the
/// first that is found too far from `origin` ends the turn for those behind it.
pub open spec fn spec_drift_all(ps: Seq<Particle>, origin: Vec2, dt: Fixed) -> Seq<Particle> {
    Seq::new(
        ps.len(),
        |i: int|
            if i <= first_escape(ps, origin, dt, 0) {
                ps[i].spec_drifted(dt)
            } else {
                ps[i]
            },
    )
}

/// Where a whole asteroid is after a tick of length `dt`.
pub open spec fn spec_moved(a: AsteroidView, dt: Fixed) -> Vec2 {
    a.pos.spec_plus(a.velocity.spec_scaled(dt))
}

/// Whether an asteroid at `pos` is gone for good: it moves away from the
/// centre of the arena, and the point of its disc that trails behind has left
/// the arena too.
pub open spec fn spec_leaving(pos: Vec2, velocity: Vec2, radius: Fixed) -> bool {
    &&& velocity.spec_dot((Vec2 { x: 0, y: 0 }).spec_minus(pos)) < 0
    &&& !spec_in_bounds(pos.spec_minus(velocity.spec_normalized().spec_scaled(radius)))
}

/// Whether a laser touches the disc of the given centre and radius.
pub open spec fn spec_hit(center: Vec2, radius: Fixed, laser: Laser) -> bool {
    center.spec_within(laser.pos, radius)
}

/// How many of the lasers touch the disc.
pub open spec fn hit_count(center: Vec2, radius: Fixed, lasers: Seq<Laser>) -> nat
    decreases lasers.len(),
{
    if lasers.len() == 0 {
        0
    } else {
        hit_count(center, radius, lasers.drop_last()) + if spec_hit(center, radius, lasers.last()) {
            1nat
        } else {
            0nat
        }
    }
}

/// The lasers, with those that touch the disc marked as having hit.
pub open spec fn marked(lasers: Seq<Laser>, center: Vec2, radius: Fixed) -> Seq<Laser> {
    Seq::new(
        lasers.len(),
        |i: int| Laser { hit: lasers[i].hit || spec_hit(center, radius, lasers[i]), ..lasers[i] },
    )
}

/// The score after `hits` hits worth `worth` points each; it stops at the
/// greatest number that it can hold.
pub open spec fn spec_gain(score: u32, hits: nat, worth: int) -> int {
    if score + hits * worth > u32::MAX {
        u32::MAX as int
    } else {
        score + hits * worth
    }
}

/// What `hits` hits in one tick of length `dt` make of the whole asteroid `a`:
/// `b`. It has moved. The smallest class bursts into sparks at the first hit
/// and stays on the field; every other class is to leave the field.
pub open spec fn struck(a: AsteroidView, b: AsteroidView, dt: Fixed, hits: nat) -> bool {
    &&& b.size == a.size
    &&& b.radius == a.radius
    &&& b.points == a.points
    &&& b.velocity == a.velocity
    &&& b.pos == spec_moved(a, dt)
    &&& if a.size == AsteroidSize::Tiny {
        &&& b.stale == a.stale
        &&& b.destroyed == (hits > 0)
        &&& burst(a.particles, b.particles, spec_moved(a, dt), hits)
    } else {
        &&& b.stale == (a.stale || hits > 0)
        &&& !b.destroyed
        &&& b.particles == a.particles
    }
}

/// Whether a tick of length `dt` finds the asteroid whole and still in play,
/// so that lasers can hit it.
pub open spec fn spec_active(a: AsteroidView, dt: Fixed) -> bool {
    !a.destroyed && !spec_leaving(spec_moved(a, dt), a.velocity, a.radius)
}

/// How many of the lasers hit the asteroid in a tick of length `dt`.
pub open spec fn spec_hits(a: AsteroidView, dt: Fixed, lasers: Seq<Laser>) -> nat {
    if spec_active(a, dt) {
        hit_count(spec_moved(a, dt), a.radius, lasers)
    } else {
        0
    }
}

/// The lasers after the asteroid has had its tick: those that hit it are
/// marked.
pub open spec fn spec_lasers_after(a: AsteroidView, dt: Fixed, lasers: Seq<Laser>) -> Seq<Laser> {
    if spec_active(a, dt) {
        marked(lasers, spec_moved(a, dt), a.radius)
    } else {
        lasers
    }
}

/// Whether `b` is what a tick of length `dt` among the lasers given makes of
/// the asteroid `a`. A burst one lets its sparks drift, and is stale once one
/// has drifted too far. A whole one that is gone for good has moved and is
/// stale. Any other has moved and taken its hits.
pub open spec fn updated(a: AsteroidView, b: AsteroidView, dt: Fixed, lasers: Seq<Laser>) -> bool {
    if a.destroyed {
        b == (AsteroidView {
            particles: spec_drift_all(a.particles, a.pos, dt),
            stale: a.stale || first_escape(a.particles, a.pos, dt, 0) < a.particles.len(),
            ..a
        })
    } else if spec_leaving(spec_moved(a, dt), a.velocity, a.radius) {
        b == (AsteroidView { pos: spec_moved(a, dt), stale: true, ..a })
    } else {
        struck(a, b, dt, hit_count(spec_moved(a, dt), a.radius, lasers))
    }
}

/// Whether the list `after` is the list `before` with the pieces behind it
/// that the asteroid `a` breaks into in a tick of length `dt` among the lasers
/// given: two or three for each laser that hits it, unless it is of the
/// smallest class, which leaves no pieces.
pub open spec fn offspring(
    a: AsteroidView,
    dt: Fixed,
    lasers: Seq<Laser>,
    before: Seq<Asteroid>,
    after: Seq<Asteroid>,
) -> bool {
    if spec_active(a, dt) && a.size != AsteroidSize::Tiny {
        pieces(before, after, a.size.spec_split_size(), spec_moved(a, dt), spec_hits(a, dt, lasers))
    } else {
        after == before
    }
}

/// No burst leaves the sparks as they are.
pub proof fn lemma_burst_none(sparks: Seq<Particle>, origin: Vec2)
    ensures
        burst(sparks, sparks, origin, 0),
{
    assert(PARTICLE_COUNT * 0nat == 0);
    assert(sparks.subrange(0, sparks.len() as int) == sparks);
}

/// One more burst after `bursts` of them makes `bursts + 1`.
pub proof fn lemma_burst_more(
    first: Seq<Particle>,
    middle: Seq<Particle>,
    last: Seq<Particle>,
    origin: Vec2,
    bursts: nat,
)
    requires
        burst(first, middle, origin, bursts),
        burst(middle, last, origin, 1),
    ensures
        burst(first, last, origin, bursts + 1),
{
    assert(PARTICLE_COUNT * (bursts + 1) == PARTICLE_COUNT * bursts + PARTICLE_COUNT * 1nat)
        by (nonlinear_arith);
    assert(last.subrange(0, first.len() as int) == last.subrange(0, middle.len() as int).subrange(
        0,
        first.len() as int,
    ));
    assert forall|i: int| first.len() <= i < last.len() implies fresh_particle(
        #[trigger] last[i],
        origin,
    ) by {
        if i < middle.len() {
            assert(last[i] == last.subrange(0, middle.len() as int)[i]);
        }
    }
}

/// No split leaves the list of new asteroids as it is.
pub proof fn lemma_pieces_none(list: Seq<Asteroid>, size: AsteroidSize, pos: Vec2)
    ensures
        pieces(list, list, size, pos, 0),
{
    assert(MIN_PIECES * 0nat == 0);
    assert(MAX_PIECES * 0nat == 0);
    assert(list.subrange(0, list.len() as int) == list);
}

/// One more split after `splits` of them makes `splits + 1`.
pub proof fn lemma_pieces_more(
    first: Seq<Asteroid>,
    middle: Seq<Asteroid>,
    last: Seq<Asteroid>,
    size: AsteroidSize,
    pos: Vec2,
    splits: nat,
)
    requires
        pieces(first, middle, size, pos, splits),
        pieces(middle, last, size, pos, 1),
    ensures
        pieces(first, last, size, pos, splits + 1),
{
    assert(MIN_PIECES * (splits + 1) == MIN_PIECES * splits + MIN_PIECES * 1nat)
        by (nonlinear_arith);
    assert(MAX_PIECES * (splits + 1) == MAX_PIECES * splits + MAX_PIECES * 1nat)
        by (nonlinear_arith);
    assert(last.subrange(0, first.len() as int) == last.subrange(0, middle.len() as int).subrange(
        0,
        first.len() as int,
    ));
    assert forall|i: int| first.len() <= i < last.len() implies generated(
        (#[trigger] last[i])@,
        Some(size),
        Some(pos),
    ) by {
        if i < middle.len() {
            assert(last[i] == last.subrange(0, middle.len() as int)[i]);
        }
    }
}

/// One more hit adds its worth to the score, which stops at its greatest value.
pub proof fn lemma_gain_more(score: u32, hits: nat, worth: u32)
    ensures
        spec_gain(score, hits + 1, worth as int) == if spec_gain(score, hits, worth as int) + worth
            > u32::MAX {
            u32::MAX as int
        } else {
            spec_gain(score, hits, worth as int) + worth
        },
        spec_gain(score, 0, worth as int) == score,
        0 <= spec_gain(score, hits, worth as int) <= u32::MAX,
{
    assert((hits + 1) * worth == hits * worth + worth) by (nonlinear_arith);
    assert(hits * worth >= 0) by (nonlinear_arith);
    assert(0 * worth == 0);
}

/// An asteroid as `Asteroid::generate` makes it is whole and stays on the
/// field, with a radius and a worth that go by its class.
pub proof fn lemma_generated_whole(a: Asteroid, size: Option<AsteroidSize>, pos: Option<Vec2>)
    requires
        generated(a@, size, pos),
    ensures
        !a.stale,
        !a.destroyed,
        a.particles@.len() == 0,
        a.radius == a.size.spec_radius(),
        size matches Some(s) ==> a.size == s,
        pos matches Some(p) ==> a.pos == p,
        pos is None ==> !spec_in_bounds(a.pos),
{
}

/// A whole asteroid above the smallest class that lasers hit breaks where it
/// is: it is marked stale in that tick, and for each laser that hit it two or
/// three asteroids of the next smaller class join the list, each at the very
/// place of the one that broke.
pub proof fn lemma_split_where_it_is(
    a: AsteroidView,
    b: AsteroidView,
    dt: Fixed,
    lasers: Seq<Laser>,
    before: Seq<Asteroid>,
    after: Seq<Asteroid>,
)
    requires
        updated(a, b, dt, lasers),
        offspring(a, dt, lasers, before, after),
        a.size != AsteroidSize::Tiny,
        spec_hits(a, dt, lasers) > 0,
    ensures
        b.stale,
        !b.destroyed,
        b.pos == spec_moved(a, dt),
        before.len() + 2 * spec_hits(a, dt, lasers) <= after.len() <= before.len() + 3 * spec_hits(
            a,
            dt,
            lasers,
        ),
        after.subrange(0, before.len() as int) == before,
        forall|i: int|
            before.len() <= i < after.len() ==> {
                &&& (#[trigger] after[i]).size == a.size.spec_split_size()
                &&& after[i].pos == b.pos
                &&& !after[i].stale
                &&& !after[i].destroyed
            },
{
    assert forall|i: int| before.len() <= i < after.len() implies {
        &&& (#[trigger] after[i]).size == a.size.spec_split_size()
        &&& after[i].pos == b.pos
        &&& !after[i].stale
        &&& !after[i].destroyed
    } by {
        lemma_generated_whole(after[i], Some(a.size.spec_split_size()), Some(spec_moved(a, dt)));
    }
}

/// A whole asteroid of the smallest class that lasers hit bursts: no asteroid
/// joins the list, the asteroid is marked destroyed and not stale, and the
/// sparks of one burst are set free for each laser that hit it.
pub proof fn lemma_tiny_bursts(
    a: AsteroidView,
    b: AsteroidView,
    dt: Fixed,
    lasers: Seq<Laser>,
    before: Seq<Asteroid>,
    after: Seq<Asteroid>,
)
    requires
        updated(a, b, dt, lasers),
        offspring(a, dt, lasers, before, after),
        a.size == AsteroidSize::Tiny,
        spec_hits(a, dt, lasers) > 0,
    ensures
        after == before,
        b.destroyed,
        b.stale == a.stale,
        b.pos == spec_moved(a, dt),
        b.particles.len() == a.particles.len() + PARTICLE_COUNT * spec_hits(a, dt, lasers),
        forall|i: int|
            a.particles.len() <= i < b.particles.len() ==> (#[trigger] b.particles[i]).pos == b.pos,
{
    assert forall|i: int| a.particles.len() <= i < b.particles.len() implies (
    #[trigger] b.particles[i]).pos == b.pos by {
        assert(fresh_particle(b.particles[i], spec_moved(a, dt)));
    }
}

/// What a tick makes of an asteroid never takes a mark back: one that was
/// destroyed stays destroyed, and one that was stale stays stale.
pub proof fn lemma_marks_stay(a: AsteroidView, b: AsteroidView, dt: Fixed, lasers: Seq<Laser>)
    requires
        updated(a, b, dt, lasers),
    ensures
        a.destroyed ==> b.destroyed,
        a.stale ==> b.stale,
{
}

/// The dot product of the zero vector with any vector is zero.
pub proof fn lemma_dot_of_zero(v: Vec2, w: Vec2)
    ensures
        v.x == 0 && v.y == 0 ==> v.spec_dot(w) == 0,
{
    if v.x == 0 && v.y == 0 {
        assert(v.x * w.x + v.y * w.y == 0) by (nonlinear_arith)
            requires
                v.x == 0 && v.y == 0,
        ;
    }
}

/// The unit vector from `from` towards `target`.
pub fn aim(from: Vec2, target: Vec2) -> (v: Vec2)
    ensures
        v == spec_aim(from, target),
{
    let d: Vec2 = target.minus(from);
    if d.x == 0 && d.y == 0 {
        Vec2 { x: ONE, y: 0 }
    } else {
        d.normalized()
    }
}

/// The angle of ray `i` of `n`.
fn ray_angle(i: usize, n: usize) -> (theta: Fixed)
    requires
        i < n,
    ensures
        theta == spec_ray_angle(i as int, n as int),
        0 <= theta < FULL_TURN,
{
    let turn: u128 = FULL_TURN as u128;
    assert(0 <= (turn * i) / (n as int) < turn) by (nonlinear_arith)
        requires
            0 <= i < n,
            turn > 0,
    ;
    assert(turn * i <= turn * 0x1_0000_0000_0000_0000) by (nonlinear_arith)
        requires
            0 <= i <= 0x1_0000_0000_0000_0000,
            turn > 0,
    ;
    let theta: u128 = (turn * (i as u128)) / (n as u128);
    theta as i64
}

/// A point outside the arena and less than a full extent from the origin.
pub fn spawn_point() -> (p: Vec2)
    ensures
        !spec_in_bounds(p),
        -WINDOW_W <= p.x < WINDOW_W,
        -WINDOW_H <= p.y < WINDOW_H,
{
    let mut tries: u32 = 0;
    while tries < MAX_DRAWS
        invariant
            tries <= MAX_DRAWS,
        decreases MAX_DRAWS - tries,
    {
        let p: Vec2 = Vec2 { x: draw(-WINDOW_W, WINDOW_W), y: draw(-WINDOW_H, WINDOW_H) };
        if !in_bounds(p) {
            return p;
        }
        tries = tries + 1;
    }
    Vec2 { x: draw(HALF_W + 1, WINDOW_W), y: draw(-WINDOW_H, WINDOW_H) }
}

impl Asteroid {
    /// Builds the asteroid that given draws stand for. An outline needs a ray.
    pub fn assemble(
        size: AsteroidSize,
        pos: Vec2,
        target: Vec2,
        pace: Fixed,
        mags: &Vec<Fixed>,
    ) -> (a: Asteroid)
        requires
            mags@.len() > 0,
        ensures
            a@ == spec_assemble((Blueprint { size, pos, target, pace, mags: mags@ })),
    {
        let radius: Fixed = size.radius();
        let velocity: Vec2 = aim(pos, target).scaled(times(MAX_SPEED, pace));
        let n: usize = mags.len();
        let mut points: Vec<Vec2> = Vec::new();
        let mut i: usize = 0;
        while i < n
            invariant
                i <= n,
                n == mags@.len(),
                points@.len() == i,
                forall|j: int| 0 <= j < i ==> points@[j] == spec_ray(radius, mags@, j),
            decreases n - i,
        {
            let theta: Fixed = ray_angle(i, n);
            points.push(Vec2::from_angle(theta).scaled(times(radius, mags[i])));
            i = i + 1;
        }
        let first: Vec2 = points[0];
        points.push(first);
        assert(points@ == spec_outline(radius, mags@));
        Asteroid {
            size,
            radius,
            points,
            velocity,
            pos,
            particles: Vec::new(),
            destroyed: false,
            stale: false,
        }
    }

    /// A new asteroid of the size and at the position asked for; of any size
    /// where none is given, and outside the arena where no position is given.
    /// It sets out for a point in the arena.
    pub fn generate(size: Option<AsteroidSize>, pos: Option<Vec2>) -> (a: Asteroid)
        ensures
            generated(a@, size, pos),
    {
        let pos_taken: Vec2 = match pos {
            Some(p) => p,
            None => spawn_point(),
        };
        let size_taken: AsteroidSize = match size {
            Some(s) => s,
            None => weighted_size(),
        };
        let pace: Fixed = rng_min(SPEED_FLOOR);
        let target: Vec2 = Vec2 { x: draw(-HALF_W, HALF_W), y: draw(-HALF_H, HALF_H) };
        let rays: i64 = draw(MIN_RAYS, MAX_RAYS + 1);
        let mut mags: Vec<Fixed> = Vec::new();
        let mut i: i64 = 0;
        while i < rays
            invariant
                0 <= i <= rays,
                mags@.len() == i,
                forall|j: int| 0 <= j < i ==> OUTLINE_FLOOR <= #[trigger] mags@[j] < ONE,
            decreases rays - i,
        {
            mags.push(rng_min(OUTLINE_FLOOR));
            i = i + 1;
        }
        let a: Asteroid = Asteroid::assemble(size_taken, pos_taken, target, pace, &mags);
        proof {
            let b = Blueprint { size: size_taken, pos: pos_taken, target, pace, mags: mags@ };
            assert(b.drawn());
            assert(a@ == spec_assemble(b));
        }
        a
    }

    /// Sets the sparks of one burst free where the asteroid is.
    pub fn generate_particles(&mut self)
        ensures
            burst(old(self)@.particles, final(self)@.particles, old(self).pos, 1),
            final(self)@ == (AsteroidView { particles: final(self)@.particles, ..old(self)@ }),
    {
        let ghost before: Seq<Particle> = self.particles@;
        let origin: Vec2 = self.pos;
        let mut i: usize = 0;
        while i < PARTICLE_COUNT
            invariant
                i <= PARTICLE_COUNT,
                self.particles@.len() == before.len() + i,
                self.particles@.subrange(0, before.len() as int) == before,
                forall|j: int|
                    before.len() <= j < self.particles@.len() ==> fresh_particle(
                        #[trigger] self.particles@[j],
                        origin,
                    ),
                self@ == (AsteroidView { particles: self@.particles, ..old(self)@ }),
            decreases PARTICLE_COUNT - i,
        {
            let theta: Fixed = draw(0, FULL_TURN);
            let pace: Fixed = rng_min(PARTICLE_FLOOR);
            self.particles.push(Particle::spawn(origin, theta, pace));
            i = i + 1;
        }
    }

    /// Moves the sparks of a burst asteroid on by one tick. The first spark
    /// that is found too far from the asteroid marks the whole cloud as stale.
    pub fn update_particles(&mut self, global_delta: Fixed)
        ensures
            final(self)@ == (AsteroidView {
                particles: spec_drift_all(old(self)@.particles, old(self).pos, global_delta),
                stale: old(self).stale || first_escape(
                    old(self)@.particles,
                    old(self).pos,
                    global_delta,
                    0,
                ) < old(self)@.particles.len(),
                ..old(self)@
            }),
    {
        let ghost before: Seq<Particle> = self.particles@;
        let origin: Vec2 = self.pos;
        let n: usize = self.particles.len();
        let mut i: usize = 0;
        let mut escaped: bool = false;
        while i < n && !escaped
            invariant
                i <= n,
                n == before.len(),
                self.particles@.len() == n,
                self@ == (AsteroidView { particles: self@.particles, stale: self.stale, ..old(self)@ }),
                origin == old(self).pos,
                before == old(self)@.particles,
                self.stale == (old(self).stale || escaped),
                escaped ==> i > 0 && first_escape(before, origin, global_delta, 0) == i - 1,
                !escaped ==> first_escape(before, origin, global_delta, 0) == first_escape(
                    before,
                    origin,
                    global_delta,
                    i as int,
                ),
                forall|j: int| 0 <= j < i ==> self.particles@[j] == before[j].spec_drifted(global_delta),
                forall|j: int| i <= j < n ==> self.particles@[j] == before[j],
            decreases n - i + if escaped { 0int } else { 1int },
        {
            let moved: Particle = self.particles[i].drifted(global_delta);
            self.particles.set(i, moved);
            if moved.scattered(origin) {
                self.stale = true;
                escaped = true;
            }
            i = i + 1;
        }
        assert(self.particles@ == spec_drift_all(before, origin, global_delta));
    }

    /// Breaks the asteroid: two or three new ones of the next smaller class
    /// join `new`, each where this one is.
    pub fn split(&self, new: &mut Vec<Asteroid>)
        ensures
            pieces(old(new)@, final(new)@, self.size.spec_split_size(), self.pos, 1),
    {
        let ghost before: Seq<Asteroid> = new@;
        let count: i64 = draw(MIN_PIECES, MAX_PIECES + 1);
        let size: AsteroidSize = self.size.split_size();
        let mut i: i64 = 0;
        while i < count
            invariant
                0 <= i <= count,
                MIN_PIECES <= count <= MAX_PIECES,
                size == self.size.spec_split_size(),
                new@.len() == before.len() + i,
                new@.subrange(0, before.len() as int) == before,
                forall|j: int|
                    before.len() <= j < new@.len() ==> generated(
                        (#[trigger] new@[j])@,
                        Some(size),
                        Some(self.pos),
                    ),
            decreases count - i,
        {
            new.push(Asteroid::generate(Some(size), Some(self.pos)));
            i = i + 1;
        }
    }

    /// Whether the asteroid, where it is now, is gone for good.
    pub fn leaving(&self) -> (b: bool)
        ensures
            b == spec_leaving(self.pos, self.velocity, self.radius),
    {
        let outward: Fixed = self.velocity.dot(Vec2::zero().minus(self.pos));
        if outward < 0 {
            proof {
                lemma_dot_of_zero(self.velocity, (Vec2 { x: 0, y: 0 }).spec_minus(self.pos));
            }
            let tail: Vec2 = self.pos.minus(self.velocity.normalized().scaled(self.radius));
            !in_bounds(tail)
        } else {
            false
        }
    }

    /// One tick of length `global_delta` in the life of the asteroid.
    ///
    /// A burst asteroid only moves its sparks. A whole one moves; if it is
    /// then gone for good it is marked stale and nothing else happens. If not,
    /// every laser that touches it is marked as a hit, adds the worth of the
    /// asteroid to the score and asks for a sound; and for each such laser the
    /// asteroid bursts, where it is of the smallest class, or breaks into
    /// pieces that join `new` and is marked stale.
    pub fn update(
        &mut self,
        score: &mut u32,
        global_delta: Fixed,
        lasers: &mut Vec<Laser>,
        new: &mut Vec<Asteroid>,
        to_play: &mut Vec<Cue>,
    )
        ensures
            old(self).destroyed ==> final(self).destroyed,
            old(self).stale ==> final(self).stale,
            updated(old(self)@, final(self)@, global_delta, old(lasers)@),
            final(lasers)@ == spec_lasers_after(old(self)@, global_delta, old(lasers)@),
            *final(score) == spec_gain(
                *old(score),
                spec_hits(old(self)@, global_delta, old(lasers)@),
                old(self).size.spec_score(),
            ),
            final(to_play)@ == old(to_play)@ + repeated(
                Cue::Asteroid,
                spec_hits(old(self)@, global_delta, old(lasers)@),
            ),
            offspring(old(self)@, global_delta, old(lasers)@, old(new)@, final(new)@),
    {
        proof {
            lemma_gain_more(*score, 0, self.size.spec_score() as u32);
        }
        if self.destroyed {
            self.update_particles(global_delta);
            return ;
        }
        self.pos = self.pos.plus(self.velocity.scaled(global_delta));
        if self.leaving() {
            self.stale = true;
            return ;
        }
        let ghost start: AsteroidView = old(self)@;
        let ghost lasers_before: Seq<Laser> = lasers@;
        let ghost new_before: Seq<Asteroid> = new@;
        let ghost cues_before: Seq<Cue> = to_play@;
        let ghost score_before: u32 = *score;
        let center: Vec2 = self.pos;
        let radius: Fixed = self.radius;
        let worth: u32 = self.size.score();
        let tiny: bool = self.size == AsteroidSize::Tiny;
        let count: usize = lasers.len();
        let mut hits: Ghost<nat> = Ghost(0);
        let mut i: usize = 0;
        proof {
            assert(lasers_before.subrange(0, 0).len() == 0);
            assert(to_play@ == cues_before + repeated(Cue::Asteroid, 0));
            lemma_burst_none(start.particles, center);
            lemma_pieces_none(new_before, start.size.spec_split_size(), center);
            lemma_gain_more(score_before, 0, worth);
        }
        while i < count
            invariant
                i <= count,
                count == lasers_before.len(),
                lasers@.len() == count,
                center == spec_moved(start, global_delta),
                radius == start.radius,
                worth == start.size.spec_score(),
                tiny == (start.size == AsteroidSize::Tiny),
                !start.destroyed,
                hits@ == hit_count(center, radius, lasers_before.subrange(0, i as int)),
                forall|j: int| 0 <= j < i ==> lasers@[j] == marked(lasers_before, center, radius)[j],
                forall|j: int| i <= j < count ==> lasers@[j] == lasers_before[j],
                *score == spec_gain(score_before, hits@, worth as int),
                to_play@ == cues_before + repeated(Cue::Asteroid, hits@),
                struck(start, self@, global_delta, hits@),
                if tiny {
                    new@ == new_before
                } else {
                    pieces(new_before, new@, start.size.spec_split_size(), center, hits@)
                },
            decreases count - i,
        {
            let laser: Laser = lasers[i];
            proof {
                let upto = lasers_before.subrange(0, i + 1);
                assert(upto.drop_last() == lasers_before.subrange(0, i as int));
                assert(upto.last() == lasers_before[i as int]);
            }
            if center.within(laser.pos, radius) {
                let ghost before_hit: nat = hits@;
                let ghost sparks: Seq<Particle> = self.particles@;
                let ghost grown: Seq<Asteroid> = new@;
                lasers.set(i, Laser { dir: laser.dir, pos: laser.pos, hit: true });
                proof {
                    hits@ = hits@ + 1;
                    lemma_gain_more(score_before, before_hit, worth);
                }
                *score = score.saturating_add(worth);
                to_play.push(Cue::Asteroid);
                assert(to_play@ == cues_before + repeated(Cue::Asteroid, hits@));
                if tiny {
                    self.destroyed = true;
                    self.generate_particles();
                    proof {
                        lemma_burst_more(start.particles, sparks, self.particles@, center, before_hit);
                    }
                } else {
                    self.stale = true;
                    self.split(new);
                    proof {
                        lemma_pieces_more(
                            new_before,
                            grown,
                            new@,
                            start.size.spec_split_size(),
                            center,
                            before_hit,
                        );
                    }
                }
            }
            i = i + 1;
        }
        assert(lasers_before.subrange(0, count as int) == lasers_before);
        assert(lasers@ == marked(lasers_before, center, radius));
    }
}

} // verus!
