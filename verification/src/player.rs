//! The ship: how it flies, fires, is hit and comes apart.

use vstd::prelude::*;
use crate::angle::{lemma_sin_arc_quarter, sin_arc, spec_cos, spec_reduce, spec_sin, FULL_TURN,
    HALF_TURN, QUARTER_TURN};
use crate::arena::{spec_wrap, wrap, HALF_H, HALF_W};
use crate::asteroid::Asteroid;
use crate::config::{EXPLOSION_DURATION, KEPT, LASER_COOLDOWN, MAX_LIVES, NOSE_OFFSET, ROT_SPEED,
    SEGMENT_FLOOR, SEGMENT_SPEED, SPEED};
use crate::cue::Cue;
use crate::fixed::{is_sqrt, lemma_sqrt_unique, minus, plus, spec_minus, spec_plus, spec_times,
    times, Fixed, ONE};
use crate::laser::Laser;
use crate::random::{draw, rng_min};
use crate::sweep::{clean_vec, flagged, lemma_flagged, spec_clean_vec};
use crate::vector::{len_sq, Vec2};

verus! {

/// Three quarters of a turn: the ship's outline points up where its angle is
/// zero, so its nose is this much behind its angle.
pub const NOSE_LAG: i64 = 4_712_388;

/// What the player asks of the ship in one tick. Each is a level, not an edge:
/// it holds for as long as the player holds the key.
#[derive(Clone, Copy, Debug, PartialEq, Eq, Structural)]
pub struct Input {
    pub left: bool,
    pub right: bool,
    pub thrust: bool,
    pub fire: bool,
}

/// One edge of the ship's outline, which flies off on its own when the ship
/// explodes.
#[derive(Clone, Copy, Debug, PartialEq, Eq, Structural)]
pub struct ShipSegment {
    /// The angle at which the fragment flies.
    pub dir: Fixed,
    /// Its speed, per second.
    pub speed: Fixed,
    /// The angle by which the fragment is turned.
    pub angle: Fixed,
    /// How far it has flown since the explosion.
    pub ds: Vec2,
    /// The two ends of the edge, for a ship of size one at the origin.
    pub start: Vec2,
    pub end: Vec2,
}

impl ShipSegment {
    /// The fragment as an explosion sends it off: with the share `pace` of the
    /// greatest speed, in the direction `dir`, turned by `angle`, from where
    /// the ship is.
    pub open spec fn spec_launched(self, pace: Fixed, dir: Fixed, angle: Fixed) -> ShipSegment {
        ShipSegment {
            speed: spec_times(SEGMENT_SPEED as int, pace as int) as i64,
            dir,
            angle,
            ds: Vec2 { x: 0, y: 0 },
            ..self
        }
    }

    /// The fragment one tick of length `dt` later: drag takes its share of the
    /// speed first, then the fragment moves at what is left.
    pub open spec fn spec_tumbled(self, dt: Fixed) -> ShipSegment {
        let speed = spec_times(self.speed as int, KEPT as int) as i64;
        ShipSegment {
            speed,
            ds: self.ds.spec_plus(Vec2::spec_from_angle(self.dir).spec_scaled(speed).spec_scaled(dt)),
            ..self
        }
    }

    /// The fragment as an explosion sends it off, for the draws given.
    pub fn launched(self, pace: Fixed, dir: Fixed, angle: Fixed) -> (s: ShipSegment)
        ensures
            s == self.spec_launched(pace, dir, angle),
    {
        ShipSegment {
            dir,
            speed: times(SEGMENT_SPEED, pace),
            angle,
            ds: Vec2::zero(),
            start: self.start,
            end: self.end,
        }
    }

    /// The fragment one tick of length `dt` later.
    pub fn tumbled(self, dt: Fixed) -> (s: ShipSegment)
        ensures
            s == self.spec_tumbled(dt),
    {
        let speed: Fixed = times(self.speed, KEPT);
        ShipSegment {
            dir: self.dir,
            speed,
            angle: self.angle,
            ds: self.ds.plus(Vec2::from_angle(self.dir).scaled(speed).scaled(dt)),
            start: self.start,
            end: self.end,
        }
    }
}

/// Whether `after` is the fragment `before` as an explosion sends it off: with
/// a speed that is not below the floor, in some direction, turned somehow.
pub open spec fn flung(before: ShipSegment, after: ShipSegment) -> bool {
    exists|pace: Fixed, dir: Fixed, angle: Fixed|
        SEGMENT_FLOOR <= pace < ONE && 0 <= dir < FULL_TURN && 0 <= angle < FULL_TURN && after
            == #[trigger] before.spec_launched(pace, dir, angle)
}

/// Whether `after` holds the fragments `before` as an explosion sends them off.
pub open spec fn scattered(before: Seq<ShipSegment>, after: Seq<ShipSegment>) -> bool {
    &&& after.len() == before.len()
    &&& forall|i: int| 0 <= i < before.len() ==> flung(before[i], #[trigger] after[i])
}

/// The ship.
#[derive(Clone, Debug, PartialEq, Eq)]
pub struct Player {
    pub lives: u32,
    /// The angle that the ship faces, zero for straight up.
    pub angle_r: Fixed,
    /// The velocity, per tick.
    pub velocity: Vec2,
    /// Whether the engine ran in the last tick.
    pub thrusting: bool,
    pub pos: Vec2,
    pub exploding: bool,
    /// The time since the ship was hit, while it explodes.
    pub explosion_delta: Fixed,
    /// The outline of the engine's flame, for a ship of size one at the origin.
    pub flames: Vec<Vec2>,
    /// The outline of the ship: a closed polygon, for a ship of size one at the
    /// origin.
    pub points: Vec<Vec2>,
    /// The fragments that the outline comes apart into.
    pub segments: Vec<ShipSegment>,
    /// The time until the ship can fire again.
    pub laser_cooldown: Fixed,
    pub lasers: Vec<Laser>,
}

/// The ship as a mathematical value.
pub struct PlayerView {
    pub lives: u32,
    pub angle_r: Fixed,
    pub velocity: Vec2,
    pub thrusting: bool,
    pub pos: Vec2,
    pub exploding: bool,
    pub explosion_delta: Fixed,
    pub flames: Seq<Vec2>,
    pub points: Seq<Vec2>,
    pub segments: Seq<ShipSegment>,
    pub laser_cooldown: Fixed,
    pub lasers: Seq<Laser>,
}

impl View for Player {
    type V = PlayerView;

    open spec fn view(&self) -> PlayerView {
        PlayerView {
            lives: self.lives,
            angle_r: self.angle_r,
            velocity: self.velocity,
            thrusting: self.thrusting,
            pos: self.pos,
            exploding: self.exploding,
            explosion_delta: self.explosion_delta,
            flames: self.flames@,
            points: self.points@,
            segments: self.segments@,
            laser_cooldown: self.laser_cooldown,
            lasers: self.lasers@,
        }
    }
}

/// The test by which the ship drops a laser.
pub open spec fn spent_mark() -> spec_fn(Laser) -> bool {
    |l: Laser| l.spec_spent()
}

/// The time left until the next shot, `dt` after `cooldown` was left; never
/// less than none.
pub open spec fn spec_cooled(cooldown: Fixed, dt: Fixed) -> Fixed {
    let left = spec_minus(cooldown as int, dt as int);
    if left < 0 {
        0
    } else {
        left as i64
    }
}

/// All the lasers after flying for `dt`.
pub open spec fn spec_advance_all(lasers: Seq<Laser>, dt: Fixed) -> Seq<Laser> {
    Seq::new(lasers.len(), |i: int| lasers[i].spec_advanced(dt))
}

/// Whether a ship at `pos` is within the disc of a whole asteroid.
pub open spec fn spec_touches(pos: Vec2, asteroid: Asteroid) -> bool {
    !asteroid.destroyed && pos.spec_inside(asteroid.pos, asteroid.radius)
}

/// Whether a ship at `pos` is within the disc of any whole asteroid.
pub open spec fn spec_collides(pos: Vec2, asteroids: Seq<Asteroid>) -> bool {
    exists|i: int| 0 <= i < asteroids.len() && spec_touches(pos, #[trigger] asteroids[i])
}

/// The outline of the ship: a triangle, nose up, closed by its first point.
pub open spec fn spec_outline() -> Seq<Vec2> {
    seq![
        Vec2 { x: (-350_000) as i64, y: (-500_000) as i64 },
        Vec2 { x: 0, y: 500_000 },
        Vec2 { x: 350_000, y: (-500_000) as i64 },
        Vec2 { x: (-350_000) as i64, y: (-500_000) as i64 },
    ]
}

/// The outline of the flame behind the ship.
pub open spec fn spec_flames() -> Seq<Vec2> {
    seq![
        Vec2 { x: (-200_000) as i64, y: (-500_000) as i64 },
        Vec2 { x: 0, y: (-1_000_000) as i64 },
        Vec2 { x: 200_000, y: (-500_000) as i64 },
    ]
}

/// The fragment for the edge that leaves point `i` of `points`; the edge
/// that leaves the last point leads back to the first.
pub open spec fn spec_edge(points: Seq<Vec2>, i: int) -> ShipSegment {
    ShipSegment {
        dir: 0,
        speed: 0,
        angle: 0,
        ds: Vec2 { x: 0, y: 0 },
        start: points[i],
        end: points[(i + 1) % (points.len() as int)],
    }
}

impl PlayerView {
    /// The ship at the start of a game: at rest at the origin, facing up, with
    /// all its lives and nothing fired.
    pub open spec fn spec_new() -> PlayerView {
        PlayerView {
            lives: MAX_LIVES,
            angle_r: 0,
            velocity: Vec2 { x: 0, y: 0 },
            thrusting: false,
            pos: Vec2 { x: 0, y: 0 },
            exploding: false,
            explosion_delta: 0,
            flames: spec_flames(),
            points: spec_outline(),
            segments: Seq::new(spec_outline().len(), |i: int| spec_edge(spec_outline(), i)),
            laser_cooldown: 0,
            lasers: Seq::empty(),
        }
    }

    /// The ship after its lasers have flown for `dt` and those that left the
    /// arena or hit something have been dropped.
    pub open spec fn spec_update_lasers(self, dt: Fixed) -> PlayerView {
        let flown = spec_advance_all(self.lasers, dt);
        PlayerView {
            laser_cooldown: spec_cooled(self.laser_cooldown, dt),
            lasers: spec_clean_vec(flown, flagged(flown, spent_mark())),
            ..self
        }
    }

    /// The ship put back at the origin after an explosion, at rest and facing
    /// up.
    pub open spec fn spec_reset(self) -> PlayerView {
        PlayerView {
            pos: Vec2 { x: 0, y: 0 },
            angle_r: 0,
            velocity: Vec2 { x: 0, y: 0 },
            explosion_delta: 0,
            exploding: false,
            ..self
        }
    }

    /// The exploding ship after its fragments have flown for `dt`.
    pub open spec fn spec_update_explosion(self, dt: Fixed) -> PlayerView {
        PlayerView {
            explosion_delta: spec_plus(self.explosion_delta as int, dt as int) as i64,
            segments: Seq::new(self.segments.len(), |i: int| self.segments[i].spec_tumbled(dt)),
            ..self
        }
    }

    /// The ship before it looks at the player's keys: the lasers have flown,
    /// and an explosion that has lasted its time is over.
    pub open spec fn spec_settled(self, dt: Fixed) -> PlayerView {
        let flown = self.spec_update_lasers(dt);
        if flown.explosion_delta > EXPLOSION_DURATION {
            flown.spec_reset()
        } else {
            flown
        }
    }

    /// The unit vector from the ship's centre to its nose.
    pub open spec fn spec_heading(self) -> Vec2 {
        Vec2::spec_from_angle(spec_minus(self.angle_r as int, NOSE_LAG as int) as i64)
    }

    /// Whether the ship fires in this tick: the player asks for it and the
    /// time since the last shot is over.
    pub open spec fn spec_fires(self, input: Input) -> bool {
        input.fire && self.laser_cooldown <= 0
    }

    /// The angle that the ship faces after the keys have turned it.
    pub open spec fn spec_turned(self, input: Input) -> Fixed {
        let right = if input.right {
            spec_minus(self.angle_r as int, ROT_SPEED as int)
        } else {
            self.angle_r as int
        };
        if input.left {
            spec_plus(right, ROT_SPEED as int) as i64
        } else {
            right as i64
        }
    }

    /// The laser that the ship fires: at its nose, flying where the ship faces.
    pub open spec fn spec_shot(self) -> Laser {
        Laser {
            dir: self.spec_heading(),
            pos: self.pos.spec_plus(self.spec_heading().spec_scaled(NOSE_OFFSET)),
            hit: false,
        }
    }

    /// The flying ship after the player's keys have had their effect. Thrust
    /// and shot go where the ship faced before it turned.
    pub open spec fn spec_steered(self, dt: Fixed, input: Input) -> PlayerView {
        PlayerView {
            angle_r: self.spec_turned(input),
            velocity: if input.thrust {
                self.velocity.spec_plus(self.spec_heading().spec_scaled(SPEED).spec_scaled(dt))
            } else {
                self.velocity
            },
            thrusting: input.thrust,
            lasers: if self.spec_fires(input) {
                self.lasers.push(self.spec_shot())
            } else {
                self.lasers
            },
            laser_cooldown: if self.spec_fires(input) {
                LASER_COOLDOWN
            } else {
                self.laser_cooldown
            },
            ..self
        }
    }

    /// The flying ship after drag has taken its share of the velocity and the
    /// ship has moved by what is left, through an edge of the arena and in
    /// through the opposite one where it has to.
    pub open spec fn spec_coasted(self) -> PlayerView {
        let velocity = self.velocity.spec_scaled(KEPT);
        PlayerView { velocity, pos: spec_wrap(self.pos.spec_plus(velocity)), ..self }
    }

    /// The ship after an asteroid has hit it, but for its fragments: it has a
    /// life less, and its explosion begins.
    pub open spec fn spec_crashed(self) -> PlayerView {
        PlayerView {
            lives: if self.lives == 0 {
                0
            } else {
                (self.lives - 1) as u32
            },
            exploding: true,
            explosion_delta: 0,
            ..self
        }
    }

    /// Whether the ship runs into an asteroid in this tick.
    pub open spec fn spec_crashes(self, dt: Fixed, input: Input, asteroids: Seq<Asteroid>) -> bool {
        let settled = self.spec_settled(dt);
        !settled.exploding && spec_collides(
            settled.spec_steered(dt, input).spec_coasted().pos,
            asteroids,
        )
    }

    /// The ship after a tick of length `dt`, but for the fragments of a ship
    /// that runs into an asteroid in this tick: those are as they were.
    pub open spec fn spec_update(self, dt: Fixed, input: Input, asteroids: Seq<Asteroid>) -> PlayerView {
        let settled = self.spec_settled(dt);
        if settled.exploding {
            settled.spec_update_explosion(dt)
        } else {
            let cruised = settled.spec_steered(dt, input).spec_coasted();
            if spec_collides(cruised.pos, asteroids) {
                cruised.spec_crashed()
            } else {
                cruised
            }
        }
    }

    /// The sounds that the ship asks for in this tick, in their order.
    pub open spec fn spec_cues(self, dt: Fixed, input: Input, asteroids: Seq<Asteroid>) -> Seq<Cue> {
        let settled = self.spec_settled(dt);
        if settled.exploding {
            Seq::empty()
        } else {
            let thrust = if input.thrust {
                seq![Cue::Thrust]
            } else {
                Seq::empty()
            };
            let shoot = if settled.spec_fires(input) {
                seq![Cue::Shoot]
            } else {
                Seq::empty()
            };
            let explode = if self.spec_crashes(dt, input, asteroids) {
                seq![Cue::Explode]
            } else {
                Seq::empty()
            };
            thrust + shoot + explode
        }
    }
}

/// A ship whose angle is zero points straight up.
pub proof fn lemma_heading_up(p: PlayerView)
    requires
        p.angle_r == 0,
    ensures
        p.spec_heading() == (Vec2 { x: 0, y: ONE }),
{
    let a: int = spec_minus(0, NOSE_LAG as int);
    assert(a == -4_712_388);
    assert(spec_reduce(a) == QUARTER_TURN);
    lemma_sin_arc_quarter();
    assert(spec_sin(a) == ONE);
    assert(spec_reduce(QUARTER_TURN + QUARTER_TURN) == HALF_TURN);
    assert(sin_arc(HALF_TURN as int) == 0) by {
        assert(HALF_TURN * (HALF_TURN - HALF_TURN) == 0);
    }
    assert(spec_cos(a) == 0);
    let up = Vec2 { x: 0, y: ONE };
    assert(len_sq(up) == 1_000_000_000_000) by (nonlinear_arith)
        requires
            up.x == 0,
            up.y == 1_000_000,
    ;
    assert(is_sqrt(1_000_000_000_000, 1_000_000)) by (nonlinear_arith);
    lemma_sqrt_unique(1_000_000_000_000, 1_000_000);
    assert(up.spec_norm() == 1_000_000);
    assert(up.y * ONE == 1_000_000_000_000) by (nonlinear_arith)
        requires
            up.y == 1_000_000,
    ;
    assert(up.x * ONE == 0);
}

/// Drag never stops a moving thing and never speeds it up: what it leaves of a
/// speed other than zero is other than zero, of the same sign and not greater
/// in size, and smaller in size wherever the share of drag comes to half a raw
/// unit or more.
pub proof fn lemma_drag_decays(v: Fixed)
    ensures
        v > 0 ==> 0 < spec_times(v as int, KEPT as int) <= v,
        v < 0 ==> v <= spec_times(v as int, KEPT as int) < 0,
        v == 0 ==> spec_times(v as int, KEPT as int) == 0,
        v >= 3_334 ==> spec_times(v as int, KEPT as int) < v,
        v <= -3_334 ==> spec_times(v as int, KEPT as int) > v,
{
    let m: int = if v < 0 {
        -v
    } else {
        v as int
    };
    let n: int = m * KEPT;
    assert(n == m * 999_850);
    let q: int = (n + 500_000) / 1_000_000;
    assert(q * 1_000_000 <= n + 500_000 < (q + 1) * 1_000_000);
    if v > 0 {
        assert(v * KEPT == n);
    } else if v < 0 {
        assert(v * KEPT == -n) by (nonlinear_arith)
            requires
                n == (-v) * KEPT,
        ;
    }
}

/// A flying ship whose engine does not run keeps, after one tick, what drag
/// leaves of its velocity, whether or not it passes an edge of the arena or
/// runs into an asteroid.
pub proof fn lemma_coasting_velocity(p: PlayerView, dt: Fixed, input: Input, asteroids: Seq<Asteroid>)
    requires
        !p.exploding,
        p.explosion_delta <= EXPLOSION_DURATION,
        !input.thrust,
    ensures
        p.spec_update(dt, input, asteroids).velocity == p.velocity.spec_scaled(KEPT),
{
}

/// A flying ship at rest that is beyond the right edge of the arena by `eps`
/// is, after one tick, as far inside the left edge, and still at rest; and so
/// for the other edges.
pub proof fn lemma_wrap_at_rest(
    p: PlayerView,
    dt: Fixed,
    input: Input,
    asteroids: Seq<Asteroid>,
    eps: int,
)
    requires
        !p.exploding,
        p.explosion_delta <= EXPLOSION_DURATION,
        !input.thrust,
        p.velocity == (Vec2 { x: 0, y: 0 }),
        eps > 0,
    ensures
        p.spec_update(dt, input, asteroids).velocity == p.velocity,
        p.spec_update(dt, input, asteroids).pos == spec_wrap(p.pos),
        p.pos.x == HALF_W + eps ==> p.spec_update(dt, input, asteroids).pos.x == eps - HALF_W,
        p.pos.x == -HALF_W - eps ==> p.spec_update(dt, input, asteroids).pos.x == HALF_W - eps,
        p.pos.y == HALF_H + eps ==> p.spec_update(dt, input, asteroids).pos.y == eps - HALF_H,
        p.pos.y == -HALF_H - eps ==> p.spec_update(dt, input, asteroids).pos.y == HALF_H - eps,
{
    lemma_drag_decays(0);
}

/// A tick takes a life from the ship if and only if the ship runs into an
/// asteroid in it, and then exactly one, unless there is none left to take.
pub proof fn lemma_lives_after_tick(p: PlayerView, dt: Fixed, input: Input, asteroids: Seq<Asteroid>)
    ensures
        p.spec_update(dt, input, asteroids).lives <= p.lives,
        !p.spec_crashes(dt, input, asteroids) ==> p.spec_update(dt, input, asteroids).lives
            == p.lives,
        p.spec_crashes(dt, input, asteroids) && p.lives > 0 ==> {
            &&& p.spec_update(dt, input, asteroids).lives == p.lives - 1
            &&& p.spec_update(dt, input, asteroids).exploding
            &&& p.spec_update(dt, input, asteroids).explosion_delta == 0
        },
{
}

impl Player {
    /// The ship at the start of a game.
    pub fn new() -> (p: Player)
        ensures
            p@ == PlayerView::spec_new(),
    {
        let mut points: Vec<Vec2> = Vec::new();
        points.push(Vec2 { x: -350_000, y: -500_000 });
        points.push(Vec2 { x: 0, y: 500_000 });
        points.push(Vec2 { x: 350_000, y: -500_000 });
        points.push(Vec2 { x: -350_000, y: -500_000 });
        let mut flames: Vec<Vec2> = Vec::new();
        flames.push(Vec2 { x: -200_000, y: -500_000 });
        flames.push(Vec2 { x: 0, y: -1_000_000 });
        flames.push(Vec2 { x: 200_000, y: -500_000 });
        assert(points@ == spec_outline());
        assert(flames@ == spec_flames());
        let mut segments: Vec<ShipSegment> = Vec::new();
        let n: usize = points.len();
        let mut i: usize = 0;
        while i < n
            invariant
                i <= n,
                n == 4,
                points@ == spec_outline(),
                segments@.len() == i,
                forall|j: int| 0 <= j < i ==> segments@[j] == spec_edge(spec_outline(), j),
            decreases n - i,
        {
            segments.push(
                ShipSegment {
                    dir: 0,
                    speed: 0,
                    angle: 0,
                    ds: Vec2::zero(),
                    start: points[i],
                    end: points[(i + 1) % n],
                },
            );
            i = i + 1;
        }
        assert(segments@ == Seq::new(spec_outline().len(), |i: int| spec_edge(spec_outline(), i)));
        Player {
            lives: MAX_LIVES,
            angle_r: 0,
            velocity: Vec2::zero(),
            thrusting: false,
            pos: Vec2::zero(),
            exploding: false,
            explosion_delta: 0,
            flames,
            points,
            segments,
            laser_cooldown: 0,
            lasers: Vec::new(),
        }
    }

    /// Sends every fragment off from where the ship is.
    pub fn explode(&mut self)
        ensures
            scattered(old(self)@.segments, final(self)@.segments),
            final(self)@ == (PlayerView { segments: final(self)@.segments, ..old(self)@ }),
    {
        let ghost before: Seq<ShipSegment> = self.segments@;
        let n: usize = self.segments.len();
        let mut i: usize = 0;
        while i < n
            invariant
                i <= n,
                n == before.len(),
                self.segments@.len() == n,
                self@ == (PlayerView { segments: self@.segments, ..old(self)@ }),
                forall|j: int| 0 <= j < i ==> flung(before[j], #[trigger] self.segments@[j]),
                forall|j: int| i <= j < n ==> self.segments@[j] == before[j],
            decreases n - i,
        {
            let pace: Fixed = rng_min(SEGMENT_FLOOR);
            let dir: Fixed = draw(0, FULL_TURN);
            let angle: Fixed = draw(0, FULL_TURN);
            let sent: ShipSegment = self.segments[i].launched(pace, dir, angle);
            self.segments.set(i, sent);
            i = i + 1;
        }
    }

    /// Lets the time since the last shot pass and the lasers fly, and drops
    /// the lasers that have left the arena or hit something.
    pub fn update_lasers(&mut self, global_delta: Fixed)
        ensures
            final(self)@ == old(self)@.spec_update_lasers(global_delta),
    {
        let left: Fixed = minus(self.laser_cooldown, global_delta);
        self.laser_cooldown = if left < 0 {
            0
        } else {
            left
        };
        let ghost before: Seq<Laser> = self.lasers@;
        let n: usize = self.lasers.len();
        let mut stale: Vec<usize> = Vec::new();
        let mut i: usize = 0;
        while i < n
            invariant
                i <= n,
                n == before.len(),
                self.lasers@.len() == n,
                self@ == (PlayerView {
                    lasers: self@.lasers,
                    laser_cooldown: spec_cooled(old(self).laser_cooldown, global_delta),
                    ..old(self)@
                }),
                forall|j: int| 0 <= j < i ==> self.lasers@[j] == before[j].spec_advanced(global_delta),
                forall|j: int| i <= j < n ==> self.lasers@[j] == before[j],
                stale@ == flagged(self.lasers@.subrange(0, i as int), spent_mark()),
            decreases n - i,
        {
            let ghost so_far: Seq<Laser> = self.lasers@.subrange(0, i as int);
            let moved: Laser = self.lasers[i].advanced(global_delta);
            self.lasers.set(i, moved);
            proof {
                let upto = self.lasers@.subrange(0, i + 1);
                assert(upto.drop_last() == so_far);
                assert(upto.last() == moved);
            }
            if moved.spent() {
                stale.push(i);
            }
            i = i + 1;
        }
        proof {
            assert(self.lasers@.subrange(0, n as int) == self.lasers@);
            assert(self.lasers@ == spec_advance_all(before, global_delta));
            lemma_flagged(self.lasers@, spent_mark());
        }
        clean_vec(&mut self.lasers, stale);
    }

    /// Lets the explosion go on for `global_delta`: the fragments slow down and
    /// fly on.
    pub fn update_explosion(&mut self, global_delta: Fixed)
        ensures
            final(self)@ == old(self)@.spec_update_explosion(global_delta),
    {
        self.explosion_delta = plus(self.explosion_delta, global_delta);
        let ghost before: Seq<ShipSegment> = self.segments@;
        let n: usize = self.segments.len();
        let mut i: usize = 0;
        while i < n
            invariant
                i <= n,
                n == before.len(),
                self.segments@.len() == n,
                self@ == (PlayerView {
                    segments: self@.segments,
                    explosion_delta: spec_plus(
                        old(self).explosion_delta as int,
                        global_delta as int,
                    ) as i64,
                    ..old(self)@
                }),
                forall|j: int| 0 <= j < i ==> self.segments@[j] == before[j].spec_tumbled(global_delta),
                forall|j: int| i <= j < n ==> self.segments@[j] == before[j],
            decreases n - i,
        {
            let moved: ShipSegment = self.segments[i].tumbled(global_delta);
            self.segments.set(i, moved);
            i = i + 1;
        }
        assert(self.segments@ == old(self)@.spec_update_explosion(global_delta).segments);
    }

    /// Puts the ship back at the origin, at rest and facing up, its explosion
    /// over.
    pub fn reset(&mut self)
        ensures
            final(self)@ == old(self)@.spec_reset(),
    {
        self.pos = Vec2::zero();
        self.angle_r = 0;
        self.velocity = Vec2::zero();
        self.explosion_delta = 0;
        self.exploding = false;
    }

    /// The unit vector from the ship's centre to its nose.
    pub fn heading(&self) -> (v: Vec2)
        ensures
            v == self@.spec_heading(),
    {
        Vec2::from_angle(minus(self.angle_r, NOSE_LAG))
    }

    /// Whether the ship, where it is, is within the disc of a whole asteroid.
    pub fn collides(&self, asteroids: &Vec<Asteroid>) -> (b: bool)
        ensures
            b == spec_collides(self.pos, asteroids@),
    {
        let n: usize = asteroids.len();
        let mut i: usize = 0;
        while i < n
            invariant
                i <= n,
                n == asteroids@.len(),
                forall|j: int| 0 <= j < i ==> !spec_touches(self.pos, #[trigger] asteroids@[j]),
            decreases n - i,
        {
            if !asteroids[i].destroyed && self.pos.inside(asteroids[i].pos, asteroids[i].radius) {
                assert(spec_touches(self.pos, asteroids@[i as int]));
                return true;
            }
            i = i + 1;
        }
        false
    }

    /// One tick of length `global_delta` in the life of the ship.
    ///
    /// The lasers fly on and the spent ones are dropped. An explosion that has
    /// lasted its time ends with the ship back at the origin. A ship that is
    /// still exploding lets its fragments fly and does nothing else. A flying
    /// ship turns, speeds up and fires as the player asks, loses speed to
    /// drag, moves, and explodes if it is then within a whole asteroid. The
    /// sounds that all this asks for are returned in their order.
    pub fn update(&mut self, global_delta: Fixed, input: Input, asteroids: &Vec<Asteroid>) -> (to_play:
        Vec<Cue>)
        ensures
            final(self)@ == (PlayerView {
                segments: final(self)@.segments,
                ..old(self)@.spec_update(global_delta, input, asteroids@)
            }),
            if old(self)@.spec_crashes(global_delta, input, asteroids@) {
                scattered(
                    old(self)@.spec_update(global_delta, input, asteroids@).segments,
                    final(self)@.segments,
                )
            } else {
                final(self)@.segments == old(self)@.spec_update(
                    global_delta,
                    input,
                    asteroids@,
                ).segments
            },
            to_play@ == old(self)@.spec_cues(global_delta, input, asteroids@),
    {
        let mut to_play: Vec<Cue> = Vec::new();
        self.update_lasers(global_delta);
        if self.explosion_delta > EXPLOSION_DURATION {
            self.reset();
        }
        let ghost settled: PlayerView = self@;
        assert(settled == old(self)@.spec_settled(global_delta));
        if self.exploding {
            self.update_explosion(global_delta);
            return to_play;
        }
        let direction: Vec2 = self.heading();
        if input.right {
            self.angle_r = minus(self.angle_r, ROT_SPEED);
        }
        if input.left {
            self.angle_r = plus(self.angle_r, ROT_SPEED);
        }
        if input.thrust {
            self.velocity = self.velocity.plus(direction.scaled(SPEED).scaled(global_delta));
            to_play.push(Cue::Thrust);
            self.thrusting = true;
        } else {
            self.thrusting = false;
        }
        if input.fire && self.laser_cooldown <= 0 {
            self.lasers.push(
                Laser { dir: direction, pos: self.pos.plus(direction.scaled(NOSE_OFFSET)), hit: false },
            );
            self.laser_cooldown = LASER_COOLDOWN;
            to_play.push(Cue::Shoot);
        }
        assert(self@ == settled.spec_steered(global_delta, input));
        self.velocity = self.velocity.scaled(KEPT);
        self.pos = wrap(self.pos.plus(self.velocity));
        assert(self@ == settled.spec_steered(global_delta, input).spec_coasted());
        if self.collides(asteroids) {
            if self.lives > 0 {
                self.lives = self.lives - 1;
            }
            self.exploding = true;
            self.explosion_delta = 0;
            self.explode();
            to_play.push(Cue::Explode);
        }
        assert(to_play@ == old(self)@.spec_cues(global_delta, input, asteroids@));
        to_play
    }
}

} // verus!
