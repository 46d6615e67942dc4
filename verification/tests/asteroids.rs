use rusteroids::arena::{in_bounds, HALF_W, WINDOW_H, WINDOW_W};
use rusteroids::asteroid::{aim, spawn_point, Asteroid};
use rusteroids::cue::Cue;
use rusteroids::fixed::ONE;
use rusteroids::laser::Laser;
use rusteroids::particle::Particle;
use rusteroids::size::AsteroidSize;
use rusteroids::vector::Vec2;

fn rock(size: AsteroidSize, pos: Vec2, velocity: Vec2) -> Asteroid {
    Asteroid {
        size,
        radius: size.radius(),
        points: vec![],
        velocity,
        pos,
        particles: vec![],
        destroyed: false,
        stale: false,
    }
}

fn laser_at(pos: Vec2) -> Laser {
    Laser { dir: Vec2::new(0, ONE), pos, hit: false }
}

#[test]
fn aim_points_at_the_target() {
    assert_eq!(aim(Vec2::new(0, 0), Vec2::new(3_000_000, 4_000_000)), Vec2::new(600_000, 800_000));
    assert_eq!(aim(Vec2::new(5, 5), Vec2::new(5, -5)), Vec2::new(0, -ONE));
    assert_eq!(aim(Vec2::new(7, 9), Vec2::new(7, 9)), Vec2::new(ONE, 0));
}

#[test]
fn spawn_point_is_outside_the_arena() {
    for _ in 0..500 {
        let p = spawn_point();
        assert!(!in_bounds(p));
        assert!(-WINDOW_W <= p.x && p.x < WINDOW_W);
        assert!(-WINDOW_H <= p.y && p.y < WINDOW_H);
    }
}

#[test]
fn assemble_gives_the_asteroid_of_the_draws() {
    let mags = vec![ONE / 2, ONE / 2, ONE / 2, ONE / 2];
    let a = Asteroid::assemble(
        AsteroidSize::Small,
        Vec2::new(0, 0),
        Vec2::new(3_000_000, 4_000_000),
        500_000,
        &mags,
    );
    assert_eq!(a.size, AsteroidSize::Small);
    assert_eq!(a.radius, 33_000_000);
    assert_eq!(a.pos, Vec2::new(0, 0));
    assert_eq!(a.velocity, Vec2::new(60_000_000, 80_000_000));
    assert_eq!(
        a.points,
        vec![
            Vec2::new(16_500_000, 0),
            Vec2::new(0, 16_500_000),
            Vec2::new(-16_500_000, 0),
            Vec2::new(0, -16_500_000),
            Vec2::new(16_500_000, 0),
        ]
    );
    assert!(a.particles.is_empty());
    assert!(!a.destroyed);
    assert!(!a.stale);
}

#[test]
fn assemble_with_a_single_ray() {
    let a = Asteroid::assemble(
        AsteroidSize::Huge,
        Vec2::new(1, 2),
        Vec2::new(1, 2),
        ONE - 1,
        &vec![ONE],
    );
    assert_eq!(a.points, vec![Vec2::new(82_500_000, 0), Vec2::new(82_500_000, 0)]);
    assert_eq!(a.velocity, Vec2::new(199_999_800, 0));
}

#[test]
fn generate_keeps_the_size_and_position_asked_for() {
    let p = Vec2::new(12_000_000, -34_000_000);
    for _ in 0..50 {
        let a = Asteroid::generate(Some(AsteroidSize::Large), Some(p));
        assert_eq!(a.size, AsteroidSize::Large);
        assert_eq!(a.radius, 66_000_000);
        assert_eq!(a.pos, p);
        assert!(!a.destroyed && !a.stale && a.particles.is_empty());
    }
}

#[test]
fn generate_without_position_starts_outside() {
    for _ in 0..200 {
        let a = Asteroid::generate(None, None);
        assert!(!in_bounds(a.pos));
        assert_eq!(a.radius, a.size.radius());
    }
}

#[test]
fn generate_outline_is_closed_and_not_degenerate() {
    for _ in 0..200 {
        let a = Asteroid::generate(Some(AsteroidSize::Medium), None);
        let n = a.points.len();
        assert!(9 <= n && n <= 14, "{} points", n);
        assert_eq!(a.points[0], a.points[n - 1]);
        for p in &a.points {
            let len = ((p.x as f64).powi(2) + (p.y as f64).powi(2)).sqrt();
            assert!(len >= 0.3499 * 57_750_000.0, "ray of length {}", len);
            assert!(len <= 1.0001 * 57_750_000.0, "ray of length {}", len);
        }
    }
}

#[test]
fn generate_speed_is_between_floor_and_maximum() {
    for _ in 0..200 {
        let a = Asteroid::generate(None, None);
        let speed = ((a.velocity.x as f64).powi(2) + (a.velocity.y as f64).powi(2)).sqrt();
        assert!(speed >= 0.2499 * 200_000_000.0, "speed {}", speed);
        assert!(speed <= 1.0001 * 200_000_000.0, "speed {}", speed);
    }
}

#[test]
fn generate_aims_at_the_arena() {
    for _ in 0..200 {
        let a = Asteroid::generate(None, None);
        // the velocity has a part that points back towards the centre
        let towards = -(a.velocity.x as f64) * (a.pos.x as f64) - (a.velocity.y as f64) * (a.pos.y as f64);
        assert!(towards > 0.0);
    }
}

#[test]
fn update_moves_a_whole_asteroid() {
    let mut a = rock(AsteroidSize::Small, Vec2::new(0, 0), Vec2::new(60_000_000, -80_000_000));
    let mut score = 7;
    let mut lasers = vec![];
    let mut new = vec![];
    let mut cues = vec![];
    a.update(&mut score, 500_000, &mut lasers, &mut new, &mut cues);
    assert_eq!(a.pos, Vec2::new(30_000_000, -40_000_000));
    assert!(!a.stale && !a.destroyed);
    assert_eq!(score, 7);
    assert!(new.is_empty() && cues.is_empty());
}

#[test]
fn update_marks_a_receding_asteroid_outside_as_stale() {
    let start = Vec2::new(HALF_W + 200_000_000, 0);
    let mut a = rock(AsteroidSize::Small, start, Vec2::new(100_000_000, 0));
    let mut score = 0;
    let mut lasers = vec![laser_at(Vec2::new(HALF_W + 200_000_000, 0))];
    let mut new = vec![];
    let mut cues = vec![];
    a.update(&mut score, 10_000, &mut lasers, &mut new, &mut cues);
    assert!(a.stale);
    assert_eq!(a.pos, Vec2::new(HALF_W + 201_000_000, 0));
    // gone for good: the laser on top of it is not looked at
    assert!(!lasers[0].hit);
    assert_eq!(score, 0);
    assert!(new.is_empty() && cues.is_empty());
}

#[test]
fn update_keeps_an_asteroid_that_is_coming_in() {
    let start = Vec2::new(HALF_W + 200_000_000, 0);
    let mut a = rock(AsteroidSize::Small, start, Vec2::new(-100_000_000, 0));
    let (mut score, mut lasers, mut new, mut cues) = (0, vec![], vec![], vec![]);
    a.update(&mut score, 10_000, &mut lasers, &mut new, &mut cues);
    assert!(!a.stale);
    assert_eq!(a.pos, Vec2::new(HALF_W + 199_000_000, 0));
}

#[test]
fn update_keeps_an_asteroid_whose_tail_is_still_inside() {
    let start = Vec2::new(HALF_W + 10_000_000, 0);
    let mut a = rock(AsteroidSize::Small, start, Vec2::new(100_000_000, 0));
    let (mut score, mut lasers, mut new, mut cues) = (0, vec![], vec![], vec![]);
    a.update(&mut score, 10_000, &mut lasers, &mut new, &mut cues);
    assert!(!a.stale);
    assert!(a.leaving() == false);
}

#[test]
fn update_keeps_an_asteroid_at_rest() {
    let start = Vec2::new(3 * HALF_W, 0);
    let mut a = rock(AsteroidSize::Small, start, Vec2::new(0, 0));
    let (mut score, mut lasers, mut new, mut cues) = (0, vec![], vec![], vec![]);
    a.update(&mut score, 10_000, &mut lasers, &mut new, &mut cues);
    assert!(!a.stale);
    assert_eq!(a.pos, start);
}

#[test]
fn a_medium_asteroid_splits_where_it_is() {
    let p = Vec2::new(100_000_000, 50_000_000);
    for _ in 0..50 {
        let mut a = rock(AsteroidSize::Medium, p, Vec2::new(0, 0));
        let mut score = 0;
        let mut lasers = vec![laser_at(Vec2::new(110_000_000, 50_000_000))];
        let mut new = vec![];
        let mut cues = vec![];
        a.update(&mut score, 16_667, &mut lasers, &mut new, &mut cues);
        assert!(a.stale);
        assert!(!a.destroyed);
        assert!(new.len() == 2 || new.len() == 3, "{} pieces", new.len());
        for piece in &new {
            assert_eq!(piece.size, AsteroidSize::Small);
            assert_eq!(piece.pos, p);
            assert_eq!(piece.radius, 33_000_000);
            assert!(!piece.stale && !piece.destroyed);
        }
        assert!(lasers[0].hit);
        assert_eq!(score, 50);
        assert_eq!(cues, vec![Cue::Asteroid]);
    }
}

#[test]
fn split_pieces_appear_where_the_parent_has_moved_to() {
    let mut a = Asteroid::generate(Some(AsteroidSize::Huge), Some(Vec2::new(0, 0)));
    let mut score = 1;
    let mut lasers = vec![laser_at(Vec2::new(0, 0))];
    let mut new = vec![rock(AsteroidSize::Tiny, Vec2::new(1, 1), Vec2::new(0, 0))];
    let mut cues = vec![Cue::Thrust];
    a.update(&mut score, 16_667, &mut lasers, &mut new, &mut cues);
    assert!(a.stale);
    assert!(new.len() == 3 || new.len() == 4);
    assert_eq!(new[0].pos, Vec2::new(1, 1));
    for piece in &new[1..] {
        assert_eq!(piece.size, AsteroidSize::Large);
        assert_eq!(piece.pos, a.pos);
    }
    assert_eq!(score, 11);
    assert_eq!(cues, vec![Cue::Thrust, Cue::Asteroid]);
}

#[test]
fn every_laser_that_touches_splits_once() {
    let p = Vec2::new(0, 0);
    let mut a = rock(AsteroidSize::Large, p, Vec2::new(0, 0));
    let mut score = 0;
    let mut lasers = vec![
        laser_at(Vec2::new(66_000_000, 0)),
        laser_at(Vec2::new(66_000_001, 0)),
        laser_at(Vec2::new(0, -1)),
        Laser { dir: Vec2::new(ONE, 0), pos: Vec2::new(5, 5), hit: true },
    ];
    let mut new = vec![];
    let mut cues = vec![];
    a.update(&mut score, 0, &mut lasers, &mut new, &mut cues);
    // on the rim counts, just beyond it does not, and a laser that has hit
    // before hits again
    assert_eq!(
        lasers.iter().map(|l| l.hit).collect::<Vec<bool>>(),
        vec![true, false, true, true]
    );
    assert_eq!(score, 90);
    assert_eq!(cues, vec![Cue::Asteroid, Cue::Asteroid, Cue::Asteroid]);
    assert!(6 <= new.len() && new.len() <= 9);
    assert!(new.iter().all(|n| n.size == AsteroidSize::Medium && n.pos == p));
    assert!(a.stale);
}

#[test]
fn a_hit_on_a_tiny_asteroid_bursts_it() {
    let p = Vec2::new(-40_000_000, 10_000_000);
    let mut a = rock(AsteroidSize::Tiny, p, Vec2::new(0, 0));
    let mut score = 0;
    let mut lasers = vec![laser_at(p)];
    let mut new = vec![];
    let mut cues = vec![];
    a.update(&mut score, 16_667, &mut lasers, &mut new, &mut cues);
    assert!(a.destroyed);
    assert!(!a.stale);
    assert!(new.is_empty());
    assert_eq!(a.particles.len(), 6);
    for s in &a.particles {
        assert_eq!(s.pos, p);
        assert_eq!(s.lifetime, 0);
        assert!(20_212_500 <= s.speed && s.speed < 57_750_000, "speed {}", s.speed);
        let len = ((s.dir.x as f64).powi(2) + (s.dir.y as f64).powi(2)).sqrt();
        assert!((len - 1e6).abs() < 10.0);
    }
    assert_eq!(score, 100);
    assert_eq!(cues, vec![Cue::Asteroid]);
    assert!(lasers[0].hit);
}

#[test]
fn two_hits_on_a_tiny_asteroid_burst_twice() {
    let p = Vec2::new(0, 0);
    let mut a = rock(AsteroidSize::Tiny, p, Vec2::new(0, 0));
    let mut score = 0;
    let mut lasers = vec![laser_at(p), laser_at(Vec2::new(1, 1))];
    let mut new = vec![];
    let mut cues = vec![];
    a.update(&mut score, 16_667, &mut lasers, &mut new, &mut cues);
    assert!(a.destroyed);
    assert_eq!(a.particles.len(), 12);
    assert_eq!(score, 200);
    assert!(new.is_empty());
}

#[test]
fn score_stops_at_its_greatest_value() {
    let mut a = rock(AsteroidSize::Tiny, Vec2::new(0, 0), Vec2::new(0, 0));
    let mut score = u32::MAX - 30;
    let mut lasers = vec![laser_at(Vec2::new(0, 0))];
    let (mut new, mut cues) = (vec![], vec![]);
    a.update(&mut score, 0, &mut lasers, &mut new, &mut cues);
    assert_eq!(score, u32::MAX);
}

#[test]
fn a_burst_asteroid_ignores_lasers_and_moves_its_sparks() {
    let origin = Vec2::new(0, 0);
    let mut a = rock(AsteroidSize::Tiny, origin, Vec2::new(50_000_000, 0));
    a.destroyed = true;
    a.particles = vec![
        Particle { pos: origin, dir: Vec2::new(ONE, 0), speed: 57_750_000, lifetime: 0 },
        Particle { pos: origin, dir: Vec2::new(0, -ONE), speed: 20_000_000, lifetime: 0 },
    ];
    let mut score = 0;
    let mut lasers = vec![laser_at(origin)];
    let (mut new, mut cues) = (vec![], vec![]);
    a.update(&mut score, 100_000, &mut lasers, &mut new, &mut cues);
    assert_eq!(a.pos, origin);
    assert!(a.destroyed && !a.stale);
    assert!(!lasers[0].hit);
    assert_eq!(score, 0);
    assert_eq!(
        a.particles,
        vec![
            Particle { pos: Vec2::new(5_774_134, 0), dir: Vec2::new(ONE, 0), speed: 57_741_338, lifetime: 0 },
            Particle { pos: Vec2::new(0, -1_999_700), dir: Vec2::new(0, -ONE), speed: 19_997_000, lifetime: 0 },
        ]
    );
}

#[test]
fn a_spark_that_drifts_too_far_makes_the_cloud_stale() {
    let origin = Vec2::new(0, 0);
    let mut a = rock(AsteroidSize::Tiny, origin, Vec2::new(0, 0));
    a.destroyed = true;
    a.particles = vec![
        Particle { pos: Vec2::new(1, 0), dir: Vec2::new(ONE, 0), speed: 10_000_000, lifetime: 0 },
        Particle { pos: Vec2::new(32_000_000, 0), dir: Vec2::new(ONE, 0), speed: 20_000_000, lifetime: 0 },
        Particle { pos: Vec2::new(2, 0), dir: Vec2::new(ONE, 0), speed: 10_000_000, lifetime: 0 },
    ];
    a.update_particles(100_000);
    assert!(a.stale);
    // the first two have moved; the one behind the spark that went too far has not
    assert_eq!(a.particles[0].pos, Vec2::new(999_851, 0));
    assert_eq!(a.particles[1].pos, Vec2::new(33_999_700, 0));
    assert_eq!(a.particles[2].pos, Vec2::new(2, 0));
    assert_eq!(a.particles[2].speed, 10_000_000);
}

#[test]
fn a_spark_on_the_limit_has_not_gone_too_far() {
    let mut a = rock(AsteroidSize::Tiny, Vec2::new(0, 0), Vec2::new(0, 0));
    a.destroyed = true;
    a.particles =
        vec![Particle { pos: Vec2::new(33_000_000, 0), dir: Vec2::new(ONE, 0), speed: 0, lifetime: 0 }];
    a.update_particles(100_000);
    assert!(!a.stale);
    a.particles[0].pos = Vec2::new(33_000_001, 0);
    a.update_particles(100_000);
    assert!(a.stale);
}

#[test]
fn flags_once_set_stay_set() {
    let mut a = rock(AsteroidSize::Medium, Vec2::new(0, 0), Vec2::new(10_000_000, 0));
    a.stale = true;
    let (mut score, mut lasers, mut new, mut cues) = (0, vec![], vec![], vec![]);
    for _ in 0..20 {
        a.update(&mut score, 16_667, &mut lasers, &mut new, &mut cues);
        assert!(a.stale);
    }
    let mut b = rock(AsteroidSize::Tiny, Vec2::new(0, 0), Vec2::new(0, 0));
    let mut lasers = vec![laser_at(Vec2::new(0, 0))];
    b.update(&mut score, 16_667, &mut lasers, &mut new, &mut cues);
    assert!(b.destroyed);
    let mut went_stale = false;
    for _ in 0..2000 {
        b.update(&mut score, 16_667, &mut lasers, &mut new, &mut cues);
        assert!(b.destroyed);
        assert!(b.stale || !went_stale);
        went_stale = b.stale;
    }
    assert!(went_stale);
}

#[test]
fn generate_particles_adds_six_sparks() {
    let mut a = rock(AsteroidSize::Tiny, Vec2::new(5, 6), Vec2::new(0, 0));
    a.generate_particles();
    assert_eq!(a.particles.len(), 6);
    assert!(a.particles.iter().all(|s| s.pos == Vec2::new(5, 6)));
    assert!(!a.destroyed && !a.stale);
}

#[test]
fn split_adds_two_or_three() {
    let a = rock(AsteroidSize::Small, Vec2::new(5, 6), Vec2::new(0, 0));
    let mut twos = 0;
    let mut threes = 0;
    for _ in 0..200 {
        let mut new = vec![];
        a.split(&mut new);
        match new.len() {
            2 => twos += 1,
            3 => threes += 1,
            n => panic!("{} pieces", n),
        }
        assert!(new.iter().all(|n| n.size == AsteroidSize::Tiny && n.pos == Vec2::new(5, 6)));
    }
    assert!(twos > 0 && threes > 0);
}

#[test]
fn spawn_and_drift_of_a_particle() {
    let p = Particle::spawn(Vec2::new(1, 2), 0, 500_000);
    assert_eq!(p, Particle { pos: Vec2::new(1, 2), dir: Vec2::new(ONE, 0), speed: 28_875_000, lifetime: 0 });
    let q = p.drifted(1_000_000);
    assert_eq!(q.speed, 28_870_669);
    assert_eq!(q.pos, Vec2::new(28_870_670, 2));
    assert!(!q.scattered(Vec2::new(1, 2)));
    assert!(q.scattered(Vec2::new(-5_000_000, 2)));
}
