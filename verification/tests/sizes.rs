use rusteroids::random::weighted_size;
use rusteroids::size::AsteroidSize;

#[test]
fn radius_per_class() {
    assert_eq!(AsteroidSize::Tiny.radius(), 19_800_000);
    assert_eq!(AsteroidSize::Small.radius(), 33_000_000);
    assert_eq!(AsteroidSize::Medium.radius(), 57_750_000);
    assert_eq!(AsteroidSize::Large.radius(), 66_000_000);
    assert_eq!(AsteroidSize::Huge.radius(), 82_500_000);
}

#[test]
fn score_per_class() {
    assert_eq!(AsteroidSize::Tiny.score(), 100);
    assert_eq!(AsteroidSize::Small.score(), 70);
    assert_eq!(AsteroidSize::Medium.score(), 50);
    assert_eq!(AsteroidSize::Large.score(), 30);
    assert_eq!(AsteroidSize::Huge.score(), 10);
}

#[test]
fn split_size_steps_down() {
    assert_eq!(AsteroidSize::Huge.split_size(), AsteroidSize::Large);
    assert_eq!(AsteroidSize::Large.split_size(), AsteroidSize::Medium);
    assert_eq!(AsteroidSize::Medium.split_size(), AsteroidSize::Small);
    assert_eq!(AsteroidSize::Small.split_size(), AsteroidSize::Tiny);
    assert_eq!(AsteroidSize::Tiny.split_size(), AsteroidSize::Tiny);
}

#[test]
fn rank_and_from_index_agree() {
    let all = [
        AsteroidSize::Tiny,
        AsteroidSize::Small,
        AsteroidSize::Medium,
        AsteroidSize::Large,
        AsteroidSize::Huge,
    ];
    for (i, s) in all.iter().enumerate() {
        assert_eq!(s.rank() as usize, i);
        assert_eq!(AsteroidSize::from_index(i as u8), *s);
    }
    assert_eq!(AsteroidSize::from_index(5), AsteroidSize::Huge);
    assert_eq!(AsteroidSize::from_index(255), AsteroidSize::Huge);
}

#[test]
fn weighted_size_reaches_every_class() {
    let mut seen = [false; 5];
    for _ in 0..2000 {
        seen[weighted_size().rank() as usize] = true;
    }
    assert_eq!(seen, [true; 5]);
}
