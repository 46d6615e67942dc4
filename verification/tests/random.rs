use rusteroids::fixed::ONE;
use rusteroids::random::{rng_min, uniform};

#[test]
fn uniform_stays_in_the_unit_interval() {
    for _ in 0..5000 {
        let x = uniform();
        assert!(0 <= x && x < ONE);
    }
}

#[test]
fn uniform_draws_differ() {
    let first = uniform();
    let mut other = false;
    let mut above_half = false;
    let mut below_half = false;
    for _ in 0..500 {
        let x = uniform();
        other = other || x != first;
        above_half = above_half || x >= ONE / 2;
        below_half = below_half || x < ONE / 2;
    }
    assert!(other && above_half && below_half);
}

#[test]
fn rng_min_respects_the_floor() {
    for _ in 0..2000 {
        let x = rng_min(350_000);
        assert!(350_000 <= x && x < ONE);
        let y = rng_min(500_000);
        assert!(500_000 <= y && y < ONE);
    }
}

#[test]
fn rng_min_with_the_highest_floor() {
    for _ in 0..20 {
        assert_eq!(rng_min(ONE - 1), ONE - 1);
    }
}

#[test]
fn rng_min_with_a_floor_below_zero() {
    for _ in 0..200 {
        let x = rng_min(-5);
        assert!(0 <= x && x < ONE);
    }
}
