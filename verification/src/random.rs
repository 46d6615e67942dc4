//! Random draws on the fixed-point scale.

use vstd::prelude::*;
use rand::Rng;
use crate::fixed::{Fixed, ONE};
use crate::size::AsteroidSize;

verus! {

/// How often `rng_min` draws from the whole unit interval before it draws
/// from the part above the floor directly.
pub const MAX_DRAWS: u32 = 64;

/// A draw from `low..high` by `rand::Rng::gen_range` on the generator of the
/// current thread, which `rand::thread_rng` hands out. The range must not be
/// empty, or `gen_range` panics; what it returns lies in the range, and nothing
/// else is known of it.
#[verifier::external_body]
pub(crate) fn draw(low: i64, high: i64) -> (r: i64)
    requires
        low < high,
    ensures
        low <= r < high,
{
    rand::thread_rng().gen_range(low..high)
}

/// A draw from the unit interval: at least zero, less than one.
pub fn uniform() -> (r: Fixed)
    ensures
        0 <= r < ONE,
{
    draw(0, ONE)
}

/// A draw from the unit interval that is at least `min`: draws are repeated
/// until one is. After `MAX_DRAWS` of them the next is taken from the part of
/// the interval above the floor, so the sampler always ends. A floor of one or
/// more leaves nothing to draw from and is not accepted.
pub fn rng_min(min: Fixed) -> (r: Fixed)
    requires
        min < ONE,
    ensures
        min <= r,
        0 <= r < ONE,
{
    let mut tries: u32 = 0;
    while tries < MAX_DRAWS
        invariant
            tries <= MAX_DRAWS,
        decreases MAX_DRAWS - tries,
    {
        let x: Fixed = uniform();
        if x >= min {
            return x;
        }
        tries = tries + 1;
    }
    let floor: Fixed = if min < 0 {
        0
    } else {
        min
    };
    draw(floor, ONE)
}

/// A size class, each of the five as likely as the others: the class at an index drawn from 0 to 4.
pub fn weighted_size() -> (s: AsteroidSize)
    ensures
        exists|index: int| 0 <= index <= 4 && s == #[trigger] AsteroidSize::spec_from_index(index),
{
    let index: i64 = draw(0, 5);
    let s: AsteroidSize = AsteroidSize::from_index(index as u8);
    assert(s == AsteroidSize::spec_from_index(index as int));
    s
}

} // verus!
