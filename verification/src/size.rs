//! The five size classes of an asteroid.

use vstd::prelude::*;
use crate::fixed::Fixed;

verus! {

/// How large an asteroid is, from the smallest class to the largest.
#[derive(Clone, Copy, Debug, PartialEq, Eq, Structural)]
pub enum AsteroidSize {
    Tiny,
    Small,
    Medium,
    Large,
    Huge,
}

impl AsteroidSize {
    /// The place of the class in the order, from 0 for `Tiny` to 4 for `Huge`.
    pub open spec fn spec_rank(self) -> int {
        match self {
            AsteroidSize::Tiny => 0,
            AsteroidSize::Small => 1,
            AsteroidSize::Medium => 2,
            AsteroidSize::Large => 3,
            AsteroidSize::Huge => 4,
        }
    }

    /// The class at a place in the order; every place past 3 is `Huge`.
    pub open spec fn spec_from_index(index: int) -> AsteroidSize {
        if index == 0 {
            AsteroidSize::Tiny
        } else if index == 1 {
            AsteroidSize::Small
        } else if index == 2 {
            AsteroidSize::Medium
        } else if index == 3 {
            AsteroidSize::Large
        } else {
            AsteroidSize::Huge
        }
    }

    /// The radius of the disc that stands for an asteroid of this class.
    pub open spec fn spec_radius(self) -> int {
        match self {
            AsteroidSize::Tiny => 19_800_000,
            AsteroidSize::Small => 33_000_000,
            AsteroidSize::Medium => 57_750_000,
            AsteroidSize::Large => 66_000_000,
            AsteroidSize::Huge => 82_500_000,
        }
    }

    /// The points that a hit on an asteroid of this class is worth.
    pub open spec fn spec_score(self) -> int {
        match self {
            AsteroidSize::Tiny => 100,
            AsteroidSize::Small => 70,
            AsteroidSize::Medium => 50,
            AsteroidSize::Large => 30,
            AsteroidSize::Huge => 10,
        }
    }

    /// The class of the pieces that an asteroid of this class breaks into: the
    /// next smaller one, and `Tiny` for `Tiny`, which does not break.
    pub open spec fn spec_split_size(self) -> AsteroidSize {
        match self {
            AsteroidSize::Tiny => AsteroidSize::Tiny,
            AsteroidSize::Small => AsteroidSize::Tiny,
            AsteroidSize::Medium => AsteroidSize::Small,
            AsteroidSize::Large => AsteroidSize::Medium,
            AsteroidSize::Huge => AsteroidSize::Large,
        }
    }

    /// The place of the class in the order, from 0 for `Tiny` to 4 for `Huge`.
    pub fn rank(&self) -> (r: u8)
        ensures
            r == self.spec_rank(),
    {
        match self {
            AsteroidSize::Tiny => 0,
            AsteroidSize::Small => 1,
            AsteroidSize::Medium => 2,
            AsteroidSize::Large => 3,
            AsteroidSize::Huge => 4,
        }
    }

    /// The class at a place in the order; every place past 3 is `Huge`.
    pub fn from_index(index: u8) -> (s: AsteroidSize)
        ensures
            s == AsteroidSize::spec_from_index(index as int),
    {
        match index {
            0 => AsteroidSize::Tiny,
            1 => AsteroidSize::Small,
            2 => AsteroidSize::Medium,
            3 => AsteroidSize::Large,
            _ => AsteroidSize::Huge,
        }
    }

    /// The radius of the disc that stands for an asteroid of this class.
    pub fn radius(&self) -> (r: Fixed)
        ensures
            r == self.spec_radius(),
    {
        match self {
            AsteroidSize::Tiny => 19_800_000,
            AsteroidSize::Small => 33_000_000,
            AsteroidSize::Medium => 57_750_000,
            AsteroidSize::Large => 66_000_000,
            AsteroidSize::Huge => 82_500_000,
        }
    }

    /// The points that a hit on an asteroid of this class is worth.
    pub fn score(&self) -> (s: u32)
        ensures
            s == self.spec_score(),
    {
        match self {
            AsteroidSize::Tiny => 100,
            AsteroidSize::Small => 70,
            AsteroidSize::Medium => 50,
            AsteroidSize::Large => 30,
            AsteroidSize::Huge => 10,
        }
    }

    /// The class of the pieces that an asteroid of this class breaks into.
    pub fn split_size(&self) -> (s: AsteroidSize)
        ensures
            s == self.spec_split_size(),
    {
        match self {
            AsteroidSize::Small => AsteroidSize::Tiny,
            AsteroidSize::Medium => AsteroidSize::Small,
            AsteroidSize::Large => AsteroidSize::Medium,
            AsteroidSize::Huge => AsteroidSize::Large,
            AsteroidSize::Tiny => AsteroidSize::Tiny,
        }
    }
}

/// Breaking an asteroid that can break gives the class one place down, which
/// is smaller in radius and worth more points; a class is found again from its
/// place in the order.
pub proof fn lemma_split_steps_down(size: AsteroidSize)
    ensures
        size != AsteroidSize::Tiny ==> size.spec_split_size().spec_rank() == size.spec_rank() - 1,
        size != AsteroidSize::Tiny ==> size.spec_split_size().spec_radius() < size.spec_radius(),
        size != AsteroidSize::Tiny ==> size.spec_split_size().spec_score() > size.spec_score(),
        AsteroidSize::spec_from_index(size.spec_rank()) == size,
        0 < size.spec_radius(),
{
}

} // verus!
