//! The sounds that a tick asks for.

use vstd::prelude::*;

verus! {

/// A sound for the audio side to play, once, in the tick that names it.
#[derive(Clone, Copy, Debug, PartialEq, Eq, Structural)]
pub enum Cue {
    /// The ship was hit.
    Explode,
    /// The ship fired.
    Shoot,
    /// The ship's engine is running.
    Thrust,
    /// A laser hit an asteroid.
    Asteroid,
}

impl Cue {
    /// The name under which the audio side knows the sound.
    pub open spec fn spec_name(self) -> Seq<char> {
        match self {
            Cue::Explode => "explode"@,
            Cue::Shoot => "shoot"@,
            Cue::Thrust => "thrust"@,
            Cue::Asteroid => "asteroid"@,
        }
    }

    /// The name under which the audio side knows the sound.
    pub fn name(&self) -> (s: &'static str)
        ensures
            s@ == self.spec_name(),
    {
        match self {
            Cue::Explode => "explode",
            Cue::Shoot => "shoot",
            Cue::Thrust => "thrust",
            Cue::Asteroid => "asteroid",
        }
    }
}

/// `count` cues, all of them `cue`.
pub open spec fn repeated(cue: Cue, count: nat) -> Seq<Cue> {
    Seq::new(count, |i: int| cue)
}

} // verus!
