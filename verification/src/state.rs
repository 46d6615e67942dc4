//! The game as a whole, and the tick that drives it.

use vstd::prelude::*;
use crate::asteroid::{generated, lemma_generated_whole, offspring, spec_hits, spec_lasers_after,
    spec_moved, updated, Asteroid};
use crate::config::{MAX_LIVES, TARGET_POPULATION};
use crate::cue::{repeated, Cue};
use crate::fixed::Fixed;
use crate::laser::Laser;
use crate::player::{scattered, Input, Player, PlayerView};
use crate::sweep::{ascending, clean_vec, flagged, lemma_flagged, lemma_sweep_flagged,
    spec_clean_vec};

verus! {

/// All that a game holds between two ticks.
#[derive(Clone, Debug, PartialEq, Eq)]
pub struct State {
    pub player: Player,
    /// The length of the tick to come, in seconds.
    pub delta: Fixed,
    pub asteroids: Vec<Asteroid>,
    pub score: u32,
}

/// The test by which the field drops an asteroid.
pub open spec fn stale_mark() -> spec_fn(Asteroid) -> bool {
    |a: Asteroid| a.stale
}

/// The lasers after each of the asteroids, in turn, has had its tick.
pub open spec fn lasers_through(asteroids: Seq<Asteroid>, dt: Fixed, lasers: Seq<Laser>) -> Seq<Laser>
    decreases asteroids.len(),
{
    if asteroids.len() == 0 {
        lasers
    } else {
        spec_lasers_after(
            asteroids.last()@,
            dt,
            lasers_through(asteroids.drop_last(), dt, lasers),
        )
    }
}

/// How many hits the asteroids take in all in one tick.
pub open spec fn hits_through(asteroids: Seq<Asteroid>, dt: Fixed, lasers: Seq<Laser>) -> nat
    decreases asteroids.len(),
{
    if asteroids.len() == 0 {
        0
    } else {
        hits_through(asteroids.drop_last(), dt, lasers) + spec_hits(
            asteroids.last()@,
            dt,
            lasers_through(asteroids.drop_last(), dt, lasers),
        )
    }
}

/// What the hits of one tick are worth in all.
pub open spec fn points_through(asteroids: Seq<Asteroid>, dt: Fixed, lasers: Seq<Laser>) -> nat
    decreases asteroids.len(),
{
    if asteroids.len() == 0 {
        0
    } else {
        points_through(asteroids.drop_last(), dt, lasers) + spec_hits(
            asteroids.last()@,
            dt,
            lasers_through(asteroids.drop_last(), dt, lasers),
        ) * (asteroids.last().size.spec_score() as nat)
    }
}

/// A score with `points` added; it stops at the greatest number that it can
/// hold.
pub open spec fn spec_scored(score: u32, points: nat) -> int {
    if score + points > u32::MAX {
        u32::MAX as int
    } else {
        score + points
    }
}

/// Whether `after` is the field `before` after each asteroid, in turn, has had
/// its tick among the lasers as those before it left them.
pub open spec fn field_updated(
    before: Seq<Asteroid>,
    after: Seq<Asteroid>,
    dt: Fixed,
    lasers: Seq<Laser>,
) -> bool {
    &&& after.len() == before.len()
    &&& forall|i: int|
        0 <= i < before.len() ==> updated(
            before[i]@,
            (#[trigger] after[i])@,
            dt,
            lasers_through(before.subrange(0, i), dt, lasers),
        )
}

/// Whether the list `after` is the list `before` with the pieces behind it
/// that the asteroids, in turn, break into in one tick.
pub open spec fn spawned(
    asteroids: Seq<Asteroid>,
    dt: Fixed,
    lasers: Seq<Laser>,
    before: Seq<Asteroid>,
    after: Seq<Asteroid>,
) -> bool
    decreases asteroids.len(),
{
    if asteroids.len() == 0 {
        after == before
    } else {
        exists|middle: Seq<Asteroid>|
            {
                &&& spawned(asteroids.drop_last(), dt, lasers, before, middle)
                &&& #[trigger] offspring(
                    asteroids.last()@,
                    dt,
                    lasers_through(asteroids.drop_last(), dt, lasers),
                    middle,
                    after,
                )
            }
    }
}

/// Whether `after` is the field `base` filled up with new asteroids from
/// outside the arena until it holds `TARGET_POPULATION` of them.
pub open spec fn topped_up(base: Seq<Asteroid>, after: Seq<Asteroid>) -> bool {
    &&& after.len() == if base.len() < TARGET_POPULATION {
        TARGET_POPULATION as nat
    } else {
        base.len()
    }
    &&& after.subrange(0, base.len() as int) == base
    &&& forall|i: int| base.len() <= i < after.len() ==> generated((#[trigger] after[i])@, None, None)
}

/// The lives with which a tick begins: a game that has run out of lives
/// starts anew.
pub open spec fn spec_lives_begun(lives: u32) -> u32 {
    if lives == 0 {
        MAX_LIVES
    } else {
        lives
    }
}

/// The score with which a tick begins: a game that has run out of lives
/// starts anew.
pub open spec fn spec_score_begun(lives: u32, score: u32) -> u32 {
    if lives == 0 {
        0
    } else {
        score
    }
}

/// The pieces of one more asteroid behind those of the asteroids before it.
pub proof fn lemma_spawned_more(
    asteroids: Seq<Asteroid>,
    dt: Fixed,
    lasers: Seq<Laser>,
    before: Seq<Asteroid>,
    middle: Seq<Asteroid>,
    after: Seq<Asteroid>,
)
    requires
        asteroids.len() > 0,
        spawned(asteroids.drop_last(), dt, lasers, before, middle),
        offspring(
            asteroids.last()@,
            dt,
            lasers_through(asteroids.drop_last(), dt, lasers),
            middle,
            after,
        ),
    ensures
        spawned(asteroids, dt, lasers, before, after),
{
}

/// Lets every asteroid of the field have its tick, in turn, and returns the
/// indices of those that are stale after it.
pub fn update_asteroids(
    asteroids: &mut Vec<Asteroid>,
    score: &mut u32,
    dt: Fixed,
    lasers: &mut Vec<Laser>,
    new: &mut Vec<Asteroid>,
    to_play: &mut Vec<Cue>,
) -> (stale: Vec<usize>)
    ensures
        field_updated(old(asteroids)@, final(asteroids)@, dt, old(lasers)@),
        final(lasers)@ == lasers_through(old(asteroids)@, dt, old(lasers)@),
        *final(score) == spec_scored(*old(score), points_through(old(asteroids)@, dt, old(lasers)@)),
        final(to_play)@ == old(to_play)@ + repeated(
            Cue::Asteroid,
            hits_through(old(asteroids)@, dt, old(lasers)@),
        ),
        spawned(old(asteroids)@, dt, old(lasers)@, old(new)@, final(new)@),
        stale@ == flagged(final(asteroids)@, stale_mark()),
{
    let ghost field: Seq<Asteroid> = asteroids@;
    let ghost lasers_before: Seq<Laser> = lasers@;
    let ghost score_before: u32 = *score;
    let ghost cues_before: Seq<Cue> = to_play@;
    let ghost new_before: Seq<Asteroid> = new@;
    let n: usize = asteroids.len();
    let mut stale: Vec<usize> = Vec::new();
    let mut i: usize = 0;
    proof {
        assert(field.subrange(0, 0) == Seq::<Asteroid>::empty());
        assert(asteroids@.subrange(0, 0) == Seq::<Asteroid>::empty());
        assert(to_play@ == cues_before + repeated(Cue::Asteroid, 0));
    }
    while i < n
        invariant
            i <= n,
            n == field.len(),
            asteroids@.len() == n,
            forall|j: int|
                0 <= j < i ==> updated(
                    field[j]@,
                    (#[trigger] asteroids@[j])@,
                    dt,
                    lasers_through(field.subrange(0, j), dt, lasers_before),
                ),
            forall|j: int| i <= j < n ==> asteroids@[j] == field[j],
            lasers@ == lasers_through(field.subrange(0, i as int), dt, lasers_before),
            *score == spec_scored(
                score_before,
                points_through(field.subrange(0, i as int), dt, lasers_before),
            ),
            to_play@ == cues_before + repeated(
                Cue::Asteroid,
                hits_through(field.subrange(0, i as int), dt, lasers_before),
            ),
            spawned(field.subrange(0, i as int), dt, lasers_before, new_before, new@),
            stale@ == flagged(asteroids@.subrange(0, i as int), stale_mark()),
        decreases n - i,
    {
        let ghost so_far: Seq<Asteroid> = field.subrange(0, i as int);
        let ghost swept: Seq<Asteroid> = asteroids@.subrange(0, i as int);
        let ghost hits_before: nat = hits_through(so_far, dt, lasers_before);
        let ghost points_before: nat = points_through(so_far, dt, lasers_before);
        let ghost grown: Seq<Asteroid> = new@;
        let ghost lasers_now: Seq<Laser> = lasers@;
        asteroids[i].update(score, dt, lasers, new, to_play);
        proof {
            let upto = field.subrange(0, i + 1);
            assert(upto.drop_last() == so_far);
            assert(upto.last() == field[i as int]);
            let hits = spec_hits(field[i as int]@, dt, lasers_now);
            let worth = field[i as int].size.spec_score();
            assert(hits * (worth as nat) == hits * worth) by (nonlinear_arith)
                requires
                    worth >= 0,
            ;
            assert(hits * worth >= 0) by (nonlinear_arith)
                requires
                    worth >= 0,
            ;
            assert(to_play@ == cues_before + repeated(Cue::Asteroid, hits_before + hits));
            assert(offspring(
                upto.last()@,
                dt,
                lasers_through(upto.drop_last(), dt, lasers_before),
                grown,
                new@,
            ));
            lemma_spawned_more(upto, dt, lasers_before, new_before, grown, new@);
            let done = asteroids@.subrange(0, i + 1);
            assert(done.drop_last() == swept);
            assert(done.last() == asteroids@[i as int]);
        }
        if asteroids[i].stale {
            stale.push(i);
        }
        i = i + 1;
    }
    proof {
        assert(field.subrange(0, n as int) == field);
        assert(asteroids@.subrange(0, n as int) == asteroids@);
    }
    stale
}

/// Takes the stale asteroids off the field, lets the new pieces join it, and
/// fills it up to `TARGET_POPULATION` with asteroids from outside the arena.
pub fn replenish(asteroids: &mut Vec<Asteroid>, stale: Vec<usize>, new: Vec<Asteroid>)
    requires
        ascending(stale@, old(asteroids)@.len() as int),
    ensures
        topped_up(spec_clean_vec(old(asteroids)@, stale@) + new@, final(asteroids)@),
{
    let mut new = new;
    clean_vec(asteroids, stale);
    asteroids.append(&mut new);
    let ghost base: Seq<Asteroid> = asteroids@;
    while asteroids.len() < TARGET_POPULATION
        invariant
            base.len() <= asteroids@.len(),
            asteroids@.len() <= TARGET_POPULATION || asteroids@.len() == base.len(),
            asteroids@.subrange(0, base.len() as int) == base,
            forall|i: int|
                base.len() <= i < asteroids@.len() ==> generated(
                    (#[trigger] asteroids@[i])@,
                    None,
                    None,
                ),
        decreases TARGET_POPULATION - asteroids@.len(),
    {
        asteroids.push(Asteroid::generate(None, None));
    }
}

/// Whether `after` is what one tick of length `dt` makes of the field `before`
/// among the lasers given: the asteroids have had their tick, which makes
/// `moved` of them and sets the pieces `fresh` free; the stale ones are gone;
/// the pieces have come in behind the rest; and the field has been filled up.
pub open spec fn field_ticked(
    before: Seq<Asteroid>,
    moved: Seq<Asteroid>,
    fresh: Seq<Asteroid>,
    after: Seq<Asteroid>,
    dt: Fixed,
    lasers: Seq<Laser>,
) -> bool {
    &&& field_updated(before, moved, dt, lasers)
    &&& spawned(before, dt, lasers, Seq::empty(), fresh)
    &&& topped_up(spec_clean_vec(moved, flagged(moved, stale_mark())) + fresh, after)
}

/// The pieces that the asteroids break into come in behind what the list
/// held, and each of them is whole and stays on the field.
pub proof fn lemma_spawned_whole(
    asteroids: Seq<Asteroid>,
    dt: Fixed,
    lasers: Seq<Laser>,
    before: Seq<Asteroid>,
    after: Seq<Asteroid>,
)
    requires
        spawned(asteroids, dt, lasers, before, after),
    ensures
        before.len() <= after.len(),
        after.subrange(0, before.len() as int) == before,
        forall|i: int|
            before.len() <= i < after.len() ==> !(#[trigger] after[i]).stale && !after[i].destroyed,
    decreases asteroids.len(),
{
    if asteroids.len() == 0 {
        assert(after.subrange(0, before.len() as int) == before);
    } else {
        let last = asteroids.last()@;
        let seen = lasers_through(asteroids.drop_last(), dt, lasers);
        let middle = choose|middle: Seq<Asteroid>|
            {
                &&& spawned(asteroids.drop_last(), dt, lasers, before, middle)
                &&& #[trigger] offspring(last, dt, seen, middle, after)
            };
        lemma_spawned_whole(asteroids.drop_last(), dt, lasers, before, middle);
        assert(after.subrange(0, middle.len() as int) == middle);
        assert(after.subrange(0, before.len() as int) == after.subrange(
            0,
            middle.len() as int,
        ).subrange(0, before.len() as int));
        assert forall|i: int| before.len() <= i < after.len() implies !(#[trigger] after[i]).stale
            && !after[i].destroyed by {
            if i < middle.len() {
                assert(after[i] == middle[i]);
            } else {
                lemma_generated_whole(
                    after[i],
                    Some(last.size.spec_split_size()),
                    Some(spec_moved(last, dt)),
                );
            }
        }
    }
}

/// The lives of a game stay between none and `MAX_LIVES`: a tick that finds
/// them there begins with at least one, with all of them if it found none,
/// and ends with at most one less than it began with, and never with more.
pub proof fn lemma_lives_in_range(p: PlayerView, dt: Fixed, input: Input, asteroids: Seq<Asteroid>)
    requires
        p.lives <= MAX_LIVES,
    ensures
        1 <= spec_lives_begun(p.lives) <= MAX_LIVES,
        p.lives == 0 ==> spec_lives_begun(p.lives) == MAX_LIVES,
        p.lives == 0 ==> spec_score_begun(p.lives, 0) == 0,
        ({
            let begun = PlayerView { lives: spec_lives_begun(p.lives), ..p };
            let ended = begun.spec_update(dt, input, asteroids);
            &&& ended.lives <= MAX_LIVES
            &&& begun.lives - 1 <= ended.lives <= begun.lives
        }),
{
}

impl State {
    /// The state at the start of a game: a new ship, an empty field that the
    /// first tick fills, and no points.
    pub fn new() -> (s: State)
        ensures
            s.player@ == PlayerView::spec_new(),
            s.asteroids@.len() == 0,
            s.score == 0,
            s.delta == 0,
    {
        State { player: Player::new(), delta: 0, asteroids: Vec::new(), score: 0 }
    }
}

/// One tick of the game, of the length `state.delta`.
///
/// A game that has run out of lives starts anew with all its lives and no
/// points. Then the ship has its tick, then every asteroid in turn; the stale
/// asteroids leave the field, the new pieces join it, and the field is filled
/// up. The sounds that the tick asks for are returned, in their order.
pub fn update(state: &mut State, input: Input) -> (to_play: Vec<Cue>)
    ensures
        final(state).delta == old(state).delta,
        ({
            let dt = old(state).delta;
            let field = old(state).asteroids@;
            let begun = PlayerView {
                lives: spec_lives_begun(old(state).player.lives),
                ..old(state).player@
            };
            let ship = begun.spec_update(dt, input, field);
            &&& final(state).player@ == (PlayerView {
                segments: final(state).player@.segments,
                lasers: lasers_through(field, dt, ship.lasers),
                ..ship
            })
            &&& if begun.spec_crashes(dt, input, field) {
                scattered(ship.segments, final(state).player@.segments)
            } else {
                final(state).player@.segments == ship.segments
            }
            &&& final(state).score == spec_scored(
                spec_score_begun(old(state).player.lives, old(state).score),
                points_through(field, dt, ship.lasers),
            )
            &&& to_play@ == begun.spec_cues(dt, input, field) + repeated(
                Cue::Asteroid,
                hits_through(field, dt, ship.lasers),
            )
            &&& exists|moved: Seq<Asteroid>, fresh: Seq<Asteroid>| #[trigger]
                field_ticked(field, moved, fresh, final(state).asteroids@, dt, ship.lasers)
        }),
        final(state).asteroids@.len() >= TARGET_POPULATION,
        forall|i: int|
            0 <= i < final(state).asteroids@.len() ==> !(#[trigger] final(state).asteroids@[i]).stale,
        old(state).player.lives <= MAX_LIVES ==> final(state).player.lives <= MAX_LIVES,
{
    if state.player.lives == 0 {
        state.score = 0;
        state.player.lives = MAX_LIVES;
    }
    let dt: Fixed = state.delta;
    let ghost field: Seq<Asteroid> = state.asteroids@;
    let mut to_play: Vec<Cue> = state.player.update(dt, input, &state.asteroids);
    let ghost lasers: Seq<Laser> = state.player.lasers@;
    let mut new: Vec<Asteroid> = Vec::new();
    let stale: Vec<usize> = update_asteroids(
        &mut state.asteroids,
        &mut state.score,
        dt,
        &mut state.player.lasers,
        &mut new,
        &mut to_play,
    );
    let ghost moved: Seq<Asteroid> = state.asteroids@;
    let ghost fresh: Seq<Asteroid> = new@;
    proof {
        assert(moved.len() == state.asteroids.len());
        lemma_flagged(moved, stale_mark());
        lemma_sweep_flagged(moved, stale_mark());
        lemma_spawned_whole(field, dt, lasers, Seq::empty(), fresh);
    }
    replenish(&mut state.asteroids, stale, new);
    proof {
        let swept = spec_clean_vec(moved, flagged(moved, stale_mark()));
        let base = swept + fresh;
        let after = state.asteroids@;
        assert(field_ticked(field, moved, fresh, after, dt, lasers));
        assert forall|i: int| 0 <= i < after.len() implies !(#[trigger] after[i]).stale by {
            if i < base.len() {
                assert(after[i] == after.subrange(0, base.len() as int)[i]);
                if i < swept.len() {
                    assert(!stale_mark()(swept[i]));
                }
            } else {
                lemma_generated_whole(after[i], None, None);
            }
        }
    }
    to_play
}

} // verus!
