//! Making formations for newly spawned enemies.
//!
//! Enemies enter from alternating sides, at a random height just outside the
//! window, and settle on an ellipse of random place and width that lies inside
//! the window. The random draws come from a generator that is seeded when the
//! maker is built, so that a run can be repeated.

use vstd::prelude::*;
use rand::rngs::StdRng;
use rand::{Rng, SeedableRng};
use crate::fixed::magnitude;
use crate::formation::Formation;
use crate::trig::PI;

verus! {

/// How far outside the window's side edges enemies appear, and how far above
/// and below its centre line their entry may lie beyond the window: a hundred
/// pixels.
pub const SPAWN_MARGIN: i64 = 100_000_000;

/// The speed of every formation: a hundred pixels per second.
pub const BASE_SPEED: i64 = 100_000_000;

/// The smallest window side that formations are laid out for: one pixel.
pub const MIN_WINDOW: i64 = 1_000_000;

/// The largest window side that formations are laid out for.
pub const MAX_WINDOW: i64 = 1_000_000_000_000;

/// The most enemies that may be alive at once.
pub const MAX_ENEMIES: usize = 2;

/// `rand::rngs::StdRng`, the generator that the maker draws from. It is
/// carried as it is: nothing of its state is known here.
#[verifier::external_type_specification]
#[verifier::external_body]
pub struct ExStdRng(rand::rngs::StdRng);

/// `rand::SeedableRng::seed_from_u64` for `rand::rngs::StdRng`: a generator
/// built from a seed. Nothing is claimed of the generator.
#[verifier::external_body]
fn seeded_generator(seed: u64) -> StdRng {
    StdRng::seed_from_u64(seed)
}

/// `rand::Rng::gen_range` on a half-open range of `i64`: the call panics on an
/// empty range, which `requires` leaves out, and returns a number of the range.
#[verifier::external_body]
fn draw_between(rng: &mut StdRng, low: i64, high: i64) -> (drawn: i64)
    requires
        low < high,
    ensures
        low <= drawn < high,
{
    rng.gen_range(low..high)
}

/// The random choices that go into one formation.
#[derive(Clone, Copy, Debug, PartialEq, Eq, Structural)]
pub struct Draws {
    /// Height of the entry point.
    pub start_y: i64,
    /// Horizontal place of the pivot.
    pub pivot_x: i64,
    /// Vertical place of the pivot.
    pub pivot_y: i64,
    /// Horizontal radius.
    pub radius_x: i64,
}

/// Makes the formations of the enemies, one per spawn.
pub struct FormationMaker {
    from_left: bool,
    rng: StdRng,
}

/// `v` held between `low` and `high`.
pub open spec fn clamp(v: int, low: int, high: int) -> int {
    if v < low {
        low
    } else if v > high {
        high
    } else {
        v
    }
}

/// The side of the play field that a window side stands for: the window's
/// own, held between the smallest and the largest that formations are laid
/// out for.
pub open spec fn play_side(window_side: i64) -> int {
    clamp(window_side as int, MIN_WINDOW as int, MAX_WINDOW as int)
}

/// The formation that the draws give in a window of the given width and
/// height, for an enemy that enters from the left or from the right. A draw
/// outside its range counts as the nearest value of the range.
///
/// With `w` and `h` the sides of the play field: the enemy enters at
/// `w / 2 + SPAWN_MARGIN` left or right of the centre, at a height within
/// `h / 2 + SPAWN_MARGIN` of it. The pivot lies within `w / 4` of the vertical
/// axis and up to `h / 3` above the centre; the radii are between `w / 8` and
/// `w / 4`, and `h / 6`. The phase starts at the point of the ellipse that
/// faces the side of entry.
pub open spec fn formation_for(window: (i64, i64), from_left: bool, draws: Draws) -> Formation {
    let w = play_side(window.0);
    let h = play_side(window.1);
    let entry = w / 2 + SPAWN_MARGIN;
    let span = h / 2 + SPAWN_MARGIN;
    Formation {
        start: (
            if from_left {
                (-entry) as i64
            } else {
                entry as i64
            },
            clamp(draws.start_y as int, -span, span - 1) as i64,
        ),
        pivot: (
            clamp(draws.pivot_x as int, -(w / 4), w / 4) as i64,
            clamp(draws.pivot_y as int, 0, h / 3) as i64,
        ),
        radius: (clamp(draws.radius_x as int, w / 8, w / 4) as i64, (h / 6) as i64),
        angle: if from_left {
            PI
        } else {
            0
        },
        speed: BASE_SPEED,
    }
}

/// Whether the ellipse of a formation lies inside a window of the given width
/// and height, centred on the origin.
pub open spec fn inside_window(formation: Formation, window: (i64, i64)) -> bool {
    &&& -play_side(window.0) <= 2 * (formation.pivot.0 - formation.radius.0)
    &&& 2 * (formation.pivot.0 + formation.radius.0) <= play_side(window.0)
    &&& -play_side(window.1) <= 2 * (formation.pivot.1 - formation.radius.1)
    &&& 2 * (formation.pivot.1 + formation.radius.1) <= play_side(window.1)
}

/// Whether a formation is one that an enemy may enter with, from the given
/// side of a window of the given width and height.
pub open spec fn is_entry(formation: Formation, window: (i64, i64), from_left: bool) -> bool {
    exists|draws: Draws| formation == #[trigger] formation_for(window, from_left, draws)
}

/// Every formation that an enemy may enter with keeps the invariant of
/// formations, has its ellipse inside the window, and starts outside the
/// window on the side asked for, from where it turns counter-clockwise if it
/// came from the left and clockwise if it came from the right.
pub proof fn lemma_entry_fits(formation: Formation, window: (i64, i64), from_left: bool)
    requires
        is_entry(formation, window, from_left),
    ensures
        formation.wf(),
        inside_window(formation, window),
        from_left <==> formation.start.0 < 0,
        formation.direction() == if from_left {
            1int
        } else {
            -1int
        },
        2 * magnitude(formation.start.0 as int) > play_side(window.0),
        formation.speed == BASE_SPEED,
{
}

fn held(v: i64, low: i64, high: i64) -> (r: i64)
    requires
        low <= high,
    ensures
        r == clamp(v as int, low as int, high as int),
{
    if v < low {
        low
    } else if v > high {
        high
    } else {
        v
    }
}

/// The formation that the draws give; see [`formation_for`].
pub fn entering(window: (i64, i64), from_left: bool, draws: Draws) -> (formation: Formation)
    ensures
        formation == formation_for(window, from_left, draws),
        formation.wf(),
        inside_window(formation, window),
{
    let w: i64 = held(window.0, MIN_WINDOW, MAX_WINDOW);
    let h: i64 = held(window.1, MIN_WINDOW, MAX_WINDOW);
    let entry: i64 = w / 2 + SPAWN_MARGIN;
    let span: i64 = h / 2 + SPAWN_MARGIN;
    Formation {
        start: (
            if from_left {
                -entry
            } else {
                entry
            },
            held(draws.start_y, -span, span - 1),
        ),
        pivot: (held(draws.pivot_x, -(w / 4), w / 4), held(draws.pivot_y, 0, h / 3)),
        radius: (held(draws.radius_x, w / 8, w / 4), h / 6),
        angle: if from_left {
            PI
        } else {
            0
        },
        speed: BASE_SPEED,
    }
}

/// Whether one more enemy may be spawned while `alive` of them are alive.
pub fn spawn_allowed(alive: usize) -> (allowed: bool)
    ensures
        allowed == (alive < MAX_ENEMIES),
{
    alive < MAX_ENEMIES
}

impl FormationMaker {
    /// Whether the next enemy enters from the left.
    pub closed spec fn from_left(self) -> bool {
        self.from_left
    }

    /// A maker whose draws follow from `seed`. Its first enemy enters from the
    /// left.
    pub fn seeded(seed: u64) -> (maker: Self)
        ensures
            maker.from_left(),
    {
        FormationMaker { from_left: true, rng: seeded_generator(seed) }
    }

    /// Whether the next enemy enters from the left.
    pub fn next_from_left(&self) -> (r: bool)
        ensures
            r == self.from_left(),
    {
        self.from_left
    }

    /// Makes the formation of the next enemy for a window of the given width
    /// and height. The enemy enters from the side opposite to the one before;
    /// height of entry, pivot and horizontal radius are drawn at random.
    pub fn make(&mut self, window_width: i64, window_height: i64) -> (formation: Formation)
        ensures
            is_entry(formation, (window_width, window_height), old(self).from_left()),
            formation.wf(),
            inside_window(formation, (window_width, window_height)),
            final(self).from_left() == !old(self).from_left(),
    {
        let w: i64 = held(window_width, MIN_WINDOW, MAX_WINDOW);
        let h: i64 = held(window_height, MIN_WINDOW, MAX_WINDOW);
        let span: i64 = h / 2 + SPAWN_MARGIN;
        let draws = Draws {
            start_y: draw_between(&mut self.rng, -span, span),
            pivot_x: draw_between(&mut self.rng, -(w / 4), w / 4 + 1),
            pivot_y: draw_between(&mut self.rng, 0, h / 3 + 1),
            radius_x: draw_between(&mut self.rng, w / 8, w / 4 + 1),
        };
        let from_left = self.from_left;
        self.from_left = !from_left;
        entering((window_width, window_height), from_left, draws)
    }
}

} // verus!
