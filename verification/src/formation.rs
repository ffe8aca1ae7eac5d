//! Enemy formations: an elliptical holding pattern that an enemy chases.
//!
//! A formation names a point that travels round an ellipse. Each tick the enemy
//! moves toward where that point would be next, by at most the distance its
//! speed allows, and the point itself only moves on once the enemy has caught
//! up with it. The phase of the point is kept as it adds up, over as many
//! turns as it has made.

use vstd::prelude::*;
use crate::fixed::{
    abs_u64, distance, distance_between, div_nearest, div_toward_zero, in_field, in_limit,
    lemma_distance_bounds, magnitude, point, squared_distance, FIELD_LIMIT,
};
use crate::trig::{
    cos_fine, cosine_fine, lemma_trig_bounded, sin_fine, sine_fine, FINE_ONE, FINE_PI,
};

verus! {

/// The holding pattern attached to one enemy.
#[derive(Clone, Copy, Debug, PartialEq, Eq)]
pub struct Formation {
    /// Where the enemy entered; the sign of its first coordinate fixes the
    /// direction of travel.
    pub start: (i64, i64),
    /// Centre of the ellipse.
    pub pivot: (i64, i64),
    /// Horizontal and vertical radius of the ellipse.
    pub radius: (i64, i64),
    /// Current phase, in radians.
    pub angle: i64,
    /// Speed along the path, in pixels per second.
    pub speed: i64,
}

/// The farthest that any enemy travels in one tick: the greatest speed for
/// the longest tick.
pub const MAX_TRAVEL: u64 = 5_000_000_000_000_000;

/// The product of a length and a ratio in fine steps, rounded toward zero.
pub open spec fn mul_fine(length: int, ratio: int) -> int {
    div_toward_zero(length * ratio, 1_000_000_000_000)
}

/// The product of a length and a ratio between minus one and one.
fn scale_by_ratio(length: i64, ratio: i64) -> (r: i64)
    requires
        0 <= length <= FIELD_LIMIT,
        -FINE_ONE <= ratio <= FINE_ONE,
    ensures
        r == mul_fine(length as int, ratio as int),
        -length <= r <= length,
{
    let l: u128 = length as u128;
    let m: u128 = abs_u64(ratio) as u128;
    assert(0 <= l * m <= l * 1_000_000_000_000 && l * 1_000_000_000_000 <= 1_000_000_000_000
        * 1_000_000_000_000) by (nonlinear_arith)
        requires
            0 <= l <= 1_000_000_000_000,
            0 <= m <= 1_000_000_000_000,
    ;
    let q: u128 = l * m / 1_000_000_000_000;
    proof {
        lemma_mul_fine_bounded(length as int, ratio as int);
        assert(length * ratio == l * m || length * ratio == -(l * m)) by (nonlinear_arith)
            requires
                l == length,
                m == magnitude(ratio as int),
        ;
        assert(ratio >= 0 ==> length * ratio >= 0) by (nonlinear_arith)
            requires
                0 <= length,
        ;
        assert(ratio < 0 ==> length * ratio <= 0) by (nonlinear_arith)
            requires
                0 <= length,
        ;
        assert(0int / 1_000_000_000_000 == 0);
    }
    if ratio >= 0 {
        q as i64
    } else {
        -(q as i64)
    }
}

/// One coordinate after a move from `from` toward `to`: `from` less the
/// displacement, but never past `to`.
pub open spec fn step_toward(from: int, to: int, max_distance: int, distance: int) -> int {
    let gap = from - to;
    let moved = from - displacement(gap, max_distance, distance);
    if gap > 0 {
        if moved > to {
            moved
        } else {
            to
        }
    } else {
        if moved < to {
            moved
        } else {
            to
        }
    }
}

/// The share of `max_distance` that falls on one axis: the gap on that axis
/// times `max_distance / distance`, and nothing at all when the distance is zero.
pub open spec fn displacement(gap: int, max_distance: int, distance: int) -> int {
    if distance == 0 {
        0
    } else {
        div_toward_zero(gap * max_distance, distance)
    }
}

/// Moves one coordinate from `from` toward `to`.
fn approach(from: i64, to: i64, max_distance: u64, distance: u64) -> (r: i64)
    requires
        in_limit(from as int),
        in_limit(to as int),
        magnitude(from - to) <= distance,
        max_distance <= MAX_TRAVEL,
    ensures
        r == step_toward(from as int, to as int, max_distance as int, distance as int),
        from <= r <= to || to <= r <= from,
{
    if distance == 0 {
        return from;
    }
    let gap: i64 = from - to;
    let g: u128 = abs_u64(gap) as u128;
    let m: u128 = max_distance as u128;
    let d: u128 = distance as u128;
    assert(0 <= g * m <= 2_000_000_000_000 * 5_000_000_000_000_000) by (nonlinear_arith)
        requires
            0 <= g <= 2_000_000_000_000,
            0 <= m <= 5_000_000_000_000_000,
    ;
    let shift: u128 = g * m / d;
    proof {
        assert(g == 0 ==> g * m == 0) by (nonlinear_arith);
        assert(0int / (distance as int) == 0) by (nonlinear_arith)
            requires
                distance > 0,
        ;
        if gap >= 0 {
            assert(gap * max_distance == g * m) by (nonlinear_arith)
                requires
                    gap == g,
                    max_distance == m,
            ;
        } else {
            assert(-(gap * max_distance) == g * m && (g * m == 0 ==> gap * max_distance == 0))
                by (nonlinear_arith)
                requires
                    -gap == g,
                    max_distance == m,
            ;
        }
    }
    if shift >= g {
        to
    } else if gap > 0 {
        from - (shift as i64)
    } else {
        from + (shift as i64)
    }
}

/// A coordinate that moves toward a goal ends between where it was and the
/// goal.
pub proof fn lemma_step_toward_between(from: int, to: int, max_distance: int, distance: int)
    requires
        0 <= max_distance,
        0 <= distance,
    ensures
        ({
            let next = step_toward(from, to, max_distance, distance);
            from <= next <= to || to <= next <= from
        }),
{
    let gap = from - to;
    if distance > 0 {
        assert(0int / distance == 0) by (nonlinear_arith)
            requires
                0 < distance,
        ;
        if gap >= 0 {
            assert(0 <= gap * max_distance && (gap == 0 ==> gap * max_distance == 0))
                by (nonlinear_arith)
                requires
                    0 <= gap,
                    0 <= max_distance,
            ;
            assert(0 <= (gap * max_distance) / distance) by (nonlinear_arith)
                requires
                    0 <= gap * max_distance,
                    0 < distance,
            ;
        } else {
            assert(gap * max_distance <= 0) by (nonlinear_arith)
                requires
                    gap < 0,
                    0 <= max_distance,
            ;
            assert(0 <= (-(gap * max_distance)) / distance) by (nonlinear_arith)
                requires
                    0 <= -(gap * max_distance),
                    0 < distance,
            ;
        }
    }
}

/// A coordinate that moves toward a goal is displaced by no more than its
/// share of the greatest distance: its gap to the goal times `max_distance /
/// distance`.
pub proof fn lemma_step_toward_bounded(from: int, to: int, max_distance: int, distance: int)
    requires
        0 <= max_distance,
        0 < distance,
    ensures
        ({
            let next = step_toward(from, to, max_distance, distance);
            magnitude(next - from) * distance <= magnitude(from - to) * max_distance
        }),
{
    let gap = magnitude(from - to);
    let whole = gap * max_distance;
    let shift = whole / distance;
    let moved = magnitude(step_toward(from, to, max_distance, distance) - from);
    assert(0 <= whole && (gap == 0 ==> whole == 0)) by (nonlinear_arith)
        requires
            0 <= gap,
            0 <= max_distance,
            whole == gap * max_distance,
    ;
    assert(0 <= shift && shift * distance <= whole) by (nonlinear_arith)
        requires
            0 <= whole,
            0 < distance,
            shift == whole / distance,
    ;
    assert((from - to) * max_distance == whole || (from - to) * max_distance == -whole)
        by (nonlinear_arith)
        requires
            gap == magnitude(from - to),
            whole == gap * max_distance,
    ;
    assert(moved <= shift);
    assert(moved * distance <= shift * distance) by (nonlinear_arith)
        requires
            0 <= moved <= shift,
            0 < distance,
    ;
}

/// A length times a ratio between minus one and one is no longer than the
/// length.
pub proof fn lemma_mul_fine_bounded(length: int, ratio: int)
    requires
        0 <= length,
        -FINE_ONE <= ratio <= FINE_ONE,
    ensures
        -length <= mul_fine(length, ratio) <= length,
{
    if ratio >= 0 {
        assert(0 <= length * ratio <= length * 1_000_000_000_000) by (nonlinear_arith)
            requires
                0 <= length,
                0 <= ratio <= 1_000_000_000_000,
        ;
    } else {
        assert(0 <= -(length * ratio) <= length * 1_000_000_000_000) by (nonlinear_arith)
            requires
                0 <= length,
                -1_000_000_000_000 <= ratio < 0,
        ;
    }
}

impl Formation {
    /// The invariant of a formation: positive radii, an ellipse that lies
    /// inside the field, and a speed that is not negative.
    pub open spec fn wf(self) -> bool {
        &&& 0 < self.radius.0
        &&& 0 < self.radius.1
        &&& in_limit(self.pivot.0 - self.radius.0)
        &&& in_limit(self.pivot.0 + self.radius.0)
        &&& in_limit(self.pivot.1 - self.radius.1)
        &&& in_limit(self.pivot.1 + self.radius.1)
        &&& 0 <= self.speed <= FIELD_LIMIT
    }

    /// Whether `position` lies within the radii of the pivot on both axes.
    pub open spec fn within_reach(self, position: (i64, i64)) -> bool {
        &&& magnitude(position.0 - self.pivot.0) <= self.radius.0
        &&& magnitude(position.1 - self.pivot.1) <= self.radius.1
    }

    /// `1` for travel counter-clockwise, `-1` for clockwise.
    pub open spec fn direction(self) -> int {
        if self.start.0 < 0 {
            1
        } else {
            -1
        }
    }

    /// The smaller of the two radii.
    pub open spec fn min_radius(self) -> int {
        if self.radius.0 <= self.radius.1 {
            self.radius.0 as int
        } else {
            self.radius.1 as int
        }
    }

    /// The farthest the enemy may travel in a step of `dt`: `dt * speed`.
    pub open spec fn max_distance(self, dt: int) -> int {
        self.speed * dt / 1_000_000
    }

    /// The phase gained in a step of `dt`, to the nearest millionth:
    /// `speed * dt / (min_radius * PI / 2)`.
    pub open spec fn angle_step(self, dt: int) -> int {
        div_nearest(2 * self.speed * dt * FINE_ONE, self.min_radius() * FINE_PI)
    }

    /// The phase the formation would have after a step of `dt`: the phase it
    /// has, plus the step for travel counter-clockwise and less the step for
    /// travel clockwise.
    pub open spec fn candidate_angle(self, dt: int) -> int {
        self.angle + self.direction() * self.angle_step(dt)
    }

    /// Whether the phase that the formation would have after a step of `dt`
    /// is one that the phase field can hold.
    pub open spec fn phase_fits(self, dt: int) -> bool {
        i64::MIN <= self.candidate_angle(dt) <= i64::MAX
    }

    /// The point of the ellipse at phase `angle`.
    pub open spec fn target(self, angle: int) -> (int, int) {
        (
            mul_fine(self.radius.0 as int, cosine_fine(angle)) + self.pivot.0,
            mul_fine(self.radius.1 as int, sine_fine(angle)) + self.pivot.1,
        )
    }

    /// Whether an enemy at `position` is close enough to the point it chases
    /// for the phase to move on: its distance is less than
    /// `max_distance * speed / 20`, with `max_distance` taken as `dt * speed`
    /// without rounding.
    pub open spec fn catches_up(self, position: (i64, i64), dt: int) -> bool {
        distance_between(point(position), self.target(self.candidate_angle(dt)))
            * 20_000_000_000_000 < self.speed * self.speed * dt
    }

    /// The phase after a step of `dt`: the candidate phase once the enemy has
    /// caught up, the old phase until then.
    pub open spec fn angle_after(self, position: (i64, i64), dt: int) -> int {
        if self.catches_up(position, dt) {
            self.candidate_angle(dt)
        } else {
            self.angle as int
        }
    }

    /// Where an enemy at `position` stands after a step of `dt`.
    pub open spec fn next_position(self, position: (i64, i64), dt: int) -> (int, int) {
        let goal = self.target(self.candidate_angle(dt));
        let far = distance_between(point(position), goal);
        let reach = self.max_distance(dt);
        (
            step_toward(position.0 as int, goal.0, reach, far),
            step_toward(position.1 as int, goal.1, reach, far),
        )
    }

    /// The formation and the position after one tick of `dt`.
    pub open spec fn step(self, position: (i64, i64), dt: u32) -> (Formation, (i64, i64)) {
        let next = self.next_position(position, dt as int);
        (
            Formation { angle: self.angle_after(position, dt as int) as i64, ..self },
            (next.0 as i64, next.1 as i64),
        )
    }

    /// The formation and the position after one tick for each entry of
    /// `ticks`, in order.
    pub open spec fn after_ticks(self, position: (i64, i64), ticks: Seq<u32>) -> (
        Formation,
        (i64, i64),
    )
        decreases ticks.len(),
    {
        if ticks.len() == 0 {
            (self, position)
        } else {
            let before = self.after_ticks(position, ticks.drop_last());
            before.0.step(before.1, ticks.last())
        }
    }

    /// Every point of the ellipse lies within the radii of the pivot.
    pub proof fn lemma_target_within_reach(self, angle: int)
        requires
            self.wf(),
        ensures
            magnitude(self.target(angle).0 - self.pivot.0) <= self.radius.0,
            magnitude(self.target(angle).1 - self.pivot.1) <= self.radius.1,
    {
        lemma_trig_bounded(angle);
        lemma_mul_fine_bounded(self.radius.0 as int, cosine_fine(angle));
        lemma_mul_fine_bounded(self.radius.1 as int, sine_fine(angle));
    }

    /// A tick moves the enemy along the straight approach to the point it
    /// chases: on each axis it ends between where it was and that point.
    pub proof fn lemma_advance_approaches(self, position: (i64, i64), dt: u32)
        requires
            self.wf(),
        ensures
            ({
                let goal = self.target(self.candidate_angle(dt as int));
                let next = self.next_position(position, dt as int);
                &&& position.0 <= next.0 <= goal.0 || goal.0 <= next.0 <= position.0
                &&& position.1 <= next.1 <= goal.1 || goal.1 <= next.1 <= position.1
            }),
    {
        let goal = self.target(self.candidate_angle(dt as int));
        let far = distance_between(point(position), goal);
        let reach = self.max_distance(dt as int);
        assert(0 <= self.speed * dt) by (nonlinear_arith)
            requires
                0 <= self.speed,
                0 <= dt,
        ;
        lemma_step_toward_between(position.0 as int, goal.0, reach, far);
        lemma_step_toward_between(position.1 as int, goal.1, reach, far);
    }

    /// A tick moves the enemy by no more than the distance its speed allows.
    pub proof fn lemma_advance_within_travel(self, position: (i64, i64), dt: u32)
        requires
            self.wf(),
        ensures
            squared_distance(self.next_position(position, dt as int), point(position))
                <= self.max_distance(dt as int) * self.max_distance(dt as int),
    {
        let goal = self.target(self.candidate_angle(dt as int));
        let far = distance_between(point(position), goal);
        let reach = self.max_distance(dt as int);
        let next = self.next_position(position, dt as int);
        let (moved_x, moved_y) = (magnitude(next.0 - position.0), magnitude(next.1 - position.1));
        let (gap_x, gap_y) = (magnitude(position.0 - goal.0), magnitude(position.1 - goal.1));
        assert(0 <= self.speed * dt) by (nonlinear_arith)
            requires
                0 <= self.speed,
                0 <= dt,
        ;
        lemma_distance_bounds(point(position), goal);
        let (step_x, step_y) = (next.0 - position.0, next.1 - position.1);
        assert(moved_x * moved_x == step_x * step_x && moved_y * moved_y == step_y * step_y && 0
            <= step_x * step_x && 0 <= step_y * step_y) by (nonlinear_arith)
            requires
                moved_x == magnitude(step_x),
                moved_y == magnitude(step_y),
        ;
        assert(moved_x * moved_x + moved_y * moved_y == squared_distance(next, point(position)));
        assert(0 <= reach * reach) by (nonlinear_arith);
        if far > 0 {
            lemma_step_toward_bounded(position.0 as int, goal.0, reach, far);
            lemma_step_toward_bounded(position.1 as int, goal.1, reach, far);
            let (off_x, off_y) = (position.0 - goal.0, position.1 - goal.1);
            assert(gap_x * gap_x == off_x * off_x && gap_y * gap_y == off_y * off_y && 0 <= off_x
                * off_x && 0 <= off_y * off_y) by (nonlinear_arith)
                requires
                    gap_x == magnitude(off_x),
                    gap_y == magnitude(off_y),
            ;
            assert(gap_x * gap_x + gap_y * gap_y == squared_distance(point(position), goal));
            assert(0 <= moved_x * far && 0 <= moved_y * far) by (nonlinear_arith)
                requires
                    0 <= moved_x,
                    0 <= moved_y,
                    0 < far,
            ;
            assert((moved_x * far) * (moved_x * far) <= (gap_x * reach) * (gap_x * reach))
                by (nonlinear_arith)
                requires
                    0 <= moved_x * far <= gap_x * reach,
            ;
            assert((moved_y * far) * (moved_y * far) <= (gap_y * reach) * (gap_y * reach))
                by (nonlinear_arith)
                requires
                    0 <= moved_y * far <= gap_y * reach,
            ;
            let moved = moved_x * moved_x + moved_y * moved_y;
            let gap = gap_x * gap_x + gap_y * gap_y;
            let (scaled_x, scaled_y) = (moved_x * far, moved_y * far);
            let (share_x, share_y) = (gap_x * reach, gap_y * reach);
            assert((far * far) * moved == scaled_x * scaled_x + scaled_y * scaled_y)
                by (nonlinear_arith)
                requires
                    moved == moved_x * moved_x + moved_y * moved_y,
                    scaled_x == moved_x * far,
                    scaled_y == moved_y * far,
            ;
            assert((reach * reach) * gap == share_x * share_x + share_y * share_y)
                by (nonlinear_arith)
                requires
                    gap == gap_x * gap_x + gap_y * gap_y,
                    share_x == gap_x * reach,
                    share_y == gap_y * reach,
            ;
            assert((reach * reach) * gap <= (reach * reach) * (far * far)) by (nonlinear_arith)
                requires
                    gap <= far * far,
                    0 <= reach * reach,
            ;
            assert(moved <= reach * reach) by (nonlinear_arith)
                requires
                    (far * far) * moved <= (reach * reach) * (far * far),
                    0 < far,
            ;
        }
    }

    /// A tick never carries the enemy farther from the pivot, on either axis,
    /// than it already was or than the radius of the ellipse, whichever is
    /// more.
    pub proof fn lemma_advance_never_farther(self, position: (i64, i64), dt: u32)
        requires
            self.wf(),
        ensures
            ({
                let next = self.next_position(position, dt as int);
                &&& magnitude(next.0 - self.pivot.0) <= magnitude(position.0 - self.pivot.0)
                    || magnitude(next.0 - self.pivot.0) <= self.radius.0
                &&& magnitude(next.1 - self.pivot.1) <= magnitude(position.1 - self.pivot.1)
                    || magnitude(next.1 - self.pivot.1) <= self.radius.1
            }),
    {
        self.lemma_target_within_reach(self.candidate_angle(dt as int));
        self.lemma_advance_approaches(position, dt);
    }

    /// An enemy that stands within the radii of the pivot still does after a
    /// tick of any length, and the formation keeps its invariant.
    pub proof fn lemma_advance_stays_within_reach(self, position: (i64, i64), dt: u32)
        requires
            self.wf(),
            self.within_reach(position),
        ensures
            self.step(position, dt).0.wf(),
            self.step(position, dt).0.within_reach(self.step(position, dt).1),
            self.step(position, dt).0.pivot == self.pivot,
            self.step(position, dt).0.radius == self.radius,
    {
        self.lemma_advance_never_farther(position, dt);
    }

    /// However many ticks follow one another and whatever their lengths, an
    /// enemy that stands within the radii of the pivot never leaves them.
    pub proof fn lemma_orbit_stays_within_reach(self, position: (i64, i64), ticks: Seq<u32>)
        requires
            self.wf(),
            self.within_reach(position),
        ensures
            self.after_ticks(position, ticks).0.wf(),
            self.after_ticks(position, ticks).0.within_reach(self.after_ticks(position, ticks).1),
            self.after_ticks(position, ticks).0.pivot == self.pivot,
            self.after_ticks(position, ticks).0.radius == self.radius,
        decreases ticks.len(),
    {
        if ticks.len() > 0 {
            self.lemma_orbit_stays_within_reach(position, ticks.drop_last());
            let before = self.after_ticks(position, ticks.drop_last());
            before.0.lemma_advance_stays_within_reach(before.1, ticks.last());
        }
    }

    /// The phase is left alone by a tick in which the enemy has not caught up
    /// with the point it chases.
    pub proof fn lemma_angle_frozen_until_caught_up(self, position: (i64, i64), dt: u32)
        requires
            !self.catches_up(position, dt as int),
        ensures
            self.angle_after(position, dt as int) == self.angle,
            self.step(position, dt).0 == self,
    {
    }

    /// A tick in which the enemy has caught up with the point it chases
    /// commits the candidate: the phase before it, plus or less the step.
    pub proof fn lemma_angle_advances_once_caught_up(self, position: (i64, i64), dt: u32)
        requires
            self.catches_up(position, dt as int),
        ensures
            self.angle_after(position, dt as int) == self.angle + self.direction()
                * self.angle_step(dt as int),
            self.start.0 < 0 ==> self.angle_after(position, dt as int) == self.angle
                + self.angle_step(dt as int),
            self.start.0 >= 0 ==> self.angle_after(position, dt as int) == self.angle
                - self.angle_step(dt as int),
    {
    }

    /// An enemy that stands exactly on the point it chases is not displaced,
    /// and if the formation has any speed and the tick any length, the phase
    /// moves on to the candidate.
    pub proof fn lemma_no_step_at_zero_distance(self, position: (i64, i64), dt: u32)
        requires
            distance_between(point(position), self.target(self.candidate_angle(dt as int))) == 0,
        ensures
            displacement(
                position.0 - self.target(self.candidate_angle(dt as int)).0,
                self.max_distance(dt as int),
                0,
            ) == 0,
            self.next_position(position, dt as int) == point(position),
            self.speed > 0 && dt > 0 ==> self.angle_after(position, dt as int)
                == self.candidate_angle(dt as int),
    {
        if self.speed > 0 && dt > 0 {
            assert(0 < self.speed * self.speed * dt) by (nonlinear_arith)
                requires
                    0 < self.speed,
                    0 < dt,
            ;
        }
    }

    /// The formation with the given fields, if it keeps the invariant.
    pub fn new(
        start: (i64, i64),
        pivot: (i64, i64),
        radius: (i64, i64),
        angle: i64,
        speed: i64,
    ) -> (made: Option<Formation>)
        ensures
            made is Some <==> (Formation { start, pivot, radius, angle, speed }).wf(),
            made is Some ==> made->0 == (Formation { start, pivot, radius, angle, speed }),
    {
        let formation = Formation { start, pivot, radius, angle, speed };
        if formation.is_valid() {
            Some(formation)
        } else {
            None
        }
    }

    /// Whether all the invariant's conditions hold.
    pub fn is_valid(&self) -> (ok: bool)
        ensures
            ok == self.wf(),
    {
        0 < self.radius.0 && self.radius.0 <= FIELD_LIMIT && 0 < self.radius.1 && self.radius.1
            <= FIELD_LIMIT && -FIELD_LIMIT <= self.pivot.0 && self.pivot.0 <= FIELD_LIMIT
            && -FIELD_LIMIT <= self.pivot.1 && self.pivot.1 <= FIELD_LIMIT && self.pivot.0
            - self.radius.0 >= -FIELD_LIMIT && self.pivot.0 + self.radius.0 <= FIELD_LIMIT
            && self.pivot.1 - self.radius.1 >= -FIELD_LIMIT && self.pivot.1 + self.radius.1
            <= FIELD_LIMIT && 0 <= self.speed && self.speed <= FIELD_LIMIT
    }

    /// The farthest the enemy may travel in a step of `dt`.
    pub fn travel(&self, dt: u32) -> (r: u64)
        requires
            self.wf(),
        ensures
            r == self.max_distance(dt as int),
            r <= MAX_TRAVEL,
    {
        let s: u128 = self.speed as u128;
        let t: u128 = dt as u128;
        assert(0 <= s * t <= 1_000_000_000_000 * 0x1_0000_0000) by (nonlinear_arith)
            requires
                0 <= s <= 1_000_000_000_000,
                0 <= t <= 0x1_0000_0000,
        ;
        (s * t / 1_000_000) as u64
    }

    /// The phase the formation would have after a step of `dt`, in a type
    /// wide enough for any phase and step.
    fn phase_sum(&self, dt: u32) -> (r: i128)
        requires
            self.wf(),
        ensures
            r == self.candidate_angle(dt as int),
    {
        let s: u128 = self.speed as u128;
        let t: u128 = dt as u128;
        let least: i64 = if self.radius.0 <= self.radius.1 {
            self.radius.0
        } else {
            self.radius.1
        };
        let m: u128 = least as u128;
        assert(0 <= s * t <= 1_000_000_000_000 * 0x1_0000_0000) by (nonlinear_arith)
            requires
                0 <= s <= 1_000_000_000_000,
                0 <= t <= 0x1_0000_0000,
        ;
        assert(2 * self.speed * dt * FINE_ONE == 2 * (s * t) * 1_000_000_000_000)
            by (nonlinear_arith)
            requires
                s == self.speed,
                t == dt,
                FINE_ONE == 1_000_000_000_000,
        ;
        assert(0 < m * 3_141_592_653_590 <= 1_000_000_000_000 * 3_141_592_653_590)
            by (nonlinear_arith)
            requires
                0 < m <= 1_000_000_000_000,
        ;
        assert(self.min_radius() * FINE_PI == m * 3_141_592_653_590);
        let whole: u128 = 2 * (s * t) * 1_000_000_000_000;
        let part: u128 = m * 3_141_592_653_590;
        let step: u128 = (2 * whole + part) / (2 * part);
        assert(step <= 2 * whole + part) by (nonlinear_arith)
            requires
                step == (2 * whole + part) / (2 * part),
                0 < part,
                0 <= whole,
        ;
        assert(step == self.angle_step(dt as int));
        if self.start.0 < 0 {
            self.angle as i128 + step as i128
        } else {
            self.angle as i128 - step as i128
        }
    }

    /// Whether the phase that the formation would have after a step of `dt`
    /// is one that the phase field can hold.
    pub fn can_turn(&self, dt: u32) -> (r: bool)
        requires
            self.wf(),
        ensures
            r == self.phase_fits(dt as int),
    {
        let sum: i128 = self.phase_sum(dt);
        i64::MIN as i128 <= sum && sum <= i64::MAX as i128
    }

    /// The phase the formation would have after a step of `dt`.
    pub fn candidate(&self, dt: u32) -> (r: i64)
        requires
            self.wf(),
            self.phase_fits(dt as int),
        ensures
            r == self.candidate_angle(dt as int),
    {
        self.phase_sum(dt) as i64
    }

    /// The point of the ellipse at phase `angle`.
    pub fn target_point(&self, angle: i64) -> (p: (i64, i64))
        requires
            self.wf(),
        ensures
            p.0 == self.target(angle as int).0,
            p.1 == self.target(angle as int).1,
            self.within_reach(p),
            in_field(p),
    {
        let c: i64 = cos_fine(angle);
        let s: i64 = sin_fine(angle);
        (scale_by_ratio(self.radius.0, c) + self.pivot.0, scale_by_ratio(self.radius.1, s) + self.pivot.1)
    }

    /// Moves an enemy at `position` through one tick of `dt` and returns where
    /// it stands afterwards. The enemy heads for the point of the ellipse at
    /// the candidate phase and covers at most `dt * speed`, without passing
    /// that point on either axis. If the enemy was closer to that point than
    /// `max_distance * speed / 20`, the phase becomes the candidate, which is
    /// the old phase plus or less the step and is not reduced to one turn;
    /// otherwise the phase stays as it was. The candidate has to fit the phase
    /// field, which [`Formation::can_turn`] tells.
    pub fn advance(&mut self, position: (i64, i64), dt: u32) -> (next: (i64, i64))
        requires
            old(self).wf(),
            old(self).phase_fits(dt as int),
            in_field(position),
        ensures
            next.0 == old(self).next_position(position, dt as int).0,
            next.1 == old(self).next_position(position, dt as int).1,
            final(self).angle == old(self).angle_after(position, dt as int),
            old(self).catches_up(position, dt as int) ==> final(self).angle == old(self).angle
                + old(self).direction() * old(self).angle_step(dt as int),
            !old(self).catches_up(position, dt as int) ==> final(self).angle == old(self).angle,
            final(self).start == old(self).start,
            final(self).pivot == old(self).pivot,
            final(self).radius == old(self).radius,
            final(self).speed == old(self).speed,
            old(self).step(position, dt) == (*final(self), next),
            final(self).wf(),
            in_field(next),
            squared_distance(point(next), point(position)) <= old(self).max_distance(dt as int)
                * old(self).max_distance(dt as int),
    {
        proof {
            self.lemma_advance_within_travel(position, dt);
        }
        let reach: u64 = self.travel(dt);
        let angle: i64 = self.candidate(dt);
        let goal: (i64, i64) = self.target_point(angle);
        let far: u64 = distance(position, goal);
        let x: i64 = approach(position.0, goal.0, reach, far);
        let y: i64 = approach(position.1, goal.1, reach, far);
        let s: u128 = self.speed as u128;
        let t: u128 = dt as u128;
        assert(0 <= s * s <= 1_000_000_000_000 * 1_000_000_000_000) by (nonlinear_arith)
            requires
                0 <= s <= 1_000_000_000_000,
        ;
        assert(0 <= (s * s) * t <= (1_000_000_000_000 * 1_000_000_000_000) * 0x1_0000_0000)
            by (nonlinear_arith)
            requires
                0 <= s * s <= 1_000_000_000_000 * 1_000_000_000_000,
                0 <= t <= 0x1_0000_0000,
        ;
        assert(self.speed * self.speed * dt == (s * s) * t) by (nonlinear_arith)
            requires
                s == self.speed,
                t == dt,
        ;
        if (far as u128) * 20_000_000_000_000 < (s * s) * t {
            self.angle = angle;
        }
        (x, y)
    }
}

} // verus!
