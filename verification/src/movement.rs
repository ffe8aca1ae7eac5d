//! Plain motion: entities drift by their velocity once per tick, and those
//! marked for it are removed when they leave the window by more than a margin.

use vstd::prelude::*;
use crate::fixed::{in_field, FIELD_LIMIT};

verus! {

/// How far past the window's edge an entity may stray before it is removed:
/// a hundred pixels.
pub const DESPAWN_MARGIN: i64 = 100_000_000;

/// Displacement per tick.
#[derive(Clone, Copy, Debug, Default, PartialEq, Eq, Structural)]
pub struct Velocity {
    pub x: i64,
    pub y: i64,
}

/// How the motion system treats an entity.
#[derive(Clone, Copy, Debug, PartialEq, Eq, Structural)]
pub struct Movable {
    /// Whether the entity is removed once it has left the window.
    pub auto_despawn: bool,
}

/// What one tick of plain motion does to an entity.
#[derive(Clone, Copy, Debug, PartialEq, Eq)]
pub struct Motion {
    /// Where the entity stands after the tick.
    pub position: (i64, i64),
    /// Whether the entity is to be removed.
    pub despawn: bool,
}

/// A coordinate held to the field: values beyond a limit become that limit.
pub open spec fn clamp_to_field(v: int) -> int {
    if v < -FIELD_LIMIT {
        -FIELD_LIMIT as int
    } else if v > FIELD_LIMIT {
        FIELD_LIMIT as int
    } else {
        v
    }
}

/// Where an entity at `position` stands after drifting by `velocity`.
pub open spec fn drifted(position: (i64, i64), velocity: Velocity) -> (int, int) {
    (clamp_to_field(position.0 + velocity.x), clamp_to_field(position.1 + velocity.y))
}

/// Whether `position` lies beyond the margin round a window of the given
/// width and height, centred on the origin.
pub open spec fn beyond_margin(position: (i64, i64), window: (i64, i64)) -> bool {
    ||| 2 * position.1 > window.1 + 2 * DESPAWN_MARGIN
    ||| 2 * position.1 < -window.1 - 2 * DESPAWN_MARGIN
    ||| 2 * position.0 > window.0 + 2 * DESPAWN_MARGIN
    ||| 2 * position.0 < -window.0 - 2 * DESPAWN_MARGIN
}

fn clamped_sum(a: i64, b: i64) -> (r: i64)
    ensures
        r == clamp_to_field(a + b),
        -FIELD_LIMIT <= r <= FIELD_LIMIT,
{
    let sum: i128 = a as i128 + b as i128;
    if sum < -(FIELD_LIMIT as i128) {
        -FIELD_LIMIT
    } else if sum > FIELD_LIMIT as i128 {
        FIELD_LIMIT
    } else {
        sum as i64
    }
}

/// Moves a position by a velocity, holding it to the field.
pub fn drift(position: (i64, i64), velocity: Velocity) -> (next: (i64, i64))
    ensures
        next.0 == drifted(position, velocity).0,
        next.1 == drifted(position, velocity).1,
        in_field(next),
{
    (clamped_sum(position.0, velocity.x), clamped_sum(position.1, velocity.y))
}

/// Whether `position` lies beyond the margin round the window.
pub fn is_beyond_margin(position: (i64, i64), window: (i64, i64)) -> (r: bool)
    ensures
        r == beyond_margin(position, window),
{
    let x: i128 = 2 * (position.0 as i128);
    let y: i128 = 2 * (position.1 as i128);
    let w: i128 = window.0 as i128;
    let h: i128 = window.1 as i128;
    let m: i128 = 2 * (DESPAWN_MARGIN as i128);
    y > h + m || y < -h - m || x > w + m || x < -w - m
}

/// One tick of plain motion: the entity drifts by its velocity, and is to be
/// removed if it is marked for it and then lies beyond the margin.
pub fn movement_step(
    position: (i64, i64),
    velocity: Velocity,
    movable: Movable,
    window: (i64, i64),
) -> (motion: Motion)
    ensures
        motion.position.0 == drifted(position, velocity).0,
        motion.position.1 == drifted(position, velocity).1,
        in_field(motion.position),
        motion.despawn == (movable.auto_despawn && beyond_margin(motion.position, window)),
{
    let next = drift(position, velocity);
    Motion { position: next, despawn: movable.auto_despawn && is_beyond_margin(next, window) }
}

} // verus!
