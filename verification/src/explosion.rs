//! The life of an explosion: a sprite that shrinks step by step and vanishes.
//!
//! An explosion carries a repeating timer. Each time the timer fires the
//! explosion loses a fixed amount on both axes; it is replaced by the smaller
//! one as long as both sides stay above the minimum, and ends otherwise.

use vstd::prelude::*;
use crate::collision::SpriteSize;

verus! {

/// The period of the shrink timer: a twentieth of a second.
pub const EXPLOSION_PERIOD: u64 = 50_000;

/// What an explosion loses on each axis when its timer fires: five pixels.
pub const SHRINK_STEP: i64 = 5_000_000;

/// The size that both sides of a live explosion exceed: five pixels.
pub const MIN_EXPLOSION_SIZE: i64 = 5_000_000;

/// The width of a fresh explosion: 48 pixels.
pub const EXPLOSION_WIDTH: i64 = 48_000_000;

/// The height of a fresh explosion: 46 pixels.
pub const EXPLOSION_HEIGHT: i64 = 46_000_000;

/// A repeating timer with the period of an explosion's shrink steps.
#[derive(Clone, Copy, Debug, PartialEq, Eq, Structural)]
pub struct ExplosionTimer {
    /// Time gathered since the timer last fired.
    pub elapsed: u64,
}

/// A live explosion.
#[derive(Clone, Copy, Debug, PartialEq, Eq, Structural)]
pub struct ExplosionState {
    pub size: SpriteSize,
    pub timer: ExplosionTimer,
}

/// What a tick does to an explosion.
#[derive(Clone, Copy, Debug, PartialEq, Eq, Structural)]
pub enum ExplosionStep {
    /// The timer has not fired: the explosion stays, with its timer advanced.
    Waiting(ExplosionState),
    /// The timer fired: the explosion is replaced by a smaller one.
    Shrunk(ExplosionState),
    /// The timer fired and the explosion is gone.
    Terminated,
}

/// The size after one shrink step, or `None` if the explosion ends with it.
pub open spec fn shrink(size: SpriteSize) -> Option<SpriteSize> {
    if size.w - SHRINK_STEP > MIN_EXPLOSION_SIZE && size.h - SHRINK_STEP > MIN_EXPLOSION_SIZE {
        Some(SpriteSize { w: (size.w - SHRINK_STEP) as i64, h: (size.h - SHRINK_STEP) as i64 })
    } else {
        None
    }
}

/// The size after `steps` shrink steps, or `None` if the explosion has ended
/// by then.
pub open spec fn after_shrinks(size: SpriteSize, steps: nat) -> Option<SpriteSize>
    decreases steps,
{
    if steps == 0 {
        Some(size)
    } else {
        match after_shrinks(size, (steps - 1) as nat) {
            Some(smaller) => shrink(smaller),
            None => None,
        }
    }
}

/// Every size that an explosion shrinks to is the first one less a whole
/// number of steps, and exceeds the minimum on both axes: no size is ever
/// negative.
pub proof fn lemma_shrunk_sizes_stay_positive(size: SpriteSize, steps: nat)
    requires
        steps > 0,
        after_shrinks(size, steps) is Some,
    ensures
        after_shrinks(size, steps)->0.w == size.w - steps * SHRINK_STEP,
        after_shrinks(size, steps)->0.h == size.h - steps * SHRINK_STEP,
        after_shrinks(size, steps)->0.w > MIN_EXPLOSION_SIZE,
        after_shrinks(size, steps)->0.h > MIN_EXPLOSION_SIZE,
    decreases steps,
{
    reveal_with_fuel(after_shrinks, 2);
    assert(steps * SHRINK_STEP == (steps - 1) * SHRINK_STEP + SHRINK_STEP) by (nonlinear_arith);
    if steps > 1 {
        lemma_shrunk_sizes_stay_positive(size, (steps - 1) as nat);
    }
}

/// An explosion ends: once the steps taken have brought either side down to
/// the minimum, no explosion is left.
pub proof fn lemma_explosion_terminates(size: SpriteSize, steps: nat)
    requires
        steps > 0,
        size.w - steps * SHRINK_STEP <= MIN_EXPLOSION_SIZE || size.h - steps * SHRINK_STEP
            <= MIN_EXPLOSION_SIZE,
    ensures
        after_shrinks(size, steps) is None,
{
    if after_shrinks(size, steps) is Some {
        lemma_shrunk_sizes_stay_positive(size, steps);
    }
}

impl Default for ExplosionTimer {
    fn default() -> (timer: Self)
        ensures
            timer.elapsed == 0,
    {
        ExplosionTimer { elapsed: 0 }
    }
}

impl ExplosionTimer {
    /// Whether the timer fires in a tick of `dt`.
    pub open spec fn fires(self, dt: u32) -> bool {
        self.elapsed + dt >= EXPLOSION_PERIOD
    }

    /// The time the timer holds after a tick of `dt`: what is left over once
    /// the whole periods are taken out.
    pub open spec fn carried(self, dt: u32) -> int {
        (self.elapsed + dt) % (EXPLOSION_PERIOD as int)
    }

    /// Advances the timer by `dt` and tells whether it fired. A timer that
    /// fires keeps the time that went beyond its last period.
    pub fn tick(&mut self, dt: u32) -> (finished: bool)
        ensures
            finished == old(self).fires(dt),
            final(self).elapsed == old(self).carried(dt),
            final(self).elapsed < EXPLOSION_PERIOD,
    {
        let total: u128 = self.elapsed as u128 + dt as u128;
        self.elapsed = (total % 50_000) as u64;
        total >= 50_000
    }
}

impl ExplosionStep {
    /// The explosion that is live after the step, if there is one.
    pub open spec fn survivor(self) -> Option<ExplosionState> {
        match self {
            ExplosionStep::Waiting(state) => Some(state),
            ExplosionStep::Shrunk(state) => Some(state),
            ExplosionStep::Terminated => None,
        }
    }
}

impl ExplosionState {
    /// The invariant of a live explosion: both of its sides are positive.
    pub open spec fn wf(self) -> bool {
        self.size.w > 0 && self.size.h > 0
    }

    /// What a tick of `dt` makes of the explosion.
    pub open spec fn after_tick(self, dt: u32) -> ExplosionStep {
        if self.timer.fires(dt) {
            match shrink(self.size) {
                Some(size) => ExplosionStep::Shrunk(
                    ExplosionState { size, timer: ExplosionTimer { elapsed: 0 } },
                ),
                None => ExplosionStep::Terminated,
            }
        } else {
            ExplosionStep::Waiting(
                ExplosionState {
                    size: self.size,
                    timer: ExplosionTimer { elapsed: self.timer.carried(dt) as u64 },
                },
            )
        }
    }

    /// A fresh explosion of the given size, if both of its sides are positive.
    pub fn new(size: SpriteSize) -> (state: Option<Self>)
        ensures
            state is Some <==> size.w > 0 && size.h > 0,
            state matches Some(fresh) ==> fresh.size == size && fresh.timer.elapsed == 0
                && fresh.wf(),
    {
        if size.w > 0 && size.h > 0 {
            Some(ExplosionState { size, timer: ExplosionTimer::default() })
        } else {
            None
        }
    }

    /// The explosion that a resolved hit starts.
    pub fn at_impact() -> (state: Self)
        ensures
            state.size == (SpriteSize { w: EXPLOSION_WIDTH, h: EXPLOSION_HEIGHT }),
            state.timer.elapsed == 0,
            state.wf(),
    {
        ExplosionState {
            size: SpriteSize { w: EXPLOSION_WIDTH, h: EXPLOSION_HEIGHT },
            timer: ExplosionTimer::default(),
        }
    }

    /// One shrink step: the smaller explosion that replaces this one, or
    /// `None` if this one ends.
    pub fn shrunk(&self) -> (next: Option<ExplosionState>)
        ensures
            match next {
                Some(state) => shrink(self.size) == Some(state.size) && state.timer.elapsed == 0
                    && state.wf(),
                None => shrink(self.size) is None,
            },
    {
        if self.size.w > SHRINK_STEP + MIN_EXPLOSION_SIZE && self.size.h > SHRINK_STEP
            + MIN_EXPLOSION_SIZE {
            Some(
                ExplosionState {
                    size: SpriteSize {
                        w: self.size.w - SHRINK_STEP,
                        h: self.size.h - SHRINK_STEP,
                    },
                    timer: ExplosionTimer::default(),
                },
            )
        } else {
            None
        }
    }

    /// Advances the explosion by a tick of `dt`. If its timer fires, the
    /// explosion takes exactly one shrink step, however long the tick.
    pub fn tick(&self, dt: u32) -> (step: ExplosionStep)
        ensures
            step == self.after_tick(dt),
            self.wf() ==> (step.survivor() matches Some(state) ==> state.wf()),
    {
        let mut timer = self.timer;
        if timer.tick(dt) {
            match self.shrunk() {
                Some(state) => ExplosionStep::Shrunk(state),
                None => ExplosionStep::Terminated,
            }
        } else {
            ExplosionStep::Waiting(ExplosionState { size: self.size, timer })
        }
    }
}

} // verus!
