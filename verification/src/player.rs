//! The player's life cycle and controls.
//!
//! The player starts dead, may appear when it is dead and has either never
//! been shot or was shot at least the cooldown ago, and dies when an enemy
//! laser hits it.

use vstd::prelude::*;
use crate::collision::{all_events, involved, resolve, Collider, Resolution};
use crate::fixed::{div_toward_zero, FIELD_LIMIT};
use crate::movement::{clamp_to_field, Velocity};

verus! {

/// How long a shot player stays away: three seconds.
pub const RESPAWN_COOLDOWN: u64 = 3_000_000;

/// The player's speed on each axis while a key is held: five pixels per tick.
pub const PLAYER_SPEED: i64 = 5_000_000;

/// How far the player's two muzzles lie left and right of its centre:
/// twenty-three pixels.
pub const MUZZLE_OFFSET: i64 = 23_000_000;

/// The height of the player's centre above the window's lower edge when it
/// appears: a quarter of its sprite's height of 75 pixels, and ten pixels more.
pub const SPAWN_HEIGHT: i64 = 28_750_000;

/// Whether the player is in play, and when it was last shot.
#[derive(Clone, Copy, Debug, PartialEq, Eq)]
pub struct PlayerState {
    pub alive: bool,
    /// The time of the last shot that killed the player, until it reappears.
    pub last_shot: Option<u64>,
}

impl Default for PlayerState {
    fn default() -> (state: Self)
        ensures
            !state.alive,
            state.last_shot is None,
    {
        PlayerState { alive: false, last_shot: None }
    }
}

impl PlayerState {
    /// The state once the player has appeared.
    pub open spec fn spawned(self) -> PlayerState {
        PlayerState { alive: true, last_shot: None }
    }

    /// The state once the player has been shot at `instant`.
    pub open spec fn shot_at(self, instant: u64) -> PlayerState {
        PlayerState { alive: false, last_shot: Some(instant) }
    }

    /// Whether the player may appear at `now`: it is not alive, and was never
    /// shot or was shot at least the cooldown ago.
    pub open spec fn spawnable(self, now: u64) -> bool {
        &&& !self.alive
        &&& match self.last_shot {
            Some(last_shot) => now >= last_shot + RESPAWN_COOLDOWN,
            None => true,
        }
    }

    /// Records that the player has appeared.
    pub fn spawn(&mut self)
        ensures
            *final(self) == old(self).spawned(),
            final(self).alive,
            final(self).last_shot is None,
    {
        self.alive = true;
        self.last_shot = None;
    }

    /// Records that the player was shot at `instant`.
    pub fn shot(&mut self, instant: u64)
        ensures
            *final(self) == old(self).shot_at(instant),
            !final(self).alive,
            final(self).last_shot == Some(instant),
    {
        self.alive = false;
        self.last_shot = Some(instant);
    }

    /// Whether the player may appear at `now`.
    pub fn can_spawn(&self, now: u64) -> (r: bool)
        ensures
            r == self.spawnable(now),
    {
        if self.alive {
            return false;
        }
        match self.last_shot {
            Some(last_shot) => now >= last_shot && now - last_shot >= RESPAWN_COOLDOWN,
            None => true,
        }
    }

    /// Lets the player appear at `now` if it may, and tells whether it did.
    pub fn try_spawn(&mut self, now: u64) -> (appeared: bool)
        ensures
            appeared == old(self).spawnable(now),
            *final(self) == if appeared {
                old(self).spawned()
            } else {
                *old(self)
            },
    {
        if self.can_spawn(now) {
            self.spawn();
            true
        } else {
            false
        }
    }

    /// Appearing twice is appearing once: a player that is alive stays alive.
    pub proof fn lemma_spawn_idempotent(self)
        ensures
            self.spawned().spawned() == self.spawned(),
            self.spawned().alive,
            self.alive && self.last_shot is None ==> self.spawned() == self,
    {
    }

    /// A player shot at `instant` may reappear exactly from the end of the
    /// cooldown on.
    pub proof fn lemma_respawn_after_cooldown(self, instant: u64, now: u64)
        ensures
            self.shot_at(instant).spawnable(now) <==> now >= instant + RESPAWN_COOLDOWN,
            !self.shot_at(instant).alive,
            self.shot_at(instant).last_shot == Some(instant),
    {
    }
}

/// Finds the hits of enemy lasers on the player for one tick, and records the
/// player as shot at `now` if there is any.
pub fn resolve_player_hits(
    lasers: &Vec<Collider>,
    players: &Vec<Collider>,
    state: &mut PlayerState,
    now: u64,
) -> (res: Resolution)
    ensures
        res.events@ == all_events(players@, lasers@),
        res.despawn@ == involved(res.events@),
        *final(state) == if res.events@.len() > 0 {
            old(state).shot_at(now)
        } else {
            *old(state)
        },
{
    let res = resolve(lasers, players);
    if res.events.len() > 0 {
        state.shot(now);
    }
    res
}

/// The velocity that the held keys ask for. Left wins over right, and up over
/// down.
pub open spec fn steering(left: bool, right: bool, up: bool, down: bool) -> Velocity {
    Velocity {
        x: if left {
            (-PLAYER_SPEED) as i64
        } else if right {
            PLAYER_SPEED
        } else {
            0
        },
        y: if up {
            PLAYER_SPEED
        } else if down {
            (-PLAYER_SPEED) as i64
        } else {
            0
        },
    }
}

/// The velocity that the held keys ask for.
pub fn steer(left: bool, right: bool, up: bool, down: bool) -> (velocity: Velocity)
    ensures
        velocity == steering(left, right, up, down),
{
    let x: i64 = if left {
        -PLAYER_SPEED
    } else if right {
        PLAYER_SPEED
    } else {
        0
    };
    let y: i64 = if up {
        PLAYER_SPEED
    } else if down {
        -PLAYER_SPEED
    } else {
        0
    };
    Velocity { x, y }
}

/// Where the player appears in a window of the given height: on the vertical
/// axis of the window, just above its lower edge.
pub fn spawn_position(window_height: i64) -> (position: (i64, i64))
    ensures
        position.0 == 0,
        position.1 == -div_toward_zero(window_height as int, 2) + SPAWN_HEIGHT,
{
    if window_height >= 0 {
        (0, -(window_height / 2) + SPAWN_HEIGHT)
    } else {
        let half: i128 = (-(window_height as i128)) / 2;
        (0, (half + SPAWN_HEIGHT as i128) as i64)
    }
}

/// Where the player's two lasers start: left and right of its centre.
pub fn muzzles(position: (i64, i64)) -> (lasers: ((i64, i64), (i64, i64)))
    ensures
        lasers.0.0 == clamp_to_field(position.0 - MUZZLE_OFFSET),
        lasers.1.0 == clamp_to_field(position.0 + MUZZLE_OFFSET),
        lasers.0.1 == position.1,
        lasers.1.1 == position.1,
{
    let left: i64 = if position.0 < -FIELD_LIMIT + MUZZLE_OFFSET {
        -FIELD_LIMIT
    } else if position.0 > FIELD_LIMIT + MUZZLE_OFFSET {
        FIELD_LIMIT
    } else {
        position.0 - MUZZLE_OFFSET
    };
    let right: i64 = if position.0 < -FIELD_LIMIT - MUZZLE_OFFSET {
        -FIELD_LIMIT
    } else if position.0 > FIELD_LIMIT - MUZZLE_OFFSET {
        FIELD_LIMIT
    } else {
        position.0 + MUZZLE_OFFSET
    };
    ((left, position.1), (right, position.1))
}

} // verus!
