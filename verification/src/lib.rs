//! Deterministic simulation core of a small arcade shooter: enemy formation
//! paths, projectile collisions, explosions and the player's respawn policy.
//!
//! Every real quantity is a fixed-point integer in millionths: a length of
//! one pixel, a time of one second and an angle of one radian are all
//! [`fixed::ONE`]. The length of a tick is a `u32` and a point in time a `u64`,
//! both in millionths of a second. Entities are plain `u64` identifiers handed
//! in by the host.
//!
//! The host drives the simulation: once per tick it moves the enemies along
//! their formations ([`formation`]), lets everything else drift
//! ([`movement`]), resolves the hits ([`collision`], [`player`]), applies what
//! the resolver returned, and advances the explosions ([`explosion`]). New
//! enemies get their formations from a seeded maker ([`maker`]).

pub mod fixed;
pub mod trig;
pub mod formation;
pub mod collision;
pub mod explosion;
pub mod movement;
pub mod player;
pub mod maker;
