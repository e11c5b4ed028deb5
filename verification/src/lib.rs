//! Combat resolution for a small real-time arena game.
//!
//! An actor fires projectiles no faster than its cooldown allows, a projectile
//! never touches the actor that fired it, and a projectile that strikes
//! something deals its damage and is removed once. The crate holds these rules
//! as functions on plain values: entities are `u64` identifiers and time is
//! counted in whole nanoseconds.

pub mod cooldown;
pub mod collision;
pub mod damage;
pub mod spawner;
pub mod physics;
pub mod gameplay;
