//! Simulation core of a hex-arena chain-reaction game.
//!
//! Objects (the player, bullets, enemies, towers) occupy cells of a bounded
//! hexagonal grid.  A spatial index keeps a consistent mapping from cells to
//! the objects inside them; trigger effects propagate from tower to tower
//! through that index, guarded against cycles by a per-branch history; and
//! explosions drive a decaying radial force field that pushes receivers
//! around.  Everything here is deterministic integer logic with contracts;
//! rendering, input and scheduling live outside, in the host that drives the
//! per-tick functions of this crate.

use vstd::prelude::*;

pub mod building;
pub mod bullet;
pub mod explosion;
pub mod force;
pub mod health;
pub mod hex;
pub mod propagate;
pub mod scalar;
pub mod score;
pub mod spatial;
pub mod timer;
pub mod tower;

verus! {

/// Which side an object fights for.  An explosion never damages its own team.
#[derive(Clone, Copy, Debug, PartialEq, Eq, Structural)]
pub enum Team {
    Player,
    Enemy,
}

} // verus!
