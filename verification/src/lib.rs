//! Simulation core of a terminal arcade game: a player ship at the bottom of a
//! grid fires at a swarm of invaders that sweeps sideways and descends.
//!
//! Every function here carries a contract over a mathematical model of the
//! game state, and the contracts are proved.

use vstd::prelude::*;

pub mod timer;
pub mod frame;
pub mod shot;
pub mod player;
pub mod invaders;
pub mod collision;
pub mod game;
pub mod words;

verus! {

/// Rows of the default grid.
pub const NUM_ROWS: usize = 20;

/// Columns of the default grid.
pub const NUM_COLS: usize = 40;

} // verus!
