//! Conway's Game of Life on a bounded grid with hard edges: the board, the
//! neighbour count, the transition rule, and the run/pause controller with
//! its coalesced change notifications.
use vstd::prelude::*;

pub mod board;
pub mod game;
pub mod grid;
pub mod neighbors;
pub mod rules;

verus! {

} // verus!
