//! Conway's Game of Life on a finite, non-wrapping grid.
//!
//! The grid is a sequence of rows of boolean cell states, loaded from a
//! textual pattern (`-` for a dead cell, anything else for a live one).
//! The transition engine computes each generation from a frozen snapshot
//! of the previous one, so edge cells simply have fewer live neighbors
//! and nothing wraps around.

pub mod engine;
pub mod grid;
