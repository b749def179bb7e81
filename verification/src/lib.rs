//! A verified engine for a turn-based snake game on a fixed 6x6 grid.
//!
//! The engine keeps the snake as an ordered sequence of distinct grid
//! coordinates, places food on a free cell, validates each requested
//! heading, and serializes the whole state to a compact comma-separated
//! text form for crash recovery.

pub mod board;
pub mod codec;
pub mod direction;
pub mod game;
pub mod random;
pub mod render;
pub mod text;

use vstd::prelude::*;

verus! {

/// Side length of the square playing field.
pub const SIZE: usize = 6;

} // verus!
