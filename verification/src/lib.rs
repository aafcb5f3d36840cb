//! A 2048-style sliding-tile board engine.
//!
//! The engine holds a square grid of tile values (0 means empty) plus an
//! accumulated score, and decides, for each of the four directions, whether
//! a slide/merge in that direction would change the board. Applying moves,
//! spawning tiles and any game loop are outside its scope.

pub mod board;
pub mod moves;
