//! Conway's Game of Life on a fixed-size toroidal grid.
//!
//! A [`Game`] owns a rectangular grid of [`Cell`]s stored in one flat,
//! row-major buffer, together with a same-shape scratch buffer. Each call to
//! `tick` computes the next generation into the scratch buffer from the
//! entire prior generation and then publishes it in one step, so a reader
//! never observes a mix of old and new cells.

pub mod cell;
pub mod game;
pub mod laws;
mod rng;

pub use cell::Cell;
pub use game::Cells;
pub use game::Game;
