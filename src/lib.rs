//! Conway's Game of Life on a toroidal grid, with double-buffered generations.

pub mod cell;
pub mod laws;
pub mod rules;
pub mod state;
pub mod torus;
