//! Conway's Game of Life on a torus.
//!
//! A [`Universe`] is a fixed-size grid of [`Cell`]s whose edges wrap around.
//! [`Universe::tick`] advances it by one generation under the standard rule:
//! a dead cell with exactly three live neighbors is born, a live cell with two
//! or three live neighbors survives, and every other cell is dead in the next
//! generation.
//!
//! Contracts are stated over [`Grid`], the mathematical model of a universe.

pub mod cell;
pub mod decode;
pub mod grid;
pub mod laws;
pub mod universe;

pub use crate::cell::Cell;
pub use crate::grid::Grid;
pub use crate::universe::Universe;
