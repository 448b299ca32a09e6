//! A verified core for Conway's Game of Life on a bounded rectangular grid.
//!
//! `grid` holds the board, the Moore-neighborhood enumeration, and the
//! two-phase generation step; `driver` holds the decision rule of the
//! animation loop. Terminal rendering and input polling live outside the
//! library, behind the small interface that `driver` describes.

pub mod driver;
pub mod grid;
