//! A nonogram grid: integer grid geometry, the target pattern, the cell
//! index and the resolution of pointer presses to grid cells.
pub mod solution;
pub mod geometry;
pub mod cell_index;
pub mod board;
pub mod menu;
