//! Conway's Game of Life on a fixed-size grid, over interchangeable cell stores.
//!
//! A grid is a store of cells paired with its dimensions. Three stores are offered: one `bool`
//! per cell, and two that pack one cell per bit. A [`Game`] steps a pair of grids from one
//! generation to the next. Every store meets the one contract of [`GameGrid`], which is stated
//! over a [`Board`]: the dimensions and the liveness of each cell, row after row.

pub mod bit_vec_grid;
pub mod bitvec_grid;
pub mod board;
pub mod dense;
pub mod game;
pub mod grid;
pub mod iter;

pub use bitvec_grid::{PackedBits, PackedBitsIter};
pub use board::{Board, Pair};
pub use dense::SliceBits;
pub use game::Game;
pub use grid::{CellIter, GameGrid, Grid};
pub use iter::{BitSource, GridIter};
