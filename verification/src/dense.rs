//! The store with one `bool` for each cell.

use vstd::prelude::*;
use crate::board::{Board, Pair};
use crate::grid::{GameGrid, Grid};
use crate::iter::{BitSource, GridIter};

verus! {

/// A walk over a slice of cells, from its first to its last.
pub struct SliceBits<'a> {
    cells: &'a [bool],
    at: usize,
}

impl<'a> SliceBits<'a> {
    /// A walk that has all of `cells` yet to give.
    pub fn new(cells: &'a [bool]) -> (bits: Self)
        ensures
            bits.pending() == cells@,
    {
        SliceBits { cells, at: 0 }
    }
}

impl<'a> BitSource for SliceBits<'a> {
    closed spec fn pending(&self) -> Seq<bool> {
        if self.at <= self.cells@.len() {
            self.cells@.skip(self.at as int)
        } else {
            Seq::empty()
        }
    }

    fn next_bit(&mut self) -> (bit: Option<bool>) {
        if self.at < self.cells.len() {
            let bit = self.cells[self.at];
            self.at += 1;
            assert(self.pending() =~= old(self).pending().skip(1));
            Some(bit)
        } else {
            None
        }
    }
}

impl GameGrid for Grid<Vec<bool>> {
    type Iter<'a> = GridIter<SliceBits<'a>>;

    open spec fn board(&self) -> Board {
        Board { dims: self.1, cells: self.0@ }
    }

    /// A vector spans no more than `isize::MAX` bytes, and a `bool` takes one.
    open spec fn max_cells() -> nat {
        isize::MAX as nat
    }

    fn new(dimensions: Pair) -> (grid: Self) {
        let grid = (vec![false; dimensions.0 * dimensions.1], dimensions);
        assert(grid.0@ =~= Board::blank(dimensions).cells);
        grid
    }

    #[inline]
    fn dimensions(&self) -> (dimensions: Pair) {
        self.1
    }

    #[inline]
    fn get(&self, cell: Pair) -> (alive: Option<bool>) {
        let index = self.index(cell)?;
        Some(self.0[index])
    }

    #[inline]
    fn set(&mut self, cell: Pair, alive: bool) {
        let index = self.index(cell).unwrap();
        self.0[index] = alive;
    }

    fn iter(&self) -> (cells: Self::Iter<'_>) {
        GridIter::start(SliceBits::new(self.0.as_slice()), self.1)
    }
}

} // verus!
