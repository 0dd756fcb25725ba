//! The contract that every cell store meets, and what all stores share: offsets and the count
//! of live cells around a cell.

use vstd::prelude::*;
use crate::board::{lemma_near_steps, near, tally, Board, Pair};

verus! {

/// A store of cells paired with its dimensions.
pub type Grid<Backing> = (Backing, Pair);

/// What a walk over a grid hands out: each cell's coordinate and liveness, in row-major order.
pub trait CellIter {
    /// The items not yet handed out, the next one first.
    spec fn remaining(&self) -> Seq<(Pair, bool)>;

    /// The cursor agrees with what the store has yet to give.
    spec fn wf(&self) -> bool;

    /// Hands out the next item, or nothing once every cell has been seen.
    fn next(&mut self) -> (item: Option<(Pair, bool)>)
        requires
            old(self).wf(),
        ensures
            final(self).wf(),
            old(self).remaining().len() > 0 ==> item == Some(old(self).remaining()[0])
                && final(self).remaining() == old(self).remaining().skip(1),
            old(self).remaining().len() == 0 ==> item.is_none() && final(self).remaining()
                == old(self).remaining(),
    ;
}

/// A grid of cells, each dead or alive, of dimensions fixed when it is made.
pub trait GameGrid: Sized {
    /// The walk that `iter` starts.
    type Iter<'a>: CellIter where Self: 'a;

    /// What the grid holds.
    spec fn board(&self) -> Board;

    /// The most cells that this kind of store can hold.
    spec fn max_cells() -> nat;

    /// A grid of the given dimensions with every cell dead.
    fn new(dimensions: Pair) -> (grid: Self)
        requires
            Board::blank(dimensions).fits(Self::max_cells()),
        ensures
            grid.board().fits(Self::max_cells()),
            grid.board() == Board::blank(dimensions),
    ;

    /// The number of rows and of columns.
    fn dimensions(&self) -> (dimensions: Pair)
        ensures
            dimensions == self.board().dims,
    ;

    /// The liveness of `cell`, or nothing if it lies off the grid.
    fn get(&self, cell: Pair) -> (alive: Option<bool>)
        requires
            self.board().fits(Self::max_cells()),
        ensures
            alive == self.board().get(cell),
    ;

    /// Makes `cell`, which lies on the grid, dead or alive.
    fn set(&mut self, cell: Pair, alive: bool)
        requires
            old(self).board().fits(Self::max_cells()),
            old(self).board().contains(cell),
        ensures
            final(self).board().fits(Self::max_cells()),
            final(self).board() == old(self).board().set(cell, alive),
    ;

    /// A walk over every cell in row-major order, from the first cell.
    fn iter(&self) -> (cells: Self::Iter<'_>)
        requires
            self.board().fits(Self::max_cells()),
        ensures
            cells.wf(),
            cells.remaining() == self.board().row_major(),
    ;

    /// The row-major offset of `cell`, or nothing if it lies off the grid.
    #[inline]
    fn index(&self, cell: Pair) -> (offset: Option<usize>)
        requires
            self.board().fits(Self::max_cells()),
        ensures
            match offset {
                Some(k) => self.board().contains(cell) && k == cell.0 * self.board().dims.1
                    + cell.1 && k < self.board().area(),
                None => !self.board().contains(cell),
            },
    {
        let dim = self.dimensions();
        if cell.0 < dim.0 && cell.1 < dim.1 {
            proof {
                self.board().lemma_offset_bounds(cell);
            }
            Some(cell.0 * dim.1 + cell.1)
        } else {
            None
        }
    }

    /// The number of live cells in the three-by-three block around `cell`: its live
    /// neighbours, and the cell itself if it is alive. What lies off the grid is dead.
    #[inline]
    fn neighborhood(&self, cell: Pair) -> (count: usize)
        requires
            self.board().fits(Self::max_cells()),
        ensures
            count == self.board().block_live(cell),
            count <= 9,
    {
        let mut alive: usize = 0;
        for i in 0..3usize
            invariant
                self.board().fits(Self::max_cells()),
                alive == bands_done(self.board(), cell, i as int),
        {
            for j in 0..3usize
                invariant
                    self.board().fits(Self::max_cells()),
                    i < 3,
                    alive == bands_done(self.board(), cell, i as int) + band_done(
                        self.board(),
                        near(cell.0, i as int),
                        cell,
                        j as int,
                    ),
            {
                proof {
                    lemma_near_wraps(cell.0, i);
                    lemma_near_wraps(cell.1, j);
                }
                let neighbor = (
                    cell.0.wrapping_add(i).wrapping_sub(1),
                    cell.1.wrapping_add(j).wrapping_sub(1),
                );
                alive += self.get(neighbor).unwrap_or(false) as usize;
            }
        }
        proof {
            lemma_near_steps(cell.0);
            lemma_near_steps(cell.1);
        }
        alive
    }
}

/// The live cells among the first `n` of the three that `band_live` counts in a row.
spec fn band_done(board: Board, row: usize, cell: Pair, n: int) -> nat {
    (if n >= 1 {
        tally(board.alive((row, near(cell.1, 0))))
    } else {
        0
    }) + (if n >= 2 {
        tally(board.alive((row, near(cell.1, 1))))
    } else {
        0
    }) + (if n >= 3 {
        tally(board.alive((row, near(cell.1, 2))))
    } else {
        0
    })
}

/// The live cells in the first `n` of the three rows of the block around `cell`.
spec fn bands_done(board: Board, cell: Pair, n: int) -> nat {
    (if n >= 1 {
        board.band_live(near(cell.0, 0), cell)
    } else {
        0
    }) + (if n >= 2 {
        board.band_live(near(cell.0, 1), cell)
    } else {
        0
    }) + (if n >= 3 {
        board.band_live(near(cell.0, 2), cell)
    } else {
        0
    })
}

/// `near` is what a wrapping step up by `d` and a wrapping step down by one reach.
proof fn lemma_near_wraps(x: usize, d: usize)
    requires
        d < 3,
    ensures
        near(x, d as int) == x.wrapping_add(d).wrapping_sub(1),
{
    lemma_near_steps(x);
}

} // verus!
