//! The walk over a grid: a cursor that keeps step with what the store hands out.

use vstd::prelude::*;
use crate::board::{coord_at, Board, Pair};
use crate::grid::CellIter;

verus! {

/// What a store hands out when it is walked: the liveness of its cells, one at a time.
pub trait BitSource {
    /// The values not yet handed out, the next one first.
    spec fn pending(&self) -> Seq<bool>;

    /// Hands out the next value, or nothing once all are out.
    fn next_bit(&mut self) -> (bit: Option<bool>)
        ensures
            old(self).pending().len() > 0 ==> bit == Some(old(self).pending()[0])
                && final(self).pending() == old(self).pending().skip(1),
            old(self).pending().len() == 0 ==> bit.is_none() && final(self).pending()
                == old(self).pending(),
    ;
}

/// Pairs each value that a store hands out with the coordinate it belongs to. The cursor
/// starts at the first cell and moves along the row, then to the start of the next row.
pub struct GridIter<I> {
    inner: I,
    position: Pair,
    dimensions: Pair,
}

impl<I: BitSource> GridIter<I> {
    /// The row-major offset of the cursor.
    spec fn done(&self) -> int {
        self.position.0 * self.dimensions.1 + self.position.1
    }

    /// A walk from the first cell of a grid of the given dimensions, over a source that has
    /// all of its cells yet to give.
    pub fn start(inner: I, dimensions: Pair) -> (cells: Self)
        requires
            inner.pending().len() == dimensions.0 * dimensions.1,
            dimensions.0 * dimensions.1 <= usize::MAX,
        ensures
            cells.wf(),
            cells.remaining() == (Board { dims: dimensions, cells: inner.pending() }).row_major(),
    {
        let cells = GridIter { inner, position: (0, 0), dimensions };
        assert(cells.remaining() =~= (Board {
            dims: dimensions,
            cells: inner.pending(),
        }).row_major());
        cells
    }
}

impl<I: BitSource> CellIter for GridIter<I> {
    closed spec fn remaining(&self) -> Seq<(Pair, bool)> {
        Seq::new(
            self.inner.pending().len(),
            |i: int| (coord_at(self.dimensions, self.done() + i), self.inner.pending()[i]),
        )
    }

    closed spec fn wf(&self) -> bool {
        &&& self.dimensions.0 * self.dimensions.1 <= usize::MAX
        &&& self.done() + self.inner.pending().len() == self.dimensions.0 * self.dimensions.1
        &&& self.dimensions.1 > 0 ==> self.position.1 < self.dimensions.1
    }

    #[inline]
    fn next(&mut self) -> (item: Option<(Pair, bool)>) {
        if let Some(next) = self.inner.next_bit() {
            let current = self.position;
            proof {
                lemma_cursor(current, self.dimensions, old(self).inner.pending().len() as int);
            }
            self.position.1 += 1;
            if self.position.1 >= self.dimensions.1 {
                self.position.0 += 1;
                self.position.1 = 0;
            }
            assert(self.remaining() =~= old(self).remaining().skip(1));
            Some((current, next))
        } else {
            None
        }
    }
}

/// A cursor with cells yet to come stands on the board, at the coordinate of its offset.
proof fn lemma_cursor(position: Pair, dimensions: Pair, pending: int)
    requires
        pending > 0,
        position.0 * dimensions.1 + position.1 + pending == dimensions.0 * dimensions.1,
        dimensions.1 > 0 ==> position.1 < dimensions.1,
    ensures
        position.0 < dimensions.0,
        position.1 < dimensions.1,
        coord_at(dimensions, position.0 * dimensions.1 + position.1) == position,
        (position.0 + 1) * dimensions.1 == position.0 * dimensions.1 + dimensions.1,
{
    let (rows, cols) = (dimensions.0 as int, dimensions.1 as int);
    let (r, c) = (position.0 as int, position.1 as int);
    assert(cols > 0 && r < rows) by (nonlinear_arith)
        requires
            pending > 0,
            r * cols + c + pending == rows * cols,
            0 <= r,
            0 <= c,
            0 <= rows,
            0 <= cols,
    ;
    vstd::arithmetic::div_mod::lemma_fundamental_div_mod_converse(r * cols + c, cols, r, c);
    assert((r + 1) * cols == r * cols + cols) by (nonlinear_arith);
}

} // verus!
