//! The mathematical model of a grid, the rule that takes one generation to the next, and what
//! holds of both.

use vstd::prelude::*;
use vstd::arithmetic::div_mod::{
    lemma_div_is_ordered,
    lemma_fundamental_div_mod,
    lemma_fundamental_div_mod_converse,
    lemma_mod_pos_bound,
};

verus! {

/// A coordinate `(row, column)`. Read as `(rows, columns)` it gives the dimensions of a grid.
pub type Pair = (usize, usize);

/// What a grid holds, whatever stores it: its dimensions and the liveness of its cells, row
/// after row.
pub struct Board {
    pub dims: Pair,
    pub cells: Seq<bool>,
}

/// One for a live cell, nothing for a dead one.
pub open spec fn tally(alive: bool) -> nat {
    if alive {
        1
    } else {
        0
    }
}

/// The coordinate `d - 1` steps from `x` in the wrapping arithmetic of `usize`: one step down
/// from 0 is `usize::MAX`, and one step up from `usize::MAX` is 0.
pub open spec fn near(x: usize, d: int) -> usize {
    ((x + d - 1) % (usize::MAX + 1)) as usize
}

/// The coordinate that stands at place `k`, in row-major order, of a grid of the given
/// dimensions.
pub open spec fn coord_at(dims: Pair, k: int) -> Pair {
    ((k / (dims.1 as int)) as usize, (k % (dims.1 as int)) as usize)
}

/// Whether `a` comes before `b` when cells are read row after row.
pub open spec fn before(a: Pair, b: Pair) -> bool {
    a.0 < b.0 || (a.0 == b.0 && a.1 < b.1)
}

/// Picks the items of a walk that hold a live cell.
pub open spec fn is_live() -> spec_fn((Pair, bool)) -> bool {
    |item: (Pair, bool)| item.1
}

/// The coordinate of an item of a walk.
pub open spec fn cell_of() -> spec_fn((Pair, bool)) -> Pair {
    |item: (Pair, bool)| item.0
}

/// Conway's rule: a dead cell with exactly three live neighbours is born, a live cell with two
/// or three survives, and every other cell is dead in the next generation.
pub open spec fn conway(neighbors: nat, alive: bool) -> bool {
    neighbors == 3 || (alive && neighbors == 2)
}

/// The rule as the game applies it, over the number of live cells in the block around a cell,
/// the cell itself counted in: three in the block bring life, four leave the cell as it is,
/// any other number brings death.
pub open spec fn next_state(block: nat, alive: bool) -> bool {
    block == 3 || (block == 4 && alive)
}

impl Board {
    /// The number of cells.
    pub open spec fn area(self) -> int {
        self.dims.0 * self.dims.1
    }

    /// There is one cell for each coordinate, and every offset fits in a `usize`.
    pub open spec fn wf(self) -> bool {
        &&& self.cells.len() == self.area()
        &&& self.area() <= usize::MAX
    }

    /// The board is well formed and has no more than `limit` cells.
    pub open spec fn fits(self, limit: nat) -> bool {
        &&& self.wf()
        &&& self.area() <= limit
    }

    /// The board of the given dimensions on which every cell is dead.
    pub open spec fn blank(dims: Pair) -> Board {
        Board { dims, cells: Seq::new((dims.0 * dims.1) as nat, |k: int| false) }
    }

    /// Whether `cell` lies on the board.
    pub open spec fn contains(self, cell: Pair) -> bool {
        cell.0 < self.dims.0 && cell.1 < self.dims.1
    }

    /// The place of `cell` in row-major order.
    pub open spec fn offset(self, cell: Pair) -> int {
        cell.0 * self.dims.1 + cell.1
    }

    /// The coordinate that stands at place `k` in row-major order.
    pub open spec fn coord(self, k: int) -> Pair {
        coord_at(self.dims, k)
    }

    /// The liveness of a cell on the board; nothing for a cell off it.
    pub open spec fn get(self, cell: Pair) -> Option<bool> {
        if self.contains(cell) {
            Some(self.cells[self.offset(cell)])
        } else {
            None
        }
    }

    /// Whether `cell` is on the board and alive. A cell off the board counts as dead.
    pub open spec fn alive(self, cell: Pair) -> bool {
        self.get(cell) == Some(true)
    }

    /// The board with `cell` set to `alive` and every other cell as it was.
    pub open spec fn set(self, cell: Pair, alive: bool) -> Board {
        Board { dims: self.dims, cells: self.cells.update(self.offset(cell), alive) }
    }

    /// Every cell with its coordinate: row 0 from its first column to its last, then row 1, and
    /// so on.
    pub open spec fn row_major(self) -> Seq<(Pair, bool)> {
        Seq::new(self.cells.len(), |k: int| (self.coord(k), self.cells[k]))
    }

    /// The coordinates that a walk in row-major order hands out when only the live cells are
    /// kept.
    pub open spec fn live_cells(self) -> Seq<Pair> {
        self.row_major().filter(is_live()).map_values(cell_of())
    }

    /// The live cells among the three of row `row` that stand at and beside column `cell.1`.
    pub open spec fn band_live(self, row: usize, cell: Pair) -> nat {
        tally(self.alive((row, near(cell.1, 0)))) + tally(self.alive((row, near(cell.1, 1))))
            + tally(self.alive((row, near(cell.1, 2))))
    }

    /// The live cells among the eight neighbours of `cell`: the three in the row above, the
    /// one on each side, and the three in the row below. Coordinates beside `cell` are taken
    /// in wrapping arithmetic and then held against the bounds, so what lies off the board is
    /// dead: the edges do not join.
    pub open spec fn live_neighbors(self, cell: Pair) -> nat {
        self.band_live(near(cell.0, 0), cell) + tally(self.alive((cell.0, near(cell.1, 0))))
            + tally(self.alive((cell.0, near(cell.1, 2)))) + self.band_live(
            near(cell.0, 2),
            cell,
        )
    }

    /// The live cells in the three-by-three block around `cell`: its live neighbours, and the
    /// cell itself if it is alive.
    pub open spec fn block_live(self, cell: Pair) -> nat {
        self.live_neighbors(cell) + tally(self.alive(cell))
    }

    /// Whether a live cell stands at `row` and `col`, which may lie anywhere off the board.
    pub open spec fn lit(self, row: int, col: int) -> bool {
        &&& 0 <= row < self.dims.0
        &&& 0 <= col < self.dims.1
        &&& self.cells[row * self.dims.1 + col]
    }

    /// The next generation: each cell is what Conway's rule makes of its eight neighbours and
    /// its own state.
    pub open spec fn step(self) -> Board {
        Board {
            dims: self.dims,
            cells: Seq::new(
                self.cells.len(),
                |k: int| conway(self.live_neighbors(self.coord(k)), self.cells[k]),
            ),
        }
    }

    /// The generation `n` steps on.
    pub open spec fn steps(self, n: nat) -> Board
        decreases n,
    {
        if n == 0 {
            self
        } else {
            self.steps((n - 1) as nat).step()
        }
    }

    /// A cell on the board has its offset among the places of the board, and the rows before
    /// it fill the places below that offset.
    pub proof fn lemma_offset_bounds(self, cell: Pair)
        requires
            self.wf(),
            self.contains(cell),
        ensures
            0 <= cell.0 * self.dims.1 <= self.offset(cell) < self.area(),
    {
        let (rows, cols) = (self.dims.0 as int, self.dims.1 as int);
        let r = cell.0 as int;
        assert(0 <= r * cols && r * cols + cols <= rows * cols) by (nonlinear_arith)
            requires
                0 <= r < rows,
                0 <= cols,
        ;
    }

    /// Each place of the board holds a cell of the board, whose offset is that place.
    pub proof fn lemma_coord(self, k: int)
        requires
            self.wf(),
            0 <= k < self.area(),
        ensures
            self.contains(self.coord(k)),
            self.offset(self.coord(k)) == k,
            self.get(self.coord(k)) == Some(self.cells[k]),
    {
        let (rows, cols) = (self.dims.0 as int, self.dims.1 as int);
        assert(cols > 0) by (nonlinear_arith)
            requires
                0 <= k < rows * cols,
                0 <= cols,
        ;
        lemma_fundamental_div_mod(k, cols);
        lemma_mod_pos_bound(k, cols);
        assert(k / cols < rows) by (nonlinear_arith)
            requires
                k == cols * (k / cols) + k % cols,
                0 <= k % cols,
                k < rows * cols,
                cols > 0,
        ;
        assert(cols * (k / cols) == (k / cols) * cols) by (nonlinear_arith);
    }

    /// The offset of a cell on the board leads back to that cell.
    pub proof fn lemma_offset_coord(self, cell: Pair)
        requires
            self.contains(cell),
        ensures
            self.coord(self.offset(cell)) == cell,
    {
        lemma_fundamental_div_mod_converse(
            self.offset(cell),
            self.dims.1 as int,
            cell.0 as int,
            cell.1 as int,
        );
    }

    /// A cell that has been set reads back as it was set, and every other cell of the board
    /// reads as before.
    pub proof fn lemma_get_after_set(self, cell: Pair, alive: bool, other: Pair)
        requires
            self.wf(),
            self.contains(cell),
        ensures
            self.set(cell, alive).wf(),
            self.set(cell, alive).get(cell) == Some(alive),
            other != cell ==> self.set(cell, alive).get(other) == self.get(other),
    {
        self.lemma_offset_bounds(cell);
        if self.contains(other) && other != cell {
            self.lemma_offset_bounds(other);
            self.lemma_offset_coord(cell);
            self.lemma_offset_coord(other);
        }
    }

    /// On a blank board every cell of the board reads as dead.
    pub proof fn lemma_blank_is_dead(dims: Pair, cell: Pair)
        requires
            Board::blank(dims).wf(),
        ensures
            Board::blank(dims).get(cell) == (if Board::blank(dims).contains(cell) {
                Some(false)
            } else {
                None
            }),
    {
        if Board::blank(dims).contains(cell) {
            Board::blank(dims).lemma_offset_bounds(cell);
        }
    }

    /// Row-major order hands out each cell of the board once, with its own liveness, and every
    /// cell after those that come before it: rows in rising order, and the columns of a row in
    /// rising order.
    pub proof fn lemma_row_major_order(self, i: int, j: int)
        requires
            self.wf(),
            0 <= i < j < self.area(),
        ensures
            self.row_major().len() == self.area(),
            self.get(self.row_major()[i].0) == Some(self.row_major()[i].1),
            self.get(self.row_major()[j].0) == Some(self.row_major()[j].1),
            before(self.row_major()[i].0, self.row_major()[j].0),
    {
        let cols = self.dims.1 as int;
        self.lemma_coord(i);
        self.lemma_coord(j);
        lemma_div_is_ordered(i, j, cols);
        lemma_fundamental_div_mod(i, cols);
        lemma_fundamental_div_mod(j, cols);
    }

    /// Of two cells of the board, the one with the smaller offset comes first.
    pub proof fn lemma_offset_order(self, a: Pair, b: Pair)
        requires
            self.wf(),
            self.contains(a),
            self.contains(b),
            self.offset(a) < self.offset(b),
        ensures
            before(a, b),
    {
        self.lemma_offset_bounds(a);
        self.lemma_offset_bounds(b);
        self.lemma_offset_coord(a);
        self.lemma_offset_coord(b);
        self.lemma_row_major_order(self.offset(a), self.offset(b));
    }

    /// What a walk keeps of its first `n` items when it keeps the live cells: live cells of
    /// the board below place `n`, each after those before it, and none of them left out.
    proof fn lemma_live_prefix(self, n: int)
        requires
            self.wf(),
            0 <= n <= self.area(),
        ensures
            forall|i: int|
                0 <= i < self.row_major().take(n).filter(is_live()).len() ==> {
                    let item = #[trigger] self.row_major().take(n).filter(is_live())[i];
                    &&& item.1
                    &&& self.contains(item.0)
                    &&& self.offset(item.0) < n
                    &&& self.alive(item.0)
                },
            forall|i: int, j: int|
                0 <= i < j < self.row_major().take(n).filter(is_live()).len() ==> before(
                    (#[trigger] self.row_major().take(n).filter(is_live())[i]).0,
                    (#[trigger] self.row_major().take(n).filter(is_live())[j]).0,
                ),
            forall|k: int|
                0 <= k < n && self.cells[k] ==> self.row_major().take(n).filter(
                    is_live(),
                ).contains(#[trigger] self.row_major()[k]),
        decreases n,
    {
        reveal(Seq::filter);
        let walk = self.row_major().take(n);
        let kept = walk.filter(is_live());
        if n > 0 {
            let shorter = self.row_major().take(n - 1);
            let kept_shorter = shorter.filter(is_live());
            self.lemma_live_prefix(n - 1);
            self.lemma_coord(n - 1);
            assert(walk.drop_last() =~= shorter);
            let last = walk.last();
            assert(kept == if last.1 {
                kept_shorter.push(last)
            } else {
                kept_shorter
            });
            assert forall|i: int| 0 <= i < kept.len() implies {
                let item = #[trigger] kept[i];
                &&& item.1
                &&& self.contains(item.0)
                &&& self.offset(item.0) < n
                &&& self.alive(item.0)
            } by {
                if i < kept_shorter.len() {
                    assert(kept[i] == kept_shorter[i]);
                }
            }
            assert forall|i: int, j: int| 0 <= i < j < kept.len() implies before(
                (#[trigger] kept[i]).0,
                (#[trigger] kept[j]).0,
            ) by {
                assert(kept[i] == kept_shorter[i]);
                if j < kept_shorter.len() {
                    assert(kept[j] == kept_shorter[j]);
                } else {
                    self.lemma_offset_order(kept[i].0, kept[j].0);
                }
            }
            assert forall|k: int| 0 <= k < n && self.cells[k] implies kept.contains(
                #[trigger] self.row_major()[k],
            ) by {
                if k < n - 1 {
                    assert(kept_shorter.contains(self.row_major()[k]));
                    let at = choose|at: int|
                        0 <= at < kept_shorter.len() && kept_shorter[at] == self.row_major()[k];
                    assert(kept[at] == self.row_major()[k]);
                } else {
                    assert(kept[kept.len() - 1] == self.row_major()[k]);
                }
            }
        }
    }

    /// Keeping the live cells of a walk in row-major order gives the live cells of the board
    /// and no others, each once, in row-major order.
    pub proof fn lemma_live_cells(self, cell: Pair, i: int, j: int)
        requires
            self.wf(),
        ensures
            self.live_cells().contains(cell) <==> self.alive(cell),
            0 <= i < j < self.live_cells().len() ==> before(
                self.live_cells()[i],
                self.live_cells()[j],
            ),
    {
        let kept = self.row_major().filter(is_live());
        self.lemma_live_prefix(self.area());
        assert(self.row_major().take(self.area()) =~= self.row_major());
        if self.alive(cell) {
            self.lemma_offset_bounds(cell);
            self.lemma_offset_coord(cell);
            let k = self.offset(cell);
            assert(self.row_major()[k] == (cell, true));
            assert(kept.contains(self.row_major()[k]));
            let at = choose|at: int| 0 <= at < kept.len() && kept[at] == self.row_major()[k];
            assert(self.live_cells()[at] == cell);
        }
        if self.live_cells().contains(cell) {
            let at = choose|at: int|
                0 <= at < self.live_cells().len() && self.live_cells()[at] == cell;
            assert(kept[at].0 == cell);
        }
        if 0 <= i < j < self.live_cells().len() {
            assert(self.live_cells()[i] == kept[i].0);
            assert(self.live_cells()[j] == kept[j].0);
        }
    }

    /// The neighbours of a cell are read without joining the edges of the board: for a cell
    /// whose coordinates are below `usize::MAX`, and so for every cell of the board, they are
    /// the live cells at the eight places one step away, of which those off the board count
    /// as dead.
    pub proof fn lemma_block_is_clamped(self, cell: Pair)
        requires
            self.wf(),
            cell.0 < usize::MAX,
            cell.1 < usize::MAX,
        ensures
            self.live_neighbors(cell) == tally(self.lit(cell.0 - 1, cell.1 - 1)) + tally(
                self.lit(cell.0 - 1, cell.1 as int),
            ) + tally(self.lit(cell.0 - 1, cell.1 + 1)) + tally(
                self.lit(cell.0 as int, cell.1 - 1),
            ) + tally(self.lit(cell.0 as int, cell.1 + 1)) + tally(
                self.lit(cell.0 + 1, cell.1 - 1),
            ) + tally(self.lit(cell.0 + 1, cell.1 as int)) + tally(
                self.lit(cell.0 + 1, cell.1 + 1),
            ),
            self.block_live(cell) == self.live_neighbors(cell) + tally(
                self.lit(cell.0 as int, cell.1 as int),
            ),
            self.live_neighbors(cell) <= 8,
    {
        lemma_near_steps(cell.0);
        lemma_near_steps(cell.1);
    }

    /// The next generation has the dimensions of this one, and each of its cells is what the
    /// rule of the game makes of the block around that cell, the cell itself counted in.
    pub proof fn lemma_step_by_block(self, k: int)
        requires
            self.wf(),
            0 <= k < self.area(),
        ensures
            self.step().wf(),
            self.step().dims == self.dims,
            self.step().cells[k] == next_state(self.block_live(self.coord(k)), self.cells[k]),
    {
        self.lemma_coord(k);
        lemma_rule_is_conway(self.live_neighbors(self.coord(k)), self.cells[k]);
    }
}

/// With the cell counted in its own block, the rule of the game is Conway's: for every number
/// of live neighbours and either state of the cell, `next_state` makes of the block what
/// `conway` makes of the neighbours.
pub proof fn lemma_rule_is_conway(neighbors: nat, alive: bool)
    ensures
        next_state(neighbors + tally(alive), alive) == conway(neighbors, alive),
{
}

/// Away from the two ends of `usize` a step is a step: `near` subtracts one, stays, or adds
/// one. One step down from 0 is `usize::MAX`.
pub proof fn lemma_near_steps(x: usize)
    ensures
        near(x, 1) == x,
        x > 0 ==> near(x, 0) == x - 1,
        x == 0 ==> near(x, 0) == usize::MAX,
        x < usize::MAX ==> near(x, 2) == x + 1,
        x == usize::MAX ==> near(x, 2) == 0,
{
    let m = usize::MAX + 1;
    lemma_fundamental_div_mod_converse(x as int, m, 0, x as int);
    if x > 0 {
        lemma_fundamental_div_mod_converse(x - 1, m, 0, x - 1);
    } else {
        lemma_fundamental_div_mod_converse(x - 1, m, -1, usize::MAX as int);
    }
    if x < usize::MAX {
        lemma_fundamental_div_mod_converse(x + 1, m, 0, x + 1);
    } else {
        lemma_fundamental_div_mod_converse(x + 1, m, 1, 0);
    }
}

} // verus!
