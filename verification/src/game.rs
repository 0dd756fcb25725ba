//! The game: two grids of one size, the generation on show and the one before it.

use vstd::prelude::*;
use crate::board::Board;
use crate::grid::{CellIter, GameGrid, Grid};

verus! {

/// A game in progress. `current` is the latest generation; `previous` is the one before it,
/// and the room in which the next one is written.
pub struct Game<Backing> {
    current: Grid<Backing>,
    previous: Grid<Backing>,
}

impl<B> Game<B> where Grid<B>: GameGrid {
    pub closed spec fn spec_current(&self) -> &Grid<B> {
        &self.current
    }

    pub closed spec fn spec_previous(&self) -> &Grid<B> {
        &self.previous
    }

    /// Both grids are well formed and of the same dimensions.
    pub open spec fn wf(&self) -> bool {
        &&& self.current().board().fits(Grid::<B>::max_cells())
        &&& self.previous().board().fits(Grid::<B>::max_cells())
        &&& self.current().board().dims == self.previous().board().dims
    }

    /// A game that starts from the given generation, with nothing alive before it.
    pub fn new(starting: Grid<B>) -> (game: Self)
        requires
            starting.board().fits(Grid::<B>::max_cells()),
        ensures
            game.wf(),
            *game.current() == starting,
            game.previous().board() == Board::blank(starting.board().dims),
    {
        let dimensions = starting.dimensions();
        Game { current: starting, previous: Grid::<B>::new(dimensions) }
    }

    /// Moves the game on by one generation. What was current becomes previous, and each cell
    /// of the new current generation is what Conway's rule makes of that cell and its eight
    /// neighbours in the previous one: the board takes one `step`.
    pub fn update(&mut self)
        requires
            old(self).wf(),
        ensures
            final(self).wf(),
            final(self).current().board().dims == old(self).current().board().dims,
            *final(self).previous() == *old(self).current(),
            final(self).current().board() == old(self).current().board().step(),
    {
        std::mem::swap(&mut self.current, &mut self.previous);
        let ghost shown = self.previous.board();
        let ghost mut seen: int = 0;
        let mut cells = self.previous.iter();
        loop
            invariant
                self.previous == old(self).current,
                shown == self.previous.board(),
                shown.fits(Grid::<B>::max_cells()),
                self.current.board().fits(Grid::<B>::max_cells()),
                self.current.board().dims == shown.dims,
                cells.wf(),
                0 <= seen <= shown.area(),
                cells.remaining() == shown.row_major().skip(seen),
                forall|k: int|
                    0 <= k < seen ==> self.current.board().cells[k] == shown.step().cells[k],
            ensures
                seen == shown.area(),
            decreases cells.remaining().len(),
        {
            match cells.next() {
                Some((cell, state)) => {
                    proof {
                        shown.lemma_coord(seen);
                        shown.lemma_step_by_block(seen);
                    }
                    let next_state = match self.previous.neighborhood(cell) {
                        3 => true,
                        4 => state,
                        _ => false,
                    };
                    self.current.set(cell, next_state);
                    proof {
                        seen = seen + 1;
                    }
                },
                None => {
                    break ;
                },
            }
        }
        assert(self.current.board().cells =~= shown.step().cells);
    }

    /// The latest generation.
    #[verifier::when_used_as_spec(spec_current)]
    pub fn current(&self) -> (grid: &Grid<B>)
        ensures
            grid == self.spec_current(),
    {
        &self.current
    }

    /// The generation before the latest.
    #[verifier::when_used_as_spec(spec_previous)]
    pub fn previous(&self) -> (grid: &Grid<B>)
        ensures
            grid == self.spec_previous(),
    {
        &self.previous
    }
}

/// A run of a game, each state one update after the state before it, shows after `n` updates
/// the board that `n` steps make of the board it started from.
pub proof fn lemma_run_steps<B>(run: Seq<Game<B>>, n: nat) where Grid<B>: GameGrid
    requires
        n < run.len(),
        forall|i: int|
            0 < i < run.len() ==> (#[trigger] run[i]).current().board() == run[i
                - 1].current().board().step(),
    ensures
        run[n as int].current().board() == run[0].current().board().steps(n),
    decreases n,
{
    if n > 0 {
        lemma_run_steps(run, (n - 1) as nat);
    }
}

/// Two runs over any two stores that start from the same board show the same board after
/// every number of updates.
pub proof fn lemma_stores_agree<A, B>(a: Seq<Game<A>>, b: Seq<Game<B>>, n: nat) where
    Grid<A>: GameGrid,
    Grid<B>: GameGrid,
    requires
        n < a.len(),
        n < b.len(),
        a[0].current().board() == b[0].current().board(),
        forall|i: int|
            0 < i < a.len() ==> (#[trigger] a[i]).current().board() == a[i
                - 1].current().board().step(),
        forall|i: int|
            0 < i < b.len() ==> (#[trigger] b[i]).current().board() == b[i
                - 1].current().board().step(),
    ensures
        a[n as int].current().board() == b[n as int].current().board(),
{
    lemma_run_steps(a, n);
    lemma_run_steps(b, n);
}

} // verus!
