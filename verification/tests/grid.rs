use conways_bench::{
    BitSource, CellIter, GameGrid, Grid, GridIter, PackedBits, Pair, SliceBits,
};

fn live_cells<G: GameGrid>(grid: &G) -> Vec<Pair> {
    let mut live = Vec::new();
    let mut cells = grid.iter();
    while let Some((cell, alive)) = cells.next() {
        if alive {
            live.push(cell);
        }
    }
    live
}

fn all_cells<G: GameGrid>(grid: &G) -> Vec<(Pair, bool)> {
    let mut seen = Vec::new();
    let mut cells = grid.iter();
    while let Some(item) = cells.next() {
        seen.push(item);
    }
    seen
}

fn check_index<G: GameGrid>() {
    let grid = G::new((10, 10));
    assert_eq!(grid.index((3, 6)), Some(36));
    assert_eq!(grid.index((10, 0)), None);
    assert_eq!(grid.index((0, 10)), None);
    assert_eq!(grid.index((0, 0)), Some(0));
    assert_eq!(grid.index((9, 9)), Some(99));
    assert_eq!(grid.index((usize::MAX, 0)), None);
    assert_eq!(grid.index((0, usize::MAX)), None);
    assert_eq!(grid.index((usize::MAX, usize::MAX)), None);

    let wide = G::new((2, 7));
    assert_eq!(wide.dimensions(), (2, 7));
    assert_eq!(wide.index((1, 0)), Some(7));
    assert_eq!(wide.index((1, 6)), Some(13));
    assert_eq!(wide.index((2, 0)), None);
    assert_eq!(wide.index((0, 7)), None);
}

fn check_get_set<G: GameGrid>() {
    let mut grid = G::new((4, 5));
    for row in 0..4 {
        for col in 0..5 {
            assert_eq!(grid.get((row, col)), Some(false));
        }
    }
    assert_eq!(grid.get((4, 0)), None);
    assert_eq!(grid.get((0, 5)), None);
    assert_eq!(grid.get((usize::MAX, usize::MAX)), None);

    grid.set((2, 3), true);
    for row in 0..4 {
        for col in 0..5 {
            assert_eq!(grid.get((row, col)), Some((row, col) == (2, 3)));
        }
    }
    grid.set((2, 3), true);
    assert_eq!(grid.get((2, 3)), Some(true));
    grid.set((0, 0), true);
    grid.set((3, 4), true);
    grid.set((2, 3), false);
    assert_eq!(grid.get((2, 3)), Some(false));
    assert_eq!(grid.get((0, 0)), Some(true));
    assert_eq!(grid.get((3, 4)), Some(true));
    assert_eq!(live_cells(&grid), vec![(0, 0), (3, 4)]);
    assert_eq!(grid.dimensions(), (4, 5));
}

fn check_neighborhood<G: GameGrid>() {
    let mut grid = G::new((10, 10));
    assert_eq!(grid.get((3, 5)), Some(false));

    grid.set((3, 5), true);
    assert_eq!(grid.get((3, 5)), Some(true));

    grid.set((2, 6), true);
    assert_eq!(grid.neighborhood((3, 5)), 2);
    assert_eq!(grid.neighborhood((2, 6)), 2);
    assert_eq!(grid.neighborhood((3, 6)), 2);
    assert_eq!(grid.neighborhood((3, 7)), 1);

    assert_eq!(grid.neighborhood((0, 0)), 0);
    assert_eq!(grid.neighborhood((9, 9)), 0);
    assert_eq!(grid.neighborhood((0, 9)), 0);
    assert_eq!(grid.neighborhood((9, 0)), 0);

    assert_eq!(live_cells(&grid), vec![(2, 6), (3, 5)]);
}

fn check_edges<G: GameGrid>() {
    let mut full = G::new((3, 3));
    for row in 0..3 {
        for col in 0..3 {
            full.set((row, col), true);
        }
    }
    assert_eq!(full.neighborhood((1, 1)), 9);
    assert_eq!(full.neighborhood((0, 0)), 4);
    assert_eq!(full.neighborhood((0, 2)), 4);
    assert_eq!(full.neighborhood((2, 0)), 4);
    assert_eq!(full.neighborhood((2, 2)), 4);
    assert_eq!(full.neighborhood((0, 1)), 6);
    assert_eq!(full.neighborhood((1, 0)), 6);
    assert_eq!(full.neighborhood((1, 2)), 6);
    assert_eq!(full.neighborhood((2, 1)), 6);
    // Cells off the grid still count what lies beside them on it.
    assert_eq!(full.neighborhood((3, 1)), 3);
    assert_eq!(full.neighborhood((1, 3)), 3);
    assert_eq!(full.neighborhood((3, 3)), 1);
    assert_eq!(full.neighborhood((4, 1)), 0);
    assert_eq!(full.neighborhood((5, 5)), 0);

    // The edges do not join: opposite corners are no neighbours.
    let mut corners = G::new((4, 4));
    corners.set((0, 0), true);
    corners.set((3, 3), true);
    corners.set((0, 3), true);
    corners.set((3, 0), true);
    assert_eq!(corners.neighborhood((0, 0)), 1);
    assert_eq!(corners.neighborhood((3, 3)), 1);
    assert_eq!(corners.neighborhood((0, 3)), 1);
    assert_eq!(corners.neighborhood((3, 0)), 1);
    assert_eq!(corners.neighborhood((1, 1)), 1);
    assert_eq!(corners.neighborhood((0, 1)), 1);
    assert_eq!(corners.neighborhood((1, 2)), 1);
}

fn check_wrapping_steps<G: GameGrid>() {
    // One step up from the largest coordinate is 0 in wrapping arithmetic, so the block
    // around such a cell reaches the first row or column.
    let mut grid = G::new((3, 3));
    grid.set((0, 0), true);
    grid.set((0, 1), true);
    grid.set((1, 0), true);
    assert_eq!(grid.neighborhood((usize::MAX, usize::MAX)), 1);
    assert_eq!(grid.neighborhood((usize::MAX, 0)), 2);
    assert_eq!(grid.neighborhood((usize::MAX, 1)), 2);
    assert_eq!(grid.neighborhood((usize::MAX, 2)), 1);
    assert_eq!(grid.neighborhood((0, usize::MAX)), 2);
    assert_eq!(grid.neighborhood((1, usize::MAX)), 2);
    assert_eq!(grid.neighborhood((2, usize::MAX)), 1);
    assert_eq!(grid.neighborhood((usize::MAX - 1, 0)), 0);
    assert_eq!(grid.neighborhood((0, usize::MAX - 1)), 0);
}

fn check_iteration<G: GameGrid>() {
    let mut grid = G::new((2, 3));
    grid.set((0, 1), true);
    grid.set((1, 2), true);
    let expected = vec![
        ((0, 0), false),
        ((0, 1), true),
        ((0, 2), false),
        ((1, 0), false),
        ((1, 1), false),
        ((1, 2), true),
    ];
    assert_eq!(all_cells(&grid), expected);
    // A fresh walk starts again from the first cell.
    assert_eq!(all_cells(&grid), expected);

    let mut cells = grid.iter();
    for item in &expected {
        assert_eq!(cells.next(), Some(*item));
    }
    assert_eq!(cells.next(), None);
    assert_eq!(cells.next(), None);

    let column = G::new((3, 1));
    assert_eq!(
        all_cells(&column),
        vec![((0, 0), false), ((1, 0), false), ((2, 0), false)]
    );
    let row = G::new((1, 3));
    assert_eq!(
        all_cells(&row),
        vec![((0, 0), false), ((0, 1), false), ((0, 2), false)]
    );
}

fn check_order<G: GameGrid>() {
    let mut grid = G::new((7, 5));
    for row in 0..7 {
        for col in 0..5 {
            if (row * 3 + col) % 4 == 1 {
                grid.set((row, col), true);
            }
        }
    }
    let seen = all_cells(&grid);
    assert_eq!(seen.len(), 35);
    for (place, (cell, alive)) in seen.iter().enumerate() {
        assert_eq!(*cell, (place / 5, place % 5));
        assert_eq!(grid.index(*cell), Some(place));
        assert_eq!(grid.get(*cell), Some(*alive));
        assert_eq!(*alive, (cell.0 * 3 + cell.1) % 4 == 1);
    }
    for pair in seen.windows(2) {
        assert!(pair[0].0 < pair[1].0);
    }
    let live = live_cells(&grid);
    let mut expected = Vec::new();
    for row in 0..7 {
        for col in 0..5 {
            if (row * 3 + col) % 4 == 1 {
                expected.push((row, col));
            }
        }
    }
    assert_eq!(live, expected);
}

fn check_empty<G: GameGrid>() {
    for dimensions in [(0, 0), (0, 5), (5, 0)] {
        let grid = G::new(dimensions);
        assert_eq!(grid.dimensions(), dimensions);
        assert_eq!(grid.index((0, 0)), None);
        assert_eq!(grid.get((0, 0)), None);
        assert_eq!(grid.neighborhood((0, 0)), 0);
        assert_eq!(grid.neighborhood((usize::MAX, usize::MAX)), 0);
        assert_eq!(all_cells(&grid), vec![]);
        let mut cells = grid.iter();
        assert_eq!(cells.next(), None);
        assert_eq!(cells.next(), None);
    }
}

#[test]
fn smoke_index() {
    let grid = Grid::<Vec<bool>>::new((10, 10));
    assert_eq!(grid.index((3, 6)), Some(36));
    assert_eq!(grid.index((10, 0)), None);
    assert_eq!(grid.index((0, 10)), None);
}

#[test]
fn smoke_vec_grid() {
    let mut grid = Grid::<Vec<bool>>::new((10, 10));
    assert_eq!(grid.get((3, 5)), Some(false));

    grid.set((3, 5), true);
    assert_eq!(grid.get((3, 5)), Some(true));

    grid.set((2, 6), true);
    assert_eq!(grid.neighborhood((3, 5)), 2);
    assert_eq!(grid.neighborhood((2, 6)), 2);
    assert_eq!(grid.neighborhood((3, 6)), 2);
    assert_eq!(grid.neighborhood((3, 7)), 1);

    assert_eq!(grid.neighborhood((0, 0)), 0);
    assert_eq!(grid.neighborhood((9, 9)), 0);

    assert_eq!(live_cells(&grid), vec![(2, 6), (3, 5)]);
}

#[test]
fn new_vec_grid_is_all_dead() {
    let grid = Grid::<Vec<bool>>::new((3, 4));
    assert_eq!(grid.0, vec![false; 12]);
    assert_eq!(grid.1, (3, 4));
}

#[test]
fn new_bit_vec_grid_is_all_dead() {
    let grid = Grid::<bit_vec::BitVec>::new((3, 4));
    assert_eq!(grid.0.len(), 12);
    assert!(grid.0.none());
    assert_eq!(grid.1, (3, 4));
}

#[test]
fn index_vec() {
    check_index::<Grid<Vec<bool>>>();
}

#[test]
fn index_bit_vec() {
    check_index::<Grid<bit_vec::BitVec>>();
}

#[test]
fn index_packed() {
    check_index::<Grid<PackedBits>>();
}

#[test]
fn get_set_vec() {
    check_get_set::<Grid<Vec<bool>>>();
}

#[test]
fn get_set_bit_vec() {
    check_get_set::<Grid<bit_vec::BitVec>>();
}

#[test]
fn get_set_packed() {
    check_get_set::<Grid<PackedBits>>();
}

#[test]
fn set_writes_through_to_bit_vec() {
    let mut grid = Grid::<bit_vec::BitVec>::new((2, 3));
    grid.set((1, 1), true);
    assert_eq!(grid.0.get(4), Some(true));
    assert_eq!(grid.0.iter().filter(|bit| *bit).count(), 1);
    grid.0.set(0, true);
    assert_eq!(grid.get((0, 0)), Some(true));
}

#[test]
fn neighborhood_vec() {
    check_neighborhood::<Grid<Vec<bool>>>();
}

#[test]
fn neighborhood_bit_vec() {
    check_neighborhood::<Grid<bit_vec::BitVec>>();
}

#[test]
fn neighborhood_packed() {
    check_neighborhood::<Grid<PackedBits>>();
}

#[test]
fn edges_vec() {
    check_edges::<Grid<Vec<bool>>>();
}

#[test]
fn edges_bit_vec() {
    check_edges::<Grid<bit_vec::BitVec>>();
}

#[test]
fn edges_packed() {
    check_edges::<Grid<PackedBits>>();
}

#[test]
fn wrapping_steps_vec() {
    check_wrapping_steps::<Grid<Vec<bool>>>();
}

#[test]
fn wrapping_steps_bit_vec() {
    check_wrapping_steps::<Grid<bit_vec::BitVec>>();
}

#[test]
fn wrapping_steps_packed() {
    check_wrapping_steps::<Grid<PackedBits>>();
}

#[test]
fn iteration_vec() {
    check_iteration::<Grid<Vec<bool>>>();
}

#[test]
fn iteration_bit_vec() {
    check_iteration::<Grid<bit_vec::BitVec>>();
}

#[test]
fn iteration_packed() {
    check_iteration::<Grid<PackedBits>>();
}

#[test]
fn order_vec() {
    check_order::<Grid<Vec<bool>>>();
}

#[test]
fn order_bit_vec() {
    check_order::<Grid<bit_vec::BitVec>>();
}

#[test]
fn order_packed() {
    check_order::<Grid<PackedBits>>();
}

#[test]
fn empty_vec() {
    check_empty::<Grid<Vec<bool>>>();
}

#[test]
fn empty_bit_vec() {
    check_empty::<Grid<bit_vec::BitVec>>();
}

#[test]
fn empty_packed() {
    check_empty::<Grid<PackedBits>>();
}

#[test]
fn slice_bits_hand_out_each_value_once() {
    let values = [true, false, false, true, true];
    let mut bits = SliceBits::new(&values);
    for value in values {
        assert_eq!(bits.next_bit(), Some(value));
    }
    assert_eq!(bits.next_bit(), None);
    assert_eq!(bits.next_bit(), None);

    let mut none = SliceBits::new(&[]);
    assert_eq!(none.next_bit(), None);
}

#[test]
fn walk_pairs_values_with_coordinates() {
    let values = [true, false, false, true, true, false];
    let mut cells = GridIter::start(SliceBits::new(&values), (3, 2));
    assert_eq!(cells.next(), Some(((0, 0), true)));
    assert_eq!(cells.next(), Some(((0, 1), false)));
    assert_eq!(cells.next(), Some(((1, 0), false)));
    assert_eq!(cells.next(), Some(((1, 1), true)));
    assert_eq!(cells.next(), Some(((2, 0), true)));
    assert_eq!(cells.next(), Some(((2, 1), false)));
    assert_eq!(cells.next(), None);

    let mut wide = GridIter::start(SliceBits::new(&values), (1, 6));
    for col in 0..6 {
        assert_eq!(wide.next(), Some(((0, col), values[col])));
    }
    assert_eq!(wide.next(), None);

    let mut tall = GridIter::start(SliceBits::new(&values), (6, 1));
    for row in 0..6 {
        assert_eq!(tall.next(), Some(((row, 0), values[row])));
    }
    assert_eq!(tall.next(), None);
}
