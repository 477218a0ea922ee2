//! Laws of the grid: what holds of every grid across the operations.

use vstd::prelude::*;
use crate::cell::Cell;
use crate::grid::{lemma_index_in_range, lemma_index_injective, lemma_index_join, lemma_index_split, Grid};

verus! {

/// Two well-formed grids of one size are equal when they agree on every
/// cell.
pub proof fn lemma_grids_equal(a: Grid, b: Grid)
    requires
        a.wf(),
        b.wf(),
        a.width == b.width,
        a.height == b.height,
        forall|row: int, col: int|
            a.in_bounds(row, col) ==> #[trigger] a.alive(row, col) == b.alive(row, col),
    ensures
        a == b,
{
    assert forall|i: int| 0 <= i < a.cells.len() implies a.cells[i] == b.cells[i] by {
        lemma_index_join(a.width, a.height, i);
        let row = i / (a.width as int);
        let col = i % (a.width as int);
        assert(a.alive(row, col) == b.alive(row, col));
    }
    assert(a.cells =~= b.cells);
}

/// One generation step keeps the size of the grid, and judges every cell by
/// the rule on its own state and the number of its live neighbours in the
/// generation before.
pub proof fn lemma_tick_cell(grid: Grid, row: int, col: int)
    requires
        grid.wf(),
        grid.in_bounds(row, col),
    ensures
        grid.tick().wf(),
        grid.tick().width == grid.width,
        grid.tick().height == grid.height,
        grid.tick().alive(row, col) == Grid::next_state(
            grid.alive(row, col),
            grid.live_neighbors(row, col),
        ),
{
    lemma_index_in_range(grid.width, grid.height, row, col);
    lemma_index_split(grid.width, row, col);
}

/// On a grid of at least three rows and three columns whose only live cell
/// is (`row`, `col`), that cell has no live neighbour and each of its eight
/// toroidal neighbours has exactly one. (On a narrower or lower grid a cell
/// meets the same neighbour in two directions and counts it twice.)
pub proof fn lemma_single_live_cell(grid: Grid, row: int, col: int)
    requires
        grid.wf(),
        grid.width >= 3,
        grid.height >= 3,
        grid.in_bounds(row, col),
        forall|i: int| 0 <= i < grid.cells.len() ==> (grid.cells[i] <==> i == grid.index(row, col)),
    ensures
        grid.live_neighbors(row, col) == 0,
        grid.live_neighbors(grid.north(row), grid.west(col)) == 1,
        grid.live_neighbors(grid.north(row), col) == 1,
        grid.live_neighbors(grid.north(row), grid.east(col)) == 1,
        grid.live_neighbors(row, grid.west(col)) == 1,
        grid.live_neighbors(row, grid.east(col)) == 1,
        grid.live_neighbors(grid.south(row), grid.west(col)) == 1,
        grid.live_neighbors(grid.south(row), col) == 1,
        grid.live_neighbors(grid.south(row), grid.east(col)) == 1,
{
    assert forall|r: int, c: int| grid.in_bounds(r, c) implies #[trigger] grid.population(r, c)
        == (if r == row && c == col {
        1nat
    } else {
        0nat
    }) by {
        lemma_index_in_range(grid.width, grid.height, r, c);
        if grid.index(r, c) == grid.index(row, col) {
            lemma_index_injective(grid.width, r, c, row, col);
        }
    }
}

/// Setting the cells of a list a second time changes nothing.
pub proof fn lemma_set_cells_idempotent(grid: Grid, coords: Seq<(u32, u32)>)
    ensures
        grid.set_cells(coords).set_cells(coords) == grid.set_cells(coords),
{
    let once = grid.set_cells(coords);
    let twice = once.set_cells(coords);
    assert forall|i: int| 0 <= i < once.cells.len() implies twice.cells[i] == once.cells[i] by {
        assert(once.listed(coords, i) == grid.listed(coords, i)) by {
            assert forall|k: int|
                once.listed_position(coords, k) == grid.listed_position(coords, k) by {}
        }
    }
    assert(twice.cells =~= once.cells);
}

/// Setting the cells of a list does not depend on the order of the list, nor
/// on how often it names a cell: two lists that name the same cells give the
/// same grid.
pub proof fn lemma_set_cells_order(grid: Grid, a: Seq<(u32, u32)>, b: Seq<(u32, u32)>)
    requires
        forall|k: int| 0 <= k < a.len() ==> b.contains(#[trigger] a[k]),
        forall|k: int| 0 <= k < b.len() ==> a.contains(#[trigger] b[k]),
    ensures
        grid.set_cells(a) == grid.set_cells(b),
{
    assert forall|i: int| grid.listed(a, i) == grid.listed(b, i) by {
        if grid.listed(a, i) {
            let k = choose|k: int| 0 <= k < a.len() && #[trigger] grid.listed_position(a, k) == i;
            assert(b.contains(a[k]));
            let j = choose|j: int| 0 <= j < b.len() && b[j] == a[k];
            assert(grid.listed_position(b, j) == i);
        }
        if grid.listed(b, i) {
            let k = choose|k: int| 0 <= k < b.len() && #[trigger] grid.listed_position(b, k) == i;
            assert(a.contains(b[k]));
            let j = choose|j: int| 0 <= j < a.len() && a[j] == b[k];
            assert(grid.listed_position(a, j) == i);
        }
    }
    assert(grid.set_cells(a).cells =~= grid.set_cells(b).cells);
}

/// Whether entry `k` of `coords` is the cell (`row`, `col`).
pub open spec fn names(coords: Seq<(u32, u32)>, k: int, row: int, col: int) -> bool {
    coords[k].0 == row && coords[k].1 == col
}

/// Setting cells leaves a cell alive that was alive, makes every listed cell
/// alive, and brings no other cell to life.
pub proof fn lemma_set_cells_cell(grid: Grid, coords: Seq<(u32, u32)>, row: int, col: int)
    requires
        grid.wf(),
        grid.all_in_bounds(coords),
        grid.in_bounds(row, col),
    ensures
        grid.set_cells(coords).alive(row, col) == (grid.alive(row, col) || exists|k: int|
            0 <= k < coords.len() && #[trigger] names(coords, k, row, col)),
{
    lemma_index_in_range(grid.width, grid.height, row, col);
    let i = grid.index(row, col);
    if grid.listed(coords, i) {
        let k = choose|k: int|
            0 <= k < coords.len() && #[trigger] grid.listed_position(coords, k) == i;
        assert(grid.in_bounds(coords[k].0 as int, coords[k].1 as int));
        lemma_index_injective(grid.width, coords[k].0 as int, coords[k].1 as int, row, col);
        assert(names(coords, k, row, col));
    }
    if exists|k: int| 0 <= k < coords.len() && #[trigger] names(coords, k, row, col) {
        let k = choose|k: int| 0 <= k < coords.len() && #[trigger] names(coords, k, row, col);
        assert(grid.listed_position(coords, k) == i);
    }
}

/// After a reset the tags are one `Dead` per cell: `width * height` of them.
pub proof fn lemma_reset_clear_tags(grid: Grid)
    ensures
        grid.reset_clear().tags() == Seq::new(grid.width * grid.height, |i: int| Cell::Dead),
        grid.reset_clear().wf(),
{
    assert(grid.reset_clear().tags() =~= Seq::new(grid.width * grid.height, |i: int| Cell::Dead));
}

/// After a change of width the tags are one `Dead` per cell of the new size,
/// whatever the grid held before.
pub proof fn lemma_set_width_tags(grid: Grid, width: nat)
    ensures
        grid.set_width(width).tags() == Seq::new(width * grid.height, |i: int| Cell::Dead),
        grid.set_width(width).wf(),
{
    assert(grid.set_width(width).tags() =~= Seq::new(width * grid.height, |i: int| Cell::Dead));
}

/// After a change of height the tags are one `Dead` per cell of the new
/// size, whatever the grid held before.
pub proof fn lemma_set_height_tags(grid: Grid, height: nat)
    ensures
        grid.set_height(height).tags() == Seq::new(grid.width * height, |i: int| Cell::Dead),
        grid.set_height(height).wf(),
{
    assert(grid.set_height(height).tags() =~= Seq::new(grid.width * height, |i: int| Cell::Dead));
}

/// Toggling a cell twice restores the grid.
pub proof fn lemma_toggle_twice(grid: Grid, row: int, col: int)
    requires
        grid.wf(),
        grid.in_bounds(row, col),
    ensures
        grid.toggle(row, col).toggle(row, col) == grid,
{
    lemma_index_in_range(grid.width, grid.height, row, col);
    assert(grid.toggle(row, col).toggle(row, col).cells =~= grid.cells);
}

/// An empty grid stays empty.
pub proof fn lemma_dead_stays_dead(width: nat, height: nat)
    ensures
        Grid::dead(width, height).tick() == Grid::dead(width, height),
{
    let grid = Grid::dead(width, height);
    assert forall|i: int| 0 <= i < grid.cells.len() implies !grid.next_cell(i) by {
        lemma_index_join(width, height, i);
        let row = i / (width as int);
        let col = i % (width as int);
        assert forall|r: int, c: int| grid.in_bounds(r, c) implies #[trigger] grid.population(r, c)
            == 0 by {
            lemma_index_in_range(width, height, r, c);
        }
    }
    assert(grid.tick().cells =~= grid.cells);
}

} // verus!
