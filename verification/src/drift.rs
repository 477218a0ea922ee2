//! The glider's drift: four generations move it one row down and one column
//! back.

use vstd::prelude::*;
use crate::grid::{lemma_index_in_range, Grid};
use crate::laws::{lemma_grids_equal, lemma_tick_cell};
use crate::stamps::lemma_glider_cell;

verus! {

/// The displacement of `pos` from `anchor` on an axis of `size` positions
/// that closes on itself, brought near zero: the two positions before the
/// anchor count as -2 and -1, the others forward from 0 to `size - 3`.
pub open spec fn displacement(pos: int, anchor: int, size: nat) -> int {
    let d = pos - anchor;
    if d >= size - 2 {
        d - size
    } else if d < -2 {
        d + size
    } else {
        d
    }
}

/// The displacement one step back on the closed axis.
pub open spec fn step_back(u: int, size: nat) -> int {
    if u == -2 {
        size - 3
    } else {
        u - 1
    }
}

/// The displacement one step forward on the closed axis.
pub open spec fn step_forward(u: int, size: nat) -> int {
    if u == size - 3 {
        -2
    } else {
        u + 1
    }
}

/// The live cells of a glider `k` generations after its stamp, by their
/// displacement (`u` rows, `v` columns) from the anchor. Generation 4 is
/// generation 0 one row down and one column back.
pub open spec fn glider_phase(k: int, u: int, v: int) -> bool {
    if k == 0 {
        (u == -1 && v == 0) || (u == 0 && v == -1) || (u == 1 && -1 <= v <= 1)
    } else if k == 1 {
        (u == 0 && (v == -1 || v == 1)) || (u == 1 && (v == -1 || v == 0)) || (u == 2 && v == 0)
    } else if k == 2 {
        (u == 0 && v == -1) || (u == 1 && (v == -1 || v == 1)) || (u == 2 && (v == -1 || v == 0))
    } else if k == 3 {
        (u == 0 && v == 0) || (u == 1 && (v == -2 || v == -1)) || (u == 2 && (v == -1 || v == 0))
    } else {
        (u == 0 && v == -1) || (u == 1 && v == -2) || (u == 2 && -2 <= v <= 0)
    }
}

/// 1 where the glider's generation `k` has a live cell and 0 elsewhere.
pub open spec fn phase_population(k: int, u: int, v: int) -> nat {
    if glider_phase(k, u, v) {
        1
    } else {
        0
    }
}

/// The live neighbours of the cell at displacement (`u`, `v`) in the
/// glider's generation `k`.
pub open spec fn phase_neighbors(k: int, u: int, v: int, height: nat, width: nat) -> nat {
    let n = step_back(u, height);
    let s = step_forward(u, height);
    let w = step_back(v, width);
    let e = step_forward(v, width);
    phase_population(k, n, w) + phase_population(k, n, v) + phase_population(k, n, e)
        + phase_population(k, u, w) + phase_population(k, u, e) + phase_population(k, s, w)
        + phase_population(k, s, v) + phase_population(k, s, e)
}

/// Whether the live cells of `grid` are exactly those of the glider's
/// generation `k` around the anchor (`row`, `col`).
pub open spec fn shows_phase(grid: Grid, row: int, col: int, k: int) -> bool {
    forall|r: int, c: int|
        grid.in_bounds(r, c) ==> #[trigger] grid.alive(r, c) == glider_phase(
            k,
            displacement(r, row, grid.height),
            displacement(c, col, grid.width),
        )
}

/// The rule takes each generation of the glider to the next, cell by cell.
proof fn lemma_phase_rule(k: int, u: int, v: int, height: nat, width: nat)
    requires
        0 <= k < 4,
        height >= 5,
        width >= 5,
        -2 <= u <= height - 3,
        -2 <= v <= width - 3,
    ensures
        Grid::next_state(glider_phase(k, u, v), phase_neighbors(k, u, v, height, width))
            == glider_phase(k + 1, u, v),
{
}

/// A grid that shows one generation of the glider shows the next after a
/// step.
proof fn lemma_phase_step(grid: Grid, row: int, col: int, k: int)
    requires
        grid.wf(),
        grid.height >= 5,
        grid.width >= 5,
        grid.in_bounds(row, col),
        0 <= k < 4,
        shows_phase(grid, row, col, k),
    ensures
        grid.tick().wf(),
        grid.tick().width == grid.width,
        grid.tick().height == grid.height,
        shows_phase(grid.tick(), row, col, k + 1),
{
    let next = grid.tick();
    let h = grid.height;
    let w = grid.width;
    lemma_tick_cell(grid, row, col);
    assert forall|r: int, c: int| next.in_bounds(r, c) implies #[trigger] next.alive(r, c)
        == glider_phase(k + 1, displacement(r, row, h), displacement(c, col, w)) by {
        lemma_tick_cell(grid, r, c);
        let u = displacement(r, row, h);
        let v = displacement(c, col, w);
        lemma_phase_rule(k, u, v, h, w);
        let n = grid.north(r);
        let s = grid.south(r);
        let we = grid.west(c);
        let e = grid.east(c);
        assert(displacement(n, row, h) == step_back(u, h));
        assert(displacement(s, row, h) == step_forward(u, h));
        assert(displacement(we, col, w) == step_back(v, w));
        assert(displacement(e, col, w) == step_forward(v, w));
        assert(grid.population(n, we) == phase_population(k, step_back(u, h), step_back(v, w)));
        assert(grid.population(n, c) == phase_population(k, step_back(u, h), v));
        assert(grid.population(n, e) == phase_population(k, step_back(u, h), step_forward(v, w)));
        assert(grid.population(r, we) == phase_population(k, u, step_back(v, w)));
        assert(grid.population(r, e) == phase_population(k, u, step_forward(v, w)));
        assert(grid.population(s, we) == phase_population(k, step_forward(u, h), step_back(v, w)));
        assert(grid.population(s, c) == phase_population(k, step_forward(u, h), v));
        assert(grid.population(s, e) == phase_population(
            k,
            step_forward(u, h),
            step_forward(v, w),
        ));
        assert(grid.live_neighbors(r, c) == phase_neighbors(k, u, v, h, w));
    }
}

/// A glider stamped on an empty grid shows generation 0 around its anchor.
proof fn lemma_stamp_shows_phase(width: nat, height: nat, row: int, col: int)
    requires
        height >= 5,
        width >= 5,
        0 <= row < height,
        0 <= col < width,
    ensures
        Grid::dead(width, height).insert_glider(row, col).wf(),
        shows_phase(Grid::dead(width, height).insert_glider(row, col), row, col, 0),
{
    let empty = Grid::dead(width, height);
    let grid = empty.insert_glider(row, col);
    lemma_glider_cell(empty, row, col, row, col);
    assert forall|r: int, c: int| grid.in_bounds(r, c) implies #[trigger] grid.alive(r, c)
        == glider_phase(0, displacement(r, row, height), displacement(c, col, width)) by {
        lemma_glider_cell(empty, row, col, r, c);
        lemma_index_in_range(width, height, r, c);
    }
}

/// Four generations after a glider is stamped on an empty grid of at least
/// five rows and five columns, the grid is the one that the same stamp gives
/// one row further down and one column further back, wrapped at the edges:
/// the glider has kept its shape and moved by one cell along the diagonal.
pub proof fn lemma_glider_drift(width: nat, height: nat, row: int, col: int)
    requires
        height >= 5,
        width >= 5,
        0 <= row < height,
        0 <= col < width,
    ensures
        ({
            let empty = Grid::dead(width, height);
            empty.insert_glider(row, col).ticks(4) == empty.insert_glider(
                empty.south(row),
                empty.west(col),
            )
        }),
{
    let empty = Grid::dead(width, height);
    let start = empty.insert_glider(row, col);
    let g1 = start.tick();
    let g2 = g1.tick();
    let g3 = g2.tick();
    let g4 = g3.tick();
    assert(start.ticks(4) == g4) by {
        reveal_with_fuel(Grid::ticks, 5);
    }
    lemma_stamp_shows_phase(width, height, row, col);
    lemma_phase_step(start, row, col, 0);
    lemma_phase_step(g1, row, col, 1);
    lemma_phase_step(g2, row, col, 2);
    lemma_phase_step(g3, row, col, 3);
    let down = empty.south(row);
    let back = empty.west(col);
    let moved = empty.insert_glider(down, back);
    lemma_stamp_shows_phase(width, height, down, back);
    assert forall|r: int, c: int| g4.in_bounds(r, c) implies #[trigger] g4.alive(r, c)
        == moved.alive(r, c) by {
        assert(moved.in_bounds(r, c));
        let u = displacement(r, row, height);
        let v = displacement(c, col, width);
        assert(g4.alive(r, c) == glider_phase(4, u, v));
        assert(moved.alive(r, c) == glider_phase(
            0,
            displacement(r, down, height),
            displacement(c, back, width),
        ));
    }
    lemma_grids_equal(g4, moved);
}

/// Four generations after its stamp on an empty grid of at least five rows
/// and five columns, the glider's live cells are those of the stamp, each
/// moved one row down and one column back, wrapped at the edges.
pub proof fn lemma_glider_cells_moved(width: nat, height: nat, row: int, col: int, r: int, c: int)
    requires
        height >= 5,
        width >= 5,
        0 <= row < height,
        0 <= col < width,
        0 <= r < height,
        0 <= c < width,
    ensures
        ({
            let start = Grid::dead(width, height).insert_glider(row, col);
            start.ticks(4).alive(start.south(r), start.west(c)) == start.alive(r, c)
        }),
{
    let empty = Grid::dead(width, height);
    let start = empty.insert_glider(row, col);
    let moved = empty.insert_glider(empty.south(row), empty.west(col));
    lemma_glider_drift(width, height, row, col);
    lemma_stamp_shows_phase(width, height, row, col);
    lemma_stamp_shows_phase(width, height, empty.south(row), empty.west(col));
    assert(start.in_bounds(r, c));
    assert(moved.in_bounds(start.south(r), start.west(c)));
}

} // verus!
