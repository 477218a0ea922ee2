//! What a stamp leaves in each cell.

use vstd::prelude::*;
use crate::grid::{lemma_index_in_range, lemma_index_injective, Grid};

verus! {

/// A number below twice the size wraps to itself or to itself less the size.
pub proof fn lemma_wrap(x: int, size: int)
    requires
        0 < size,
        0 <= x < 2 * size,
    ensures
        x % size == if x < size {
            x
        } else {
            x - size
        },
{
    if x < size {
        vstd::arithmetic::div_mod::lemma_fundamental_div_mod_converse(x, size, 0, x);
    } else {
        vstd::arithmetic::div_mod::lemma_fundamental_div_mod_converse(x, size, 1, x - size);
    }
}

/// Writes inside the cells keep their number.
pub proof fn lemma_written_len(cells: Seq<bool>, writes: Seq<(int, bool)>, n: nat)
    requires
        n <= writes.len(),
        forall|k: int| 0 <= k < n ==> 0 <= (#[trigger] writes[k]).0 < cells.len(),
    ensures
        Grid::written(cells, writes, n).len() == cells.len(),
    decreases n,
{
    if n > 0 {
        lemma_written_len(cells, writes, (n - 1) as nat);
    }
}

/// After writes to positions that are all different, a position that was
/// written holds what its one write stored, and any other position holds
/// what it held before.
pub proof fn lemma_written_distinct(cells: Seq<bool>, writes: Seq<(int, bool)>, n: nat, i: int)
    requires
        n <= writes.len(),
        0 <= i < cells.len(),
        forall|k: int| 0 <= k < n ==> 0 <= (#[trigger] writes[k]).0 < cells.len(),
        forall|j: int, k: int|
            0 <= j < k < n ==> (#[trigger] writes[j]).0 != (#[trigger] writes[k]).0,
    ensures
        forall|k: int|
            0 <= k < n && (#[trigger] writes[k]).0 == i ==> Grid::written(cells, writes, n)[i]
                == writes[k].1,
        (forall|k: int| 0 <= k < n ==> (#[trigger] writes[k]).0 != i) ==> Grid::written(
            cells,
            writes,
            n,
        )[i] == cells[i],
    decreases n,
{
    if n > 0 {
        lemma_written_distinct(cells, writes, (n - 1) as nat, i);
        lemma_written_len(cells, writes, (n - 1) as nat);
        let last = writes[n - 1];
        assert forall|k: int| 0 <= k < n && (#[trigger] writes[k]).0 == i implies Grid::written(
            cells,
            writes,
            n,
        )[i] == writes[k].1 by {
            if k < n - 1 {
                assert(writes[k].0 != last.0);
            }
        }
    }
}

/// The cell that lies `delta` positions past `anchor`, wrapped, is the one
/// whose offset from the anchor is `delta`.
pub proof fn lemma_offset_of_wrapped(pos: int, anchor: int, size: nat, delta: int)
    requires
        0 <= anchor < size,
        0 <= pos < size,
        0 <= delta < size,
    ensures
        0 <= (delta + anchor) % (size as int) < size,
        ((delta + anchor) % (size as int) == pos) <==> Grid::offset(pos, anchor, size) == delta,
{
    lemma_wrap(delta + anchor, size as int);
}

/// On a grid of at least three rows and three columns a glider stamp sets
/// the nine cells around its anchor, each to the state that its offset from
/// the anchor asks for, and leaves every other cell as it was.
pub proof fn lemma_glider_cell(grid: Grid, row: int, col: int, r: int, c: int)
    requires
        grid.wf(),
        grid.height >= 3,
        grid.width >= 3,
        grid.in_bounds(row, col),
        grid.in_bounds(r, c),
    ensures
        grid.insert_glider(row, col).wf(),
        grid.insert_glider(row, col).alive(r, c) == ({
            let d_row = Grid::offset(r, row, grid.height);
            let d_col = Grid::offset(c, col, grid.width);
            if grid.glider_covers(d_row, d_col) {
                grid.glider_alive(d_row, d_col)
            } else {
                grid.alive(r, c)
            }
        }),
{
    let writes = grid.glider_writes(row, col);
    let h = grid.height;
    let w = grid.width;
    let i = grid.index(r, c);
    let d_row = Grid::offset(r, row, h);
    let d_col = Grid::offset(c, col, w);
    lemma_index_in_range(w, h, r, c);
    assert forall|k: int| 0 <= k < 9 implies ({
        let a = Grid::glider_delta(k / 3, h);
        let b = Grid::glider_delta(k % 3, w);
        &&& 0 <= (#[trigger] writes[k]).0 < grid.cells.len()
        &&& writes[k].1 == grid.glider_alive(a, b)
        &&& (writes[k].0 == i <==> (a == d_row && b == d_col))
    }) by {
        let a = Grid::glider_delta(k / 3, h);
        let b = Grid::glider_delta(k % 3, w);
        lemma_offset_of_wrapped(r, row, h, a);
        lemma_offset_of_wrapped(c, col, w, b);
        let cell_row = (a + row) % (h as int);
        let cell_col = (b + col) % (w as int);
        lemma_index_in_range(w, h, cell_row, cell_col);
        if writes[k].0 == i {
            lemma_index_injective(w, cell_row, cell_col, r, c);
        }
    }
    assert forall|j: int, k: int| 0 <= j < k < 9 implies (#[trigger] writes[j]).0 != (
    #[trigger] writes[k]).0 by {
        let aj = Grid::glider_delta(j / 3, h);
        let bj = Grid::glider_delta(j % 3, w);
        let ak = Grid::glider_delta(k / 3, h);
        let bk = Grid::glider_delta(k % 3, w);
        let rj = (aj + row) % (h as int);
        let cj = (bj + col) % (w as int);
        let rk = (ak + row) % (h as int);
        let ck = (bk + col) % (w as int);
        lemma_offset_of_wrapped(rj, row, h, aj);
        lemma_offset_of_wrapped(cj, col, w, bj);
        lemma_offset_of_wrapped(rj, row, h, ak);
        lemma_offset_of_wrapped(cj, col, w, bk);
        if writes[j].0 == writes[k].0 {
            lemma_index_injective(w, rj, cj, rk, ck);
            assert(aj == ak && bj == bk);
            assert(j / 3 == k / 3 && j % 3 == k % 3);
        }
    }
    lemma_written_len(grid.cells, writes, 9);
    lemma_written_distinct(grid.cells, writes, 9, i);
    if grid.glider_covers(d_row, d_col) {
        let step_row: int = if d_row == h - 1 {
            0
        } else if d_row == 0 {
            1
        } else {
            2
        };
        let step_col: int = if d_col == w - 1 {
            0
        } else if d_col == 0 {
            1
        } else {
            2
        };
        let k = 3 * step_row + step_col;
        assert(k / 3 == step_row && k % 3 == step_col);
        assert(writes[k].0 == i);
    }
}

/// A number no further than one size below zero or above the size wraps
/// by one size at most.
pub proof fn lemma_wrap_near(x: int, size: int)
    requires
        0 < size,
        -size <= x < 2 * size,
    ensures
        x % size == if x < 0 {
            x + size
        } else if x < size {
            x
        } else {
            x - size
        },
{
    if x < 0 {
        vstd::arithmetic::div_mod::lemma_fundamental_div_mod_converse(x, size, -1, x + size);
    } else {
        lemma_wrap(x, size);
    }
}

/// On a grid of at least 13 rows, a pulsar whose anchor has six columns on
/// either side fits, covers 13 different rows from six above the anchor
/// (wrapped) and the 13 columns around the anchor's, sets each cell of that
/// square to what the template holds for it, and leaves every other cell as
/// it was.
pub proof fn lemma_pulsar_cell(grid: Grid, row: int, col: int, r: int, c: int)
    requires
        grid.wf(),
        grid.height >= 13,
        0 <= row < grid.height,
        6 <= col,
        col + 6 < grid.width,
        grid.in_bounds(r, c),
    ensures
        grid.pulsar_fits(row, col),
        grid.insert_pulsar(row, col).wf(),
        grid.insert_pulsar(row, col).alive(r, c) == ({
            let d_row = Grid::offset(r, grid.pulsar_row(row, 0), grid.height);
            let d_col = c - col + 6;
            if d_row < 13 && 0 <= d_col < 13 {
                Grid::pulsar_template(d_row, d_col)
            } else {
                grid.alive(r, c)
            }
        }),
{
    let writes = grid.pulsar_writes(row, col);
    let h = grid.height;
    let w = grid.width;
    let i = grid.index(r, c);
    let top = grid.pulsar_row(row, 0);
    lemma_wrap_near(row - 6, h as int);
    let d_row = Grid::offset(r, top, h);
    let d_col = c - col + 6;
    lemma_index_in_range(w, h, r, c);
    assert forall|d: int| 0 <= d < 13 implies ({
        let cell_row = #[trigger] grid.pulsar_row(row, d);
        &&& 0 <= cell_row < h
        &&& Grid::offset(cell_row, top, h) == d
        &&& 0 <= grid.pulsar_position(row, col, d, 0)
        &&& grid.pulsar_position(row, col, d, 12) < grid.cells.len()
    }) by {
        lemma_wrap_near(row + d - 6, h as int);
        lemma_index_in_range(w, h, grid.pulsar_row(row, d), col - 6);
        lemma_index_in_range(w, h, grid.pulsar_row(row, d), col + 6);
    }
    assert(grid.pulsar_fits(row, col)) by {
        assert forall|d: int| 0 <= d < 13 implies 0 <= #[trigger] grid.pulsar_position(
            row,
            col,
            d,
            0,
        ) && grid.pulsar_position(row, col, d, 12) < grid.cells.len() by {
            assert(0 <= grid.pulsar_row(row, d) < h);
        }
    }
    assert forall|k: int| 0 <= k < 169 implies ({
        &&& 0 <= (#[trigger] writes[k]).0 < grid.cells.len()
        &&& writes[k].0 == grid.index(grid.pulsar_row(row, k / 13), col - 6 + k % 13)
        &&& writes[k].1 == Grid::pulsar_template(k / 13, k % 13)
        &&& (writes[k].0 == i <==> (k / 13 == d_row && k % 13 == d_col))
    }) by {
        let d = k / 13;
        let e = k % 13;
        let cell_row = grid.pulsar_row(row, d);
        assert(0 <= cell_row < h);
        lemma_index_in_range(w, h, cell_row, col - 6 + e);
        if writes[k].0 == i {
            lemma_index_injective(w, cell_row, col - 6 + e, r, c);
        }
    }
    assert forall|j: int, k: int| 0 <= j < k < 169 implies (#[trigger] writes[j]).0 != (
    #[trigger] writes[k]).0 by {
        let rj = grid.pulsar_row(row, j / 13);
        let rk = grid.pulsar_row(row, k / 13);
        assert(0 <= rj < h && 0 <= rk < h);
        if writes[j].0 == writes[k].0 {
            lemma_index_injective(w, rj, col - 6 + j % 13, rk, col - 6 + k % 13);
            assert(j / 13 == k / 13 && j % 13 == k % 13);
        }
    }
    lemma_written_len(grid.cells, writes, 169);
    lemma_written_distinct(grid.cells, writes, 169, i);
    if d_row < 13 && 0 <= d_col < 13 {
        let k = 13 * d_row + d_col;
        assert(k / 13 == d_row && k % 13 == d_col);
        assert(writes[k].0 == i);
    }
}

} // verus!
