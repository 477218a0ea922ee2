//! The mathematical model of the grid: a width, a height and one boolean per
//! cell in row-major order, with the rules of the game stated over it.

use vstd::prelude::*;
use crate::cell::Cell;

verus! {

/// The glyph that a dead cell is drawn with.
pub const DEAD_GLYPH: char = '\u{25FB}';

/// The glyph that a live cell is drawn with.
pub const ALIVE_GLYPH: char = '\u{25FC}';

/// Half of the range of a sample: a sample below it makes a live cell.
pub const SAMPLE_HALF: u32 = 0x8000_0000;

/// A grid of cells as a mathematical value. Cell (`row`, `col`) is entry
/// `row * width + col` of `cells`; `true` is a live cell.
pub struct Grid {
    pub width: nat,
    pub height: nat,
    pub cells: Seq<bool>,
}

impl Grid {
    /// There is exactly one entry per cell.
    pub open spec fn wf(self) -> bool {
        self.cells.len() == self.width * self.height
    }

    /// Whether (`row`, `col`) names a cell of the grid.
    pub open spec fn in_bounds(self, row: int, col: int) -> bool {
        0 <= row < self.height && 0 <= col < self.width
    }

    /// The flat position of cell (`row`, `col`).
    pub open spec fn index(self, row: int, col: int) -> int {
        row * self.width + col
    }

    /// Whether cell (`row`, `col`) is alive.
    pub open spec fn alive(self, row: int, col: int) -> bool {
        self.cells[self.index(row, col)]
    }

    /// The row above `row`; the top row wraps to the bottom one.
    pub open spec fn north(self, row: int) -> int {
        if row == 0 {
            self.height - 1
        } else {
            row - 1
        }
    }

    /// The row below `row`; the bottom row wraps to the top one.
    pub open spec fn south(self, row: int) -> int {
        if row == self.height - 1 {
            0
        } else {
            row + 1
        }
    }

    /// The column left of `col`; the first column wraps to the last one.
    pub open spec fn west(self, col: int) -> int {
        if col == 0 {
            self.width - 1
        } else {
            col - 1
        }
    }

    /// The column right of `col`; the last column wraps to the first one.
    pub open spec fn east(self, col: int) -> int {
        if col == self.width - 1 {
            0
        } else {
            col + 1
        }
    }

    /// 1 for a live cell and 0 for a dead one.
    pub open spec fn population(self, row: int, col: int) -> nat {
        if self.alive(row, col) {
            1
        } else {
            0
        }
    }

    /// How many of the eight toroidal neighbours of (`row`, `col`) are alive.
    /// On a grid narrower or lower than three cells a neighbour that is
    /// reached in two directions counts twice.
    pub open spec fn live_neighbors(self, row: int, col: int) -> nat {
        let n = self.north(row);
        let s = self.south(row);
        let w = self.west(col);
        let e = self.east(col);
        self.population(n, w) + self.population(n, col) + self.population(n, e)
            + self.population(row, w) + self.population(row, e)
            + self.population(s, w) + self.population(s, col) + self.population(s, e)
    }

    /// The transition rule: a live cell survives with two or three live
    /// neighbours, a dead cell comes alive with exactly three.
    pub open spec fn next_state(alive: bool, live_neighbors: nat) -> bool {
        if alive {
            live_neighbors == 2 || live_neighbors == 3
        } else {
            live_neighbors == 3
        }
    }

    /// The state of the cell at flat position `i` one generation later.
    pub open spec fn next_cell(self, i: int) -> bool {
        let row = i / (self.width as int);
        let col = i % (self.width as int);
        Self::next_state(self.cells[i], self.live_neighbors(row, col))
    }

    /// The next generation: every cell judged by the rule on this
    /// generation's cells.
    pub open spec fn tick(self) -> Grid {
        Grid {
            width: self.width,
            height: self.height,
            cells: Seq::new(self.cells.len(), |i: int| self.next_cell(i)),
        }
    }

    /// The grid after `n` generations.
    pub open spec fn ticks(self, n: nat) -> Grid
        decreases n,
    {
        if n == 0 {
            self
        } else {
            self.ticks((n - 1) as nat).tick()
        }
    }

    /// A grid of the given size with every cell dead.
    pub open spec fn dead(width: nat, height: nat) -> Grid {
        Grid { width, height, cells: Seq::new(width * height, |i: int| false) }
    }

    /// The same grid with every cell dead.
    pub open spec fn reset_clear(self) -> Grid {
        Self::dead(self.width, self.height)
    }

    /// A grid of `width` columns and as many rows as this one, every cell
    /// dead.
    pub open spec fn set_width(self, width: nat) -> Grid {
        Self::dead(width, self.height)
    }

    /// A grid of `height` rows and as many columns as this one, every cell
    /// dead.
    pub open spec fn set_height(self, height: nat) -> Grid {
        Self::dead(self.width, height)
    }

    /// The same grid with the state of (`row`, `col`) flipped.
    pub open spec fn toggle(self, row: int, col: int) -> Grid {
        let i = self.index(row, col);
        Grid { width: self.width, height: self.height, cells: self.cells.update(i, !self.cells[i]) }
    }

    /// How far `pos` lies past `anchor` on an axis of `size` positions that
    /// closes on itself, counted forward: a number from 0 to `size - 1`.
    pub open spec fn offset(pos: int, anchor: int, size: nat) -> int {
        if pos >= anchor {
            pos - anchor
        } else {
            pos - anchor + size
        }
    }

    /// Whether the offsets (`d_row`, `d_col`) from an anchor lie in the three
    /// by three cells around it.
    pub open spec fn glider_covers(self, d_row: int, d_col: int) -> bool {
        (d_row == self.height - 1 || d_row == 0 || d_row == 1) && (d_col == self.width - 1
            || d_col == 0 || d_col == 1)
    }

    /// The first `n` of a list of writes carried out in order on `cells`.
    /// A write is a flat position and the state that it stores there; where
    /// two writes name one position the later one stands.
    pub open spec fn written(cells: Seq<bool>, writes: Seq<(int, bool)>, n: nat) -> Seq<bool>
        decreases n,
    {
        if n == 0 {
            cells
        } else {
            let (position, state) = writes[n - 1];
            Self::written(cells, writes, (n - 1) as nat).update(position, state)
        }
    }

    /// The three offsets of a glider stamp along an axis of the given size:
    /// one step back (wrapped), none, one step forward.
    pub open spec fn glider_delta(step: int, size: nat) -> int {
        if step == 0 {
            size - 1
        } else if step == 1 {
            0
        } else {
            1
        }
    }

    /// Which offsets of a glider stamp receive a live cell: the one above the
    /// anchor, the one left of it, and the whole row below.
    pub open spec fn glider_alive(self, d_row: int, d_col: int) -> bool {
        (d_row == self.height - 1 && d_col == 0) || (d_row == 0 && d_col == self.width - 1)
            || d_row == 1
    }

    /// The `k`-th of the nine writes of a glider stamp anchored at
    /// (`row`, `col`): row offsets outermost, both in the order of
    /// `glider_delta`, each wrapped around the grid.
    pub open spec fn glider_write(self, row: int, col: int, k: int) -> (int, bool) {
        let d_row = Self::glider_delta(k / 3, self.height);
        let d_col = Self::glider_delta(k % 3, self.width);
        let cell_row = (d_row + row) % (self.height as int);
        let cell_col = (d_col + col) % (self.width as int);
        (self.index(cell_row, cell_col), self.glider_alive(d_row, d_col))
    }

    /// The nine writes of a glider stamp anchored at (`row`, `col`).
    pub open spec fn glider_writes(self, row: int, col: int) -> Seq<(int, bool)> {
        Seq::new(9, |k: int| self.glider_write(row, col, k))
    }

    /// The grid with a glider stamped over the three by three cells around
    /// (`row`, `col`).
    pub open spec fn insert_glider(self, row: int, col: int) -> Grid {
        Grid {
            width: self.width,
            height: self.height,
            cells: Self::written(self.cells, self.glider_writes(row, col), 9),
        }
    }

    /// The two long bars of a pulsar's arm: offsets 2 to 4 and 8 to 10 of 13.
    pub open spec fn pulsar_bar(i: int) -> bool {
        2 <= i <= 4 || 8 <= i <= 10
    }

    /// The four lines on which a pulsar's bars lie: offsets 0, 5, 7 and 12.
    pub open spec fn pulsar_rail(i: int) -> bool {
        i == 0 || i == 5 || i == 7 || i == 12
    }

    /// The 13 by 13 template of a pulsar: horizontal bars on the rail rows,
    /// vertical bars on the rail columns, everything else dead.
    pub open spec fn pulsar_template(d_row: int, d_col: int) -> bool {
        (Self::pulsar_rail(d_row) && Self::pulsar_bar(d_col)) || (Self::pulsar_bar(d_row)
            && Self::pulsar_rail(d_col))
    }

    /// The grid row that receives row `d_row` of a pulsar anchored at `row`:
    /// six rows above the anchor for the first, wrapped around the grid.
    pub open spec fn pulsar_row(self, row: int, d_row: int) -> int {
        (row + d_row - 6) % (self.height as int)
    }

    /// The flat position that receives entry (`d_row`, `d_col`) of a pulsar
    /// anchored at (`row`, `col`). Along a row the stamp runs from six
    /// positions before the anchor's column to six after it by flat position:
    /// it does not wrap at the row's ends.
    pub open spec fn pulsar_position(self, row: int, col: int, d_row: int, d_col: int) -> int {
        self.pulsar_row(row, d_row) * self.width + col + d_col - 6
    }

    /// Whether a pulsar anchored at (`row`, `col`) stays inside the cells:
    /// each of its 13 rows has six flat positions before the anchor's column
    /// and six after it.
    pub open spec fn pulsar_fits(self, row: int, col: int) -> bool {
        forall|d_row: int|
            0 <= d_row < 13 ==> 0 <= #[trigger] self.pulsar_position(row, col, d_row, 0)
                && self.pulsar_position(row, col, d_row, 12) < self.cells.len()
    }

    /// The `k`-th of the 169 writes of a pulsar stamp, row by row.
    pub open spec fn pulsar_write(self, row: int, col: int, k: int) -> (int, bool) {
        (self.pulsar_position(row, col, k / 13, k % 13), Self::pulsar_template(k / 13, k % 13))
    }

    /// The 169 writes of a pulsar stamp anchored at (`row`, `col`).
    pub open spec fn pulsar_writes(self, row: int, col: int) -> Seq<(int, bool)> {
        Seq::new(169, |k: int| self.pulsar_write(row, col, k))
    }

    /// The grid with a pulsar stamped around (`row`, `col`).
    pub open spec fn insert_pulsar(self, row: int, col: int) -> Grid {
        Grid {
            width: self.width,
            height: self.height,
            cells: Self::written(self.cells, self.pulsar_writes(row, col), 169),
        }
    }

    /// The flat position that entry `k` of a list of coordinates names.
    pub open spec fn listed_position(self, coords: Seq<(u32, u32)>, k: int) -> int {
        self.index(coords[k].0 as int, coords[k].1 as int)
    }

    /// Whether one of the first `n` entries of `coords` names the flat
    /// position `i`.
    pub open spec fn listed_before(self, coords: Seq<(u32, u32)>, n: int, i: int) -> bool {
        exists|k: int| 0 <= k < n && #[trigger] self.listed_position(coords, k) == i
    }

    /// Whether `coords` names the flat position `i`.
    pub open spec fn listed(self, coords: Seq<(u32, u32)>, i: int) -> bool {
        self.listed_before(coords, coords.len() as int, i)
    }

    /// Whether every entry of `coords` names a cell of the grid.
    pub open spec fn all_in_bounds(self, coords: Seq<(u32, u32)>) -> bool {
        forall|k: int|
            0 <= k < coords.len() ==> self.in_bounds(
                (#[trigger] coords[k]).0 as int,
                coords[k].1 as int,
            )
    }

    /// The grid with every cell that `coords` names alive and the others as
    /// they were.
    pub open spec fn set_cells(self, coords: Seq<(u32, u32)>) -> Grid {
        Grid {
            width: self.width,
            height: self.height,
            cells: Seq::new(self.cells.len(), |i: int| self.cells[i] || self.listed(coords, i)),
        }
    }

    /// The grid whose cells are decided by one sample each, in row-major
    /// order: a cell is alive where its sample lies in the lower half of the
    /// range.
    pub open spec fn sampled(self, samples: Seq<u32>) -> Grid {
        Grid {
            width: self.width,
            height: self.height,
            cells: Seq::new(self.cells.len(), |i: int| samples[i] < SAMPLE_HALF),
        }
    }

    /// The glyph of a cell.
    pub open spec fn glyph(alive: bool) -> char {
        if alive {
            ALIVE_GLYPH
        } else {
            DEAD_GLYPH
        }
    }

    /// The glyphs of the first `n` cells of `row`.
    pub open spec fn row_glyphs(self, row: int, n: nat) -> Seq<char> {
        Seq::new(n, |col: int| Self::glyph(self.alive(row, col)))
    }

    /// The line for `row`: one glyph per cell and a line break.
    pub open spec fn row_text(self, row: int) -> Seq<char> {
        self.row_glyphs(row, self.width).push('\n')
    }

    /// The lines of the first `n` rows, one after the other.
    pub open spec fn rows_text(self, n: nat) -> Seq<char>
        decreases n,
    {
        if n == 0 {
            Seq::empty()
        } else {
            self.rows_text((n - 1) as nat) + self.row_text(n - 1)
        }
    }

    /// The grid as text: one line per row, top row first.
    pub open spec fn render(self) -> Seq<char> {
        self.rows_text(self.height)
    }

    /// The cells as tags, in row-major order.
    pub open spec fn tags(self) -> Seq<Cell> {
        Seq::new(self.cells.len(), |i: int| Cell::of_bit(self.cells[i]))
    }
}

/// A cell of the grid has a flat position below `width * height`.
pub proof fn lemma_index_in_range(width: nat, height: nat, row: int, col: int)
    requires
        0 <= row < height,
        0 <= col < width,
    ensures
        0 <= row * width + col < width * height,
        row * width + col <= (height - 1) * width + (width - 1),
{
    assert(row * width + col < width * height && row * width >= 0 && row * width <= (height - 1)
        * width) by (nonlinear_arith)
        requires
            0 <= row < height,
            0 <= col < width,
    ;
}

/// Row and column are recovered from a flat position by division.
pub proof fn lemma_index_split(width: nat, row: int, col: int)
    requires
        0 <= row,
        0 <= col < width,
    ensures
        (row * width + col) / (width as int) == row,
        (row * width + col) % (width as int) == col,
{
    vstd::arithmetic::div_mod::lemma_fundamental_div_mod_converse(
        row * width + col,
        width as int,
        row,
        col,
    );
    assert(row * width == width * row) by (nonlinear_arith);
}

/// Every flat position below `width * height` is that of one cell.
pub proof fn lemma_index_join(width: nat, height: nat, i: int)
    requires
        0 <= i < width * height,
    ensures
        width > 0,
        0 <= i / (width as int) < height,
        0 <= i % (width as int) < width,
        (i / (width as int)) * width + i % (width as int) == i,
{
    assert(width > 0) by (nonlinear_arith)
        requires
            0 <= i < width * height,
    ;
    let w = width as int;
    vstd::arithmetic::div_mod::lemma_fundamental_div_mod(i, w);
    vstd::arithmetic::div_mod::lemma_mod_bound(i, w);
    let q = i / w;
    assert(0 <= q < height) by (nonlinear_arith)
        requires
            0 <= i < w * height,
            w > 0,
            i == w * q + i % w,
            0 <= i % w < w,
    ;
    assert(q * w == w * q) by (nonlinear_arith);
}

/// Two cells with the same flat position are the same cell.
pub proof fn lemma_index_injective(width: nat, row_a: int, col_a: int, row_b: int, col_b: int)
    requires
        0 <= row_a,
        0 <= row_b,
        0 <= col_a < width,
        0 <= col_b < width,
        row_a * width + col_a == row_b * width + col_b,
    ensures
        row_a == row_b,
        col_a == col_b,
{
    lemma_index_split(width, row_a, col_a);
    lemma_index_split(width, row_b, col_b);
}

} // verus!
