//! The engine: a grid held in two bit sets, one for the current generation
//! and one to build the next in.

use fixedbitset::FixedBitSet;
use vstd::prelude::*;
use crate::bitset::{bits_of, block_bit, clear_all, copy_from};
use crate::cell::Cell;
use crate::grid::{lemma_index_in_range, lemma_index_split, Grid, SAMPLE_HALF};

verus! {

/// A toroidal grid of cells together with the scratch space that one
/// generation step needs.
pub struct Universe {
    width: u32,
    height: u32,
    cells: FixedBitSet,
    temp_cells: FixedBitSet,
}

impl View for Universe {
    type V = Grid;

    /// The grid that the universe holds. The scratch space is no part of it.
    closed spec fn view(&self) -> Grid {
        Grid { width: self.width as nat, height: self.height as nat, cells: bits_of(self.cells) }
    }
}

impl Universe {
    /// The invariant of the type: both bit sets hold one bit per cell, and
    /// every flat position fits in 32 bits. `new` establishes it and every
    /// method keeps it.
    pub closed spec fn wf(&self) -> bool {
        &&& bits_of(self.cells).len() == self.width * self.height
        &&& bits_of(self.temp_cells).len() == self.width * self.height
        &&& self.width * self.height <= u32::MAX
    }

    /// What the invariant says of the view.
    pub proof fn lemma_wf_view(&self)
        requires
            self.wf(),
        ensures
            self@.wf(),
            self@.width <= u32::MAX,
            self@.height <= u32::MAX,
            self@.cells.len() <= u32::MAX,
    {
    }

    /// The seed of a fresh universe: the cell at flat position `i` is alive
    /// when `i` is a multiple of 2 or of 7.
    pub open spec fn seeded(i: int) -> bool {
        i % 2 == 0 || i % 7 == 0
    }

    /// A universe of 256 by 256 cells holding the seed pattern.
    pub fn new() -> (universe: Universe)
        ensures
            universe@.width == 256,
            universe@.height == 256,
            universe@.cells == Seq::new(65536, |i: int| Self::seeded(i)),
            universe@.cells.len() == 256 * 256,
            universe.wf(),
    {
        let width: u32 = 256;
        let height: u32 = 256;
        let size: usize = 65536;
        let mut cells = FixedBitSet::with_capacity(size);
        let temp_cells = FixedBitSet::with_capacity(size);
        let mut i: usize = 0;
        while i < size
            invariant
                size == 65536,
                i <= size,
                bits_of(cells).len() == size,
                forall|j: int| 0 <= j < i ==> bits_of(cells)[j] == Self::seeded(j),
            decreases size - i,
        {
            cells.set(i, i % 2 == 0 || i % 7 == 0);
            i += 1;
        }
        assert(bits_of(cells) =~= Seq::new(65536, |i: int| Self::seeded(i)));
        Universe { width, height, cells, temp_cells }
    }

    /// The number of columns.
    pub fn width(&self) -> (width: u32)
        ensures
            width == self@.width,
    {
        self.width
    }

    /// The number of rows.
    pub fn height(&self) -> (height: u32)
        ensures
            height == self@.height,
    {
        self.height
    }

    /// The flat position of cell (`row`, `col`).
    fn get_index(&self, row: u32, col: u32) -> (index: usize)
        requires
            self.wf(),
            self@.in_bounds(row as int, col as int),
        ensures
            index == self@.index(row as int, col as int),
            index < self@.cells.len(),
    {
        proof {
            lemma_index_in_range(self.width as nat, self.height as nat, row as int, col as int);
        }
        (row * self.width + col) as usize
    }

    /// The flat position at which `row` starts.
    fn get_row_index(&self, row: u32) -> (index: usize)
        requires
            self.wf(),
            row < self@.height,
            self@.width > 0,
        ensures
            index == self@.index(row as int, 0),
            index < self@.cells.len(),
    {
        proof {
            lemma_index_in_range(self.width as nat, self.height as nat, row as int, 0);
        }
        (row * self.width) as usize
    }

    /// Whether cell (`row`, `col`) is alive.
    pub fn is_alive(&self, row: u32, col: u32) -> (alive: bool)
        requires
            self.wf(),
            self@.in_bounds(row as int, col as int),
        ensures
            alive == self@.alive(row as int, col as int),
    {
        let index = self.get_index(row, col);
        self.cells.contains(index)
    }

    /// 1 for a live cell and 0 for a dead one.
    fn population(&self, row: u32, col: u32) -> (count: u8)
        requires
            self.wf(),
            self@.in_bounds(row as int, col as int),
        ensures
            count == self@.population(row as int, col as int),
    {
        if self.is_alive(row, col) {
            1
        } else {
            0
        }
    }

    /// Counts the live cells among the eight toroidal neighbours of
    /// (`row`, `column`).
    pub fn live_neighbor_count(&self, row: u32, column: u32) -> (count: u8)
        requires
            self.wf(),
            self@.in_bounds(row as int, column as int),
        ensures
            count == self@.live_neighbors(row as int, column as int),
            count <= 8,
    {
        let mut count: u8 = 0;

        let north = if row == 0 { self.height - 1 } else { row - 1 };
        let south = if row == self.height - 1 { 0 } else { row + 1 };
        let west = if column == 0 { self.width - 1 } else { column - 1 };
        let east = if column == self.width - 1 { 0 } else { column + 1 };

        count += self.population(north, west);
        count += self.population(north, column);
        count += self.population(north, east);
        count += self.population(row, west);
        count += self.population(row, east);
        count += self.population(south, west);
        count += self.population(south, column);
        count += self.population(south, east);

        count
    }

    /// The transition rule for one cell.
    pub fn next_state(alive: bool, live_neighbors: u8) -> (next: bool)
        ensures
            next == Grid::next_state(alive, live_neighbors as nat),
    {
        match (alive, live_neighbors) {
            (true, x) if x < 2 => false,
            (true, 2) | (true, 3) => true,
            (true, x) if x > 3 => false,
            (false, 3) => true,
            (otherwise, _) => otherwise,
        }
    }

    /// Advances the grid by one generation. Every cell is judged on the
    /// generation before the call; the result replaces it as a whole.
    pub fn tick(&mut self)
        requires
            old(self).wf(),
        ensures
            final(self).wf(),
            final(self)@ == old(self)@.tick(),
    {
        clear_all(&mut self.temp_cells);
        let mut row: u32 = 0;
        while row < self.height
            invariant
                self.wf(),
                self@ == old(self)@,
                row <= self.height,
                forall|j: int|
                    0 <= j < row * self.width ==> bits_of(self.temp_cells)[j] == old(
                        self,
                    )@.next_cell(j),
            decreases self.height - row,
        {
            let mut col: u32 = 0;
            while col < self.width
                invariant
                    self.wf(),
                    self@ == old(self)@,
                    row < self.height,
                    col <= self.width,
                    forall|j: int|
                        0 <= j < row * self.width + col ==> bits_of(self.temp_cells)[j] == old(
                            self,
                        )@.next_cell(j),
                decreases self.width - col,
            {
                let idx = self.get_index(row, col);
                let cell = self.cells.contains(idx);
                let live_neighbors = self.live_neighbor_count(row, col);
                proof {
                    lemma_index_split(self.width as nat, row as int, col as int);
                }
                self.temp_cells.set(idx, Self::next_state(cell, live_neighbors));
                col += 1;
            }
            assert(row * self.width + self.width == (row + 1) * self.width) by (nonlinear_arith);
            row += 1;
        }
        assert(self.height * self.width == self.width * self.height) by (nonlinear_arith);
        copy_from(&mut self.cells, &self.temp_cells);
        assert(self@.cells =~= old(self)@.tick().cells);
    }

    /// Stamps a glider over the three by three cells around (`row`, `col`),
    /// wrapping at the edges. Every cell of the footprint is written, dead
    /// or alive.
    pub fn insert_glider_at_pos(&mut self, row: u32, col: u32)
        requires
            old(self).wf(),
            old(self)@.in_bounds(row as int, col as int),
        ensures
            final(self).wf(),
            final(self)@ == old(self)@.insert_glider(row as int, col as int),
    {
        let d_rows: [u32; 3] = [self.height - 1, 0, 1];
        let d_cols: [u32; 3] = [self.width - 1, 0, 1];
        let ghost writes = old(self)@.glider_writes(row as int, col as int);
        let mut i: usize = 0;
        while i < 3
            invariant
                self.wf(),
                self@.width == old(self)@.width,
                self@.height == old(self)@.height,
                self@.in_bounds(row as int, col as int),
                i <= 3,
                writes == old(self)@.glider_writes(row as int, col as int),
                forall|s: int| 0 <= s < 3 ==> d_rows[s] == Grid::glider_delta(s, self@.height),
                forall|s: int| 0 <= s < 3 ==> d_cols[s] == Grid::glider_delta(s, self@.width),
                self@.cells == Grid::written(old(self)@.cells, writes, (3 * i) as nat),
            decreases 3 - i,
        {
            let d_row = d_rows[i];
            let mut j: usize = 0;
            while j < 3
                invariant
                    self.wf(),
                    self@.width == old(self)@.width,
                    self@.height == old(self)@.height,
                    self@.in_bounds(row as int, col as int),
                    i < 3,
                    j <= 3,
                    d_row == Grid::glider_delta(i as int, self@.height),
                    writes == old(self)@.glider_writes(row as int, col as int),
                    forall|s: int| 0 <= s < 3 ==> d_cols[s] == Grid::glider_delta(s, self@.width),
                    self@.cells == Grid::written(old(self)@.cells, writes, (3 * i + j) as nat),
                decreases 3 - j,
            {
                let d_col = d_cols[j];
                let cell_row = ((d_row as u64 + row as u64) % (self.height as u64)) as u32;
                let cell_col = ((d_col as u64 + col as u64) % (self.width as u64)) as u32;
                let idx = self.get_index(cell_row, cell_col);
                let is_alive = if (d_row == self.height - 1 && d_col == 0) || (d_row == 0 && d_col
                    == self.width - 1) || d_row == 1 {
                    true
                } else {
                    false
                };
                proof {
                    let k = 3 * i + j;
                    assert(k / 3 == i && k % 3 == j);
                    assert(writes[k as int] == (idx as int, is_alive));
                }
                self.cells.set(idx, is_alive);
                j += 1;
            }
            i += 1;
        }
    }

    /// Whether a pulsar anchored at (`row`, `col`) stays inside the cells.
    pub fn pulsar_fits(&self, row: u32, col: u32) -> (fits: bool)
        requires
            self.wf(),
            self@.in_bounds(row as int, col as int),
        ensures
            fits == self@.pulsar_fits(row as int, col as int),
    {
        let size = self.cells.len();
        let mut d_row: u32 = 0;
        while d_row < 13
            invariant
                self.wf(),
                self@.in_bounds(row as int, col as int),
                size == self@.cells.len(),
                d_row <= 13,
                forall|d: int|
                    0 <= d < d_row ==> 0 <= #[trigger] self@.pulsar_position(
                        row as int,
                        col as int,
                        d,
                        0,
                    ) && self@.pulsar_position(row as int, col as int, d, 12) < size,
            decreases 13 - d_row,
        {
            let cell_row = self.pulsar_row(row, d_row);
            proof {
                lemma_index_in_range(
                    self.width as nat,
                    self.height as nat,
                    cell_row as int,
                    col as int,
                );
            }
            let start = self.get_row_index(cell_row) + col as usize;
            if start < 6 || size - start <= 6 {
                assert(!(0 <= self@.pulsar_position(row as int, col as int, d_row as int, 0)
                    && self@.pulsar_position(row as int, col as int, d_row as int, 12) < size));
                return false;
            }
            d_row += 1;
        }
        true
    }

    /// The grid row that receives row `d_row` of a pulsar anchored at `row`.
    fn pulsar_row(&self, row: u32, d_row: u32) -> (cell_row: u32)
        requires
            self.wf(),
            row < self@.height,
            d_row < 13,
        ensures
            cell_row == self@.pulsar_row(row as int, d_row as int),
            cell_row < self@.height,
    {
        let height = self.height as u64;
        let lifted = row as u64 + d_row as u64 + 6 * height - 6;
        proof {
            vstd::arithmetic::div_mod::lemma_mod_multiples_vanish(
                6,
                row as int + d_row as int - 6,
                height as int,
            );
            vstd::arithmetic::div_mod::lemma_mod_bound(lifted as int, height as int);
        }
        (lifted % height) as u32
    }

    /// The state that entry (`d_row`, `d_col`) of the pulsar template holds.
    fn pulsar_template(d_row: usize, d_col: usize) -> (alive: bool)
        requires
            d_row < 13,
            d_col < 13,
        ensures
            alive == Grid::pulsar_template(d_row as int, d_col as int),
    {
        let hor_row: [bool; 13] = [
            false, false, true, true, true, false, false, false, true, true, true, false, false,
        ];
        let ver_row: [bool; 13] = [
            true, false, false, false, false, true, false, true, false, false, false, false, true,
        ];
        let empty_row: [bool; 13] = [
            false, false, false, false, false, false, false, false, false, false, false, false,
            false,
        ];
        let rows: [[bool; 13]; 13] = [
            hor_row, empty_row, ver_row, ver_row, ver_row, hor_row, empty_row, hor_row, ver_row,
            ver_row, ver_row, empty_row, hor_row,
        ];
        rows[d_row][d_col]
    }

    /// Stamps a pulsar around (`row`, `col`): 13 rows, wrapped around the
    /// grid, of 13 flat positions each, not wrapped. Every position of the
    /// footprint is written, dead or alive.
    pub fn insert_pulsar_at_pos(&mut self, row: u32, col: u32)
        requires
            old(self).wf(),
            old(self)@.in_bounds(row as int, col as int),
            old(self)@.pulsar_fits(row as int, col as int),
        ensures
            final(self).wf(),
            final(self)@ == old(self)@.insert_pulsar(row as int, col as int),
    {
        let ghost writes = old(self)@.pulsar_writes(row as int, col as int);
        let mut d_row: usize = 0;
        while d_row < 13
            invariant
                self.wf(),
                self@.width == old(self)@.width,
                self@.height == old(self)@.height,
                self@.in_bounds(row as int, col as int),
                old(self)@.pulsar_fits(row as int, col as int),
                old(self)@.wf(),
                d_row <= 13,
                writes == old(self)@.pulsar_writes(row as int, col as int),
                self@.cells == Grid::written(old(self)@.cells, writes, (13 * d_row) as nat),
            decreases 13 - d_row,
        {
            let cell_row = self.pulsar_row(row, d_row as u32);
            proof {
                lemma_index_in_range(
                    self.width as nat,
                    self.height as nat,
                    cell_row as int,
                    col as int,
                );
            }
            let row_idx = self.get_row_index(cell_row) + col as usize;
            assert(row_idx == old(self)@.pulsar_position(row as int, col as int, d_row as int, 0)
                + 6);
            let mut idx: usize = 0;
            while idx < 13
                invariant
                    self.wf(),
                    self@.width == old(self)@.width,
                    self@.height == old(self)@.height,
                    old(self)@.wf(),
                    d_row < 13,
                    idx <= 13,
                    6 <= row_idx,
                    row_idx + 6 < self@.cells.len(),
                    row_idx == old(self)@.pulsar_position(row as int, col as int, d_row as int, 0)
                        + 6,
                    writes == old(self)@.pulsar_writes(row as int, col as int),
                    self@.cells == Grid::written(
                        old(self)@.cells,
                        writes,
                        (13 * d_row + idx) as nat,
                    ),
                decreases 13 - idx,
            {
                proof {
                    let k = 13 * d_row + idx;
                    assert(k / 13 == d_row && k % 13 == idx);
                    assert(writes[k as int] == (
                        (row_idx - 6 + idx) as int,
                        Grid::pulsar_template(d_row as int, idx as int),
                    ));
                    self.lemma_wf_view();
                }
                self.cells.set(row_idx - 6 + idx, Self::pulsar_template(d_row, idx));
                idx += 1;
            }
            d_row += 1;
        }
    }

    /// The states of all cells as tags, in row-major order.
    pub fn get_cells(&self) -> (tags: Vec<Cell>)
        requires
            self.wf(),
        ensures
            tags@ == self@.tags(),
    {
        let mut res: Vec<Cell> = Vec::new();
        let mut row: u32 = 0;
        while row < self.height
            invariant
                self.wf(),
                row <= self.height,
                res@.len() == row * self.width,
                forall|j: int| 0 <= j < res@.len() ==> res@[j] == Cell::of_bit(self@.cells[j]),
            decreases self.height - row,
        {
            let mut col: u32 = 0;
            while col < self.width
                invariant
                    self.wf(),
                    row < self.height,
                    col <= self.width,
                    res@.len() == row * self.width + col,
                    forall|j: int| 0 <= j < res@.len() ==> res@[j] == Cell::of_bit(self@.cells[j]),
                decreases self.width - col,
            {
                let idx = self.get_index(row, col);
                let alive = if self.cells.contains(idx) {
                    Cell::Alive
                } else {
                    Cell::Dead
                };
                res.push(alive);
                col += 1;
            }
            assert(row * self.width + self.width == (row + 1) * self.width) by (nonlinear_arith);
            row += 1;
        }
        assert(self.height * self.width == self.width * self.height) by (nonlinear_arith);
        assert(res@ =~= self@.tags());
        res
    }

    /// Makes every listed cell alive and leaves the others alone. Listing a
    /// cell twice, or in another order, changes nothing.
    pub fn set_cells(&mut self, cells: &[(u32, u32)])
        requires
            old(self).wf(),
            old(self)@.all_in_bounds(cells@),
        ensures
            final(self).wf(),
            final(self)@ == old(self)@.set_cells(cells@),
    {
        let mut k: usize = 0;
        while k < cells.len()
            invariant
                self.wf(),
                self@.width == old(self)@.width,
                self@.height == old(self)@.height,
                self@.cells.len() == old(self)@.cells.len(),
                old(self)@.all_in_bounds(cells@),
                k <= cells.len(),
                forall|i: int|
                    0 <= i < self@.cells.len() ==> self@.cells[i] == (old(self)@.cells[i] || old(
                        self,
                    )@.listed_before(cells@, k as int, i)),
            decreases cells.len() - k,
        {
            let (row, col) = cells[k];
            let idx = self.get_index(row, col);
            self.cells.set(idx, true);
            proof {
                let grid = old(self)@;
                assert(grid.listed_position(cells@, k as int) == idx);
                assert forall|i: int| 0 <= i < self@.cells.len() implies self@.cells[i] == (
                grid.cells[i] || grid.listed_before(cells@, k + 1, i)) by {
                    if grid.listed_before(cells@, k as int, i) {
                        let j = choose|j: int|
                            0 <= j < k && #[trigger] grid.listed_position(cells@, j) == i;
                        assert(grid.listed_position(cells@, j) == i);
                    }
                    if grid.listed_before(cells@, k + 1, i) && i != idx {
                        let j = choose|j: int|
                            0 <= j < k + 1 && #[trigger] grid.listed_position(cells@, j) == i;
                        assert(j < k);
                    }
                }
            }
            k += 1;
        }
        assert(self@.cells =~= old(self)@.set_cells(cells@).cells);
    }

    /// Gives the grid `width` columns and makes every cell dead.
    pub fn set_width(&mut self, width: u32)
        requires
            old(self).wf(),
            width * old(self)@.height <= u32::MAX,
        ensures
            final(self).wf(),
            final(self)@ == old(self)@.set_width(width as nat),
            final(self)@.cells.len() == width * old(self)@.height,
    {
        self.resize(width, self.height);
    }

    /// Gives the grid `height` rows and makes every cell dead.
    pub fn set_height(&mut self, height: u32)
        requires
            old(self).wf(),
            old(self)@.width * height <= u32::MAX,
        ensures
            final(self).wf(),
            final(self)@ == old(self)@.set_height(height as nat),
            final(self)@.cells.len() == old(self)@.width * height,
    {
        self.resize(self.width, height);
    }

    /// Replaces both bit sets by new ones of `width * height` dead cells.
    fn resize(&mut self, width: u32, height: u32)
        requires
            width * height <= u32::MAX,
        ensures
            final(self).wf(),
            final(self)@ == Grid::dead(width as nat, height as nat),
    {
        let size = (width * height) as usize;
        let mut cells = FixedBitSet::with_capacity(size);
        clear_all(&mut cells);
        self.width = width;
        self.height = height;
        self.cells = cells;
        self.temp_cells = FixedBitSet::with_capacity(size);
        assert(self@.cells =~= Grid::dead(width as nat, height as nat).cells);
    }

    /// Decides every cell by one sample, in row-major order: a cell becomes
    /// alive where its sample is below `SAMPLE_HALF` and dead elsewhere. A
    /// sample stands for a draw from `[0, 1)` scaled to 32 bits.
    pub fn reset_random(&mut self, samples: &[u32])
        requires
            old(self).wf(),
            samples@.len() == old(self)@.cells.len(),
        ensures
            final(self).wf(),
            final(self)@ == old(self)@.sampled(samples@),
    {
        let mut row: u32 = 0;
        while row < self.height
            invariant
                self.wf(),
                self@.width == old(self)@.width,
                self@.height == old(self)@.height,
                samples@.len() == self@.cells.len(),
                row <= self.height,
                forall|j: int|
                    0 <= j < row * self.width ==> self@.cells[j] == (samples@[j] < SAMPLE_HALF),
            decreases self.height - row,
        {
            let mut col: u32 = 0;
            while col < self.width
                invariant
                    self.wf(),
                    self@.width == old(self)@.width,
                    self@.height == old(self)@.height,
                    samples@.len() == self@.cells.len(),
                    row < self.height,
                    col <= self.width,
                    forall|j: int|
                        0 <= j < row * self.width + col ==> self@.cells[j] == (samples@[j]
                            < SAMPLE_HALF),
                decreases self.width - col,
            {
                let idx = self.get_index(row, col);
                self.cells.set(idx, if samples[idx] < SAMPLE_HALF { true } else { false });
                col += 1;
            }
            assert(row * self.width + self.width == (row + 1) * self.width) by (nonlinear_arith);
            row += 1;
        }
        assert(self.height * self.width == self.width * self.height) by (nonlinear_arith);
        assert(self@.cells =~= old(self)@.sampled(samples@).cells);
    }

    /// The grid as text: for each row one glyph per cell, then a line break.
    pub fn render(&self) -> (text: String)
        requires
            self.wf(),
        ensures
            text@ == self@.render(),
    {
        let mut text = String::new();
        let mut row: u32 = 0;
        while row < self.height
            invariant
                self.wf(),
                row <= self.height,
                text@ == self@.rows_text(row as nat),
            decreases self.height - row,
        {
            let mut col: u32 = 0;
            while col < self.width
                invariant
                    self.wf(),
                    row < self.height,
                    col <= self.width,
                    text@ == self@.rows_text(row as nat) + self@.row_glyphs(
                        row as int,
                        col as nat,
                    ),
                decreases self.width - col,
            {
                let alive = self.is_alive(row, col);
                proof {
                    reveal_strlit("\u{25FC}");
                    reveal_strlit("\u{25FB}");
                }
                let symbol = if alive { "\u{25FC}" } else { "\u{25FB}" };
                assert(symbol@ =~= seq![Grid::glyph(alive)]);
                text.append(symbol);
                assert(text@ =~= self@.rows_text(row as nat) + self@.row_glyphs(
                    row as int,
                    (col + 1) as nat,
                ));
                col += 1;
            }
            proof {
                reveal_strlit("\n");
            }
            text.append("\n");
            assert(text@ =~= self@.rows_text((row + 1) as nat));
            row += 1;
        }
        text
    }

    /// The stored bits packed into 32-bit blocks, least significant bit
    /// first: cell `i` is bit `i % 32` of block `i / 32`.
    pub fn cells(&self) -> (blocks: &[u32])
        requires
            self.wf(),
        ensures
            blocks@.len() == (self@.cells.len() + 31) / 32,
            forall|i: int|
                0 <= i < self@.cells.len() ==> #[trigger] self@.cells[i] == block_bit(blocks@, i),
    {
        self.cells.as_slice()
    }

    /// Flips the state of cell (`row`, `col`) and leaves the others alone.
    pub fn toggle_cell(&mut self, row: u32, col: u32)
        requires
            old(self).wf(),
            old(self)@.in_bounds(row as int, col as int),
        ensures
            final(self).wf(),
            final(self)@ == old(self)@.toggle(row as int, col as int),
    {
        let idx = self.get_index(row, col);
        let cell_state = self.cells.contains(idx);
        self.cells.set(idx, !cell_state);
    }

    /// Makes every cell dead.
    pub fn reset_clear(&mut self)
        requires
            old(self).wf(),
        ensures
            final(self).wf(),
            final(self)@ == old(self)@.reset_clear(),
    {
        clear_all(&mut self.cells);
    }
}

} // verus!
