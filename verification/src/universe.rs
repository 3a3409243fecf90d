//! The executable universe: a grid of cells in flat row-major storage.

use vstd::arithmetic::div_mod::{
    lemma_fundamental_div_mod_converse, lemma_mod_add_multiples_vanish,
};
use vstd::prelude::*;

use crate::cell::Cell;
use crate::grid::{
    lemma_activated_push, lemma_index_in_range, lemma_torus_index_in_range, paired, Grid,
};

verus! {

/// A toroidal universe of fixed dimensions.
///
/// The universe always holds exactly `width * height` cells; its view is the
/// [`Grid`] with the same dimensions and cells.
pub struct Universe {
    width: u32,
    height: u32,
    cells: Vec<Cell>,
}

impl View for Universe {
    type V = Grid;

    closed spec fn view(&self) -> Grid {
        Grid { width: self.width as nat, height: self.height as nat, cells: self.cells@ }
    }
}

impl Universe {
    #[verifier::type_invariant]
    spec fn storage_matches_dimensions(self) -> bool {
        self.cells@.len() == self.width * self.height
    }

    /// Creates a universe of the given dimensions in which every cell is
    /// dead. A dimension may be zero: such a universe has no cells and never
    /// changes.
    pub fn new(width: u32, height: u32) -> (universe: Universe)
        requires
            width * height <= usize::MAX,
        ensures
            universe@ == Grid::dead(width as nat, height as nat),
            universe@.wf(),
    {
        let count: usize = (width as usize) * (height as usize);
        let cells: Vec<Cell> = vec![Cell::Dead; count];
        assert(cells@ =~= Grid::dead(width as nat, height as nat).cells);
        Universe { width, height, cells }
    }

    /// Creates a universe of the given dimensions in which exactly the cells
    /// named by `coordinates`, pairs of a row and a column, are alive.
    /// Coordinates beyond the grid wrap around.
    pub fn from_coordinates(width: u32, height: u32, coordinates: &[(u32, u32)]) -> (universe:
        Universe)
        requires
            width * height <= usize::MAX,
        ensures
            universe@ == Grid::dead(width as nat, height as nat).activated(coordinates@),
            universe@.wf(),
    {
        let count: usize = (width as usize) * (height as usize);
        let mut cells: Vec<Cell> = vec![Cell::Dead; count];
        let ghost dead = Grid::dead(width as nat, height as nat);
        assert(cells@ =~= dead.activated(coordinates@.take(0)).cells);
        let mut i: usize = 0;
        while i < coordinates.len()
            invariant
                i <= coordinates.len(),
                dead == Grid::dead(width as nat, height as nat),
                (Grid { width: width as nat, height: height as nat, cells: cells@ })
                    == dead.activated(coordinates@.take(i as int)),
            decreases coordinates.len() - i,
        {
            let (row, col) = coordinates[i];
            activate(&mut cells, width, height, row, col);
            proof {
                lemma_activated_push(dead, coordinates@.take(i as int), coordinates@[i as int]);
                assert(coordinates@.take(i as int).push(coordinates@[i as int])
                    =~= coordinates@.take(i + 1));
            }
            i = i + 1;
        }
        assert(coordinates@.take(coordinates@.len() as int) =~= coordinates@);
        Universe { width, height, cells }
    }

    /// Creates a universe from the pixels of an image: `data` holds them row
    /// after row, `channels` values for each, of which the first three are
    /// red, green and blue. A pixel seeds a live cell when one of the three
    /// exceeds the brightness threshold. Returns `None` when a pixel has
    /// fewer than three channels or `data` is not exactly `width * height`
    /// pixels long.
    pub fn from_pixels(width: u32, height: u32, channels: usize, data: &[u8]) -> (seeded: Option<
        Universe,
    >)
        ensures
            match seeded {
                Some(universe) => Grid::from_pixels(
                    width as nat,
                    height as nat,
                    channels as nat,
                    data@,
                ) == Some(universe@),
                None => Grid::from_pixels(width as nat, height as nat, channels as nat, data@)
                    is None,
            },
    {
        if channels < 3 {
            return None;
        }
        let length: usize = data.len();
        let count: usize = match (width as usize).checked_mul(height as usize) {
            Some(count) => count,
            None => {
                assert(width * height * channels > usize::MAX) by (nonlinear_arith)
                    requires
                        width * height > usize::MAX,
                        channels >= 3,
                ;
                return None;
            },
        };
        let total: usize = match count.checked_mul(channels) {
            Some(total) => total,
            None => {
                assert(width * height * channels == count * channels) by (nonlinear_arith)
                    requires
                        width * height == count,
                ;
                return None;
            },
        };
        assert(width * height * channels == total) by (nonlinear_arith)
            requires
                width * height == count,
                count * channels == total,
        ;
        if total != length {
            return None;
        }
        let mut cells: Vec<Cell> = Vec::with_capacity(count);
        let mut k: usize = 0;
        while k < count
            invariant
                k <= count,
                channels >= 3,
                count * channels == data.len(),
                cells@.len() == k,
                forall|j: int|
                    0 <= j < k ==> cells@[j] == Cell::of_color(
                        data@[j * channels],
                        data@[j * channels + 1],
                        data@[j * channels + 2],
                    ),
            decreases count - k,
        {
            assert(k * channels + channels <= count * channels) by (nonlinear_arith)
                requires
                    k < count,
            ;
            let base: usize = k * channels;
            cells.push(Cell::from_color(data[base], data[base + 1], data[base + 2]));
            k = k + 1;
        }
        assert(cells@ =~= Grid::from_pixels(
            width as nat,
            height as nat,
            channels as nat,
            data@,
        )->0.cells);
        Some(Universe { width, height, cells })
    }

    /// The number of columns.
    pub fn get_width(&self) -> (width: u32)
        ensures
            width == self@.width,
            self@.wf(),
    {
        proof {
            use_type_invariant(self);
        }
        self.width
    }

    /// The number of rows.
    pub fn get_height(&self) -> (height: u32)
        ensures
            height == self@.height,
            self@.wf(),
    {
        proof {
            use_type_invariant(self);
        }
        self.height
    }

    /// The cells in row-major order. The borrow ends before the universe can
    /// change again.
    pub fn get_cells(&self) -> (cells: &Vec<Cell>)
        ensures
            cells@ == self@.cells,
            self@.wf(),
    {
        proof {
            use_type_invariant(self);
        }
        &self.cells
    }

    /// The position of the cell `(row, col)` in the row-major storage.
    pub fn rowcol_to_ind(&self, row: u32, col: u32) -> (index: usize)
        requires
            self@.in_bounds(row as int, col as int),
        ensures
            index == self@.index_of(row as int, col as int),
            index < self@.cells.len(),
    {
        proof {
            use_type_invariant(self);
            lemma_index_in_range(self@, row as int, col as int);
            assert(self.cells.len() == self@.width * self@.height);
        }
        (row as usize) * (self.width as usize) + (col as usize)
    }

    /// The state of the cell in row `row` and column `col`.
    pub fn cell_at(&self, row: u32, col: u32) -> (cell: Cell)
        requires
            self@.in_bounds(row as int, col as int),
        ensures
            cell == self@.cell(row as int, col as int),
    {
        let index: usize = self.rowcol_to_ind(row, col);
        self.cells[index]
    }

    /// Makes the cells `(alive_cell_rows[i], alive_cell_cols[i])` alive, for
    /// every `i` that both slices have. What the longer slice holds beyond
    /// the length of the shorter one is ignored. Coordinates beyond the grid
    /// wrap around, as they do for neighbors.
    pub fn set_cells_alive(&mut self, alive_cell_rows: &[u32], alive_cell_cols: &[u32])
        ensures
            final(self)@ == old(self)@.activated(paired(alive_cell_rows@, alive_cell_cols@)),
            final(self)@.wf(),
    {
        proof {
            use_type_invariant(&*self);
        }
        let len: usize = if alive_cell_rows.len() <= alive_cell_cols.len() {
            alive_cell_rows.len()
        } else {
            alive_cell_cols.len()
        };
        let ghost coords = paired(alive_cell_rows@, alive_cell_cols@);
        let ghost before = self@;
        // The cells are taken out of the universe while they change, and an
        // empty universe stands in for it until they are put back.
        let mut taken = Universe::new(0, 0);
        core::mem::swap(self, &mut taken);
        let width: u32 = taken.width;
        let height: u32 = taken.height;
        let mut cells: Vec<Cell> = taken.cells;
        assert(cells@ =~= before.activated(coords.take(0)).cells);
        let mut i: usize = 0;
        while i < len
            invariant
                i <= len,
                len == coords.len(),
                len <= alive_cell_rows.len(),
                len <= alive_cell_cols.len(),
                coords == paired(alive_cell_rows@, alive_cell_cols@),
                before.wf(),
                before.width == width,
                before.height == height,
                (Grid { width: width as nat, height: height as nat, cells: cells@ })
                    == before.activated(coords.take(i as int)),
            decreases len - i,
        {
            activate(&mut cells, width, height, alive_cell_rows[i], alive_cell_cols[i]);
            proof {
                lemma_activated_push(before, coords.take(i as int), coords[i as int]);
                assert(coords.take(i as int).push(coords[i as int]) =~= coords.take(i + 1));
            }
            i = i + 1;
        }
        assert(coords.take(coords.len() as int) =~= coords);
        *self = Universe { width, height, cells };
    }

    /// What the cell at the given offsets from `(row, col)` adds to a count of
    /// live cells.
    fn neighbor(&self, row: u32, col: u32, row_offset: u32, col_offset: u32) -> (weight: u8)
        requires
            !self@.is_empty(),
        ensures
            weight == self@.neighbor_weight(
                row as int,
                col as int,
                row_offset as int,
                col_offset as int,
            ),
            weight <= 1,
    {
        let neighbor_row: u32 = wrapped_sum(row, row_offset, self.height);
        let neighbor_col: u32 = wrapped_sum(col, col_offset, self.width);
        self.cell_at(neighbor_row, neighbor_col).as_u8()
    }

    /// Counts the live cells among the eight neighbors of `(row, col)`. The
    /// neighbors are found one step away in each direction on the torus, so a
    /// cell on an edge has neighbors on the opposite edge. One step back is
    /// taken as `height - 1` rows, or `width - 1` columns, on: on the torus
    /// that is the same cell. On an empty universe the count is zero.
    pub fn live_neighbor_count(&self, row: u32, col: u32) -> (live: u8)
        ensures
            live == self@.live_neighbors(row as int, col as int),
            live <= 8,
    {
        if self.width == 0 || self.height == 0 {
            return 0;
        }
        let back: u32 = self.height - 1;
        let left: u32 = self.width - 1;
        proof {
            lemma_mod_add_multiples_vanish(row - 1, self.height as int);
            lemma_mod_add_multiples_vanish(col - 1, self.width as int);
            assert((row + back) % (self.height as int) == (row - 1) % (self.height as int));
            assert((col + left) % (self.width as int) == (col - 1) % (self.width as int));
        }
        self.neighbor(row, col, back, left) + self.neighbor(row, col, back, 0) + self.neighbor(
            row,
            col,
            back,
            1,
        ) + self.neighbor(row, col, 0, left) + self.neighbor(row, col, 0, 1) + self.neighbor(
            row,
            col,
            1,
            left,
        ) + self.neighbor(row, col, 1, 0) + self.neighbor(row, col, 1, 1)
    }

    /// Advances the universe by one generation. Every cell of the next
    /// generation is computed from the current one; the new cells replace the
    /// old ones only when all of them are known.
    pub fn tick(&mut self)
        ensures
            final(self)@ == old(self)@.step(),
            final(self)@.wf(),
    {
        proof {
            use_type_invariant(&*self);
        }
        let mut next: Vec<Cell> = Vec::with_capacity(self.cells.len());
        let mut row: u32 = 0;
        while row < self.height
            invariant
                *self == *old(self),
                self@.wf(),
                row <= self.height,
                next@.len() == row * self.width,
                forall|k: int| 0 <= k < next@.len() ==> next@[k] == self@.next_cell(k),
            decreases self.height - row,
        {
            let mut col: u32 = 0;
            while col < self.width
                invariant
                    *self == *old(self),
                    self@.wf(),
                    row < self.height,
                    col <= self.width,
                    next@.len() == row * self.width + col,
                    forall|k: int| 0 <= k < next@.len() ==> next@[k] == self@.next_cell(k),
                decreases self.width - col,
            {
                let live: u8 = self.live_neighbor_count(row, col);
                let current: Cell = self.cell_at(row, col);
                proof {
                    lemma_fundamental_div_mod_converse(
                        row * self.width + col,
                        self.width as int,
                        row as int,
                        col as int,
                    );
                }
                next.push(current.next_state(live));
                col = col + 1;
            }
            assert((row + 1) * self.width == row * self.width + self.width) by (nonlinear_arith);
            row = row + 1;
        }
        proof {
            assert(next@.len() == self@.cells.len()) by (nonlinear_arith)
                requires
                    next@.len() == row * self.width,
                    row == self.height,
                    self@.cells.len() == self.width * self.height,
            ;
            assert(next@ =~= self@.step().cells);
        }
        self.cells = next;
    }
}

/// Makes the cell alive that `(row, col)` names on the torus of the given
/// dimensions.
fn activate(cells: &mut Vec<Cell>, width: u32, height: u32, row: u32, col: u32)
    requires
        old(cells)@.len() == width * height,
    ensures
        (Grid { width: width as nat, height: height as nat, cells: final(cells)@ }) == (Grid {
            width: width as nat,
            height: height as nat,
            cells: old(cells)@,
        }).with_alive(row as int, col as int),
{
    if width == 0 || height == 0 {
        return ;
    }
    let ghost grid = Grid { width: width as nat, height: height as nat, cells: cells@ };
    proof {
        lemma_torus_index_in_range(grid, row as int, col as int);
        lemma_index_in_range(grid, row as int % height as int, col as int % width as int);
        assert(cells.len() == width * height);
    }
    let index: usize = ((row % height) as usize) * (width as usize) + ((col % width) as usize);
    cells.set(index, Cell::Alive);
}

/// `(position + offset) % size`, computed without overflow.
fn wrapped_sum(position: u32, offset: u32, size: u32) -> (wrapped: u32)
    requires
        size > 0,
    ensures
        wrapped == (position + offset) % (size as int),
        wrapped < size,
{
    ((position as u64 + offset as u64) % (size as u64)) as u32
}

} // verus!
