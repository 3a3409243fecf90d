//! The mathematical model of a universe: its dimensions and its cells in
//! row-major order. Every contract of the library is stated over this model.

use vstd::arithmetic::div_mod::lemma_mod_bound;
use vstd::prelude::*;

use crate::cell::Cell;

verus! {

/// A grid of cells. The cell in row `row` and column `col` is the element
/// `row * width + col` of `cells`.
pub struct Grid {
    /// The number of columns.
    pub width: nat,
    /// The number of rows.
    pub height: nat,
    /// The cells, row after row.
    pub cells: Seq<Cell>,
}

impl Grid {
    /// There is exactly one cell for each pair of a row and a column.
    pub open spec fn wf(self) -> bool {
        self.cells.len() == self.width * self.height
    }

    /// The grid of the given dimensions in which nothing lives.
    pub open spec fn dead(width: nat, height: nat) -> Grid {
        Grid { width, height, cells: Seq::new(width * height, |k: int| Cell::Dead) }
    }

    /// The grid that pixel data seeds. `data` holds the pixels row after row,
    /// `channels` values for each, of which the first three are red, green
    /// and blue; the cell at the place of a pixel is what `Cell::of_color`
    /// makes of its color. There is no such grid unless each pixel has at
    /// least three channels and `data` holds exactly the pixels of a
    /// `width` by `height` image.
    pub open spec fn from_pixels(width: nat, height: nat, channels: nat, data: Seq<u8>) -> Option<
        Grid,
    > {
        if channels >= 3 && data.len() == width * height * channels {
            Some(
                Grid {
                    width,
                    height,
                    cells: Seq::new(
                        width * height,
                        |k: int|
                            Cell::of_color(
                                data[k * channels],
                                data[k * channels + 1],
                                data[k * channels + 2],
                            ),
                    ),
                },
            )
        } else {
            None
        }
    }

    /// The grid has no cell at all.
    pub open spec fn is_empty(self) -> bool {
        self.width == 0 || self.height == 0
    }

    /// `(row, col)` names a cell of the grid.
    pub open spec fn in_bounds(self, row: int, col: int) -> bool {
        0 <= row < self.height && 0 <= col < self.width
    }

    /// The position of the cell `(row, col)` in `cells`.
    pub open spec fn index_of(self, row: int, col: int) -> int {
        row * self.width + col
    }

    /// The cell in row `row` and column `col`.
    pub open spec fn cell(self, row: int, col: int) -> Cell {
        self.cells[self.index_of(row, col)]
    }

    /// The position in `cells` that `(row, col)` names on the torus: both
    /// coordinates are taken modulo the dimensions, so every pair of integers
    /// names a cell of a grid that is not empty.
    pub open spec fn torus_index(self, row: int, col: int) -> int {
        self.index_of(row % (self.height as int), col % (self.width as int))
    }

    /// The cell that `(row, col)` names on the torus.
    pub open spec fn torus_cell(self, row: int, col: int) -> Cell {
        self.cells[self.torus_index(row, col)]
    }

    /// What the cell at the offsets `(row_offset, col_offset)` from
    /// `(row, col)` adds to a count of live cells: the weight of the cell that
    /// `(row + row_offset, col + col_offset)` names on the torus.
    pub open spec fn neighbor_weight(
        self,
        row: int,
        col: int,
        row_offset: int,
        col_offset: int,
    ) -> nat {
        self.torus_cell(row + row_offset, col + col_offset).weight()
    }

    /// The number of live cells among the eight neighbors of `(row, col)` on
    /// the torus: the cells one step back, none or one step on in each
    /// direction, without the cell itself. On a grid of one row or one column
    /// the steps back and on wrap around to the same cell, which then counts
    /// once for each; so a cell can be its own neighbor. An empty grid has no
    /// live cell.
    pub open spec fn live_neighbors(self, row: int, col: int) -> nat {
        if self.is_empty() {
            0
        } else {
            self.neighbor_weight(row, col, -1, -1) + self.neighbor_weight(row, col, -1, 0)
                + self.neighbor_weight(row, col, -1, 1) + self.neighbor_weight(row, col, 0, -1)
                + self.neighbor_weight(row, col, 0, 1) + self.neighbor_weight(row, col, 1, -1)
                + self.neighbor_weight(row, col, 1, 0) + self.neighbor_weight(row, col, 1, 1)
        }
    }

    /// The state of the cell at position `k` of `cells` one generation later.
    pub open spec fn next_cell(self, k: int) -> Cell {
        self.cells[k].successor(
            self.live_neighbors(k / (self.width as int), k % (self.width as int)),
        )
    }

    /// The next generation: every cell is replaced by its successor, each
    /// computed from the current generation alone.
    pub open spec fn step(self) -> Grid {
        Grid {
            width: self.width,
            height: self.height,
            cells: Seq::new(self.cells.len(), |k: int| self.next_cell(k)),
        }
    }

    /// Nothing lives in the grid.
    pub open spec fn all_dead(self) -> bool {
        forall|k: int| 0 <= k < self.cells.len() ==> self.cells[k] == Cell::Dead
    }

    /// The grid with the cell that `(row, col)` names on the torus made alive.
    /// An empty grid stays as it is.
    pub open spec fn with_alive(self, row: int, col: int) -> Grid {
        if self.is_empty() {
            self
        } else {
            Grid {
                width: self.width,
                height: self.height,
                cells: self.cells.update(self.torus_index(row, col), Cell::Alive),
            }
        }
    }

    /// One of the coordinate pairs `(row, col)` in `coords` names, on the
    /// torus, the cell at position `k`.
    pub open spec fn targeted(self, coords: Seq<(u32, u32)>, k: int) -> bool {
        exists|i: int|
            0 <= i < coords.len() && self.torus_index(
                (#[trigger] coords[i]).0 as int,
                coords[i].1 as int,
            ) == k
    }

    /// The grid after every cell named by a pair of `coords` has been made
    /// alive. Coordinates beyond the grid wrap around; the order and the
    /// repetition of pairs make no difference. An empty grid stays as it is.
    pub open spec fn activated(self, coords: Seq<(u32, u32)>) -> Grid {
        Grid {
            width: self.width,
            height: self.height,
            cells: Seq::new(
                self.cells.len(),
                |k: int|
                    if !self.is_empty() && self.targeted(coords, k) {
                        Cell::Alive
                    } else {
                        self.cells[k]
                    },
            ),
        }
    }
}

/// The coordinate pairs `(rows[i], cols[i])`, as many as the shorter of the
/// two sequences has elements. What the longer one holds beyond that is left
/// out.
pub open spec fn paired(rows: Seq<u32>, cols: Seq<u32>) -> Seq<(u32, u32)> {
    Seq::new(
        if rows.len() <= cols.len() {
            rows.len()
        } else {
            cols.len()
        },
        |i: int| (rows[i], cols[i]),
    )
}

/// A pair of coordinates within the grid names a position within its cells.
pub proof fn lemma_index_in_range(grid: Grid, row: int, col: int)
    requires
        grid.in_bounds(row, col),
    ensures
        0 <= row * grid.width <= grid.index_of(row, col) < grid.width * grid.height,
{
    assert(0 <= row * grid.width && row * grid.width + grid.width <= grid.height * grid.width)
        by (nonlinear_arith)
        requires
            0 <= row < grid.height,
    ;
    assert(grid.height * grid.width == grid.width * grid.height) by (nonlinear_arith);
}

/// On a grid that is not empty every pair of integers names, on the torus, a
/// position within the cells.
pub proof fn lemma_torus_index_in_range(grid: Grid, row: int, col: int)
    requires
        !grid.is_empty(),
    ensures
        grid.in_bounds(row % (grid.height as int), col % (grid.width as int)),
        0 <= grid.torus_index(row, col) < grid.width * grid.height,
{
    lemma_mod_bound(row, grid.height as int);
    lemma_mod_bound(col, grid.width as int);
    lemma_index_in_range(grid, row % (grid.height as int), col % (grid.width as int));
}

/// Making one more cell alive is the same as activating one more pair.
pub proof fn lemma_activated_push(grid: Grid, coords: Seq<(u32, u32)>, next: (u32, u32))
    requires
        grid.wf(),
    ensures
        grid.activated(coords).with_alive(next.0 as int, next.1 as int) == grid.activated(
            coords.push(next),
        ),
{
    let before = grid.activated(coords);
    let after = grid.activated(coords.push(next));
    let longer = coords.push(next);
    if grid.is_empty() {
        assert(before.cells =~= after.cells);
    } else {
        let target = grid.torus_index(next.0 as int, next.1 as int);
        lemma_torus_index_in_range(grid, next.0 as int, next.1 as int);
        assert forall|k: int| 0 <= k < grid.cells.len() implies (grid.targeted(longer, k) <==> (k
            == target || grid.targeted(coords, k))) by {
            if grid.targeted(coords, k) {
                let i = choose|i: int|
                    0 <= i < coords.len() && grid.torus_index(
                        (#[trigger] coords[i]).0 as int,
                        coords[i].1 as int,
                    ) == k;
                assert(longer[i] == coords[i]);
            }
            if k == target {
                assert(longer[coords.len() as int] == next);
            }
            if grid.targeted(longer, k) {
                let i = choose|i: int|
                    0 <= i < longer.len() && grid.torus_index(
                        (#[trigger] longer[i]).0 as int,
                        longer[i].1 as int,
                    ) == k;
                if i < coords.len() {
                    assert(longer[i] == coords[i]);
                }
            }
        }
        assert(before.with_alive(next.0 as int, next.1 as int).cells =~= after.cells);
    }
}

} // verus!
