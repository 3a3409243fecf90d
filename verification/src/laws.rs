//! What holds of every grid: theorems about the model that the contracts of
//! [`Universe`](crate::universe::Universe) are stated over.

use vstd::arithmetic::div_mod::{
    lemma_add_mod_noop_right, lemma_fundamental_div_mod, lemma_fundamental_div_mod_converse,
    lemma_mod_bound, lemma_mod_twice,
};
use vstd::prelude::*;

use crate::cell::Cell;
use crate::grid::{lemma_index_in_range, lemma_torus_index_in_range, paired, Grid};

verus! {

impl Grid {
    /// The grid moved by `rows` rows down and `cols` columns to the right on
    /// the torus: what was at `(row, col)` is at `(row + rows, col + cols)`,
    /// and what leaves the grid on one edge comes back on the opposite one.
    pub open spec fn translated(self, rows: int, cols: int) -> Grid {
        Grid {
            width: self.width,
            height: self.height,
            cells: Seq::new(
                self.cells.len(),
                |k: int|
                    self.torus_cell(
                        k / (self.width as int) - rows,
                        k % (self.width as int) - cols,
                    ),
            ),
        }
    }
}

/// The row and the column of a position within the cells are within the grid,
/// and name that position.
pub proof fn lemma_position_has_coordinates(grid: Grid, k: int)
    requires
        grid.wf(),
        0 <= k < grid.cells.len(),
    ensures
        !grid.is_empty(),
        grid.in_bounds(k / (grid.width as int), k % (grid.width as int)),
        grid.index_of(k / (grid.width as int), k % (grid.width as int)) == k,
{
    let w = grid.width as int;
    let h = grid.height as int;
    assert(w > 0 && h > 0) by (nonlinear_arith)
        requires
            0 <= k < w * h,
            w >= 0,
            h >= 0,
    ;
    lemma_mod_bound(k, w);
    lemma_fundamental_div_mod(k, w);
    assert(0 <= k / w < h) by (nonlinear_arith)
        requires
            0 <= k < w * h,
            k == w * (k / w) + k % w,
            0 <= k % w < w,
            w > 0,
    ;
    assert(w * (k / w) == (k / w) * w) by (nonlinear_arith);
}

/// A position that coordinates within the grid name has these coordinates.
pub proof fn lemma_coordinates_of_index(grid: Grid, row: int, col: int)
    requires
        grid.in_bounds(row, col),
    ensures
        grid.index_of(row, col) / (grid.width as int) == row,
        grid.index_of(row, col) % (grid.width as int) == col,
{
    lemma_fundamental_div_mod_converse(grid.index_of(row, col), grid.width as int, row, col);
}

/// Coordinates that differ by whole turns around the torus name the same
/// cell.
pub proof fn lemma_torus_cell_is_periodic(grid: Grid, row: int, col: int, other_row: int, other_col: int)
    requires
        row % (grid.height as int) == other_row % (grid.height as int),
        col % (grid.width as int) == other_col % (grid.width as int),
    ensures
        grid.torus_index(row, col) == grid.torus_index(other_row, other_col),
        grid.torus_cell(row, col) == grid.torus_cell(other_row, other_col),
{
}

/// In a grid in which nothing lives no cell has a live neighbor.
pub proof fn lemma_dead_grid_has_no_live_neighbors(grid: Grid, row: int, col: int)
    requires
        grid.wf(),
        grid.all_dead(),
    ensures
        grid.live_neighbors(row, col) == 0,
{
    if !grid.is_empty() {
        assert forall|row_offset: int, col_offset: int| #[trigger]
            grid.neighbor_weight(row, col, row_offset, col_offset) == 0 by {
            lemma_torus_index_in_range(grid, row + row_offset, col + col_offset);
        }
    }
}

/// A grid in which nothing lives stays as it is from one generation to the
/// next, whatever its dimensions: no cell is born without three live
/// neighbors.
pub proof fn lemma_dead_grid_is_stable(grid: Grid)
    requires
        grid.wf(),
        grid.all_dead(),
    ensures
        grid.step() == grid,
        grid.step().all_dead(),
{
    assert forall|k: int| 0 <= k < grid.cells.len() implies grid.next_cell(k) == grid.cells[k] by {
        lemma_dead_grid_has_no_live_neighbors(
            grid,
            k / (grid.width as int),
            k % (grid.width as int),
        );
    }
    assert(grid.step().cells =~= grid.cells);
}

/// The cell of the translated grid that `(row, col)` names on the torus is
/// the cell of the grid that `(row - rows, col - cols)` names.
pub proof fn lemma_translated_torus_cell(grid: Grid, rows: int, cols: int, row: int, col: int)
    requires
        grid.wf(),
        !grid.is_empty(),
    ensures
        grid.translated(rows, cols).torus_cell(row, col) == grid.torus_cell(row - rows, col - cols),
{
    let w = grid.width as int;
    let h = grid.height as int;
    let moved = grid.translated(rows, cols);
    lemma_torus_index_in_range(grid, row, col);
    lemma_coordinates_of_index(grid, row % h, col % w);
    let k = moved.torus_index(row, col);
    assert(k == grid.torus_index(row, col));
    assert(moved.cells[k] == grid.torus_cell(row % h - rows, col % w - cols));
    lemma_add_mod_noop_right(-rows, row, h);
    lemma_add_mod_noop_right(-cols, col, w);
    lemma_torus_cell_is_periodic(grid, row % h - rows, col % w - cols, row - rows, col - cols);
}

/// The cell of the next generation that `(row, col)` names on the torus is
/// the successor of the cell that it names now, by the live neighbors of
/// `(row, col)`.
pub proof fn lemma_step_torus_cell(grid: Grid, row: int, col: int)
    requires
        grid.wf(),
        !grid.is_empty(),
    ensures
        grid.step().torus_cell(row, col) == grid.torus_cell(row, col).successor(
            grid.live_neighbors(row, col),
        ),
{
    let w = grid.width as int;
    let h = grid.height as int;
    lemma_torus_index_in_range(grid, row, col);
    lemma_coordinates_of_index(grid, row % h, col % w);
    lemma_mod_twice(row, h);
    lemma_mod_twice(col, w);
    lemma_live_neighbors_are_periodic(grid, row % h, col % w, row, col);
}

/// Within the grid, the cell of the next generation in row `row` and column
/// `col` is the successor of the cell that is there now, by the live
/// neighbors of `(row, col)`.
pub proof fn lemma_step_cell(grid: Grid, row: int, col: int)
    requires
        grid.wf(),
        grid.in_bounds(row, col),
    ensures
        grid.step().in_bounds(row, col),
        grid.step().cell(row, col) == grid.cell(row, col).successor(
            grid.live_neighbors(row, col),
        ),
{
    lemma_index_in_range(grid, row, col);
    lemma_coordinates_of_index(grid, row, col);
}

/// The count of live neighbors does not tell a cell on an edge from a cell
/// in the interior: coordinates that differ by whole turns around the torus
/// have the same count.
pub proof fn lemma_live_neighbors_are_periodic(
    grid: Grid,
    row: int,
    col: int,
    other_row: int,
    other_col: int,
)
    requires
        row % (grid.height as int) == other_row % (grid.height as int),
        col % (grid.width as int) == other_col % (grid.width as int),
    ensures
        grid.live_neighbors(row, col) == grid.live_neighbors(other_row, other_col),
{
    if !grid.is_empty() {
        assert forall|row_offset: int, col_offset: int| #[trigger]
            grid.neighbor_weight(row, col, row_offset, col_offset) == grid.neighbor_weight(
                other_row,
                other_col,
                row_offset,
                col_offset,
            ) by {
            lemma_add_mod_noop_right(row_offset, row, grid.height as int);
            lemma_add_mod_noop_right(row_offset, other_row, grid.height as int);
            lemma_add_mod_noop_right(col_offset, col, grid.width as int);
            lemma_add_mod_noop_right(col_offset, other_col, grid.width as int);
        }
    }
}

/// A cell of the translated grid has as many live neighbors as the cell of
/// the grid that it came from.
pub proof fn lemma_translated_live_neighbors(grid: Grid, rows: int, cols: int, row: int, col: int)
    requires
        grid.wf(),
    ensures
        grid.translated(rows, cols).live_neighbors(row, col) == grid.live_neighbors(
            row - rows,
            col - cols,
        ),
{
    if !grid.is_empty() {
        assert forall|row_offset: int, col_offset: int| #[trigger]
            grid.translated(rows, cols).neighbor_weight(row, col, row_offset, col_offset)
                == grid.neighbor_weight(row - rows, col - cols, row_offset, col_offset) by {
            lemma_translated_torus_cell(grid, rows, cols, row + row_offset, col + col_offset);
        }
    }
}

/// The torus has no edge: moving a grid by any number of rows and columns
/// and then stepping it gives the next generation of the grid, moved in the
/// same way.
pub proof fn lemma_step_commutes_with_translation(grid: Grid, rows: int, cols: int)
    requires
        grid.wf(),
    ensures
        grid.translated(rows, cols).step() == grid.step().translated(rows, cols),
{
    let w = grid.width as int;
    let moved = grid.translated(rows, cols);
    assert forall|k: int| 0 <= k < grid.cells.len() implies moved.step().cells[k]
        == grid.step().translated(rows, cols).cells[k] by {
        let row = k / w;
        let col = k % w;
        lemma_position_has_coordinates(grid, k);
        lemma_translated_live_neighbors(grid, rows, cols, row, col);
        lemma_step_torus_cell(grid, row - rows, col - cols);
    }
    assert(moved.step().cells =~= grid.step().translated(rows, cols).cells);
}

/// Bulk activation pairs rows with columns up to the end of the shorter
/// sequence: there are as many pairs as the shorter one has elements, and
/// what the longer one holds beyond that changes nothing.
pub proof fn lemma_activation_stops_at_shorter(grid: Grid, rows: Seq<u32>, cols: Seq<u32>)
    ensures
        paired(rows, cols).len() == if rows.len() <= cols.len() {
            rows.len()
        } else {
            cols.len()
        },
        paired(rows, cols) == paired(
            rows.take(paired(rows, cols).len() as int),
            cols.take(paired(rows, cols).len() as int),
        ),
        grid.activated(paired(rows, cols)) == grid.activated(
            paired(
                rows.take(paired(rows, cols).len() as int),
                cols.take(paired(rows, cols).len() as int),
            ),
        ),
{
    let n = paired(rows, cols).len() as int;
    assert(paired(rows, cols) =~= paired(rows.take(n), cols.take(n)));
}

} // verus!
