//! A copy of what the viewport shows, taken while the screen stands still.
use crate::grid::cell::{Cell, CellFlags, CellView};
use crate::grid::terminal::{CursorShape, Grid, GridView};
use vstd::prelude::*;

verus! {

#[derive(Debug, Clone, Copy, PartialEq, Eq, Structural)]
pub struct CursorSnapshot {
    pub row: usize,
    pub column: usize,
    pub shape: CursorShape,
}

#[derive(Debug)]
pub struct GridSnapshot {
    pub columns: usize,
    pub rows: usize,
    pub cells: Vec<Cell>,
    pub cursor: Option<CursorSnapshot>,
    /// Row and column of the next glyph.
    pub input_cursor: (usize, usize),
    pub wrap_pending: bool,
    pub auto_wrap: bool,
}

impl GridSnapshot {
    /// The cell at a row and a column, where the copy holds one.
    pub open spec fn cell_view(self, row: int, column: int) -> Option<CellView> {
        let index = row * self.columns + column;
        if 0 <= index < self.cells@.len() && index <= usize::MAX {
            Some(self.cells@[index]@)
        } else {
            None
        }
    }

    /// The cell that is drawn at a row and a column: for the right half of a
    /// glyph its left half.
    pub open spec fn rendered_view(self, row: int, column: int) -> Option<CellView> {
        match self.cell_view(row, column) {
            Some(cell) => if cell.continuation() && column > 0 {
                match self.cell_view(row, column - 1) {
                    Some(leader) => if leader.wide() { Some(leader) } else { Some(cell) },
                    None => None,
                }
            } else {
                Some(cell)
            },
            None => None,
        }
    }

    pub fn cell(&self, row: usize, column: usize) -> (r: Option<&Cell>)
        ensures
            match r {
                Some(cell) => self.cell_view(row as int, column as int) == Some(cell@),
                None => self.cell_view(row as int, column as int) is None,
            },
    {
        proof {
            assert(0 <= row * self.columns) by (nonlinear_arith);
            assert(self.cells.len() == self.cells@.len());
        }
        let start: usize = match row.checked_mul(self.columns) {
            Some(start) => start,
            None => {
                return None;
            },
        };
        let index: usize = match start.checked_add(column) {
            Some(index) => index,
            None => {
                return None;
            },
        };
        if index < self.cells.len() {
            Some(&self.cells[index])
        } else {
            None
        }
    }

    pub fn rendered_cell(&self, row: usize, column: usize) -> (r: Option<&Cell>)
        ensures
            match r {
                Some(cell) => self.rendered_view(row as int, column as int) == Some(cell@),
                None => self.rendered_view(row as int, column as int) is None,
            },
    {
        match self.cell(row, column) {
            Some(cell) => {
                if cell.flags.contains(CellFlags::WIDE_CONT) && column > 0 {
                    match self.cell(row, column - 1) {
                        Some(leader) => {
                            if leader.flags.contains(CellFlags::WIDE) {
                                Some(leader)
                            } else {
                                Some(cell)
                            }
                        },
                        None => None,
                    }
                } else {
                    Some(cell)
                }
            },
            None => None,
        }
    }

    /// The copy shows what the viewport shows.
    pub open spec fn shows(self, grid: GridView) -> bool {
        &&& self.columns == grid.cols()
        &&& self.rows == grid.rows()
        &&& self.cells@.len() == grid.rows() * grid.cols()
        &&& forall|row: int, column: int|
            0 <= row < grid.rows() && 0 <= column < grid.cols() ==> #[trigger] self.cell_view(
                row,
                column,
            ) == Some(grid.visible(row, column))
        &&& self.cursor == if grid.modes.cursor_visible && grid.scroll_offset == 0
            && grid.screen_col() is Some {
            Some(
                CursorSnapshot {
                    row: grid.cursor_row as usize,
                    column: grid.screen_col()->0 as usize,
                    shape: grid.modes.cursor_style.shape,
                },
            )
        } else {
            None
        }
        &&& self.input_cursor == (grid.cursor_row as usize, grid.cursor_col as usize)
        &&& self.wrap_pending == grid.wraps_next()
        &&& self.auto_wrap == grid.modes.auto_wrap
    }
}

/// Copy what the viewport shows. The cursor is only part of it where the
/// viewport is at the screen.
pub fn snapshot_grid(grid: &Grid) -> (r: GridSnapshot)
    requires
        grid.wf(),
        grid@.viewport_start() + grid@.rows() <= usize::MAX,
    ensures
        r.shows(grid@),
{
    let columns: usize = grid.cols();
    let rows: usize = grid.rows();
    let mut cells: Vec<Cell> = Vec::new();
    let mut row: usize = 0;
    proof {
        grid.buffer.lemma_shape();
        assert(0 * columns == 0) by (nonlinear_arith);
    }
    while row < rows
        invariant
            grid.wf(),
            row <= rows,
            rows == grid@.rows(),
            columns == grid@.cols(),
            grid@.viewport_start() + grid@.rows() <= usize::MAX,
            cells@.len() == row * columns,
            forall|r: int, c: int|
                0 <= r < row && 0 <= c < columns ==> (#[trigger] cells@[r * columns + c])@
                    == grid@.visible(r, c),
        decreases rows - row,
    {
        let mut column: usize = 0;
        while column < columns
            invariant
                grid.wf(),
                row < rows,
                column <= columns,
                rows == grid@.rows(),
                columns == grid@.cols(),
                grid@.viewport_start() + grid@.rows() <= usize::MAX,
                cells@.len() == row * columns + column,
                forall|r: int, c: int|
                    0 <= r < row && 0 <= c < columns ==> (#[trigger] cells@[r * columns + c])@
                        == grid@.visible(r, c),
                forall|c: int|
                    0 <= c < column ==> (#[trigger] cells@[row * columns + c])@ == grid@.visible(
                        row as int,
                        c,
                    ),
            decreases columns - column,
        {
            let ghost before = cells@;
            cells.push(grid.visible_cell(row, column).clone());
            proof {
                assert forall|r: int, c: int| 0 <= r < row && 0 <= c < columns implies (
                #[trigger] cells@[r * columns + c])@ == grid@.visible(r, c) by {
                    lemma_index_below(r, c, row as int, columns as int);
                    assert(cells@[r * columns + c] == before[r * columns + c]);
                }
            }
            column += 1;
        }
        proof {
            assert((row + 1) * columns == row * columns + columns) by (nonlinear_arith);
            assert forall|r: int, c: int| 0 <= r < row + 1 && 0 <= c < columns implies (
            #[trigger] cells@[r * columns + c])@ == grid@.visible(r, c) by {
                if r == row {
                    assert(cells@[row * columns + c]@ == grid@.visible(row as int, c));
                }
            }
        }
        row += 1;
    }
    let cursor: Option<CursorSnapshot> = if grid.modes.cursor_visible && grid.scroll_offset == 0 {
        match grid.screen_cursor_col() {
            Some(column) => Some(
                CursorSnapshot {
                    row: grid.cursor_row,
                    column,
                    shape: grid.modes.cursor_style.shape,
                },
            ),
            None => None,
        }
    } else {
        None
    };
    let r = GridSnapshot {
        columns,
        rows,
        cells,
        cursor,
        input_cursor: (grid.cursor_row, grid.cursor_col),
        wrap_pending: grid.is_wrap_pending(),
        auto_wrap: grid.modes.auto_wrap,
    };
    proof {
        assert(cells.len() == cells@.len());
        assert forall|row: int, column: int|
            0 <= row < grid@.rows() && 0 <= column < grid@.cols() implies #[trigger] r.cell_view(
            row,
            column,
        ) == Some(grid@.visible(row, column)) by {
            lemma_index_below(row, column, rows as int, columns as int);
            assert(0 <= row * columns) by (nonlinear_arith)
                requires
                    0 <= row,
                    0 <= columns,
            ;
            assert(cells@[row * columns + column]@ == grid@.visible(row, column));
        }
    }
    r
}

/// A cell of an earlier row comes before the start of a later one.
proof fn lemma_index_below(row: int, column: int, later: int, columns: int)
    requires
        0 <= row < later,
        0 <= column < columns,
    ensures
        row * columns + column < later * columns,
{
    assert(row * columns + columns <= later * columns) by (nonlinear_arith)
        requires
            row + 1 <= later,
            0 <= columns,
    ;
}

} // verus!
