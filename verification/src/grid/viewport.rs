//! Reading the screen and the rows around it, and moving the viewport.
use crate::grid::buffer::RowMetadata;
use crate::grid::cell::{Cell, CellFlags, CellView};
use crate::grid::history::HistoryRow;
use crate::grid::resize::retained;
use crate::grid::terminal::{Grid, GridView};
use vstd::prelude::*;

verus! {

/// A history cell on a screen of `cols` columns. Half a glyph whose other half
/// is cut off is shown as a blank.
pub open spec fn projected(cells: Seq<CellView>, cols: int, col: int) -> CellView {
    let cell = cells[col];
    let leads = !cell.wide() || cols == 1 || (col + 1 < cols && col + 1 < cells.len() && cells[col
        + 1].continuation());
    let follows = !cell.continuation() || (col > 0 && cells[col - 1].wide());
    if col < cols && col < cells.len() && leads && follows {
        cell
    } else {
        CellView::default_cell()
    }
}

impl GridView {
    /// The first retained row of the viewport.
    pub open spec fn viewport_start(self) -> int {
        let above = self.history.rows.len() as int;
        if above > self.scroll_offset { above - self.scroll_offset } else { 0 }
    }

    /// The cell that the viewport shows.
    pub open spec fn visible(self, row: int, col: int) -> CellView {
        let above = self.history.rows.len() as int;
        let at = self.viewport_start() + row;
        if self.scroll_offset == 0 {
            self.screen.cell(row, col)
        } else if at < above {
            projected(self.history.rows[at].cells, self.cols(), col)
        } else if at - above < self.rows() {
            self.screen.cell(at - above, col)
        } else {
            CellView::default_cell()
        }
    }

    /// A row of the viewport shows a row of the screen.
    pub open spec fn shows_screen_at(self, row: int) -> bool {
        let above = self.history.rows.len();
        self.scroll_offset == 0 || above <= self.viewport_start() + row < above + self.rows()
    }

    /// The metadata of a retained row.
    pub open spec fn retained_metadata(self, row: int) -> RowMetadata {
        let all = retained(self.history, self.screen);
        if 0 <= row < all.len() {
            all[row].metadata
        } else {
            RowMetadata { len: 0, wrapped: false }
        }
    }

    /// The cell of a retained row.
    pub open spec fn retained_cell(self, row: int, col: int) -> CellView {
        let above = self.history.rows.len() as int;
        let below = row - above - self.rows();
        if row < above {
            projected(self.history.rows[row].cells, self.cols(), col)
        } else if row - above < self.rows() {
            self.screen.cell(row - above, col)
        } else if below < self.history.tail.len() && col < self.history.tail[below].cells.len() {
            self.history.tail[below].cells[col]
        } else {
            CellView::default_cell()
        }
    }

    pub open spec fn with_scroll_offset(self, offset: int) -> GridView {
        GridView { scroll_offset: offset, ..self.all_dirty() }
    }
}

/// With the viewport at the end every row shows the screen, and scrolling it up
/// shows the rows of the history in their order.
pub proof fn law_viewport_is_a_window(grid: GridView, row: int, col: int)
    requires
        grid.valid(),
        0 <= row < grid.rows(),
        0 <= col < grid.cols(),
        0 <= grid.scroll_offset <= grid.history.rows.len(),
    ensures
        grid.visible(row, col) == grid.retained_cell(
            grid.history.rows.len() - grid.scroll_offset + row,
            col,
        ),
{
}

impl Grid {
    pub fn scrollback_len(&self) -> (r: usize)
        ensures
            r == self@.history.rows.len(),
    {
        self.history.len()
    }

    pub fn scrollback_max(&self) -> (r: usize)
        ensures
            r == self@.history.line_budget,
    {
        self.history.max_lines
    }

    /// The number of rows above, on and below the screen.
    pub fn retained_rows(&self) -> (r: usize)
        requires
            self@.history.rows.len() + self@.rows() + self@.history.tail.len() <= usize::MAX,
        ensures
            r == retained(self@.history, self@.screen).len(),
    {
        self.history.len() + self.rows() + self.history.tail.len()
    }

    fn retained_row_metadata(&self, row: usize) -> (r: RowMetadata)
        requires
            self.wf(),
        ensures
            r == self@.retained_metadata(row as int),
    {
        let above: usize = self.history.len();
        let rows: usize = self.rows();
        if row < above {
            self.history.metadata[row]
        } else if row - above < rows {
            self.buffer.row_metadata(row - above)
        } else {
            let below: usize = row - above - rows;
            if below < self.history.tail.len() {
                self.history.tail[below].metadata
            } else {
                RowMetadata::default()
            }
        }
    }

    pub fn retained_row_wrapped(&self, row: usize) -> (r: bool)
        requires
            self.wf(),
        ensures
            r == self@.retained_metadata(row as int).wrapped,
    {
        self.retained_row_metadata(row).wrapped
    }

    pub fn retained_row_len(&self, row: usize) -> (r: usize)
        requires
            self.wf(),
        ensures
            r == self@.retained_metadata(row as int).len,
    {
        self.retained_row_metadata(row).len
    }

    /// A history cell as the screen would show it.
    fn project_scrollback_cell<'a>(&'a self, row: &'a HistoryRow, col: usize) -> (r: &'a Cell)
        requires
            self.wf(),
        ensures
            r@ == projected(row@, self@.cols(), col as int),
    {
        let cols: usize = self.cols();
        if col >= cols || col >= row.len() {
            return &self.blank;
        }
        match row.get(col) {
            Some(cell) => {
                let leads: bool = !cell.flags.contains(CellFlags::WIDE) || cols == 1 || (col + 1
                    < cols && is_continuation(row.get(col + 1)));
                let follows: bool = !cell.flags.contains(CellFlags::WIDE_CONT) || (col > 0
                    && is_leader(row.get(col - 1)));
                if leads && follows {
                    cell
                } else {
                    &self.blank
                }
            },
            None => &self.blank,
        }
    }

    /// A history cell, blank outside the history.
    pub fn scrollback_cell_data(&self, row: usize, col: usize) -> (r: &Cell)
        requires
            self.wf(),
        ensures
            r@ == if row < self@.history.rows.len() {
                projected(self@.history.rows[row as int].cells, self@.cols(), col as int)
            } else {
                CellView::default_cell()
            },
    {
        if row < self.history.len() {
            self.project_scrollback_cell(&self.history.scrollback[row], col)
        } else {
            &self.blank
        }
    }

    pub fn scrollback_cell(&self, row: usize, col: usize) -> (r: char)
        requires
            self.wf(),
        ensures
            r == if row < self@.history.rows.len() {
                projected(self@.history.rows[row as int].cells, self@.cols(), col as int).c
            } else {
                ' '
            },
    {
        self.scrollback_cell_data(row, col).c
    }

    pub fn retained_cell_data(&self, row: usize, col: usize) -> (r: &Cell)
        requires
            self.wf(),
            self@.history.rows.len() <= row < self@.history.rows.len() + self@.rows() ==> col
                < self@.cols(),
        ensures
            r@ == self@.retained_cell(row as int, col as int),
    {
        let above: usize = self.history.len();
        let rows: usize = self.rows();
        if row < above {
            self.scrollback_cell_data(row, col)
        } else if row - above < rows {
            self.buffer.cell(row - above, col)
        } else {
            let below: usize = row - above - rows;
            if below < self.history.tail.len() && col < self.history.tail[below].cells.len() {
                &self.history.tail[below].cells[col]
            } else {
                &self.blank
            }
        }
    }

    /// The cell that the viewport shows. Only rows of the screen itself have no
    /// cell beyond the last column.
    pub fn visible_cell(&self, vis_row: usize, col: usize) -> (r: &Cell)
        requires
            self.wf(),
            self@.viewport_start() + vis_row <= usize::MAX,
            self@.scroll_offset == 0 ==> vis_row < self@.rows(),
            self@.shows_screen_at(vis_row as int) ==> col < self@.cols(),
        ensures
            r@ == self@.visible(vis_row as int, col as int),
    {
        if self.scroll_offset == 0 {
            return self.buffer.cell(vis_row, col);
        }
        let above: usize = self.history.len();
        let at: usize = above.saturating_sub(self.scroll_offset) + vis_row;
        if at < above {
            self.project_scrollback_cell(&self.history.scrollback[at], col)
        } else {
            let row: usize = at - above;
            if row < self.rows() {
                self.buffer.cell(row, col)
            } else {
                &self.blank
            }
        }
    }

    pub fn scroll_viewport_up(&mut self, lines: usize)
        requires
            old(self).wf(),
        ensures
            final(self).wf(),
            final(self)@ == old(self)@.viewport_up(lines as int),
    {
        let max: usize = self.history.len();
        let offset: usize = self.scroll_offset;
        self.mark_all_dirty();
        self.scroll_offset = if offset < max && lines < max - offset {
            offset + lines
        } else {
            max
        };
    }

    pub fn scroll_viewport_down(&mut self, lines: usize)
        requires
            old(self).wf(),
        ensures
            final(self).wf(),
            final(self)@ == old(self)@.viewport_down(lines as int),
    {
        let offset: usize = self.scroll_offset.saturating_sub(lines);
        self.mark_all_dirty();
        self.scroll_offset = offset;
    }

    pub fn scroll_to_bottom(&mut self)
        requires
            old(self).wf(),
        ensures
            final(self).wf(),
            final(self)@ == old(self)@.viewport_home(),
    {
        if self.scroll_offset != 0 {
            self.mark_all_dirty();
            self.scroll_offset = 0;
        }
    }
}

fn is_continuation(cell: Option<&Cell>) -> (r: bool)
    ensures
        r == (cell is Some && cell->0@.continuation()),
{
    match cell {
        Some(cell) => cell.flags.contains(CellFlags::WIDE_CONT),
        None => false,
    }
}

fn is_leader(cell: Option<&Cell>) -> (r: bool)
    ensures
        r == (cell is Some && cell->0@.wide()),
{
    match cell {
        Some(cell) => cell.flags.contains(CellFlags::WIDE),
        None => false,
    }
}

} // verus!
