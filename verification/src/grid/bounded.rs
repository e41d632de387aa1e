//! Output never makes the history exceed its budget.
use crate::grid::cell::{clamp_columns, natural_columns, text_columns, CellFlags, CellView};
use crate::grid::cursor::least;
use crate::grid::retention::{law_history_is_bounded, within_budget};
use crate::grid::scroll::leaving_rows;
use crate::grid::terminal::GridView;
use crate::grid::write::scalar_advance;
use vstd::prelude::*;

verus! {

impl GridView {
    /// The history is within its budget.
    pub open spec fn history_bounded(self) -> bool {
        &&& self.history.line_budget >= 0
        &&& self.history.cell_budget >= 0
        &&& within_budget(self.history.rows, self.history.line_budget, self.history.cell_budget)
    }
}

/// A scroll keeps the history within its budget. Where rows enter the history,
/// it comes back into its budget even if it was not in it, as after a resize.
pub proof fn law_scrolling_bounds_history(grid: GridView, count: int)
    requires
        grid.history.line_budget >= 0,
        grid.history.cell_budget >= 0,
        0 <= count,
        grid.scroll_top <= grid.scroll_bottom,
        grid.history_bounded() || (grid.saves_lines() && count > 0),
    ensures
        grid.scrolled_up(count).history_bounded(),
{
    reveal(GridView::scrolled_up);
    reveal(GridView::with_lines_gone);
    reveal(GridView::with_scrolled_images);
    reveal(GridView::with_revealed_tail);
    let distance = grid.scroll_distance(count);
    if grid.saves_lines() {
        law_history_is_bounded(
            grid.history.rows,
            leaving_rows(grid.screen, distance),
            grid.history.line_budget,
            grid.history.cell_budget,
        );
    }
}

/// Line feeds and wraps keep the history within its budget.
pub proof fn law_line_feeds_bound_history(grid: GridView)
    requires
        grid.valid(),
        grid.history_bounded(),
    ensures
        grid.after_newline().history_bounded(),
        grid.soft_wrapped().history_bounded(),
{
    reveal(GridView::line_advanced);
    let fed = grid.with_line_wrapped(false);
    law_scrolling_bounds_history(fed.unwrapped(), 1);
    let wrapped = grid.with_line_wrapped(true).at_line_start();
    law_scrolling_bounds_history(wrapped.unwrapped(), 1);
}

proof fn lemma_written_history(grid: GridView, c: char, width: Option<usize>)
    ensures
        grid.with_scalar(c, width).history == grid.history,
{
    reveal(GridView::with_scalar);
}

proof fn lemma_cluster_history(
    grid: GridView,
    col: int,
    cell: CellView,
    old_width: int,
    new_width: int,
)
    ensures
        grid.with_cluster(cell, new_width).history == grid.history,
        grid.with_glyph_replaced(col, cell, old_width, new_width).history == grid.history,
{
    reveal(GridView::with_cluster);
    reveal(GridView::with_glyph_replaced);
}

/// However much is written, wrapped or not, the history stays within its line
/// and cell budgets.
pub proof fn law_writing_bounds_history(grid: GridView, c: char)
    requires
        grid.valid(),
        grid.history_bounded(),
        grid.cursor_placed(),
        0 <= grid.cursor_col,
    ensures
        grid.char_written(c).history_bounded(),
{
    reveal(GridView::char_written);
    law_line_feeds_bound_history(grid);
    let scalar = grid.charset_scalar(c);
    if grid.joins(scalar) {
        let col = grid.previous_glyph();
        let previous = grid.screen.cell(grid.cursor_row, col);
        let natural = clamp_columns(text_columns(previous.scalars().push(scalar)) as int);
        let cell = grid.joined_cell(scalar, natural);
        let old_width: int = if previous.wide() && col + 1 < grid.cols() { 2 } else { 1 };
        let new_width = least(natural, grid.cols());
        let removed = grid.with_glyph_removed(col);
        assert(grid.screen.rows[grid.cursor_row].cells.len() == grid.cols());
        assert(removed.valid()) by {
            assert forall|r: int| 0 <= r < removed.screen.rows.len() implies (
            #[trigger] removed.screen.rows[r]).cells.len() == grid.cols() by {
                assert(grid.screen.rows[r].cells.len() == grid.cols());
            }
        }
        law_line_feeds_bound_history(removed);
        lemma_cluster_history(removed.soft_wrapped(), col, cell, old_width, new_width);
        let fitting = least(new_width, grid.cols() - col);
        let narrow = CellView { flags: cell.flags.without(CellFlags::WIDE), ..cell };
        lemma_cluster_history(grid, col, cell, old_width, fitting);
        lemma_cluster_history(grid, col, narrow, old_width, fitting);
    } else {
        let width = natural_columns(scalar);
        let ready = grid.settled();
        lemma_written_history(ready, scalar, width);
        lemma_written_history(grid.soft_wrapped(), scalar, width);
        if scalar_advance(width, grid.cols()) == 2 && ready.cursor_col == grid.cols() - 1
            && grid.modes.auto_wrap {
            crate::grid::write::lemma_soft_wrap_frame(grid);
            assert(ready == grid);
        }
    }
}

} // verus!
