//! What cursor movement does, place by place.
use crate::grid::scroll::law_scroll_frame;
use crate::grid::terminal::GridView;
use vstd::prelude::*;

verus! {

/// Two states differ in the place of the cursor alone.
pub open spec fn cursor_moved_only(before: GridView, after: GridView) -> bool {
    &&& after.screen == before.screen
    &&& after.saved_cursor == before.saved_cursor
    &&& after.scroll_top == before.scroll_top
    &&& after.scroll_bottom == before.scroll_bottom
    &&& after.pen == before.pen
    &&& after.dirty == before.dirty
    &&& after.history == before.history
    &&& after.scroll_offset == before.scroll_offset
    &&& after.total_lines == before.total_lines
    &&& after.using_alt_screen == before.using_alt_screen
    &&& after.hidden == before.hidden
    &&& after.modes == before.modes
    &&& after.session == before.session
    &&& after.revisions == before.revisions
    &&& after.images == before.images
}

/// The cursor stands on a cell and no wrap is pending.
pub open spec fn cursor_on_cell(grid: GridView) -> bool {
    &&& grid.valid()
    &&& 0 <= grid.cursor_col < grid.screen.cols
    &&& !grid.wrap_pending
}

/// A move up or down changes the row by as much as it is told and stops at the
/// first or the last row. A wrap that was pending is forgotten: the cursor then
/// stands in the last column.
pub proof fn law_vertical_moves(grid: GridView, n: int)
    requires
        grid.valid(),
        0 <= n,
    ensures
        n <= grid.cursor_row ==> grid.moved_up(n).cursor_row + n == grid.cursor_row,
        n > grid.cursor_row ==> grid.moved_up(n).cursor_row == 0,
        grid.cursor_row + n < grid.screen.rows.len() ==> grid.moved_down(n).cursor_row
            == grid.cursor_row + n,
        grid.cursor_row + n >= grid.screen.rows.len() ==> grid.moved_down(n).cursor_row + 1
            == grid.screen.rows.len(),
        grid.cursor_col < grid.screen.cols ==> grid.moved_up(n).cursor_col == grid.cursor_col
            && grid.moved_down(n).cursor_col == grid.cursor_col,
        grid.cursor_col >= grid.screen.cols ==> grid.moved_up(n).cursor_col + 1 == grid.screen.cols
            && grid.moved_down(n).cursor_col + 1 == grid.screen.cols,
        !grid.moved_up(n).wrap_pending,
        !grid.moved_down(n).wrap_pending,
        cursor_moved_only(grid, grid.moved_up(n)),
        cursor_moved_only(grid, grid.moved_down(n)),
{
}

/// A move to the right or the left changes the column by as much as it is told
/// and stops at the last or the first column.
pub proof fn law_horizontal_moves(grid: GridView, n: int)
    requires
        grid.valid(),
        0 <= grid.cursor_col,
        0 <= n,
    ensures
        grid.cursor_col + n < grid.screen.cols ==> grid.moved_forward(n).cursor_col
            == grid.cursor_col + n,
        grid.cursor_col + n >= grid.screen.cols ==> grid.moved_forward(n).cursor_col + 1
            == grid.screen.cols,
        n <= grid.cursor_col < grid.screen.cols ==> grid.moved_backward(n).cursor_col + n
            == grid.cursor_col,
        grid.cursor_col >= grid.screen.cols > n ==> grid.moved_backward(n).cursor_col + n + 1
            == grid.screen.cols,
        n > grid.cursor_col ==> grid.moved_backward(n).cursor_col == 0,
        n >= grid.screen.cols ==> grid.moved_backward(n).cursor_col == 0,
        grid.moved_forward(n).cursor_row == grid.cursor_row,
        grid.moved_backward(n).cursor_row == grid.cursor_row,
        !grid.moved_forward(n).wrap_pending,
        !grid.moved_backward(n).wrap_pending,
        cursor_moved_only(grid, grid.moved_forward(n)),
        cursor_moved_only(grid, grid.moved_backward(n)),
{
}

/// Opposite moves undo each other wherever the margins do not stop them.
pub proof fn law_opposite_moves(grid: GridView, n: int)
    requires
        cursor_on_cell(grid),
        0 <= n,
    ensures
        n <= grid.cursor_row ==> grid.moved_up(n).moved_down(n) == grid,
        grid.cursor_row + n < grid.screen.rows.len() ==> grid.moved_down(n).moved_up(n) == grid,
        n <= grid.cursor_col ==> grid.moved_backward(n).moved_forward(n) == grid,
        grid.cursor_col + n < grid.screen.cols ==> grid.moved_forward(n).moved_backward(n) == grid,
{
}

/// Two moves in one direction are one move by the sum.
pub proof fn law_moves_add(grid: GridView, m: int, n: int)
    requires
        grid.valid(),
        0 <= grid.cursor_col,
        0 <= m,
        0 <= n,
    ensures
        grid.moved_up(m).moved_up(n) == grid.moved_up(m + n),
        grid.moved_down(m).moved_down(n) == grid.moved_down(m + n),
        grid.moved_forward(m).moved_forward(n) == grid.moved_forward(m + n),
        grid.moved_backward(m).moved_backward(n) == grid.moved_backward(m + n),
{
}

/// A place on the screen is reached exactly; one outside it is limited to the
/// last row and the last column, each for itself.
pub proof fn law_cursor_placement(grid: GridView, row: int, col: int)
    requires
        grid.valid(),
        0 <= row,
        0 <= col,
    ensures
        row < grid.screen.rows.len() ==> grid.with_cursor(row, col).cursor_row == row,
        row >= grid.screen.rows.len() ==> grid.with_cursor(row, col).cursor_row + 1
            == grid.screen.rows.len(),
        col < grid.screen.cols ==> grid.with_cursor(row, col).cursor_col == col,
        col >= grid.screen.cols ==> grid.with_cursor(row, col).cursor_col + 1 == grid.screen.cols,
        !grid.with_cursor(row, col).wrap_pending,
        cursor_moved_only(grid, grid.with_cursor(row, col)),
{
}

/// A carriage return goes to the first column of the same row, and a backspace
/// one column to the left, if there is one; from behind the last column it goes
/// to the last column but one.
pub proof fn law_line_controls(grid: GridView)
    requires
        grid.valid(),
        0 <= grid.cursor_col,
    ensures
        grid.at_line_start().cursor_col == 0,
        grid.at_line_start().cursor_row == grid.cursor_row,
        !grid.at_line_start().wrap_pending,
        cursor_moved_only(grid, grid.at_line_start()),
        0 < grid.cursor_col < grid.screen.cols ==> grid.backspaced().cursor_col + 1
            == grid.cursor_col,
        grid.cursor_col == 0 ==> grid.backspaced().cursor_col == 0,
        grid.cursor_col >= grid.screen.cols > 1 ==> grid.backspaced().cursor_col + 2
            == grid.screen.cols,
        grid.screen.cols == 1 ==> grid.backspaced().cursor_col == 0,
        grid.backspaced().cursor_row == grid.cursor_row,
        !grid.backspaced().wrap_pending,
        cursor_moved_only(grid, grid.backspaced()),
{
}

/// A tab goes to the next multiple of eight, the nearest one to the right, or to
/// the last column where there is none before it. Behind the last column it does
/// nothing.
pub proof fn law_tab_stops(grid: GridView)
    requires
        grid.valid(),
        0 <= grid.cursor_col,
    ensures
        ({
            let col = grid.tabbed().cursor_col;
            let last = grid.screen.cols - 1;
            &&& grid.cursor_col >= grid.screen.cols ==> grid.tabbed() == grid
            &&& grid.cursor_col < last ==> grid.cursor_col < col <= last
            &&& grid.cursor_col == last ==> col == last
            &&& grid.cursor_col < grid.screen.cols ==> col % 8 == 0 || col == last
            &&& forall|stop: int|
                #![trigger (stop % 8)]
                grid.cursor_col < stop < col ==> stop % 8 != 0
            &&& grid.tabbed().cursor_row == grid.cursor_row
            &&& grid.tabbed().wrap_pending == grid.wrap_pending
            &&& cursor_moved_only(grid, grid.tabbed())
        }),
{
}

/// A scroll region of at least two rows is taken as given, limited to the last
/// row, and moves the cursor home. Any other region is refused.
pub proof fn law_scroll_regions(grid: GridView, top: int, bottom: int)
    requires
        grid.valid(),
        0 <= top,
        0 <= bottom,
    ensures
        ({
            let next = grid.with_region(top, bottom);
            let last = grid.screen.rows.len() - 1;
            &&& top < bottom <= last ==> next.scroll_top == top && next.scroll_bottom == bottom
            &&& top < last < bottom ==> next.scroll_top == top && next.scroll_bottom == last
            &&& top < bottom && top < last ==> next.cursor_row == 0 && next.cursor_col == 0
            &&& top >= bottom || top >= last ==> {
                &&& next.scroll_top == grid.scroll_top
                &&& next.scroll_bottom == grid.scroll_bottom
                &&& next.cursor_row == grid.cursor_row
                &&& grid.cursor_col < grid.screen.cols ==> next.cursor_col == grid.cursor_col
                &&& grid.cursor_col >= grid.screen.cols ==> next.cursor_col + 1 == grid.screen.cols
            }
            &&& !next.wrap_pending
            &&& next.screen == grid.screen
            &&& next.pen == grid.pen
            &&& next.modes == grid.modes
            &&& next.history == grid.history
            &&& next.total_lines == grid.total_lines
            &&& next.saved_cursor == grid.saved_cursor
            &&& next.dirty == grid.dirty
        }),
{
}

/// A line feed goes down one row and stays in its column. At the bottom of the
/// scroll region it moves the region up by one row instead; below the region it
/// stops in the last row. The line that it leaves ends there.
pub proof fn law_line_feeds(grid: GridView)
    requires
        grid.valid(),
        0 <= grid.cursor_col,
    ensures
        ({
            let next = grid.after_newline();
            let last = grid.screen.rows.len() - 1;
            let row = grid.cursor_row;
            &&& row != grid.scroll_bottom && row < last ==> next.cursor_row == row + 1
            &&& row != grid.scroll_bottom && row == last ==> next.cursor_row == last
            &&& row == grid.scroll_bottom ==> next.cursor_row == row
            &&& grid.cursor_col < grid.screen.cols ==> next.cursor_col == grid.cursor_col
            &&& grid.cursor_col >= grid.screen.cols ==> next.cursor_col + 1 == grid.screen.cols
            &&& !next.wrap_pending
            &&& row != grid.scroll_bottom ==> {
                &&& next.screen.cols == grid.screen.cols
                &&& next.screen.rows.len() == grid.screen.rows.len()
                &&& forall|r: int, c: int|
                    0 <= r < grid.screen.rows.len() && 0 <= c < grid.screen.cols
                        ==> #[trigger] next.screen.rows[r].cells[c] == grid.screen.rows[r].cells[c]
                &&& forall|r: int|
                    0 <= r < grid.screen.rows.len() ==> (#[trigger] next.screen.rows[r]).metadata.len
                        == grid.screen.rows[r].metadata.len
                &&& forall|r: int|
                    0 <= r < grid.screen.rows.len() && r != row ==> #[trigger] next.screen.rows[r]
                        == grid.screen.rows[r]
                &&& !next.screen.rows[row].metadata.wrapped
                &&& next.history == grid.history
                &&& next.total_lines == grid.total_lines
            }
            &&& row == grid.scroll_bottom && grid.history.tail.len() == 0 ==> {
                &&& forall|r: int|
                    grid.scroll_top <= r < grid.scroll_bottom - 1 ==> #[trigger] next.screen.rows[r]
                        == grid.screen.rows[r + 1]
                &&& forall|r: int|
                    0 <= r < grid.scroll_top || grid.scroll_bottom < r <= last
                        ==> #[trigger] next.screen.rows[r] == grid.screen.rows[r]
                &&& grid.scroll_top < grid.scroll_bottom ==> next.screen.rows[row - 1].cells
                    == grid.screen.rows[row].cells && !next.screen.rows[row - 1].metadata.wrapped
                &&& next.screen.rows[row].metadata.len == 0
                &&& forall|c: int|
                    0 <= c < grid.screen.cols ==> {
                        let cell = #[trigger] next.screen.rows[row].cells[c];
                        &&& cell.c == ' '
                        &&& cell.text is None
                        &&& cell.flags.bits == 0
                        &&& cell.bg == grid.pen.bg
                    }
            }
            &&& row == grid.scroll_bottom && !grid.using_alt_screen && grid.scroll_top == 0
                && grid.scroll_bottom == last ==> next.total_lines == grid.total_lines + 1
            &&& row == grid.scroll_bottom && (grid.using_alt_screen || grid.scroll_top > 0
                || grid.scroll_bottom < last) ==> next.total_lines == grid.total_lines
        }),
{
    reveal(GridView::line_advanced);
    reveal(GridView::scrolled_up);
    reveal(GridView::with_lines_gone);
    reveal(GridView::with_scrolled_images);
    reveal(GridView::with_revealed_tail);
    let fed = grid.with_line_wrapped(false).unwrapped();
    law_scroll_frame(fed, 1);
    assert(grid.screen.rows[grid.cursor_row].cells.len() == grid.cols());
}

/// A pending wrap goes to the first column of the next row, by the rules of a
/// line feed, and the line that it leaves goes on there.
pub proof fn law_soft_wraps(grid: GridView)
    requires
        grid.valid(),
        0 <= grid.cursor_col,
    ensures
        ({
            let next = grid.soft_wrapped();
            let row = grid.cursor_row;
            let last = grid.screen.rows.len() - 1;
            &&& next.cursor_col == 0
            &&& !next.wrap_pending
            &&& row != grid.scroll_bottom && row < last ==> next.cursor_row == row + 1
                && next.screen.rows[row].metadata.wrapped && next.screen.rows[row].cells
                == grid.screen.rows[row].cells && next.screen.rows[row].metadata.len
                == grid.screen.rows[row].metadata.len
            &&& row == grid.scroll_bottom ==> next.cursor_row == row
            &&& row == grid.scroll_bottom && grid.scroll_top < row ==> next.screen.rows[row
                - 1].metadata.wrapped && next.screen.rows[row - 1].cells
                == grid.screen.rows[row].cells
            &&& row != grid.scroll_bottom && row == last ==> next.cursor_row == last
            &&& row != grid.scroll_bottom ==> forall|r: int|
                0 <= r <= last && r != row ==> #[trigger] next.screen.rows[r]
                    == grid.screen.rows[r]
        }),
{
    reveal(GridView::line_advanced);
    reveal(GridView::scrolled_up);
    reveal(GridView::with_lines_gone);
    reveal(GridView::with_scrolled_images);
    reveal(GridView::with_revealed_tail);
    let fed = grid.with_line_wrapped(true).at_line_start().unwrapped();
    law_scroll_frame(fed, 1);
    assert(grid.screen.rows[grid.cursor_row].cells.len() == grid.cols());
}

/// Passing an image moves right by its columns and down by its rows.
pub proof fn law_passing_an_image(grid: GridView, cols: int, rows: int)
    requires
        cursor_on_cell(grid),
        0 <= cols,
        0 <= rows,
        grid.cursor_row + rows <= grid.scroll_bottom,
    ensures
        ({
            let next = grid.image_passed(cols, rows);
            &&& next.cursor_row == grid.cursor_row + rows
            &&& grid.cursor_col + cols < grid.screen.cols ==> next.cursor_col == grid.cursor_col
                + cols
            &&& grid.cursor_col + cols >= grid.screen.cols ==> next.cursor_col + 1
                == grid.screen.cols
            &&& next.valid()
            &&& next.screen.cols == grid.screen.cols
            &&& next.scroll_bottom == grid.scroll_bottom
            &&& next.screen.rows.len() == grid.screen.rows.len()
            &&& next.total_lines == grid.total_lines
        }),
    decreases rows,
{
    if rows > 0 {
        law_passing_an_image(grid, cols, rows - 1);
        let before = grid.image_passed(cols, rows - 1);
        law_line_feeds(before);
        let next = before.after_newline();
        assert(next == before.with_line_wrapped(false).line_advanced());
        crate::grid::cursor::lemma_line_advanced_frame(before.with_line_wrapped(false));
        reveal(GridView::line_advanced);
        assert forall|r: int| 0 <= r < next.screen.rows.len() implies (
        #[trigger] next.screen.rows[r]).cells.len() == next.screen.cols by {
            assert(before.screen.rows[r].cells.len() == before.screen.cols);
        }
    }
}

/// Saving keeps row, column and pending wrap of the cursor and nothing else.
pub proof fn law_saving_the_cursor(grid: GridView)
    requires
        grid.valid(),
        0 <= grid.cursor_col,
    ensures
        ({
            let saved = grid.with_saved_cursor().saved_cursor;
            &&& saved.row == grid.cursor_row
            &&& grid.cursor_col < grid.screen.cols ==> saved.col == grid.cursor_col
            &&& grid.cursor_col >= grid.screen.cols ==> saved.col + 1 == grid.screen.cols
            &&& saved.pending == (grid.wrap_pending || grid.cursor_col == grid.screen.cols)
            &&& saved.retained_row is None
            &&& grid.with_saved_cursor() == GridView { saved_cursor: saved, ..grid }
        }),
{
}

} // verus!
