//! What erasing, inserting and deleting do, cell by cell.
use crate::graphics::ImagePlacement;
use crate::grid::buffer::{lemma_content_end, RowView};
use crate::grid::cell::{CellFlags, CellView, Color, UnderlineStyle};
use crate::grid::edit::{closed_row, erased_row, opened_row, placements_above};
use crate::grid::print_laws::without_halves;
use crate::grid::terminal::{GridView, Pen};
use crate::grid::wide::lemma_half_flags;
use vstd::prelude::*;

verus! {

/// A cell is blank in the colors of a pen, without attributes.
pub open spec fn blank_of(cell: CellView, pen: Pen) -> bool {
    &&& cell.c == ' '
    &&& cell.text is None
    &&& cell.fg == pen.fg
    &&& cell.bg == pen.bg
    &&& cell.flags.bits == 0
    &&& cell.underline_style == UnderlineStyle::Off
    &&& cell.underline_color == Color::Default
}

/// A whole row is blank and nothing was written in it.
pub open spec fn blank_row(row: RowView, cols: int, pen: Pen) -> bool {
    &&& row.cells.len() == cols
    &&& forall|c: int| 0 <= c < cols ==> blank_of(#[trigger] row.cells[c], pen)
    &&& row.metadata.len == 0
    &&& !row.metadata.wrapped
}

/// The column of the cursor after a pending wrap is forgotten.
pub open spec fn column_on_screen(grid: GridView) -> int {
    if grid.cursor_col >= grid.screen.cols { grid.screen.cols - 1 } else { grid.cursor_col }
}

/// An edit of the cursor row that leaves the other rows and the rest of the
/// terminal alone, and forgets a pending wrap.
pub open spec fn edits_cursor_row(before: GridView, after: GridView) -> bool {
    &&& after.screen.cols == before.screen.cols
    &&& after.screen.rows.len() == before.screen.rows.len()
    &&& after.screen.rows[before.cursor_row].cells.len() == before.screen.cols
    &&& forall|r: int|
        0 <= r < before.screen.rows.len() && r != before.cursor_row
            ==> #[trigger] after.screen.rows[r] == before.screen.rows[r]
    &&& after.cursor_row == before.cursor_row
    &&& after.cursor_col == column_on_screen(before)
    &&& !after.wrap_pending
    &&& after.dirty.len() == before.dirty.len()
    &&& forall|r: int|
        0 <= r < before.dirty.len() && r != before.cursor_row ==> #[trigger] after.dirty[r]
            == before.dirty[r]
    &&& after == GridView {
        screen: after.screen,
        cursor_col: after.cursor_col,
        wrap_pending: after.wrap_pending,
        dirty: after.dirty,
        ..before
    }
}

/// The content of a row reaches to its recorded length or to the last cell that
/// shows more than a space, whichever is further right.
pub proof fn law_content_reaches(row: RowView)
    requires
        row.metadata.len <= row.cells.len(),
    ensures
        row.metadata.len <= row.content_len() <= row.cells.len(),
        forall|i: int|
            row.content_len() <= i < row.cells.len() ==> (#[trigger] row.cells[i]).c == ' ',
        row.content_len() > row.metadata.len ==> row.cells[row.content_len() - 1].c != ' ',
{
    lemma_content_end(row.cells);
}

/// Columns `start..end` of a row are erased and no other cell changes, in a row
/// without two-column glyphs. A row erased to the end of its content is as long
/// as what is left of it, and its line ends there; any other keeps its length.
pub open spec fn columns_erased(
    before: RowView,
    after: RowView,
    start: int,
    end: int,
    pen: Pen,
) -> bool {
    &&& after.cells.len() == before.cells.len()
    &&& forall|i: int| start <= i < end ==> blank_of(#[trigger] after.cells[i], pen)
    &&& without_halves(before.cells) ==> forall|i: int|
        0 <= i < start || end <= i < before.cells.len() ==> #[trigger] after.cells[i]
            == before.cells[i]
    &&& end >= before.content_len() ==> {
        &&& !after.metadata.wrapped
        &&& before.content_len() <= start ==> after.metadata.len == before.content_len()
        &&& before.content_len() > start ==> after.metadata.len == start
    }
    &&& end < before.content_len() ==> after.metadata == before.metadata
}

proof fn lemma_erased(row: RowView, start: int, end: int, pen: Pen)
    requires
        0 <= start < end <= row.cells.len() <= usize::MAX,
        row.metadata.len <= row.cells.len(),
    ensures
        columns_erased(row, erased_row(row, start, end, pen.blank()), start, end, pen),
{
    reveal(erased_row);
    law_content_reaches(row);
    lemma_half_flags(CellFlags { bits: 0 });
    let after = erased_row(row, start, end, pen.blank());
    if without_halves(row.cells) {
        assert forall|i: int| 0 <= i < start || end <= i < row.cells.len() implies
        #[trigger] after.cells[i] == row.cells[i] by {
            assert(!row.cells[i].flags.has(CellFlags::WIDE));
            assert(!row.cells[i].flags.has(CellFlags::WIDE_CONT));
            if i + 1 < row.cells.len() {
                assert(!row.cells[i + 1].flags.has(CellFlags::WIDE_CONT));
            }
            if i > 0 {
                assert(!row.cells[i - 1].flags.has(CellFlags::WIDE));
            }
        }
    }
}

/// Erasing in a line: mode 0 from the cursor to the end, mode 1 from the start
/// through the cursor, mode 2 all of it, any other mode nothing.
pub proof fn law_erasing_in_a_line(grid: GridView, mode: u16)
    requires
        grid.valid(),
        0 <= grid.cursor_col,
        grid.screen.rows[grid.cursor_row].metadata.len <= grid.screen.cols,
    ensures
        ({
            let next = grid.line_erased(mode);
            let row = grid.cursor_row;
            let before = grid.screen.rows[row];
            let after = next.screen.rows[row];
            let col = column_on_screen(grid);
            &&& edits_cursor_row(grid, next)
            &&& mode == 0 ==> columns_erased(before, after, col, grid.screen.cols, grid.pen)
            &&& mode == 1 ==> columns_erased(before, after, 0, col + 1, grid.pen)
            &&& mode == 2 ==> columns_erased(before, after, 0, grid.screen.cols, grid.pen)
            &&& mode > 2 ==> after == before
            &&& mode <= 2 ==> next.dirty[row]
        }),
{
    let row = grid.screen.rows[grid.cursor_row];
    assert(row.cells.len() == grid.screen.cols);
    let col = column_on_screen(grid);
    lemma_erased(row, col, grid.screen.cols, grid.pen);
    lemma_erased(row, 0, col + 1, grid.pen);
    lemma_erased(row, 0, grid.screen.cols, grid.pen);
}

/// Erasing characters blanks as many cells as asked for from the cursor on,
/// up to the margin, and moves nothing.
pub proof fn law_erasing_characters(grid: GridView, count: int)
    requires
        grid.valid(),
        0 <= grid.cursor_col,
        0 <= count,
        grid.screen.rows[grid.cursor_row].metadata.len <= grid.screen.cols,
    ensures
        ({
            let next = grid.chars_erased(count);
            let row = grid.cursor_row;
            let before = grid.screen.rows[row];
            let after = next.screen.rows[row];
            let col = column_on_screen(grid);
            &&& edits_cursor_row(grid, next)
            &&& count == 0 ==> after == before
            &&& 0 < count && col + count <= grid.screen.cols ==> columns_erased(
                before,
                after,
                col,
                col + count,
                grid.pen,
            )
            &&& col + count > grid.screen.cols ==> columns_erased(
                before,
                after,
                col,
                grid.screen.cols,
                grid.pen,
            )
            &&& count > 0 ==> next.dirty[row]
        }),
{
    let row = grid.screen.rows[grid.cursor_row];
    assert(row.cells.len() == grid.screen.cols);
    let col = column_on_screen(grid);
    lemma_erased(row, col, grid.screen.cols, grid.pen);
    if 0 < count && col + count <= grid.screen.cols {
        lemma_erased(row, col, col + count, grid.pen);
    }
}

/// Deleting characters moves the rest of the row left over them and fills up
/// with blanks at the margin, in a row without two-column glyphs.
pub proof fn law_deleting_characters(grid: GridView, count: int)
    requires
        grid.valid(),
        0 <= grid.cursor_col,
        0 <= count,
        grid.screen.rows[grid.cursor_row].metadata.len <= grid.screen.cols,
    ensures
        ({
            let next = grid.chars_deleted(count);
            let row = grid.cursor_row;
            let before = grid.screen.rows[row];
            let after = next.screen.rows[row];
            let col = column_on_screen(grid);
            let len = before.content_len();
            &&& edits_cursor_row(grid, next)
            &&& next.dirty[row]
            &&& without_halves(before.cells) ==> {
                &&& forall|i: int| 0 <= i < col ==> #[trigger] after.cells[i] == before.cells[i]
                &&& forall|i: int|
                    col <= i && i + count < grid.screen.cols ==> #[trigger] after.cells[i]
                        == before.cells[i + count]
                &&& forall|i: int|
                    col <= i < grid.screen.cols && i + count >= grid.screen.cols ==> blank_of(
                        #[trigger] after.cells[i],
                        grid.pen,
                    )
            }
            &&& after.metadata.wrapped == before.metadata.wrapped
            &&& len <= col ==> after.metadata.len == len
            &&& col < len && len - count > col ==> after.metadata.len == len - count
            &&& col < len && len - count <= col ==> after.metadata.len == col
        }),
{
    reveal(closed_row);
    let row = grid.screen.rows[grid.cursor_row];
    let next = grid.chars_deleted(count);
    let after = next.screen.rows[grid.cursor_row];
    assert(row.cells.len() == grid.screen.cols);
    law_content_reaches(row);
    lemma_half_flags(CellFlags { bits: 0 });
    if without_halves(row.cells) {
        assert forall|i: int| 0 <= i < row.cells.len() implies !(
        #[trigger] row.cells[i]).wide() && !row.cells[i].continuation() by {
            assert(!row.cells[i].flags.has(CellFlags::WIDE));
        }
    }
}

/// Inserting blanks moves the rest of the row right; what passes the margin is
/// lost, in a row without two-column glyphs.
pub proof fn law_inserting_blanks(grid: GridView, count: int)
    requires
        grid.valid(),
        0 <= grid.cursor_col,
        0 <= count,
        grid.screen.rows[grid.cursor_row].metadata.len <= grid.screen.cols,
    ensures
        ({
            let next = grid.blanks_inserted(count);
            let row = grid.cursor_row;
            let before = grid.screen.rows[row];
            let after = next.screen.rows[row];
            let col = column_on_screen(grid);
            let len = before.content_len();
            &&& edits_cursor_row(grid, next)
            &&& next.dirty[row]
            &&& without_halves(before.cells) ==> {
                &&& forall|i: int| 0 <= i < col ==> #[trigger] after.cells[i] == before.cells[i]
                &&& forall|i: int|
                    col <= i < grid.screen.cols && i < col + count ==> blank_of(
                        #[trigger] after.cells[i],
                        grid.pen,
                    )
                &&& forall|i: int|
                    col + count <= i < grid.screen.cols ==> #[trigger] after.cells[i]
                        == before.cells[i - count]
            }
            &&& after.metadata.wrapped == before.metadata.wrapped
            &&& len >= col && len + count <= grid.screen.cols ==> after.metadata.len == len + count
            &&& len < col && col + count <= grid.screen.cols ==> after.metadata.len == col + count
            &&& len + count > grid.screen.cols || col + count > grid.screen.cols
                ==> after.metadata.len == grid.screen.cols
        }),
{
    reveal(opened_row);
    let row = grid.screen.rows[grid.cursor_row];
    let next = grid.blanks_inserted(count);
    let after = next.screen.rows[grid.cursor_row];
    assert(row.cells.len() == grid.screen.cols);
    law_content_reaches(row);
    lemma_half_flags(CellFlags { bits: 0 });
    if without_halves(row.cells) {
        assert forall|i: int| 0 <= i < row.cells.len() implies !(
        #[trigger] row.cells[i]).wide() && !row.cells[i].continuation() by {
            assert(!row.cells[i].flags.has(CellFlags::WIDE));
        }
    }
}

/// Deleting as many characters as blanks were inserted brings the row back, but
/// for what had passed the margin.
pub proof fn law_deleting_undoes_blanks(grid: GridView, count: int)
    requires
        grid.valid(),
        0 <= grid.cursor_col,
        0 <= count,
        grid.screen.rows[grid.cursor_row].metadata.len <= grid.screen.cols,
        without_halves(grid.screen.rows[grid.cursor_row].cells),
    ensures
        ({
            let back = grid.blanks_inserted(count).chars_deleted(count);
            let row = grid.cursor_row;
            forall|i: int|
                0 <= i < grid.screen.cols && i + count < grid.screen.cols
                    ==> #[trigger] back.screen.rows[row].cells[i] == grid.screen.rows[row].cells[i]
        }),
{
    let row = grid.cursor_row;
    let opened = grid.blanks_inserted(count);
    law_inserting_blanks(grid, count);
    let before = grid.screen.rows[row].cells;
    let after = opened.screen.rows[row].cells;
    let col = column_on_screen(grid);
    lemma_half_flags(CellFlags { bits: 0 });
    assert(without_halves(after)) by {
        assert forall|i: int| 0 <= i < after.len() implies !(#[trigger] after[i]).flags.has(
            CellFlags::WIDE,
        ) && !after[i].flags.has(CellFlags::WIDE_CONT) by {
            if i < col {
                assert(after[i] == before[i]);
            } else if i < col + count {
                assert(blank_of(after[i], grid.pen));
            } else {
                assert(after[i] == before[i - count]);
            }
        }
    }
    assert(opened.valid()) by {
        assert forall|r: int| 0 <= r < opened.screen.rows.len() implies (
        #[trigger] opened.screen.rows[r]).cells.len() == grid.screen.cols by {
            assert(grid.screen.rows[r].cells.len() == grid.screen.cols);
        }
    }
    law_content_reaches(grid.screen.rows[row]);
    law_deleting_characters(opened, count);
    let back = opened.chars_deleted(count);
    assert forall|i: int| 0 <= i < grid.screen.cols && i + count < grid.screen.cols implies
    #[trigger] back.screen.rows[row].cells[i] == before[i] by {
        if i < col {
            assert(after[i] == before[i]);
        } else {
            assert(after[i + count] == before[i]);
        }
    }
}

/// Erasing in the display: mode 0 from the cursor to the end of the screen, mode
/// 1 from its start through the cursor, mode 2 all of it. None of them touches
/// the history.
pub proof fn law_erasing_in_the_display(grid: GridView, mode: u16)
    requires
        grid.valid(),
        0 <= grid.cursor_col,
        grid.screen.rows[grid.cursor_row].metadata.len <= grid.screen.cols,
        mode <= 2,
    ensures
        ({
            let next = grid.display_erased(mode);
            let row = grid.cursor_row;
            let before = grid.screen.rows[row];
            let after = next.screen.rows[row];
            let col = column_on_screen(grid);
            let cols = grid.screen.cols;
            let count = grid.screen.rows.len();
            &&& next.screen.cols == cols
            &&& next.screen.rows.len() == count
            &&& next.cursor_row == row
            &&& next.cursor_col == col
            &&& !next.wrap_pending
            &&& next.history.rows == grid.history.rows
            &&& next.total_lines == grid.total_lines
            &&& next.pen == grid.pen
            &&& next.modes == grid.modes
            &&& next.scroll_top == grid.scroll_top
            &&& next.scroll_bottom == grid.scroll_bottom
            &&& next.saved_cursor == grid.saved_cursor
            &&& next.hidden == grid.hidden
            &&& next.session == grid.session
            &&& mode == 0 ==> {
                &&& columns_erased(before, after, col, cols, grid.pen)
                &&& forall|r: int|
                    0 <= r < row ==> #[trigger] next.screen.rows[r] == grid.screen.rows[r]
                &&& forall|r: int|
                    row < r < count ==> blank_row(#[trigger] next.screen.rows[r], cols, grid.pen)
                &&& next.history.tail.len() == 0
                &&& next.images == grid.images
                &&& forall|r: int| row <= r < count ==> #[trigger] next.dirty[r]
            }
            &&& mode == 1 ==> {
                &&& columns_erased(before, after, 0, col + 1, grid.pen)
                &&& forall|r: int|
                    0 <= r < row ==> blank_row(#[trigger] next.screen.rows[r], cols, grid.pen)
                &&& forall|r: int|
                    row < r < count ==> #[trigger] next.screen.rows[r] == grid.screen.rows[r]
                &&& next.history == grid.history
                &&& next.images == grid.images
                &&& forall|r: int| 0 <= r <= row ==> #[trigger] next.dirty[r]
            }
            &&& mode == 2 ==> {
                &&& forall|r: int|
                    0 <= r < count ==> blank_row(#[trigger] next.screen.rows[r], cols, grid.pen)
                &&& next.history.tail.len() == 0
                &&& next.revisions.selection != grid.revisions.selection
                &&& forall|r: int| 0 <= r < count ==> #[trigger] next.dirty[r]
            }
        }),
{
    law_erasing_in_a_line(grid, mode);
    law_erasing_in_a_line(grid.without_tail(), mode);
}

/// Mode 3 forgets the history of the primary screen and leaves the screen
/// alone; on the alternate screen it does nothing.
pub proof fn law_erasing_the_history(grid: GridView)
    requires
        grid.valid(),
    ensures
        ({
            let next = grid.display_erased(3);
            &&& next.screen == grid.screen
            &&& next.cursor_row == grid.cursor_row
            &&& next.cursor_col == grid.cursor_col
            &&& next.wrap_pending == grid.wrap_pending
            &&& grid.using_alt_screen ==> next == grid
            &&& !grid.using_alt_screen ==> {
                &&& next.history.rows.len() == 0
                &&& next.history.tail == grid.history.tail
                &&& next.history.line_budget == grid.history.line_budget
                &&& next.history.cell_budget == grid.history.cell_budget
                &&& next.scroll_offset == 0
                &&& next.total_lines == 0
                &&& next.revisions.selection != grid.revisions.selection
                &&& next.saved_cursor.row == grid.saved_cursor.row
                &&& next.saved_cursor.col == grid.saved_cursor.col
            }
        }),
        forall|mode: u16| mode > 3 ==> #[trigger] grid.display_erased(mode) == grid,
{
}

/// Of the images, those stay whose last row lies above the screen, or those
/// whose last row does not, in their order.
pub proof fn law_images_above_the_screen(
    placements: Seq<ImagePlacement>,
    above: bool,
    height: u16,
    one: ImagePlacement,
)
    ensures
        placements_above(placements, above, height).contains(one) <==> placements.contains(one) && (
        one.mode.bottom(height) <= 0) == above,
        placements_above(placements, above, height).len() <= placements.len(),
    decreases placements.len(),
{
    let kept = placements_above(placements, above, height);
    if placements.len() > 0 {
        let before = placements.drop_last();
        let last = placements.last();
        let held = placements_above(before, above, height);
        law_images_above_the_screen(before, above, height, one);
        if placements.contains(one) {
            let i = placements.index_of(one);
            if i < before.len() {
                assert(before[i] == one);
            }
        }
        if before.contains(one) {
            let i = before.index_of(one);
            assert(placements[i] == one);
        }
        assert(placements[placements.len() - 1] == last);
        if (last.mode.bottom(height) <= 0) == above {
            assert(kept == held.push(last));
            assert(kept[held.len() as int] == last);
            if held.contains(one) {
                let i = held.index_of(one);
                assert(kept[i] == one);
            }
            if kept.contains(one) {
                let i = kept.index_of(one);
                if i < held.len() {
                    assert(held[i] == one);
                }
            }
        }
    }
}

} // verus!
