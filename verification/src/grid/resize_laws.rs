//! What another screen size does to screen, cursors and history.
use crate::grid::buffer::{lemma_content_end, BufferView, RowView};
use crate::grid::cell::CellView;
use crate::grid::cursor_laws::law_line_feeds;
use crate::grid::reflow::{glyph_of, law_reflow_size, repacked, Cursor};
use crate::grid::reflow_laws::law_cursor_stays_on_its_glyph;
use crate::grid::resize::{
    absolute_cursor, fitted, lemma_retained_width, lemma_without_empty_end, retained,
    without_empty_end,
};
use crate::grid::retention::{cell_count, HistoryView};
use crate::grid::terminal::{GridView, HiddenView};
use vstd::prelude::*;

verus! {

/// The rows that a resize repacks: all that are kept, without the empty ones
/// behind the last cursor.
pub open spec fn resized_rows(
    screen: BufferView,
    history: HistoryView,
    first: Cursor,
    second: Cursor,
    cols: int,
) -> (Seq<RowView>, Seq<Cursor>) {
    let above = history.rows.len() as int;
    let a = absolute_cursor(first, above);
    let b = absolute_cursor(second, above);
    let last = if a.row > b.row { a.row } else { b.row };
    repacked(without_empty_end(retained(history, screen), last as int), cols, seq![a, b])
}

proof fn lemma_kept_rows(rows: Seq<RowView>, last: int)
    requires
        0 <= last < rows.len(),
    ensures
        without_empty_end(rows, last).len() > last,
        forall|i: int| 0 <= i <= last ==> #[trigger] without_empty_end(rows, last)[i] == rows[i],
    decreases rows.len(),
{
    lemma_without_empty_end(rows, last);
    if rows.len() > last + 1 && rows.last().metadata.len == 0 {
        lemma_kept_rows(rows.drop_last(), last);
    }
}

/// The cursor belongs to the screen, and what the machine can count.
pub open spec fn fits_machine(
    screen: BufferView,
    history: HistoryView,
    first: Cursor,
    second: Cursor,
    cols: int,
) -> bool {
    &&& screen.shaped()
    &&& history.of_width(screen.cols)
    &&& screen.cols > 0
    &&& first.row < screen.rows.len()
    &&& first.retained_row is None
    &&& retained(history, screen).len() < usize::MAX
    &&& resized_rows(screen, history, first, second, cols).0.len() < usize::MAX
}

/// Fitting to another size gives a screen of that size that shows the end of
/// the repacked rows. Only a cursor above that end keeps it from the screen: it
/// then stands in the first row. Blank rows fill the screen only where no row is
/// left above it.
pub proof fn law_fitted_screen(
    screen: BufferView,
    history: HistoryView,
    first: Cursor,
    second: Cursor,
    cols: int,
    rows: int,
)
    requires
        fits_machine(screen, history, first, second, cols),
        0 < cols <= usize::MAX,
        0 < rows <= usize::MAX,
    ensures
        ({
            let fit = fitted(screen, history, first, second, cols, rows);
            let packed = resized_rows(screen, history, first, second, cols).0;
            let above = fit.history.rows.len();
            let below = fit.history.tail.len();
            &&& fit.screen.cols == cols
            &&& fit.screen.rows.len() == rows
            &&& fit.screen.shaped()
            &&& fit.history.of_width(cols)
            &&& fit.history.line_budget == history.line_budget
            &&& fit.history.cell_budget >= history.cell_budget
            &&& fit.history.cell_budget >= cell_count(fit.history.rows)
            &&& fit.history.cell_budget == history.cell_budget || fit.history.cell_budget
                == cell_count(fit.history.rows)
            &&& fit.first.row < rows
            &&& fit.first.col < cols
            &&& fit.first.retained_row is None
            &&& fit.second.row < rows
            &&& fit.second.col < cols
            &&& forall|i: int| 0 <= i < above ==> #[trigger] fit.history.rows[i] == packed[i]
            &&& forall|i: int|
                0 <= i < rows && above + i < packed.len() ==> #[trigger] fit.screen.rows[i]
                    == packed[above + i]
            &&& forall|i: int|
                0 <= i < rows && above + i >= packed.len() ==> {
                    &&& (#[trigger] fit.screen.rows[i]).metadata.len == 0
                    &&& !fit.screen.rows[i].metadata.wrapped
                    &&& forall|c: int|
                        0 <= c < cols ==> #[trigger] fit.screen.rows[i].cells[c]
                            == CellView::default_cell()
                }
            &&& forall|i: int|
                0 <= i < below ==> #[trigger] fit.history.tail[i] == packed[above + rows + i]
            &&& above + rows + below >= packed.len()
            &&& below > 0 ==> above + rows + below == packed.len() && fit.first.row == 0
            &&& above > 0 ==> above + rows <= packed.len()
        }),
{
    reveal(fitted);
    let above = history.rows.len() as int;
    let a = absolute_cursor(first, above);
    let b = absolute_cursor(second, above);
    let last = if a.row > b.row { a.row } else { b.row };
    let all = retained(history, screen);
    let source = without_empty_end(all, last as int);
    lemma_retained_width(history, screen);
    lemma_without_empty_end(all, last as int);
    assert forall|i: int| 0 <= i < source.len() implies (#[trigger] source[i]).cells.len()
        <= screen.cols by {
        assert(source[i] == all[i]);
    }
    law_reflow_size(source, cols, seq![a, b], screen.cols);
    let (packed, mapped) = repacked(source, cols, seq![a, b]);
    let fit = fitted(screen, history, first, second, cols, rows);
    let start = fit.history.rows.len() as int;
    assert(crate::grid::scroll::leaving_rows(screen, screen.rows.len() as int).len()
        == screen.rows.len());
    lemma_mapped_row(screen, history, first, second, cols);
    assert forall|i: int| 0 <= i < fit.screen.rows.len() implies (
    #[trigger] fit.screen.rows[i]).cells.len() == cols by {
        if start + i < packed.len() {
            assert(packed[start + i].cells.len() == cols);
        }
    }
    assert forall|i: int| 0 <= i < fit.history.tail.len() implies (
    #[trigger] fit.history.tail[i]).cells.len() == cols by {
        assert(packed[start + rows + i].cells.len() == cols);
    }
}

/// The first cursor is followed into a row of the output.
proof fn lemma_mapped_row(
    screen: BufferView,
    history: HistoryView,
    first: Cursor,
    second: Cursor,
    cols: int,
)
    requires
        fits_machine(screen, history, first, second, cols),
        0 < cols <= usize::MAX,
    ensures
        ({
            let (packed, mapped) = resized_rows(screen, history, first, second, cols);
            mapped[0].row < packed.len()
        }),
{
    let above = history.rows.len() as int;
    let a = absolute_cursor(first, above);
    let b = absolute_cursor(second, above);
    let last = if a.row > b.row { a.row } else { b.row };
    let all = retained(history, screen);
    let source = without_empty_end(all, last as int);
    assert(crate::grid::scroll::leaving_rows(screen, screen.rows.len() as int).len()
        == screen.rows.len());
    if last < all.len() {
        lemma_kept_rows(all, last as int);
    } else {
        lemma_nothing_dropped(all, last as int);
    }
    crate::grid::reflow_laws::law_cursors_stay_in_the_output(source, cols, seq![a, b], 0);
}

proof fn lemma_nothing_dropped(rows: Seq<RowView>, last: int)
    requires
        last >= rows.len(),
    ensures
        without_empty_end(rows, last) == rows,
{
}

/// A cursor on a written glyph stands on that glyph after a resize.
pub proof fn law_fitted_cursor_stays_on_its_glyph(
    screen: BufferView,
    history: HistoryView,
    first: Cursor,
    second: Cursor,
    cols: int,
    rows: int,
)
    requires
        fits_machine(screen, history, first, second, cols),
        0 < cols <= usize::MAX,
        0 < rows <= usize::MAX,
        !first.pending,
        first.col < screen.rows[first.row as int].content_len() <= screen.cols,
        !screen.rows[first.row as int].cells[first.col as int].continuation(),
    ensures
        ({
            let fit = fitted(screen, history, first, second, cols, rows);
            let before = screen.rows[first.row as int].cells[first.col as int];
            let after = fit.screen.rows[fit.first.row as int].cells[fit.first.col as int];
            &&& glyph_of(after) == glyph_of(before)
            &&& !fit.first.pending
        }),
{
    law_fitted_screen(screen, history, first, second, cols, rows);
    reveal(fitted);
    let above = history.rows.len() as int;
    let a = absolute_cursor(first, above);
    let b = absolute_cursor(second, above);
    let last = if a.row > b.row { a.row } else { b.row };
    let all = retained(history, screen);
    let source = without_empty_end(all, last as int);
    let shown = crate::grid::scroll::leaving_rows(screen, screen.rows.len() as int);
    assert(shown.len() == screen.rows.len());
    assert(all[above + first.row] == shown[first.row as int]);
    if last < all.len() {
        lemma_kept_rows(all, last as int);
    } else {
        lemma_nothing_dropped(all, last as int);
    }
    assert(source[a.row as int] == shown[first.row as int]);
    assert(screen.rows[first.row as int].cells.len() == screen.cols);
    lemma_content_end(screen.rows[first.row as int].cells);
    law_cursor_stays_on_its_glyph(source, cols, seq![a, b], 0);
    lemma_mapped_row(screen, history, first, second, cols);
}

/// A saved cursor on a written glyph is on that glyph after a resize: on the
/// screen, or in the row around it that it remembers.
pub proof fn law_fitted_saved_cursor_stays_on_its_glyph(
    screen: BufferView,
    history: HistoryView,
    first: Cursor,
    second: Cursor,
    cols: int,
    rows: int,
)
    requires
        fits_machine(screen, history, first, second, cols),
        0 < cols <= usize::MAX,
        0 < rows <= usize::MAX,
        !second.pending,
        second.retained_row is None,
        second.row < screen.rows.len(),
        second.col < screen.rows[second.row as int].content_len() <= screen.cols,
        !screen.rows[second.row as int].cells[second.col as int].continuation(),
    ensures
        ({
            let fit = fitted(screen, history, first, second, cols, rows);
            let before = screen.rows[second.row as int].cells[second.col as int];
            let around = fit.history.rows + fit.screen.rows + fit.history.tail;
            &&& !fit.second.pending
            &&& match fit.second.retained_row {
                None => glyph_of(
                    fit.screen.rows[fit.second.row as int].cells[fit.second.col as int],
                ) == glyph_of(before),
                Some(row) => row < around.len() && glyph_of(
                    around[row as int].cells[fit.second.col as int],
                ) == glyph_of(before),
            }
        }),
{
    law_fitted_screen(screen, history, first, second, cols, rows);
    reveal(fitted);
    let above = history.rows.len() as int;
    let a = absolute_cursor(first, above);
    let b = absolute_cursor(second, above);
    let last = if a.row > b.row { a.row } else { b.row };
    let all = retained(history, screen);
    let source = without_empty_end(all, last as int);
    let shown = crate::grid::scroll::leaving_rows(screen, screen.rows.len() as int);
    assert(shown.len() == screen.rows.len());
    assert(all[above + second.row] == shown[second.row as int]);
    lemma_kept_rows(all, last as int);
    assert(source[b.row as int] == shown[second.row as int]);
    assert(screen.rows[second.row as int].cells.len() == screen.cols);
    lemma_content_end(screen.rows[second.row as int].cells);
    law_cursor_stays_on_its_glyph(source, cols, seq![a, b], 1);
    let (packed, mapped) = repacked(source, cols, seq![a, b]);
    let fit = fitted(screen, history, first, second, cols, rows);
    let around = fit.history.rows + fit.screen.rows + fit.history.tail;
    assert forall|i: int| 0 <= i < packed.len() implies around[i] == packed[i] by {
        let start = fit.history.rows.len();
        if i >= start + rows {
            assert(fit.history.tail[i - start - rows] == packed[i]);
        } else if i >= start {
            assert(fit.screen.rows[i - start] == packed[i]);
        }
    }
}

/// The terminal in another size has that size, scrolls as a whole, is drawn
/// anew, and keeps its modes. Its cursor is on the screen.
pub proof fn law_resizing(grid: GridView, cols: int, rows: int)
    requires
        grid.valid(),
        0 <= grid.cursor_col,
        0 < cols <= usize::MAX,
        0 < rows <= usize::MAX,
        fits_machine(
            grid.screen,
            grid.history,
            grid.resize_cursors().0,
            grid.resize_cursors().1,
            cols,
        ),
    ensures
        ({
            let after = grid.resized(cols, rows);
            &&& after.valid()
            &&& after.screen.cols == cols
            &&& after.screen.rows.len() == rows
            &&& after.scroll_top == 0
            &&& after.scroll_bottom == rows - 1
            &&& after.dirty.len() == rows
            &&& forall|r: int| 0 <= r < rows ==> #[trigger] after.dirty[r]
            &&& 0 <= after.cursor_row < rows
            &&& 0 <= after.cursor_col < cols
            &&& after.pen == grid.pen
            &&& after.modes == grid.modes
            &&& after.session == grid.session
            &&& after.images == grid.images
            &&& after.using_alt_screen == grid.using_alt_screen
            &&& after.revisions.selection != grid.revisions.selection
            &&& after.revisions.screen == grid.revisions.screen
            &&& after.history.line_budget == grid.history.line_budget
            &&& after.history.cell_budget >= grid.history.cell_budget
            &&& after.history.cell_budget >= cell_count(after.history.rows)
            &&& grid.scroll_offset <= after.history.rows.len() ==> after.scroll_offset
                == grid.scroll_offset
            &&& grid.scroll_offset > after.history.rows.len() ==> after.scroll_offset
                == after.history.rows.len()
            &&& grid.total_lines >= grid.history.rows.len() ==> after.total_lines
                - after.history.rows.len() == grid.total_lines - grid.history.rows.len()
            &&& grid.total_lines < grid.history.rows.len() ==> after.total_lines
                == after.history.rows.len()
        }),
{
    let (first, second) = grid.resize_cursors();
    law_fitted_screen(grid.screen, grid.history, first, second, cols, rows);
    assert(grid.resized(cols, rows).dirty.len() == rows);
}

/// After a resize a line feed in the last row moves the whole screen up; on the
/// primary screen the first row is then counted as one that left it.
pub proof fn law_resized_screens_scroll_whole(grid: GridView, cols: int, rows: int)
    requires
        grid.valid(),
        0 <= grid.cursor_col,
        0 < cols <= usize::MAX,
        0 < rows <= usize::MAX,
        fits_machine(
            grid.screen,
            grid.history,
            grid.resize_cursors().0,
            grid.resize_cursors().1,
            cols,
        ),
    ensures
        ({
            let after = grid.resized(cols, rows).with_cursor(rows - 1, 0);
            let fed = after.after_newline();
            &&& fed.cursor_row == rows - 1
            &&& after.history.tail.len() == 0 ==> forall|r: int|
                0 <= r < rows - 2 ==> #[trigger] fed.screen.rows[r] == after.screen.rows[r + 1]
            &&& !grid.using_alt_screen ==> fed.total_lines == after.total_lines + 1
        }),
{
    law_resizing(grid, cols, rows);
    let after = grid.resized(cols, rows).with_cursor(rows - 1, 0);
    law_line_feeds(after);
}

/// The cursor of the terminal stays on its glyph through a resize.
pub proof fn law_resizing_follows_the_cursor(grid: GridView, cols: int, rows: int)
    requires
        grid.valid(),
        0 <= grid.cursor_col < grid.screen.cols,
        !grid.wrap_pending,
        0 < cols <= usize::MAX,
        0 < rows <= usize::MAX,
        fits_machine(
            grid.screen,
            grid.history,
            grid.resize_cursors().0,
            grid.resize_cursors().1,
            cols,
        ),
        grid.cursor_col < grid.screen.rows[grid.cursor_row].content_len() <= grid.screen.cols,
        !grid.screen.rows[grid.cursor_row].cells[grid.cursor_col].continuation(),
    ensures
        ({
            let after = grid.resized(cols, rows);
            let now = after.screen.rows[after.cursor_row].cells[after.cursor_col];
            let before = grid.screen.rows[grid.cursor_row].cells[grid.cursor_col];
            &&& now.c == before.c
            &&& now.text == before.text
            &&& now.fg == before.fg
            &&& now.bg == before.bg
            &&& !after.wrap_pending
        }),
{
    let (first, second) = grid.resize_cursors();
    law_fitted_cursor_stays_on_its_glyph(grid.screen, grid.history, first, second, cols, rows);
    let fit = fitted(grid.screen, grid.history, first, second, cols, rows);
    let now = fit.screen.rows[fit.first.row as int].cells[fit.first.col as int];
    let before = grid.screen.rows[grid.cursor_row].cells[grid.cursor_col];
    assert(glyph_of(now).c == now.c);
    assert(glyph_of(before).c == before.c);
    assert(glyph_of(now).text == now.text);
    assert(glyph_of(before).text == before.text);
    assert(glyph_of(now).fg == now.fg);
    assert(glyph_of(before).fg == before.fg);
    assert(glyph_of(now).bg == now.bg);
    assert(glyph_of(before).bg == before.bg);
}

/// The rows that are repacked are all but the empty ones at the end; none that
/// was written is dropped, nor one up to the last cursor.
pub proof fn law_empty_ends_are_dropped(rows: Seq<RowView>, last: int)
    ensures
        ({
            let kept = without_empty_end(rows, last);
            &&& kept.len() <= rows.len()
            &&& kept == rows.take(kept.len() as int)
            &&& forall|i: int|
                kept.len() <= i < rows.len() ==> (#[trigger] rows[i]).metadata.len == 0 && i > last
            &&& kept.len() > last + 1 && kept.len() > 0 ==> kept.last().metadata.len > 0
        }),
    decreases rows.len(),
{
    lemma_without_empty_end(rows, last);
    if rows.len() > 0 && rows.len() > last + 1 && rows.last().metadata.len == 0 {
        let before = rows.drop_last();
        law_empty_ends_are_dropped(before, last);
        let kept = without_empty_end(rows, last);
        assert forall|i: int| kept.len() <= i < rows.len() implies (
        #[trigger] rows[i]).metadata.len == 0 && i > last by {
            if i < before.len() {
                assert(before[i] == rows[i]);
            }
        }
    }
}

/// The saved cursor of the terminal stays on its glyph through a resize, on the
/// screen or in the row around it that it remembers.
pub proof fn law_resizing_follows_the_saved_cursor(grid: GridView, cols: int, rows: int)
    requires
        grid.valid(),
        0 <= grid.cursor_col,
        0 < cols <= usize::MAX,
        0 < rows <= usize::MAX,
        fits_machine(
            grid.screen,
            grid.history,
            grid.resize_cursors().0,
            grid.resize_cursors().1,
            cols,
        ),
        !grid.saved_cursor.pending,
        grid.saved_cursor.retained_row is None,
        grid.saved_cursor.row < grid.screen.rows.len(),
        grid.saved_cursor.col < grid.screen.cols,
        grid.saved_cursor.col < grid.screen.rows[grid.saved_cursor.row as int].content_len()
            <= grid.screen.cols,
        !grid.screen.rows[grid.saved_cursor.row as int].cells[grid.saved_cursor.col as int].continuation(),
    ensures
        ({
            let after = grid.resized(cols, rows);
            let saved = after.saved_cursor;
            let before =
                grid.screen.rows[grid.saved_cursor.row as int].cells[grid.saved_cursor.col as int];
            let around = after.history.rows + after.screen.rows + after.history.tail;
            &&& !saved.pending
            &&& match saved.retained_row {
                None => glyph_of(after.screen.rows[saved.row as int].cells[saved.col as int])
                    == glyph_of(before),
                Some(row) => row < around.len() && glyph_of(
                    around[row as int].cells[saved.col as int],
                ) == glyph_of(before),
            }
        }),
{
    let (first, second) = grid.resize_cursors();
    law_fitted_saved_cursor_stays_on_its_glyph(
        grid.screen,
        grid.history,
        first,
        second,
        cols,
        rows,
    );
}

/// The cursor of a hidden primary screen stays on its glyph through a resize.
pub proof fn law_resizing_follows_the_hidden_cursor(hidden: HiddenView, cols: int, rows: int)
    requires
        hidden.screen is Some,
        hidden.history is Some,
        0 < cols <= usize::MAX,
        0 < rows <= usize::MAX,
        fits_machine(
            hidden.screen->0,
            (hidden.history->0).0,
            hidden.resize_cursors().0,
            hidden.resize_cursors().1,
            cols,
        ),
        !hidden.wrap_pending,
        hidden.cursor.1 < (hidden.screen->0).rows[hidden.cursor.0 as int].content_len() <= (
        hidden.screen->0).cols,
        !(hidden.screen->0).rows[hidden.cursor.0 as int].cells[hidden.cursor.1 as int].continuation(),
    ensures
        ({
            let after = hidden.resized(cols, rows);
            &&& !after.wrap_pending
            &&& glyph_of(
                (after.screen->0).rows[after.cursor.0 as int].cells[after.cursor.1 as int],
            ) == glyph_of(
                (hidden.screen->0).rows[hidden.cursor.0 as int].cells[hidden.cursor.1 as int],
            )
        }),
{
    let (first, second) = hidden.resize_cursors();
    law_fitted_cursor_stays_on_its_glyph(
        hidden.screen->0,
        (hidden.history->0).0,
        first,
        second,
        cols,
        rows,
    );
}

/// A hidden primary screen takes the same size, with its cursor on it.
pub proof fn law_resizing_the_hidden_screen(hidden: HiddenView, cols: int, rows: int)
    requires
        hidden.screen is Some,
        hidden.history is Some,
        0 < cols <= usize::MAX,
        0 < rows <= usize::MAX,
        fits_machine(
            hidden.screen->0,
            (hidden.history->0).0,
            hidden.resize_cursors().0,
            hidden.resize_cursors().1,
            cols,
        ),
    ensures
        ({
            let after = hidden.resized(cols, rows);
            let (history, lines) = hidden.history->0;
            &&& after.screen is Some
            &&& after.history is Some
            &&& after.saved_cursor is Some
            &&& after.screen->0.cols == cols
            &&& after.screen->0.rows.len() == rows
            &&& after.cursor.0 < rows
            &&& after.cursor.1 < cols
            &&& (after.history->0).0.line_budget == history.line_budget
            &&& lines >= history.rows.len() ==> (after.history->0).1 - (
            after.history->0).0.rows.len() == lines - history.rows.len()
        }),
{
    let (first, second) = hidden.resize_cursors();
    law_fitted_screen(
        hidden.screen->0,
        (hidden.history->0).0,
        first,
        second,
        cols,
        rows,
    );
}


/// The saved cursor of a hidden primary screen stays on its glyph too.
pub proof fn law_resizing_follows_the_hidden_saved_cursor(hidden: HiddenView, cols: int, rows: int)
    requires
        hidden.screen is Some,
        hidden.history is Some,
        hidden.saved_cursor is Some,
        0 < cols <= usize::MAX,
        0 < rows <= usize::MAX,
        fits_machine(
            hidden.screen->0,
            (hidden.history->0).0,
            hidden.resize_cursors().0,
            hidden.resize_cursors().1,
            cols,
        ),
        !hidden.saved_cursor->0.pending,
        hidden.saved_cursor->0.retained_row is None,
        hidden.saved_cursor->0.row < (hidden.screen->0).rows.len(),
        hidden.saved_cursor->0.col < (
        hidden.screen->0).rows[hidden.saved_cursor->0.row as int].content_len() <= (
        hidden.screen->0).cols,
        !(
        hidden.screen->0).rows[hidden.saved_cursor->0.row as int].cells[hidden.saved_cursor->0.col as int].continuation(),
    ensures
        ({
            let after = hidden.resized(cols, rows);
            let saved = after.saved_cursor->0;
            let before = (
            hidden.screen->0).rows[hidden.saved_cursor->0.row as int].cells[hidden.saved_cursor->0.col as int];
            let history = (after.history->0).0;
            let around = history.rows + (after.screen->0).rows + history.tail;
            &&& after.saved_cursor is Some
            &&& !saved.pending
            &&& match saved.retained_row {
                None => glyph_of((after.screen->0).rows[saved.row as int].cells[saved.col as int])
                    == glyph_of(before),
                Some(row) => row < around.len() && glyph_of(
                    around[row as int].cells[saved.col as int],
                ) == glyph_of(before),
            }
        }),
{
    let (first, second) = hidden.resize_cursors();
    law_fitted_saved_cursor_stays_on_its_glyph(
        hidden.screen->0,
        (hidden.history->0).0,
        first,
        second,
        cols,
        rows,
    );
}

} // verus!
