//! A resize keeps the text.
use crate::grid::buffer::{content_end, BufferView, RowView};
use crate::grid::cell::CellView;
use crate::grid::cursor::least;
use crate::grid::reflow::{
    cursors_in_lines, cursors_within, law_reflow_keeps_logical_lines, lemma_lines_nonempty,
    lemma_repacked_rows_are_tidy, logical_lines, repacked, row_glyphs, rows_tidy, Cursor,
};
use crate::grid::resize::{
    absolute_cursor, fitted, laid_out, retained, without_empty_end,
};
use crate::grid::retention::HistoryView;
use crate::grid::scroll::leaving_rows;
use crate::grid::terminal::{GridView, HiddenView};
use vstd::prelude::*;

verus! {

/// The lines without the empty ones at the end.
pub open spec fn without_blank_end(lines: Seq<Seq<CellView>>) -> Seq<Seq<CellView>>
    decreases lines.len(),
{
    if lines.len() > 0 && lines.last().len() == 0 {
        without_blank_end(lines.drop_last())
    } else {
        lines
    }
}

/// The text of a sequence of rows: its logical lines, without empty ones at the
/// end.
pub open spec fn text_of(rows: Seq<RowView>) -> Seq<Seq<CellView>> {
    without_blank_end(logical_lines(rows))
}

/// All rows around and on a screen with the lengths that are recorded.
pub open spec fn recorded(history: HistoryView, screen: BufferView) -> Seq<RowView> {
    history.rows + screen.rows + history.tail
}

/// The cursors that a resize follows, counted from the oldest retained row.
pub open spec fn followed(history: HistoryView, first: Cursor, second: Cursor) -> Seq<Cursor> {
    seq![
        absolute_cursor(first, history.rows.len() as int),
        absolute_cursor(second, history.rows.len() as int),
    ]
}

/// The rows that a resize repacks.
pub open spec fn repacked_source(
    history: HistoryView,
    screen: BufferView,
    first: Cursor,
    second: Cursor,
) -> Seq<RowView> {
    let cursors = followed(history, first, second);
    let last = if cursors[0].row > cursors[1].row { cursors[0].row } else { cursors[1].row };
    without_empty_end(retained(history, screen), last as int)
}

proof fn lemma_empty_row_adds_no_text(rows: Seq<RowView>)
    requires
        rows.len() > 0,
        rows.last().metadata.len == 0,
    ensures
        text_of(rows) == text_of(rows.drop_last()),
{
    let before = logical_lines(rows.drop_last());
    assert(row_glyphs(rows.last()) =~= Seq::<CellView>::empty());
    if rows.len() >= 2 && rows[rows.len() - 2].metadata.wrapped {
        lemma_lines_nonempty(rows.drop_last());
        assert(before.last() + Seq::<CellView>::empty() =~= before.last());
        assert(logical_lines(rows) =~= before);
    } else {
        assert(logical_lines(rows) == before.push(Seq::empty()));
        assert(before.push(Seq::<CellView>::empty()).drop_last() =~= before);
    }
}

proof fn lemma_empty_end_has_no_text(rows: Seq<RowView>, last: int)
    requires
        last >= 0,
    ensures
        text_of(without_empty_end(rows, last)) == text_of(rows),
        rows.len() > 0 ==> without_empty_end(rows, last).len() > 0,
    decreases rows.len(),
{
    if rows.len() > 0 && rows.len() > last + 1 && rows.last().metadata.len == 0 {
        lemma_empty_row_adds_no_text(rows);
        lemma_empty_end_has_no_text(rows.drop_last(), last);
    }
}

proof fn lemma_blank_rows_add_no_text(rows: Seq<RowView>, blank: Seq<RowView>)
    requires
        forall|i: int| 0 <= i < blank.len() ==> (#[trigger] blank[i]).metadata.len == 0,
    ensures
        text_of(rows + blank) == text_of(rows),
    decreases blank.len(),
{
    if blank.len() == 0 {
        assert(rows + blank =~= rows);
    } else {
        let all = rows + blank;
        assert(all.drop_last() =~= rows + blank.drop_last());
        lemma_empty_row_adds_no_text(all);
        assert forall|i: int| 0 <= i < blank.drop_last().len() implies (
        #[trigger] blank.drop_last()[i]).metadata.len == 0 by {
            assert(blank[i].metadata.len == 0);
        }
        lemma_blank_rows_add_no_text(rows, blank.drop_last());
    }
}

/// The rows around and on the screen are the repacked ones, and blank rows
/// where those do not fill the screen.
proof fn lemma_laid_out_rows(
    packed: Seq<RowView>,
    start: int,
    history: HistoryView,
    height: int,
    cols: int,
)
    requires
        0 <= start <= packed.len(),
        height > 0,
    ensures
        ({
            let (screen, around) = laid_out(packed, start, history, height, cols);
            text_of(recorded(around, screen)) == text_of(packed)
        }),
{
    let (screen, around) = laid_out(packed, start, history, height, cols);
    let rest = packed.skip(start);
    if rest.len() > height {
        assert(recorded(around, screen) =~= packed);
    } else {
        let blank = Seq::new(
            (height - rest.len()) as nat,
            |i: int| RowView::filled(cols, CellView::default_cell()),
        );
        assert(recorded(around, screen) =~= packed + blank);
        lemma_blank_rows_add_no_text(packed, blank);
    }
}

proof fn lemma_content_end_bound(cells: Seq<CellView>, len: int)
    requires
        0 <= len,
        forall|c: int| len <= c < cells.len() ==> (#[trigger] cells[c]).c == ' ',
    ensures
        content_end(cells) <= len,
    decreases cells.len(),
{
    if cells.len() > 0 && cells.len() > len {
        assert(cells[cells.len() - 1].c == ' ');
        assert forall|c: int| len <= c < cells.drop_last().len() implies (
        #[trigger] cells.drop_last()[c]).c == ' ' by {
            assert(cells[c].c == ' ');
        }
        lemma_content_end_bound(cells.drop_last(), len);
    } else {
        lemma_content_end_in_row(cells);
    }
}

proof fn lemma_content_end_in_row(cells: Seq<CellView>)
    ensures
        content_end(cells) <= cells.len(),
    decreases cells.len(),
{
    if cells.len() > 0 {
        lemma_content_end_in_row(cells.drop_last());
    }
}

/// Rows that hold nothing behind their written lengths are retained as they
/// are recorded.
proof fn lemma_tidy_rows_are_retained(
    packed: Seq<RowView>,
    start: int,
    history: HistoryView,
    height: int,
    cols: int,
)
    requires
        0 <= start <= packed.len(),
        height > 0,
        cols > 0,
        rows_tidy(packed, cols),
        forall|i: int| 0 <= i < packed.len() ==> (#[trigger] packed[i]).cells.len() == cols,
    ensures
        ({
            let (screen, around) = laid_out(packed, start, history, height, cols);
            retained(around, screen) == recorded(around, screen)
        }),
{
    let (screen, around) = laid_out(packed, start, history, height, cols);
    let rest = packed.skip(start);
    let shown = leaving_rows(screen, screen.rows.len() as int);
    assert forall|i: int| 0 <= i < shown.len() implies #[trigger] shown[i] == screen.rows[i] by {
        let row = screen.rows[i];
        assert forall|c: int| row.metadata.len <= c < row.cells.len() implies (
        #[trigger] row.cells[c]).c == ' ' by {
            if i < rest.len() {
                assert(row == packed[start + i]);
                assert(packed[start + i].cells[c] == CellView::default_cell());
            }
        }
        lemma_content_end_bound(row.cells, row.metadata.len as int);
        assert(row.content_metadata() == row.metadata);
    }
    assert(shown =~= screen.rows);
    assert(retained(around, screen) =~= recorded(around, screen));
}

/// A screen and the rows around it keep their text when they are fitted to
/// another size.
pub proof fn law_fitting_keeps_text(
    screen: BufferView,
    history: HistoryView,
    first: Cursor,
    second: Cursor,
    cols: int,
    rows: int,
)
    requires
        0 < cols <= usize::MAX,
        rows > 0,
        screen.rows.len() > 0,
        cursors_in_lines(
            repacked_source(history, screen, first, second),
            followed(history, first, second),
        ),
    ensures
        ({
            let fit = fitted(screen, history, first, second, cols, rows);
            let before = text_of(retained(history, screen));
            &&& text_of(recorded(fit.history, fit.screen)) == before
            &&& cursors_within(
                repacked_source(history, screen, first, second),
                followed(history, first, second),
            ) ==> text_of(retained(fit.history, fit.screen)) == before
        }),
{
    reveal(fitted);
    let cursors = followed(history, first, second);
    let last = if cursors[0].row > cursors[1].row { cursors[0].row } else { cursors[1].row };
    let all = retained(history, screen);
    let source = repacked_source(history, screen, first, second);
    lemma_empty_end_has_no_text(all, last as int);
    law_reflow_keeps_logical_lines(source, cols, cursors);
    let (packed, mapped) = repacked(source, cols, cursors);
    let start = least(
        if packed.len() > rows { packed.len() - rows } else { 0 },
        mapped[0].row as int,
    );
    lemma_laid_out_rows(packed, start, history, rows, cols);
    if cursors_within(source, cursors) {
        lemma_repacked_rows_are_tidy(source, cols, cursors);
        lemma_tidy_rows_are_retained(packed, start, history, rows, cols);
    }
}

impl GridView {
    /// The text of the terminal: what has left the screen, what is on it, and
    /// what a resize had no room for.
    pub open spec fn text(self) -> Seq<Seq<CellView>> {
        text_of(retained(self.history, self.screen))
    }

    /// The cursors that a resize follows: where the next glyph goes, and where
    /// a restored cursor stands.
    pub open spec fn resize_cursors(self) -> (Cursor, Cursor) {
        (
            Cursor {
                row: self.cursor_row as usize,
                col: self.clamped_col() as usize,
                pending: self.wraps_next(),
                retained_row: None,
            },
            Cursor {
                row: least(self.saved_cursor.row as int, self.rows() - 1) as usize,
                col: least(self.saved_cursor.col as int, self.cols() - 1) as usize,
                ..self.saved_cursor
            },
        )
    }

    /// No cursor stands beyond the written part of a row that wraps.
    pub open spec fn cursors_in_text(self) -> bool {
        let (first, second) = self.resize_cursors();
        cursors_in_lines(
            repacked_source(self.history, self.screen, first, second),
            followed(self.history, first, second),
        )
    }
}

/// A resize keeps the text of the terminal, glyph by glyph and line by line,
/// with the lengths that are recorded; if no cursor stands beyond the written
/// part of its row, nothing is behind those lengths either. Cursors beyond the
/// written part of a row that wraps are left out: the columns before them become
/// part of the line.
pub proof fn law_resizing_keeps_text(grid: GridView, cols: int, rows: int)
    requires
        grid.valid(),
        0 < cols <= usize::MAX,
        rows > 0,
        grid.cursors_in_text(),
    ensures
        ({
            let after = grid.resized(cols, rows);
            let (first, second) = grid.resize_cursors();
            &&& text_of(recorded(after.history, after.screen)) == grid.text()
            &&& cursors_within(
                repacked_source(grid.history, grid.screen, first, second),
                followed(grid.history, first, second),
            ) ==> after.text() == grid.text()
        }),
{
    let (first, second) = grid.resize_cursors();
    law_fitting_keeps_text(grid.screen, grid.history, first, second, cols, rows);
}

impl HiddenView {
    /// The cursors of the hidden screen that a resize follows.
    pub open spec fn resize_cursors(self) -> (Cursor, Cursor) {
        (
            Cursor {
                row: self.cursor.0,
                col: self.cursor.1,
                pending: self.wrap_pending,
                retained_row: None,
            },
            match self.saved_cursor {
                Some(cursor) => cursor,
                None => Cursor { row: 0, col: 0, pending: false, retained_row: None },
            },
        )
    }
}

/// A resize keeps the text of the primary screen while it is hidden.
pub proof fn law_resizing_keeps_hidden_text(hidden: HiddenView, cols: int, rows: int)
    requires
        hidden.screen is Some,
        hidden.history is Some,
        (hidden.screen->0).rows.len() > 0,
        0 < cols <= usize::MAX,
        rows > 0,
        cursors_in_lines(
            repacked_source(
                (hidden.history->0).0,
                hidden.screen->0,
                hidden.resize_cursors().0,
                hidden.resize_cursors().1,
            ),
            followed(
                (hidden.history->0).0,
                hidden.resize_cursors().0,
                hidden.resize_cursors().1,
            ),
        ),
    ensures
        ({
            let after = hidden.resized(cols, rows);
            text_of(recorded((after.history->0).0, after.screen->0)) == text_of(
                retained((hidden.history->0).0, hidden.screen->0),
            )
        }),
{
    let (first, second) = hidden.resize_cursors();
    law_fitting_keeps_text(
        hidden.screen->0,
        (hidden.history->0).0,
        first,
        second,
        cols,
        rows,
    );
}

/// Restoring a cursor whose row has left the screen moves the screen over the
/// retained rows: none is lost, and the cursor stands in its row again.
pub proof fn law_restoring_keeps_rows(grid: GridView)
    requires
        grid.valid(),
        grid.saved_cursor.retained_row is Some,
    ensures
        ({
            let after = grid.cursor_restored();
            let all = retained(grid.history, grid.screen);
            let target = least(grid.saved_cursor.retained_row->0 as int, all.len() - 1);
            &&& recorded(after.history, after.screen) == all
            &&& after.screen.rows[after.cursor_row] == all[target]
        }),
{
    reveal(GridView::row_revealed);
    let row = grid.saved_cursor.retained_row->0 as int;
    let all = retained(grid.history, grid.screen);
    let target = least(row, all.len() - 1);
    let start = least(target, all.len() - grid.rows());
    let (screen, history) = laid_out(all, start, grid.history, grid.rows(), grid.cols());
    let after = grid.row_revealed(row);
    assert(leaving_rows(grid.screen, grid.screen.rows.len() as int).len() == grid.rows());
    assert(recorded(history, screen) =~= all);
    assert(target - start < grid.rows());
}

} // verus!
