//! Fitting the text to another screen size.
use crate::graphics::{clamp_row, offset_row, ImagePlacement};
use crate::grid::buffer::{Buffer, BufferView, RowView};
use crate::grid::cell::CellView;
use crate::grid::cursor::least;
use crate::grid::reflow::{
    law_reflow_size, reflow, repacked, row_views, Cursor, Reflow, RetainedRow,
};
use crate::grid::retention::{
    cell_count, lemma_uniform_cell_count, rows_of_width, History, HistoryView,
};
use crate::grid::scroll::leaving_rows;
use crate::grid::terminal::{Grid, GridView, HiddenScreen, HiddenView, ImagesView};
use vstd::prelude::*;

verus! {

/// All rows that are kept: above the screen, on it, and below it.
pub open spec fn retained(history: HistoryView, screen: BufferView) -> Seq<RowView> {
    history.rows + leaving_rows(screen, screen.rows.len() as int) + history.tail
}

/// The rows without the empty ones at the end, down to row `last`.
pub open spec fn without_empty_end(rows: Seq<RowView>, last: int) -> Seq<RowView>
    decreases rows.len(),
{
    if rows.len() > 0 && rows.len() > last + 1 && rows.last().metadata.len == 0 {
        without_empty_end(rows.drop_last(), last)
    } else {
        rows
    }
}

/// A cursor that counts its row from the oldest retained row.
pub open spec fn absolute_cursor(cursor: Cursor, above: int) -> Cursor {
    Cursor {
        row: match cursor.retained_row {
            Some(row) => row,
            None => least(cursor.row + above, usize::MAX as int) as usize,
        },
        retained_row: None,
        ..cursor
    }
}

/// A cursor on a screen that starts at the retained row `start`. One outside
/// the screen remembers its row.
pub open spec fn screen_cursor(cursor: Cursor, start: int, rows: int) -> Cursor {
    Cursor {
        row: least(if cursor.row > start { cursor.row - start } else { 0 }, rows - 1) as usize,
        retained_row: if start <= cursor.row < start + rows { None } else { Some(cursor.row) },
        ..cursor
    }
}

/// The first `count` rows, or all of them and blank rows behind them.
pub open spec fn filled_up(rows: Seq<RowView>, count: int, cols: int) -> Seq<RowView> {
    Seq::new(
        count as nat,
        |i: int|
            if i < rows.len() {
                rows[i]
            } else {
                RowView::filled(cols, CellView::default_cell())
            },
    )
}

/// Retained rows laid out around a screen that starts at row `start`.
pub open spec fn laid_out(
    rows: Seq<RowView>,
    start: int,
    history: HistoryView,
    height: int,
    cols: int,
) -> (BufferView, HistoryView) {
    let above = rows.take(start);
    let rest = rows.skip(start);
    (
        BufferView { cols, rows: filled_up(rest, height, cols) },
        HistoryView {
            rows: above,
            tail: if rest.len() > height { rest.skip(height) } else { Seq::empty() },
            cell_budget: if cell_count(above) > history.cell_budget {
                cell_count(above) as int
            } else {
                history.cell_budget
            },
            ..history
        },
    )
}

/// A screen, the rows around it and its cursors in another size.
pub ghost struct Fitted {
    pub screen: BufferView,
    pub history: HistoryView,
    pub first: Cursor,
    pub second: Cursor,
}

/// The text repacked for `cols` columns and `rows` rows. The screen shows the
/// end of the text, unless the first cursor is above it: then it starts with
/// the row of that cursor.
#[verifier::opaque]
pub open spec fn fitted(
    screen: BufferView,
    history: HistoryView,
    first: Cursor,
    second: Cursor,
    cols: int,
    rows: int,
) -> Fitted {
    let above = history.rows.len() as int;
    let a = absolute_cursor(first, above);
    let b = absolute_cursor(second, above);
    let last = if a.row > b.row { a.row } else { b.row };
    let source = without_empty_end(retained(history, screen), last as int);
    let (packed, mapped) = repacked(source, cols, seq![a, b]);
    let start = least(
        if packed.len() > rows { packed.len() - rows } else { 0 },
        mapped[0].row as int,
    );
    let (shown, around) = laid_out(packed, start, history, rows, cols);
    Fitted {
        screen: shown,
        history: around,
        first: screen_cursor(mapped[0], start, rows),
        second: screen_cursor(mapped[1], start, rows),
    }
}

/// Repacking `count` rows of `width` cells for `cols` columns gives no more
/// cells than can be counted.
pub open spec fn reflow_countable(count: int, width: int, cols: int) -> bool {
    (1 + count * (width + 2)) * cols <= usize::MAX
}

pub proof fn lemma_without_empty_end(rows: Seq<RowView>, last: int)
    ensures
        without_empty_end(rows, last).len() <= rows.len(),
        without_empty_end(rows, last) == rows.take(without_empty_end(rows, last).len() as int),
    decreases rows.len(),
{
    if rows.len() > 0 && rows.len() > last + 1 && rows.last().metadata.len == 0 {
        lemma_without_empty_end(rows.drop_last(), last);
        let n = without_empty_end(rows, last).len() as int;
        assert(rows.drop_last().take(n) =~= rows.take(n));
    } else {
        assert(rows.take(rows.len() as int) =~= rows);
    }
}

/// Collect all rows that are kept, and leave the history empty.
fn take_retained(buffer: &Buffer, history: &mut History) -> (r: Vec<RetainedRow>)
    requires
        buffer.wf(),
        old(history).wf(),
    ensures
        final(history).wf(),
        final(history)@ == (HistoryView {
            rows: Seq::empty(),
            tail: Seq::empty(),
            ..old(history)@
        }),
        row_views(r@) == retained(old(history)@, buffer@),
{
    let mut source: Vec<RetainedRow> = history.take_rows();
    let ghost above = row_views(source@);
    let rows: usize = buffer.rows();
    let mut row: usize = 0;
    proof {
        assert(row_views(source@) =~= above + leaving_rows(buffer@, 0));
    }
    while row < rows
        invariant
            buffer.wf(),
            row <= rows == buffer@.rows.len(),
            row_views(source@) == above + leaving_rows(buffer@, row as int),
        decreases rows - row,
    {
        let ghost views = row_views(source@);
        let next = RetainedRow {
            cells: buffer.extract_row(row),
            metadata: buffer.row_metadata(row),
        };
        source.push(next);
        row += 1;
        proof {
            assert(row_views(source@) =~= views.push(next@));
            assert(next@ == leaving_rows(buffer@, row as int)[row - 1]);
            assert(row_views(source@) =~= above + leaving_rows(buffer@, row as int));
        }
    }
    let ghost tail = row_views(history.tail@);
    let ghost shown = row_views(source@);
    source.append(&mut history.tail);
    proof {
        assert(row_views(source@) =~= shown + tail);
        assert(history@.tail =~= Seq::<RowView>::empty());
    }
    source
}

/// Lay rows out around a screen that starts at row `start`.
fn lay_out(
    buffer: &mut Buffer,
    history: &mut History,
    source: Vec<RetainedRow>,
    start: usize,
    rows: usize,
    cols: usize,
)
    requires
        old(history).wf(),
        start <= source@.len(),
        cols * rows <= usize::MAX / 2,
        rows_of_width(row_views(source@), cols as int),
        source@.len() * cols <= usize::MAX,
    ensures
        final(buffer).wf(),
        final(history).wf(),
        final(history)@.of_width(cols as int),
        (final(buffer)@, final(history)@) == laid_out(
            row_views(source@),
            start as int,
            old(history)@,
            rows as int,
            cols as int,
        ),
{
    let ghost all = row_views(source@);
    let mut above: Vec<RetainedRow> = source;
    let mut shown: Vec<RetainedRow> = above.split_off(start);
    let ghost rest = row_views(shown@);
    proof {
        assert(row_views(above@) =~= all.take(start as int));
        assert(rest =~= all.skip(start as int));
        assert(rows_of_width(all.take(start as int), cols as int)) by {
            assert forall|i: int| 0 <= i < start implies (#[trigger] all.take(
                start as int,
            )[i]).cells.len() == cols by {
                assert(all[i].cells.len() == cols);
            }
        }
        lemma_uniform_cell_count(all.take(start as int), cols as int);
        assert(start * cols <= all.len() * cols) by (nonlinear_arith)
            requires
                start <= all.len(),
                cols >= 0,
        ;
    }
    history.set_rows(above);
    let mut tail: Vec<RetainedRow> = Vec::new();
    if shown.len() > rows {
        tail = shown.split_off(rows);
    }
    proof {
        assert(row_views(tail@) =~= if rest.len() > rows {
            rest.skip(rows as int)
        } else {
            Seq::empty()
        });
    }
    history.tail = tail;
    let ghost kept = row_views(shown@);
    while shown.len() < rows
        invariant
            shown@.len() <= rows,
            kept.len() <= shown@.len(),
            row_views(shown@) == filled_up(kept, shown@.len() as int, cols as int),
        decreases rows - shown@.len(),
    {
        let ghost views = row_views(shown@);
        let blank = RetainedRow::blank(cols);
        shown.push(blank);
        proof {
            assert(row_views(shown@) =~= views.push(blank@));
            assert(row_views(shown@) =~= filled_up(kept, shown@.len() as int, cols as int));
        }
    }
    proof {
        assert(filled_up(kept, rows as int, cols as int) =~= filled_up(
            rest,
            rows as int,
            cols as int,
        ));
        assert forall|i: int| 0 <= i < shown@.len() implies (#[trigger] shown@[i]).cells@.len()
            == cols by {
            assert(row_views(shown@)[i].cells.len() == cols) by {
                if i < rest.len() {
                    assert(all[i + start].cells.len() == cols);
                }
            }
        }
        assert forall|i: int| 0 <= i < history@.tail.len() implies (
        #[trigger] history@.tail[i]).cells.len() == cols by {
            assert(all[i + start + rows].cells.len() == cols);
        }
    }
    *buffer = Buffer::from_retained_rows(cols, shown.as_slice());
}

/// The retained row of a cursor.
fn absolute_row(cursor: &Cursor, above: usize) -> (r: usize)
    ensures
        r == absolute_cursor(*cursor, above as int).row,
{
    match cursor.retained_row {
        Some(row) => row,
        None => if cursor.row < usize::MAX - above { cursor.row + above } else { usize::MAX },
    }
}

/// A cursor on a screen that starts at the retained row `start`.
fn cursor_on_screen(cursor: &Cursor, start: usize, rows: usize) -> (r: Cursor)
    requires
        rows > 0,
    ensures
        r == screen_cursor(*cursor, start as int, rows as int),
{
    let below: usize = cursor.row.saturating_sub(start);
    Cursor {
        row: if below < rows { below } else { rows - 1 },
        col: cursor.col,
        pending: cursor.pending,
        retained_row: if cursor.row >= start && below < rows { None } else { Some(cursor.row) },
    }
}

/// Fit a screen and the rows around it to another size.
fn fit_screen(
    buffer: &mut Buffer,
    history: &mut History,
    first: Cursor,
    second: Cursor,
    cols: usize,
    rows: usize,
) -> (r: (Cursor, Cursor))
    requires
        old(buffer).wf(),
        old(history).wf(),
        old(history)@.of_width(old(buffer)@.cols),
        old(buffer)@.rows.len() > 0,
        cols > 0,
        rows > 0,
        cols * rows <= usize::MAX / 2,
        reflow_countable(
            retained(old(history)@, old(buffer)@).len() as int,
            old(buffer)@.cols,
            cols as int,
        ),
    ensures
        final(buffer).wf(),
        final(history).wf(),
        final(history)@.of_width(cols as int),
        ({
            let goal = fitted(
                old(buffer)@,
                old(history)@,
                first,
                second,
                cols as int,
                rows as int,
            );
            &&& final(buffer)@ == goal.screen
            &&& final(history)@ == goal.history
            &&& r.0 == goal.first
            &&& r.1 == goal.second
            &&& goal.first.row < rows
            &&& goal.second.row < rows
            &&& goal.screen.cols == cols
            &&& goal.screen.rows.len() == rows
            &&& (goal.history.rows.len() + 1) * cols <= usize::MAX + cols
            &&& goal.history.rows.len() <= 1 + retained(old(history)@, old(buffer)@).len() * (
            old(buffer)@.cols + 2)
        }),
{
    reveal(fitted);
    let ghost width = buffer@.cols;
    let ghost before = history@;
    let ghost all = retained(before, buffer@);
    let above: usize = history.len();
    proof {
        buffer.lemma_shape();
        lemma_retained_width(before, buffer@);
    }
    let mut source: Vec<RetainedRow> = take_retained(buffer, history);
    let a = Cursor {
        row: absolute_row(&first, above),
        col: first.col,
        pending: first.pending,
        retained_row: None,
    };
    let b = Cursor {
        row: absolute_row(&second, above),
        col: second.col,
        pending: second.pending,
        retained_row: None,
    };
    let last: usize = if a.row > b.row { a.row } else { b.row };
    while source.len() > 0 && source.len() - 1 > last && source[source.len() - 1].metadata.len == 0
        invariant
            without_empty_end(row_views(source@), last as int) == without_empty_end(
                all,
                last as int,
            ),
        decreases source@.len(),
    {
        let ghost views = row_views(source@);
        let _ = source.pop();
        proof {
            assert(row_views(source@) =~= views.drop_last());
        }
    }
    let ghost views = row_views(source@);
    proof {
        assert(views == without_empty_end(all, last as int)) by {
            if views.len() > 0 {
                assert(views.last() == source@[source@.len() - 1]@);
            }
        }
        lemma_without_empty_end(all, last as int);
        assert forall|i: int| 0 <= i < views.len() implies (#[trigger] views[i]).cells.len()
            <= width by {
            assert(views[i] == all[i]);
        }
        assert forall|i: int| 0 <= i < source@.len() implies (#[trigger] source@[i]).cells@.len()
            < usize::MAX by {
            assert(views[i].cells.len() <= width);
        }
    }
    let mut cursors: Vec<Cursor> = Vec::new();
    cursors.push(a);
    cursors.push(b);
    proof {
        assert(cursors@ =~= seq![a, b]);
        law_reflow_size(views, cols as int, cursors@, width);
    }
    let result: Reflow = reflow(source.as_slice(), cols, cursors.as_slice());
    let ghost packed = row_views(result.rows@);
    proof {
        assert((1 + views.len() * (width + 2)) * cols <= (1 + all.len() * (width + 2)) * cols)
            by (nonlinear_arith)
            requires
                0 <= views.len() <= all.len(),
                width >= 0,
                cols >= 0,
        ;
        assert(packed.len() * cols <= (1 + views.len() * (width + 2)) * cols) by (nonlinear_arith)
            requires
                packed.len() <= 1 + views.len() * (width + 2),
                cols >= 0,
        ;
        assert(1 + views.len() * (width + 2) <= 1 + all.len() * (width + 2)) by (nonlinear_arith)
            requires
                0 <= views.len() <= all.len(),
                width >= 0,
        ;
        assert(packed.len() * cols + cols == (packed.len() + 1) * cols) by (nonlinear_arith);
    }
    let first_row: usize = result.cursors[0].row;
    let spare: usize = if result.rows.len() > rows { result.rows.len() - rows } else { 0 };
    let start: usize = if spare < first_row { spare } else { first_row };
    let first_cursor: Cursor = cursor_on_screen(&result.cursors[0], start, rows);
    let second_cursor: Cursor = cursor_on_screen(&result.cursors[1], start, rows);
    proof {
        assert((start + 1) * cols <= (packed.len() + 1) * cols) by (nonlinear_arith)
            requires
                start <= packed.len(),
                cols >= 0,
        ;
    }
    lay_out(buffer, history, result.rows, start, rows, cols);
    (first_cursor, second_cursor)
}

pub proof fn lemma_retained_width(history: HistoryView, screen: BufferView)
    requires
        screen.shaped(),
        history.of_width(screen.cols),
    ensures
        rows_of_width(retained(history, screen), screen.cols),
{
    let all = retained(history, screen);
    let shown = leaving_rows(screen, screen.rows.len() as int);
    assert forall|i: int| 0 <= i < all.len() implies (#[trigger] all[i]).cells.len()
        == screen.cols by {
        let n = history.rows.len() as int;
        if i < n {
            assert(all[i] == history.rows[i]);
        } else if i < n + shown.len() {
            assert(all[i] == shown[i - n]);
            assert(screen.rows[i - n].cells.len() == screen.cols);
        } else {
            assert(all[i] == history.tail[i - n - shown.len()]);
        }
    }
}

/// The lines that have left the screen, after the history above it changed.
pub open spec fn recounted_lines(total: int, before: int, after: int) -> int {
    (if total > before { total - before } else { 0 }) + after
}

/// Images moved with the retained rows.
pub open spec fn placements_moved(placements: Seq<ImagePlacement>, distance: int) -> Seq<
    ImagePlacement,
> {
    Seq::new(
        placements.len(),
        |i: int|
            ImagePlacement {
                mode: placements[i].mode.at_row(
                    clamp_row(placements[i].mode.top() + clamp_row(distance)) as i64,
                ),
                ..placements[i]
            },
    )
}

impl HiddenView {
    /// The hidden screen in another size.
    pub open spec fn fit(self, cols: int, rows: int) -> Fitted {
        fitted(
            self.screen->0,
            (self.history->0).0,
            Cursor {
                row: self.cursor.0,
                col: self.cursor.1,
                pending: self.wrap_pending,
                retained_row: None,
            },
            match self.saved_cursor {
                Some(cursor) => cursor,
                None => Cursor { row: 0, col: 0, pending: false, retained_row: None },
            },
            cols,
            rows,
        )
    }

    pub open spec fn resized(self, cols: int, rows: int) -> HiddenView {
        if self.screen is Some && self.history is Some {
            let fit = self.fit(cols, rows);
            let (history, lines) = self.history->0;
            HiddenView {
                screen: Some(fit.screen),
                cursor: (fit.first.row, fit.first.col),
                wrap_pending: fit.first.pending,
                saved_cursor: Some(fit.second),
                history: Some(
                    (
                        fit.history,
                        recounted_lines(
                            lines,
                            history.rows.len() as int,
                            fit.history.rows.len() as int,
                        ),
                    ),
                ),
            }
        } else {
            self
        }
    }
}

/// The rows and lines of a screen can still be counted after it is repacked.
pub open spec fn refittable(
    screen: BufferView,
    history: HistoryView,
    lines: int,
    cols: int,
) -> bool {
    let count = retained(history, screen).len() as int;
    &&& reflow_countable(count, screen.cols, cols)
    &&& lines + 1 + count * (screen.cols + 2) <= usize::MAX
}

impl GridView {
    /// The machine can hold and count the text in the new size.
    pub open spec fn resizable(self, cols: int, rows: int) -> bool {
        &&& cols * rows <= usize::MAX / 2
        &&& refittable(self.screen, self.history, self.total_lines, cols)
        &&& self.hidden.screen is Some && self.hidden.history is Some ==> refittable(
            self.hidden.screen->0,
            (self.hidden.history->0).0,
            (self.hidden.history->0).1,
            cols,
        )
    }

    /// The shown screen in another size.
    pub open spec fn fit(self, cols: int, rows: int) -> Fitted {
        fitted(
            self.screen,
            self.history,
            Cursor {
                row: self.cursor_row as usize,
                col: self.clamped_col() as usize,
                pending: self.wraps_next(),
                retained_row: None,
            },
            Cursor {
                row: least(self.saved_cursor.row as int, self.rows() - 1) as usize,
                col: least(self.saved_cursor.col as int, self.cols() - 1) as usize,
                ..self.saved_cursor
            },
            cols,
            rows,
        )
    }

    /// The terminal in another size.
    pub open spec fn resized(self, cols: int, rows: int) -> GridView {
        let fit = self.fit(cols, rows);
        GridView {
            screen: fit.screen,
            cursor_row: fit.first.row as int,
            cursor_col: fit.first.col as int,
            wrap_pending: fit.first.pending,
            saved_cursor: fit.second,
            scroll_top: 0,
            scroll_bottom: rows - 1,
            dirty: Seq::new(rows as nat, |i: int| true),
            history: fit.history,
            scroll_offset: least(self.scroll_offset, fit.history.rows.len() as int),
            total_lines: recounted_lines(
                self.total_lines,
                self.history.rows.len() as int,
                fit.history.rows.len() as int,
            ),
            hidden: self.hidden.resized(cols, rows),
            revisions: self.revisions.selection_moved(),
            ..self
        }
    }

    /// The screen moved over the retained rows so that it holds row `row`.
    #[verifier::opaque]
    pub open spec fn row_revealed(self, row: int) -> GridView {
        let all = retained(self.history, self.screen);
        let target = least(row, all.len() - 1);
        let start = least(target, all.len() - self.rows());
        let (screen, history) = laid_out(all, start, self.history, self.rows(), self.cols());
        let before = self.history.rows.len() as int;
        GridView {
            screen,
            history,
            saved_cursor: Cursor {
                row: (target - start) as usize,
                retained_row: None,
                ..self.saved_cursor
            },
            total_lines: recounted_lines(self.total_lines, before, start),
            scroll_offset: 0,
            revisions: self.revisions.selection_moved(),
            images: ImagesView {
                placements: placements_moved(self.images.placements, before - start),
                ..self.images
            },
            ..self.all_dirty()
        }
    }

    /// The cursor back at its saved position, which is first brought back onto
    /// the screen.
    pub open spec fn cursor_restored(self) -> GridView {
        let ready = match self.saved_cursor.retained_row {
            Some(row) => self.row_revealed(row as int),
            None => self,
        };
        GridView {
            cursor_row: least(ready.saved_cursor.row as int, self.rows() - 1),
            cursor_col: least(ready.saved_cursor.col as int, self.cols() - 1),
            wrap_pending: ready.saved_cursor.pending,
            ..ready
        }
    }

    /// The machine can count the retained rows and their cells.
    pub open spec fn countable(self) -> bool {
        let count = retained(self.history, self.screen).len();
        &&& count * self.cols() <= usize::MAX
        &&& self.total_lines + count <= usize::MAX
    }
}

fn recount_lines(total: usize, before: usize, after: usize) -> (r: usize)
    requires
        total + after <= usize::MAX,
    ensures
        r == recounted_lines(total as int, before as int, after as int),
{
    total.saturating_sub(before) + after
}

fn resize_hidden(
    hidden: &mut HiddenScreen,
    cols: usize,
    rows: usize,
    Ghost(old_cols): Ghost<int>,
    Ghost(old_rows): Ghost<int>,
)
    requires
        old(hidden).wf(old_cols, old_rows),
        old_rows > 0,
        cols > 0,
        rows > 0,
        cols * rows <= usize::MAX / 2,
        old(hidden)@.screen is Some && old(hidden)@.history is Some ==> refittable(
            old(hidden)@.screen->0,
            (old(hidden)@.history->0).0,
            (old(hidden)@.history->0).1,
            cols as int,
        ),
    ensures
        final(hidden).wf(cols as int, rows as int),
        final(hidden)@ == old(hidden)@.resized(cols as int, rows as int),
{
    let primary: Option<Buffer> = hidden.buffer.take();
    let kept: Option<(History, usize)> = hidden.history.take();
    if let (Some(primary), Some((history, lines))) = (primary, kept) {
        let mut primary = primary;
        let mut history = history;
        let first = Cursor {
            row: hidden.cursor.0,
            col: hidden.cursor.1,
            pending: hidden.wrap_pending,
            retained_row: None,
        };
        let second: Cursor = match hidden.saved_cursor {
            Some(cursor) => cursor,
            None => Cursor { row: 0, col: 0, pending: false, retained_row: None },
        };
        let before: usize = history.len();
        let (first, second) = fit_screen(&mut primary, &mut history, first, second, cols, rows);
        let lines: usize = recount_lines(lines, before, history.len());
        hidden.buffer = Some(primary);
        hidden.history = Some((history, lines));
        hidden.cursor = (first.row, first.col);
        hidden.wrap_pending = first.pending;
        hidden.saved_cursor = Some(second);
    }
}

fn move_placements(placements: &mut Vec<ImagePlacement>, before: usize, after: usize)
    ensures
        final(placements)@ == placements_moved(old(placements)@, before - after),
{
    let distance: i64 = row_distance(before, after);
    let mut i: usize = 0;
    while i < placements.len()
        invariant
            distance == clamp_row(before - after),
            i <= placements@.len(),
            placements@.len() == old(placements)@.len(),
            forall|j: int|
                0 <= j < placements@.len() ==> #[trigger] placements@[j] == if j < i {
                    placements_moved(old(placements)@, before - after)[j]
                } else {
                    old(placements)@[j]
                },
        decreases placements@.len() - i,
    {
        let mut placement: ImagePlacement = placements[i];
        let (row, _, _, _) = placement.mode.signed_cell_rect(0, 0);
        placement.mode.set_row(offset_row(row, distance));
        placements[i] = placement;
        i += 1;
    }
    proof {
        assert(placements@ =~= placements_moved(old(placements)@, before - after));
    }
}

/// The rows from `after` to `before`, limited to the range of an `i64`.
fn row_distance(before: usize, after: usize) -> (r: i64)
    ensures
        r == clamp_row(before - after),
{
    if before >= after {
        let distance: usize = before - after;
        if distance as u128 > i64::MAX as u128 { i64::MAX } else { distance as i64 }
    } else {
        let distance: usize = after - before;
        if distance as u128 > i64::MAX as u128 { i64::MIN } else { -(distance as i64) }
    }
}

impl Grid {
    /// Fit the terminal to another size.
    pub fn resize(&mut self, cols: usize, rows: usize)
        requires
            old(self).wf(),
            cols > 0,
            rows > 0,
            old(self)@.resizable(cols as int, rows as int),
        ensures
            final(self).wf(),
            final(self)@ == if cols == old(self)@.cols() && rows == old(self)@.rows() {
                old(self)@
            } else {
                old(self)@.resized(cols as int, rows as int)
            },
    {
        let old_cols: usize = self.cols();
        let old_rows: usize = self.rows();
        if cols == old_cols && rows == old_rows {
            return;
        }
        let first = Cursor {
            row: self.cursor_row,
            col: self.limited_col(),
            pending: self.is_wrap_pending(),
            retained_row: None,
        };
        let saved: Cursor = self.saved_cursor;
        let second = Cursor {
            row: if saved.row < old_rows - 1 { saved.row } else { old_rows - 1 },
            col: if saved.col < old_cols - 1 { saved.col } else { old_cols - 1 },
            pending: saved.pending,
            retained_row: saved.retained_row,
        };
        let before: usize = self.history.len();
        let (first, second) = fit_screen(
            &mut self.buffer,
            &mut self.history,
            first,
            second,
            cols,
            rows,
        );
        let lines: usize = recount_lines(self.total_lines_pushed, before, self.history.len());
        resize_hidden(
            &mut self.hidden,
            cols,
            rows,
            Ghost(old_cols as int),
            Ghost(old_rows as int),
        );
        let above: usize = self.history.len();
        let mut dirty: Vec<bool> = Vec::with_capacity(rows);
        while dirty.len() < rows
            invariant
                dirty@.len() <= rows,
                forall|i: int| 0 <= i < dirty@.len() ==> dirty@[i],
            decreases rows - dirty@.len(),
        {
            dirty.push(true);
        }
        self.total_lines_pushed = lines;
        self.cursor_row = first.row;
        self.cursor_col = first.col;
        self.wrap_pending = first.pending;
        self.saved_cursor = second;
        self.scroll_offset = if self.scroll_offset < above { self.scroll_offset } else { above };
        self.scroll_top = 0;
        self.scroll_bottom = rows - 1;
        self.dirty = dirty;
        self.revisions.move_selection();
        proof {
            self.buffer.lemma_shape();
            assert(self@.dirty =~= Seq::new(rows as nat, |i: int| true));
            assert(self.wf());
        }
    }

    /// Bring a retained row back onto the screen. What it displaces stays
    /// retained, as after a resize.
    fn reveal_saved_cursor(&mut self, retained_row: usize)
        requires
            old(self).wf(),
            old(self)@.countable(),
        ensures
            final(self).wf(),
            final(self)@ == old(self)@.row_revealed(retained_row as int),
            final(self)@.rows() == old(self)@.rows(),
            final(self)@.cols() == old(self)@.cols(),
    {
        reveal(GridView::row_revealed);
        let before: usize = self.history.len();
        let rows: usize = self.rows();
        let cols: usize = self.cols();
        proof {
            self.buffer.lemma_shape();
            lemma_retained_width(self@.history, self@.screen);
        }
        let source: Vec<RetainedRow> = take_retained(&self.buffer, &mut self.history);
        proof {
            assert(source@.len() == row_views(source@).len());
        }
        let count: usize = source.len();
        let target: usize = if retained_row < count - 1 { retained_row } else { count - 1 };
        let spare: usize = count - rows;
        let start: usize = if target < spare { target } else { spare };
        lay_out(&mut self.buffer, &mut self.history, source, start, rows, cols);
        move_placements(&mut self.images.placements, before, start);
        let lines: usize = recount_lines(self.total_lines_pushed, before, start);
        self.total_lines_pushed = lines;
        self.saved_cursor.row = target - start;
        self.saved_cursor.retained_row = None;
        self.scroll_offset = 0;
        self.revisions.move_selection();
        proof {
            self.buffer.lemma_shape();
            assert(self.wf());
        }
        self.mark_all_dirty();
    }

    pub fn restore_cursor(&mut self)
        requires
            old(self).wf(),
            old(self)@.saved_cursor.retained_row is Some ==> old(self)@.countable(),
        ensures
            final(self).wf(),
            final(self)@ == old(self)@.cursor_restored(),
    {
        if let Some(row) = self.saved_cursor.retained_row {
            self.reveal_saved_cursor(row);
        }
        let last_row: usize = self.rows() - 1;
        let last_col: usize = self.cols() - 1;
        let saved: Cursor = self.saved_cursor;
        self.cursor_row = if saved.row < last_row { saved.row } else { last_row };
        self.cursor_col = if saved.col < last_col { saved.col } else { last_col };
        self.wrap_pending = saved.pending;
    }
}

} // verus!
