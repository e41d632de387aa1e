//! Erasing, inserting and deleting cells.
use crate::graphics::ImagePlacement;
use crate::grid::buffer::{Buffer, BufferView, RowMetadata, RowView};
use crate::grid::cell::{Cell, CellView};
use crate::grid::cursor::least;
use crate::grid::marks::rebased;
use crate::grid::reflow::Cursor;
use crate::grid::retention::{shifted_row, HistoryView};
use crate::grid::terminal::{Grid, GridView, ImagesView, SessionView};
use crate::grid::wide::{
    clear_wide_overlap, lemma_half_flags, overlap_cleared, repair_wide_buffer_row, repaired,
};
use vstd::prelude::*;

verus! {

/// A row whose columns `start..end` are erased. A row that loses its end no
/// longer continues in the next one.
#[verifier::opaque]
pub open spec fn erased_row(row: RowView, start: int, end: int, blank: CellView) -> RowView {
    let cleared = overlap_cleared(row.cells, start, end);
    let filled = Seq::new(
        row.cells.len(),
        |i: int| if start <= i < end { blank } else { cleared[i] },
    );
    RowView {
        cells: repaired(filled, blank),
        metadata: if end >= row.content_len() {
            RowMetadata { len: least(row.content_len(), start) as usize, wrapped: false }
        } else {
            row.metadata
        },
    }
}

/// A row whose `count` cells from `col` on are deleted.
#[verifier::opaque]
pub open spec fn closed_row(row: RowView, col: int, count: int, blank: CellView) -> RowView {
    let cleared = overlap_cleared(row.cells, col, col + count);
    let moved = Seq::new(
        row.cells.len(),
        |i: int|
            if i < col {
                cleared[i]
            } else if i + count < row.cells.len() {
                cleared[i + count]
            } else {
                blank
            },
    );
    let len = row.content_len();
    let kept = if len > count { len - count } else { 0 };
    RowView {
        cells: repaired(moved, blank),
        metadata: RowMetadata {
            len: if kept > least(col, len) { kept as usize } else { least(col, len) as usize },
            ..row.metadata
        },
    }
}

/// A row with `count` blank cells inserted at `col`.
#[verifier::opaque]
pub open spec fn opened_row(row: RowView, col: int, count: int, blank: CellView) -> RowView {
    let cleared = overlap_cleared(row.cells, col, col);
    let moved = Seq::new(
        row.cells.len(),
        |i: int|
            if i < col {
                cleared[i]
            } else if i >= col + count {
                cleared[i - count]
            } else {
                blank
            },
    );
    let len = row.content_len();
    let reached = if len > col { len } else { col };
    RowView {
        cells: repaired(moved, blank),
        metadata: RowMetadata {
            len: least(reached + count, row.cells.len() as int) as usize,
            ..row.metadata
        },
    }
}

/// The images that end above the screen, or those that do not.
pub open spec fn placements_above(
    placements: Seq<ImagePlacement>,
    above: bool,
    cell_height: u16,
) -> Seq<ImagePlacement>
    decreases placements.len(),
{
    if placements.len() == 0 {
        placements
    } else {
        let before = placements_above(placements.drop_last(), above, cell_height);
        let placement = placements.last();
        if (placement.mode.bottom(cell_height) <= 0) == above {
            before.push(placement)
        } else {
            before
        }
    }
}

impl BufferView {
    pub open spec fn with_row(self, row: int, content: RowView) -> BufferView {
        BufferView { rows: self.rows.update(row, content), ..self }
    }

    /// Rows `from..to` filled with one cell.
    pub open spec fn rows_cleared(self, from: int, to: int, template: CellView) -> BufferView {
        BufferView {
            rows: Seq::new(
                self.rows.len(),
                |r: int|
                    if from <= r < to {
                        RowView::filled(self.cols, template)
                    } else {
                        self.rows[r]
                    },
            ),
            ..self
        }
    }
}

impl GridView {
    /// Another content in the row of the cursor.
    pub open spec fn with_cursor_row(self, content: RowView) -> GridView {
        self.with_screen(self.screen.with_row(self.cursor_row, content)).dirty_rows(
            self.cursor_row,
            self.cursor_row + 1,
        )
    }

    /// Columns `start..end` of the cursor row erased.
    pub open spec fn range_erased(self, start: int, end: int) -> GridView {
        if start >= end {
            self
        } else {
            self.with_cursor_row(
                erased_row(self.screen.rows[self.cursor_row], start, end, self.template()),
            )
        }
    }

    /// The cursor row erased from the cursor on, up to it, or as a whole.
    pub open spec fn line_erased(self, mode: u16) -> GridView {
        let ready = self.unwrapped();
        if mode == 0 {
            ready.range_erased(ready.cursor_col, ready.cols())
        } else if mode == 1 {
            ready.range_erased(0, ready.cursor_col + 1)
        } else if mode == 2 {
            ready.range_erased(0, ready.cols())
        } else {
            ready
        }
    }

    /// `count` cells from the cursor on erased.
    pub open spec fn chars_erased(self, count: int) -> GridView {
        let ready = self.unwrapped();
        ready.range_erased(ready.cursor_col, least(ready.cursor_col + count, ready.cols()))
    }

    pub open spec fn chars_deleted(self, count: int) -> GridView {
        let ready = self.unwrapped();
        ready.with_cursor_row(
            closed_row(
                ready.screen.rows[ready.cursor_row],
                ready.cursor_col,
                least(count, ready.cols() - ready.cursor_col),
                ready.template(),
            ),
        )
    }

    pub open spec fn blanks_inserted(self, count: int) -> GridView {
        let ready = self.unwrapped();
        ready.with_cursor_row(
            opened_row(
                ready.screen.rows[ready.cursor_row],
                ready.cursor_col,
                least(count, ready.cols() - ready.cursor_col),
                ready.template(),
            ),
        )
    }

    /// Rows `from..to` erased as a whole.
    pub open spec fn rows_erased(self, from: int, to: int) -> GridView {
        self.with_screen(self.screen.rows_cleared(from, to, self.template())).dirty_rows(from, to)
    }

    /// The rows below the screen are forgotten.
    pub open spec fn without_tail(self) -> GridView {
        GridView { history: HistoryView { tail: Seq::empty(), ..self.history }, ..self }
    }

    pub open spec fn with_placements_above(self, above: bool) -> GridView {
        GridView {
            images: ImagesView {
                placements: placements_above(
                    self.images.placements,
                    above,
                    self.images.cell_pixel_height,
                ),
                ..self.images
            },
            ..self
        }
    }

    /// The history is forgotten: rows, images and marks above the screen.
    pub open spec fn without_history(self) -> GridView {
        GridView {
            revisions: self.revisions.selection_moved(),
            saved_cursor: Cursor {
                retained_row: shifted_row(
                    self.saved_cursor.retained_row,
                    self.history.rows.len() as int,
                ),
                ..self.saved_cursor
            },
            history: HistoryView { rows: Seq::empty(), ..self.history },
            scroll_offset: 0,
            session: SessionView {
                marks: rebased(self.session.marks, self.total_lines),
                ..self.session
            },
            total_lines: 0,
            dirty: if self.scroll_offset != 0 { self.all_dirty().dirty } else { self.dirty },
            ..self.with_placements_above(false)
        }
    }

    /// The screen erased from the cursor on, up to it, as a whole, or the
    /// history of the primary screen.
    pub open spec fn display_erased(self, mode: u16) -> GridView {
        if mode == 0 {
            self.without_tail().line_erased(0).rows_erased(self.cursor_row + 1, self.rows())
        } else if mode == 1 {
            self.line_erased(1).rows_erased(0, self.cursor_row)
        } else if mode == 2 {
            self.without_tail().unwrapped().with_selection_moved(true).rows_erased(
                0,
                self.rows(),
            ).with_placements_above(true)
        } else if mode == 3 && !self.using_alt_screen {
            self.without_history()
        } else {
            self
        }
    }
}

/// Erase columns `start..end` of a row.
fn erase_cells(buffer: &mut Buffer, row: usize, start: usize, end: usize, blank: &Cell)
    requires
        old(buffer).wf(),
        row < old(buffer)@.rows.len(),
        start < end <= old(buffer)@.cols,
        blank@.flags.bits == 0,
    ensures
        final(buffer).wf(),
        final(buffer)@ == old(buffer)@.with_row(
            row as int,
            erased_row(old(buffer)@.rows[row as int], start as int, end as int, blank@),
        ),
{
    reveal(erased_row);
    let ghost before = buffer@;
    let ghost source = before.rows[row as int];
    proof {
        buffer.lemma_shape();
        lemma_half_flags(blank@.flags);
        crate::grid::buffer::lemma_content_end(source.cells);
    }
    let metadata: RowMetadata = buffer.row_metadata(row);
    if end >= metadata.len {
        let len: usize = if metadata.len < start { metadata.len } else { start };
        buffer.set_row_metadata(row, RowMetadata { len, wrapped: false });
    }
    let ghost kept = buffer@.rows[row as int].metadata;
    clear_wide_overlap(buffer, row, start, end - start);
    let ghost marked = buffer@;
    let ghost cleared = overlap_cleared(source.cells, start as int, end as int);
    proof {
        buffer.lemma_shape();
        assert(marked.rows[row as int].cells == cleared);
    }
    let mut col: usize = start;
    proof {
        assert(buffer@ =~~= marked.with_cells(
            row as int,
            Seq::new(cleared.len(), |i: int| if start <= i < col { blank@ } else { cleared[i] }),
        ));
    }
    while col < end
        invariant
            buffer.wf(),
            start <= col <= end <= marked.cols,
            row < marked.rows.len(),
            marked.shaped(),
            cleared == marked.rows[row as int].cells,
            buffer@ == marked.with_cells(
                row as int,
                Seq::new(
                    cleared.len(),
                    |i: int| if start <= i < col { blank@ } else { cleared[i] },
                ),
            ),
        decreases end - col,
    {
        *buffer.cell_mut(row, col) = blank.clone();
        col += 1;
        proof {
            assert(buffer@ =~~= marked.with_cells(
                row as int,
                Seq::new(
                    cleared.len(),
                    |i: int| if start <= i < col { blank@ } else { cleared[i] },
                ),
            ));
        }
    }
    repair_wide_buffer_row(buffer, row, blank);
    proof {
        let goal = before.with_row(
            row as int,
            erased_row(source, start as int, end as int, blank@),
        );
        assert(buffer@.rows[row as int] == goal.rows[row as int]);
        assert(buffer@.rows =~= goal.rows);
    }
}

/// Delete `count` cells of a row from `col` on.
fn close_cells(buffer: &mut Buffer, row: usize, col: usize, count: usize, blank: &Cell)
    requires
        old(buffer).wf(),
        row < old(buffer)@.rows.len(),
        col + count <= old(buffer)@.cols,
        blank@.flags.bits == 0,
    ensures
        final(buffer).wf(),
        final(buffer)@ == old(buffer)@.with_row(
            row as int,
            closed_row(old(buffer)@.rows[row as int], col as int, count as int, blank@),
        ),
{
    reveal(closed_row);
    let ghost before = buffer@;
    let ghost source = before.rows[row as int];
    proof {
        buffer.lemma_shape();
        lemma_half_flags(blank@.flags);
        crate::grid::buffer::lemma_content_end(source.cells);
    }
    let cols: usize = buffer.cols();
    let metadata: RowMetadata = buffer.row_metadata(row);
    let kept: usize = metadata.len.saturating_sub(count);
    let reached: usize = if col < metadata.len { col } else { metadata.len };
    let len: usize = if kept > reached { kept } else { reached };
    buffer.set_row_metadata(row, RowMetadata { len, wrapped: metadata.wrapped });
    clear_wide_overlap(buffer, row, col, count);
    let ghost marked = buffer@;
    let ghost cleared = overlap_cleared(source.cells, col as int, col + count);
    proof {
        buffer.lemma_shape();
        assert(marked.rows[row as int].cells == cleared);
    }
    let ghost moved = |i: int, done: int|
        if i < col || i >= done {
            cleared[i]
        } else if i + count < cleared.len() {
            cleared[i + count]
        } else {
            blank@
        };
    let mut at: usize = col;
    proof {
        assert(buffer@ =~~= marked.with_cells(
            row as int,
            Seq::new(cleared.len(), |i: int| moved(i, at as int)),
        ));
    }
    while at < cols
        invariant
            buffer.wf(),
            col <= at <= cols == marked.cols,
            col + count <= cols,
            row < marked.rows.len(),
            marked.shaped(),
            cleared == marked.rows[row as int].cells,
            moved == (|i: int, done: int|
                if i < col || i >= done {
                    cleared[i]
                } else if i + count < cleared.len() {
                    cleared[i + count]
                } else {
                    blank@
                }),
            buffer@ == marked.with_cells(
                row as int,
                Seq::new(cleared.len(), |i: int| moved(i, at as int)),
            ),
        decreases cols - at,
    {
        let cell: Cell = if count < cols - at {
            buffer.cell(row, at + count).clone()
        } else {
            blank.clone()
        };
        *buffer.cell_mut(row, at) = cell;
        at += 1;
        proof {
            assert(buffer@ =~~= marked.with_cells(
                row as int,
                Seq::new(cleared.len(), |i: int| moved(i, at as int)),
            ));
        }
    }
    proof {
        assert(Seq::new(cleared.len(), |i: int| moved(i, cols as int)) =~= Seq::new(
            source.cells.len(),
            |i: int|
                if i < col {
                    cleared[i]
                } else if i + count < source.cells.len() {
                    cleared[i + count]
                } else {
                    blank@
                },
        ));
    }
    repair_wide_buffer_row(buffer, row, blank);
    proof {
        let goal = before.with_row(
            row as int,
            closed_row(source, col as int, count as int, blank@),
        );
        assert(buffer@.rows[row as int] == goal.rows[row as int]);
        assert(buffer@.rows =~= goal.rows);
    }
}

/// Insert `count` blank cells into a row at `col`.
fn open_cells(buffer: &mut Buffer, row: usize, col: usize, count: usize, blank: &Cell)
    requires
        old(buffer).wf(),
        row < old(buffer)@.rows.len(),
        col + count <= old(buffer)@.cols,
        blank@.flags.bits == 0,
    ensures
        final(buffer).wf(),
        final(buffer)@ == old(buffer)@.with_row(
            row as int,
            opened_row(old(buffer)@.rows[row as int], col as int, count as int, blank@),
        ),
{
    reveal(opened_row);
    let ghost before = buffer@;
    let ghost source = before.rows[row as int];
    proof {
        buffer.lemma_shape();
        lemma_half_flags(blank@.flags);
        crate::grid::buffer::lemma_content_end(source.cells);
    }
    let cols: usize = buffer.cols();
    let metadata: RowMetadata = buffer.row_metadata(row);
    let reached: usize = if metadata.len > col { metadata.len } else { col };
    let len: usize = if reached < cols - count { reached + count } else { cols };
    buffer.set_row_metadata(row, RowMetadata { len, wrapped: metadata.wrapped });
    clear_wide_overlap(buffer, row, col, 0);
    let ghost marked = buffer@;
    let ghost cleared = overlap_cleared(source.cells, col as int, col as int);
    proof {
        buffer.lemma_shape();
        assert(marked.rows[row as int].cells == cleared);
    }
    let ghost moved = |i: int, done: int|
        if i < col || i < done {
            cleared[i]
        } else if i >= col + count {
            cleared[i - count]
        } else {
            blank@
        };
    let mut at: usize = cols;
    proof {
        assert(buffer@ =~~= marked.with_cells(
            row as int,
            Seq::new(cleared.len(), |i: int| moved(i, at as int)),
        ));
    }
    while at > col
        invariant
            buffer.wf(),
            col <= at <= cols == marked.cols,
            col + count <= cols,
            row < marked.rows.len(),
            marked.shaped(),
            cleared == marked.rows[row as int].cells,
            moved == (|i: int, done: int|
                if i < col || i < done {
                    cleared[i]
                } else if i >= col + count {
                    cleared[i - count]
                } else {
                    blank@
                }),
            buffer@ == marked.with_cells(
                row as int,
                Seq::new(cleared.len(), |i: int| moved(i, at as int)),
            ),
        decreases at,
    {
        at -= 1;
        let cell: Cell = if at >= col + count {
            buffer.cell(row, at - count).clone()
        } else {
            blank.clone()
        };
        *buffer.cell_mut(row, at) = cell;
        proof {
            assert(buffer@ =~~= marked.with_cells(
                row as int,
                Seq::new(cleared.len(), |i: int| moved(i, at as int)),
            ));
        }
    }
    proof {
        assert(Seq::new(cleared.len(), |i: int| moved(i, col as int)) =~= Seq::new(
            source.cells.len(),
            |i: int|
                if i < col {
                    cleared[i]
                } else if i >= col + count {
                    cleared[i - count]
                } else {
                    blank@
                },
        ));
    }
    repair_wide_buffer_row(buffer, row, blank);
    proof {
        let goal = before.with_row(
            row as int,
            opened_row(source, col as int, count as int, blank@),
        );
        assert(buffer@.rows[row as int] == goal.rows[row as int]);
        assert(buffer@.rows =~= goal.rows);
    }
}

/// Fill the rows `from..to` with one cell.
fn clear_rows(buffer: &mut Buffer, from: usize, to: usize, blank: &Cell)
    requires
        old(buffer).wf(),
        to <= old(buffer)@.rows.len(),
    ensures
        final(buffer).wf(),
        final(buffer)@ == old(buffer)@.rows_cleared(from as int, to as int, blank@),
{
    let ghost start = buffer@;
    let mut row: usize = from;
    proof {
        assert(buffer@.rows =~= start.rows_cleared(from as int, row as int, blank@).rows);
    }
    while row < to
        invariant
            buffer.wf(),
            from <= row,
            row <= to || row == from,
            to <= start.rows.len(),
            buffer@ == start.rows_cleared(from as int, row as int, blank@),
        decreases to - row,
    {
        buffer.clear_row(row, blank.clone());
        row += 1;
        proof {
            assert(buffer@.rows =~= start.rows_cleared(from as int, row as int, blank@).rows);
        }
    }
    proof {
        assert(buffer@.rows =~= start.rows_cleared(from as int, to as int, blank@).rows);
    }
}

fn keep_placements(
    placements: &Vec<ImagePlacement>,
    above: bool,
    cell_height: u16,
) -> (r: Vec<ImagePlacement>)
    ensures
        r@ == placements_above(placements@, above, cell_height),
{
    let mut kept: Vec<ImagePlacement> = Vec::new();
    let mut i: usize = 0;
    while i < placements.len()
        invariant
            i <= placements@.len(),
            kept@ == placements_above(placements@.take(i as int), above, cell_height),
        decreases placements@.len() - i,
    {
        let placement: ImagePlacement = placements[i];
        proof {
            let prefix = placements@.take(i + 1);
            assert(prefix.drop_last() =~= placements@.take(i as int));
            assert(prefix.last() == placement);
        }
        if (placement.mode.bottom_row(cell_height) <= 0) == above {
            kept.push(placement);
        }
        i += 1;
    }
    proof {
        assert(placements@.take(i as int) =~= placements@);
    }
    kept
}

impl Grid {
    fn erase_range(&mut self, start: usize, end: usize)
        requires
            old(self).wf(),
            end <= old(self)@.cols(),
        ensures
            final(self).wf(),
            final(self)@ == old(self)@.range_erased(start as int, end as int),
    {
        if start >= end {
            return;
        }
        let row: usize = self.cursor_row;
        let blank: Cell = self.template_cell();
        proof {
            self.buffer.lemma_shape();
        }
        erase_cells(&mut self.buffer, row, start, end, &blank);
        proof {
            self.buffer.lemma_shape();
        }
        self.mark_dirty_rows(row, row + 1);
    }

    pub fn erase_in_line(&mut self, mode: u16)
        requires
            old(self).wf(),
        ensures
            final(self).wf(),
            final(self)@ == old(self)@.line_erased(mode),
    {
        self.cancel_pending_wrap();
        let cols: usize = self.cols();
        if mode == 0 {
            self.erase_range(self.cursor_col, cols);
        } else if mode == 1 {
            self.erase_range(0, self.cursor_col + 1);
        } else if mode == 2 {
            self.erase_range(0, cols);
        }
    }

    pub fn erase_chars(&mut self, count: usize)
        requires
            old(self).wf(),
        ensures
            final(self).wf(),
            final(self)@ == old(self)@.chars_erased(count as int),
    {
        self.cancel_pending_wrap();
        let cols: usize = self.cols();
        let start: usize = self.cursor_col;
        let end: usize = if count < cols - start { start + count } else { cols };
        self.erase_range(start, end);
    }

    pub fn delete_chars(&mut self, count: usize)
        requires
            old(self).wf(),
        ensures
            final(self).wf(),
            final(self)@ == old(self)@.chars_deleted(count as int),
    {
        self.cancel_pending_wrap();
        let row: usize = self.cursor_row;
        let col: usize = self.cursor_col;
        let room: usize = self.cols() - col;
        let blank: Cell = self.template_cell();
        proof {
            self.buffer.lemma_shape();
        }
        close_cells(&mut self.buffer, row, col, if count < room { count } else { room }, &blank);
        proof {
            self.buffer.lemma_shape();
        }
        self.mark_dirty_rows(row, row + 1);
    }

    pub fn insert_blank_chars(&mut self, count: usize)
        requires
            old(self).wf(),
        ensures
            final(self).wf(),
            final(self)@ == old(self)@.blanks_inserted(count as int),
    {
        self.cancel_pending_wrap();
        let row: usize = self.cursor_row;
        let col: usize = self.cursor_col;
        let room: usize = self.cols() - col;
        let blank: Cell = self.template_cell();
        proof {
            self.buffer.lemma_shape();
        }
        open_cells(&mut self.buffer, row, col, if count < room { count } else { room }, &blank);
        proof {
            self.buffer.lemma_shape();
        }
        self.mark_dirty_rows(row, row + 1);
    }

    fn erase_rows(&mut self, from: usize, to: usize)
        requires
            old(self).wf(),
            to <= old(self)@.rows(),
        ensures
            final(self).wf(),
            final(self)@ == old(self)@.rows_erased(from as int, to as int),
    {
        let blank: Cell = self.template_cell();
        clear_rows(&mut self.buffer, from, to, &blank);
        proof {
            self.buffer.lemma_shape();
        }
        self.mark_dirty_rows(from, to);
    }

    fn forget_tail(&mut self)
        requires
            old(self).wf(),
        ensures
            final(self).wf(),
            final(self)@ == old(self)@.without_tail(),
    {
        self.history.tail.clear();
        proof {
            assert(self@.history.tail =~= Seq::<RowView>::empty());
        }
    }

    fn keep_images(&mut self, above: bool)
        requires
            old(self).wf(),
        ensures
            final(self).wf(),
            final(self)@ == old(self)@.with_placements_above(above),
    {
        let kept: Vec<ImagePlacement> = keep_placements(
            &self.images.placements,
            above,
            self.images.cell_pixel_height,
        );
        self.images.placements = kept;
    }

    fn forget_history(&mut self)
        requires
            old(self).wf(),
        ensures
            final(self).wf(),
            final(self)@ == old(self)@.without_history(),
    {
        let scrolled: bool = self.scroll_offset != 0;
        let gone: usize = self.history.len();
        let saved: Option<usize> = match self.saved_cursor.retained_row {
            Some(row) => if row >= gone { Some(row - gone) } else { None },
            None => None,
        };
        self.keep_images(false);
        if scrolled {
            self.mark_all_dirty();
        }
        let erased: usize = self.total_lines_pushed;
        self.revisions.move_selection();
        self.saved_cursor.retained_row = saved;
        self.history.clear_rows();
        self.scroll_offset = 0;
        self.session.marks.erase_saved_lines(erased);
        self.total_lines_pushed = 0;
    }

    pub fn erase_in_display(&mut self, mode: u16)
        requires
            old(self).wf(),
        ensures
            final(self).wf(),
            final(self)@ == old(self)@.display_erased(mode),
    {
        let row: usize = self.cursor_row;
        let rows: usize = self.rows();
        if mode == 0 {
            self.forget_tail();
            self.erase_in_line(0);
            self.erase_rows(row + 1, rows);
        } else if mode == 1 {
            self.erase_in_line(1);
            self.erase_rows(0, row);
        } else if mode == 2 {
            self.forget_tail();
            self.cancel_pending_wrap();
            self.note_selection_moved(true);
            self.erase_rows(0, rows);
            self.keep_images(true);
        } else if mode == 3 && !self.using_alt_screen {
            self.forget_history();
        }
    }
}

} // verus!
