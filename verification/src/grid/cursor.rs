//! Cursor movement, line feeds and the scroll region.
use crate::grid::operations::lemma_lines_keep_history_rows;
use crate::grid::reflow::Cursor;
use crate::grid::scroll::law_scroll_frame;
use crate::grid::terminal::{Grid, GridView, Modes};
use vstd::prelude::*;

verus! {

/// The smaller of two positions.
pub open spec fn least(a: int, b: int) -> int {
    if a < b { a } else { b }
}

impl GridView {
    pub open spec fn at_line_start(self) -> GridView {
        GridView { wrap_pending: false, cursor_col: 0, ..self }
    }

    /// The cursor one row down; at the bottom of the scroll region the region
    /// moves instead.
    #[verifier::opaque]
    pub open spec fn line_advanced(self) -> GridView {
        let ready = self.unwrapped();
        if ready.cursor_row == ready.scroll_bottom {
            ready.scrolled_up(1)
        } else {
            GridView {
                cursor_row: if ready.cursor_row < ready.rows() - 1 {
                    ready.cursor_row + 1
                } else {
                    ready.cursor_row
                },
                ..ready
            }
        }
    }

    /// The line of the cursor ends in its row, or goes on in the next one.
    pub open spec fn with_line_wrapped(self, wrapped: bool) -> GridView {
        GridView { screen: self.screen.with_wrapped(self.cursor_row, wrapped), ..self }
    }

    pub open spec fn soft_wrapped(self) -> GridView {
        self.with_line_wrapped(true).at_line_start().line_advanced()
    }

    pub open spec fn after_newline(self) -> GridView {
        self.with_line_wrapped(false).line_advanced()
    }

    /// The column of the next tab stop, every eight columns, or the last one.
    pub open spec fn next_tab(self) -> int {
        least((self.cursor_col / 8 + 1) * 8, self.cols() - 1)
    }

    pub open spec fn with_cursor(self, row: int, col: int) -> GridView {
        GridView {
            wrap_pending: false,
            cursor_row: least(row, self.rows() - 1),
            cursor_col: least(col, self.cols() - 1),
            ..self
        }
    }

    /// The cursor stands in the scroll region.
    pub open spec fn cursor_in_region(self) -> bool {
        self.scroll_top <= self.cursor_row <= self.scroll_bottom
    }

    pub open spec fn with_scroll_top(self, top: int) -> GridView {
        GridView { scroll_top: top, ..self }
    }

    /// Blank rows at the cursor push the rest of the scroll region down.
    pub open spec fn lines_inserted(self, count: int) -> GridView {
        let ready = self.unwrapped();
        if ready.cursor_in_region() {
            ready.with_scroll_top(ready.cursor_row).scrolled_down(count).with_scroll_top(
                ready.scroll_top,
            )
        } else {
            ready
        }
    }

    /// Rows at the cursor are removed, and the rest of the scroll region
    /// follows.
    pub open spec fn lines_deleted(self, count: int) -> GridView {
        let ready = self.unwrapped();
        if ready.cursor_in_region() {
            ready.with_scroll_top(ready.cursor_row).scrolled_up(count).with_scroll_top(
                ready.scroll_top,
            )
        } else {
            ready
        }
    }

    /// Deleting lines at the cursor moves them into the history: the cursor
    /// stands in the first row of a primary screen that scrolls as a whole.
    pub open spec fn deleting_saves_lines(self) -> bool {
        self.cursor_in_region() && self.with_scroll_top(self.cursor_row).saves_lines()
    }

    /// The line counter has room for `count` more lines.
    pub open spec fn counts_lines(self, count: int) -> bool {
        self.total_lines + count <= usize::MAX
    }

    /// `count` line feeds.
    pub open spec fn after_newlines(self, count: int) -> GridView
        decreases count,
    {
        if count <= 0 { self } else { self.after_newlines(count - 1).after_newline() }
    }

    pub open spec fn backspaced(self) -> GridView {
        let col = self.clamped_col();
        GridView { wrap_pending: false, cursor_col: if col > 0 { col - 1 } else { 0 }, ..self }
    }

    /// The cursor at the next tab stop, unless it stands behind the last column.
    pub open spec fn tabbed(self) -> GridView {
        GridView {
            cursor_col: if self.cursor_col >= self.cols() {
                self.cursor_col
            } else {
                self.next_tab()
            },
            ..self
        }
    }

    pub open spec fn moved_up(self, n: int) -> GridView {
        GridView {
            cursor_row: if self.cursor_row > n { self.cursor_row - n } else { 0 },
            ..self.unwrapped()
        }
    }

    pub open spec fn moved_down(self, n: int) -> GridView {
        GridView { cursor_row: least(self.cursor_row + n, self.rows() - 1), ..self.unwrapped() }
    }

    pub open spec fn moved_forward(self, n: int) -> GridView {
        GridView {
            cursor_col: least(self.clamped_col() + n, self.cols() - 1),
            ..self.unwrapped()
        }
    }

    pub open spec fn moved_backward(self, n: int) -> GridView {
        let col = self.clamped_col();
        GridView { cursor_col: if col > n { col - n } else { 0 }, ..self.unwrapped() }
    }

    /// The cursor behind an image of the given size in cells.
    pub open spec fn image_passed(self, cols: int, rows: int) -> GridView {
        self.moved_forward(cols).after_newlines(rows)
    }

    /// Another scroll region and the cursor at home. An empty region changes
    /// nothing but the pending wrap.
    pub open spec fn with_region(self, top: int, bottom: int) -> GridView {
        let ready = self.unwrapped();
        let limit = least(bottom, ready.rows() - 1);
        if top < limit {
            GridView { scroll_top: top, scroll_bottom: limit, cursor_row: 0, cursor_col: 0, ..ready }
        } else {
            ready
        }
    }

    pub open spec fn with_saved_cursor(self) -> GridView {
        GridView { saved_cursor: self.cursor_to_save(), ..self }
    }

    /// The position that a saved cursor keeps.
    pub open spec fn cursor_to_save(self) -> Cursor {
        Cursor {
            row: self.cursor_row as usize,
            col: self.clamped_col() as usize,
            pending: self.wraps_next(),
            retained_row: None,
        }
    }
}

/// A line feed keeps the size of the screen and counts at most one line.
pub proof fn lemma_line_advanced_frame(grid: GridView)
    requires
        grid.valid(),
    ensures
        ({
            let next = grid.line_advanced();
            &&& next.cols() == grid.cols()
            &&& next.rows() == grid.rows()
            &&& next.dirty.len() == grid.dirty.len()
            &&& next.pen == grid.pen
            &&& next.modes == grid.modes
            &&& next.cursor_col == grid.clamped_col()
            &&& 0 <= next.cursor_row < next.rows()
            &&& !next.wrap_pending
            &&& next.scroll_top == grid.scroll_top
            &&& next.scroll_bottom == grid.scroll_bottom
            &&& next.using_alt_screen == grid.using_alt_screen
            &&& grid.total_lines <= next.total_lines <= grid.total_lines + 1
            &&& next.hidden == grid.hidden
            &&& next.session == grid.session
        }),
{
    reveal(GridView::line_advanced);
    law_scroll_frame(grid.unwrapped(), 1);
    lemma_scroll_counts(grid.unwrapped(), 1);
}

pub proof fn lemma_scroll_counts(grid: GridView, count: int)
    requires
        0 <= count,
        grid.scroll_top <= grid.scroll_bottom,
    ensures
        grid.total_lines <= grid.scrolled_up(count).total_lines <= grid.total_lines + count,
{
    reveal(GridView::scrolled_up);
    reveal(GridView::with_lines_gone);
    reveal(GridView::with_scrolled_images);
    reveal(GridView::with_revealed_tail);
}

impl Grid {
    pub fn carriage_return(&mut self)
        requires
            old(self).wf(),
        ensures
            final(self).wf(),
            final(self)@ == old(self)@.at_line_start(),
    {
        self.wrap_pending = false;
        self.cursor_col = 0;
    }

    fn set_line_wrapped(&mut self, wrapped: bool)
        requires
            old(self).wf(),
        ensures
            final(self).wf(),
            final(self)@ == old(self)@.with_line_wrapped(wrapped),
    {
        self.buffer.set_wrapped(self.cursor_row, wrapped);
        proof {
            self.buffer.lemma_shape();
        }
    }

    fn advance_line(&mut self)
        requires
            old(self).wf(),
            old(self)@.counts_lines(1),
        ensures
            final(self).wf(),
            final(self)@ == old(self)@.line_advanced(),
    {
        reveal(GridView::line_advanced);
        self.cancel_pending_wrap();
        if self.cursor_row == self.scroll_bottom {
            self.scroll_up(1);
        } else {
            let last: usize = self.rows() - 1;
            let row: usize = if self.cursor_row < last { self.cursor_row + 1 } else { self.cursor_row };
            self.cursor_row = row;
        }
    }

    /// Go on in the next row; the logical line continues there.
    pub(crate) fn soft_wrap(&mut self)
        requires
            old(self).wf(),
            old(self)@.counts_lines(1),
        ensures
            final(self).wf(),
            final(self)@ == old(self)@.soft_wrapped(),
    {
        self.set_line_wrapped(true);
        self.carriage_return();
        self.advance_line();
    }

    pub fn newline(&mut self)
        requires
            old(self).wf(),
            old(self)@.counts_lines(1),
        ensures
            final(self).wf(),
            final(self)@ == old(self)@.after_newline(),
            old(self)@.unresized() ==> final(self)@.unresized(),
    {
        proof {
            if self@.unresized() {
                lemma_lines_keep_history_rows(self@, 0);
            }
        }
        self.set_line_wrapped(false);
        self.advance_line();
    }

    pub fn backspace(&mut self)
        requires
            old(self).wf(),
        ensures
            final(self).wf(),
            final(self)@ == old(self)@.backspaced(),
    {
        self.cancel_pending_wrap();
        if self.cursor_col > 0 {
            self.cursor_col = self.cursor_col - 1;
        }
    }

    /// Move to the next tab stop. At the delayed wrap nothing happens; a wrap
    /// that a resize has left pending inside the margins stays pending.
    pub fn tab(&mut self)
        requires
            old(self).wf(),
        ensures
            final(self).wf(),
            final(self)@ == old(self)@.tabbed(),
    {
        let cols: usize = self.cols();
        if self.cursor_col < cols {
            proof {
                self.buffer.lemma_shape();
            }
            let last: usize = cols - 1;
            let next: usize = (self.cursor_col / 8 + 1) * 8;
            let col: usize = if next < last { next } else { last };
            self.cursor_col = col;
        }
    }

    pub fn current_absolute_row(&self) -> (r: usize)
        requires
            self@.counts_lines(self@.cursor_row),
        ensures
            r == self@.total_lines + self@.cursor_row,
    {
        self.total_lines_pushed + self.cursor_row
    }

    pub fn set_cursor_pos(&mut self, row: usize, col: usize)
        requires
            old(self).wf(),
        ensures
            final(self).wf(),
            final(self)@ == old(self)@.with_cursor(row as int, col as int),
    {
        let last_row: usize = self.rows() - 1;
        let last_col: usize = self.cols() - 1;
        self.wrap_pending = false;
        self.cursor_row = if row < last_row { row } else { last_row };
        self.cursor_col = if col < last_col { col } else { last_col };
    }

    pub fn move_cursor_up(&mut self, n: usize)
        requires
            old(self).wf(),
        ensures
            final(self).wf(),
            final(self)@ == old(self)@.moved_up(n as int),
    {
        self.cancel_pending_wrap();
        let row: usize = self.cursor_row.saturating_sub(n);
        self.cursor_row = row;
    }

    pub fn move_cursor_down(&mut self, n: usize)
        requires
            old(self).wf(),
        ensures
            final(self).wf(),
            final(self)@ == old(self)@.moved_down(n as int),
    {
        self.cancel_pending_wrap();
        let last: usize = self.rows() - 1;
        let row: usize = self.cursor_row;
        self.cursor_row = if n < last - row { row + n } else { last };
    }

    pub fn move_cursor_forward(&mut self, n: usize)
        requires
            old(self).wf(),
        ensures
            final(self).wf(),
            final(self)@ == old(self)@.moved_forward(n as int),
    {
        self.cancel_pending_wrap();
        let last: usize = self.cols() - 1;
        let col: usize = self.cursor_col;
        self.cursor_col = if n < last - col { col + n } else { last };
    }

    pub fn move_cursor_backward(&mut self, n: usize)
        requires
            old(self).wf(),
        ensures
            final(self).wf(),
            final(self)@ == old(self)@.moved_backward(n as int),
    {
        self.cancel_pending_wrap();
        let col: usize = self.cursor_col.saturating_sub(n);
        self.cursor_col = col;
    }

    /// Move past an image of the given size in cells.
    pub fn advance_image_cursor(&mut self, cols: usize, rows: usize)
        requires
            old(self).wf(),
            old(self)@.counts_lines(rows as int),
        ensures
            final(self).wf(),
            final(self)@ == old(self)@.image_passed(cols as int, rows as int),
    {
        self.move_cursor_forward(cols);
        let ghost start = self@;
        let mut row: usize = 0;
        while row < rows
            invariant
                row <= rows,
                self.wf(),
                self@ == start.after_newlines(row as int),
                self@.total_lines <= start.total_lines + row,
                start.counts_lines(rows as int),
            decreases rows - row,
        {
            let ghost before = self@;
            self.newline();
            row += 1;
            proof {
                before.with_line_wrapped(false).lemma_newline_counts();
            }
        }
    }

    /// Set the rows that scroll, and move the cursor home. An empty region is
    /// ignored.
    pub fn set_scroll_region(&mut self, top: usize, bottom: usize)
        requires
            old(self).wf(),
        ensures
            final(self).wf(),
            final(self)@ == old(self)@.with_region(top as int, bottom as int),
    {
        self.cancel_pending_wrap();
        let last: usize = self.rows() - 1;
        let limit: usize = if bottom < last { bottom } else { last };
        if top < limit {
            self.scroll_top = top;
            self.scroll_bottom = limit;
            self.cursor_row = 0;
            self.cursor_col = 0;
        }
    }

    fn set_scroll_top(&mut self, top: usize)
        requires
            old(self).wf(),
            top <= old(self)@.scroll_bottom,
        ensures
            final(self).wf(),
            final(self)@ == old(self)@.with_scroll_top(top as int),
    {
        self.scroll_top = top;
    }

    pub fn insert_lines(&mut self, count: usize)
        requires
            old(self).wf(),
        ensures
            final(self).wf(),
            final(self)@ == old(self)@.lines_inserted(count as int),
    {
        self.cancel_pending_wrap();
        if self.cursor_row >= self.scroll_top && self.cursor_row <= self.scroll_bottom {
            let top: usize = self.scroll_top;
            self.set_scroll_top(self.cursor_row);
            proof {
                law_scroll_frame(self@, count as int);
            }
            self.scroll_down(count);
            self.set_scroll_top(top);
        }
    }

    pub fn delete_lines(&mut self, count: usize)
        requires
            old(self).wf(),
            old(self)@.deleting_saves_lines() ==> old(self)@.counts_lines(
                least(count as int, old(self)@.rows()),
            ),
        ensures
            final(self).wf(),
            final(self)@ == old(self)@.lines_deleted(count as int),
            old(self)@.unresized() ==> final(self)@.unresized(),
    {
        proof {
            if self@.unresized() {
                lemma_lines_keep_history_rows(self@, count as nat);
            }
        }
        self.cancel_pending_wrap();
        if self.cursor_row >= self.scroll_top && self.cursor_row <= self.scroll_bottom {
            let top: usize = self.scroll_top;
            self.set_scroll_top(self.cursor_row);
            proof {
                law_scroll_frame(self@, count as int);
            }
            self.scroll_up(count);
            self.set_scroll_top(top);
        }
    }

    pub fn save_cursor(&mut self)
        requires
            old(self).wf(),
        ensures
            final(self).wf(),
            final(self)@ == old(self)@.with_saved_cursor(),
    {
        let cursor = Cursor {
            row: self.cursor_row,
            col: self.limited_col(),
            pending: self.is_wrap_pending(),
            retained_row: None,
        };
        self.saved_cursor = cursor;
    }

    pub fn set_auto_wrap(&mut self, enabled: bool)
        requires
            old(self).wf(),
        ensures
            final(self).wf(),
            final(self)@ == (GridView {
                modes: Modes { auto_wrap: enabled, ..old(self)@.modes },
                ..old(self)@
            }),
    {
        self.modes.auto_wrap = enabled;
    }
}

impl GridView {
    proof fn lemma_newline_counts(self)
        requires
            self.valid(),
        ensures
            self.line_advanced().total_lines <= self.total_lines + 1,
    {
        lemma_line_advanced_frame(self);
    }
}

} // verus!
