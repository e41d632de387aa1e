//! The alternate screen.
use crate::graphics::ImagePlacement;
use crate::grid::buffer::{Buffer, BufferView};
use crate::grid::cursor::least;
use crate::grid::reflow::Cursor;
use crate::grid::retention::{History, HistoryView};
use crate::grid::terminal::{Grid, GridView, HiddenScreen, HiddenView, ImagesView};
use vstd::prelude::*;

verus! {

/// A cursor at home.
pub open spec fn home_cursor() -> Cursor {
    Cursor { row: 0, col: 0, pending: false, retained_row: None }
}

impl GridView {
    /// A blank alternate screen over the primary one, which is kept.
    pub open spec fn alternate_entered(self) -> GridView {
        GridView {
            screen: BufferView::blank(self.cols(), self.rows()),
            cursor_row: 0,
            cursor_col: 0,
            wrap_pending: false,
            saved_cursor: home_cursor(),
            scroll_top: 0,
            scroll_bottom: self.rows() - 1,
            history: HistoryView::empty(self.history.line_budget, self.cols()),
            scroll_offset: 0,
            total_lines: 0,
            using_alt_screen: true,
            hidden: HiddenView {
                screen: Some(self.screen),
                cursor: (self.cursor_row as usize, self.clamped_col() as usize),
                wrap_pending: self.wraps_next(),
                saved_cursor: Some(self.saved_cursor),
                history: Some((self.history, self.total_lines)),
            },
            revisions: self.revisions.screen_switched(),
            images: ImagesView {
                placements: Seq::empty(),
                primary_placements: Some(self.images.placements),
                ..self.images
            },
            ..self.all_dirty()
        }
    }

    /// The primary screen again, with what was kept of it.
    pub open spec fn alternate_left(self) -> GridView {
        GridView {
            screen: match self.hidden.screen {
                Some(screen) => screen,
                None => self.screen,
            },
            cursor_row: least(self.hidden.cursor.0 as int, self.rows() - 1),
            cursor_col: least(self.hidden.cursor.1 as int, self.cols() - 1),
            wrap_pending: self.hidden.wrap_pending,
            saved_cursor: match self.hidden.saved_cursor {
                Some(cursor) => cursor,
                None => self.saved_cursor,
            },
            scroll_top: 0,
            scroll_bottom: self.rows() - 1,
            history: match self.hidden.history {
                Some((history, _)) => history,
                None => self.history,
            },
            total_lines: match self.hidden.history {
                Some((_, lines)) => lines,
                None => self.total_lines,
            },
            using_alt_screen: false,
            hidden: HiddenView {
                screen: None,
                saved_cursor: None,
                history: None,
                ..self.hidden
            },
            revisions: self.revisions.screen_switched(),
            images: ImagesView {
                placements: match self.images.primary_placements {
                    Some(placements) => placements,
                    None => Seq::empty(),
                },
                primary_placements: None,
                ..self.images
            },
            ..self.all_dirty()
        }
    }
}

impl Grid {
    /// Show a blank alternate screen.
    pub fn enter_alt_screen(&mut self)
        requires
            old(self).wf(),
        ensures
            final(self).wf(),
            final(self)@ == if old(self)@.using_alt_screen {
                old(self)@
            } else {
                old(self)@.alternate_entered()
            },
    {
        if self.using_alt_screen {
            return;
        }
        let cols: usize = self.cols();
        let rows: usize = self.rows();
        let cursor: (usize, usize) = (self.cursor_row, self.limited_col());
        let pending: bool = self.is_wrap_pending();
        proof {
            self.buffer.lemma_shape();
        }
        let mut shown: Buffer = Buffer::new(cols, rows);
        let mut history: History = History::new(self.history.max_lines, cols);
        let mut placements: Vec<ImagePlacement> = Vec::new();
        self.mark_all_dirty();
        core::mem::swap(&mut self.buffer, &mut shown);
        core::mem::swap(&mut self.history, &mut history);
        core::mem::swap(&mut self.images.placements, &mut placements);
        self.images.primary_placements = Some(placements);
        self.hidden = HiddenScreen {
            buffer: Some(shown),
            cursor,
            wrap_pending: pending,
            saved_cursor: Some(self.saved_cursor),
            history: Some((history, self.total_lines_pushed)),
        };
        self.revisions.switch_screen();
        self.using_alt_screen = true;
        self.scroll_offset = 0;
        self.saved_cursor = Cursor { row: 0, col: 0, pending: false, retained_row: None };
        self.total_lines_pushed = 0;
        self.cursor_row = 0;
        self.cursor_col = 0;
        self.wrap_pending = false;
        self.scroll_top = 0;
        self.scroll_bottom = rows - 1;
        proof {
            self.buffer.lemma_shape();
            assert(self@.images.placements =~= Seq::<ImagePlacement>::empty());
            assert(self.wf());
        }
    }

    /// Show the primary screen again.
    pub fn leave_alt_screen(&mut self)
        requires
            old(self).wf(),
        ensures
            final(self).wf(),
            final(self)@ == if old(self)@.using_alt_screen {
                old(self)@.alternate_left()
            } else {
                old(self)@
            },
    {
        if !self.using_alt_screen {
            return;
        }
        let last_row: usize = self.rows() - 1;
        let last_col: usize = self.cols() - 1;
        let (row, col) = self.hidden.cursor;
        self.mark_all_dirty();
        self.restore_hidden_text();
        if let Some(cursor) = self.hidden.saved_cursor.take() {
            self.saved_cursor = cursor;
        }
        let placements: Vec<ImagePlacement> = match self.images.primary_placements.take() {
            Some(placements) => placements,
            None => Vec::new(),
        };
        self.images.placements = placements;
        self.revisions.switch_screen();
        self.using_alt_screen = false;
        self.cursor_row = if row < last_row { row } else { last_row };
        self.cursor_col = if col < last_col { col } else { last_col };
        self.wrap_pending = self.hidden.wrap_pending;
        self.scroll_top = 0;
        self.scroll_bottom = last_row;
        proof {
            assert(self@.images.placements =~= old(
                self)@.alternate_left().images.placements);
            assert(self.wf());
        }
    }

    /// Bring back the hidden screen and its history.
    fn restore_hidden_text(&mut self)
        requires
            old(self).wf(),
        ensures
            final(self).wf(),
            final(self)@ == (GridView {
                screen: match old(self)@.hidden.screen {
                    Some(screen) => screen,
                    None => old(self)@.screen,
                },
                history: match old(self)@.hidden.history {
                    Some((history, _)) => history,
                    None => old(self)@.history,
                },
                total_lines: match old(self)@.hidden.history {
                    Some((_, lines)) => lines,
                    None => old(self)@.total_lines,
                },
                hidden: HiddenView { screen: None, history: None, ..old(self)@.hidden },
                ..old(self)@
            }),
    {
        let primary: Option<Buffer> = self.hidden.buffer.take();
        let kept: Option<(History, usize)> = self.hidden.history.take();
        assert(self.wf());
        if let Some(primary) = primary {
            proof {
                primary.lemma_shape();
            }
            self.buffer = primary;
        }
        assert(self.wf());
        if let Some((history, lines)) = kept {
            self.history = history;
            self.total_lines_pushed = lines;
        }
    }
}

} // verus!
