//! Scrolling, and what it moves into the history.
use crate::graphics::{clamp_row, offset_row, ImagePlacement};
use crate::grid::buffer::{BufferView, RowView};
use crate::grid::cell::Cell;
use crate::grid::operations::{
    law_partial_scrolls_leave_history, lemma_lines_keep_history_rows,
};
use crate::grid::reflow::{row_views, Cursor, RetainedRow};
use crate::grid::retention::{
    law_eviction_keeps_longest_suffix, lemma_evicted_width, retained_after, shifted_row,
    HistoryView,
};
use crate::grid::terminal::{Grid, GridView, ImagesView};
use vstd::prelude::*;

verus! {

/// The first `count` rows of a screen as they enter the history.
pub open spec fn leaving_rows(screen: BufferView, count: int) -> Seq<RowView> {
    Seq::new(
        count as nat,
        |i: int|
            RowView {
                cells: screen.rows[i].cells,
                metadata: screen.rows[i].content_metadata(),
            },
    )
}

impl GridView {
    /// The history takes up one row.
    pub open spec fn with_history_row(self, row: RowView) -> GridView {
        let history = self.history.pushed(row);
        GridView {
            history,
            saved_cursor: Cursor {
                retained_row: shifted_row(
                    self.saved_cursor.retained_row,
                    self.history.rows.len() + 1 - history.rows.len(),
                ),
                ..self.saved_cursor
            },
            ..self
        }
    }

    /// The history takes up the first `count` rows of the screen.
    pub open spec fn with_leaving_rows(self, count: int) -> GridView {
        let rows = retained_after(
            self.history.rows,
            leaving_rows(self.screen, count),
            self.history.line_budget,
            self.history.cell_budget,
        );
        GridView {
            history: HistoryView { rows, ..self.history },
            saved_cursor: Cursor {
                retained_row: shifted_row(
                    self.saved_cursor.retained_row,
                    self.history.rows.len() + count - rows.len(),
                ),
                ..self.saved_cursor
            },
            ..self
        }
    }

    /// The first row whose images are kept.
    pub open spec fn oldest_image_row(self, saves: bool) -> int {
        if !saves {
            self.scroll_top
        } else if self.history.rows.len() > i64::MAX {
            -i64::MAX
        } else {
            -(self.history.rows.len() as int)
        }
    }

    /// Where an image stands after the scroll region has moved by `distance`
    /// rows, if it is kept. An image is never split: it leaves with the first
    /// of its rows that meets a fixed row.
    pub open spec fn scrolled_placement(
        self,
        placement: ImagePlacement,
        distance: int,
        saves: bool,
    ) -> Option<ImagePlacement> {
        let row = placement.mode.top();
        let bottom = placement.mode.bottom(self.images.cell_pixel_height);
        let top = self.scroll_top;
        let end = self.scroll_bottom + 1;
        let up = distance < 0;
        let moved = clamp_row(row + distance);
        let moved_bottom = clamp_row(bottom + distance);
        if !saves && (bottom <= top || row >= end) {
            Some(placement)
        } else if !saves && ((!self.full_region() && (row < top || bottom > end)) || (!up && row
            < top)) {
            None
        } else if if saves || (self.full_region() && up) {
            moved_bottom > self.oldest_image_row(saves) && moved < end
        } else {
            moved >= top && moved_bottom <= end
        } {
            Some(ImagePlacement { mode: placement.mode.at_row(moved as i64), ..placement })
        } else {
            None
        }
    }

    pub open spec fn scrolled_placements(
        self,
        placements: Seq<ImagePlacement>,
        distance: int,
        saves: bool,
    ) -> Seq<ImagePlacement>
        decreases placements.len(),
    {
        if placements.len() == 0 {
            placements
        } else {
            let before = self.scrolled_placements(placements.drop_last(), distance, saves);
            match self.scrolled_placement(placements.last(), distance, saves) {
                Some(placement) => before.push(placement),
                None => before,
            }
        }
    }

    #[verifier::opaque]
    pub open spec fn with_scrolled_images(self, distance: int, saves: bool) -> GridView {
        if distance == 0 {
            self
        } else {
            GridView {
                images: ImagesView {
                    placements: self.scrolled_placements(
                        self.images.placements,
                        distance,
                        saves,
                    ),
                    ..self.images
                },
                ..self
            }
        }
    }

    /// The number of rows that a scroll by `count` moves.
    pub open spec fn scroll_distance(self, count: int) -> int {
        let height = self.scroll_bottom - self.scroll_top + 1;
        if count < height { count } else { height }
    }

    /// A scroll up moves rows into the history.
    pub open spec fn saves_lines(self) -> bool {
        !self.using_alt_screen && self.full_region()
    }

    /// Rows that wait below the screen take the place of the last `count` rows.
    #[verifier::opaque]
    pub open spec fn with_revealed_tail(self, count: int) -> GridView {
        if self.full_region() {
            let tail = self.history.tail;
            let reveal = if count < tail.len() { count } else { tail.len() as int };
            let first = self.rows() - count;
            GridView {
                screen: BufferView {
                    rows: Seq::new(
                        self.screen.rows.len(),
                        |r: int|
                            if first <= r < first + reveal {
                                tail[r - first]
                            } else {
                                self.screen.rows[r]
                            },
                    ),
                    ..self.screen
                },
                history: HistoryView { tail: tail.skip(reveal), ..self.history },
                ..self
            }
        } else {
            self
        }
    }

    /// What leaves the screen by a scroll up: history, line counter and
    /// selection.
    #[verifier::opaque]
    pub open spec fn with_lines_gone(self, distance: int) -> GridView {
        if self.saves_lines() {
            GridView {
                total_lines: self.total_lines + distance,
                ..self.with_leaving_rows(distance)
            }
        } else {
            self.with_selection_moved(distance != 0)
        }
    }

    /// A selection on the screen no longer fits, if `moved` is set.
    pub open spec fn with_selection_moved(self, moved: bool) -> GridView {
        GridView {
            revisions: if moved { self.revisions.selection_moved() } else { self.revisions },
            ..self
        }
    }

    pub open spec fn with_screen(self, screen: BufferView) -> GridView {
        GridView { screen, ..self }
    }

    /// The rows of the scroll region moved up.
    #[verifier::opaque]
    pub open spec fn scrolled_up(self, count: int) -> GridView {
        let distance = self.scroll_distance(count);
        let kept = self.with_lines_gone(distance).with_scrolled_images(
            -distance,
            self.saves_lines(),
        );
        kept.with_screen(
            self.screen.scrolled_up(
                self.scroll_top,
                self.scroll_bottom,
                distance,
                self.template(),
            ),
        ).with_revealed_tail(distance).dirty_rows(self.scroll_top, self.scroll_bottom + 1)
    }

    /// The rows of the scroll region moved down.
    #[verifier::opaque]
    pub open spec fn scrolled_down(self, count: int) -> GridView {
        let distance = self.scroll_distance(count);
        self.with_selection_moved(distance != 0).with_scrolled_images(distance, false).with_screen(
            self.screen.scrolled_down(
                self.scroll_top,
                self.scroll_bottom,
                distance,
                self.template(),
            ),
        ).dirty_rows(self.scroll_top, self.scroll_bottom + 1)
    }
}

impl Grid {
    /// Keep one row of the screen in the history.
    fn push_history_row(&mut self, row: usize)
        requires
            old(self).wf(),
            row < old(self)@.rows(),
        ensures
            final(self).wf(),
            final(self)@ == old(self)@.with_history_row(
                RowView {
                    cells: old(self)@.screen.rows[row as int].cells,
                    metadata: old(self)@.screen.rows[row as int].content_metadata(),
                },
            ),
    {
        proof {
            self.buffer.lemma_shape();
            let entry = RowView {
                cells: self@.screen.rows[row as int].cells,
                metadata: self@.screen.rows[row as int].content_metadata(),
            };
            lemma_evicted_width(
                self@.history.rows.push(entry),
                self@.history.line_budget,
                self@.history.cell_budget,
                self@.cols(),
            );
        }
        let gone: usize = self.history.push(
            self.buffer.extract_history_row(row),
            self.buffer.row_metadata(row),
        );
        let saved: Option<usize> = match self.saved_cursor.retained_row {
            Some(row) => if row >= gone { Some(row - gone) } else { None },
            None => None,
        };
        self.saved_cursor.retained_row = saved;
    }
}

/// What the parts of a scroll leave alone.
proof fn lemma_parts_frame(grid: GridView, distance: int, saves: bool)
    ensures
        ({
            let lost = grid.with_lines_gone(distance);
            lost == GridView {
                history: lost.history,
                saved_cursor: lost.saved_cursor,
                total_lines: lost.total_lines,
                revisions: lost.revisions,
                ..grid
            }
        }),
        ({
            let moved = grid.with_scrolled_images(distance, saves);
            moved == GridView { images: moved.images, ..grid }
        }),
        ({
            let shown = grid.with_revealed_tail(distance);
            &&& shown == GridView { screen: shown.screen, history: shown.history, ..grid }
            &&& shown.screen.cols == grid.screen.cols
            &&& shown.screen.rows.len() == grid.screen.rows.len()
        }),
{
    reveal(GridView::with_lines_gone);
    reveal(GridView::with_scrolled_images);
    reveal(GridView::with_revealed_tail);
}

/// A scroll leaves cursor, pen, modes and the hidden screen alone.
pub proof fn law_scroll_frame(grid: GridView, count: int)
    ensures
        ({
            let up = grid.scrolled_up(count);
            &&& up == GridView {
                screen: up.screen,
                history: up.history,
                saved_cursor: up.saved_cursor,
                total_lines: up.total_lines,
                revisions: up.revisions,
                images: up.images,
                dirty: up.dirty,
                ..grid
            }
            &&& up.cols() == grid.cols()
            &&& up.rows() == grid.rows()
            &&& up.dirty.len() == grid.dirty.len()
        }),
        ({
            let down = grid.scrolled_down(count);
            &&& down == GridView {
                screen: down.screen,
                revisions: down.revisions,
                images: down.images,
                dirty: down.dirty,
                ..grid
            }
            &&& down.cols() == grid.cols()
            &&& down.rows() == grid.rows()
            &&& down.dirty.len() == grid.dirty.len()
        }),
{
    reveal(GridView::scrolled_up);
    reveal(GridView::scrolled_down);
    let distance = grid.scroll_distance(count);
    lemma_parts_frame(grid, distance, grid.saves_lines());
    let lost = grid.with_lines_gone(distance);
    lemma_parts_frame(lost, -distance, grid.saves_lines());
    let kept = lost.with_scrolled_images(-distance, grid.saves_lines());
    let screen = grid.screen.scrolled_up(
        grid.scroll_top,
        grid.scroll_bottom,
        distance,
        grid.template(),
    );
    lemma_parts_frame(kept.with_screen(screen), distance, grid.saves_lines());
    lemma_parts_frame(grid.with_selection_moved(distance != 0), distance, false);
}

/// Rows enter the history one after the other.
proof fn lemma_leaving_step(grid: GridView, count: int)
    requires
        0 <= count < grid.screen.rows.len(),
        grid.history.line_budget >= 0,
        grid.history.cell_budget >= 0,
    ensures
        grid.with_leaving_rows(count).with_history_row(leaving_rows(grid.screen, count + 1).last())
            == grid.with_leaving_rows(count + 1),
{
    let leaving = leaving_rows(grid.screen, count + 1);
    assert(leaving.drop_last() =~= leaving_rows(grid.screen, count));
    lemma_retained_len(
        grid.history.rows,
        leaving.drop_last(),
        grid.history.line_budget,
        grid.history.cell_budget,
    );
    let mid = grid.with_leaving_rows(count);
    law_eviction_keeps_longest_suffix(
        mid.history.rows.push(leaving.last()),
        grid.history.line_budget,
        grid.history.cell_budget,
    );
}

proof fn lemma_retained_len(
    history: Seq<RowView>,
    leaving: Seq<RowView>,
    lines: int,
    cells: int,
)
    requires
        lines >= 0,
        cells >= 0,
    ensures
        retained_after(history, leaving, lines, cells).len() <= history.len() + leaving.len(),
    decreases leaving.len(),
{
    if leaving.len() > 0 {
        lemma_retained_len(history, leaving.drop_last(), lines, cells);
        law_eviction_keeps_longest_suffix(
            retained_after(history, leaving.drop_last(), lines, cells).push(leaving.last()),
            lines,
            cells,
        );
    }
}

impl Grid {
    /// Keep the first `count` rows of the screen in the history.
    fn push_history_rows(&mut self, count: usize)
        requires
            old(self).wf(),
            count <= old(self)@.rows(),
        ensures
            final(self).wf(),
            final(self)@ == old(self)@.with_leaving_rows(count as int),
    {
        let mut row: usize = 0;
        proof {
            assert(leaving_rows(self@.screen, 0) =~= Seq::<RowView>::empty());
            assert(self@.saved_cursor.retained_row == shifted_row(
                self@.saved_cursor.retained_row,
                0,
            ));
            assert(self@ == old(self)@.with_leaving_rows(0));
        }
        while row < count
            invariant
                self.wf(),
                row <= count <= old(self)@.rows(),
                self@ == old(self)@.with_leaving_rows(row as int),
                old(self)@.history.line_budget >= 0,
                old(self)@.history.cell_budget >= 0,
            decreases count - row,
        {
            self.push_history_row(row);
            proof {
                lemma_leaving_step(old(self)@, row as int);
            }
            row += 1;
        }
    }

    /// Move the images with the rows of the scroll region, and drop those that
    /// leave it.
    fn scroll_image_placements(&mut self, count: usize, up: bool, save_scrollback: bool)
        requires
            old(self).wf(),
            count <= old(self)@.rows(),
        ensures
            final(self).wf(),
            final(self)@ == old(self)@.with_scrolled_images(
                if up {
                    -count
                } else {
                    count as int
                },
                save_scrollback,
            ),
    {
        reveal(GridView::with_scrolled_images);
        if count == 0 {
            return;
        }
        proof {
            self.buffer.lemma_shape();
        }
        let distance: i64 = if up { -(count as i64) } else { count as i64 };
        let moved: Vec<ImagePlacement> = moved_placements(self, distance, save_scrollback);
        self.images.placements = moved;
    }

    /// Show rows that wait below the screen in place of its last `count` rows.
    fn reveal_tail(&mut self, count: usize)
        requires
            old(self).wf(),
            count <= old(self)@.rows(),
        ensures
            final(self).wf(),
            final(self)@ == old(self)@.with_revealed_tail(count as int),
    {
        reveal(GridView::with_revealed_tail);
        let rows: usize = self.rows();
        if !(self.scroll_top == 0 && self.scroll_bottom == rows - 1) {
            return;
        }
        let waiting: usize = self.history.tail.len();
        let reveal: usize = if count < waiting { count } else { waiting };
        let first: usize = rows - count;
        proof {
            self.buffer.lemma_shape();
        }
        let ghost tail = row_views(self.history.tail@);
        let ghost screen = self@.screen;
        let mut shown: usize = 0;
        proof {
            assert(screen =~= (BufferView {
                rows: Seq::new(
                    screen.rows.len(),
                    |r: int| if first <= r < first { tail[r - first] } else { screen.rows[r] },
                ),
                ..screen
            }));
        }
        while shown < reveal
            invariant
                self.buffer.wf(),
                shown <= reveal <= tail.len(),
                first + reveal <= screen.rows.len() <= usize::MAX,
                tail == row_views(self.history.tail@),
                forall|i: int| 0 <= i < tail.len() ==> (#[trigger] tail[i]).cells.len() == screen.cols,
                screen == old(self)@.screen,
                self@.screen == (BufferView {
                    rows: Seq::new(
                        screen.rows.len(),
                        |r: int|
                            if first <= r < first + shown {
                                tail[r - first]
                            } else {
                                screen.rows[r]
                            },
                    ),
                    ..screen
                }),
                *self == (Grid { buffer: self.buffer, ..*old(self) }),
            decreases reveal - shown,
        {
            assert(tail[shown as int] == self.history.tail@[shown as int]@);
            self.buffer.assign_row(first + shown, &self.history.tail[shown]);
            shown += 1;
            proof {
                assert(self@.screen =~= (BufferView {
                    rows: Seq::new(
                        screen.rows.len(),
                        |r: int|
                            if first <= r < first + shown {
                                tail[r - first]
                            } else {
                                screen.rows[r]
                            },
                    ),
                    ..screen
                }));
            }
        }
        let rest: Vec<RetainedRow> = self.history.tail.split_off(reveal);
        self.history.tail = rest;
        proof {
            let goal = old(self)@.with_revealed_tail(count as int);
            assert(self@.history.tail =~= tail.skip(reveal as int));
            assert(self@.screen == goal.screen);
            self.buffer.lemma_shape();
            assert forall|i: int| 0 <= i < self@.history.tail.len() implies (
            #[trigger] self@.history.tail[i]).cells.len() == self@.cols() by {
                assert(self@.history.tail[i] == tail[i + reveal]);
            }
            assert(self.wf());
            assert(self@ == goal);
        }
    }

    /// Account for `distance` rows that leave the screen at its top.
    fn lose_lines(&mut self, distance: usize, saves: bool)
        requires
            old(self).wf(),
            distance <= old(self)@.rows(),
            saves == old(self)@.saves_lines(),
            saves ==> old(self)@.total_lines + distance <= usize::MAX,
        ensures
            final(self).wf(),
            final(self)@ == old(self)@.with_lines_gone(distance as int),
    {
        reveal(GridView::with_lines_gone);
        if saves {
            self.push_history_rows(distance);
            self.total_lines_pushed = self.total_lines_pushed + distance;
        } else {
            self.note_selection_moved(distance != 0);
        }
    }

    /// Tell that a selection on the screen no longer fits, if `moved` is set.
    pub(crate) fn note_selection_moved(&mut self, moved: bool)
        requires
            old(self).wf(),
        ensures
            final(self).wf(),
            final(self)@ == old(self)@.with_selection_moved(moved),
    {
        if moved {
            self.revisions.move_selection();
        }
    }

    fn scroll_screen_up(&mut self, distance: usize)
        requires
            old(self).wf(),
        ensures
            final(self).wf(),
            final(self)@ == old(self)@.with_screen(
                old(self)@.screen.scrolled_up(
                    old(self)@.scroll_top,
                    old(self)@.scroll_bottom,
                    distance as int,
                    old(self)@.template(),
                ),
            ),
    {
        let template: Cell = self.template_cell();
        proof {
            self.buffer.lemma_shape();
        }
        self.buffer.scroll_up(self.scroll_top, self.scroll_bottom, distance, template);
        proof {
            self.buffer.lemma_shape();
        }
    }

    fn scroll_screen_down(&mut self, distance: usize)
        requires
            old(self).wf(),
        ensures
            final(self).wf(),
            final(self)@ == old(self)@.with_screen(
                old(self)@.screen.scrolled_down(
                    old(self)@.scroll_top,
                    old(self)@.scroll_bottom,
                    distance as int,
                    old(self)@.template(),
                ),
            ),
    {
        let template: Cell = self.template_cell();
        proof {
            self.buffer.lemma_shape();
        }
        self.buffer.scroll_down(self.scroll_top, self.scroll_bottom, distance, template);
        proof {
            self.buffer.lemma_shape();
        }
    }

    /// Move the scroll region up by `count` rows. Rows of the whole primary
    /// screen enter the history.
    pub fn scroll_up(&mut self, count: usize)
        requires
            old(self).wf(),
            old(self)@.saves_lines() ==> old(self)@.total_lines + old(self)@.scroll_distance(
                count as int,
            ) <= usize::MAX,
        ensures
            final(self).wf(),
            final(self)@ == old(self)@.scrolled_up(count as int),
            old(self)@.unresized() ==> final(self)@.unresized(),
            !old(self)@.saves_lines() ==> final(self)@.history.rows == old(self)@.history.rows
                && final(self)@.total_lines == old(self)@.total_lines,
    {
        proof {
            if self@.unresized() {
                lemma_lines_keep_history_rows(self@, count as nat);
            }
            if !self@.saves_lines() {
                law_partial_scrolls_leave_history(self@, count as int);
            }
        }
        let top: usize = self.scroll_top;
        let bottom: usize = self.scroll_bottom;
        let height: usize = bottom - top + 1;
        let distance: usize = if count < height { count } else { height };
        let saves: bool = !self.using_alt_screen && top == 0 && bottom == self.rows() - 1;
        proof {
            lemma_parts_frame(self@, distance as int, saves);
            reveal(GridView::scrolled_up);
        }
        self.lose_lines(distance, saves);
        proof {
            lemma_parts_frame(self@, -distance, saves);
        }
        self.scroll_image_placements(distance, true, saves);
        self.scroll_screen_up(distance);
        proof {
            lemma_parts_frame(self@, distance as int, saves);
        }
        self.reveal_tail(distance);
        self.mark_dirty_rows(top, bottom + 1);
    }

    /// Move the scroll region down by `count` rows.
    pub fn scroll_down(&mut self, count: usize)
        requires
            old(self).wf(),
        ensures
            final(self).wf(),
            final(self)@ == old(self)@.scrolled_down(count as int),
    {
        let top: usize = self.scroll_top;
        let bottom: usize = self.scroll_bottom;
        let height: usize = bottom - top + 1;
        let distance: usize = if count < height { count } else { height };
        proof {
            reveal(GridView::scrolled_down);
        }
        self.note_selection_moved(distance != 0);
        proof {
            lemma_parts_frame(self@, distance as int, false);
        }
        self.scroll_image_placements(distance, false, false);
        self.scroll_screen_down(distance);
        self.mark_dirty_rows(top, bottom + 1);
    }
}

/// The images after the scroll region has moved by `distance` rows.
fn moved_placements(grid: &Grid, distance: i64, saves: bool) -> (r: Vec<ImagePlacement>)
    requires
        grid.wf(),
        -grid@.rows() <= distance <= grid@.rows(),
        distance != 0,
    ensures
        r@ == grid@.scrolled_placements(grid@.images.placements, distance as int, saves),
{
    proof {
        grid.buffer.lemma_shape();
    }
    let top: i64 = grid.scroll_top as i64;
    let end: i64 = grid.scroll_bottom as i64 + 1;
    let up: bool = distance < 0;
    let full: bool = grid.scroll_top == 0 && grid.scroll_bottom == grid.rows() - 1;
    let saved: usize = grid.history.len();
    let oldest: i64 = if !saves {
        top
    } else if saved as u128 > i64::MAX as u128 {
        -i64::MAX
    } else {
        -(saved as i64)
    };
    assert(oldest == grid@.oldest_image_row(saves));
    let mut kept: Vec<ImagePlacement> = Vec::new();
    let mut i: usize = 0;
    while i < grid.images.placements.len()
        invariant
            grid.wf(),
            i <= grid.images.placements@.len(),
            top == grid@.scroll_top,
            end == grid@.scroll_bottom + 1,
            up == (distance < 0),
            full == grid@.full_region(),
            oldest == grid@.oldest_image_row(saves),
            kept@ == grid@.scrolled_placements(
                grid@.images.placements.subrange(0, i as int),
                distance as int,
                saves,
            ),
        decreases grid.images.placements@.len() - i,
    {
        let mut placement: ImagePlacement = grid.images.placements[i];
        let ghost source = placement;
        proof {
            let prefix = grid@.images.placements.subrange(0, i + 1);
            assert(prefix.drop_last() =~= grid@.images.placements.subrange(0, i as int));
            assert(prefix.last() == source);
        }
        let (row, _, _, _) = placement.mode.signed_cell_rect(
            grid.images.cell_pixel_width,
            grid.images.cell_pixel_height,
        );
        let below: i64 = placement.mode.bottom_row(grid.images.cell_pixel_height);
        if !saves && (below <= top || row >= end) {
            kept.push(placement);
        } else if !saves && ((!full && (row < top || below > end)) || (!up && row < top)) {
        } else {
            let moved: i64 = offset_row(row, distance);
            let moved_below: i64 = offset_row(below, distance);
            let retained: bool = if saves || (full && up) {
                moved_below > oldest && moved < end
            } else {
                moved >= top && moved_below <= end
            };
            if retained {
                placement.mode.set_row(moved);
                kept.push(placement);
            }
        }
        i += 1;
    }
    proof {
        assert(grid@.images.placements.subrange(0, i as int) =~= grid@.images.placements);
    }
    kept
}

} // verus!
