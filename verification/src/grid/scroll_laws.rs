//! What scrolling does to rows, history and images.
use crate::graphics::ImagePlacement;
use crate::grid::buffer::RowView;
use crate::grid::edit_laws::{blank_row, column_on_screen};
use crate::grid::retention::{
    law_eviction_keeps_longest_suffix, lemma_push, retained_after, within_budget,
};
use crate::grid::scroll::{law_scroll_frame, leaving_rows};
use crate::grid::terminal::GridView;
use vstd::prelude::*;

verus! {

/// Rows `top..=bottom` moved up by `n`: each row that stays holds what was `n`
/// rows below, the rest is blank, and rows outside do not move.
pub open spec fn rows_moved_up(before: GridView, after: GridView, top: int, bottom: int, n: int) -> bool {
    &&& after.screen.cols == before.screen.cols
    &&& after.screen.rows.len() == before.screen.rows.len()
    &&& forall|r: int|
        0 <= r < top || bottom < r < before.screen.rows.len() ==> #[trigger] after.screen.rows[r]
            == before.screen.rows[r]
    &&& forall|r: int|
        top <= r && r + n <= bottom ==> #[trigger] after.screen.rows[r] == before.screen.rows[r
            + n]
    &&& forall|r: int|
        top <= r <= bottom && r + n > bottom ==> blank_row(
            #[trigger] after.screen.rows[r],
            before.screen.cols,
            before.pen,
        )
}

/// Rows `top..=bottom` moved down by `n`.
pub open spec fn rows_moved_down(before: GridView, after: GridView, top: int, bottom: int, n: int) -> bool {
    &&& after.screen.cols == before.screen.cols
    &&& after.screen.rows.len() == before.screen.rows.len()
    &&& forall|r: int|
        0 <= r < top || bottom < r < before.screen.rows.len() ==> #[trigger] after.screen.rows[r]
            == before.screen.rows[r]
    &&& forall|r: int|
        top <= r - n && r <= bottom ==> #[trigger] after.screen.rows[r] == before.screen.rows[r
            - n]
    &&& forall|r: int|
        top <= r <= bottom && r - n < top ==> blank_row(
            #[trigger] after.screen.rows[r],
            before.screen.cols,
            before.pen,
        )
}

/// What a scroll leaves alone.
pub open spec fn cursor_and_modes_kept(before: GridView, after: GridView) -> bool {
    &&& after.cursor_row == before.cursor_row
    &&& after.scroll_top == before.scroll_top
    &&& after.scroll_bottom == before.scroll_bottom
    &&& after.pen == before.pen
    &&& after.modes == before.modes
    &&& after.session == before.session
    &&& after.hidden == before.hidden
    &&& after.using_alt_screen == before.using_alt_screen
    &&& after.scroll_offset == before.scroll_offset
    &&& after.saved_cursor.row == before.saved_cursor.row
    &&& after.saved_cursor.col == before.saved_cursor.col
    &&& after.saved_cursor.pending == before.saved_cursor.pending
    &&& after.images.primary_placements == before.images.primary_placements
    &&& after.images.cell_pixel_width == before.images.cell_pixel_width
    &&& after.images.cell_pixel_height == before.images.cell_pixel_height
    &&& after.revisions.screen == before.revisions.screen
}

/// A scroll up moves the region by as many rows as asked for and marks it for
/// drawing. Rows that wait below the screen come up in place of blank ones.
pub proof fn law_scrolling_up(grid: GridView, count: int)
    requires
        grid.valid(),
        0 <= count,
    ensures
        ({
            let next = grid.scrolled_up(count);
            let top = grid.scroll_top;
            let bottom = grid.scroll_bottom;
            let tail = grid.history.tail;
            let rows = grid.screen.rows.len();
            &&& grid.history.tail.len() == 0 || top > 0 || bottom + 1 < rows ==> rows_moved_up(
                grid,
                next,
                top,
                bottom,
                count,
            ) && next.history.tail == tail
            &&& top == 0 && bottom + 1 == rows && count <= rows && count <= tail.len() ==> {
                &&& forall|r: int|
                    0 <= r && r + count < rows ==> #[trigger] next.screen.rows[r]
                        == grid.screen.rows[r + count]
                &&& forall|r: int|
                    0 <= r < rows && r + count >= rows ==> #[trigger] next.screen.rows[r] == tail[r
                        + count - rows]
                &&& next.history.tail == tail.skip(count)
            }
            &&& cursor_and_modes_kept(grid, next)
            &&& next.cursor_col == grid.cursor_col
            &&& next.wrap_pending == grid.wrap_pending
            &&& next.dirty.len() == grid.dirty.len()
            &&& forall|r: int| top <= r <= bottom ==> #[trigger] next.dirty[r]
        }),
{
    reveal(GridView::scrolled_up);
    reveal(GridView::with_lines_gone);
    reveal(GridView::with_scrolled_images);
    reveal(GridView::with_revealed_tail);
    law_scroll_frame(grid, count);
    let next = grid.scrolled_up(count);
    let tail = grid.history.tail;
    if tail.len() == 0 {
        assert(next.history.tail =~= tail);
    }
    if grid.full_region() && count <= grid.rows() && count <= tail.len() {
        assert(next.history.tail =~= tail.skip(count));
    }
}

/// A scroll up of the whole primary screen counts its lines, and other scrolls
/// count none; a selection then no longer fits.
pub proof fn law_scrolled_lines_are_counted(grid: GridView, count: int)
    requires
        grid.valid(),
        0 <= count,
    ensures
        ({
            let next = grid.scrolled_up(count);
            let rows = grid.screen.rows.len();
            let saves = !grid.using_alt_screen && grid.scroll_top == 0 && grid.scroll_bottom + 1
                == rows;
            &&& saves && count <= rows ==> next.total_lines == grid.total_lines + count
            &&& saves && count > rows ==> next.total_lines == grid.total_lines + rows
            &&& saves ==> next.revisions == grid.revisions
            &&& !saves ==> next.total_lines == grid.total_lines && next.history.rows
                == grid.history.rows && next.saved_cursor == grid.saved_cursor
            &&& !saves && count > 0 ==> next.revisions.selection != grid.revisions.selection
            &&& count == 0 ==> next.revisions == grid.revisions
        }),
{
    reveal(GridView::scrolled_up);
    reveal(GridView::with_lines_gone);
    reveal(GridView::with_scrolled_images);
    reveal(GridView::with_revealed_tail);
}

proof fn lemma_retained_is_suffix(
    history: Seq<RowView>,
    leaving: Seq<RowView>,
    lines: int,
    cells: int,
)
    requires
        lines >= 0,
        cells >= 0,
    ensures
        ({
            let kept = retained_after(history, leaving, lines, cells);
            let all = history + leaving;
            &&& kept.len() <= all.len()
            &&& kept == all.skip(all.len() - kept.len())
            &&& within_budget(all, lines, cells) ==> kept == all
        }),
    decreases leaving.len(),
{
    let all = history + leaving;
    if leaving.len() == 0 {
        assert(all =~= history);
        assert(all.skip(0) =~= all);
    } else {
        let before = leaving.drop_last();
        lemma_retained_is_suffix(history, before, lines, cells);
        let held = retained_after(history, before, lines, cells);
        let pushed = held.push(leaving.last());
        law_eviction_keeps_longest_suffix(pushed, lines, cells);
        let kept = retained_after(history, leaving, lines, cells);
        let shorter = history + before;
        assert(all =~= shorter.push(leaving.last()));
        assert(pushed =~= all.skip(all.len() - pushed.len()));
        assert(kept =~= all.skip(all.len() - kept.len()));
        if within_budget(all, lines, cells) {
            lemma_push(shorter, leaving.last());
            assert(within_budget(shorter, lines, cells));
            assert(pushed =~= all);
        }
    }
}

/// Rows that leave the primary screen come behind the history in their order,
/// with their cells and the length of their content. What is kept is an
/// unbroken end of it, and all of it where the budget allows.
pub proof fn law_scrolled_rows_enter_the_history(grid: GridView, count: int)
    requires
        grid.valid(),
        0 <= count <= grid.screen.rows.len(),
        !grid.using_alt_screen,
        grid.scroll_top == 0,
        grid.scroll_bottom + 1 == grid.screen.rows.len(),
        grid.history.line_budget >= 0,
        grid.history.cell_budget >= 0,
    ensures
        ({
            let kept = grid.scrolled_up(count).history.rows;
            let old_len = grid.history.rows.len();
            let gone = old_len + count - kept.len();
            &&& 0 <= gone
            &&& within_budget(
                grid.history.rows + leaving_rows(grid.screen, count),
                grid.history.line_budget,
                grid.history.cell_budget,
            ) ==> gone == 0
            &&& forall|i: int|
                0 <= i && i + gone < old_len ==> #[trigger] kept[i] == grid.history.rows[i + gone]
            &&& forall|i: int|
                0 <= i < kept.len() && i + gone >= old_len ==> {
                    let source = grid.screen.rows[i + gone - old_len];
                    &&& (#[trigger] kept[i]).cells == source.cells
                    &&& kept[i].metadata.wrapped == source.metadata.wrapped
                    &&& kept[i].metadata.len == source.content_len() as usize
                }
        }),
{
    reveal(GridView::scrolled_up);
    reveal(GridView::with_lines_gone);
    reveal(GridView::with_scrolled_images);
    reveal(GridView::with_revealed_tail);
    let leaving = leaving_rows(grid.screen, count);
    lemma_retained_is_suffix(
        grid.history.rows,
        leaving,
        grid.history.line_budget,
        grid.history.cell_budget,
    );
    let kept = grid.scrolled_up(count).history.rows;
    let all = grid.history.rows + leaving;
    let gone = all.len() - kept.len();
    assert(kept == retained_after(
        grid.history.rows,
        leaving,
        grid.history.line_budget,
        grid.history.cell_budget,
    ));
    assert forall|i: int| 0 <= i < kept.len() implies #[trigger] kept[i] == all[i + gone] by {
        assert(kept[i] == all.skip(gone)[i]);
    }
}

/// A scroll down moves the region down, and what passes its bottom is lost.
pub proof fn law_scrolling_down(grid: GridView, count: int)
    requires
        grid.valid(),
        0 <= count,
    ensures
        ({
            let next = grid.scrolled_down(count);
            &&& rows_moved_down(grid, next, grid.scroll_top, grid.scroll_bottom, count)
            &&& cursor_and_modes_kept(grid, next)
            &&& next.cursor_col == grid.cursor_col
            &&& next.wrap_pending == grid.wrap_pending
            &&& next.history == grid.history
            &&& next.total_lines == grid.total_lines
            &&& next.saved_cursor == grid.saved_cursor
            &&& count > 0 ==> next.revisions.selection != grid.revisions.selection
            &&& forall|r: int|
                grid.scroll_top <= r <= grid.scroll_bottom ==> #[trigger] next.dirty[r]
        }),
{
    reveal(GridView::scrolled_down);
    reveal(GridView::with_scrolled_images);
    law_scroll_frame(grid, count);
}

/// Inserted lines push the rows from the cursor to the bottom of the scroll
/// region down. Outside the region nothing is inserted.
pub proof fn law_inserting_lines(grid: GridView, count: int)
    requires
        grid.valid(),
        0 <= count,
    ensures
        ({
            let next = grid.lines_inserted(count);
            let inside = grid.scroll_top <= grid.cursor_row <= grid.scroll_bottom;
            &&& inside ==> rows_moved_down(
                grid,
                next,
                grid.cursor_row,
                grid.scroll_bottom,
                count,
            )
            &&& !inside ==> next.screen == grid.screen
            &&& cursor_and_modes_kept(grid, next)
            &&& next.cursor_col == column_on_screen(grid)
            &&& !next.wrap_pending
            &&& next.history == grid.history
            &&& next.total_lines == grid.total_lines
        }),
{
    let inner = grid.unwrapped().with_scroll_top(grid.cursor_row);
    if grid.scroll_top <= grid.cursor_row <= grid.scroll_bottom {
        law_scrolling_down(inner, count);
    }
}

/// Deleted lines let the rows below them, down to the bottom of the scroll
/// region, move up. Outside the region nothing is deleted.
pub proof fn law_deleting_lines(grid: GridView, count: int)
    requires
        grid.valid(),
        0 <= count,
        grid.history.tail.len() == 0,
    ensures
        ({
            let next = grid.lines_deleted(count);
            let inside = grid.scroll_top <= grid.cursor_row <= grid.scroll_bottom;
            &&& inside ==> rows_moved_up(grid, next, grid.cursor_row, grid.scroll_bottom, count)
            &&& !inside ==> next.screen == grid.screen && next.history == grid.history
            &&& cursor_and_modes_kept(grid, next)
            &&& next.cursor_col == column_on_screen(grid)
            &&& !next.wrap_pending
            &&& grid.cursor_row > 0 ==> next.history.rows == grid.history.rows && next.total_lines
                == grid.total_lines
        }),
{
    let inner = grid.unwrapped().with_scroll_top(grid.cursor_row);
    if grid.scroll_top <= grid.cursor_row <= grid.scroll_bottom {
        law_scrolling_up(inner, count);
        law_scrolled_lines_are_counted(inner, count);
    }
}

/// The rows that an image covers end before its bottom.
pub open spec fn image_rows(placement: ImagePlacement, height: u16) -> (int, int) {
    (placement.mode.top(), placement.mode.bottom(height))
}

/// An image that stays goes with the rows it stands on; nothing but its row
/// changes. One that lies wholly outside a region that scrolls by itself does
/// not move at all.
pub proof fn law_images_go_with_their_rows(
    grid: GridView,
    placement: ImagePlacement,
    distance: int,
    saves: bool,
)
    requires
        grid.valid(),
        -0x4000_0000_0000_0000 < distance < 0x4000_0000_0000_0000,
        -0x4000_0000_0000_0000 < placement.mode.top() < 0x4000_0000_0000_0000,
    ensures
        ({
            let (top, bottom) = image_rows(placement, grid.images.cell_pixel_height);
            let outside = bottom <= grid.scroll_top || top > grid.scroll_bottom;
            match grid.scrolled_placement(placement, distance, saves) {
                Some(moved) => {
                    &&& moved.image_id == placement.image_id
                    &&& moved.placement_id == placement.placement_id
                    &&& moved.client_placement_id == placement.client_placement_id
                    &&& moved.z_index == placement.z_index
                    &&& !saves && outside ==> moved == placement
                    &&& saves || !outside ==> moved.mode.top() == top + distance
                    &&& moved.mode.at_row(0) == placement.mode.at_row(0)
                },
                None => saves || !outside,
            }
        }),
{
}

/// Rows outside the scroll region keep no part of an image that moves: it stays
/// inside, or it goes. An image is lost to the history only when its last row
/// has gone.
pub proof fn law_moved_images_stay_inside(
    grid: GridView,
    placement: ImagePlacement,
    distance: int,
)
    requires
        grid.valid(),
        -0x4000_0000_0000_0000 < distance < 0x4000_0000_0000_0000,
        distance != 0,
        -0x4000_0000_0000_0000 < placement.mode.top(),
        placement.mode.bottom(grid.images.cell_pixel_height) < 0x4000_0000_0000_0000,
        grid.history.rows.len() < 0x4000_0000_0000_0000,
    ensures
        ({
            let (top, bottom) = image_rows(placement, grid.images.cell_pixel_height);
            let rows = grid.screen.rows.len();
            let full = grid.scroll_top == 0 && grid.scroll_bottom + 1 == rows;
            let inside = grid.scroll_top <= top && bottom <= grid.scroll_bottom + 1;
            let outside = bottom <= grid.scroll_top || top > grid.scroll_bottom;
            let free = grid.scrolled_placement(placement, distance, false);
            let saved = grid.scrolled_placement(placement, distance, true);
            &&& !full && !outside ==> (free is Some <==> inside && grid.scroll_top <= top + distance
                && bottom + distance <= grid.scroll_bottom + 1)
            &&& full && distance > 0 && !outside ==> (free is Some <==> grid.scroll_top <= top
                && bottom + distance <= grid.scroll_bottom + 1)
            &&& full && distance < 0 && !outside ==> (free is Some <==> bottom + distance
                > grid.scroll_top && top + distance <= grid.scroll_bottom)
            &&& saved is Some <==> bottom + distance > -grid.history.rows.len() && top + distance
                <= grid.scroll_bottom
        }),
{
}

/// The images after a scroll are those that stay, in their order.
pub proof fn law_scrolled_images_keep_their_order(
    grid: GridView,
    placements: Seq<ImagePlacement>,
    last: ImagePlacement,
    distance: int,
    saves: bool,
)
    ensures
        grid.scrolled_placements(Seq::empty(), distance, saves).len() == 0,
        match grid.scrolled_placement(last, distance, saves) {
            Some(moved) => grid.scrolled_placements(placements.push(last), distance, saves)
                == grid.scrolled_placements(placements, distance, saves).push(moved),
            None => grid.scrolled_placements(placements.push(last), distance, saves)
                == grid.scrolled_placements(placements, distance, saves),
        },
{
    assert(placements.push(last).drop_last() =~= placements);
}

/// A scroll moves the images up or down with the text: up by the rows that
/// leave, with the history where rows enter it, and down by the rows that come.
pub proof fn law_scrolls_move_images(grid: GridView, count: int)
    requires
        grid.valid(),
        0 < count,
        count <= grid.scroll_bottom - grid.scroll_top + 1,
    ensures
        grid.scrolled_down(count).images.placements == grid.scrolled_placements(
            grid.images.placements,
            count,
            false,
        ),
        grid.using_alt_screen || grid.scroll_top > 0 || grid.scroll_bottom + 1
            < grid.screen.rows.len() ==> grid.scrolled_up(count).images.placements
            == grid.scrolled_placements(grid.images.placements, -count, false),
        !grid.using_alt_screen && grid.scroll_top == 0 && grid.scroll_bottom + 1
            == grid.screen.rows.len() ==> ({
            let up = grid.scrolled_up(count);
            up.images.placements == (GridView { history: up.history, ..grid }).scrolled_placements(
                grid.images.placements,
                -count,
                true,
            )
        }),
{
    reveal(GridView::scrolled_up);
    reveal(GridView::scrolled_down);
    reveal(GridView::with_lines_gone);
    reveal(GridView::with_scrolled_images);
    reveal(GridView::with_revealed_tail);
    let moved = grid.with_selection_moved(true);
    lemma_same_images(moved, grid, grid.images.placements, count, false);
    lemma_same_images(moved, grid, grid.images.placements, -count, false);
    let up = grid.scrolled_up(count);
    if grid.saves_lines() {
        let gone = grid.with_lines_gone(count);
        let other = GridView { history: up.history, ..grid };
        assert(gone.history.rows == up.history.rows);
        lemma_same_images(gone, other, grid.images.placements, -count, true);
    }
}

proof fn lemma_same_images(
    one: GridView,
    other: GridView,
    placements: Seq<ImagePlacement>,
    distance: int,
    saves: bool,
)
    requires
        one.scroll_top == other.scroll_top,
        one.scroll_bottom == other.scroll_bottom,
        one.screen == other.screen,
        one.history.rows.len() == other.history.rows.len(),
        one.images.cell_pixel_height == other.images.cell_pixel_height,
    ensures
        one.scrolled_placements(placements, distance, saves) == other.scrolled_placements(
            placements,
            distance,
            saves,
        ),
    decreases placements.len(),
{
    if placements.len() > 0 {
        lemma_same_images(one, other, placements.drop_last(), distance, saves);
    }
}

} // verus!
