//! Fresh terminals, the alternate screen, the viewport, marks and images.
use crate::graphics::{cells_for, ImageId, ImagePlacement, InlineRenderSize, PlacementMode};
use crate::grid::buffer::RowView;
use crate::grid::cell::{
    natural_columns, text_columns, Cell, CellFlags, CellView, Color, UnderlineStyle,
};
use crate::grid::edit_laws::law_images_above_the_screen;
use crate::grid::marks::{prompt_rows, rebased, PromptMark, PromptMarkKind};
use crate::grid::print_laws::without_halves;
use crate::grid::resize::retained;
use crate::grid::retention::{
    budget_for, hard_lines, shifted_row, lemma_hard_lines_bound, lemma_uniform_cell_count, rows_of_width,
    within_budget,
};
use crate::grid::scroll_laws::law_scrolled_rows_enter_the_history;
use crate::grid::session::without_image;
use crate::grid::terminal::{
    dec_special, next_revision, CharSet, CursorShape, Grid, GridView, MouseEncoding, MouseTracking,
    KittyCommand, SixelImage, TerminalEvent,
};
use crate::grid::viewport::projected;
use vstd::prelude::*;

verus! {

/// A cell without content, colors or attributes.
pub open spec fn is_default(cell: CellView) -> bool {
    &&& cell.c == ' '
    &&& cell.text is None
    &&& cell.fg == Color::Default
    &&& cell.bg == Color::Default
    &&& cell.flags.bits == 0
    &&& cell.underline_style == UnderlineStyle::Off
    &&& cell.underline_color == Color::Default
}

/// Every cell of a screen of the given size is default, and no row was written.
pub open spec fn blank_screen(grid: GridView, cols: int, rows: int) -> bool {
    &&& grid.screen.cols == cols
    &&& grid.screen.rows.len() == rows
    &&& forall|r: int|
        0 <= r < rows ==> {
            &&& (#[trigger] grid.screen.rows[r]).cells.len() == cols
            &&& grid.screen.rows[r].metadata.len == 0
            &&& !grid.screen.rows[r].metadata.wrapped
        }
    &&& forall|r: int, c: int|
        0 <= r < rows && 0 <= c < cols ==> is_default(#[trigger] grid.screen.rows[r].cells[c])
}

/// The cursor is at home, the whole screen scrolls, and all of it is to be
/// drawn.
pub open spec fn at_home(grid: GridView, rows: int) -> bool {
    &&& grid.cursor_row == 0
    &&& grid.cursor_col == 0
    &&& !grid.wrap_pending
    &&& grid.saved_cursor.row == 0
    &&& grid.saved_cursor.col == 0
    &&& !grid.saved_cursor.pending
    &&& grid.saved_cursor.retained_row is None
    &&& grid.scroll_top == 0
    &&& grid.scroll_bottom == rows - 1
    &&& grid.scroll_offset == 0
    &&& grid.total_lines == 0
    &&& grid.history.rows.len() == 0
    &&& grid.history.tail.len() == 0
    &&& grid.dirty.len() == rows
    &&& forall|r: int| 0 <= r < rows ==> #[trigger] grid.dirty[r]
}

/// The pen has no colors and no attributes.
pub open spec fn plain_pen(grid: GridView) -> bool {
    &&& grid.pen.fg == Color::Default
    &&& grid.pen.bg == Color::Default
    &&& grid.pen.flags.bits == 0
    &&& grid.pen.underline_style == UnderlineStyle::Off
    &&& grid.pen.underline_color == Color::Default
}

/// The modes that a program finds.
pub open spec fn first_modes(grid: GridView) -> bool {
    &&& grid.modes.cursor_visible
    &&& !grid.modes.application_cursor_keys
    &&& grid.modes.auto_wrap
    &&& !grid.modes.bracketed_paste
    &&& grid.modes.mouse_tracking == MouseTracking::Off
    &&& grid.modes.mouse_encoding == MouseEncoding::Default
    &&& !grid.modes.focus_events
    &&& grid.modes.cursor_style.shape == CursorShape::Block
    &&& grid.modes.cursor_style.blinking
    &&& !grid.modes.insert_mode
    &&& grid.modes.charset == CharSet::Ascii
}

/// A fresh terminal is blank, with the cursor at home and nothing waiting.
pub proof fn law_fresh_terminals(cols: int, rows: int, lines: int)
    requires
        0 < cols,
        0 < rows,
    ensures
        ({
            let grid = GridView::initial(cols, rows, lines);
            &&& blank_screen(grid, cols, rows)
            &&& at_home(grid, rows)
            &&& plain_pen(grid)
            &&& first_modes(grid)
            &&& !grid.modes.alternate_scroll
            &&& !grid.using_alt_screen
            &&& grid.hidden.screen is None
            &&& grid.hidden.history is None
            &&& grid.history.line_budget == lines
            &&& grid.session.title.len() == 0
            &&& grid.session.events.len() == 0
            &&& grid.session.marks.len() == 0
            &&& grid.session.sixel_count == 0
            &&& grid.session.sixel_bytes == 0
            &&& grid.images.placements.len() == 0
            &&& grid.images.primary_placements is None
            &&& grid.images.cell_pixel_width == 8
            &&& grid.images.cell_pixel_height == 16
        }),
{
}

/// A reset gives a fresh terminal of the same size and history limit. The
/// alternate scroll mode stays, a title that was there counts as changed, and
/// so do the screen and the selection.
pub proof fn law_resets(grid: GridView)
    requires
        grid.valid(),
    ensures
        ({
            let next = grid.reset();
            &&& blank_screen(next, grid.screen.cols, grid.screen.rows.len() as int)
            &&& at_home(next, grid.screen.rows.len() as int)
            &&& plain_pen(next)
            &&& first_modes(next)
            &&& next.modes.alternate_scroll == grid.modes.alternate_scroll
            &&& !next.using_alt_screen
            &&& next.hidden.screen is None
            &&& next.history.line_budget == grid.history.line_budget
            &&& next.session.title.len() == 0
            &&& next.session.cwd.len() == 0
            &&& next.session.events.len() == 0
            &&& next.session.marks.len() == 0
            &&& grid.session.title.len() > 0 ==> next.session.title_revision
                != grid.session.title_revision
            &&& grid.session.title.len() == 0 ==> next.session.title_revision
                == grid.session.title_revision
            &&& next.images.placements.len() == 0
            &&& next.images.primary_placements is None
            &&& next.revisions.selection != grid.revisions.selection
            &&& next.revisions.screen != grid.revisions.screen
        }),
{
}

/// The alternate screen starts blank with the cursor at home and no history; the
/// pen, the modes and the title go on.
pub proof fn law_entering_the_alternate_screen(grid: GridView)
    requires
        grid.valid(),
    ensures
        ({
            let next = grid.alternate_entered();
            &&& next.using_alt_screen
            &&& blank_screen(next, grid.screen.cols, grid.screen.rows.len() as int)
            &&& at_home(next, grid.screen.rows.len() as int)
            &&& next.pen == grid.pen
            &&& next.modes == grid.modes
            &&& next.session == grid.session
            &&& next.history.line_budget == grid.history.line_budget
            &&& next.images.placements.len() == 0
            &&& next.images.cell_pixel_width == grid.images.cell_pixel_width
            &&& next.images.cell_pixel_height == grid.images.cell_pixel_height
            &&& next.revisions.selection != grid.revisions.selection
            &&& next.revisions.screen != grid.revisions.screen
        }),
{
}

/// Leaving the alternate screen keeps the pen, the modes and the title, and
/// draws all rows anew.
pub proof fn law_leaving_the_alternate_screen(grid: GridView)
    ensures
        ({
            let next = grid.alternate_left();
            &&& !next.using_alt_screen
            &&& next.pen == grid.pen
            &&& next.modes == grid.modes
            &&& next.session == grid.session
            &&& next.hidden.screen is None
            &&& next.images.primary_placements is None
            &&& next.dirty.len() == grid.dirty.len()
            &&& forall|r: int| 0 <= r < next.dirty.len() ==> #[trigger] next.dirty[r]
            &&& next.revisions.selection != grid.revisions.selection
        }),
{
}

/// A counter of changes goes on by one, and from its end to zero.
pub proof fn law_revisions_differ(revision: u64)
    ensures
        next_revision(revision) != revision,
        revision < u64::MAX ==> next_revision(revision) == revision + 1,
        next_revision(u64::MAX) == 0,
{
}

/// A history is made for as many rows of its width as it was asked to keep,
/// whether their lines go on or not.
pub proof fn law_budgets_hold_their_rows(rows: Seq<RowView>, lines: int, cols: int)
    requires
        0 < cols,
        0 <= lines,
        lines * cols <= usize::MAX,
        rows_of_width(rows, cols),
        rows.len() <= lines,
    ensures
        within_budget(rows, lines, budget_for(lines, cols)),
{
    lemma_hard_lines_bound(rows);
    lemma_uniform_cell_count(rows, cols);
    let count = rows.len();
    assert(count * cols <= lines * cols) by (nonlinear_arith)
        requires
            count <= lines,
            0 < cols,
    ;
}

/// Only rows that end a line count as lines.
pub proof fn law_wrapped_rows_are_no_lines(rows: Seq<RowView>, row: RowView)
    ensures
        hard_lines(Seq::empty()) == 0,
        row.metadata.wrapped ==> hard_lines(rows.push(row)) == hard_lines(rows),
        !row.metadata.wrapped ==> hard_lines(rows.push(row)) == hard_lines(rows) + 1,
{
    assert(rows.push(row).drop_last() =~= rows);
}

/// The viewport shows the screen, or, moved up by `k` rows, the last `k` rows of
/// the history above the first rows of the screen.
pub proof fn law_what_the_viewport_shows(grid: GridView, row: int, col: int)
    requires
        grid.valid(),
        0 <= row < grid.screen.rows.len(),
        0 <= col < grid.screen.cols,
        0 <= grid.scroll_offset <= grid.history.rows.len(),
    ensures
        row >= grid.scroll_offset ==> grid.visible(row, col) == grid.screen.rows[row
            - grid.scroll_offset].cells[col],
        row < grid.scroll_offset ==> ({
            let source = grid.history.rows[grid.history.rows.len() - grid.scroll_offset + row];
            &&& without_halves(source.cells) ==> grid.visible(row, col) == source.cells[col]
        }),
{
    if row < grid.scroll_offset {
        let source = grid.history.rows[grid.history.rows.len() - grid.scroll_offset + row];
        assert(source.cells.len() == grid.screen.cols);
        if without_halves(source.cells) {
            assert(!source.cells[col].flags.has(CellFlags::WIDE));
        }
    }
}

/// A history cell is shown as it is, but for half a glyph whose other half is
/// not there, which is shown blank.
pub proof fn law_half_glyphs_are_not_shown(cells: Seq<CellView>, cols: int, col: int)
    requires
        0 <= col,
        cols > 1,
    ensures
        ({
            let shown = projected(cells, cols, col);
            let inside = col < cols && col < cells.len();
            let cell = cells[col];
            let leads = cell.flags.has(CellFlags::WIDE);
            let follows = cell.flags.has(CellFlags::WIDE_CONT);
            &&& inside && !leads && !follows ==> shown == cell
            &&& inside && leads && !follows && col + 1 < cols && col + 1 < cells.len() && cells[col
                + 1].flags.has(CellFlags::WIDE_CONT) ==> shown == cell
            &&& inside && !leads && follows && col > 0 && cells[col - 1].flags.has(CellFlags::WIDE)
                ==> shown == cell
            &&& inside && leads && (col + 1 >= cols || col + 1 >= cells.len() || !cells[col
                + 1].flags.has(CellFlags::WIDE_CONT)) ==> is_default(shown)
            &&& inside && follows && (col == 0 || !cells[col - 1].flags.has(CellFlags::WIDE))
                ==> is_default(shown)
            &&& !inside ==> is_default(shown)
        }),
{
}

/// All kept rows are read in their order: those above the screen, those on it,
/// and those below it.
pub proof fn law_retained_rows_are_in_order(grid: GridView, row: int)
    requires
        grid.valid(),
        0 <= row,
    ensures
        ({
            let above = grid.history.rows.len();
            let rows = grid.screen.rows.len();
            let below = grid.history.tail.len();
            let metadata = grid.retained_metadata(row);
            &&& retained(grid.history, grid.screen).len() == above + rows + below
            &&& row < above ==> metadata == grid.history.rows[row].metadata
            &&& above <= row < above + rows ==> {
                let source = grid.screen.rows[row - above];
                &&& metadata.wrapped == source.metadata.wrapped
                &&& metadata.len == source.content_len() as usize
            }
            &&& above + rows <= row < above + rows + below ==> metadata == grid.history.tail[row
                - above - rows].metadata
            &&& row >= above + rows + below ==> metadata.len == 0 && !metadata.wrapped
            &&& forall|col: int|
                #![trigger grid.retained_cell(row, col)]
                0 <= col < grid.screen.cols ==> {
                    &&& above <= row < above + rows ==> grid.retained_cell(row, col)
                        == grid.screen.rows[row - above].cells[col]
                    &&& above + rows <= row < above + rows + below ==> grid.retained_cell(row, col)
                        == grid.history.tail[row - above - rows].cells[col]
                    &&& row >= above + rows + below ==> is_default(grid.retained_cell(row, col))
                    &&& row < above && without_halves(grid.history.rows[row].cells)
                        ==> grid.retained_cell(row, col) == grid.history.rows[row].cells[col]
                }
        }),
{
    let above = grid.history.rows.len();
    let rows = grid.screen.rows.len();
    let below = grid.history.tail.len();
    if row < above {
        assert(grid.history.rows[row].cells.len() == grid.screen.cols);
        if without_halves(grid.history.rows[row].cells) {
            assert forall|col: int| 0 <= col < grid.screen.cols implies #[trigger] grid.retained_cell(
                row,
                col,
            ) == grid.history.rows[row].cells[col] by {
                assert(!grid.history.rows[row].cells[col].flags.has(CellFlags::WIDE));
            }
        }
    } else if above + rows <= row && row < above + rows + below {
        assert(grid.history.tail[row - above - rows].cells.len() == grid.screen.cols);
    }
}

/// Moving the viewport changes nothing that is stored, and draws all rows.
pub proof fn law_viewport_moves(grid: GridView, offset: int)
    ensures
        ({
            let next = grid.with_scroll_offset(offset);
            &&& next.scroll_offset == offset
            &&& next.screen == grid.screen
            &&& next.history == grid.history
            &&& next.cursor_row == grid.cursor_row
            &&& next.cursor_col == grid.cursor_col
            &&& next.wrap_pending == grid.wrap_pending
            &&& next.total_lines == grid.total_lines
            &&& next.dirty.len() == grid.dirty.len()
            &&& forall|r: int| 0 <= r < next.dirty.len() ==> #[trigger] next.dirty[r]
        }),
{
}

/// The column of the cursor on the screen: that of the cursor, the last one
/// while a wrap is due, and none further out.
pub proof fn law_cursor_columns(grid: GridView)
    requires
        grid.valid(),
        0 <= grid.cursor_col,
    ensures
        grid.cursor_col < grid.screen.cols ==> grid.screen_col() == Some(grid.cursor_col),
        grid.cursor_col == grid.screen.cols ==> grid.screen_col() == Some(grid.screen.cols - 1),
        grid.cursor_col > grid.screen.cols ==> grid.screen_col() is None,
        grid.wraps_next() == (grid.wrap_pending || grid.cursor_col == grid.screen.cols),
{
}

/// The visible prompts are the rows in view in which a prompt starts: each of
/// them, and no other.
pub proof fn law_visible_prompts(marks: Seq<PromptMark>, start: int, end: int, row: usize)
    ensures
        prompt_rows(marks, start, end).contains(row) <==> start <= row < end && exists|i: int|
            0 <= i < marks.len() && (#[trigger] marks[i]).kind == PromptMarkKind::PromptStart
                && marks[i].absolute_row == row,
        prompt_rows(marks, start, end).len() <= marks.len(),
    decreases marks.len(),
{
    let rows = prompt_rows(marks, start, end);
    if marks.len() > 0 {
        let before = marks.drop_last();
        let held = prompt_rows(before, start, end);
        law_visible_prompts(before, start, end, row);
        let last = marks.last();
        assert(marks[marks.len() - 1] == last);
        if last.kind == PromptMarkKind::PromptStart && start <= last.absolute_row < end {
            assert(rows == held.push(last.absolute_row));
            assert(rows[held.len() as int] == last.absolute_row);
            if held.contains(row) {
                let k = held.index_of(row);
                assert(rows[k] == row);
            }
            if rows.contains(row) {
                let k = rows.index_of(row);
                if k < held.len() {
                    assert(held[k] == row);
                }
            }
        }
        if exists|i: int|
            0 <= i < marks.len() && (#[trigger] marks[i]).kind == PromptMarkKind::PromptStart
                && marks[i].absolute_row == row {
            let i = choose|i: int|
                0 <= i < marks.len() && (#[trigger] marks[i]).kind == PromptMarkKind::PromptStart
                    && marks[i].absolute_row == row;
            if i < before.len() {
                assert(before[i] == marks[i]);
            }
        }
        if exists|i: int|
            0 <= i < before.len() && (#[trigger] before[i]).kind == PromptMarkKind::PromptStart
                && before[i].absolute_row == row {
            let i = choose|i: int|
                0 <= i < before.len() && (#[trigger] before[i]).kind == PromptMarkKind::PromptStart
                    && before[i].absolute_row == row;
            assert(marks[i] == before[i]);
        }
    }
}

/// Erasing saved lines keeps the marks of the rows below them, with their kinds,
/// and counts their rows from there.
pub proof fn law_rebased_marks(marks: Seq<PromptMark>, erased: int, mark: PromptMark)
    requires
        0 <= erased,
        mark.absolute_row + erased <= usize::MAX,
    ensures
        rebased(marks, erased).contains(mark) <==> marks.contains(
            PromptMark {
                kind: mark.kind,
                absolute_row: (mark.absolute_row + erased) as usize,
            },
        ),
        rebased(marks, erased).len() <= marks.len(),
    decreases marks.len(),
{
    let kept = rebased(marks, erased);
    let source = PromptMark { kind: mark.kind, absolute_row: (mark.absolute_row + erased) as usize };
    if marks.len() > 0 {
        let before = marks.drop_last();
        let held = rebased(before, erased);
        law_rebased_marks(before, erased, mark);
        let last = marks.last();
        assert(marks[marks.len() - 1] == last);
        if marks.contains(source) {
            let i = marks.index_of(source);
            if i < before.len() {
                assert(before[i] == source);
            }
        }
        if before.contains(source) {
            let i = before.index_of(source);
            assert(marks[i] == source);
        }
        if last.absolute_row >= erased {
            assert(kept.len() == held.len() + 1);
            if held.contains(mark) {
                let i = held.index_of(mark);
                assert(kept[i] == mark);
            }
            if last == source {
                assert(kept[held.len() as int] == mark);
            }
            if kept.contains(mark) {
                let i = kept.index_of(mark);
                if i < held.len() {
                    assert(held[i] == mark);
                }
            }
        }
    }
}

/// Deleting an image takes its named placements and no other.
pub proof fn law_deleted_images(
    placements: Seq<ImagePlacement>,
    image_id: ImageId,
    one: ImagePlacement,
)
    ensures
        without_image(placements, image_id).contains(one) <==> placements.contains(one) && !(
        one.image_id == image_id && one.placement_id != 0),
    decreases placements.len(),
{
    let kept = without_image(placements, image_id);
    if placements.len() > 0 {
        let before = placements.drop_last();
        let held = without_image(before, image_id);
        law_deleted_images(before, image_id, one);
        let last = placements.last();
        assert(placements[placements.len() - 1] == last);
        if placements.contains(one) {
            let i = placements.index_of(one);
            if i < before.len() {
                assert(before[i] == one);
            }
        }
        if before.contains(one) {
            let i = before.index_of(one);
            assert(placements[i] == one);
        }
        if last.image_id != image_id || last.placement_id == 0 {
            assert(kept == held.push(last));
            assert(kept[held.len() as int] == last);
            if held.contains(one) {
                let i = held.index_of(one);
                assert(kept[i] == one);
            }
            if kept.contains(one) {
                let i = kept.index_of(one);
                if i < held.len() {
                    assert(held[i] == one);
                }
            }
        }
    }
}

/// An image covers the fewest cells that hold its pixels.
pub proof fn law_images_cover_their_pixels(pixels: int, cell: int)
    requires
        0 <= pixels,
        0 < cell,
    ensures
        pixels <= cells_for(pixels, cell) * cell < pixels + cell,
        0 <= cells_for(pixels, cell),
{
    let n = (pixels + cell - 1) / cell;
    vstd::arithmetic::div_mod::lemma_fundamental_div_mod(pixels + cell - 1, cell);
    vstd::arithmetic::div_mod::lemma_mod_bound(pixels + cell - 1, cell);
    vstd::arithmetic::div_mod::lemma_div_pos_is_pos(pixels + cell - 1, cell);
    assert(n * cell == cell * n) by (nonlinear_arith);
}

/// The rows and columns that an image covers: as many cells as it was given, or
/// those that its pixels and its offset need.
pub proof fn law_image_sizes(
    row: i64,
    col: usize,
    cols: u32,
    rows: u32,
    x_offset: u32,
    y_offset: u32,
    width: u32,
    height: u32,
    cell_width: u16,
    cell_height: u16,
)
    ensures
        ({
            let anchored = PlacementMode::Inline {
                row,
                col,
                cols,
                rows,
                x_offset,
                y_offset,
                render_size: InlineRenderSize::CellAnchored,
            };
            let native = PlacementMode::Inline {
                row,
                col,
                cols,
                rows,
                x_offset,
                y_offset,
                render_size: InlineRenderSize::NativePixels { width, height },
            };
            &&& anchored.top() == row
            &&& native.top() == row
            &&& anchored.height(cell_height) == rows
            &&& anchored.width(cell_width) == cols
            &&& row + rows <= i64::MAX ==> anchored.bottom(cell_height) == row + rows
            &&& cell_height > 0 ==> height + y_offset <= native.height(cell_height) * cell_height
                < height + y_offset + cell_height
            &&& cell_width > 0 ==> width + x_offset <= native.width(cell_width) * cell_width < width
                + x_offset + cell_width
            &&& cell_height == 0 ==> native.height(cell_height) == height + y_offset
            &&& cell_width == 0 ==> native.width(cell_width) == width + x_offset
        }),
{
    if cell_height > 0 {
        law_images_cover_their_pixels(height + y_offset, cell_height as int);
    }
    if cell_width > 0 {
        law_images_cover_their_pixels(width + x_offset, cell_width as int);
    }
}

/// Line drawing replaces characters from the grave accent to the tilde alone,
/// never by another ASCII character, and all but two of them by different ones.
pub proof fn law_line_drawing(c: char, d: char)
    ensures
        (c as u32) < 0x61 || c as u32 > 0x7e ==> dec_special(c) == c,
        dec_special(c) != c ==> dec_special(c) as u32 > 0x7f,
        dec_special(c) == dec_special(d) && c != d && dec_special(c) != c && dec_special(d) != d
            ==> (c == 'a' && d == 'h') || (c == 'h' && d == 'a'),
{
}

/// Events wait in the order in which they came, and only behind those that were
/// there.
pub proof fn law_events_wait_in_order(grid: GridView, event: TerminalEvent)
    ensures
        ({
            let next = grid.with_event(event);
            &&& next.session.events.len() == grid.session.events.len() + 1
            &&& next.session.events.last() == event
            &&& next.session.events.drop_last() == grid.session.events
            &&& next.session.title == grid.session.title
            &&& next.session.marks == grid.session.marks
            &&& next.screen == grid.screen
            &&& next.cursor_row == grid.cursor_row
            &&& next.cursor_col == grid.cursor_col
        }),
{
    assert(grid.session.events.push(event).drop_last() =~= grid.session.events);
}

/// A queued image stands at the cursor and counts with its bytes.
pub proof fn law_queued_images(grid: GridView, image: SixelImage, bytes: int, limit: int)
    requires
        grid.valid(),
        0 <= grid.cursor_col,
        0 <= bytes,
    ensures
        ({
            let next = grid.with_sixel(image, bytes);
            &&& next.session.events.len() == grid.session.events.len() + 1
            &&& next.session.sixel_count == grid.session.sixel_count + 1
            &&& next.session.sixel_bytes == grid.session.sixel_bytes + bytes
            &&& match next.session.events.last() {
                TerminalEvent::SixelGraphics { image: queued, cursor_row, cursor_col } => {
                    &&& queued == image
                    &&& cursor_row == grid.cursor_row
                    &&& grid.cursor_col < grid.screen.cols ==> cursor_col == grid.cursor_col
                    &&& grid.cursor_col >= grid.screen.cols ==> cursor_col + 1 == grid.screen.cols
                },
                _ => false,
            }
            &&& grid.takes_sixel(bytes, limit) ==> next.session.sixel_bytes <= limit
                && next.session.sixel_count <= 256
            &&& grid.session.sixel_count < 256 && grid.session.sixel_bytes + bytes <= limit
                ==> grid.takes_sixel(bytes, limit)
        }),
{
}

/// What a cell and a terminal show is what they hold.
pub proof fn law_views_show_the_fields(cell: Cell, grid: Grid)
    ensures
        cell@.c == cell.c,
        cell@.fg == cell.fg,
        cell@.bg == cell.bg,
        cell@.flags == cell.flags,
        cell@.underline_style == cell.underline_style,
        cell@.underline_color == cell.underline_color,
        cell@.text is Some <==> cell.grapheme is Some,
        grid@.cursor_row == grid.cursor_row,
        grid@.cursor_col == grid.cursor_col,
        grid@.wrap_pending == grid.wrap_pending,
        grid@.scroll_top == grid.scroll_top,
        grid@.scroll_bottom == grid.scroll_bottom,
        grid@.pen == grid.pen,
        grid@.modes == grid.modes,
        grid@.scroll_offset == grid.scroll_offset,
        grid@.total_lines == grid.total_lines_pushed,
        grid@.using_alt_screen == grid.using_alt_screen,
        grid@.saved_cursor == grid.saved_cursor,
        grid@.dirty == grid.dirty@,
        grid@.screen == grid.buffer@,
{
}


/// The line drawing characters, and the letters in their place.
pub proof fn law_line_drawing_letters()
    ensures
        dec_special('j') == '┘',
        dec_special('k') == '┐',
        dec_special('l') == '┌',
        dec_special('m') == '└',
        dec_special('n') == '┼',
        dec_special('q') == '─',
        dec_special('t') == '├',
        dec_special('u') == '┤',
        dec_special('v') == '┴',
        dec_special('w') == '┬',
        dec_special('x') == '│',
        dec_special('a') == '▒',
        dec_special('f') == '°',
        dec_special('g') == '±',
        dec_special('h') == '▒',
        dec_special('i') == '␋',
        dec_special('y') == '≤',
        dec_special('z') == '≥',
        dec_special('{') == 'π',
        dec_special('|') == '≠',
        dec_special('}') == '£',
        dec_special('~') == '·',
{
}

/// A row number above rows that have gone names the same row as before, and none
/// where its row has gone.
pub proof fn law_shifted_rows(row: usize, gone: int)
    requires
        0 <= gone,
    ensures
        row >= gone ==> shifted_row(Some(row), gone) is Some && shifted_row(Some(row), gone)->0
            + gone == row,
        row < gone ==> shifted_row(Some(row), gone) is None,
        shifted_row(None, gone) is None,
{
}

/// A saved cursor in the history follows its row while rows enter and leave it.
pub proof fn law_saved_cursors_follow_the_history(grid: GridView, count: int, row: usize)
    requires
        grid.valid(),
        0 <= count <= grid.screen.rows.len(),
        !grid.using_alt_screen,
        grid.scroll_top == 0,
        grid.scroll_bottom + 1 == grid.screen.rows.len(),
        grid.history.line_budget >= 0,
        grid.history.cell_budget >= 0,
        grid.saved_cursor.retained_row == Some(row),
        row < grid.history.rows.len(),
    ensures
        ({
            let next = grid.scrolled_up(count);
            match next.saved_cursor.retained_row {
                Some(now) => now < next.history.rows.len() && next.history.rows[now as int]
                    == grid.history.rows[row as int],
                None => next.history.rows.len() + row < grid.history.rows.len() + count,
            }
        }),
{
    law_scrolled_rows_enter_the_history(grid, count);
    reveal(GridView::scrolled_up);
    reveal(GridView::with_lines_gone);
    reveal(GridView::with_scrolled_images);
    reveal(GridView::with_revealed_tail);
    let next = grid.scrolled_up(count);
    let gone = grid.history.rows.len() + count - next.history.rows.len();
    assert(next.saved_cursor.retained_row == shifted_row(Some(row), gone));
    if row >= gone {
        let now = row - gone;
        assert(next.history.rows[now] == grid.history.rows[now + gone]);
    }
}

/// Forgetting the history forgets the marks and the images above the screen,
/// and keeps the others, and the title.
pub proof fn law_forgetting_the_history(grid: GridView, mark: PromptMark, image: ImagePlacement)
    requires
        !grid.using_alt_screen,
        0 <= grid.total_lines,
        mark.absolute_row + grid.total_lines <= usize::MAX,
    ensures
        ({
            let next = grid.display_erased(3);
            &&& next.session.marks.contains(mark) <==> grid.session.marks.contains(
                PromptMark {
                    kind: mark.kind,
                    absolute_row: (mark.absolute_row + grid.total_lines) as usize,
                },
            )
            &&& next.images.placements.contains(image) <==> grid.images.placements.contains(image)
                && image.mode.bottom(grid.images.cell_pixel_height) > 0
            &&& next.session.title == grid.session.title
            &&& next.session.events == grid.session.events
            &&& next.pen == grid.pen
            &&& next.modes == grid.modes
            &&& next.scroll_top == grid.scroll_top
            &&& next.scroll_bottom == grid.scroll_bottom
            &&& next.hidden == grid.hidden
            &&& grid.saved_cursor.retained_row is None ==> next.saved_cursor == grid.saved_cursor
            &&& grid.saved_cursor.retained_row is Some ==> next.saved_cursor.retained_row
                == shifted_row(grid.saved_cursor.retained_row, grid.history.rows.len() as int)
            &&& grid.scroll_offset != 0 ==> forall|r: int|
                0 <= r < next.dirty.len() ==> #[trigger] next.dirty[r]
        }),
{
    law_rebased_marks(grid.session.marks, grid.total_lines, mark);
    law_images_above_the_screen(
        grid.images.placements,
        false,
        grid.images.cell_pixel_height,
        image,
    );
}

/// Erasing the screen takes the images on it, and keeps those above it.
pub proof fn law_erased_screens_lose_their_images(grid: GridView, image: ImagePlacement)
    ensures
        grid.display_erased(2).images.placements.contains(image) <==> grid.images.placements.contains(
            image,
        ) && image.mode.bottom(grid.images.cell_pixel_height) <= 0,
{
    law_images_above_the_screen(
        grid.images.placements,
        true,
        grid.images.cell_pixel_height,
        image,
    );
}

/// Bringing a saved row back onto the screen moves the screen over the kept
/// rows: the images and the line counter go with it, the viewport is at the end,
/// and nothing else changes.
pub proof fn law_revealed_rows(grid: GridView, row: int, i: int)
    requires
        grid.valid(),
        0 <= row,
        0 <= i < grid.images.placements.len(),
        -0x4000_0000_0000_0000 < grid.images.placements[i].mode.top() < 0x4000_0000_0000_0000,
        grid.history.rows.len() + grid.screen.rows.len() + grid.history.tail.len()
            < 0x4000_0000_0000_0000,
    ensures
        ({
            let next = grid.row_revealed(row);
            let moved = grid.history.rows.len() - next.history.rows.len();
            &&& next.images.placements.len() == grid.images.placements.len()
            &&& next.images.placements[i].mode.top() == grid.images.placements[i].mode.top() + moved
            &&& next.images.placements[i].image_id == grid.images.placements[i].image_id
            &&& grid.total_lines >= grid.history.rows.len() ==> next.total_lines == grid.total_lines
                - moved
            &&& next.scroll_offset == 0
            &&& next.saved_cursor.retained_row is None
            &&& next.saved_cursor.col == grid.saved_cursor.col
            &&& next.saved_cursor.pending == grid.saved_cursor.pending
            &&& next.saved_cursor.row < grid.screen.rows.len()
            &&& row < grid.history.rows.len() + grid.screen.rows.len() + grid.history.tail.len()
                ==> next.history.rows.len() + next.saved_cursor.row == row
            &&& next.screen.cols == grid.screen.cols
            &&& next.screen.rows.len() == grid.screen.rows.len()
            &&& next.revisions.selection != grid.revisions.selection
            &&& next.pen == grid.pen
            &&& next.modes == grid.modes
            &&& next.session == grid.session
            &&& next.scroll_top == grid.scroll_top
            &&& next.scroll_bottom == grid.scroll_bottom
            &&& forall|r: int| 0 <= r < next.dirty.len() ==> #[trigger] next.dirty[r]
        }),
{
    reveal(GridView::row_revealed);
    assert(crate::grid::scroll::leaving_rows(
        grid.screen,
        grid.screen.rows.len() as int,
    ).len() == grid.screen.rows.len());
}

/// A cell is as wide as its text, one column at least and two at most.
pub proof fn law_cell_widths(cell: CellView)
    ensures
        1 <= cell.columns() <= 2,
        cell.text is Some ==> {
            let natural = text_columns(cell.text->0);
            &&& natural <= 1 ==> cell.columns() == 1
            &&& natural >= 2 ==> cell.columns() == 2
        },
        cell.text is None ==> {
            let natural = natural_columns(cell.c);
            &&& natural is None || natural->0 <= 1 ==> cell.columns() == 1
            &&& natural is Some && natural->0 >= 2 ==> cell.columns() == 2
        },
        cell.text is Some ==> cell.scalars() == cell.text->0,
        cell.text is None ==> cell.scalars().len() == 1 && cell.scalars()[0] == cell.c,
{
}

/// Printable ASCII takes one column, and controls have no width.
pub proof fn law_ascii_widths(c: char)
    ensures
        0x20 <= c as u32 <= 0x7e ==> natural_columns(c) == Some(1usize),
        c as u32 <= 0x1f ==> natural_columns(c) is None,
        0x7f <= c as u32 <= 0x9f ==> natural_columns(c) is None,
{
}


/// A title is taken as it is, and counts as a change exactly if it differs.
pub proof fn law_title_changes(grid: GridView, title: Seq<char>)
    ensures
        ({
            let next = grid.titled(title);
            &&& next.session.title == title
            &&& title == grid.session.title <==> next.session.title_revision
                == grid.session.title_revision
            &&& next.titled(title) == next
            &&& next.session.cwd == grid.session.cwd
            &&& next.session.marks == grid.session.marks
            &&& next.session.events == grid.session.events
            &&& next.screen == grid.screen
        }),
{
}

/// Events that were taken no longer wait, and give their room back.
pub proof fn law_taken_events(grid: GridView, bytes: int, limit: int)
    requires
        0 <= bytes <= limit,
    ensures
        ({
            let next = grid.without_events();
            &&& next.session.events.len() == 0
            &&& next.takes_sixel(bytes, limit)
            &&& next.session.title == grid.session.title
            &&& next.session.marks == grid.session.marks
            &&& next.screen == grid.screen
        }),
{
}

/// A graphics command waits with the place of the cursor when it came.
pub proof fn law_waiting_commands(grid: GridView, command: KittyCommand)
    requires
        grid.valid(),
        0 <= grid.cursor_col,
    ensures
        match grid.with_kitty_command(command).session.events.last() {
            TerminalEvent::KittyGraphics { command: waiting, cursor_row, cursor_col } => {
                &&& waiting == command
                &&& cursor_row == grid.cursor_row
                &&& grid.cursor_col < grid.screen.cols ==> cursor_col == grid.cursor_col
                &&& grid.cursor_col >= grid.screen.cols ==> cursor_col + 1 == grid.screen.cols
            },
            _ => false,
        },
        grid.with_kitty_command(command).session.events.len() == grid.session.events.len() + 1,
{
}

} // verus!
