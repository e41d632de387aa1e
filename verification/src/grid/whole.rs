//! Two-column glyphs stay whole, whatever happens to the screen.
use crate::grid::buffer::{BufferView, RowView};
use crate::grid::cell::{clamp_columns, natural_columns, text_columns, CellFlags, CellView};
use crate::grid::cursor::least;
use crate::grid::edit::{closed_row, erased_row, opened_row};
use crate::grid::reflow::{
    pack_cells, pack_glyph, pack_row, pack_rows, packed_continuation, packed_leader, packed_len,
    packed_width,
    repacked, source_step, Cursor, Packing, Sheet,
};
use crate::grid::resize::{absolute_cursor, fitted, laid_out, retained, without_empty_end};
use crate::grid::retention::{
    evicted, law_eviction_keeps_longest_suffix, lemma_evicted_width, retained_after, rows_of_width,
    HistoryView,
};
use crate::grid::scroll::{law_scroll_frame, leaving_rows};
use crate::grid::terminal::{GridView, HiddenView};
use crate::grid::wide::{
    law_repaired_rows_are_paired, lemma_half_flags, one_half_each, overlap_cleared, paired,
};
use crate::grid::write::{
    continuation_cell, glyph_in_row, lemma_soft_wrap_frame, scalar_advance, shifted_right,
    with_halves,
};
use vstd::prelude::*;

verus! {

/// All glyphs in these rows are whole.
pub open spec fn rows_whole(rows: Seq<RowView>) -> bool {
    forall|i: int| 0 <= i < rows.len() ==> paired((#[trigger] rows[i]).cells)
}

impl HistoryView {
    pub open spec fn whole(self) -> bool {
        rows_whole(self.rows) && rows_whole(self.tail)
    }
}

impl HiddenView {
    pub open spec fn whole(self) -> bool {
        &&& match self.screen {
            Some(screen) => rows_whole(screen.rows),
            None => true,
        }
        &&& match self.history {
            Some((history, _)) => history.whole(),
            None => true,
        }
    }
}

impl GridView {
    /// All glyphs are whole: above, on and below the shown screen and the
    /// hidden one.
    pub open spec fn whole(self) -> bool {
        rows_whole(self.screen.rows) && self.history.whole() && self.hidden.whole()
    }
}

proof fn lemma_plain_row_paired(cell: CellView, cols: int)
    requires
        cell.flags.bits == 0,
    ensures
        paired(RowView::filled(cols, cell).cells),
        !cell.wide(),
        !cell.continuation(),
{
    lemma_half_flags(cell.flags);
}

/// A fresh terminal holds no split glyph.
pub proof fn law_initial_is_whole(cols: int, rows: int, line_budget: int)
    ensures
        GridView::initial(cols, rows, line_budget).whole(),
{
    lemma_plain_row_paired(CellView::default_cell(), cols);
}

proof fn lemma_overlap_halves(cells: Seq<CellView>, col: int, end: int)
    requires
        one_half_each(cells),
    ensures
        one_half_each(overlap_cleared(cells, col, end)),
{
    let cleared = overlap_cleared(cells, col, end);
    assert forall|i: int| 0 <= i < cleared.len() implies !((#[trigger] cleared[i]).wide()
        && cleared[i].continuation()) by {
        lemma_half_flags(cells[i].flags);
        assert(!(cells[i].wide() && cells[i].continuation()));
    }
}

/// Writing a glyph of one or two columns into a row of whole glyphs leaves
/// whole glyphs.
pub proof fn law_glyph_in_row_is_whole(
    cells: Seq<CellView>,
    col: int,
    glyph: CellView,
    wide: bool,
    advance: int,
    insert: bool,
    blank: CellView,
)
    requires
        paired(cells),
        0 <= col < cells.len(),
        1 <= advance <= 2,
        blank.flags.bits == 0,
        !glyph.continuation(),
        cells.len() > 1 ==> glyph.wide() == wide,
        cells.len() > 1 ==> (wide <==> advance == 2),
        wide && cells.len() > 1 && !insert ==> col + 1 < cells.len(),
    ensures
        paired(glyph_in_row(cells, col, glyph, wide, advance, insert, blank)),
{
    reveal(glyph_in_row);
    lemma_half_flags(blank.flags);
    lemma_half_flags(glyph.flags);
    let right = continuation_cell(blank);
    assert(right.continuation() && !right.wide());
    if insert {
        let shifted = shifted_right(cells, col, advance);
        let written = with_halves(shifted, col, glyph, wide, blank);
        assert forall|i: int| 0 <= i < written.len() implies !((#[trigger] written[i]).wide()
            && written[i].continuation()) by {
            assert(!(cells[i].wide() && cells[i].continuation()));
            if i >= col + advance {
                assert(!(cells[i - advance].wide() && cells[i - advance].continuation()));
            }
        }
        law_repaired_rows_are_paired(written, blank);
    } else {
        let end = least(col + advance, cells.len() as int);
        let cleared = overlap_cleared(cells, col, end);
        let written = with_halves(cleared, col, glyph, wide, blank);
        let n = cells.len() as int;
        lemma_overlap_halves(cells, col, end);
        assert forall|i: int| 0 <= i < n implies {
            &&& (n > 1 && (#[trigger] written[i]).wide() ==> i + 1 < n && written[i
                + 1].continuation())
            &&& (written[i].continuation() ==> i > 0 && written[i - 1].wide())
            &&& !(written[i].wide() && written[i].continuation())
        } by {
            lemma_half_flags(cells[i].flags);
            assert(!(cells[i].wide() && cells[i].continuation()));
            assert(!(cleared[i].wide() && cleared[i].continuation()));
            if i + 1 < n {
                lemma_half_flags(cells[i + 1].flags);
                assert(!(cells[i + 1].wide() && cells[i + 1].continuation()));
            }
            if i > 0 {
                lemma_half_flags(cells[i - 1].flags);
                assert(!(cells[i - 1].wide() && cells[i - 1].continuation()));
            }
            if i > 1 {
                assert(!(cells[i - 2].wide() && cells[i - 2].continuation()));
            }
        }
    }
}

proof fn lemma_retained_whole(
    history: Seq<RowView>,
    leaving: Seq<RowView>,
    lines: int,
    cells: int,
)
    requires
        rows_whole(history),
        rows_whole(leaving),
        lines >= 0,
        cells >= 0,
    ensures
        rows_whole(retained_after(history, leaving, lines, cells)),
    decreases leaving.len(),
{
    if leaving.len() > 0 {
        assert forall|i: int| 0 <= i < leaving.drop_last().len() implies paired(
            (#[trigger] leaving.drop_last()[i]).cells,
        ) by {
            assert(paired(leaving[i].cells));
        }
        lemma_retained_whole(history, leaving.drop_last(), lines, cells);
        let before = retained_after(history, leaving.drop_last(), lines, cells);
        let all = before.push(leaving.last());
        assert(paired(leaving[leaving.len() - 1].cells));
        assert forall|i: int| 0 <= i < all.len() implies paired((#[trigger] all[i]).cells) by {
            if i < before.len() {
                assert(paired(before[i].cells));
            }
        }
        law_eviction_keeps_longest_suffix(all, lines, cells);
        let kept = evicted(all, lines, cells);
        assert forall|i: int| 0 <= i < kept.len() implies paired((#[trigger] kept[i]).cells) by {
            assert(kept[i] == all[i + (all.len() - kept.len())]);
        }
    }
}

proof fn lemma_lines_gone_whole(grid: GridView, distance: int)
    requires
        grid.whole(),
        0 <= distance <= grid.rows(),
        grid.history.line_budget >= 0,
        grid.history.cell_budget >= 0,
    ensures
        grid.with_lines_gone(distance).whole(),
{
    reveal(GridView::with_lines_gone);
    let leaving = leaving_rows(grid.screen, distance);
    assert forall|i: int| 0 <= i < leaving.len() implies paired((#[trigger] leaving[i]).cells) by {
        assert(paired(grid.screen.rows[i].cells));
    }
    lemma_retained_whole(
        grid.history.rows,
        leaving,
        grid.history.line_budget,
        grid.history.cell_budget,
    );
}

proof fn lemma_revealed_tail_whole(grid: GridView, count: int)
    requires
        grid.whole(),
        0 <= count <= grid.rows(),
    ensures
        grid.with_revealed_tail(count).whole(),
{
    reveal(GridView::with_revealed_tail);
    let next = grid.with_revealed_tail(count);
    let tail = grid.history.tail;
    assert forall|i: int| 0 <= i < next.screen.rows.len() implies paired(
        (#[trigger] next.screen.rows[i]).cells,
    ) by {
        assert(paired(grid.screen.rows[i].cells));
        let first = grid.rows() - count;
        if first <= i && i - first < tail.len() {
            assert(paired(tail[i - first].cells));
        }
    }
    assert forall|i: int| 0 <= i < next.history.tail.len() implies paired(
        (#[trigger] next.history.tail[i]).cells,
    ) by {
        let gone = tail.len() - next.history.tail.len();
        assert(paired(tail[i + gone].cells));
    }
}

/// Scrolling moves rows as a whole.
pub proof fn law_scrolling_keeps_glyphs_whole(grid: GridView, count: int)
    requires
        grid.valid(),
        grid.whole(),
        0 <= count,
        grid.history.line_budget >= 0,
        grid.history.cell_budget >= 0,
    ensures
        grid.scrolled_up(count).whole(),
        grid.scrolled_down(count).whole(),
{
    reveal(GridView::scrolled_up);
    reveal(GridView::scrolled_down);
    reveal(GridView::with_scrolled_images);
    let distance = grid.scroll_distance(count);
    let blank = grid.template();
    lemma_plain_row_paired(blank, grid.cols());
    let up = grid.screen.scrolled_up(grid.scroll_top, grid.scroll_bottom, distance, blank);
    let down = grid.screen.scrolled_down(grid.scroll_top, grid.scroll_bottom, distance, blank);
    assert forall|i: int| 0 <= i < up.rows.len() implies paired((#[trigger] up.rows[i]).cells) by {
        assert(paired(grid.screen.rows[i].cells));
        if grid.scroll_top <= i && i + distance <= grid.scroll_bottom {
            assert(paired(grid.screen.rows[i + distance].cells));
        }
    }
    assert forall|i: int| 0 <= i < down.rows.len() implies paired(
        (#[trigger] down.rows[i]).cells,
    ) by {
        assert(paired(grid.screen.rows[i].cells));
        if i <= grid.scroll_bottom && i - distance >= grid.scroll_top {
            assert(paired(grid.screen.rows[i - distance].cells));
        }
    }
    lemma_lines_gone_whole(grid, distance);
    let kept = grid.with_lines_gone(distance).with_scrolled_images(-distance, grid.saves_lines());
    assert(kept.whole());
    lemma_revealed_tail_whole(kept.with_screen(up), distance);
}

proof fn lemma_row_whole(grid: GridView, row: int, content: RowView)
    requires
        grid.whole(),
        0 <= row < grid.rows(),
        paired(content.cells),
    ensures
        rows_whole(grid.screen.rows.update(row, content)),
{
    let rows = grid.screen.rows.update(row, content);
    assert forall|i: int| 0 <= i < rows.len() implies paired((#[trigger] rows[i]).cells) by {
        assert(paired(grid.screen.rows[i].cells));
    }
}

/// What holds of every state of a terminal that keeps glyphs whole.
pub open spec fn sound(grid: GridView) -> bool {
    &&& grid.valid()
    &&& grid.whole()
    &&& grid.history.line_budget >= 0
    &&& grid.history.cell_budget >= 0
}

proof fn lemma_line_wrapped_whole(grid: GridView, wrapped: bool)
    requires
        sound(grid),
    ensures
        sound(grid.with_line_wrapped(wrapped)),
{
    let row = grid.cursor_row;
    assert(paired(grid.screen.rows[row].cells));
    lemma_row_whole(grid, row, grid.with_line_wrapped(wrapped).screen.rows[row]);
    assert(grid.with_line_wrapped(wrapped).screen.rows =~= grid.screen.rows.update(
        row,
        grid.with_line_wrapped(wrapped).screen.rows[row],
    ));
    crate::grid::buffer::lemma_row_change_shaped(
        grid.screen,
        row,
        grid.screen.rows[row].cells,
        grid.with_line_wrapped(wrapped).screen.rows[row].metadata,
    );
}

proof fn lemma_line_advanced_whole(grid: GridView)
    requires
        sound(grid),
    ensures
        grid.line_advanced().whole(),
{
    reveal(GridView::line_advanced);
    law_scrolling_keeps_glyphs_whole(grid.unwrapped(), 1);
}

/// Line feeds and wraps keep glyphs whole.
pub proof fn law_line_feeds_keep_glyphs_whole(grid: GridView)
    requires
        sound(grid),
    ensures
        grid.after_newline().whole(),
        grid.soft_wrapped().whole(),
{
    lemma_line_wrapped_whole(grid, true);
    lemma_line_wrapped_whole(grid, false);
    lemma_line_advanced_whole(grid.with_line_wrapped(false));
    lemma_line_advanced_whole(grid.with_line_wrapped(true).at_line_start());
}

proof fn lemma_row_written_whole(grid: GridView, cells: Seq<CellView>, advance: int)
    requires
        grid.whole(),
        0 <= grid.cursor_row < grid.rows(),
        paired(cells),
    ensures
        grid.with_row_written(cells, advance).whole(),
{
    let next = grid.with_row_written(cells, advance);
    assert(next.screen.rows =~= grid.screen.rows.update(
        grid.cursor_row,
        next.screen.rows[grid.cursor_row],
    ));
    lemma_row_whole(grid, grid.cursor_row, next.screen.rows[grid.cursor_row]);
}

pub proof fn lemma_scalar_whole(grid: GridView, c: char, width: Option<usize>)
    requires
        sound(grid),
        0 <= grid.cursor_col < grid.cols(),
        width is Some ==> width->0 <= 2,
        scalar_advance(width, grid.cols()) == 2 ==> grid.cursor_col + 1 < grid.cols(),
    ensures
        grid.with_scalar(c, width).whole(),
{
    reveal(GridView::with_scalar);
    let wide = width == Some(2usize);
    let glyph = grid.pen.glyph(c, wide);
    let advance = scalar_advance(width, grid.cols());
    lemma_half_flags(grid.pen.flags);
    lemma_half_flags(grid.pen.flags.with(CellFlags::WIDE));
    lemma_half_flags(grid.pen.flags.without(CellFlags::WIDE));
    assert(paired(grid.screen.rows[grid.cursor_row].cells));
    law_glyph_in_row_is_whole(
        grid.screen.rows[grid.cursor_row].cells,
        grid.cursor_col,
        glyph,
        wide,
        advance,
        grid.modes.insert_mode,
        grid.template(),
    );
    lemma_row_written_whole(
        grid,
        grid.row_with_glyph(glyph, wide, advance, grid.modes.insert_mode),
        advance,
    );
}

proof fn lemma_retained_after_width(
    history: Seq<RowView>,
    leaving: Seq<RowView>,
    lines: int,
    cells: int,
    cols: int,
)
    requires
        rows_of_width(history, cols),
        rows_of_width(leaving, cols),
        lines >= 0,
        cells >= 0,
    ensures
        rows_of_width(retained_after(history, leaving, lines, cells), cols),
    decreases leaving.len(),
{
    if leaving.len() > 0 {
        assert forall|i: int| 0 <= i < leaving.drop_last().len() implies (
        #[trigger] leaving.drop_last()[i]).cells.len() == cols by {
            assert(leaving[i].cells.len() == cols);
        }
        lemma_retained_after_width(history, leaving.drop_last(), lines, cells, cols);
        let before = retained_after(history, leaving.drop_last(), lines, cells);
        let all = before.push(leaving.last());
        assert(leaving[leaving.len() - 1].cells.len() == cols);
        assert forall|i: int| 0 <= i < all.len() implies (#[trigger] all[i]).cells.len()
            == cols by {
            if i < before.len() {
                assert(before[i].cells.len() == cols);
            }
        }
        lemma_evicted_width(all, lines, cells, cols);
    }
}

/// Scrolling keeps a valid screen valid.
pub proof fn lemma_scrolled_valid(grid: GridView, count: int)
    requires
        grid.valid(),
        0 <= count,
        grid.history.line_budget >= 0,
        grid.history.cell_budget >= 0,
    ensures
        grid.scrolled_up(count).valid(),
        grid.scrolled_up(count).history.line_budget == grid.history.line_budget,
        grid.scrolled_up(count).history.cell_budget == grid.history.cell_budget,
{
    law_scroll_frame(grid, count);
    reveal(GridView::scrolled_up);
    reveal(GridView::with_scrolled_images);
    reveal(GridView::with_lines_gone);
    reveal(GridView::with_revealed_tail);
    let distance = grid.scroll_distance(count);
    let leaving = leaving_rows(grid.screen, distance);
    assert forall|i: int| 0 <= i < leaving.len() implies (#[trigger] leaving[i]).cells.len()
        == grid.cols() by {
        assert(grid.screen.rows[i].cells.len() == grid.cols());
    }
    lemma_retained_after_width(
        grid.history.rows,
        leaving,
        grid.history.line_budget,
        grid.history.cell_budget,
        grid.cols(),
    );
    let next = grid.scrolled_up(count);
    let tail = grid.history.tail;
    assert forall|i: int| 0 <= i < next.screen.rows.len() implies (
    #[trigger] next.screen.rows[i]).cells.len() == grid.cols() by {
        assert(grid.screen.rows[i].cells.len() == grid.cols());
        if i + distance <= grid.scroll_bottom && i >= grid.scroll_top {
            assert(grid.screen.rows[i + distance].cells.len() == grid.cols());
        }
        let first = grid.rows() - distance;
        if first <= i && i - first < tail.len() {
            assert(tail[i - first].cells.len() == grid.cols());
        }
    }
    assert forall|i: int| 0 <= i < next.history.tail.len() implies (
    #[trigger] next.history.tail[i]).cells.len() == grid.cols() by {
        let gone = tail.len() - next.history.tail.len();
        assert(tail[i + gone].cells.len() == grid.cols());
    }
}

/// Line feeds and wraps keep the state of the terminal sound.
pub proof fn lemma_soft_wrapped_sound(grid: GridView)
    requires
        sound(grid),
    ensures
        sound(grid.soft_wrapped()),
{
    law_line_feeds_keep_glyphs_whole(grid);
    lemma_line_wrapped_whole(grid, true);
    lemma_soft_wrap_frame(grid);
    let marked = grid.with_line_wrapped(true).at_line_start();
    reveal(GridView::line_advanced);
    lemma_scrolled_valid(marked.unwrapped(), 1);
}

proof fn lemma_scalar_written_whole(grid: GridView, c: char, width: Option<usize>)
    requires
        sound(grid),
        grid.cursor_placed(),
        0 <= grid.cursor_col,
        width is Some ==> width->0 <= 2,
    ensures
        grid.scalar_written(c, width).whole(),
{
    lemma_soft_wrapped_sound(grid);
    lemma_soft_wrap_frame(grid);
    let ready = grid.settled();
    assert(sound(ready));
    if scalar_advance(width, grid.cols()) == 2 && ready.cursor_col == grid.cols() - 1 {
        if grid.modes.auto_wrap {
            assert(ready == grid);
            lemma_scalar_whole(ready.soft_wrapped(), c, width);
        }
    } else {
        lemma_scalar_whole(ready, c, width);
    }
}

proof fn lemma_cluster_whole(grid: GridView, cell: CellView, width: int)
    requires
        sound(grid),
        0 <= grid.cursor_col,
        1 <= width <= 2,
        grid.cursor_col + width <= grid.cols(),
        !cell.continuation(),
        grid.cols() > 1 ==> (cell.wide() <==> width == 2),
    ensures
        grid.with_cluster(cell, width).whole(),
{
    reveal(GridView::with_cluster);
    assert(paired(grid.screen.rows[grid.cursor_row].cells));
    law_glyph_in_row_is_whole(
        grid.screen.rows[grid.cursor_row].cells,
        grid.cursor_col,
        cell,
        width == 2,
        width,
        false,
        grid.template(),
    );
    lemma_row_written_whole(grid, grid.row_with_glyph(cell, width == 2, width, false), width);
}

proof fn lemma_replaced_whole(
    grid: GridView,
    col: int,
    cell: CellView,
    old_width: int,
    new_width: int,
)
    requires
        sound(grid),
        0 <= col,
        1 <= new_width <= 2,
        col + new_width <= grid.cols(),
        !cell.continuation(),
        grid.cols() > 1 ==> (cell.wide() <==> new_width == 2),
    ensures
        grid.with_glyph_replaced(col, cell, old_width, new_width).whole(),
{
    reveal(GridView::with_glyph_replaced);
    let row = grid.cursor_row;
    assert(paired(grid.screen.rows[row].cells));
    law_glyph_in_row_is_whole(
        grid.screen.rows[row].cells,
        col,
        cell,
        new_width == 2,
        new_width,
        false,
        grid.template(),
    );
    let next = grid.with_glyph_replaced(col, cell, old_width, new_width);
    assert(next.screen.rows =~= grid.screen.rows.update(row, next.screen.rows[row]));
    lemma_row_whole(grid, row, next.screen.rows[row]);
}

/// Taking a narrow glyph away leaves the others whole.
pub proof fn lemma_removed_sound(grid: GridView, col: int)
    requires
        sound(grid),
        0 <= col < grid.cols(),
        ({
            let cell = grid.screen.cell(grid.cursor_row, col);
            grid.cols() > 1 ==> !cell.wide() && !cell.continuation()
        }),
    ensures
        sound(grid.with_glyph_removed(col)),
{
    let row = grid.cursor_row;
    let cells = grid.screen.rows[row].cells;
    let blank = grid.template();
    assert(paired(cells));
    lemma_half_flags(blank.flags);
    let next = grid.with_glyph_removed(col);
    let emptied = cells.update(col, blank);
    assert forall|i: int| 0 <= i < emptied.len() implies {
        &&& (emptied.len() > 1 && (#[trigger] emptied[i]).wide() ==> i + 1 < emptied.len()
            && emptied[i + 1].continuation())
        &&& (emptied[i].continuation() ==> i > 0 && emptied[i - 1].wide())
        &&& !(emptied[i].wide() && emptied[i].continuation())
    } by {
        assert(!(cells[i].wide() && cells[i].continuation()));
        if i > 0 {
            assert(!(cells[i - 1].wide() && cells[i - 1].continuation()));
        }
        if i + 1 < cells.len() {
            assert(!(cells[i + 1].wide() && cells[i + 1].continuation()));
        }
    }
    assert(next.screen.rows[row].cells =~= emptied);
    assert(next.screen.rows =~= grid.screen.rows.update(row, next.screen.rows[row]));
    lemma_row_whole(grid, row, next.screen.rows[row]);
    assert forall|r: int| 0 <= r < next.screen.rows.len() implies (
    #[trigger] next.screen.rows[r]).cells.len() == grid.cols() by {
        assert(grid.screen.rows[r].cells.len() == grid.cols());
    }
}

proof fn lemma_cluster_extended_whole(grid: GridView, c: char, natural: int)
    requires
        sound(grid),
        grid.cursor_placed(),
        0 < grid.cursor_col,
        1 <= natural <= 2,
    ensures
        grid.cluster_extended(c, natural).whole(),
{
    let col = grid.previous_glyph();
    let row = grid.cursor_row;
    let cells = grid.screen.rows[row].cells;
    let previous = cells[col];
    let cell = grid.joined_cell(c, natural);
    assert(paired(cells));
    assert(cells.len() == grid.cols());
    // The glyph before the cursor starts in a leading or a narrow cell.
    assert(!previous.continuation()) by {
        let at = if grid.wraps_next() { grid.clamped_col() } else { grid.cursor_col - 1 };
        if cells[at].continuation() {
            assert(cells[at - 1].wide());
            assert(!(cells[at - 1].wide() && cells[at - 1].continuation()));
        }
    }
    let plain = previous.flags.without(CellFlags::WIDE | CellFlags::WIDE_CONT);
    lemma_half_flags(previous.flags);
    lemma_half_flags(previous.flags.without(CellFlags::WIDE));
    lemma_half_flags(plain);
    lemma_half_flags(plain.with(CellFlags::WIDE));
    crate::grid::cell::law_flag_updates(plain, CellFlags::WIDE, CellFlags::WIDE_CONT);
    assert(16u8 & 32u8 == 0) by (bit_vector);
    assert(!plain.has(CellFlags::WIDE_CONT));
    assert(!plain.has(CellFlags::WIDE));
    assert(!cell.continuation());
    assert(cell.wide() == (natural == 2));
    let old_width: int = if previous.wide() && col + 1 < grid.cols() { 2 } else { 1 };
    let new_width = least(natural, grid.cols());
    if new_width > old_width && col + new_width > grid.cols() && grid.modes.auto_wrap {
        assert(col + 1 == grid.cols());
        if previous.wide() {
            assert(cells[col + 1].continuation());
        }
        lemma_removed_sound(grid, col);
        let removed = grid.with_glyph_removed(col);
        lemma_soft_wrapped_sound(removed);
        lemma_soft_wrap_frame(removed);
        lemma_cluster_whole(removed.soft_wrapped(), cell, new_width);
    } else {
        let fitting = least(new_width, grid.cols() - col);
        let shown = if natural == 2 && fitting == 1 && grid.cols() > 1 {
            CellView { flags: cell.flags.without(CellFlags::WIDE), ..cell }
        } else {
            cell
        };
        lemma_half_flags(cell.flags);
        lemma_replaced_whole(grid, col, shown, old_width, fitting);
    }
}

/// Writing a character keeps glyphs whole, if its scalar takes at most two
/// columns or joins the glyph before it.
pub proof fn law_writing_keeps_glyphs_whole(grid: GridView, c: char)
    requires
        sound(grid),
        grid.cursor_placed(),
        0 <= grid.cursor_col,
    ensures
        (match natural_columns(grid.charset_scalar(c)) {
            Some(width) => width <= 2,
            None => true,
        }) || grid.joins(grid.charset_scalar(c)) ==> grid.char_written(c).whole(),
{
    reveal(GridView::char_written);
    let scalar = grid.charset_scalar(c);
    if grid.joins(scalar) {
        let text = grid.screen.cell(grid.cursor_row, grid.previous_glyph()).scalars();
        lemma_cluster_extended_whole(
            grid,
            scalar,
            clamp_columns(text_columns(text.push(scalar)) as int),
        );
    } else if match natural_columns(scalar) {
        Some(width) => width <= 2,
        None => true,
    } {
        lemma_scalar_written_whole(grid, scalar, natural_columns(scalar));
    }
}

proof fn lemma_cursor_row_whole(grid: GridView, content: RowView)
    requires
        grid.whole(),
        0 <= grid.cursor_row < grid.rows(),
        paired(content.cells),
    ensures
        grid.with_cursor_row(content).whole(),
{
    lemma_row_whole(grid, grid.cursor_row, content);
}

proof fn lemma_range_erased_whole(grid: GridView, start: int, end: int)
    requires
        sound(grid),
    ensures
        grid.range_erased(start, end).whole(),
{
    if start < end {
        reveal(erased_row);
        let row = grid.screen.rows[grid.cursor_row];
        let blank = grid.template();
        assert(paired(row.cells));
        lemma_half_flags(blank.flags);
        lemma_overlap_halves(row.cells, start, end);
        let cleared = overlap_cleared(row.cells, start, end);
        let filled = Seq::new(
            row.cells.len(),
            |i: int| if start <= i < end { blank } else { cleared[i] },
        );
        assert forall|i: int| 0 <= i < filled.len() implies !((#[trigger] filled[i]).wide()
            && filled[i].continuation()) by {
            assert(!(cleared[i].wide() && cleared[i].continuation()));
        }
        law_repaired_rows_are_paired(filled, blank);
        lemma_cursor_row_whole(grid, erased_row(row, start, end, blank));
    }
}

proof fn lemma_rows_erased_whole(grid: GridView, from: int, to: int)
    requires
        grid.whole(),
    ensures
        grid.rows_erased(from, to).whole(),
{
    let next = grid.rows_erased(from, to);
    lemma_plain_row_paired(grid.template(), grid.cols());
    assert forall|i: int| 0 <= i < next.screen.rows.len() implies paired(
        (#[trigger] next.screen.rows[i]).cells,
    ) by {
        assert(paired(grid.screen.rows[i].cells));
    }
}

/// Erasing, deleting and inserting keep glyphs whole.
pub proof fn law_editing_keeps_glyphs_whole(grid: GridView, mode: u16, count: int)
    requires
        sound(grid),
        0 <= count,
        0 <= grid.cursor_col,
    ensures
        grid.line_erased(mode).whole(),
        grid.chars_erased(count).whole(),
        grid.chars_deleted(count).whole(),
        grid.blanks_inserted(count).whole(),
        grid.display_erased(mode).whole(),
{
    let ready = grid.unwrapped();
    assert(sound(ready));
    lemma_range_erased_whole(ready, ready.cursor_col, ready.cols());
    lemma_range_erased_whole(ready, 0, ready.cursor_col + 1);
    lemma_range_erased_whole(ready, 0, ready.cols());
    lemma_range_erased_whole(
        ready,
        ready.cursor_col,
        least(ready.cursor_col + count, ready.cols()),
    );
    let row = ready.screen.rows[ready.cursor_row];
    let col = ready.cursor_col;
    let fitting = least(count, ready.cols() - col);
    let blank = ready.template();
    assert(paired(row.cells));
    assert(row.cells.len() == ready.cols());
    lemma_half_flags(blank.flags);
    {
        reveal(closed_row);
        lemma_overlap_halves(row.cells, col, col + fitting);
        let cleared = overlap_cleared(row.cells, col, col + fitting);
        let moved = Seq::new(
            row.cells.len(),
            |i: int|
                if i < col {
                    cleared[i]
                } else if i + fitting < row.cells.len() {
                    cleared[i + fitting]
                } else {
                    blank
                },
        );
        assert forall|i: int| 0 <= i < moved.len() implies !((#[trigger] moved[i]).wide()
            && moved[i].continuation()) by {
            assert(!(cleared[i].wide() && cleared[i].continuation()));
            if i + fitting < cleared.len() {
                assert(!(cleared[i + fitting].wide() && cleared[i + fitting].continuation()));
            }
        }
        law_repaired_rows_are_paired(moved, blank);
        lemma_cursor_row_whole(ready, closed_row(row, col, fitting, blank));
    }
    {
        reveal(opened_row);
        lemma_overlap_halves(row.cells, col, col);
        let cleared = overlap_cleared(row.cells, col, col);
        let moved = Seq::new(
            row.cells.len(),
            |i: int|
                if i < col {
                    cleared[i]
                } else if i >= col + fitting {
                    cleared[i - fitting]
                } else {
                    blank
                },
        );
        assert forall|i: int| 0 <= i < moved.len() implies !((#[trigger] moved[i]).wide()
            && moved[i].continuation()) by {
            assert(!(cleared[i].wide() && cleared[i].continuation()));
            if i >= col + fitting {
                assert(!(cleared[i - fitting].wide() && cleared[i - fitting].continuation()));
            }
        }
        law_repaired_rows_are_paired(moved, blank);
        lemma_cursor_row_whole(ready, opened_row(row, col, fitting, blank));
    }
    let headless = grid.without_tail().unwrapped();
    assert(sound(headless));
    lemma_range_erased_whole(headless, headless.cursor_col, headless.cols());
    lemma_rows_erased_whole(grid.without_tail().line_erased(0), grid.cursor_row + 1, grid.rows());
    lemma_rows_erased_whole(grid.line_erased(1), 0, grid.cursor_row);
    lemma_rows_erased_whole(headless.with_selection_moved(true), 0, grid.rows());
}

/// Switching between the screens keeps glyphs whole, and so does a reset.
pub proof fn law_switching_keeps_glyphs_whole(grid: GridView)
    requires
        grid.whole(),
    ensures
        grid.alternate_entered().whole(),
        grid.alternate_left().whole(),
        grid.reset().whole(),
{
    lemma_plain_row_paired(CellView::default_cell(), grid.cols());
}

/// The cells before the output column are whole glyphs, and the others are
/// blank.
spec fn sheet_whole(sheet: Sheet, cols: int) -> bool {
    &&& sheet.valid(cols)
    &&& rows_whole(sheet.rows)
    &&& forall|i: int|
        sheet.col <= i < cols ==> (#[trigger] sheet.rows.last().cells[i])
            == CellView::default_cell()
}

proof fn lemma_break_whole(sheet: Sheet, cols: int)
    requires
        cols > 0,
        sheet_whole(sheet, cols),
    ensures
        sheet_whole(sheet.soft_break(cols), cols),
        sheet_whole(sheet.hard_break(cols), cols),
{
    lemma_plain_row_paired(CellView::default_cell(), cols);
    let soft = sheet.soft_break(cols);
    let hard = sheet.hard_break(cols);
    assert forall|i: int| 0 <= i < soft.rows.len() implies paired((#[trigger] soft.rows[i]).cells)
        && soft.rows[i].cells.len() == cols by {
        if i < sheet.rows.len() {
            assert(paired(sheet.rows[i].cells));
            assert(sheet.rows[i].cells.len() == cols);
        }
    }
    assert forall|i: int| 0 <= i < hard.rows.len() implies paired((#[trigger] hard.rows[i]).cells)
        && hard.rows[i].cells.len() == cols by {
        if i < sheet.rows.len() {
            assert(paired(sheet.rows[i].cells));
            assert(sheet.rows[i].cells.len() == cols);
        }
    }
}

proof fn lemma_placed_whole(sheet: Sheet, cell: CellView, cols: int, counts: bool)
    requires
        cols > 0,
        sheet_whole(sheet, cols),
    ensures
        sheet_whole(sheet.with_room(cell, cols).placed(cell, cols, counts), cols),
{
    lemma_break_whole(sheet, cols);
    let roomy = sheet.with_room(cell, cols);
    let placed = roomy.placed(cell, cols, counts);
    let col = roomy.col;
    let before = roomy.rows.last().cells;
    let after = placed.rows.last().cells;
    let width = packed_width(cell, cols);
    let plain = cell.flags.without(CellFlags::WIDE | CellFlags::WIDE_CONT);
    lemma_half_flags(cell.flags);
    lemma_half_flags(cell.flags.without(CellFlags::WIDE));
    lemma_half_flags(plain);
    lemma_half_flags(CellView::default_cell().flags);
    crate::grid::cell::law_flag_updates(plain, CellFlags::WIDE, CellFlags::WIDE_CONT);
    assert(16u8 & 32u8 == 0) by (bit_vector);
    let leader = packed_leader(cell);
    assert(!leader.continuation());
    assert(leader.wide() == (cell.columns() == 2));
    assert(packed_continuation(cell).continuation() && !packed_continuation(cell).wide());
    assert(paired(roomy.rows[roomy.rows.len() - 1].cells));
    assert(roomy.rows[roomy.rows.len() - 1].cells.len() == cols);
    assert(before[col] == CellView::default_cell());
    assert forall|i: int| 0 <= i < cols implies {
        &&& (cols > 1 && (#[trigger] after[i]).wide() ==> i + 1 < cols && after[i
            + 1].continuation())
        &&& (after[i].continuation() ==> i > 0 && after[i - 1].wide())
        &&& !(after[i].wide() && after[i].continuation())
    } by {
        assert(!(before[i].wide() && before[i].continuation()));
        if i > 0 {
            assert(!(before[i - 1].wide() && before[i - 1].continuation()));
        }
        if i + 1 < cols {
            assert(!(before[i + 1].wide() && before[i + 1].continuation()));
        }
        if i == col + 2 && width == 2 {
            assert(before[i] == CellView::default_cell());
        }
        if i == col + 1 {
            assert(before[i] == CellView::default_cell());
        }
    }
    assert forall|i: int| 0 <= i < placed.rows.len() implies paired(
        (#[trigger] placed.rows[i]).cells,
    ) && placed.rows[i].cells.len() == cols by {
        assert(paired(roomy.rows[i].cells));
        assert(roomy.rows[i].cells.len() == cols);
    }
}

proof fn lemma_cells_packed_whole(
    packing: Packing,
    cells: Seq<CellView>,
    written: int,
    cols: int,
    at: int,
    len: int,
)
    requires
        cols > 0,
        sheet_whole(packing.sheet, cols),
    ensures
        sheet_whole(pack_cells(packing, cells, written, cols, at, len).sheet, cols),
    decreases if at < len { len - at } else { 0 },
{
    if at < len {
        if !cells[at].continuation() {
            lemma_placed_whole(packing.sheet, cells[at], cols, at < written);
        }
        lemma_cells_packed_whole(
            pack_glyph(packing, cells, written, cols, at),
            cells,
            written,
            cols,
            at + source_step(cells, at),
            len,
        );
    }
}

proof fn lemma_rows_packed_whole(
    sheet: Sheet,
    mapped: Seq<Cursor>,
    source: Seq<RowView>,
    cursors: Seq<Cursor>,
    cols: int,
    index: int,
)
    requires
        cols > 0,
        0 <= index,
        sheet_whole(sheet, cols),
    ensures
        sheet_whole(pack_rows(sheet, mapped, source, cursors, cols, index).0, cols),
    decreases source.len() - index,
{
    if index < source.len() {
        let row = source[index];
        let len = packed_len(row, cursors, index);
        let start = Packing {
            sheet,
            positions: Seq::new((row.cells.len() + 1) as nat, |i: int| sheet.here()),
        };
        lemma_cells_packed_whole(start, row.cells, row.metadata.len as int, cols, 0, len);
        let packed = pack_cells(start, row.cells, row.metadata.len as int, cols, 0, len);
        lemma_break_whole(packed.sheet, cols);
        lemma_break_whole(packed.sheet.soft_break(cols), cols);
        let (next, moved) = pack_row(sheet, mapped, source, cursors, cols, index);
        lemma_rows_packed_whole(next, moved, source, cursors, cols, index + 1);
    }
}

/// Repacked rows hold only whole glyphs, even if the source did not.
pub proof fn law_repacked_rows_are_whole(source: Seq<RowView>, cols: int, cursors: Seq<Cursor>)
    requires
        cols > 0,
    ensures
        rows_whole(repacked(source, cols, cursors).0),
{
    lemma_plain_row_paired(CellView::default_cell(), cols);
    let home = Cursor { row: 0, col: 0, pending: false, retained_row: None };
    lemma_rows_packed_whole(
        Sheet::fresh(cols),
        Seq::new(cursors.len(), |i: int| home),
        source,
        cursors,
        cols,
        0,
    );
}

proof fn lemma_laid_out_whole(
    rows: Seq<RowView>,
    start: int,
    history: HistoryView,
    height: int,
    cols: int,
)
    requires
        rows_whole(rows),
        0 <= start <= rows.len(),
        0 <= height,
    ensures
        ({
            let (screen, around) = laid_out(rows, start, history, height, cols);
            rows_whole(screen.rows) && around.whole()
        }),
{
    let (screen, around) = laid_out(rows, start, history, height, cols);
    lemma_plain_row_paired(CellView::default_cell(), cols);
    assert forall|i: int| 0 <= i < screen.rows.len() implies paired(
        (#[trigger] screen.rows[i]).cells,
    ) by {
        if i + start < rows.len() {
            assert(paired(rows[i + start].cells));
        }
    }
    assert forall|i: int| 0 <= i < around.rows.len() implies paired(
        (#[trigger] around.rows[i]).cells,
    ) by {
        assert(paired(rows[i].cells));
    }
    assert forall|i: int| 0 <= i < around.tail.len() implies paired(
        (#[trigger] around.tail[i]).cells,
    ) by {
        assert(paired(rows[i + start + height].cells));
    }
}

proof fn lemma_fitted_whole(
    screen: BufferView,
    history: HistoryView,
    first: Cursor,
    second: Cursor,
    cols: int,
    rows: int,
)
    requires
        0 < cols <= usize::MAX,
        rows > 0,
    ensures
        rows_whole(fitted(screen, history, first, second, cols, rows).screen.rows),
        fitted(screen, history, first, second, cols, rows).history.whole(),
{
    reveal(fitted);
    let above = history.rows.len() as int;
    let a = absolute_cursor(first, above);
    let b = absolute_cursor(second, above);
    let last = if a.row > b.row { a.row } else { b.row };
    let source = without_empty_end(retained(history, screen), last as int);
    law_repacked_rows_are_whole(source, cols, seq![a, b]);
    let (packed, mapped) = repacked(source, cols, seq![a, b]);
    let start = least(
        if packed.len() > rows { packed.len() - rows } else { 0 },
        mapped[0].row as int,
    );
    lemma_laid_out_whole(packed, start, history, rows, cols);
}

/// A resize keeps glyphs whole, and so does restoring the cursor.
pub proof fn law_resizing_keeps_glyphs_whole(grid: GridView, cols: int, rows: int)
    requires
        grid.valid(),
        grid.whole(),
        0 < cols <= usize::MAX,
        rows > 0,
    ensures
        grid.resized(cols, rows).whole(),
        grid.cursor_restored().whole(),
{
    let fit = grid.fit(cols, rows);
    lemma_fitted_whole(
        grid.screen,
        grid.history,
        Cursor {
            row: grid.cursor_row as usize,
            col: grid.clamped_col() as usize,
            pending: grid.wraps_next(),
            retained_row: None,
        },
        Cursor {
            row: least(grid.saved_cursor.row as int, grid.rows() - 1) as usize,
            col: least(grid.saved_cursor.col as int, grid.cols() - 1) as usize,
            ..grid.saved_cursor
        },
        cols,
        rows,
    );
    if grid.hidden.screen is Some && grid.hidden.history is Some {
        lemma_fitted_whole(
            grid.hidden.screen->0,
            (grid.hidden.history->0).0,
            Cursor {
                row: grid.hidden.cursor.0,
                col: grid.hidden.cursor.1,
                pending: grid.hidden.wrap_pending,
                retained_row: None,
            },
            match grid.hidden.saved_cursor {
                Some(cursor) => cursor,
                None => Cursor { row: 0, col: 0, pending: false, retained_row: None },
            },
            cols,
            rows,
        );
    }
    reveal(GridView::row_revealed);
    let all = retained(grid.history, grid.screen);
    let shown = leaving_rows(grid.screen, grid.screen.rows.len() as int);
    assert forall|i: int| 0 <= i < all.len() implies paired((#[trigger] all[i]).cells) by {
        let n = grid.history.rows.len() as int;
        if i < n {
            assert(paired(grid.history.rows[i].cells));
        } else if i < n + shown.len() {
            assert(all[i] == shown[i - n]);
            assert(paired(grid.screen.rows[i - n].cells));
        } else {
            assert(paired(grid.history.tail[i - n - shown.len()].cells));
        }
    }
    if let Some(row) = grid.saved_cursor.retained_row {
        let target = least(row as int, all.len() - 1);
        let start = least(target, all.len() - grid.rows());
        lemma_laid_out_whole(all, start, grid.history, grid.rows(), grid.cols());
    }
}

} // verus!
