//! Writing text in runs is the same as writing it character by character.
use crate::grid::buffer::lemma_row_change_shaped;
use crate::grid::cell::{
    clamp_columns, law_flag_updates, text_columns, CellFlags, CellView,
};
use crate::grid::cursor::least;
use crate::grid::terminal::{CharSet, GridView};
use crate::grid::whole::{
    law_writing_keeps_glyphs_whole, lemma_removed_sound, lemma_scalar_whole,
    lemma_soft_wrapped_sound, sound,
};
use crate::grid::wide::{lemma_half_flags, overlap_cleared, paired};
use crate::grid::write::{
    continuation_cell, glyph_in_row, lemma_soft_wrap_frame, run_in_row,
};
use vstd::prelude::*;

verus! {

/// The scalars are printable ASCII, which take one column each.
pub open spec fn printable(text: Seq<char>) -> bool {
    forall|i: int| 0 <= i < text.len() ==> ' ' <= #[trigger] text[i] <= '~'
}

/// No printable ASCII scalar joins the glyph before the cursor.
#[verifier::opaque]
spec fn closed_to_ascii(grid: GridView) -> bool {
    forall|d: char| ' ' <= d <= '~' ==> !#[trigger] grid.may_join(d)
}

proof fn lemma_closed_to_ascii(grid: GridView, d: char)
    requires
        closed_to_ascii(grid),
        ' ' <= d <= '~',
    ensures
        !grid.joins(d),
{
    reveal(closed_to_ascii);
    assert(!grid.may_join(d));
}

/// One more glyph at the end of a run.
proof fn lemma_run_step(cells: Seq<CellView>, col: int, glyphs: Seq<CellView>, blank: CellView)
    requires
        paired(cells),
        0 <= col,
        glyphs.len() > 0,
        col + glyphs.len() <= cells.len(),
    ensures
        glyphs.len() == 1 ==> run_in_row(cells, col, glyphs) == glyph_in_row(
            cells,
            col,
            glyphs[0],
            false,
            1,
            false,
            blank,
        ),
        glyphs.len() > 1 ==> run_in_row(cells, col, glyphs) == glyph_in_row(
            run_in_row(cells, col, glyphs.drop_last()),
            col + glyphs.len() - 1,
            glyphs.last(),
            false,
            1,
            false,
            blank,
        ),
{
    reveal(run_in_row);
    reveal(glyph_in_row);
    if glyphs.len() == 1 {
        assert(run_in_row(cells, col, glyphs) =~= glyph_in_row(
            cells,
            col,
            glyphs[0],
            false,
            1,
            false,
            blank,
        ));
    } else {
        let last = col + glyphs.len() - 1;
        let bulk = run_in_row(cells, col, glyphs);
        let prior = run_in_row(cells, col, glyphs.drop_last());
        let step = glyph_in_row(prior, last, glyphs.last(), false, 1, false, blank);
        let left = overlap_cleared(cells, col, col + 1);
        assert forall|i: int| 0 <= i < cells.len() implies #[trigger] bulk[i] == step[i] by {
            lemma_half_flags(cells[i].flags);
            lemma_half_flags(cells[last].flags);
            lemma_half_flags(cells[last - 1].flags);
            if cells[last].continuation() {
                assert(cells[last - 1].wide());
            }
            assert(!(cells[last].wide() && cells[last].continuation()));
            assert(left[last].wide() == cells[last].wide());
            assert(left[last - 1].wide() == cells[last - 1].wide());
            assert(!prior[last].continuation());
            assert(prior[last].wide() == cells[last].wide());
            if last + 1 < cells.len() {
                assert(prior[last + 1] == cells[last + 1]);
                assert(left[last + 1] == cells[last + 1]);
            }
        }
        assert(bulk =~= step);
    }
}

/// A text may come in parts: writing them one after the other is writing the
/// whole at once.
pub proof fn law_text_splits(grid: GridView, left: Seq<char>, right: Seq<char>)
    ensures
        grid.text_written(left + right) == grid.text_written(left).text_written(right),
    decreases right.len(),
{
    if right.len() == 0 {
        assert(left + right =~= left);
    } else {
        law_text_splits(grid, left, right.drop_last());
        assert((left + right).drop_last() =~= left + right.drop_last());
    }
}

proof fn lemma_single_char(grid: GridView, c: char)
    ensures
        grid.text_written(seq![c]) == grid.char_written(c),
{
    assert(seq![c].drop_last() =~= Seq::<char>::empty());
    assert(grid.text_written(Seq::<char>::empty()) == grid);
}

proof fn lemma_row_written_valid(grid: GridView, cells: Seq<CellView>, advance: int)
    requires
        grid.valid(),
        cells.len() == grid.cols(),
    ensures
        grid.with_row_written(cells, advance).valid(),
{
    let row = grid.cursor_row;
    let next = grid.with_row_written(cells, advance);
    let changed = grid.screen.with_cells(row, cells);
    lemma_row_change_shaped(grid.screen, row, cells, grid.screen.rows[row].metadata);
    lemma_row_change_shaped(changed, row, cells, next.screen.rows[row].metadata);
    assert(next.screen == changed.with_metadata(row, next.screen.rows[row].metadata));
}

/// A printable ASCII scalar written at a cursor on the screen.
proof fn lemma_ascii_scalar(grid: GridView, c: char)
    requires
        sound(grid),
        0 <= grid.cursor_col < grid.cols(),
        !grid.modes.insert_mode,
        ' ' <= c <= '~',
    ensures
        ({
            let next = grid.with_scalar(c, Some(1usize));
            &&& sound(next)
            &&& next.cursor_placed()
            &&& next.cursor_col == grid.cursor_col + 1
            &&& next.wrap_pending == (next.cursor_col >= next.cols())
            &&& closed_to_ascii(next)
            &&& next.cols() == grid.cols()
            &&& next.modes == grid.modes
            &&& next.pen == grid.pen
        }),
{
    reveal(GridView::with_scalar);
    reveal(glyph_in_row);
    lemma_scalar_whole(grid, c, Some(1usize));
    let glyph = grid.pen.glyph(c, false);
    let cells = grid.row_with_glyph(glyph, false, 1, false);
    assert(grid.screen.rows[grid.cursor_row].cells.len() == grid.cols());
    lemma_row_written_valid(grid, cells, 1);
    let next = grid.with_scalar(c, Some(1usize));
    assert(next.screen.rows[grid.cursor_row].cells == cells);
    assert(cells[grid.cursor_col] == glyph);
    lemma_half_flags(grid.pen.flags.without(CellFlags::WIDE));
    assert(!glyph.continuation());
    assert(next.previous_glyph() == grid.cursor_col);
    reveal(closed_to_ascii);
}

/// A printable ASCII scalar that does not join the glyph before it.
proof fn lemma_ascii_char(grid: GridView, c: char)
    requires
        sound(grid),
        grid.cursor_placed(),
        0 <= grid.cursor_col,
        !grid.modes.insert_mode,
        grid.modes.charset == CharSet::Ascii,
        ' ' <= c <= '~',
        !grid.joins(c),
    ensures
        ({
            let next = grid.char_written(c);
            &&& sound(next)
            &&& next.cursor_placed()
            &&& 0 <= next.cursor_col
            &&& closed_to_ascii(next)
            &&& next.cols() == grid.cols()
            &&& next.modes == grid.modes
        }),
        !grid.wraps_next() && grid.cursor_col < grid.cols() ==> grid.char_written(c)
            == grid.with_scalar(c, Some(1usize)),
{
    reveal(GridView::char_written);
    lemma_soft_wrapped_sound(grid);
    lemma_soft_wrap_frame(grid);
    let ready = grid.settled();
    assert(sound(ready));
    assert(ready.cursor_col < grid.cols());
    lemma_ascii_scalar(ready, c);
}

/// A run is its characters, written one after the other.
proof fn lemma_run_is_characters(grid: GridView, run: Seq<char>)
    requires
        sound(grid),
        0 <= grid.cursor_col,
        !grid.wraps_next(),
        grid.cursor_col + run.len() <= grid.cols(),
        !grid.modes.insert_mode,
        grid.modes.charset == CharSet::Ascii,
        run.len() > 0,
        printable(run),
        !grid.joins(run[0]),
    ensures
        ({
            let next = grid.with_run(run);
            &&& next == grid.text_written(run)
            &&& sound(next)
            &&& next.cursor_placed()
            &&& next.cursor_col == grid.cursor_col + run.len()
            &&& next.wrap_pending == (next.cursor_col >= next.cols())
            &&& closed_to_ascii(next)
            &&& next.cols() == grid.cols()
            &&& next.modes == grid.modes
            &&& next.pen == grid.pen
        }),
    decreases run.len(),
{
    let col = grid.cursor_col;
    let row = grid.cursor_row;
    let cells = grid.screen.rows[row].cells;
    let glyphs = grid.pen.glyphs(run);
    assert(cells.len() == grid.cols());
    assert(paired(cells));
    lemma_run_step(cells, col, glyphs, grid.template());
    if run.len() == 1 {
        let c = run[0];
        lemma_ascii_char(grid, c);
        lemma_ascii_scalar(grid, c);
        assert(run =~= seq![c]);
        lemma_single_char(grid, c);
        reveal(GridView::with_run);
        reveal(GridView::with_scalar);
        assert(grid.with_run(run) == grid.with_scalar(c, Some(1usize)));
    } else {
        let shorter = run.drop_last();
        let c = run.last();
        assert forall|i: int| 0 <= i < shorter.len() implies ' ' <= #[trigger] shorter[i] <= '~' by {
            assert(' ' <= run[i] <= '~');
        }
        assert(' ' <= run[run.len() - 1] <= '~');
        lemma_run_is_characters(grid, shorter);
        let before = grid.with_run(shorter);
        lemma_closed_to_ascii(before, c);
        lemma_ascii_char(before, c);
        lemma_ascii_scalar(before, c);
        assert(grid.pen.glyphs(shorter) =~= glyphs.drop_last());
        lemma_run_grows(grid, run);
    }
}

/// A longer run is a shorter one and one more scalar.
proof fn lemma_run_grows(grid: GridView, run: Seq<char>)
    requires
        grid.valid(),
        run.len() > 1,
        0 <= grid.cursor_col,
        grid.cursor_col + run.len() <= grid.cols(),
        !grid.modes.insert_mode,
        grid.row_with_run(run) == glyph_in_row(
            grid.row_with_run(run.drop_last()),
            grid.cursor_col + run.len() - 1,
            grid.pen.glyph(run.last(), false),
            false,
            1,
            false,
            grid.template(),
        ),
    ensures
        grid.with_run(run) == grid.with_run(run.drop_last()).with_scalar(run.last(), Some(1usize)),
{
    reveal(GridView::with_run);
    reveal(GridView::with_scalar);
    let before = grid.with_run(run.drop_last());
    let after = before.with_scalar(run.last(), Some(1usize));
    let goal = grid.with_run(run);
    let row = grid.cursor_row;
    assert(before.screen.rows[row].cells == grid.row_with_run(run.drop_last()));
    assert(after.screen.rows[row].cells == goal.screen.rows[row].cells);
    assert(after.screen.rows =~= goal.screen.rows);
    assert(after.dirty =~= goal.dirty);
}

proof fn lemma_runs_match(grid: GridView, text: Seq<char>)
    requires
        sound(grid),
        grid.cursor_placed(),
        0 <= grid.cursor_col,
        !grid.modes.insert_mode,
        grid.modes.charset == CharSet::Ascii,
        printable(text),
        text.len() > 0 ==> !grid.joins(text[0]),
    ensures
        grid.runs_written(text) == grid.text_written(text),
    decreases text.len(),
{
    if text.len() == 0 {
    } else if grid.wraps_next() || grid.cursor_col >= grid.cols() {
        let rest = text.skip(1);
        let c = text[0];
        assert(printable(rest)) by {
            assert forall|i: int| 0 <= i < rest.len() implies ' ' <= #[trigger] rest[i] <= '~' by {
                assert(' ' <= text[i + 1] <= '~');
            }
        }
        lemma_ascii_char(grid, c);
        if rest.len() > 0 {
            assert(' ' <= text[1] <= '~');
            lemma_closed_to_ascii(grid.char_written(c), rest[0]);
        }
        lemma_runs_match(grid.char_written(c), rest);
        lemma_single_char(grid, c);
        law_text_splits(grid, seq![c], rest);
        assert(seq![c] + rest =~= text);
    } else {
        let count = least(text.len() as int, grid.cols() - grid.cursor_col);
        let run = text.take(count);
        let rest = text.skip(count);
        assert(printable(run)) by {
            assert forall|i: int| 0 <= i < run.len() implies ' ' <= #[trigger] run[i] <= '~' by {
                assert(' ' <= text[i] <= '~');
            }
        }
        assert(printable(rest)) by {
            assert forall|i: int| 0 <= i < rest.len() implies ' ' <= #[trigger] rest[i] <= '~' by {
                assert(' ' <= text[i + count] <= '~');
            }
        }
        lemma_run_is_characters(grid, run);
        let next = grid.with_run(run);
        if rest.len() > 0 {
            assert(' ' <= text[count] <= '~');
            lemma_closed_to_ascii(next, rest[0]);
        }
        lemma_runs_match(next, rest);
        law_text_splits(grid, run, rest);
        assert(run + rest =~= text);
    }
}

/// A scalar that joins the glyph before it leaves the terminal sound.
proof fn lemma_joined_sound(grid: GridView, c: char)
    requires
        sound(grid),
        grid.cursor_placed(),
        0 <= grid.cursor_col,
        grid.modes.charset == CharSet::Ascii,
        grid.joins(c),
    ensures
        sound(grid.char_written(c)),
        0 <= grid.char_written(c).cursor_col,
{
    reveal(GridView::char_written);
    law_writing_keeps_glyphs_whole(grid, c);
    let col = grid.previous_glyph();
    let row = grid.cursor_row;
    let cells = grid.screen.rows[row].cells;
    let previous = cells[col];
    let text = previous.scalars();
    let natural = clamp_columns(text_columns(text.push(c)) as int);
    let cell = grid.joined_cell(c, natural);
    assert(paired(cells));
    assert(cells.len() == grid.cols());
    assert(!previous.continuation()) by {
        let at = if grid.wraps_next() { grid.clamped_col() } else { grid.cursor_col - 1 };
        if cells[at].continuation() {
            assert(cells[at - 1].wide());
            assert(!(cells[at - 1].wide() && cells[at - 1].continuation()));
        }
    }
    let old_width: int = if previous.wide() && col + 1 < grid.cols() { 2 } else { 1 };
    let new_width = least(natural, grid.cols());
    if new_width > old_width && col + new_width > grid.cols() && grid.modes.auto_wrap {
        if previous.wide() {
            assert(cells[col + 1].continuation());
        }
        lemma_removed_sound(grid, col);
        let removed = grid.with_glyph_removed(col);
        lemma_soft_wrapped_sound(removed);
        lemma_soft_wrap_frame(removed);
        lemma_cluster_valid(removed.soft_wrapped(), cell, new_width);
    } else {
        let fitting = least(new_width, grid.cols() - col);
        let shown = if natural == 2 && fitting == 1 && grid.cols() > 1 {
            CellView {
                flags: cell.flags.without(CellFlags::WIDE),
                ..cell
            }
        } else {
            cell
        };
        lemma_replaced_valid(grid, col, shown, old_width, fitting);
    }
}

proof fn lemma_cluster_valid(grid: GridView, cell: CellView, width: int)
    requires
        grid.valid(),
        0 <= grid.cursor_col < grid.cols(),
        0 <= width,
    ensures
        grid.with_cluster(cell, width).valid(),
        0 <= grid.with_cluster(cell, width).cursor_col,
        grid.with_cluster(cell, width).history == grid.history,
{
    reveal(GridView::with_cluster);
    reveal(glyph_in_row);
    assert(grid.screen.rows[grid.cursor_row].cells.len() == grid.cols());
    lemma_row_written_valid(grid, grid.row_with_glyph(cell, width == 2, width, false), width);
}

proof fn lemma_replaced_valid(
    grid: GridView,
    col: int,
    cell: CellView,
    old_width: int,
    new_width: int,
)
    requires
        grid.valid(),
        0 <= col < grid.cols(),
        0 <= new_width,
    ensures
        grid.with_glyph_replaced(col, cell, old_width, new_width).valid(),
        0 <= grid.with_glyph_replaced(col, cell, old_width, new_width).cursor_col,
        grid.with_glyph_replaced(col, cell, old_width, new_width).history == grid.history,
{
    reveal(GridView::with_glyph_replaced);
    reveal(glyph_in_row);
    let next = grid.with_glyph_replaced(col, cell, old_width, new_width);
    assert forall|r: int| 0 <= r < next.screen.rows.len() implies (
    #[trigger] next.screen.rows[r]).cells.len() == grid.cols() by {
        assert(grid.screen.rows[r].cells.len() == grid.cols());
    }
}

/// A printable ASCII scalar that joined the glyph before it lets no other one
/// join.
proof fn lemma_joined_is_closed(grid: GridView, c: char, d: char)
    requires
        sound(grid),
        grid.cursor_placed(),
        0 <= grid.cursor_col,
        grid.modes.charset == CharSet::Ascii,
        grid.joins(c),
        ' ' <= c <= '~',
        ' ' <= d <= '~',
    ensures
        !grid.char_written(c).joins(d),
{
    reveal(GridView::char_written);
    let col = grid.previous_glyph();
    let row = grid.cursor_row;
    let cells = grid.screen.rows[row].cells;
    let previous = cells[col];
    let text = previous.scalars();
    let natural = clamp_columns(text_columns(text.push(c)) as int);
    let cell = grid.joined_cell(c, natural);
    assert(cells.len() == grid.cols());
    let plain = previous.flags.without(CellFlags::WIDE | CellFlags::WIDE_CONT);
    lemma_half_flags(plain);
    lemma_half_flags(plain.with(CellFlags::WIDE));
    law_flag_updates(plain, CellFlags::WIDE, CellFlags::WIDE_CONT);
    lemma_half_flags(previous.flags);
    lemma_half_flags(previous.flags.without(CellFlags::WIDE));
    assert(16u8 & 32u8 == 0) by (bit_vector);
    assert(!plain.has(CellFlags::WIDE_CONT));
    assert(!cell.continuation());
    assert(cell.scalars() == text.push(c));
    let old_width: int = if previous.wide() && col + 1 < grid.cols() { 2 } else { 1 };
    let new_width = least(natural, grid.cols());
    if new_width > old_width && col + new_width > grid.cols() && grid.modes.auto_wrap {
        let removed = grid.with_glyph_removed(col);
        assert(paired(cells));
        if previous.wide() {
            assert(cells[col + 1].continuation());
        }
        lemma_removed_sound(grid, col);
        lemma_soft_wrapped_sound(removed);
        lemma_soft_wrap_frame(removed);
        lemma_cluster_is_previous(removed.soft_wrapped(), cell, new_width);
    } else {
        let fitting = least(new_width, grid.cols() - col);
        let shown = if natural == 2 && fitting == 1 && grid.cols() > 1 {
            CellView { flags: cell.flags.without(CellFlags::WIDE), ..cell }
        } else {
            cell
        };
        lemma_half_flags(cell.flags);
        lemma_replaced_is_previous(grid, col, shown, old_width, fitting);
    }
}

proof fn lemma_cluster_is_previous(grid: GridView, cell: CellView, width: int)
    requires
        grid.valid(),
        0 <= grid.cursor_col,
        1 <= width <= 2,
        grid.cursor_col + width <= grid.cols(),
        !cell.continuation(),
    ensures
        ({
            let next = grid.with_cluster(cell, width);
            next.screen.cell(next.cursor_row, next.previous_glyph()) == cell
        }),
{
    reveal(GridView::with_cluster);
    reveal(glyph_in_row);
    lemma_half_flags(CellFlags { bits: CellFlags::WIDE_CONT });
    assert(grid.screen.rows[grid.cursor_row].cells.len() == grid.cols());
    let next = grid.with_cluster(cell, width);
    let cells = grid.row_with_glyph(cell, width == 2, width, false);
    assert(next.screen.rows[grid.cursor_row].cells == cells);
    assert(cells[grid.cursor_col] == cell);
    if width == 2 {
        assert(cells[grid.cursor_col + 1] == continuation_cell(grid.template()));
    }
}

proof fn lemma_replaced_is_previous(
    grid: GridView,
    col: int,
    cell: CellView,
    old_width: int,
    new_width: int,
)
    requires
        grid.valid(),
        0 <= col,
        1 <= new_width <= 2,
        col + new_width <= grid.cols(),
        !cell.continuation(),
    ensures
        ({
            let next = grid.with_glyph_replaced(col, cell, old_width, new_width);
            next.screen.cell(next.cursor_row, next.previous_glyph()) == cell
        }),
{
    reveal(GridView::with_glyph_replaced);
    reveal(glyph_in_row);
    lemma_half_flags(CellFlags { bits: CellFlags::WIDE_CONT });
    let row = grid.screen.rows[grid.cursor_row];
    assert(row.cells.len() == grid.cols());
    let next = grid.with_glyph_replaced(col, cell, old_width, new_width);
    let cells = next.screen.rows[grid.cursor_row].cells;
    assert(cells[col] == cell);
    if new_width == 2 {
        assert(cells[col + 1] == continuation_cell(grid.template()));
    }
}

/// On a screen of whole glyphs a printable ASCII text comes out the same
/// whether it is written in runs or character by character.
pub proof fn law_ascii_runs_match_characters(grid: GridView, text: Seq<char>)
    requires
        sound(grid),
        grid.cursor_placed(),
        0 <= grid.cursor_col,
        printable(text),
    ensures
        grid.ascii_written(text) == grid.text_written(text),
{
    if grid.modes.charset != CharSet::Ascii || grid.modes.insert_mode {
    } else if text.len() > 0 && grid.joins(text[0]) {
        let c = text[0];
        let rest = text.skip(1);
        let next = grid.char_written(c);
        law_writing_keeps_glyphs_whole(grid, c);
        crate::grid::write::lemma_char_written_frame(grid, c);
        lemma_joined_sound(grid, c);
        assert(printable(rest)) by {
            assert forall|i: int| 0 <= i < rest.len() implies ' ' <= #[trigger] rest[i] <= '~' by {
                assert(' ' <= text[i + 1] <= '~');
            }
        }
        if rest.len() > 0 {
            assert(' ' <= text[1] <= '~');
            lemma_joined_is_closed(grid, c, rest[0]);
        }
        lemma_runs_match(next, rest);
        lemma_single_char(grid, c);
        law_text_splits(grid, seq![c], rest);
        assert(seq![c] + rest =~= text);
    } else {
        lemma_runs_match(grid, text);
    }
}

} // verus!
