//! What holds whatever output arrives, in any order.
use crate::graphics::ImagePlacement;
use crate::grid::buffer::RowView;
use crate::grid::cell::{clamp_columns, natural_columns, text_columns, CellFlags, CellView};
use crate::grid::cursor::least;
use crate::grid::edit::{closed_row, erased_row, opened_row};
use crate::grid::retention::{
    budget_for, cell_count, hard_lines, lemma_uniform_cell_count, within_budget, HistoryView,
};
use crate::grid::scroll::law_scroll_frame;
use crate::grid::terminal::{GridView, ImagesView, Modes, Pen, SessionView};
use crate::grid::write::{glyph_in_row, run_in_row, scalar_advance};
use vstd::prelude::*;

verus! {

/// One change of a terminal that keeps its size.
pub ghost enum Operation {
    Print(char),
    PrintAscii(Seq<char>),
    PrintText(Seq<char>),
    /// A scalar of the given width in a cell of its own.
    PrintScalar(char, Option<usize>),
    CancelWrap,
    CarriageReturn,
    Newline,
    Backspace,
    Tab,
    CursorTo(nat, nat),
    CursorUp(nat),
    CursorDown(nat),
    CursorForward(nat),
    CursorBackward(nat),
    PassImage(nat, nat),
    ScrollRegion(nat, nat),
    ScrollUp(nat),
    ScrollDown(nat),
    InsertLines(nat),
    DeleteLines(nat),
    EraseInLine(u16),
    EraseInDisplay(u16),
    EraseChars(nat),
    DeleteChars(nat),
    InsertBlanks(nat),
    ViewportUp(nat),
    ViewportDown(nat),
    ViewportEnd,
    /// The rows that changed were painted.
    Painted,
    /// Other colors and attributes for what comes.
    Style(Pen),
    Mode(Modes),
    /// Other title, marks or events.
    Session(SessionView),
    Images(Seq<ImagePlacement>),
    /// Other images on a hidden primary screen.
    HiddenImages(Seq<ImagePlacement>),
    SaveCursor,
    RestoreCursor,
    EnterAlternate,
    LeaveAlternate,
    Reset,
}

impl Operation {
    /// The operation shows another screen, or changes a hidden one.
    pub open spec fn switches(self) -> bool {
        self is EnterAlternate || self is LeaveAlternate || self is Reset || self is HiddenImages
    }
}

impl GridView {
    /// The terminal after one operation.
    #[verifier::opaque]
    pub open spec fn applied(self, operation: Operation) -> GridView {
        match operation {
            Operation::Print(c) => self.char_written(c),
            Operation::PrintAscii(text) => self.ascii_written(text),
            Operation::PrintText(text) => self.text_written(text),
            Operation::PrintScalar(c, width) => self.scalar_written(c, width),
            Operation::CancelWrap => self.unwrapped(),
            Operation::CarriageReturn => self.at_line_start(),
            Operation::Newline => self.after_newline(),
            Operation::Backspace => self.backspaced(),
            Operation::Tab => self.tabbed(),
            Operation::CursorTo(row, col) => self.with_cursor(row as int, col as int),
            Operation::CursorUp(n) => self.moved_up(n as int),
            Operation::CursorDown(n) => self.moved_down(n as int),
            Operation::CursorForward(n) => self.moved_forward(n as int),
            Operation::CursorBackward(n) => self.moved_backward(n as int),
            Operation::PassImage(cols, rows) => self.image_passed(cols as int, rows as int),
            Operation::ScrollRegion(top, bottom) => self.with_region(top as int, bottom as int),
            Operation::ScrollUp(count) => self.scrolled_up(count as int),
            Operation::ScrollDown(count) => self.scrolled_down(count as int),
            Operation::InsertLines(count) => self.lines_inserted(count as int),
            Operation::DeleteLines(count) => self.lines_deleted(count as int),
            Operation::EraseInLine(mode) => self.line_erased(mode),
            Operation::EraseInDisplay(mode) => self.display_erased(mode),
            Operation::EraseChars(count) => self.chars_erased(count as int),
            Operation::DeleteChars(count) => self.chars_deleted(count as int),
            Operation::InsertBlanks(count) => self.blanks_inserted(count as int),
            Operation::ViewportUp(lines) => self.viewport_up(lines as int),
            Operation::ViewportDown(lines) => self.viewport_down(lines as int),
            Operation::ViewportEnd => self.viewport_home(),
            Operation::Painted => GridView {
                dirty: Seq::new(self.dirty.len(), |i: int| false),
                ..self
            },
            Operation::Style(pen) => GridView { pen, ..self },
            Operation::Mode(modes) => GridView { modes, ..self },
            Operation::Session(session) => GridView { session, ..self },
            Operation::Images(placements) => GridView {
                images: ImagesView { placements, ..self.images },
                ..self
            },
            Operation::HiddenImages(placements) => GridView {
                images: ImagesView {
                    primary_placements: match self.images.primary_placements {
                        Some(_) => Some(placements),
                        None => None,
                    },
                    ..self.images
                },
                ..self
            },
            Operation::SaveCursor => self.with_saved_cursor(),
            Operation::RestoreCursor => self.cursor_restored(),
            Operation::EnterAlternate => if self.using_alt_screen {
                self
            } else {
                self.alternate_entered()
            },
            Operation::LeaveAlternate => if self.using_alt_screen {
                self.alternate_left()
            } else {
                self
            },
            Operation::Reset => self.reset(),
        }
    }

    /// The terminal after operations, one after the other.
    pub open spec fn applied_all(self, operations: Seq<Operation>) -> GridView
        decreases operations.len(),
    {
        if operations.len() == 0 {
            self
        } else {
            self.applied_all(operations.drop_last()).applied(operations.last())
        }
    }

    /// What holds of a terminal between two operations, unless a resize has
    /// moved the saved cursor off the screen.
    pub open spec fn steady(self) -> bool {
        &&& self.valid()
        &&& self.cursor_placed()
        &&& 0 <= self.cursor_col
        &&& 0 <= self.history.line_budget
        &&& 0 <= self.history.cell_budget
        &&& self.saved_cursor.retained_row is None
    }
}

/// What an operation on one screen leaves alone.
pub open spec fn same_screen(before: GridView, after: GridView) -> bool {
    &&& after.cols() == before.cols()
    &&& after.rows() == before.rows()
    &&& after.using_alt_screen == before.using_alt_screen
    &&& after.hidden == before.hidden
    &&& after.images.primary_placements == before.images.primary_placements
    &&& after.history.line_budget == before.history.line_budget
    &&& after.history.cell_budget == before.history.cell_budget
    &&& after.revisions.screen == before.revisions.screen
    &&& (before.history_bounded() ==> after.history_bounded())
}

/// The terminal goes on, and its saved cursor stays where it is.
spec fn goes_on(before: GridView, after: GridView) -> bool {
    &&& after.steady()
    &&& same_screen(before, after)
    &&& after.saved_cursor == before.saved_cursor
}

/// Other cells in rows of the same width, and another place for the cursor.
spec fn redrawn(before: GridView, after: GridView) -> bool {
    &&& after == GridView {
        screen: after.screen,
        cursor_col: after.cursor_col,
        wrap_pending: after.wrap_pending,
        dirty: after.dirty,
        ..before
    }
    &&& after.screen.shaped()
    &&& after.cols() == before.cols()
    &&& after.rows() == before.rows()
    &&& after.dirty.len() == before.dirty.len()
    &&& 0 <= after.cursor_col
    &&& after.cursor_placed()
}

proof fn lemma_redrawn(before: GridView, after: GridView)
    requires
        before.steady(),
        redrawn(before, after),
    ensures
        goes_on(before, after),
{
}

proof fn lemma_row_redrawn(grid: GridView, cells: Seq<CellView>, advance: int)
    requires
        grid.steady(),
        cells.len() == grid.cols(),
        0 <= advance,
    ensures
        goes_on(grid, grid.with_row_written(cells, advance)),
{
    let next = grid.with_row_written(cells, advance);
    assert forall|r: int| 0 <= r < next.screen.rows.len() implies (
    #[trigger] next.screen.rows[r]).cells.len() == grid.cols() by {
        assert(grid.screen.rows[r].cells.len() == grid.cols());
    }
    lemma_redrawn(grid, next);
}

proof fn lemma_glyph_width(
    cells: Seq<CellView>,
    col: int,
    glyph: CellView,
    wide: bool,
    advance: int,
    insert: bool,
    blank: CellView,
)
    requires
        0 <= col < cells.len(),
    ensures
        glyph_in_row(cells, col, glyph, wide, advance, insert, blank).len() == cells.len(),
{
    reveal(glyph_in_row);
}

proof fn lemma_scalar_goes_on(grid: GridView, c: char, width: Option<usize>)
    requires
        grid.steady(),
        grid.cursor_col < grid.cols(),
    ensures
        goes_on(grid, grid.with_scalar(c, width)),
{
    reveal(GridView::with_scalar);
    let wide = width == Some(2usize);
    let advance = scalar_advance(width, grid.cols());
    let glyph = grid.pen.glyph(c, wide);
    let cells = grid.screen.rows[grid.cursor_row].cells;
    assert(cells.len() == grid.cols());
    lemma_glyph_width(
        cells,
        grid.cursor_col,
        glyph,
        wide,
        advance,
        grid.modes.insert_mode,
        grid.template(),
    );
    lemma_row_redrawn(
        grid,
        grid.row_with_glyph(glyph, wide, advance, grid.modes.insert_mode),
        advance,
    );
}

proof fn lemma_scroll_goes_on(grid: GridView, count: int)
    requires
        grid.steady(),
        0 <= count,
    ensures
        goes_on(grid, grid.scrolled_up(count)),
        goes_on(grid, grid.scrolled_down(count)),
{
    law_scroll_frame(grid, count);
    crate::grid::whole::lemma_scrolled_valid(grid, count);
    if grid.history_bounded() {
        crate::grid::bounded::law_scrolling_bounds_history(grid, count);
    }
    reveal(GridView::scrolled_up);
    reveal(GridView::scrolled_down);
    reveal(GridView::with_lines_gone);
    reveal(GridView::with_scrolled_images);
    reveal(GridView::with_revealed_tail);
    let down = grid.scrolled_down(count);
    let distance = grid.scroll_distance(count);
    assert forall|r: int| 0 <= r < down.screen.rows.len() implies (
    #[trigger] down.screen.rows[r]).cells.len() == grid.cols() by {
        assert(grid.screen.rows[r].cells.len() == grid.cols());
        if grid.scroll_top <= r - distance {
            assert(grid.screen.rows[r - distance].cells.len() == grid.cols());
        }
    }
}

proof fn lemma_line_goes_on(grid: GridView)
    requires
        grid.steady(),
    ensures
        goes_on(grid, grid.line_advanced()),
        goes_on(grid, grid.after_newline()),
        goes_on(grid, grid.soft_wrapped()),
        grid.soft_wrapped().cursor_col == 0,
        !grid.soft_wrapped().wrap_pending,
{
    reveal(GridView::line_advanced);
    let ended = grid.with_line_wrapped(false);
    let wrapped = grid.with_line_wrapped(true).at_line_start();
    assert forall|r: int| 0 <= r < ended.screen.rows.len() implies (
    #[trigger] ended.screen.rows[r]).cells.len() == grid.cols() by {
        assert(grid.screen.rows[r].cells.len() == grid.cols());
    }
    assert forall|r: int| 0 <= r < wrapped.screen.rows.len() implies (
    #[trigger] wrapped.screen.rows[r]).cells.len() == grid.cols() by {
        assert(grid.screen.rows[r].cells.len() == grid.cols());
    }
    lemma_scroll_goes_on(grid.unwrapped(), 1);
    lemma_scroll_goes_on(ended.unwrapped(), 1);
    lemma_scroll_goes_on(wrapped.unwrapped(), 1);
    law_scroll_frame(wrapped.unwrapped(), 1);
}

proof fn lemma_scalar_written_goes_on(grid: GridView, c: char, width: Option<usize>)
    requires
        grid.steady(),
    ensures
        goes_on(grid, grid.scalar_written(c, width)),
{
    lemma_line_goes_on(grid);
    let ready = grid.settled();
    lemma_line_goes_on(ready);
    lemma_scalar_goes_on(ready, c, width);
    lemma_scalar_goes_on(ready.soft_wrapped(), c, width);
}

proof fn lemma_cluster_goes_on(grid: GridView, c: char, natural: int)
    requires
        grid.steady(),
        0 < grid.cursor_col,
        1 <= natural <= 2,
    ensures
        goes_on(grid, grid.cluster_extended(c, natural)),
{
    reveal(GridView::with_cluster);
    reveal(GridView::with_glyph_replaced);
    let col = grid.previous_glyph();
    let row = grid.cursor_row;
    let cells = grid.screen.rows[row].cells;
    assert(cells.len() == grid.cols());
    let previous = cells[col];
    let cell = grid.joined_cell(c, natural);
    let old_width: int = if previous.wide() && col + 1 < grid.cols() { 2 } else { 1 };
    let new_width = least(natural, grid.cols());
    let removed = grid.with_glyph_removed(col);
    assert forall|r: int| 0 <= r < removed.screen.rows.len() implies (
    #[trigger] removed.screen.rows[r]).cells.len() == grid.cols() by {
        assert(grid.screen.rows[r].cells.len() == grid.cols());
    }
    if new_width > old_width && col + new_width > grid.cols() && grid.modes.auto_wrap {
        lemma_redrawn(grid, removed);
        lemma_line_goes_on(removed);
        let next = removed.soft_wrapped();
        let fresh = next.screen.rows[next.cursor_row].cells;
        assert(fresh.len() == grid.cols());
        lemma_glyph_width(
            fresh,
            next.cursor_col,
            cell,
            new_width == 2,
            new_width,
            false,
            next.template(),
        );
        lemma_row_redrawn(
            next,
            next.row_with_glyph(cell, new_width == 2, new_width, false),
            new_width,
        );
    } else {
        let fitting = least(new_width, grid.cols() - col);
        let shown = if natural == 2 && fitting == 1 && grid.cols() > 1 {
            CellView { flags: cell.flags.without(CellFlags::WIDE), ..cell }
        } else {
            cell
        };
        lemma_glyph_width(cells, col, shown, fitting == 2, fitting, false, grid.template());
        let next = grid.with_glyph_replaced(col, shown, old_width, fitting);
        assert forall|r: int| 0 <= r < next.screen.rows.len() implies (
        #[trigger] next.screen.rows[r]).cells.len() == grid.cols() by {
            assert(grid.screen.rows[r].cells.len() == grid.cols());
        }
        lemma_redrawn(grid, next);
    }
}

proof fn lemma_char_goes_on(grid: GridView, c: char)
    requires
        grid.steady(),
    ensures
        goes_on(grid, grid.char_written(c)),
{
    reveal(GridView::char_written);
    let scalar = grid.charset_scalar(c);
    if grid.joins(scalar) {
        let text = grid.screen.cell(grid.cursor_row, grid.previous_glyph()).scalars();
        lemma_cluster_goes_on(
            grid,
            scalar,
            clamp_columns(text_columns(text.push(scalar)) as int),
        );
    } else {
        lemma_scalar_written_goes_on(grid, scalar, natural_columns(scalar));
    }
}

proof fn lemma_text_goes_on(grid: GridView, text: Seq<char>)
    requires
        grid.steady(),
    ensures
        goes_on(grid, grid.text_written(text)),
    decreases text.len(),
{
    if text.len() > 0 {
        lemma_text_goes_on(grid, text.drop_last());
        lemma_char_goes_on(grid.text_written(text.drop_last()), text.last());
    }
}

proof fn lemma_runs_go_on(grid: GridView, text: Seq<char>)
    requires
        grid.steady(),
    ensures
        goes_on(grid, grid.runs_written(text)),
    decreases text.len(),
{
    if text.len() > 0 {
        if grid.wraps_next() || grid.cursor_col >= grid.cols() {
            lemma_char_goes_on(grid, text[0]);
            lemma_runs_go_on(grid.char_written(text[0]), text.skip(1));
        } else {
            reveal(GridView::with_run);
            reveal(run_in_row);
            let count = least(text.len() as int, grid.cols() - grid.cursor_col);
            let run = text.take(count);
            assert(grid.screen.rows[grid.cursor_row].cells.len() == grid.cols());
            lemma_row_redrawn(grid, grid.row_with_run(run), count);
            lemma_runs_go_on(grid.with_run(run), text.skip(count));
        }
    }
}

proof fn lemma_newlines_go_on(grid: GridView, count: int)
    requires
        grid.steady(),
    ensures
        goes_on(grid, grid.after_newlines(count)),
    decreases count,
{
    if count > 0 {
        lemma_newlines_go_on(grid, count - 1);
        lemma_line_goes_on(grid.after_newlines(count - 1));
    }
}

proof fn lemma_cursor_row_goes_on(grid: GridView, content: RowView)
    requires
        grid.steady(),
        content.cells.len() == grid.cols(),
    ensures
        goes_on(grid, grid.with_cursor_row(content)),
{
    let next = grid.with_cursor_row(content);
    assert forall|r: int| 0 <= r < next.screen.rows.len() implies (
    #[trigger] next.screen.rows[r]).cells.len() == grid.cols() by {
        assert(grid.screen.rows[r].cells.len() == grid.cols());
    }
    lemma_redrawn(grid, next);
}

proof fn lemma_range_goes_on(grid: GridView, start: int, end: int)
    requires
        grid.steady(),
    ensures
        goes_on(grid, grid.range_erased(start, end)),
{
    let row = grid.screen.rows[grid.cursor_row];
    assert(row.cells.len() == grid.cols());
    reveal(erased_row);
    if start < end {
        lemma_cursor_row_goes_on(grid, erased_row(row, start, end, grid.template()));
    }
}

proof fn lemma_rows_go_on(grid: GridView, from: int, to: int)
    requires
        grid.steady(),
    ensures
        goes_on(grid, grid.rows_erased(from, to)),
{
    let next = grid.rows_erased(from, to);
    assert forall|r: int| 0 <= r < next.screen.rows.len() implies (
    #[trigger] next.screen.rows[r]).cells.len() == grid.cols() by {
        assert(grid.screen.rows[r].cells.len() == grid.cols());
    }
    lemma_redrawn(grid, next);
}

proof fn lemma_erasing_goes_on(grid: GridView, mode: u16)
    requires
        grid.steady(),
    ensures
        goes_on(grid, grid.line_erased(mode)),
        goes_on(grid, grid.display_erased(mode)),
{
    let ready = grid.unwrapped();
    lemma_range_goes_on(ready, ready.cursor_col, ready.cols());
    lemma_range_goes_on(ready, 0, ready.cursor_col + 1);
    lemma_range_goes_on(ready, 0, ready.cols());
    let headless = grid.without_tail().unwrapped();
    lemma_range_goes_on(headless, headless.cursor_col, headless.cols());
    lemma_rows_go_on(grid.without_tail().line_erased(0), grid.cursor_row + 1, grid.rows());
    lemma_rows_go_on(grid.line_erased(1), 0, grid.cursor_row);
    lemma_rows_go_on(headless.with_selection_moved(true), 0, grid.rows());
    assert(hard_lines(Seq::<RowView>::empty()) == 0);
    assert(cell_count(Seq::<RowView>::empty()) == 0);
}

proof fn lemma_chars_go_on(grid: GridView, count: int)
    requires
        grid.steady(),
        0 <= count,
    ensures
        goes_on(grid, grid.chars_erased(count)),
        goes_on(grid, grid.chars_deleted(count)),
        goes_on(grid, grid.blanks_inserted(count)),
{
    let ready = grid.unwrapped();
    let row = ready.screen.rows[ready.cursor_row];
    let col = ready.cursor_col;
    let fitting = least(count, ready.cols() - col);
    assert(row.cells.len() == grid.cols());
    lemma_range_goes_on(ready, col, least(col + count, ready.cols()));
    reveal(closed_row);
    reveal(opened_row);
    lemma_cursor_row_goes_on(ready, closed_row(row, col, fitting, ready.template()));
    lemma_cursor_row_goes_on(ready, opened_row(row, col, fitting, ready.template()));
}

/// Moving the cursor changes nothing else.
proof fn lemma_moves_go_on(grid: GridView, operation: Operation)
    requires
        grid.steady(),
        match operation {
            Operation::CarriageReturn | Operation::Backspace | Operation::Tab => true,
            Operation::CancelWrap => true,
            Operation::CursorTo(..) | Operation::CursorUp(_) | Operation::CursorDown(_) => true,
            Operation::CursorForward(_) | Operation::CursorBackward(_) => true,
            Operation::ScrollRegion(..) => true,
            _ => false,
        },
    ensures
        goes_on(grid, grid.applied(operation)),
{
    reveal(GridView::applied);
    let next = grid.applied(operation);
    assert(next == GridView {
        cursor_row: next.cursor_row,
        cursor_col: next.cursor_col,
        wrap_pending: next.wrap_pending,
        scroll_top: next.scroll_top,
        scroll_bottom: next.scroll_bottom,
        ..grid
    });
}

proof fn lemma_settings_go_on(grid: GridView, operation: Operation)
    requires
        grid.steady(),
        match operation {
            Operation::Style(_) | Operation::Mode(_) | Operation::Session(_) => true,
            Operation::Images(_) | Operation::ViewportUp(_) | Operation::ViewportDown(_) => true,
            Operation::RestoreCursor | Operation::ViewportEnd | Operation::Painted => true,
            _ => false,
        },
    ensures
        goes_on(grid, grid.applied(operation)),
{
    reveal(GridView::applied);
}

proof fn lemma_inner_lines_go_on(grid: GridView, count: int)
    requires
        grid.steady(),
        0 <= count,
    ensures
        goes_on(grid, grid.lines_inserted(count)),
        goes_on(grid, grid.lines_deleted(count)),
{
    let ready = grid.unwrapped();
    if ready.cursor_in_region() {
        let inner = ready.with_scroll_top(ready.cursor_row);
        lemma_scroll_goes_on(inner, count);
        law_scroll_frame(inner, count);
    }
}

proof fn lemma_ascii_goes_on(grid: GridView, text: Seq<char>)
    requires
        grid.steady(),
    ensures
        goes_on(grid, grid.ascii_written(text)),
{
    lemma_text_goes_on(grid, text);
    lemma_runs_go_on(grid, text);
    if text.len() > 0 {
        lemma_char_goes_on(grid, text[0]);
        lemma_runs_go_on(grid.char_written(text[0]), text.skip(1));
    }
}

proof fn lemma_image_goes_on(grid: GridView, cols: int, rows: int)
    requires
        grid.steady(),
        0 <= cols,
    ensures
        goes_on(grid, grid.image_passed(cols, rows)),
{
    lemma_newlines_go_on(grid.moved_forward(cols), rows);
}

/// An operation that does not switch screens keeps what the terminal has
/// beside the shown screen. Only saving the cursor changes the saved cursor.
pub proof fn law_operations_keep_the_other_screen(grid: GridView, operation: Operation)
    requires
        grid.steady(),
        !operation.switches(),
    ensures
        grid.applied(operation).steady(),
        same_screen(grid, grid.applied(operation)),
        !(operation is SaveCursor) ==> grid.applied(operation).saved_cursor == grid.saved_cursor,
{
    reveal(GridView::applied);
    match operation {
        Operation::Print(c) => lemma_char_goes_on(grid, c),
        Operation::PrintAscii(text) => lemma_ascii_goes_on(grid, text),
        Operation::PrintText(text) => lemma_text_goes_on(grid, text),
        Operation::PrintScalar(c, width) => lemma_scalar_written_goes_on(grid, c, width),
        Operation::Newline => lemma_line_goes_on(grid),
        Operation::PassImage(cols, rows) => lemma_image_goes_on(grid, cols as int, rows as int),
        Operation::ScrollUp(count) | Operation::ScrollDown(count) => lemma_scroll_goes_on(
            grid,
            count as int,
        ),
        Operation::InsertLines(count) | Operation::DeleteLines(count) => lemma_inner_lines_go_on(
            grid,
            count as int,
        ),
        Operation::EraseInLine(mode) | Operation::EraseInDisplay(mode) => lemma_erasing_goes_on(
            grid,
            mode,
        ),
        Operation::EraseChars(count) => lemma_chars_go_on(grid, count as int),
        Operation::DeleteChars(count) => lemma_chars_go_on(grid, count as int),
        Operation::InsertBlanks(count) => lemma_chars_go_on(grid, count as int),
        Operation::Style(_)
        | Operation::Mode(_)
        | Operation::Session(_)
        | Operation::Images(_)
        | Operation::ViewportUp(_)
        | Operation::ViewportDown(_)
        | Operation::ViewportEnd
        | Operation::Painted
        | Operation::RestoreCursor => lemma_settings_go_on(grid, operation),
        Operation::SaveCursor => {},
        _ => lemma_moves_go_on(grid, operation),
    }
}

/// No operation of a sequence switches screens.
pub open spec fn on_one_screen(operations: Seq<Operation>) -> bool {
    forall|i: int| 0 <= i < operations.len() ==> !(#[trigger] operations[i]).switches()
}

proof fn lemma_sequence_keeps(grid: GridView, operations: Seq<Operation>)
    requires
        grid.steady(),
        on_one_screen(operations),
    ensures
        grid.applied_all(operations).steady(),
        same_screen(grid, grid.applied_all(operations)),
        (forall|i: int|
            0 <= i < operations.len() ==> !((#[trigger] operations[i]) is SaveCursor))
            ==> grid.applied_all(operations).saved_cursor == grid.saved_cursor,
    decreases operations.len(),
{
    if operations.len() > 0 {
        let before = operations.drop_last();
        assert forall|i: int| 0 <= i < before.len() implies !(#[trigger] before[i]).switches() by {
            assert(before[i] == operations[i]);
        }
        lemma_sequence_keeps(grid, before);
        assert(operations[operations.len() - 1] == operations.last());
        law_operations_keep_the_other_screen(grid.applied_all(before), operations.last());
        if forall|i: int|
            0 <= i < operations.len() ==> !((#[trigger] operations[i]) is SaveCursor) {
            assert forall|i: int| 0 <= i < before.len() implies !((
            #[trigger] before[i]) is SaveCursor) by {
                assert(before[i] == operations[i]);
            }
        }
    }
}

/// A saved cursor comes back after whatever was printed, moved or erased since,
/// with its pending wrap, limited to the last column. Restoring it changes no
/// cell, and doing so again changes nothing.
pub proof fn law_saved_cursor_returns(grid: GridView, operations: Seq<Operation>)
    requires
        grid.valid(),
        grid.cursor_placed(),
        0 <= grid.cursor_col,
        0 <= grid.history.line_budget,
        0 <= grid.history.cell_budget,
        on_one_screen(operations),
        forall|i: int| 0 <= i < operations.len() ==> !((#[trigger] operations[i]) is SaveCursor),
    ensures
        ({
            let after = grid.with_saved_cursor().applied_all(operations);
            let back = after.cursor_restored();
            &&& back.cursor_row == grid.cursor_row
            &&& back.cursor_col == grid.clamped_col()
            &&& back.wraps_next() == grid.wraps_next()
            &&& back == GridView {
                cursor_row: back.cursor_row,
                cursor_col: back.cursor_col,
                wrap_pending: back.wrap_pending,
                ..after
            }
            &&& back.cursor_restored() == back
        }),
{
    lemma_sequence_keeps(grid.with_saved_cursor(), operations);
}

proof fn lemma_switched(grid: GridView)
    ensures
        grid.applied(Operation::EnterAlternate) == if grid.using_alt_screen {
            grid
        } else {
            grid.alternate_entered()
        },
        grid.applied(Operation::LeaveAlternate) == if grid.using_alt_screen {
            grid.alternate_left()
        } else {
            grid
        },
        grid.applied(Operation::Reset) == grid.reset(),
{
    reveal(GridView::applied);
}

proof fn lemma_entered_steady(grid: GridView)
    requires
        grid.valid(),
        0 <= grid.history.line_budget,
    ensures
        grid.alternate_entered().steady(),
{
    assert(0 <= grid.history.line_budget * grid.cols()) by (nonlinear_arith)
        requires
            0 <= grid.history.line_budget,
            0 < grid.cols(),
    ;
}

proof fn lemma_left(grid: GridView, shown: GridView)
    requires
        grid.valid(),
        0 <= grid.cursor_col,
        same_screen(grid.alternate_entered(), shown),
    ensures
        ({
            let back = shown.alternate_left();
            &&& !back.using_alt_screen
            &&& back.screen == grid.screen
            &&& back.cursor_row == grid.cursor_row
            &&& back.cursor_col == least(grid.cursor_col, grid.cols() - 1)
            &&& back.wraps_next() == grid.wraps_next()
            &&& back.saved_cursor == grid.saved_cursor
            &&& back.history == grid.history
            &&& back.total_lines == grid.total_lines
            &&& back.images.placements == grid.images.placements
            &&& back.scroll_top == 0
            &&& back.scroll_bottom == grid.rows() - 1
            &&& back.revisions.screen != grid.revisions.screen
        }),
{
}

/// Whatever happens on the alternate screen, leaving it brings back the text,
/// the cursors, the history and the images of the primary screen, with the
/// cursor limited to the last column and the whole screen as scroll region.
/// The change of screens can be told from the counter.
pub proof fn law_alternate_round_trip(grid: GridView, operations: Seq<Operation>)
    requires
        grid.valid(),
        !grid.using_alt_screen,
        0 <= grid.cursor_col,
        0 <= grid.history.line_budget,
        on_one_screen(operations),
    ensures
        ({
            let shown = grid.applied(Operation::EnterAlternate).applied_all(operations);
            let back = shown.applied(Operation::LeaveAlternate);
            &&& shown.using_alt_screen
            &&& !back.using_alt_screen
            &&& back.screen == grid.screen
            &&& back.cursor_row == grid.cursor_row
            &&& back.cursor_col == least(grid.cursor_col, grid.cols() - 1)
            &&& back.wraps_next() == grid.wraps_next()
            &&& back.saved_cursor == grid.saved_cursor
            &&& back.history == grid.history
            &&& back.total_lines == grid.total_lines
            &&& back.images.placements == grid.images.placements
            &&& back.scroll_top == 0
            &&& back.scroll_bottom == grid.rows() - 1
            &&& back.revisions.screen != grid.revisions.screen
            &&& back.applied(Operation::LeaveAlternate) == back
        }),
{
    let entered = grid.alternate_entered();
    lemma_switched(grid);
    lemma_entered_steady(grid);
    lemma_sequence_keeps(entered, operations);
    let shown = entered.applied_all(operations);
    lemma_switched(shown);
    lemma_left(grid, shown);
    lemma_switched(shown.alternate_left());
}

/// The history of a terminal that was never resized.
pub open spec fn history_of_size(history: HistoryView, cols: int, lines: int) -> bool {
    &&& history.of_width(cols)
    &&& history.line_budget == lines
    &&& history.cell_budget == budget_for(lines, cols)
    &&& within_budget(history.rows, history.line_budget, history.cell_budget)
}

/// What holds of a terminal of a size that never changed.
pub open spec fn never_resized(grid: GridView, cols: int, rows: int, lines: int) -> bool {
    &&& grid.steady()
    &&& grid.cols() == cols
    &&& grid.rows() == rows
    &&& history_of_size(grid.history, cols, lines)
    &&& (grid.using_alt_screen ==> match (
        grid.hidden.screen,
        grid.hidden.saved_cursor,
        grid.hidden.history,
    ) {
        (Some(screen), Some(cursor), Some((history, _))) => {
            &&& screen.shaped()
            &&& screen.cols == cols
            &&& screen.rows.len() == rows
            &&& cursor.retained_row is None
            &&& history_of_size(history, cols, lines)
        },
        _ => false,
    })
}

proof fn lemma_fresh_history(cols: int, lines: int)
    requires
        0 < cols,
        0 <= lines,
    ensures
        0 <= budget_for(lines, cols),
        history_of_size(HistoryView::empty(lines, cols), cols, lines),
{
    assert(0 <= lines * cols) by (nonlinear_arith)
        requires
            0 < cols,
            0 <= lines,
    ;
    assert(hard_lines(Seq::<RowView>::empty()) == 0);
    assert(cell_count(Seq::<RowView>::empty()) == 0);
}

proof fn lemma_step_never_resized(
    grid: GridView,
    operation: Operation,
    cols: int,
    rows: int,
    lines: int,
)
    requires
        never_resized(grid, cols, rows, lines),
    ensures
        never_resized(grid.applied(operation), cols, rows, lines),
{
    lemma_fresh_history(cols, lines);
    lemma_switched(grid);
    if operation is HiddenImages {
        reveal(GridView::applied);
    } else if !operation.switches() {
        law_operations_keep_the_other_screen(grid, operation);
    }
}

/// However much is printed, scrolled, erased or switched, a terminal whose size
/// does not change never keeps more rows above the screen than it was made to.
pub proof fn law_history_keeps_to_its_rows(
    cols: int,
    rows: int,
    lines: int,
    operations: Seq<Operation>,
)
    requires
        0 < cols <= usize::MAX,
        0 < rows <= usize::MAX,
        0 <= lines,
    ensures
        ({
            let grid = GridView::initial(cols, rows, lines).applied_all(operations);
            &&& grid.history.line_budget == lines
            &&& grid.history.rows.len() <= lines
            &&& never_resized(grid, cols, rows, lines)
        }),
    decreases operations.len(),
{
    let grid = GridView::initial(cols, rows, lines).applied_all(operations);
    if operations.len() == 0 {
        lemma_fresh_history(cols, lines);
    } else {
        law_history_keeps_to_its_rows(cols, rows, lines, operations.drop_last());
        lemma_step_never_resized(
            GridView::initial(cols, rows, lines).applied_all(operations.drop_last()),
            operations.last(),
            cols,
            rows,
            lines,
        );
    }
    lemma_rows_fit(grid.history, cols, lines);
}

proof fn lemma_rows_fit(history: HistoryView, cols: int, lines: int)
    requires
        0 < cols,
        history_of_size(history, cols, lines),
    ensures
        history.rows.len() <= lines,
{
    lemma_uniform_cell_count(history.rows, cols);
    let count = history.rows.len();
    assert(count <= lines) by (nonlinear_arith)
        requires
            count * cols <= lines * cols,
            0 < cols,
    ;
}

impl GridView {
    /// What holds of a terminal whose size never changed, of the history in
    /// particular: it keeps no more rows than it was made to.
    pub open spec fn unresized(self) -> bool {
        &&& never_resized(self, self.cols(), self.rows(), self.history.line_budget)
        &&& self.history.rows.len() <= self.history.line_budget
    }
}

/// Whatever is done to a terminal whose size never changed, its history keeps no
/// more rows than it was made to.
pub proof fn law_operations_keep_history_rows(grid: GridView, operation: Operation)
    requires
        grid.unresized(),
    ensures
        grid.applied(operation).unresized(),
        grid.applied(operation).history.line_budget == grid.history.line_budget,
{
    let cols = grid.cols();
    let lines = grid.history.line_budget;
    lemma_step_never_resized(grid, operation, cols, grid.rows(), lines);
    lemma_rows_fit(grid.applied(operation).history, cols, lines);
}

pub proof fn lemma_fresh_is_unresized(cols: int, rows: int, lines: int)
    requires
        0 < cols <= usize::MAX,
        0 < rows <= usize::MAX,
        0 <= lines,
    ensures
        GridView::initial(cols, rows, lines).unresized(),
{
    let none = Seq::<Operation>::empty();
    law_history_keeps_to_its_rows(cols, rows, lines, none);
    assert(GridView::initial(cols, rows, lines).applied_all(none) == GridView::initial(
        cols,
        rows,
        lines,
    ));
}

pub proof fn lemma_lines_keep_history_rows(grid: GridView, count: nat)
    requires
        grid.unresized(),
    ensures
        grid.scrolled_up(count as int).unresized(),
        grid.lines_deleted(count as int).unresized(),
        grid.after_newline().unresized(),
{
    reveal(GridView::applied);
    law_operations_keep_history_rows(grid, Operation::ScrollUp(count));
    law_operations_keep_history_rows(grid, Operation::DeleteLines(count));
    law_operations_keep_history_rows(grid, Operation::Newline);
}

pub proof fn lemma_prints_keep_history_rows(grid: GridView, c: char, text: Seq<char>)
    requires
        grid.unresized(),
    ensures
        grid.char_written(c).unresized(),
        grid.ascii_written(text).unresized(),
        grid.text_written(text).unresized(),
{
    reveal(GridView::applied);
    law_operations_keep_history_rows(grid, Operation::Print(c));
    law_operations_keep_history_rows(grid, Operation::PrintAscii(text));
    law_operations_keep_history_rows(grid, Operation::PrintText(text));
}

/// On the alternate screen, and where only a part of the screen scrolls, no row
/// enters the history and no line is counted.
pub proof fn law_partial_scrolls_leave_history(grid: GridView, count: int)
    requires
        grid.using_alt_screen || !grid.full_region(),
    ensures
        grid.scrolled_up(count).history.rows == grid.history.rows,
        grid.scrolled_up(count).total_lines == grid.total_lines,
{
    reveal(GridView::scrolled_up);
    reveal(GridView::with_lines_gone);
    reveal(GridView::with_scrolled_images);
    reveal(GridView::with_revealed_tail);
}

/// Deleting as many lines as were just inserted brings the rows back that
/// stayed on the screen; in place of the others the scroll region ends in blank
/// rows. Rows outside it, the cursor's row and the history do not change.
pub proof fn law_deleting_undoes_inserting(grid: GridView, count: int)
    requires
        grid.valid(),
        grid.cursor_in_region(),
        !(grid.cursor_row == 0 && grid.scroll_bottom == grid.rows() - 1),
        0 <= count <= grid.scroll_bottom - grid.cursor_row + 1,
    ensures
        ({
            let back = grid.lines_inserted(count).lines_deleted(count);
            let last = grid.scroll_bottom;
            &&& back.screen.rows.len() == grid.screen.rows.len()
            &&& forall|r: int|
                0 <= r < grid.rows() && !(last - count < r <= last)
                    ==> #[trigger] back.screen.rows[r] == grid.screen.rows[r]
            &&& forall|r: int|
                last - count < r <= last ==> #[trigger] back.screen.rows[r] == RowView::filled(
                    grid.cols(),
                    grid.template(),
                )
            &&& back.cursor_row == grid.cursor_row
            &&& back.cursor_col == grid.clamped_col()
            &&& back.scroll_top == grid.scroll_top
            &&& back.scroll_bottom == grid.scroll_bottom
            &&& back.history == grid.history
            &&& back.total_lines == grid.total_lines
        }),
{
    reveal(GridView::scrolled_up);
    reveal(GridView::scrolled_down);
    reveal(GridView::with_lines_gone);
    reveal(GridView::with_scrolled_images);
    reveal(GridView::with_revealed_tail);
    let inner = grid.unwrapped().with_scroll_top(grid.cursor_row);
    law_scroll_frame(inner, count);
    let opened = inner.scrolled_down(count);
    law_scroll_frame(opened, count);
}

} // verus!
