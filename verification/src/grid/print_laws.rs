//! Where printed text goes and how it looks.
use crate::grid::buffer::lemma_row_change_shaped;
use crate::grid::cell::{clamp_columns, natural_columns, text_columns, CellFlags, CellView};
use crate::grid::cursor_laws::law_soft_wraps;
use crate::grid::terminal::{CharSet, GridView, Pen};
use crate::grid::whole::lemma_scrolled_valid;
use crate::grid::wide::lemma_half_flags;
use crate::grid::write::{glyph_in_row, lemma_soft_wrap_frame};
use vstd::prelude::*;

verus! {

/// No cell is half of a two-column glyph.
pub open spec fn without_halves(cells: Seq<CellView>) -> bool {
    forall|i: int|
        0 <= i < cells.len() ==> !(#[trigger] cells[i]).flags.has(CellFlags::WIDE)
            && !cells[i].flags.has(CellFlags::WIDE_CONT)
}

/// A cell shows one scalar in the colors and with the attributes of a pen.
pub open spec fn drawn_with(cell: CellView, pen: Pen, c: char, wide: bool) -> bool {
    &&& cell.c == c
    &&& cell.text is None
    &&& cell.fg == pen.fg
    &&& cell.bg == pen.bg
    &&& cell.underline_style == pen.underline_style
    &&& cell.underline_color == pen.underline_color
    &&& cell.flags.has(CellFlags::BOLD) == pen.flags.has(CellFlags::BOLD)
    &&& cell.flags.has(CellFlags::FAINT) == pen.flags.has(CellFlags::FAINT)
    &&& cell.flags.has(CellFlags::ITALIC) == pen.flags.has(CellFlags::ITALIC)
    &&& cell.flags.has(CellFlags::UNDERLINE) == pen.flags.has(CellFlags::UNDERLINE)
    &&& cell.flags.has(CellFlags::REVERSE) == pen.flags.has(CellFlags::REVERSE)
    &&& cell.flags.has(CellFlags::HIDDEN) == pen.flags.has(CellFlags::HIDDEN)
    &&& cell.flags.has(CellFlags::WIDE) == wide
    &&& !cell.flags.has(CellFlags::WIDE_CONT)
}

/// A cell is the right half of a glyph that a pen has drawn.
pub open spec fn right_half_of(cell: CellView, pen: Pen) -> bool {
    &&& cell.c == '\0'
    &&& cell.text is None
    &&& cell.fg == pen.fg
    &&& cell.bg == pen.bg
    &&& cell.flags.has(CellFlags::WIDE_CONT)
    &&& !cell.flags.has(CellFlags::WIDE)
}

proof fn lemma_pen_flags(pen: Pen, c: char, wide: bool)
    ensures
        drawn_with(pen.glyph(c, wide), pen, c, wide),
{
    let bits = pen.flags.bits;
    assert(forall|mask: u8|
        #![trigger (bits & mask)]
        mask & 0x30 == 0 ==> ((bits | 0x10) & !0x20u8) & mask == bits & mask && ((bits & !0x10u8)
            & !0x20u8) & mask == bits & mask) by (bit_vector);
    assert(1u8 & 0x30 == 0 && 2u8 & 0x30 == 0 && 4u8 & 0x30 == 0 && 8u8 & 0x30 == 0 && 64u8 & 0x30
        == 0 && 128u8 & 0x30 == 0) by (bit_vector);
    assert(((bits | 0x10) & !0x20u8) & 0x10 == 0x10 && ((bits | 0x10) & !0x20u8) & 0x20 != 0x20 && (
    (bits & !0x10u8) & !0x20u8) & 0x10 != 0x10 && ((bits & !0x10u8) & !0x20u8) & 0x20 != 0x20)
        by (bit_vector);
}

/// What a glyph of `a` columns at the cursor changes: its own cells, and in a
/// row without two-column glyphs no other, unless the rest of the row makes room
/// for it.
pub open spec fn glyph_written(
    before: GridView,
    after: GridView,
    col: int,
    c: char,
    wide: bool,
    a: int,
) -> bool {
    let row = before.cursor_row;
    let old_row = before.screen.rows[row];
    let new_row = after.screen.rows[row];
    &&& after.cursor_row == row
    &&& after.cursor_col == col + a
    &&& after.wrap_pending == (col + a >= before.screen.cols)
    &&& drawn_with(new_row.cells[col], before.pen, c, wide)
    &&& a == 2 ==> right_half_of(new_row.cells[col + 1], before.pen)
    &&& new_row.cells.len() == old_row.cells.len()
    &&& new_row.metadata.wrapped == old_row.metadata.wrapped
    &&& new_row.metadata.len >= col + a
    &&& new_row.metadata.len >= old_row.metadata.len
    &&& new_row.metadata.len == col + a || new_row.metadata.len == old_row.metadata.len
    &&& without_halves(old_row.cells) ==> {
        &&& forall|i: int| 0 <= i < col ==> #[trigger] new_row.cells[i] == old_row.cells[i]
        &&& !before.modes.insert_mode ==> forall|i: int|
            col + a <= i < before.screen.cols ==> #[trigger] new_row.cells[i] == old_row.cells[i]
        &&& before.modes.insert_mode ==> forall|i: int|
            col + a <= i < before.screen.cols ==> #[trigger] new_row.cells[i] == old_row.cells[i
                - a]
    }
    &&& after.screen.rows.len() == before.screen.rows.len()
    &&& after.screen.cols == before.screen.cols
    &&& forall|r: int|
        0 <= r < before.screen.rows.len() && r != row ==> #[trigger] after.screen.rows[r]
            == before.screen.rows[r]
    &&& after.dirty.len() == before.dirty.len()
    &&& after.dirty[row]
    &&& forall|r: int|
        0 <= r < before.dirty.len() && r != row ==> #[trigger] after.dirty[r] == before.dirty[r]
    &&& after == GridView {
        screen: after.screen,
        cursor_col: after.cursor_col,
        wrap_pending: after.wrap_pending,
        dirty: after.dirty,
        ..before
    }
}

proof fn lemma_glyph_at_cursor(grid: GridView, c: char, width: Option<usize>, a: int)
    requires
        grid.valid(),
        0 <= grid.cursor_col,
        width is Some ==> width->0 <= 2,
        a == if width == Some(2usize) && grid.screen.cols > 1 { 2int } else { 1 },
        grid.cursor_col + a <= grid.screen.cols,
    ensures
        glyph_written(
            grid,
            grid.with_scalar(c, width),
            grid.cursor_col,
            c,
            width == Some(2usize),
            a,
        ),
{
    reveal(GridView::with_scalar);
    reveal(glyph_in_row);
    let wide = width == Some(2usize);
    lemma_pen_flags(grid.pen, c, wide);
    lemma_half_flags(CellFlags { bits: 0 });
    let cells = grid.screen.rows[grid.cursor_row].cells;
    assert(cells.len() == grid.screen.cols);
    let next = grid.with_scalar(c, width);
    let row = next.screen.rows[grid.cursor_row];
    let col = grid.cursor_col;
    assert(0x20u8 & 0x20 == 0x20 && 0x20u8 & 0x10 != 0x10) by (bit_vector);
    if without_halves(cells) {
        assert forall|i: int| 0 <= i < col implies #[trigger] row.cells[i] == cells[i] by {
            assert(!cells[i].flags.has(CellFlags::WIDE));
            if i + 1 < cells.len() {
                assert(!cells[i + 1].flags.has(CellFlags::WIDE_CONT));
            }
        }
        if grid.modes.insert_mode {
            assert forall|i: int| col + a <= i < grid.screen.cols implies #[trigger] row.cells[i]
                == cells[i - a] by {
                assert(!cells[i - a].flags.has(CellFlags::WIDE));
                assert(!cells[i - a].flags.has(CellFlags::WIDE_CONT));
            }
        } else {
            assert forall|i: int| col + a <= i < grid.screen.cols implies #[trigger] row.cells[i]
                == cells[i] by {
                assert(!cells[i - 1].flags.has(CellFlags::WIDE));
            }
        }
    }
}

proof fn lemma_wrapped_valid(grid: GridView)
    requires
        grid.valid(),
        0 <= grid.cursor_col,
        grid.history.line_budget >= 0,
        grid.history.cell_budget >= 0,
    ensures
        grid.soft_wrapped().valid(),
{
    lemma_soft_wrap_frame(grid);
    reveal(GridView::line_advanced);
    let row = grid.cursor_row;
    let marked = grid.with_line_wrapped(true).at_line_start();
    lemma_row_change_shaped(
        grid.screen,
        row,
        grid.screen.rows[row].cells,
        marked.screen.rows[row].metadata,
    );
    lemma_scrolled_valid(marked.unwrapped(), 1);
}

/// A scalar that does not join the glyph before it is drawn in the colors and
/// attributes of the pen: at the cursor, or in the next row where it does not
/// fit or a wrap is pending. Where lines do not wrap, it takes the last column,
/// and a two-column glyph that does not fit is not drawn.
pub proof fn law_scalars_are_drawn_with_the_pen(grid: GridView, c: char, width: Option<usize>)
    requires
        grid.valid(),
        0 <= grid.cursor_col,
        grid.cursor_placed(),
        grid.history.line_budget >= 0,
        grid.history.cell_budget >= 0,
        width is Some ==> width->0 <= 2,
    ensures
        ({
            let next = grid.scalar_written(c, width);
            let wide = width == Some(2usize);
            let cols = grid.screen.cols;
            let a: int = if wide && cols > 1 { 2 } else { 1 };
            let pending = grid.wrap_pending || grid.cursor_col >= cols;
            let col = if grid.cursor_col < cols { grid.cursor_col } else { cols - 1 };
            let placed = GridView { cursor_col: col, wrap_pending: false, ..grid };
            &&& !pending && col + a <= cols ==> glyph_written(grid, next, col, c, wide, a)
            &&& grid.modes.auto_wrap && (pending || col + a > cols) ==> glyph_written(
                grid.soft_wrapped(),
                next,
                0,
                c,
                wide,
                a,
            )
            &&& !grid.modes.auto_wrap && pending && col + a <= cols ==> glyph_written(
                placed,
                next,
                col,
                c,
                wide,
                a,
            )
            &&& !grid.modes.auto_wrap && col + a > cols ==> next == placed
        }),
{
    let cols = grid.screen.cols;
    let a: int = if width == Some(2usize) && cols > 1 { 2 } else { 1 };
    law_soft_wraps(grid);
    lemma_soft_wrap_frame(grid);
    lemma_wrapped_valid(grid);
    let wrapped = grid.soft_wrapped();
    lemma_glyph_at_cursor(wrapped, c, width, a);
    let col = if grid.cursor_col < cols { grid.cursor_col } else { cols - 1 };
    let placed = GridView { cursor_col: col, wrap_pending: false, ..grid };
    assert(placed == grid.unwrapped());
    if col + a <= cols {
        lemma_glyph_at_cursor(placed, c, width, a);
        if grid.cursor_col < cols {
            lemma_glyph_at_cursor(grid, c, width, a);
        }
    }
}

/// A printed character is the scalar that the character set gives, with the
/// width that the tables give it; it is drawn as any scalar unless it joins the
/// glyph before it.
pub proof fn law_printed_characters(grid: GridView, c: char)
    ensures
        grid.modes.charset == CharSet::Ascii && !grid.joins(c) ==> grid.char_written(c)
            == grid.scalar_written(c, natural_columns(c)),
        grid.modes.charset == CharSet::DecSpecial && !grid.joins(
            crate::grid::terminal::dec_special(c),
        ) ==> grid.char_written(c) == grid.scalar_written(
            crate::grid::terminal::dec_special(c),
            natural_columns(crate::grid::terminal::dec_special(c)),
        ),
{
    reveal(GridView::char_written);
}

/// At the start of a row nothing can be joined, and ASCII never joins ASCII.
pub proof fn law_what_never_joins(grid: GridView, c: char)
    requires
        grid.valid(),
        0 <= grid.cursor_col,
    ensures
        grid.cursor_col == 0 ==> !grid.joins(c),
        ({
            let cells = grid.screen.rows[grid.cursor_row].cells;
            let before = cells[grid.cursor_col - 1];
            &&& 0 < grid.cursor_col < grid.screen.cols && !grid.wrap_pending && !before.flags.has(
                CellFlags::WIDE_CONT,
            ) && before.text is None && before.c as u32 <= 0x7f && c as u32 <= 0x7f
                ==> !grid.joins(c)
        }),
{
}

/// A printable ASCII character after a narrow ASCII character, or at the start
/// of a row, appears at the cursor in the colors and attributes of the pen and
/// moves the cursor one column on.
pub proof fn law_ascii_is_drawn_with_the_pen(grid: GridView, c: char)
    requires
        grid.valid(),
        0 <= grid.cursor_col < grid.screen.cols,
        !grid.wrap_pending,
        grid.history.line_budget >= 0,
        grid.history.cell_budget >= 0,
        grid.modes.charset == CharSet::Ascii,
        0x20 <= c as u32 <= 0x7e,
        grid.cursor_col > 0 ==> {
            let before = grid.screen.rows[grid.cursor_row].cells[grid.cursor_col - 1];
            &&& !before.flags.has(CellFlags::WIDE_CONT)
            &&& before.text is None
            &&& before.c as u32 <= 0x7f
        },
    ensures
        glyph_written(grid, grid.char_written(c), grid.cursor_col, c, false, 1),
{
    law_what_never_joins(grid, c);
    law_printed_characters(grid, c);
    law_scalars_are_drawn_with_the_pen(grid, c, Some(1usize));
    assert(natural_columns(c) == Some(1usize));
}

/// A cell shows the glyph of another one with a scalar more, in the same colors
/// and with the same attributes.
pub open spec fn joined_to(before: CellView, after: CellView, c: char) -> bool {
    &&& after.text == Some(before.scalars().push(c))
    &&& after.c == before.c
    &&& after.fg == before.fg
    &&& after.bg == before.bg
    &&& after.underline_style == before.underline_style
    &&& after.underline_color == before.underline_color
    &&& same_attributes(after.flags, before.flags)
}

/// Two sets of attributes agree but for the halves of two-column glyphs.
pub open spec fn same_attributes(one: CellFlags, other: CellFlags) -> bool {
    &&& one.has(CellFlags::BOLD) == other.has(CellFlags::BOLD)
    &&& one.has(CellFlags::FAINT) == other.has(CellFlags::FAINT)
    &&& one.has(CellFlags::ITALIC) == other.has(CellFlags::ITALIC)
    &&& one.has(CellFlags::UNDERLINE) == other.has(CellFlags::UNDERLINE)
    &&& one.has(CellFlags::REVERSE) == other.has(CellFlags::REVERSE)
    &&& one.has(CellFlags::HIDDEN) == other.has(CellFlags::HIDDEN)
}

proof fn lemma_joined_flags(flags: CellFlags)
    ensures
        ({
            let plain = flags.without(CellFlags::WIDE | CellFlags::WIDE_CONT);
            let led = plain.with(CellFlags::WIDE);
            let cut = led.without(CellFlags::WIDE);
            &&& same_attributes(plain, flags)
            &&& same_attributes(led, flags)
            &&& same_attributes(cut, flags)
            &&& !plain.has(CellFlags::WIDE)
            &&& led.has(CellFlags::WIDE)
            &&& !cut.has(CellFlags::WIDE)
        }),
{
    let bits = flags.bits;
    assert(forall|mask: u8|
        #![trigger (bits & mask)]
        mask & 0x30 == 0 ==> (bits & !(0x10u8 | 0x20u8)) & mask == bits & mask && ((bits & !(0x10u8
            | 0x20u8)) | 0x10u8) & mask == bits & mask && (((bits & !(0x10u8 | 0x20u8)) | 0x10u8)
            & !0x10u8) & mask == bits & mask) by (bit_vector);
    assert(1u8 & 0x30 == 0 && 2u8 & 0x30 == 0 && 4u8 & 0x30 == 0 && 8u8 & 0x30 == 0 && 64u8 & 0x30
        == 0 && 128u8 & 0x30 == 0) by (bit_vector);
    assert((bits & !(0x10u8 | 0x20u8)) & 0x10 != 0x10 && ((bits & !(0x10u8 | 0x20u8)) | 0x10u8)
        & 0x10 == 0x10 && (((bits & !(0x10u8 | 0x20u8)) | 0x10u8) & !0x10u8) & 0x10 != 0x10)
        by (bit_vector);
}

/// A scalar that joins the glyph before the cursor stays in its cell: the glyph
/// gains the scalar and keeps its colors and attributes, and the cursor stands
/// behind its new width. Other rows do not change. A glyph that becomes too wide
/// for the last column moves to the next row where lines wrap.
pub proof fn law_joined_scalars(grid: GridView, c: char, col: int)
    requires
        grid.valid(),
        0 < grid.cursor_col,
        grid.cursor_placed(),
        grid.history.line_budget >= 0,
        grid.history.cell_budget >= 0,
        grid.modes.charset == CharSet::Ascii,
        grid.joins(c),
        0 <= col < grid.screen.cols,
        ({
            let cells = grid.screen.rows[grid.cursor_row].cells;
            let pending = grid.wrap_pending || grid.cursor_col == grid.screen.cols;
            let at = if !pending {
                grid.cursor_col - 1
            } else if grid.cursor_col < grid.screen.cols {
                grid.cursor_col
            } else {
                grid.screen.cols - 1
            };
            col == if at > 0 && cells[at].flags.has(CellFlags::WIDE_CONT) { at - 1 } else { at }
        }),
    ensures
        ({
            let next = grid.char_written(c);
            let row = grid.cursor_row;
            let cols = grid.screen.cols;
            let before = grid.screen.rows[row].cells[col];
            let natural = clamp_columns(text_columns(before.scalars().push(c)) as int);
            let moves = natural == 2 && cols > 1 && col + 2 > cols && grid.modes.auto_wrap;
            let wide = if natural <= cols - col { natural } else { cols - col };
            &&& !moves ==> {
                let after = next.screen.rows[row].cells[col];
                &&& next.cursor_row == row
                &&& next.cursor_col == col + wide
                &&& next.wrap_pending == (col + wide == cols)
                &&& joined_to(before, after, c)
                &&& after.flags.has(CellFlags::WIDE) == (natural == 2 && (wide == 2 || cols == 1))
                &&& wide == 2 ==> right_half_of(next.screen.rows[row].cells[col + 1], grid.pen)
                &&& forall|r: int|
                    0 <= r < grid.screen.rows.len() && r != row ==> #[trigger] next.screen.rows[r]
                        == grid.screen.rows[r]
                &&& without_halves(grid.screen.rows[row].cells) ==> forall|i: int|
                    0 <= i < col || col + wide <= i < cols
                        ==> #[trigger] next.screen.rows[row].cells[i]
                        == grid.screen.rows[row].cells[i]
                &&& next.history == grid.history
                &&& next.total_lines == grid.total_lines
            }
            &&& moves ==> {
                &&& next.cursor_col == 2
                &&& joined_to(before, next.screen.rows[next.cursor_row].cells[0], c)
                &&& right_half_of(next.screen.rows[next.cursor_row].cells[1], grid.pen)
                &&& row != grid.scroll_bottom && row + 1 < grid.screen.rows.len() ==> {
                    let left = next.screen.rows[row];
                    &&& next.cursor_row == row + 1
                    &&& left.cells[col].c == ' '
                    &&& left.cells[col].text is None
                    &&& left.cells[col].bg == grid.pen.bg
                    &&& left.metadata.len <= col
                    &&& left.metadata.wrapped
                    &&& forall|i: int|
                        0 <= i < col ==> #[trigger] left.cells[i] == grid.screen.rows[row].cells[i]
                }
            }
        }),
{
    reveal(GridView::char_written);
    reveal(GridView::with_cluster);
    reveal(GridView::with_glyph_replaced);
    reveal(glyph_in_row);
    let row = grid.cursor_row;
    let cols = grid.screen.cols;
    let cells = grid.screen.rows[row].cells;
    assert(cells.len() == cols);
    assert(col == grid.previous_glyph());
    let before = cells[col];
    let natural = clamp_columns(text_columns(before.scalars().push(c)) as int);
    lemma_joined_flags(before.flags);
    assert(0x20u8 & 0x20 == 0x20 && 0x20u8 & 0x10 != 0x10) by (bit_vector);
    assert(grid.charset_scalar(c) == c);
    let moves = natural == 2 && cols > 1 && col + 2 > cols && grid.modes.auto_wrap;
    let removed = grid.with_glyph_removed(col);
    assert forall|r: int| 0 <= r < removed.screen.rows.len() implies (
    #[trigger] removed.screen.rows[r]).cells.len() == cols by {
        assert(grid.screen.rows[r].cells.len() == cols);
    }
    assert(removed.valid());
    lemma_wrapped_valid(removed);
    lemma_soft_wrap_frame(removed);
    law_soft_wraps(removed);
    let wrapped = removed.soft_wrapped();
    assert(wrapped.screen.rows[wrapped.cursor_row].cells.len() == cols);
    if moves && row != grid.scroll_bottom && row + 1 < grid.screen.rows.len() {
        let next = grid.char_written(c);
        crate::grid::buffer::lemma_content_end(removed.screen.rows[row].cells);
        assert(next.screen.rows[row] == wrapped.screen.rows[row]);
        assert(wrapped.screen.rows[row].cells == removed.screen.rows[row].cells);
        assert(removed.screen.rows[row].metadata.len <= col);
    }
    if !moves && without_halves(cells) {
        let next = grid.char_written(c);
        let wide = if natural <= cols - col { natural } else { cols - col };
        assert forall|i: int| 0 <= i < col || col + wide <= i < cols implies
        #[trigger] next.screen.rows[row].cells[i] == cells[i] by {
            assert(!cells[i].flags.has(CellFlags::WIDE));
            assert(!cells[i].flags.has(CellFlags::WIDE_CONT));
            if i + 1 < cols {
                assert(!cells[i + 1].flags.has(CellFlags::WIDE_CONT));
            }
            if i > 0 {
                assert(!cells[i - 1].flags.has(CellFlags::WIDE));
            }
        }
    }
}

/// What joins: a scalar that the segmentation keeps with the text of the glyph
/// before the cursor, if that glyph was written and not both are ASCII.
pub proof fn law_what_joins(grid: GridView, c: char)
    requires
        grid.valid(),
        0 < grid.cursor_col < grid.screen.cols,
        !grid.wrap_pending,
        !grid.screen.rows[grid.cursor_row].cells[grid.cursor_col - 1].flags.has(
            CellFlags::WIDE_CONT,
        ),
    ensures
        ({
            let row = grid.screen.rows[grid.cursor_row];
            let before = row.cells[grid.cursor_col - 1];
            &&& grid.joins(c) ==> crate::grid::cluster::joins_cluster(before.scalars(), c)
                && grid.cursor_col <= row.content_len()
            &&& c as u32 > 0x7f && grid.cursor_col <= row.content_len()
                && crate::grid::cluster::joins_cluster(before.scalars(), c) ==> grid.joins(c)
        }),
{
}

/// A text is its characters, printed one after the other.
pub proof fn law_text_is_its_characters(grid: GridView, text: Seq<char>, c: char)
    ensures
        grid.text_written(Seq::empty()) == grid,
        grid.text_written(seq![c]) == grid.char_written(c),
        grid.text_written(text.push(c)) == grid.text_written(text).char_written(c),
{
    assert(seq![c].drop_last() =~= Seq::<char>::empty());
    assert(grid.text_written(Seq::<char>::empty()) == grid);
    assert(text.push(c).drop_last() =~= text);
}

} // verus!
