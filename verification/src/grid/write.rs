//! Writing text at the cursor.
use crate::grid::buffer::{
    lemma_content_end, lemma_row_change_shaped, Buffer, RowMetadata, RowView,
};
use crate::grid::cell::{
    clamp_columns, clamp_width, natural_columns, scalar_width, text_columns, text_width, Cell,
    CellFlags, CellView, Grapheme,
};
use crate::grid::cluster::{joins_cluster, scalar_extends_grapheme};
use crate::grid::cursor::{least, lemma_line_advanced_frame};
use crate::grid::operations::lemma_prints_keep_history_rows;
use crate::grid::terminal::{dec_special, dec_special_map, CharSet, Grid, GridView, Pen};
use crate::grid::wide::{
    clear_wide_overlap, lemma_half_flags, overlap_cleared, repair_wide_buffer_row, repaired,
};
use crate::text::chars_of;
use std::borrow::Cow;
use vstd::prelude::*;

verus! {

/// The columns that the cursor moves for a scalar of the given natural width.
pub open spec fn scalar_advance(width: Option<usize>, cols: int) -> int {
    let natural: int = match width {
        Some(width) => width as int,
        None => 1,
    };
    least(if natural < 1 { 1 } else { natural }, cols)
}

/// The row with the cells from `col` on moved right by `shift`.
pub open spec fn shifted_right(cells: Seq<CellView>, col: int, shift: int) -> Seq<CellView> {
    Seq::new(
        cells.len(),
        |i: int| if i >= col + shift { cells[i - shift] } else { cells[i] },
    )
}

/// The right half of a two-column glyph.
pub open spec fn continuation_cell(blank: CellView) -> CellView {
    CellView { c: '\0', flags: CellFlags { bits: CellFlags::WIDE_CONT }, ..blank }
}

impl Pen {
    /// A scalar as the pen writes it.
    pub open spec fn glyph(self, c: char, wide: bool) -> CellView {
        CellView {
            c,
            text: None,
            fg: self.fg,
            bg: self.bg,
            flags: if wide {
                self.flags.with(CellFlags::WIDE).without(CellFlags::WIDE_CONT)
            } else {
                self.flags.without(CellFlags::WIDE).without(CellFlags::WIDE_CONT)
            },
            underline_style: self.underline_style,
            underline_color: self.underline_color,
        }
    }
}

/// A row with a glyph written at `col`, and its right half if it has one.
pub open spec fn with_halves(
    cells: Seq<CellView>,
    col: int,
    glyph: CellView,
    wide: bool,
    blank: CellView,
) -> Seq<CellView> {
    let led = cells.update(col, glyph);
    if wide && col + 1 < cells.len() { led.update(col + 1, continuation_cell(blank)) } else { led }
}

/// A row with a glyph written at `col` over `advance` columns, or inserted
/// before them. Halves of other glyphs that are left over become blank.
#[verifier::opaque]
pub open spec fn glyph_in_row(
    cells: Seq<CellView>,
    col: int,
    glyph: CellView,
    wide: bool,
    advance: int,
    insert: bool,
    blank: CellView,
) -> Seq<CellView> {
    let ready = if insert {
        shifted_right(cells, col, advance)
    } else {
        overlap_cleared(cells, col, least(col + advance, cells.len() as int))
    };
    let written = with_halves(ready, col, glyph, wide, blank);
    if insert { repaired(written, blank) } else { written }
}

/// A row with single-column glyphs written from `col` on. Only the ends of the
/// run can leave half of another glyph over.
#[verifier::opaque]
pub open spec fn run_in_row(cells: Seq<CellView>, col: int, glyphs: Seq<CellView>) -> Seq<
    CellView,
> {
    let last = col + glyphs.len() - 1;
    let left = overlap_cleared(cells, col, col + 1);
    let cleared = if glyphs.len() > 1 { overlap_cleared(left, last, last + 1) } else { left };
    Seq::new(
        cells.len(),
        |i: int| if col <= i <= last { glyphs[i - col] } else { cleared[i] },
    )
}

impl Pen {
    /// Single-column scalars as the pen writes them.
    pub open spec fn glyphs(self, run: Seq<char>) -> Seq<CellView> {
        Seq::new(run.len(), |i: int| self.glyph(run[i], false))
    }
}

impl GridView {
    /// A delayed wrap takes place, or is forgotten where lines do not wrap.
    pub open spec fn settled(self) -> GridView {
        if self.wraps_next() || self.cursor_col >= self.cols() {
            if self.modes.auto_wrap { self.soft_wrapped() } else { self.unwrapped() }
        } else {
            self
        }
    }

    /// The row of the cursor with a glyph written at the cursor over `advance`
    /// columns, or inserted before them.
    pub open spec fn row_with_glyph(
        self,
        glyph: CellView,
        wide: bool,
        advance: int,
        insert: bool,
    ) -> Seq<CellView> {
        glyph_in_row(
            self.screen.rows[self.cursor_row].cells,
            self.cursor_col,
            glyph,
            wide,
            advance,
            insert,
            self.template(),
        )
    }

    /// The cursor after `advance` columns of its row were written.
    pub open spec fn row_finished(self, advance: int) -> GridView {
        GridView {
            screen: self.screen.written(self.cursor_row, self.cursor_col + advance),
            cursor_col: self.cursor_col + advance,
            wrap_pending: self.cursor_col + advance >= self.cols(),
            ..self.dirty_rows(self.cursor_row, self.cursor_row + 1)
        }
    }

    /// Other cells in the row of the cursor, of which `advance` are new.
    pub open spec fn with_row_written(self, cells: Seq<CellView>, advance: int) -> GridView {
        self.with_screen(self.screen.with_cells(self.cursor_row, cells)).row_finished(advance)
    }

    /// A scalar written at the cursor, without wrapping.
    #[verifier::opaque]
    pub open spec fn with_scalar(self, c: char, width: Option<usize>) -> GridView {
        let wide = width == Some(2usize);
        let advance = scalar_advance(width, self.cols());
        self.with_row_written(
            self.row_with_glyph(self.pen.glyph(c, wide), wide, advance, self.modes.insert_mode),
            advance,
        )
    }

    /// A scalar of the given width written in a cell of its own. A wide glyph
    /// does not fit into the last column: it goes to the next row, or nowhere
    /// where lines do not wrap.
    pub open spec fn scalar_written(self, c: char, width: Option<usize>) -> GridView {
        let ready = self.settled();
        if scalar_advance(width, self.cols()) == 2 && ready.cursor_col == self.cols() - 1 {
            if self.modes.auto_wrap { ready.soft_wrapped().with_scalar(c, width) } else { ready }
        } else {
            ready.with_scalar(c, width)
        }
    }

    /// The cursor stands on the screen, or behind a glyph that reached beyond
    /// its margin.
    pub open spec fn cursor_placed(self) -> bool {
        self.cursor_col <= self.cols() || self.wrap_pending
    }

    /// The column of the glyph before the cursor.
    pub open spec fn previous_glyph(self) -> int {
        let cells = self.screen.rows[self.cursor_row].cells;
        let at = if self.wraps_next() { self.clamped_col() } else { self.cursor_col - 1 };
        if cells[at].continuation() && at > 0 { at - 1 } else { at }
    }

    /// A scalar may join the glyph before the cursor. Plain ASCII never does,
    /// nor does anything join cells that were not written.
    pub open spec fn may_join(self, c: char) -> bool {
        let row = self.screen.rows[self.cursor_row];
        let previous = row.cells[self.previous_glyph()];
        &&& self.cursor_col != 0
        &&& !(previous.text is None && previous.c as u32 <= 0x7f && c as u32 <= 0x7f)
        &&& self.previous_glyph() < row.content_len()
    }

    /// A scalar joins the glyph before the cursor.
    pub open spec fn joins(self, c: char) -> bool {
        self.may_join(c) && joins_cluster(
            self.screen.cell(self.cursor_row, self.previous_glyph()).scalars(),
            c,
        )
    }

    /// The cell of the glyph before the cursor with one more scalar in it.
    pub open spec fn joined_cell(self, c: char, natural: int) -> CellView {
        let previous = self.screen.cell(self.cursor_row, self.previous_glyph());
        let plain = previous.flags.without(CellFlags::WIDE | CellFlags::WIDE_CONT);
        CellView {
            text: Some(previous.scalars().push(c)),
            flags: if natural == 2 { plain.with(CellFlags::WIDE) } else { plain },
            ..previous
        }
    }

    /// A cluster written at the cursor.
    #[verifier::opaque]
    pub open spec fn with_cluster(self, cell: CellView, width: int) -> GridView {
        self.with_row_written(self.row_with_glyph(cell, width == 2, width, false), width)
    }

    /// The glyph before the cursor taken from the screen.
    pub open spec fn with_glyph_removed(self, col: int) -> GridView {
        let emptied = self.screen.with_cell(self.cursor_row, col, self.template());
        let row = emptied.rows[self.cursor_row];
        GridView {
            screen: emptied.with_metadata(
                self.cursor_row,
                RowMetadata {
                    len: least(row.content_len(), col) as usize,
                    wrapped: row.metadata.wrapped,
                },
            ),
            ..self.dirty_rows(self.cursor_row, self.cursor_row + 1)
        }
    }

    /// The glyph before the cursor replaced where it stands. If it becomes
    /// narrower at the end of the row, the row becomes shorter.
    #[verifier::opaque]
    pub open spec fn with_glyph_replaced(
        self,
        col: int,
        cell: CellView,
        old_width: int,
        new_width: int,
    ) -> GridView {
        let row = self.screen.rows[self.cursor_row];
        let cells = glyph_in_row(
            row.cells,
            col,
            cell,
            new_width == 2,
            new_width,
            false,
            self.template(),
        );
        let replaced = self.screen.with_cells(self.cursor_row, cells);
        let shrinks = new_width < old_width && row.content_len() == col + old_width;
        let cut = replaced.with_metadata(
            self.cursor_row,
            if shrinks {
                RowMetadata { len: (col + new_width) as usize, wrapped: row.metadata.wrapped }
            } else {
                row.metadata
            },
        );
        GridView {
            screen: cut.written(self.cursor_row, col + new_width),
            cursor_col: col + new_width,
            wrap_pending: col + new_width == self.cols(),
            ..self.dirty_rows(self.cursor_row, self.cursor_row + 1)
        }
    }

    /// A scalar joined to the glyph before the cursor, which then has the
    /// given natural width. A glyph that becomes wide at the margin moves to
    /// the next row.
    pub open spec fn cluster_extended(self, c: char, natural: int) -> GridView {
        let col = self.previous_glyph();
        let previous = self.screen.cell(self.cursor_row, col);
        let cell = self.joined_cell(c, natural);
        let old_width: int = if previous.wide() && col + 1 < self.cols() { 2 } else { 1 };
        let new_width = least(natural, self.cols());
        if new_width > old_width && col + new_width > self.cols() && self.modes.auto_wrap {
            self.with_glyph_removed(col).soft_wrapped().with_cluster(cell, new_width)
        } else {
            let fitting = least(new_width, self.cols() - col);
            let shown = if natural == 2 && fitting == 1 && self.cols() > 1 {
                CellView { flags: cell.flags.without(CellFlags::WIDE), ..cell }
            } else {
                cell
            };
            self.with_glyph_replaced(col, shown, old_width, fitting)
        }
    }

    /// The scalar that a character stands for in the current character set.
    pub open spec fn charset_scalar(self, c: char) -> char {
        if self.modes.charset == CharSet::DecSpecial { dec_special(c) } else { c }
    }

    /// The screen after one character.
    #[verifier::opaque]
    pub open spec fn char_written(self, c: char) -> GridView {
        let scalar = self.charset_scalar(c);
        if self.joins(scalar) {
            let text = self.screen.cell(self.cursor_row, self.previous_glyph()).scalars();
            self.cluster_extended(scalar, clamp_columns(text_columns(text.push(scalar)) as int))
        } else {
            self.scalar_written(scalar, natural_columns(scalar))
        }
    }

    /// The row of the cursor with a run of single-column scalars at the cursor.
    pub open spec fn row_with_run(self, run: Seq<char>) -> Seq<CellView> {
        run_in_row(
            self.screen.rows[self.cursor_row].cells,
            self.cursor_col,
            self.pen.glyphs(run),
        )
    }

    /// A run that fits into the rest of the row written at once.
    #[verifier::opaque]
    pub open spec fn with_run(self, run: Seq<char>) -> GridView {
        self.with_row_written(self.row_with_run(run), run.len() as int)
    }

    /// Single-column scalars written in runs that end at the margin. The first
    /// scalar after a delayed wrap is written like any character.
    pub open spec fn runs_written(self, text: Seq<char>) -> GridView
        decreases text.len(),
    {
        if text.len() == 0 {
            self
        } else if self.wraps_next() || self.cursor_col >= self.cols() {
            self.char_written(text[0]).runs_written(text.skip(1))
        } else {
            let count = least(text.len() as int, self.cols() - self.cursor_col);
            self.with_run(text.take(count)).runs_written(text.skip(count))
        }
    }

    /// Printable ASCII text, of which only the first scalar can join the glyph
    /// before the cursor.
    pub open spec fn ascii_written(self, text: Seq<char>) -> GridView {
        if self.modes.charset != CharSet::Ascii || self.modes.insert_mode {
            self.text_written(text)
        } else if text.len() > 0 && self.joins(text[0]) {
            self.char_written(text[0]).runs_written(text.skip(1))
        } else {
            self.runs_written(text)
        }
    }

    /// The screen after a text, one character after the other.
    pub open spec fn text_written(self, text: Seq<char>) -> GridView
        decreases text.len(),
    {
        if text.len() == 0 {
            self
        } else {
            self.text_written(text.drop_last()).char_written(text.last())
        }
    }
}

impl Grid {
    /// Let a delayed wrap take place.
    fn settle_wrap(&mut self)
        requires
            old(self).wf(),
            old(self)@.counts_lines(1),
        ensures
            final(self).wf(),
            final(self)@ == old(self)@.settled(),
    {
        if self.is_wrap_pending() || self.cursor_col >= self.cols() {
            if self.modes.auto_wrap {
                self.soft_wrap();
            } else {
                self.cancel_pending_wrap();
            }
        }
    }

    /// Account for `advance` written columns at the cursor.
    fn finish_write(&mut self, advance: usize)
        requires
            old(self).wf(),
            old(self)@.cursor_col + advance <= usize::MAX,
        ensures
            final(self).wf(),
            final(self)@ == old(self)@.row_finished(advance as int),
    {
        let row: usize = self.cursor_row;
        let end: usize = self.cursor_col + advance;
        let pending: bool = end >= self.cols();
        self.buffer.mark_written(row, end);
        proof {
            self.buffer.lemma_shape();
        }
        self.mark_dirty_rows(row, row + 1);
        self.cursor_col = end;
        self.wrap_pending = pending;
    }

    /// The cell of a scalar in the current style.
    fn pen_glyph(&self, c: char, wide: bool) -> (r: Cell)
        ensures
            r@ == self@.pen.glyph(c, wide),
    {
        let mut flags: CellFlags = self.pen.flags;
        if wide {
            flags.insert(CellFlags::WIDE);
            flags.remove(CellFlags::WIDE_CONT);
        } else {
            flags.remove(CellFlags::WIDE);
            flags.remove(CellFlags::WIDE_CONT);
        }
        Cell {
            c,
            grapheme: None,
            fg: self.pen.fg,
            bg: self.pen.bg,
            flags,
            underline_style: self.pen.underline_style,
            underline_color: self.pen.underline_color,
        }
    }

    /// Write a scalar at the cursor, which stands on the screen.
    fn place_scalar(&mut self, c: char, width: Option<usize>, advance: usize)
        requires
            old(self).wf(),
            old(self)@.cursor_col < old(self)@.cols(),
            advance == scalar_advance(width, old(self)@.cols()),
        ensures
            final(self).wf(),
            final(self)@ == old(self)@.with_scalar(c, width),
    {
        reveal(GridView::with_scalar);
        let wide: bool = match width {
            Some(width) => width == 2,
            None => false,
        };
        let glyph: Cell = self.pen_glyph(c, wide);
        let insert: bool = self.modes.insert_mode;
        self.write_at_cursor(glyph, wide, advance, insert);
    }

    /// Write a glyph at the cursor, which stands on the screen.
    fn write_at_cursor(&mut self, glyph: Cell, wide: bool, advance: usize, insert: bool)
        requires
            old(self).wf(),
            old(self)@.cursor_col < old(self)@.cols(),
            1 <= advance <= old(self)@.cols(),
        ensures
            final(self).wf(),
            final(self)@ == old(self)@.with_row_written(
                old(self)@.row_with_glyph(glyph@, wide, advance as int, insert),
                advance as int,
            ),
    {
        let blank: Cell = self.template_cell();
        let row: usize = self.cursor_row;
        let col: usize = self.cursor_col;
        proof {
            self.buffer.lemma_shape();
        }
        write_scalar_cells(&mut self.buffer, row, col, advance, glyph, wide, insert, blank);
        proof {
            self.buffer.lemma_shape();
        }
        self.finish_write(advance);
    }

    /// Write a scalar of a known width in a cell of its own.
    pub fn put_scalar(&mut self, c: char, width: Option<usize>)
        requires
            old(self).wf(),
            old(self)@.counts_lines(1),
        ensures
            final(self).wf(),
            final(self)@ == old(self)@.scalar_written(c, width),
    {
        let cols: usize = self.cols();
        let natural: usize = match width {
            Some(width) => width,
            None => 1,
        };
        let wanted: usize = if natural < 1 { 1 } else { natural };
        let advance: usize = if wanted < cols { wanted } else { cols };
        let auto_wrap: bool = self.modes.auto_wrap;
        let ghost start = self@;
        proof {
            lemma_soft_wrap_frame(start);
        }
        self.settle_wrap();
        let ghost ready = self@;
        proof {
            assert(ready.cursor_col < cols);
            assert(ready.modes == start.modes);
        }
        if advance == 2 && self.cursor_col == cols - 1 {
            if auto_wrap {
                proof {
                    assert(cols >= 2);
                    assert(ready == start);
                    lemma_soft_wrap_frame(ready);
                }
                self.soft_wrap();
                self.place_scalar(c, width, advance);
            }
        } else {
            self.place_scalar(c, width, advance);
        }
    }
}

impl Grid {
    /// The column of the glyph before the cursor.
    fn previous_glyph_col(&self) -> (r: usize)
        requires
            self.wf(),
            self@.cursor_placed(),
            self@.cursor_col != 0,
        ensures
            r == self@.previous_glyph(),
            r < self@.cols(),
    {
        let at: usize = if self.is_wrap_pending() {
            self.limited_col()
        } else {
            self.cursor_col - 1
        };
        if self.buffer.cell(self.cursor_row, at).flags.contains(CellFlags::WIDE_CONT) && at > 0 {
            at - 1
        } else {
            at
        }
    }

    /// The cell of the glyph at `col` with one more scalar in it.
    fn joined_glyph(&self, col: usize, c: char, natural: usize) -> (r: Cell)
        requires
            self.wf(),
            col == self@.previous_glyph(),
            col < self@.cols(),
        ensures
            r@ == self@.joined_cell(c, natural as int),
    {
        let previous: &Cell = self.buffer.cell(self.cursor_row, col);
        let mut cell: Cell = previous.clone();
        let text = previous.text();
        cell.grapheme = Some(Grapheme::from_appended(cow_text(&text), c));
        cell.flags.remove(CellFlags::WIDE | CellFlags::WIDE_CONT);
        if natural == 2 {
            cell.flags.insert(CellFlags::WIDE);
        }
        cell
    }

    /// Write a cluster at the cursor, which stands on the screen.
    fn write_cluster_cell(&mut self, cell: Cell, width: usize)
        requires
            old(self).wf(),
            old(self)@.cursor_col < old(self)@.cols(),
            1 <= width <= old(self)@.cols(),
        ensures
            final(self).wf(),
            final(self)@ == old(self)@.with_cluster(cell@, width as int),
    {
        reveal(GridView::with_cluster);
        self.write_at_cursor(cell, width == 2, width, false);
    }

    /// Take the glyph at `col` from the row of the cursor.
    fn remove_glyph(&mut self, col: usize)
        requires
            old(self).wf(),
            col < old(self)@.cols(),
        ensures
            final(self).wf(),
            final(self)@ == old(self)@.with_glyph_removed(col as int),
    {
        let row: usize = self.cursor_row;
        let blank: Cell = self.template_cell();
        *self.buffer.cell_mut(row, col) = blank;
        let metadata: RowMetadata = self.buffer.row_metadata(row);
        let len: usize = if metadata.len < col { metadata.len } else { col };
        self.buffer.set_row_metadata(row, RowMetadata { len, wrapped: metadata.wrapped });
        proof {
            self.buffer.lemma_shape();
            lemma_content_len_fits(
                old(self)@.screen.with_cell(row as int, col as int, old(self)@.template()).rows[
                row as int],
            );
        }
        self.mark_dirty_rows(row, row + 1);
    }

    /// Replace the glyph at `col` in the row of the cursor where it stands.
    fn replace_glyph(&mut self, col: usize, cell: Cell, old_width: usize, new_width: usize)
        requires
            old(self).wf(),
            col + new_width <= old(self)@.cols(),
            1 <= old_width <= 2,
            1 <= new_width <= 2,
        ensures
            final(self).wf(),
            final(self)@ == old(self)@.with_glyph_replaced(
                col as int,
                cell@,
                old_width as int,
                new_width as int,
            ),
    {
        reveal(GridView::with_glyph_replaced);
        let row: usize = self.cursor_row;
        let blank: Cell = self.template_cell();
        let end: usize = col + new_width;
        let cols: usize = self.cols();
        proof {
            self.buffer.lemma_shape();
        }
        replace_cells(&mut self.buffer, row, col, cell, old_width, new_width, blank);
        proof {
            self.buffer.lemma_shape();
        }
        self.mark_dirty_rows(row, row + 1);
        self.cursor_col = end;
        self.wrap_pending = end == cols;
    }

    /// Join a scalar to the glyph before the cursor, which then has the given
    /// natural width.
    pub fn extend_cluster(&mut self, c: char, natural: usize)
        requires
            old(self).wf(),
            old(self)@.counts_lines(1),
            old(self)@.cursor_placed(),
            old(self)@.cursor_col != 0,
            1 <= natural <= 2,
        ensures
            final(self).wf(),
            final(self)@ == old(self)@.cluster_extended(c, natural as int),
    {
        let cols: usize = self.cols();
        let col: usize = self.previous_glyph_col();
        let mut cell: Cell = self.joined_glyph(col, c, natural);
        let leads: bool = self.buffer.cell(self.cursor_row, col).flags.contains(CellFlags::WIDE);
        let old_width: usize = if leads && col + 1 < cols { 2 } else { 1 };
        let new_width: usize = if natural < cols { natural } else { cols };
        let room: usize = cols - col;
        if new_width > old_width && new_width > room && self.modes.auto_wrap {
            self.remove_glyph(col);
            proof {
                lemma_soft_wrap_frame(self@);
            }
            self.soft_wrap();
            self.write_cluster_cell(cell, new_width);
        } else {
            let fitting: usize = if new_width < room { new_width } else { room };
            if natural == 2 && fitting == 1 && cols > 1 {
                cell.flags.remove(CellFlags::WIDE);
            }
            self.replace_glyph(col, cell, old_width, fitting);
        }
    }

    /// Append a scalar to the glyph before the cursor, where it stays in its
    /// cluster. This comes before a delayed wrap, so that an accent that
    /// arrives later still belongs to the glyph at the margin.
    fn extend_grapheme(&mut self, c: char) -> (r: bool)
        requires
            old(self).wf(),
            old(self)@.counts_lines(1),
            old(self)@.cursor_placed(),
        ensures
            r == old(self)@.joins(c),
            final(self).wf(),
            !r ==> *final(self) == *old(self),
            r ==> final(self)@ == old(self)@.cluster_extended(
                c,
                clamp_columns(
                    text_columns(
                        old(self)@.screen.cell(
                            old(self)@.cursor_row,
                            old(self)@.previous_glyph(),
                        ).scalars().push(c),
                    ) as int,
                ),
            ),
    {
        if self.cursor_col == 0 {
            return false;
        }
        let row: usize = self.cursor_row;
        let col: usize = self.previous_glyph_col();
        let previous: &Cell = self.buffer.cell(row, col);
        if previous.grapheme.is_none() && previous.c as u32 <= 0x7f && c as u32 <= 0x7f {
            return false;
        }
        proof {
            lemma_content_len_fits(self@.screen.rows[row as int]);
        }
        if col >= self.buffer.row_metadata(row).len {
            return false;
        }
        let mut text: String = cow_text(&previous.text()).to_owned();
        if !scalar_extends_grapheme(text.as_str(), c) {
            return false;
        }
        text.push(c);
        let natural: usize = clamp_width(text_width(text.as_str()));
        self.extend_cluster(c, natural);
        true
    }

    /// Write a run that fits into the rest of the row.
    fn write_run(&mut self, text: &[u8], from: usize, count: usize)
        requires
            old(self).wf(),
            1 <= count,
            from + count <= text@.len(),
            old(self)@.cursor_col + count <= old(self)@.cols(),
        ensures
            final(self).wf(),
            final(self)@ == old(self)@.with_run(
                ascii_chars(text@).subrange(from as int, from + count),
            ),
    {
        reveal(GridView::with_run);
        let row: usize = self.cursor_row;
        let col: usize = self.cursor_col;
        let style: Cell = self.pen_glyph(' ', false);
        proof {
            self.buffer.lemma_shape();
            assert(style@ == self@.pen.glyph(' ', false));
        }
        write_run_cells(&mut self.buffer, row, col, text, from, count, &style);
        proof {
            self.buffer.lemma_shape();
            let run = ascii_chars(text@).subrange(from as int, from + count);
            assert(run_glyphs(text@, from as int, count as int, style@) =~= old(
                self)@.pen.glyphs(run));
        }
        self.finish_write(count);
    }

    /// Write a run of printable ASCII, a row at a time.
    pub fn put_ascii(&mut self, text: &[u8])
        requires
            old(self).wf(),
            old(self)@.counts_lines(text@.len() as int),
            old(self)@.cursor_placed(),
            forall|i: int| 0 <= i < text@.len() ==> 0x20 <= #[trigger] text@[i] <= 0x7e,
        ensures
            final(self).wf(),
            final(self)@ == old(self)@.ascii_written(ascii_chars(text@)),
            final(self)@.cursor_placed(),
            final(self)@.total_lines <= old(self)@.total_lines + text@.len(),
            old(self)@.unresized() ==> final(self)@.unresized(),
    {
        let ghost chars = ascii_chars(text@);
        proof {
            if self@.unresized() {
                lemma_prints_keep_history_rows(self@, ' ', chars);
            }
        }
        if self.modes.charset != CharSet::Ascii || self.modes.insert_mode {
            self.put_each(text);
        } else if text.len() > 0 {
            let ghost start = self@;
            let joined: bool = self.extend_grapheme(text[0] as char);
            if joined {
                proof {
                    lemma_char_written_frame(start, chars[0]);
                    reveal(GridView::char_written);
                }
                self.put_runs(text, 1);
            } else {
                proof {
                    assert(chars.skip(0) =~= chars);
                }
                self.put_runs(text, 0);
            }
        }
    }

    /// Write ASCII text, one character after the other.
    fn put_each(&mut self, text: &[u8])
        requires
            old(self).wf(),
            old(self)@.counts_lines(text@.len() as int),
            old(self)@.cursor_placed(),
        ensures
            final(self).wf(),
            final(self)@ == old(self)@.text_written(ascii_chars(text@)),
            final(self)@.cursor_placed(),
            final(self)@.total_lines <= old(self)@.total_lines + text@.len(),
    {
        let ghost chars = ascii_chars(text@);
        let ghost start = self@;
        let len: usize = text.len();
        let mut at: usize = 0;
        proof {
            assert(chars.take(0) =~= Seq::<char>::empty());
        }
        while at < len
            invariant
                at <= len,
                len == text@.len(),
                chars == ascii_chars(text@),
                self.wf(),
                self@.cursor_placed(),
                self@.total_lines <= start.total_lines + at,
                start.counts_lines(len as int),
                self@ == start.text_written(chars.take(at as int)),
            decreases len - at,
        {
            self.put_char(text[at] as char);
            proof {
                let prefix = chars.take(at + 1);
                assert(prefix.drop_last() =~= chars.take(at as int));
                assert(prefix.last() == text@[at as int] as char);
            }
            at += 1;
        }
        proof {
            assert(chars.take(at as int) =~= chars);
        }
    }

    /// Write the ASCII text from byte `from` on, a row at a time.
    fn put_runs(&mut self, text: &[u8], from: usize)
        requires
            old(self).wf(),
            from <= text@.len(),
            old(self)@.counts_lines(text@.len() - from),
            old(self)@.cursor_placed(),
        ensures
            final(self).wf(),
            final(self)@ == old(self)@.runs_written(ascii_chars(text@).skip(from as int)),
            final(self)@.cursor_placed(),
            final(self)@.total_lines <= old(self)@.total_lines + (text@.len() - from),
    {
        let ghost chars = ascii_chars(text@);
        let ghost start = self@;
        let ghost rest = chars.skip(from as int);
        let len: usize = text.len();
        let mut at: usize = from;
        while at < len
            invariant
                from <= at <= len,
                len == text@.len(),
                chars == ascii_chars(text@),
                self.wf(),
                self@.cursor_placed(),
                self@.total_lines <= start.total_lines + (at - from),
                start.counts_lines(len - from),
                self@.runs_written(chars.skip(at as int)) == start.runs_written(rest),
            decreases len - at,
        {
            let cols: usize = self.cols();
            let ghost now = self@;
            let ghost left = chars.skip(at as int);
            if self.is_wrap_pending() || self.cursor_col >= cols {
                self.put_char(text[at] as char);
                proof {
                    assert(left[0] == text@[at as int] as char);
                    assert(left.skip(1) =~= chars.skip(at + 1));
                }
                at += 1;
            } else {
                let room: usize = cols - self.cursor_col;
                let count: usize = if len - at < room { len - at } else { room };
                self.write_run(text, at, count);
                proof {
                    assert(left.take(count as int) =~= chars.subrange(at as int, at + count));
                    assert(left.skip(count as int) =~= chars.skip(at + count));
                    lemma_run_frame(now, left.take(count as int));
                }
                at += count;
            }
        }
        proof {
            assert(chars.skip(at as int) =~= Seq::<char>::empty());
        }
    }

    /// Write a text, one character after the other.
    pub fn put_utf8(&mut self, text: &str)
        requires
            old(self).wf(),
            old(self)@.counts_lines(text@.len() as int),
            old(self)@.cursor_placed(),
        ensures
            final(self).wf(),
            final(self)@ == old(self)@.text_written(text@),
            final(self)@.cursor_placed(),
            final(self)@.total_lines <= old(self)@.total_lines + text@.len(),
            old(self)@.unresized() ==> final(self)@.unresized(),
    {
        let ghost start = self@;
        proof {
            if start.unresized() {
                lemma_prints_keep_history_rows(start, ' ', text@);
            }
        }
        let chars: Vec<char> = chars_of(text);
        let mut at: usize = 0;
        proof {
            assert(text@.take(0) =~= Seq::<char>::empty());
        }
        while at < chars.len()
            invariant
                at <= chars@.len(),
                chars@ == text@,
                self.wf(),
                self@.cursor_placed(),
                self@.total_lines <= start.total_lines + at,
                start.counts_lines(text@.len() as int),
                self@ == start.text_written(text@.take(at as int)),
            decreases chars@.len() - at,
        {
            self.put_char(chars[at]);
            proof {
                let prefix = text@.take(at + 1);
                assert(prefix.drop_last() =~= text@.take(at as int));
                assert(prefix.last() == chars@[at as int]);
            }
            at += 1;
        }
        proof {
            assert(text@.take(at as int) =~= text@);
        }
    }

    /// Place a character at the cursor, with wide glyphs, grapheme clusters and
    /// the DEC character set.
    pub fn put_char(&mut self, c: char)
        requires
            old(self).wf(),
            old(self)@.counts_lines(1),
            old(self)@.cursor_placed(),
        ensures
            final(self).wf(),
            final(self)@ == old(self)@.char_written(c),
            final(self)@.cursor_placed(),
            final(self)@.total_lines <= old(self)@.total_lines + 1,
            old(self)@.unresized() ==> final(self)@.unresized(),
    {
        proof {
            if self@.unresized() {
                lemma_prints_keep_history_rows(self@, c, Seq::empty());
            }
            lemma_char_written_frame(self@, c);
            reveal(GridView::char_written);
        }
        let scalar: char = if self.modes.charset == CharSet::DecSpecial {
            dec_special_map(c)
        } else {
            c
        };
        if self.extend_grapheme(scalar) {
            return;
        }
        let width: Option<usize> = scalar_width(scalar);
        self.put_scalar(scalar, width);
    }
}

/// The scalars of an ASCII text.
pub open spec fn ascii_chars(text: Seq<u8>) -> Seq<char> {
    Seq::new(text.len(), |i: int| text[i] as char)
}

/// Writing a character keeps the size of the screen, the pen and the modes,
/// and leaves the cursor in its place.
pub proof fn lemma_char_written_frame(grid: GridView, c: char)
    requires
        grid.valid(),
        grid.cursor_placed(),
        grid.cursor_col >= 0,
    ensures
        ({
            let next = grid.char_written(c);
            &&& next.cursor_placed()
            &&& next.cols() == grid.cols()
            &&& next.rows() == grid.rows()
            &&& next.pen == grid.pen
            &&& next.modes == grid.modes
            &&& grid.total_lines <= next.total_lines <= grid.total_lines + 1
        }),
{
    reveal(GridView::char_written);
    let scalar = grid.charset_scalar(c);
    if grid.joins(scalar) {
        let text = grid.screen.cell(grid.cursor_row, grid.previous_glyph()).scalars();
        lemma_cluster_extended_frame(
            grid,
            scalar,
            clamp_columns(text_columns(text.push(scalar)) as int),
        );
    } else {
        lemma_scalar_written_frame(grid, scalar, natural_columns(scalar));
    }
}

/// Writing a scalar keeps the size of the screen, the pen and the modes, and
/// leaves the cursor in its place.
pub proof fn lemma_scalar_written_frame(grid: GridView, c: char, width: Option<usize>)
    requires
        grid.valid(),
        grid.cursor_placed(),
    ensures
        ({
            let next = grid.scalar_written(c, width);
            &&& next.cursor_placed()
            &&& next.cols() == grid.cols()
            &&& next.rows() == grid.rows()
            &&& next.pen == grid.pen
            &&& next.modes == grid.modes
            &&& grid.total_lines <= next.total_lines <= grid.total_lines + 1
        }),
{
    lemma_soft_wrap_frame(grid);
    let ready = grid.settled();
    lemma_written_frame(ready, c, width);
    lemma_written_frame(grid.soft_wrapped(), c, width);
    assert(ready.cursor_col < grid.cols());
    if scalar_advance(width, grid.cols()) == 2 && ready.cursor_col == grid.cols() - 1 {
        if grid.modes.auto_wrap {
            assert(ready == grid);
        }
    }
}

/// Writing in the row of the cursor changes the screen, the cursor column and
/// the damage only.
proof fn lemma_written_frame(grid: GridView, c: char, width: Option<usize>)
    requires
        0 <= grid.cursor_row < grid.rows(),
    ensures
        ({
            let next = grid.with_scalar(c, width);
            &&& next == GridView {
                screen: next.screen,
                cursor_col: next.cursor_col,
                wrap_pending: next.wrap_pending,
                dirty: next.dirty,
                ..grid
            }
            &&& next.cursor_placed()
            &&& next.cols() == grid.cols()
            &&& next.rows() == grid.rows()
        }),
{
    reveal(GridView::with_scalar);
}

proof fn lemma_cluster_frame(grid: GridView, cell: CellView, width: int)
    requires
        0 <= grid.cursor_row < grid.rows(),
    ensures
        ({
            let next = grid.with_cluster(cell, width);
            &&& next == GridView {
                screen: next.screen,
                cursor_col: next.cursor_col,
                wrap_pending: next.wrap_pending,
                dirty: next.dirty,
                ..grid
            }
            &&& next.cursor_placed()
            &&& next.cols() == grid.cols()
            &&& next.rows() == grid.rows()
        }),
{
    reveal(GridView::with_cluster);
}

proof fn lemma_replaced_frame(
    grid: GridView,
    col: int,
    cell: CellView,
    old_width: int,
    new_width: int,
)
    requires
        0 <= grid.cursor_row < grid.rows(),
        col + new_width <= grid.cols(),
    ensures
        ({
            let next = grid.with_glyph_replaced(col, cell, old_width, new_width);
            &&& next == GridView {
                screen: next.screen,
                cursor_col: next.cursor_col,
                wrap_pending: next.wrap_pending,
                dirty: next.dirty,
                ..grid
            }
            &&& next.cursor_placed()
            &&& next.cols() == grid.cols()
            &&& next.rows() == grid.rows()
        }),
{
    reveal(GridView::with_glyph_replaced);
}

proof fn lemma_cluster_extended_frame(grid: GridView, c: char, natural: int)
    requires
        grid.valid(),
        grid.cursor_placed(),
        grid.cursor_col > 0,
        1 <= natural <= 2,
    ensures
        ({
            let next = grid.cluster_extended(c, natural);
            &&& next.cursor_placed()
            &&& next.cols() == grid.cols()
            &&& next.rows() == grid.rows()
            &&& next.pen == grid.pen
            &&& next.modes == grid.modes
            &&& grid.total_lines <= next.total_lines <= grid.total_lines + 1
        }),
{
    let col = grid.previous_glyph();
    let removed = grid.with_glyph_removed(col);
    let row = grid.cursor_row;
    let emptied = grid.screen.with_cell(row, col, grid.template());
    lemma_row_change_shaped(
        grid.screen,
        row,
        grid.screen.rows[row].cells.update(col, grid.template()),
        grid.screen.rows[row].metadata,
    );
    lemma_row_change_shaped(
        emptied,
        row,
        emptied.rows[row].cells,
        removed.screen.rows[row].metadata,
    );
    assert(removed.screen == emptied.with_metadata(row, removed.screen.rows[row].metadata));
    assert(removed.valid());
    lemma_soft_wrap_frame(removed);
    let previous = grid.screen.cell(row, col);
    let cell = grid.joined_cell(c, natural);
    let old_width: int = if previous.wide() && col + 1 < grid.cols() { 2 } else { 1 };
    let new_width = least(natural, grid.cols());
    if new_width > old_width && col + new_width > grid.cols() && grid.modes.auto_wrap {
        lemma_cluster_frame(removed.soft_wrapped(), cell, new_width);
    } else {
        let fitting = least(new_width, grid.cols() - col);
        let shown = if natural == 2 && fitting == 1 && grid.cols() > 1 {
            CellView { flags: cell.flags.without(CellFlags::WIDE), ..cell }
        } else {
            cell
        };
        lemma_replaced_frame(grid, col, shown, old_width, fitting);
    }
}

proof fn lemma_run_frame(grid: GridView, run: Seq<char>)
    ensures
        grid.with_run(run).cursor_placed(),
        grid.with_run(run).total_lines == grid.total_lines,
{
    reveal(GridView::with_run);
}

/// Bytes `from..from + count` of an ASCII text as cells of the given style.
spec fn run_glyphs(text: Seq<u8>, from: int, count: int, style: CellView) -> Seq<CellView> {
    Seq::new(count as nat, |i: int| CellView { c: text[from + i] as char, ..style })
}

/// Write a run of single-column scalars in the given style.
fn write_run_cells(
    buffer: &mut Buffer,
    row: usize,
    col: usize,
    text: &[u8],
    from: usize,
    count: usize,
    style: &Cell,
)
    requires
        old(buffer).wf(),
        row < old(buffer)@.rows.len(),
        1 <= count,
        col + count <= old(buffer)@.cols,
        from + count <= text@.len(),
        style@.text is None,
    ensures
        final(buffer).wf(),
        final(buffer)@ == old(buffer)@.with_cells(
            row as int,
            run_in_row(
                old(buffer)@.rows[row as int].cells,
                col as int,
                run_glyphs(text@, from as int, count as int, style@),
            ),
        ),
{
    reveal(run_in_row);
    let ghost start = buffer@;
    let ghost cells = start.rows[row as int].cells;
    proof {
        buffer.lemma_shape();
    }
    let total: usize = text.len();
    clear_wide_overlap(buffer, row, col, 1);
    if count > 1 {
        clear_wide_overlap(buffer, row, col + count - 1, 1);
    }
    let ghost cleared = buffer@.rows[row as int].cells;
    let ghost last = col + count - 1;
    let mut i: usize = 0;
    proof {
        buffer.lemma_shape();
        let left = overlap_cleared(cells, col as int, col + 1);
        assert(cleared == if count > 1 { overlap_cleared(left, last, last + 1) } else { left });
        assert(buffer@ =~~= start.with_cells(
            row as int,
            Seq::new(
                cells.len(),
                |j: int|
                    if col <= j < col + i {
                        CellView { c: text@[from + j - col] as char, ..style@ }
                    } else {
                        cleared[j]
                    },
            ),
        ));
    }
    while i < count
        invariant
            i <= count,
            buffer.wf(),
            row < start.rows.len(),
            start.shaped(),
            cells == start.rows[row as int].cells,
            cleared.len() == cells.len(),
            col + count <= start.cols,
            start.cols <= usize::MAX,
            from + count <= total,
            total == text@.len(),
            style@.text is None,
            buffer@ == start.with_cells(
                row as int,
                Seq::new(
                    cells.len(),
                    |j: int|
                        if col <= j < col + i {
                            CellView { c: text@[from + j - col] as char, ..style@ }
                        } else {
                            cleared[j]
                        },
                ),
            ),
        decreases count - i,
    {
        let mut cell: Cell = style.clone();
        cell.c = text[from + i] as char;
        *buffer.cell_mut(row, col + i) = cell;
        i += 1;
        proof {
            assert(buffer@ =~~= start.with_cells(
                row as int,
                Seq::new(
                    cells.len(),
                    |j: int|
                        if col <= j < col + i {
                            CellView { c: text@[from + j - col] as char, ..style@ }
                        } else {
                            cleared[j]
                        },
                ),
            ));
        }
    }
    proof {
        assert(buffer@ =~~= start.with_cells(
            row as int,
            run_in_row(
                cells,
                col as int,
                run_glyphs(text@, from as int, count as int, style@),
            ),
        ));
    }
}

/// The text that a `Cow` holds.
fn cow_text<'a>(text: &'a Cow<'a, str>) -> (r: &'a str)
    ensures
        r@ == text@,
{
    match text {
        Cow::Borrowed(text) => text,
        Cow::Owned(text) => text.as_str(),
    }
}

/// A content length is a `usize`, as the written length and the row are.
proof fn lemma_content_len_fits(row: RowView)
    requires
        row.cells.len() <= usize::MAX,
    ensures
        0 <= row.content_len() <= usize::MAX,
        row.content_metadata().len == row.content_len(),
{
    lemma_content_end(row.cells);
}

/// Replace a glyph of `old_width` columns by one of `new_width` columns.
fn replace_cells(
    buffer: &mut Buffer,
    row: usize,
    col: usize,
    cell: Cell,
    old_width: usize,
    new_width: usize,
    blank: Cell,
)
    requires
        old(buffer).wf(),
        row < old(buffer)@.rows.len(),
        col + new_width <= old(buffer)@.cols,
        1 <= old_width <= 2,
        1 <= new_width <= 2,
        blank@.flags.bits == 0,
    ensures
        final(buffer).wf(),
        ({
            let before = old(buffer)@.rows[row as int];
            let cells = glyph_in_row(
                before.cells,
                col as int,
                cell@,
                new_width == 2,
                new_width as int,
                false,
                blank@,
            );
            let replaced = old(buffer)@.with_cells(row as int, cells);
            let shrinks = new_width < old_width && before.content_len() == col + old_width;
            let cut = replaced.with_metadata(
                row as int,
                if shrinks {
                    RowMetadata {
                        len: (col + new_width) as usize,
                        wrapped: before.metadata.wrapped,
                    }
                } else {
                    before.metadata
                },
            );
            final(buffer)@ == cut.written(row as int, col + new_width)
        }),
{
    let ghost start = buffer@;
    let ghost before = start.rows[row as int];
    let previous: RowMetadata = buffer.row_metadata(row);
    proof {
        buffer.lemma_shape();
        lemma_content_len_fits(before);
    }
    write_scalar_cells(buffer, row, col, new_width, cell, new_width == 2, false, blank);
    let ghost replaced = buffer@;
    if new_width < old_width && previous.len >= col && previous.len - col
        == old_width {
        buffer.set_row_metadata(
            row,
            RowMetadata { len: col + new_width, wrapped: previous.wrapped },
        );
    } else {
        proof {
            assert(replaced =~~= replaced.with_metadata(row as int, before.metadata));
        }
    }
    buffer.mark_written(row, col + new_width);
}

/// A soft wrap moves the cursor to the first column and keeps the size of the
/// screen, the pen and the modes.
pub proof fn lemma_soft_wrap_frame(grid: GridView)
    requires
        grid.valid(),
    ensures
        ({
            let next = grid.soft_wrapped();
            &&& next.cols() == grid.cols()
            &&& next.rows() == grid.rows()
            &&& next.pen == grid.pen
            &&& next.modes == grid.modes
            &&& next.cursor_col == 0
            &&& 0 <= next.cursor_row < next.rows()
            &&& !next.wrap_pending
            &&& grid.total_lines <= next.total_lines <= grid.total_lines + 1
        }),
{
    let marked = grid.with_line_wrapped(true).at_line_start();
    assert(marked.valid());
    lemma_line_advanced_frame(marked);
}

/// Write a glyph over `advance` columns of a row, or insert it before them.
fn write_scalar_cells(
    buffer: &mut Buffer,
    row: usize,
    col: usize,
    advance: usize,
    glyph: Cell,
    wide: bool,
    insert: bool,
    blank: Cell,
)
    requires
        old(buffer).wf(),
        row < old(buffer)@.rows.len(),
        col < old(buffer)@.cols,
        1 <= advance <= old(buffer)@.cols,
        blank@.flags.bits == 0,
    ensures
        final(buffer).wf(),
        final(buffer)@ == old(buffer)@.with_cells(
            row as int,
            glyph_in_row(
                old(buffer)@.rows[row as int].cells,
                col as int,
                glyph@,
                wide,
                advance as int,
                insert,
                blank@,
            ),
        ),
{
    reveal(glyph_in_row);
    proof {
        buffer.lemma_shape();
    }
    let ghost start = buffer@;
    let ghost cells = start.rows[row as int].cells;
    if insert {
        shift_cells_right(buffer, row, col, advance);
        let ghost shifted = shifted_right(cells, col as int, advance as int);
        write_cell_halves(buffer, row, col, glyph, wide, blank.clone());
        proof {
            assert(buffer@ =~= start.with_cells(
                row as int,
                with_halves(shifted, col as int, glyph@, wide, blank@),
            ));
            lemma_half_flags(blank@.flags);
        }
        repair_wide_buffer_row(buffer, row, &blank);
        proof {
            assert(buffer@ =~= start.with_cells(
                row as int,
                repaired(with_halves(shifted, col as int, glyph@, wide, blank@), blank@),
            ));
        }
    } else {
        clear_wide_overlap(buffer, row, col, advance);
        let ghost cleared = overlap_cleared(cells, col as int, least(col + advance, start.cols));
        write_cell_halves(buffer, row, col, glyph, wide, blank.clone());
        proof {
            assert(buffer@ =~= start.with_cells(
                row as int,
                with_halves(cleared, col as int, glyph@, wide, blank@),
            ));
        }
    }
}

/// Write a glyph and its right half, which takes the place of `blank`.
fn write_cell_halves(
    buffer: &mut Buffer,
    row: usize,
    col: usize,
    cell: Cell,
    wide: bool,
    blank: Cell,
)
    requires
        old(buffer).wf(),
        row < old(buffer)@.rows.len(),
        col < old(buffer)@.cols,
    ensures
        final(buffer).wf(),
        final(buffer)@ == old(buffer)@.with_cells(
            row as int,
            with_halves(old(buffer)@.rows[row as int].cells, col as int, cell@, wide, blank@),
        ),
{
    let mut right: Cell = blank;
    right.c = '\0';
    right.flags = CellFlags::from_bits(CellFlags::WIDE_CONT);
    let cols: usize = buffer.cols();
    proof {
        buffer.lemma_shape();
    }
    let ghost before = buffer@;
    *buffer.cell_mut(row, col) = cell;
    if wide && col + 1 < cols {
        *buffer.cell_mut(row, col + 1) = right;
    }
    proof {
        assert(buffer@ =~~= before.with_cells(
            row as int,
            with_halves(before.rows[row as int].cells, col as int, cell@, wide, blank@),
        ));
    }
}

/// Move the cells of a row from `col` on right by `shift`.
fn shift_cells_right(buffer: &mut Buffer, row: usize, col: usize, shift: usize)
    requires
        old(buffer).wf(),
        row < old(buffer)@.rows.len(),
        col < old(buffer)@.cols,
        1 <= shift <= old(buffer)@.cols,
    ensures
        final(buffer).wf(),
        final(buffer)@ == old(buffer)@.with_cells(
            row as int,
            shifted_right(old(buffer)@.rows[row as int].cells, col as int, shift as int),
        ),
{
    proof {
        buffer.lemma_shape();
    }
    let ghost start = buffer@;
    let ghost cells = start.rows[row as int].cells;
    let cols: usize = buffer.cols();
    let mut at: usize = cols;
    proof {
        assert(buffer@ =~~= start.with_cells(
            row as int,
            Seq::new(
                cells.len(),
                |i: int| if i >= at && i >= col + shift { cells[i - shift] } else { cells[i] },
            ),
        ));
    }
    while at > col + shift
        invariant
            buffer.wf(),
            row < start.rows.len(),
            start.shaped(),
            cols == start.cols,
            cols <= usize::MAX / 2,
            cells == start.rows[row as int].cells,
            at <= cols,
            col < cols,
            1 <= shift <= cols,
            buffer@ == start.with_cells(
                row as int,
                Seq::new(
                    cells.len(),
                    |i: int| if i >= at && i >= col + shift { cells[i - shift] } else { cells[i] },
                ),
            ),
        decreases at,
    {
        at -= 1;
        let source: Cell = buffer.cell(row, at - shift).clone();
        *buffer.cell_mut(row, at) = source;
        proof {
            assert(buffer@ =~~= start.with_cells(
                row as int,
                Seq::new(
                    cells.len(),
                    |i: int| if i >= at && i >= col + shift { cells[i - shift] } else { cells[i] },
                ),
            ));
        }
    }
    proof {
        assert(buffer@ =~~= start.with_cells(
            row as int,
            shifted_right(cells, col as int, shift as int),
        ));
    }
}

} // verus!
