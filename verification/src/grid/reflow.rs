//! Repacking of retained rows for another screen width.
use crate::grid::buffer::{cell_views, RowMetadata, RowView};
use crate::grid::cell::{Cell, CellFlags, CellView};
use crate::grid::history::clone_cells;
use vstd::prelude::*;

verus! {

/// A row that owns its cells.
#[derive(Debug)]
pub struct RetainedRow {
    pub cells: Vec<Cell>,
    pub metadata: RowMetadata,
}

impl View for RetainedRow {
    type V = RowView;

    open spec fn view(&self) -> RowView {
        RowView { cells: cell_views(self.cells@), metadata: self.metadata }
    }
}

/// What each row of a sequence shows.
pub open spec fn row_views(rows: Seq<RetainedRow>) -> Seq<RowView> {
    Seq::new(rows.len(), |i: int| rows[i]@)
}

/// `count` copies of a cell.
pub(crate) fn filled_cells(count: usize, cell: &Cell) -> (r: Vec<Cell>)
    ensures
        r@.len() == count,
        forall|i: int| 0 <= i < count ==> (#[trigger] r@[i])@ == cell@,
        cell_views(r@) == Seq::new(count as nat, |i: int| cell@),
{
    let mut cells: Vec<Cell> = Vec::with_capacity(count);
    let mut i: usize = 0;
    while i < count
        invariant
            i <= count,
            cells@.len() == i,
            forall|j: int| 0 <= j < i ==> (#[trigger] cells@[j])@ == cell@,
        decreases count - i,
    {
        cells.push(cell.clone());
        i += 1;
    }
    proof {
        assert(cell_views(cells@) =~= Seq::new(count as nat, |i: int| cell@));
    }
    cells
}

impl RetainedRow {
    pub fn blank(cols: usize) -> (r: RetainedRow)
        ensures
            r@ == RowView::filled(cols as int, CellView::default_cell()),
    {
        RetainedRow {
            cells: filled_cells(cols, &Cell::default()),
            metadata: RowMetadata::default(),
        }
    }
}

impl Clone for RetainedRow {
    fn clone(&self) -> (r: RetainedRow)
        ensures
            r@ == self@,
    {
        RetainedRow { cells: clone_cells(&self.cells), metadata: self.metadata }
    }
}

/// A cursor in a sequence of rows. A pending cursor has written its column and
/// wraps before the next glyph. The last field holds a row that was chosen
/// outside the screen.
#[derive(Clone, Copy, Debug, PartialEq, Eq, Structural)]
pub struct Cursor {
    pub row: usize,
    pub col: usize,
    pub pending: bool,
    pub retained_row: Option<usize>,
}

/// Rows of the new width, and the cursors in them.
#[derive(Debug)]
pub struct Reflow {
    pub rows: Vec<RetainedRow>,
    pub cursors: Vec<Cursor>,
}

/// The output while it is written: the next glyph goes to column `col` of the
/// last row.
#[verifier::ext_equal]
pub ghost struct Sheet {
    pub rows: Seq<RowView>,
    pub col: int,
}

/// The output together with the place that each column of the current source
/// row has got.
#[verifier::ext_equal]
pub ghost struct Packing {
    pub sheet: Sheet,
    pub positions: Seq<(int, int)>,
}

/// The first cell of a glyph in its new place. Its wide mark follows from the
/// natural width of the glyph.
pub open spec fn packed_leader(cell: CellView) -> CellView {
    let plain = cell.flags.without(CellFlags::WIDE | CellFlags::WIDE_CONT);
    CellView {
        flags: if cell.columns() == 2 { plain.with(CellFlags::WIDE) } else { plain },
        ..cell
    }
}

/// The second cell of a two-column glyph.
pub open spec fn packed_continuation(cell: CellView) -> CellView {
    CellView { c: '\0', text: None, flags: CellFlags { bits: CellFlags::WIDE_CONT }, ..cell }
}

/// The columns that a glyph takes on a screen of width `cols`.
pub open spec fn packed_width(cell: CellView, cols: int) -> int {
    if cell.columns() < cols { cell.columns() } else { cols }
}

/// The columns that a glyph took in its source row.
pub open spec fn source_width(cells: Seq<CellView>, at: int) -> int {
    if cells[at].wide() && at + 1 < cells.len() && cells[at + 1].continuation() { 2 } else { 1 }
}

/// The columns from one source cell to the next one to look at.
pub open spec fn source_step(cells: Seq<CellView>, at: int) -> int {
    if cells[at].continuation() { 1 } else { source_width(cells, at) }
}

impl Sheet {
    pub open spec fn fresh(cols: int) -> Sheet {
        Sheet { rows: seq![RowView::filled(cols, CellView::default_cell())], col: 0 }
    }

    pub open spec fn here(self) -> (int, int) {
        (self.rows.len() - 1, self.col)
    }

    /// Go on in a new row that continues the logical line.
    pub open spec fn soft_break(self, cols: int) -> Sheet {
        let last = self.rows.last();
        Sheet {
            rows: self.rows.update(
                self.rows.len() - 1,
                RowView { metadata: RowMetadata { wrapped: true, ..last.metadata }, ..last },
            ),
            ..self
        }.hard_break(cols)
    }

    /// Go on in a new row that starts a logical line.
    pub open spec fn hard_break(self, cols: int) -> Sheet {
        Sheet {
            rows: self.rows.push(RowView::filled(cols, CellView::default_cell())),
            col: 0,
        }
    }

    /// The output with room for the glyph in its last row.
    pub open spec fn with_room(self, cell: CellView, cols: int) -> Sheet {
        if self.col + packed_width(cell, cols) > cols { self.soft_break(cols) } else { self }
    }

    /// The output after a glyph is written into its last row. The written
    /// length follows if the glyph counts as content.
    pub open spec fn placed(self, cell: CellView, cols: int, counts: bool) -> Sheet {
        let last = self.rows.last();
        let led = last.cells.update(self.col, packed_leader(cell));
        let width = packed_width(cell, cols);
        let cells = if width == 2 { led.update(self.col + 1, packed_continuation(cell)) } else { led };
        let end = self.col + width;
        Sheet {
            rows: self.rows.update(
                self.rows.len() - 1,
                RowView {
                    cells,
                    metadata: if counts {
                        RowMetadata { len: end as usize, ..last.metadata }
                    } else {
                        last.metadata
                    },
                },
            ),
            col: end,
        }
    }

    /// The last row has the width of the screen.
    pub open spec fn valid(self, cols: int) -> bool {
        &&& self.rows.len() > 0
        &&& 0 <= self.col <= cols
        &&& forall|i: int|
            0 <= i < self.rows.len() ==> (#[trigger] self.rows[i]).cells.len() == cols
    }
}

/// Pack the source cell at column `at`. Continuation cells are layout, not
/// content, and leave no trace.
pub open spec fn pack_glyph(
    packing: Packing,
    cells: Seq<CellView>,
    written: int,
    cols: int,
    at: int,
) -> Packing {
    let cell = cells[at];
    if cell.continuation() {
        packing
    } else {
        let roomy = packing.sheet.with_room(cell, cols);
        let place = roomy.here();
        let sheet = roomy.placed(cell, cols, at < written);
        let started = packing.positions.update(at, place);
        let inside = if source_width(cells, at) == 2 {
            started.update(
                at + 1,
                (place.0, place.1 + if packed_width(cell, cols) == 2 { 1int } else { 0 }),
            )
        } else {
            started
        };
        Packing { sheet, positions: inside.update(at + source_width(cells, at), sheet.here()) }
    }
}

/// Pack the source cells from column `at` up to column `len`.
pub open spec fn pack_cells(
    packing: Packing,
    cells: Seq<CellView>,
    written: int,
    cols: int,
    at: int,
    len: int,
) -> Packing
    decreases if at < len { len - at } else { 0 },
{
    if at >= len {
        packing
    } else {
        pack_cells(
            pack_glyph(packing, cells, written, cols, at),
            cells,
            written,
            cols,
            at + source_step(cells, at),
            len,
        )
    }
}

/// The source column that a cursor stands before.
pub open spec fn cursor_col(cursor: Cursor, width: int) -> int {
    let col = if cursor.pending { cursor.col + 1 } else { cursor.col as int };
    if col < width { col } else { width }
}

/// The number of source columns to pack: the written ones, and those before
/// each cursor in the row.
pub open spec fn packed_len(row: RowView, cursors: Seq<Cursor>, index: int) -> int
    decreases cursors.len(),
{
    let width = row.cells.len() as int;
    if cursors.len() == 0 {
        if row.metadata.len < width { row.metadata.len as int } else { width }
    } else {
        let others = packed_len(row, cursors.drop_last(), index);
        let cursor = cursors.last();
        if cursor.row == index && cursor_col(cursor, width) > others {
            cursor_col(cursor, width)
        } else {
            others
        }
    }
}

/// A cursor stands in the unused part of the row, directly behind what is
/// packed.
pub open spec fn cursor_behind(row: RowView, cursors: Seq<Cursor>, index: int, len: int) -> bool {
    len < row.cells.len() && exists|i: int|
        0 <= i < cursors.len() && (#[trigger] cursors[i]).row == index && !cursors[i].pending
            && cursors[i].col == len
}

/// The output and the cursors after source row `index`.
pub open spec fn pack_row(
    sheet: Sheet,
    mapped: Seq<Cursor>,
    source: Seq<RowView>,
    cursors: Seq<Cursor>,
    cols: int,
    index: int,
) -> (Sheet, Seq<Cursor>) {
    let row = source[index];
    let width = row.cells.len() as int;
    let len = packed_len(row, cursors, index);
    let start = Packing { sheet, positions: Seq::new((width + 1) as nat, |i: int| sheet.here()) };
    let packed = pack_cells(start, row.cells, row.metadata.len as int, cols, 0, len);
    let last = index + 1 >= source.len();
    // A cursor in the unused part of a line stays on that line when its new
    // place is the margin: an empty row continues the line.
    let settled = if !last && !row.metadata.wrapped && packed.sheet.col == cols && cursor_behind(
        row,
        cursors,
        index,
        len,
    ) {
        let broken = packed.sheet.soft_break(cols);
        Packing { sheet: broken, positions: packed.positions.update(len, broken.here()) }
    } else {
        packed
    };
    let moved = Seq::new(
        cursors.len(),
        |i: int|
            if cursors[i].row == index {
                let place = settled.positions[cursor_col(cursors[i], width)];
                Cursor {
                    row: place.0 as usize,
                    col: if place.1 < cols { place.1 as usize } else { (cols - 1) as usize },
                    pending: place.1 == cols,
                    retained_row: None,
                }
            } else {
                mapped[i]
            },
    );
    if !row.metadata.wrapped && !last {
        (settled.sheet.hard_break(cols), moved)
    } else {
        (settled.sheet, moved)
    }
}

/// The output and the cursors after the source rows from `index` on.
pub open spec fn pack_rows(
    sheet: Sheet,
    mapped: Seq<Cursor>,
    source: Seq<RowView>,
    cursors: Seq<Cursor>,
    cols: int,
    index: int,
) -> (Sheet, Seq<Cursor>)
    decreases source.len() - index,
{
    if index >= source.len() {
        (sheet, mapped)
    } else {
        let (next, moved) = pack_row(sheet, mapped, source, cursors, cols, index);
        pack_rows(next, moved, source, cursors, cols, index + 1)
    }
}

/// The repacked rows and the cursors in them.
pub open spec fn repacked(source: Seq<RowView>, cols: int, cursors: Seq<Cursor>) -> (
    Seq<RowView>,
    Seq<Cursor>,
) {
    let home = Cursor { row: 0, col: 0, pending: false, retained_row: None };
    let (sheet, mapped) = pack_rows(
        Sheet::fresh(cols),
        Seq::new(cursors.len(), |i: int| home),
        source,
        cursors,
        cols,
        0,
    );
    (sheet.rows, mapped)
}

/// What a glyph shows, without the marks that depend on its place.
pub open spec fn glyph_of(cell: CellView) -> CellView {
    CellView { flags: cell.flags.without(CellFlags::WIDE | CellFlags::WIDE_CONT), ..cell }
}

/// The glyphs in the first `len` cells of a row.
pub open spec fn glyphs_in(cells: Seq<CellView>, len: int) -> Seq<CellView>
    decreases len,
{
    if len <= 0 {
        Seq::empty()
    } else if cells[len - 1].continuation() {
        glyphs_in(cells, len - 1)
    } else {
        glyphs_in(cells, len - 1).push(glyph_of(cells[len - 1]))
    }
}

/// The glyphs in the written part of a row.
pub open spec fn row_glyphs(row: RowView) -> Seq<CellView> {
    glyphs_in(
        row.cells,
        if row.metadata.len < row.cells.len() {
            row.metadata.len as int
        } else {
            row.cells.len() as int
        },
    )
}

pub open spec fn extend_last(lines: Seq<Seq<CellView>>, glyphs: Seq<CellView>) -> Seq<
    Seq<CellView>,
> {
    lines.update(lines.len() - 1, lines.last() + glyphs)
}

/// The logical lines of a sequence of rows: a wrapped row continues in the
/// next one.
pub open spec fn logical_lines(rows: Seq<RowView>) -> Seq<Seq<CellView>>
    decreases rows.len(),
{
    if rows.len() == 0 {
        Seq::empty()
    } else {
        let before = logical_lines(rows.drop_last());
        let glyphs = row_glyphs(rows.last());
        if rows.len() >= 2 && rows[rows.len() - 2].metadata.wrapped {
            extend_last(before, glyphs)
        } else {
            before.push(glyphs)
        }
    }
}

/// No cursor stands to the right of the written part of its row.
pub open spec fn cursors_within(rows: Seq<RowView>, cursors: Seq<Cursor>) -> bool {
    forall|i: int, k: int|
        0 <= i < cursors.len() && 0 <= k < rows.len() && (#[trigger] cursors[i]).row == k
            ==> cursor_col(cursors[i], (#[trigger] rows[k]).cells.len() as int)
            <= rows[k].metadata.len
}

/// No cursor stands to the right of the written part of its row where the
/// line goes on in the next row.
pub open spec fn cursors_in_lines(rows: Seq<RowView>, cursors: Seq<Cursor>) -> bool {
    forall|i: int, k: int|
        0 <= i < cursors.len() && 0 <= k < rows.len() - 1 && (#[trigger] cursors[i]).row == k && (
        #[trigger] rows[k]).metadata.wrapped ==> cursor_col(cursors[i], rows[k].cells.len() as int)
            <= rows[k].metadata.len
}

proof fn lemma_glyphs_agree(left: Seq<CellView>, right: Seq<CellView>, len: int)
    requires
        forall|i: int| 0 <= i < len ==> left[i] == right[i],
    ensures
        glyphs_in(left, len) == glyphs_in(right, len),
    decreases len,
{
    if len > 0 {
        lemma_glyphs_agree(left, right, len - 1);
    }
}

pub proof fn lemma_packed_flags(cell: CellView)
    ensures
        glyph_of(packed_leader(cell)) == glyph_of(cell),
        !packed_leader(cell).continuation(),
        packed_continuation(cell).continuation(),
{
    let bits = cell.flags.bits;
    assert((bits & !(16u8 | 32u8)) & !(16u8 | 32u8) == bits & !(16u8 | 32u8)) by (bit_vector);
    assert(((bits & !(16u8 | 32u8)) | 16u8) & !(16u8 | 32u8) == bits & !(16u8 | 32u8))
        by (bit_vector);
    assert((bits & !(16u8 | 32u8)) & 32u8 != 32u8) by (bit_vector);
    assert(((bits & !(16u8 | 32u8)) | 16u8) & 32u8 != 32u8) by (bit_vector);
    assert(32u8 & 32u8 == 32u8) by (bit_vector);
}

pub proof fn lemma_lines_nonempty(rows: Seq<RowView>)
    requires
        rows.len() > 0,
    ensures
        logical_lines(rows).len() > 0,
    decreases rows.len(),
{
    if rows.len() >= 2 {
        lemma_lines_nonempty(rows.drop_last());
    }
}

/// The last row holds content up to the output column and continues nowhere
/// yet.
spec fn open_ended(sheet: Sheet, cols: int) -> bool {
    &&& sheet.valid(cols)
    &&& sheet.rows.last().metadata == RowMetadata { len: sheet.col as usize, wrapped: false }
}

proof fn lemma_soft_break_keeps_lines(sheet: Sheet, cols: int)
    requires
        0 < cols <= usize::MAX,
        sheet.valid(cols),
    ensures
        logical_lines(sheet.soft_break(cols).rows) == logical_lines(sheet.rows),
        open_ended(sheet.soft_break(cols), cols),
{
    let broken = sheet.soft_break(cols);
    let n = sheet.rows.len() as int;
    assert(broken.rows.drop_last().drop_last() =~= sheet.rows.drop_last());
    assert(broken.rows.drop_last().last().cells == sheet.rows.last().cells);
    assert(row_glyphs(broken.rows.last()) =~= Seq::<CellView>::empty());
    lemma_lines_nonempty(sheet.rows);
    assert(broken.rows[n - 1].metadata.wrapped);
    if n >= 2 {
        assert(broken.rows.drop_last()[n - 2] == sheet.rows[n - 2]);
    }
    assert(logical_lines(broken.rows.drop_last()) == logical_lines(sheet.rows));
    let lines = logical_lines(sheet.rows);
    assert(extend_last(lines, Seq::empty()) =~= lines) by {
        assert(lines.last() + Seq::<CellView>::empty() =~= lines.last());
    }
}

proof fn lemma_hard_break_opens_line(sheet: Sheet, cols: int)
    requires
        0 < cols <= usize::MAX,
        sheet.valid(cols),
        !sheet.rows.last().metadata.wrapped,
    ensures
        logical_lines(sheet.hard_break(cols).rows) == logical_lines(sheet.rows).push(Seq::empty()),
        open_ended(sheet.hard_break(cols), cols),
{
    let broken = sheet.hard_break(cols);
    assert(broken.rows.drop_last() =~= sheet.rows);
    assert(row_glyphs(broken.rows.last()) =~= Seq::<CellView>::empty());
}

proof fn lemma_glyph_extends_line(sheet: Sheet, cell: CellView, cols: int)
    requires
        0 < cols <= usize::MAX,
        open_ended(sheet, cols),
    ensures
        ({
            let after = sheet.with_room(cell, cols).placed(cell, cols, true);
            &&& open_ended(after, cols)
            &&& logical_lines(after.rows) == extend_last(
                logical_lines(sheet.rows),
                seq![glyph_of(cell)],
            )
        }),
{
    let roomy = sheet.with_room(cell, cols);
    if sheet.col + packed_width(cell, cols) > cols {
        lemma_soft_break_keeps_lines(sheet, cols);
    }
    let after = roomy.placed(cell, cols, true);
    let n = roomy.rows.len() as int;
    let width = packed_width(cell, cols);
    let before_row = roomy.rows.last();
    let after_row = after.rows.last();
    assert(after_row.cells.len() == cols);
    assert forall|i: int| 0 <= i < after.rows.len() implies (
    #[trigger] after.rows[i]).cells.len() == cols by {
        assert(roomy.rows[i].cells.len() == cols);
    }
    lemma_packed_flags(cell);
    lemma_glyphs_agree(before_row.cells, after_row.cells, roomy.col);
    assert(glyphs_in(after_row.cells, roomy.col + 1) == glyphs_in(before_row.cells, roomy.col).push(
        glyph_of(cell),
    ));
    if width == 2 {
        assert(after_row.cells[roomy.col + 1] == packed_continuation(cell));
        assert(glyphs_in(after_row.cells, roomy.col + 2) == glyphs_in(
            after_row.cells,
            roomy.col + 1,
        ));
    }
    assert(row_glyphs(after_row) == row_glyphs(before_row).push(glyph_of(cell)));
    assert(after.rows.drop_last() =~= roomy.rows.drop_last());
    if n >= 2 {
        assert(after.rows[n - 2] == roomy.rows[n - 2]);
        lemma_lines_nonempty(roomy.rows.drop_last());
    }
    lemma_lines_nonempty(roomy.rows);
    let lines = logical_lines(roomy.rows);
    assert(logical_lines(after.rows) =~= extend_last(lines, seq![glyph_of(cell)])) by {
        let held = row_glyphs(before_row);
        assert(held.push(glyph_of(cell)) =~= held + seq![glyph_of(cell)]);
        if n >= 2 && roomy.rows[n - 2].metadata.wrapped {
            let base = logical_lines(roomy.rows.drop_last());
            assert(base.last() + held.push(glyph_of(cell)) =~= (base.last() + held)
                + seq![glyph_of(cell)]);
        }
    }
}

/// What is behind the last row's content is not counted, and the row continues
/// nowhere yet.
spec fn calm(sheet: Sheet, cols: int) -> bool {
    &&& sheet.valid(cols)
    &&& sheet.rows.last().metadata.len <= sheet.col
    &&& !sheet.rows.last().metadata.wrapped
}

proof fn lemma_uncounted_glyph_keeps_lines(sheet: Sheet, cell: CellView, cols: int)
    requires
        0 < cols <= usize::MAX,
        calm(sheet, cols),
    ensures
        ({
            let after = sheet.with_room(cell, cols).placed(cell, cols, false);
            &&& calm(after, cols)
            &&& logical_lines(after.rows) == logical_lines(sheet.rows)
        }),
{
    let roomy = sheet.with_room(cell, cols);
    if sheet.col + packed_width(cell, cols) > cols {
        lemma_soft_break_keeps_lines(sheet, cols);
    }
    let after = roomy.placed(cell, cols, false);
    let n = roomy.rows.len() as int;
    let before_row = roomy.rows.last();
    let after_row = after.rows.last();
    assert forall|i: int| 0 <= i < after.rows.len() implies (
    #[trigger] after.rows[i]).cells.len() == cols by {
        assert(roomy.rows[i].cells.len() == cols);
    }
    lemma_glyphs_agree(before_row.cells, after_row.cells, before_row.metadata.len as int);
    assert(row_glyphs(after_row) == row_glyphs(before_row));
    assert(after.rows.drop_last() =~= roomy.rows.drop_last());
    if n >= 2 {
        assert(after.rows[n - 2] == roomy.rows[n - 2]);
    }
}

proof fn lemma_cells_extend_line(
    packing: Packing,
    lines: Seq<Seq<CellView>>,
    cells: Seq<CellView>,
    written: int,
    cols: int,
    at: int,
    len: int,
)
    requires
        0 < cols <= usize::MAX,
        calm(packing.sheet, cols),
        at <= written ==> open_ended(packing.sheet, cols),
        lines.len() > 0,
        0 <= at,
        0 <= written,
        0 <= len <= cells.len(),
        at <= len || (at == len + 1 && len < cells.len() && cells[len].continuation()),
        logical_lines(packing.sheet.rows) == extend_last(
            lines,
            glyphs_in(cells, if at < written { at } else { written }),
        ),
        at > written ==> written < cells.len(),
    ensures
        ({
            let sheet = pack_cells(packing, cells, written, cols, at, len).sheet;
            &&& calm(sheet, cols)
            &&& len <= written && at <= written ==> open_ended(sheet, cols)
            &&& logical_lines(sheet.rows) == extend_last(
                lines,
                glyphs_in(cells, if len < written { len } else { written }),
            )
        }),
    decreases if at < len { len - at } else { 0 },
{
    if at < len {
        let next = pack_glyph(packing, cells, written, cols, at);
        let cell = cells[at];
        let step = source_step(cells, at);
        if cell.continuation() {
            assert(glyphs_in(cells, at + 1) == glyphs_in(cells, at));
        } else if at < written {
            lemma_glyph_extends_line(packing.sheet, cell, cols);
            assert(glyphs_in(cells, at + 1) == glyphs_in(cells, at).push(glyph_of(cell)));
            if step == 2 {
                assert(glyphs_in(cells, at + 2) == glyphs_in(cells, at + 1));
            }
            let upto = if at + step < written { at + step } else { written };
            assert(extend_last(extend_last(lines, glyphs_in(cells, at)), seq![glyph_of(cell)])
                =~= extend_last(lines, glyphs_in(cells, upto))) by {
                assert((lines.last() + glyphs_in(cells, at)) + seq![glyph_of(cell)]
                    =~= lines.last() + glyphs_in(cells, upto));
            }
        } else {
            lemma_uncounted_glyph_keeps_lines(packing.sheet, cell, cols);
        }
        lemma_cells_extend_line(next, lines, cells, written, cols, at + step, len);
    } else if at == len + 1 {
        assert(glyphs_in(cells, len + 1) == glyphs_in(cells, len));
    }
}

pub proof fn lemma_packed_len_bounds(row: RowView, cursors: Seq<Cursor>, index: int)
    ensures
        packed_len(row, cursors, index) <= row.cells.len(),
        packed_len(row, cursors, index) >= row.metadata.len || packed_len(row, cursors, index)
            == row.cells.len(),
    decreases cursors.len(),
{
    if cursors.len() > 0 {
        lemma_packed_len_bounds(row, cursors.drop_last(), index);
    }
}

proof fn lemma_extent_without_cursors(row: RowView, cursors: Seq<Cursor>, index: int)
    requires
        forall|i: int|
            0 <= i < cursors.len() && (#[trigger] cursors[i]).row == index ==> cursor_col(
                cursors[i],
                row.cells.len() as int,
            ) <= row.metadata.len,
    ensures
        packed_len(row, cursors, index) == if row.metadata.len < row.cells.len() {
            row.metadata.len as int
        } else {
            row.cells.len() as int
        },
    decreases cursors.len(),
{
    if cursors.len() > 0 {
        assert forall|i: int|
            0 <= i < cursors.drop_last().len() && (#[trigger] cursors.drop_last()[i]).row
                == index implies cursor_col(cursors.drop_last()[i], row.cells.len() as int)
            <= row.metadata.len by {
            assert(cursors[i].row == index);
        }
        lemma_extent_without_cursors(row, cursors.drop_last(), index);
        assert(cursors[cursors.len() - 1] == cursors.last());
    }
}

/// The lines of the output while the source rows from `index` on are missing.
spec fn lines_before(source: Seq<RowView>, index: int) -> Seq<Seq<CellView>> {
    let done = logical_lines(source.subrange(0, index));
    if index > 0 && source[index - 1].metadata.wrapped { done } else { done.push(Seq::empty()) }
}

proof fn lemma_rows_keep_lines(
    sheet: Sheet,
    mapped: Seq<Cursor>,
    source: Seq<RowView>,
    cursors: Seq<Cursor>,
    cols: int,
    index: int,
)
    requires
        0 < cols <= usize::MAX,
        0 <= index < source.len(),
        cursors_in_lines(source, cursors),
        open_ended(sheet, cols),
        logical_lines(sheet.rows) == lines_before(source, index),
    ensures
        logical_lines(pack_rows(sheet, mapped, source, cursors, cols, index).0.rows)
            == logical_lines(source),
    decreases source.len() - index,
{
    let row = source[index];
    let width = row.cells.len() as int;
    let len = packed_len(row, cursors, index);
    lemma_packed_len_bounds(row, cursors, index);
    if row.metadata.wrapped && index + 1 < source.len() {
        lemma_extent_without_cursors(row, cursors, index);
    }
    let start = Packing { sheet, positions: Seq::new((width + 1) as nat, |i: int| sheet.here()) };
    let packed = pack_cells(start, row.cells, row.metadata.len as int, cols, 0, len);
    let lines = logical_lines(sheet.rows);
    lemma_lines_nonempty(sheet.rows);
    assert(extend_last(lines, Seq::empty()) =~= lines) by {
        assert(lines.last() + Seq::<CellView>::empty() =~= lines.last());
    }
    lemma_cells_extend_line(start, lines, row.cells, row.metadata.len as int, cols, 0, len);
    let (next, moved) = pack_row(sheet, mapped, source, cursors, cols, index);
    let upto = source.subrange(0, index + 1);
    assert(upto.drop_last() =~= source.subrange(0, index));
    assert(upto.last() == row);
    if index > 0 {
        assert(upto[upto.len() - 2] == source[index - 1]);
    }
    assert(extend_last(lines, row_glyphs(row)) =~= logical_lines(upto)) by {
        if !(index > 0 && source[index - 1].metadata.wrapped) {
            assert(Seq::<CellView>::empty() + row_glyphs(row) =~= row_glyphs(row));
            let done = logical_lines(source.subrange(0, index));
            assert(extend_last(done.push(Seq::empty()), row_glyphs(row)) =~= done.push(
                row_glyphs(row),
            ));
        }
    }
    let last = index + 1 >= source.len();
    let settled = if !last && !row.metadata.wrapped && packed.sheet.col == cols && cursor_behind(
        row,
        cursors,
        index,
        len,
    ) {
        lemma_soft_break_keeps_lines(packed.sheet, cols);
        packed.sheet.soft_break(cols)
    } else {
        packed.sheet
    };
    if last {
        assert(upto =~= source);
        assert(pack_rows(next, moved, source, cursors, cols, index + 1) == (next, moved));
    } else {
        if !row.metadata.wrapped {
            lemma_hard_break_opens_line(settled, cols);
        }
        lemma_rows_keep_lines(next, moved, source, cursors, cols, index + 1);
    }
}

/// Repacking keeps every logical line: the same glyphs in the same order, with
/// the same line ends. A cursor beyond the written part of a row that wraps is
/// left out: the columns before it become part of the line.
pub proof fn law_reflow_keeps_logical_lines(source: Seq<RowView>, cols: int, cursors: Seq<Cursor>)
    requires
        0 < cols <= usize::MAX,
        source.len() > 0,
        cursors_in_lines(source, cursors),
    ensures
        logical_lines(repacked(source, cols, cursors).0) == logical_lines(source),
{
    let sheet = Sheet::fresh(cols);
    let home = Cursor { row: 0, col: 0, pending: false, retained_row: None };
    assert(source.subrange(0, 0) =~= Seq::<RowView>::empty());
    assert(sheet.rows.drop_last() =~= Seq::<RowView>::empty());
    assert(row_glyphs(sheet.rows.last()) =~= Seq::<CellView>::empty());
    lemma_rows_keep_lines(
        sheet,
        Seq::new(cursors.len(), |i: int| home),
        source,
        cursors,
        cols,
        0,
    );
}

/// Behind its written length every row is blank, and the last row is written
/// up to the output column.
spec fn tidy(sheet: Sheet, cols: int) -> bool {
    &&& sheet.valid(cols)
    &&& rows_tidy(sheet.rows, cols)
    &&& forall|i: int|
        0 <= i < sheet.rows.len() ==> (#[trigger] sheet.rows[i]).metadata.len <= cols
    &&& sheet.rows.last().metadata.len == sheet.col
}

/// Behind its written length every row is blank.
pub open spec fn rows_tidy(rows: Seq<RowView>, cols: int) -> bool {
    forall|i: int, c: int|
        0 <= i < rows.len() && rows[i].metadata.len <= c < cols ==> #[trigger] rows[i].cells[c]
            == CellView::default_cell()
}

proof fn lemma_break_keeps_tidy(sheet: Sheet, cols: int)
    requires
        0 < cols <= usize::MAX,
        tidy(sheet, cols),
    ensures
        tidy(sheet.soft_break(cols), cols),
        tidy(sheet.hard_break(cols), cols),
{
    let soft = sheet.soft_break(cols);
    let hard = sheet.hard_break(cols);
    assert forall|i: int, c: int|
        0 <= i < soft.rows.len() && soft.rows[i].metadata.len <= c < cols implies #[trigger] soft.rows[i].cells[c]
        == CellView::default_cell() by {
        if i < sheet.rows.len() {
            assert(soft.rows[i].cells == sheet.rows[i].cells);
            assert(sheet.rows[i].cells[c] == CellView::default_cell());
        }
    }
    assert forall|i: int, c: int|
        0 <= i < hard.rows.len() && hard.rows[i].metadata.len <= c < cols implies #[trigger] hard.rows[i].cells[c]
        == CellView::default_cell() by {
        if i < sheet.rows.len() {
            assert(sheet.rows[i].cells[c] == CellView::default_cell());
        }
    }
    assert forall|i: int| 0 <= i < soft.rows.len() implies (#[trigger] soft.rows[i]).cells.len()
        == cols by {
        if i < sheet.rows.len() {
            assert(sheet.rows[i].cells.len() == cols);
        }
    }
    assert forall|i: int| 0 <= i < hard.rows.len() implies (#[trigger] hard.rows[i]).cells.len()
        == cols by {
        if i < sheet.rows.len() {
            assert(sheet.rows[i].cells.len() == cols);
        }
    }
}

proof fn lemma_glyph_keeps_tidy(sheet: Sheet, cell: CellView, cols: int)
    requires
        0 < cols <= usize::MAX,
        tidy(sheet, cols),
    ensures
        tidy(sheet.with_room(cell, cols).placed(cell, cols, true), cols),
{
    let roomy = sheet.with_room(cell, cols);
    if sheet.col + packed_width(cell, cols) > cols {
        lemma_break_keeps_tidy(sheet, cols);
    }
    let after = roomy.placed(cell, cols, true);
    assert forall|i: int| 0 <= i < after.rows.len() implies (#[trigger] after.rows[i]).cells.len()
        == cols by {
        assert(roomy.rows[i].cells.len() == cols);
    }
    assert forall|i: int, c: int|
        0 <= i < after.rows.len() && after.rows[i].metadata.len <= c
            < cols implies #[trigger] after.rows[i].cells[c] == CellView::default_cell() by {
        assert(roomy.rows[i].cells[c] == CellView::default_cell());
    }
}

proof fn lemma_cells_keep_tidy(
    packing: Packing,
    cells: Seq<CellView>,
    written: int,
    cols: int,
    at: int,
    len: int,
)
    requires
        0 < cols <= usize::MAX,
        tidy(packing.sheet, cols),
        0 <= at,
        len <= written,
    ensures
        tidy(pack_cells(packing, cells, written, cols, at, len).sheet, cols),
    decreases if at < len { len - at } else { 0 },
{
    if at < len {
        if !cells[at].continuation() {
            lemma_glyph_keeps_tidy(packing.sheet, cells[at], cols);
        }
        lemma_cells_keep_tidy(
            pack_glyph(packing, cells, written, cols, at),
            cells,
            written,
            cols,
            at + source_step(cells, at),
            len,
        );
    }
}

proof fn lemma_rows_keep_tidy(
    sheet: Sheet,
    mapped: Seq<Cursor>,
    source: Seq<RowView>,
    cursors: Seq<Cursor>,
    cols: int,
    index: int,
)
    requires
        0 < cols <= usize::MAX,
        0 <= index <= source.len(),
        cursors_within(source, cursors),
        tidy(sheet, cols),
    ensures
        tidy(pack_rows(sheet, mapped, source, cursors, cols, index).0, cols),
    decreases source.len() - index,
{
    if index < source.len() {
        let row = source[index];
        let width = row.cells.len() as int;
        let len = packed_len(row, cursors, index);
        lemma_extent_without_cursors(row, cursors, index);
        let start = Packing {
            sheet,
            positions: Seq::new((width + 1) as nat, |i: int| sheet.here()),
        };
        let packed = pack_cells(start, row.cells, row.metadata.len as int, cols, 0, len);
        lemma_cells_keep_tidy(start, row.cells, row.metadata.len as int, cols, 0, len);
        lemma_break_keeps_tidy(packed.sheet, cols);
        lemma_break_keeps_tidy(packed.sheet.soft_break(cols), cols);
        let (next, moved) = pack_row(sheet, mapped, source, cursors, cols, index);
        lemma_rows_keep_tidy(next, moved, source, cursors, cols, index + 1);
    }
}

/// Where no cursor stands beyond the written part of its row, the repacked rows
/// hold nothing behind their written lengths.
pub proof fn lemma_repacked_rows_are_tidy(
    source: Seq<RowView>,
    cols: int,
    cursors: Seq<Cursor>,
)
    requires
        0 < cols <= usize::MAX,
        cursors_within(source, cursors),
    ensures
        rows_tidy(repacked(source, cols, cursors).0, cols),
        forall|i: int|
            0 <= i < repacked(source, cols, cursors).0.len() ==> (#[trigger] repacked(
                source,
                cols,
                cursors,
            ).0[i]).cells.len() == cols,
        forall|i: int|
            0 <= i < repacked(source, cols, cursors).0.len() ==> (#[trigger] repacked(
                source,
                cols,
                cursors,
            ).0[i]).metadata.len <= cols,
{
    let home = Cursor { row: 0, col: 0, pending: false, retained_row: None };
    lemma_rows_keep_tidy(
        Sheet::fresh(cols),
        Seq::new(cursors.len(), |i: int| home),
        source,
        cursors,
        cols,
        0,
    );
}

/// Every place is a column of the output or the one behind its margin.
spec fn places_valid(positions: Seq<(int, int)>, cols: int) -> bool {
    forall|i: int| 0 <= i < positions.len() ==> 0 <= (#[trigger] positions[i]).1 <= cols
}

proof fn lemma_packed_cells_bound(
    packing: Packing,
    cells: Seq<CellView>,
    written: int,
    cols: int,
    at: int,
    len: int,
)
    requires
        cols > 0,
        packing.sheet.valid(cols),
        0 <= at,
        len <= cells.len(),
        places_valid(packing.positions, cols),
        packing.positions.len() == cells.len() + 1,
    ensures
        ({
            let packed = pack_cells(packing, cells, written, cols, at, len);
            let sheet = packed.sheet;
            &&& places_valid(packed.positions, cols)
            &&& packed.positions.len() == cells.len() + 1
            &&& sheet.valid(cols)
            &&& sheet.rows.len() <= packing.sheet.rows.len() + if at < len { len - at } else { 0 }
        }),
    decreases if at < len { len - at } else { 0 },
{
    if at < len {
        let next = pack_glyph(packing, cells, written, cols, at);
        if !cells[at].continuation() {
            lemma_placed_valid(packing.sheet, cells[at], cols, at < written);
            assert forall|i: int| 0 <= i < next.positions.len() implies 0 <= (
            #[trigger] next.positions[i]).1 <= cols by {
                assert(0 <= packing.positions[i].1 <= cols);
            }
        }
        lemma_packed_cells_bound(
            next,
            cells,
            written,
            cols,
            at + source_step(cells, at),
            len,
        );
    }
}

proof fn lemma_placed_valid(sheet: Sheet, cell: CellView, cols: int, counts: bool)
    requires
        cols > 0,
        sheet.valid(cols),
    ensures
        sheet.soft_break(cols).valid(cols),
        sheet.hard_break(cols).valid(cols),
        sheet.with_room(cell, cols).placed(cell, cols, counts).valid(cols),
        sheet.with_room(cell, cols).placed(cell, cols, counts).rows.len() <= sheet.rows.len() + 1,
{
    let broken = sheet.soft_break(cols);
    assert forall|i: int| 0 <= i < broken.rows.len() implies (
    #[trigger] broken.rows[i]).cells.len() == cols by {
        if i < sheet.rows.len() {
            assert(sheet.rows[i].cells.len() == cols);
        }
    }
    let hard = sheet.hard_break(cols);
    assert forall|i: int| 0 <= i < hard.rows.len() implies (#[trigger] hard.rows[i]).cells.len()
        == cols by {
        if i < sheet.rows.len() {
            assert(sheet.rows[i].cells.len() == cols);
        }
    }
    let roomy = sheet.with_room(cell, cols);
    let placed = roomy.placed(cell, cols, counts);
    assert forall|i: int| 0 <= i < placed.rows.len() implies (
    #[trigger] placed.rows[i]).cells.len() == cols by {
        assert(roomy.rows[i].cells.len() == cols);
    }
}

proof fn lemma_packed_len_bound(row: RowView, cursors: Seq<Cursor>, index: int)
    ensures
        0 <= packed_len(row, cursors, index) <= row.cells.len(),
    decreases cursors.len(),
{
    if cursors.len() > 0 {
        lemma_packed_len_bound(row, cursors.drop_last(), index);
    }
}

proof fn lemma_packed_rows_bound(
    sheet: Sheet,
    mapped: Seq<Cursor>,
    source: Seq<RowView>,
    cursors: Seq<Cursor>,
    cols: int,
    index: int,
    width: int,
)
    requires
        cols > 0,
        cols <= usize::MAX,
        0 <= index <= source.len(),
        sheet.valid(cols),
        mapped.len() == cursors.len(),
        forall|i: int| 0 <= i < mapped.len() ==> (#[trigger] mapped[i]).col < cols,
        forall|i: int| 0 <= i < source.len() ==> (#[trigger] source[i]).cells.len() <= width,
    ensures
        ({
            let (end, moved) = pack_rows(sheet, mapped, source, cursors, cols, index);
            &&& end.valid(cols)
            &&& end.rows.len() <= sheet.rows.len() + (source.len() - index) * (width + 2)
            &&& moved.len() == cursors.len()
            &&& forall|i: int| 0 <= i < moved.len() ==> (#[trigger] moved[i]).col < cols
        }),
    decreases source.len() - index,
{
    if index < source.len() {
        let row = source[index];
        let len = packed_len(row, cursors, index);
        lemma_packed_len_bound(row, cursors, index);
        let start = Packing {
            sheet,
            positions: Seq::new((row.cells.len() + 1) as nat, |i: int| sheet.here()),
        };
        lemma_packed_cells_bound(start, row.cells, row.metadata.len as int, cols, 0, len);
        let packed = pack_cells(start, row.cells, row.metadata.len as int, cols, 0, len);
        lemma_placed_valid(packed.sheet, CellView::default_cell(), cols, false);
        lemma_placed_valid(
            packed.sheet.soft_break(cols),
            CellView::default_cell(),
            cols,
            false,
        );
        let (next, moved) = pack_row(sheet, mapped, source, cursors, cols, index);
        assert(next.rows.len() <= sheet.rows.len() + width + 2);
        let width_of_row = row.cells.len() as int;
        let broken = packed.sheet.soft_break(cols);
        let reserved = packed.positions.update(len, broken.here());
        assert forall|i: int| 0 <= i < reserved.len() implies 0 <= (#[trigger] reserved[i]).1
            <= cols by {
            assert(0 <= packed.positions[i].1 <= cols);
        }
        assert forall|i: int| 0 <= i < moved.len() implies (#[trigger] moved[i]).col < cols by {
            assert(mapped[i].col < cols);
            let at = cursor_col(cursors[i], width_of_row);
            assert(0 <= packed.positions[at].1 <= cols);
            assert(0 <= reserved[at].1 <= cols);
        }
        lemma_packed_rows_bound(next, moved, source, cursors, cols, index + 1, width);
        assert((source.len() - index) * (width + 2) == (source.len() - (index + 1)) * (width + 2)
            + (width + 2)) by (nonlinear_arith);
    } else {
        assert((source.len() - index) * (width + 2) == 0) by (nonlinear_arith)
            requires
                source.len() == index,
        ;
    }
}

/// Repacking rows without a cursor gives the same lines at any two widths, in
/// rows of the new width that are written no further than that.
pub proof fn law_reflow_widths_agree(source: Seq<RowView>, first: int, second: int)
    requires
        0 < first <= usize::MAX,
        0 < second <= usize::MAX,
    ensures
        ({
            let narrow = repacked(source, first, Seq::empty()).0;
            let wide = repacked(source, second, Seq::empty()).0;
            &&& logical_lines(narrow) == logical_lines(wide)
            &&& forall|i: int| 0 <= i < narrow.len() ==> (#[trigger] narrow[i]).cells.len() == first
            &&& forall|i: int|
                0 <= i < narrow.len() ==> (#[trigger] narrow[i]).metadata.len <= first
        }),
{
    let cursors = Seq::<Cursor>::empty();
    lemma_repacked_rows_are_tidy(source, first, cursors);
    if source.len() > 0 {
        law_reflow_keeps_logical_lines(source, first, cursors);
        law_reflow_keeps_logical_lines(source, second, cursors);
    } else {
        let narrow = Sheet::fresh(first).rows;
        let wide = Sheet::fresh(second).rows;
        assert(repacked(source, first, cursors).0 == narrow);
        assert(repacked(source, second, cursors).0 == wide);
        assert(row_glyphs(narrow.last()) =~= row_glyphs(wide.last()));
        assert(narrow.drop_last() =~= Seq::<RowView>::empty());
        assert(wide.drop_last() =~= Seq::<RowView>::empty());
    }
}

/// Repacking gives rows of the new width, at most one for each source cell and
/// two for each source row besides the first, and cursors inside their rows.
pub proof fn law_reflow_size(source: Seq<RowView>, cols: int, cursors: Seq<Cursor>, width: int)
    requires
        0 < cols <= usize::MAX,
        forall|i: int| 0 <= i < source.len() ==> (#[trigger] source[i]).cells.len() <= width,
    ensures
        ({
            let (rows, mapped) = repacked(source, cols, cursors);
            &&& rows.len() >= 1
            &&& rows.len() <= 1 + source.len() * (width + 2)
            &&& forall|i: int| 0 <= i < rows.len() ==> (#[trigger] rows[i]).cells.len() == cols
            &&& mapped.len() == cursors.len()
            &&& forall|i: int| 0 <= i < mapped.len() ==> (#[trigger] mapped[i]).col < cols
        }),
{
    let home = Cursor { row: 0, col: 0, pending: false, retained_row: None };
    lemma_packed_rows_bound(
        Sheet::fresh(cols),
        Seq::new(cursors.len(), |i: int| home),
        source,
        cursors,
        cols,
        0,
        width,
    );
}

/// What the rows written so far show.
pub open spec fn sheet_of(rows: Seq<RetainedRow>, col: int) -> Sheet {
    Sheet { rows: row_views(rows), col }
}

spec fn place_views(positions: Seq<(usize, usize)>) -> Seq<(int, int)> {
    Seq::new(positions.len(), |i: int| (positions[i].0 as int, positions[i].1 as int))
}

/// Repack complete logical lines, preserving printed spaces and complete
/// glyphs. Padding before a wrapped wide glyph and continuation cells are
/// layout, not content.
pub fn reflow(source: &[RetainedRow], cols: usize, cursors: &[Cursor]) -> (r: Reflow)
    requires
        cols > 0,
        forall|i: int| 0 <= i < source@.len() ==> (#[trigger] source@[i]).cells@.len() < usize::MAX,
    ensures
        (row_views(r.rows@), r.cursors@) == repacked(row_views(source@), cols as int, cursors@),
{
    let mut rows: Vec<RetainedRow> = Vec::new();
    rows.push(RetainedRow::blank(cols));
    let mut mapped: Vec<Cursor> = Vec::new();
    let mut i: usize = 0;
    let home: Cursor = Cursor { row: 0, col: 0, pending: false, retained_row: None };
    while i < cursors.len()
        invariant
            i <= cursors@.len(),
            mapped@ == Seq::new(i as nat, |j: int| home),
        decreases cursors@.len() - i,
    {
        mapped.push(home);
        i += 1;
        proof {
            assert(mapped@ =~= Seq::new(i as nat, |j: int| home));
        }
    }
    let mut out_col: usize = 0;
    let mut source_row: usize = 0;
    let ghost views = row_views(source@);
    proof {
        assert(row_views(rows@) =~= Sheet::fresh(cols as int).rows);
    }
    while source_row < source.len()
        invariant
            cols > 0,
            source_row <= source@.len(),
            views == row_views(source@),
            forall|i: int|
                0 <= i < source@.len() ==> (#[trigger] source@[i]).cells@.len() < usize::MAX,
            mapped@.len() == cursors@.len(),
            sheet_of(rows@, out_col as int).valid(cols as int),
            ({
                let (sheet, end) = pack_rows(
                    sheet_of(rows@, out_col as int),
                    mapped@,
                    views,
                    cursors@,
                    cols as int,
                    source_row as int,
                );
                (sheet.rows, end)
            }) == repacked(views, cols as int, cursors@),
        decreases source@.len() - source_row,
    {
        let ghost sheet0 = sheet_of(rows@, out_col as int);
        let ghost mapped0 = mapped@;
        out_col = reflow_row(source, cols, cursors, source_row, &mut rows, &mut mapped, out_col);
        source_row += 1;
    }
    Reflow { rows, cursors: mapped }
}

/// Repack source row `index` behind the rows written so far.
fn reflow_row(
    source: &[RetainedRow],
    cols: usize,
    cursors: &[Cursor],
    index: usize,
    rows: &mut Vec<RetainedRow>,
    mapped: &mut Vec<Cursor>,
    start_col: usize,
) -> (end_col: usize)
    requires
        cols > 0,
        index < source@.len(),
        source@[index as int].cells@.len() < usize::MAX,
        old(mapped)@.len() == cursors@.len(),
        sheet_of(old(rows)@, start_col as int).valid(cols as int),
    ensures
        (sheet_of(final(rows)@, end_col as int), final(mapped)@) == pack_row(
            sheet_of(old(rows)@, start_col as int),
            old(mapped)@,
            row_views(source@),
            cursors@,
            cols as int,
            index as int,
        ),
        final(mapped)@.len() == cursors@.len(),
        sheet_of(final(rows)@, end_col as int).valid(cols as int),
{
    let row: &RetainedRow = &source[index];
    let width: usize = row.cells.len();
    let len: usize = row_extent(row, cursors, index);
    let mut out_col: usize = start_col;
    let ghost begin = sheet_of(rows@, start_col as int);
    let ghost cells = row@.cells;
    let ghost written = row.metadata.len as int;
    let ghost start = Packing {
        sheet: begin,
        positions: Seq::new((width + 1) as nat, |i: int| begin.here()),
    };
    let mut positions: Vec<(usize, usize)> = Vec::new();
    let here: (usize, usize) = (rows.len() - 1, out_col);
    while positions.len() < width + 1
        invariant
            width < usize::MAX,
            positions@.len() <= width + 1,
            forall|i: int| 0 <= i < positions@.len() ==> positions@[i] == here,
        decreases width + 1 - positions@.len(),
    {
        positions.push(here);
    }
    let mut col: usize = 0;
    proof {
        assert(place_views(positions@) =~= start.positions);
    }
    while col < len
        invariant
            cols > 0,
            width == row.cells@.len(),
            width < usize::MAX,
            cells == row@.cells,
            written == row.metadata.len,
            len <= width,
            col <= width,
            positions@.len() == width + 1,
            sheet_of(rows@, out_col as int).valid(cols as int),
            pack_cells(
                Packing {
                    sheet: sheet_of(rows@, out_col as int),
                    positions: place_views(positions@),
                },
                cells,
                written,
                cols as int,
                col as int,
                len as int,
            ) == pack_cells(start, cells, written, cols as int, 0, len as int),
        decreases if col < len { len - col } else { 0 },
    {
        let cell: &Cell = &row.cells[col];
        let ghost now = Packing {
            sheet: sheet_of(rows@, out_col as int),
            positions: place_views(positions@),
        };
        assert(cells[col as int] == cell@);
        if cell.flags.contains(CellFlags::WIDE_CONT) {
            col += 1;
            continue;
        }
        let old_width: usize = if cell.flags.contains(CellFlags::WIDE) && col + 1 < width
            && row.cells[col + 1].flags.contains(CellFlags::WIDE_CONT) {
            2
        } else {
            1
        };
        let (at, end) = write_glyph(rows, cols, out_col, cell, col < row.metadata.len);
        let last: usize = rows.len() - 1;
        positions[col] = (last, at);
        if old_width == 2 {
            let inner: usize = if end - at == 2 { at + 1 } else { at };
            positions[col + 1] = (last, inner);
        }
        out_col = end;
        positions[col + old_width] = (last, out_col);
        proof {
            let next = pack_glyph(now, cells, written, cols as int, col as int);
            assert(place_views(positions@) =~= next.positions);
            assert(sheet_of(rows@, out_col as int) == next.sheet);
        }
        col += old_width;
    }
    let ghost packed = pack_cells(start, cells, written, cols as int, 0, len as int);
    proof {
        assert(packed.sheet == sheet_of(rows@, out_col as int));
        assert(packed.positions == place_views(positions@));
    }
    let last_source: bool = index + 1 >= source.len();
    let wrapped: bool = row.metadata.wrapped;
    let mut behind: bool = false;
    if len < width {
        let mut i: usize = 0;
        while i < cursors.len() && !behind
            invariant
                i <= cursors@.len(),
                behind <==> exists|j: int|
                    0 <= j < i && (#[trigger] cursors@[j]).row == index && !cursors@[j].pending
                        && cursors@[j].col == len,
            decreases cursors@.len() - i,
        {
            let cursor: Cursor = cursors[i];
            if cursor.row == index && !cursor.pending && cursor.col == len {
                behind = true;
            }
            i += 1;
        }
    }
    assert(behind == cursor_behind(row@, cursors@, index as int, len as int));
    if !last_source && !wrapped && out_col == cols && behind {
        break_line(rows, cols, true);
        out_col = 0;
        positions[len] = (rows.len() - 1, 0);
        proof {
            let broken = packed.sheet.soft_break(cols as int);
            assert(sheet_of(rows@, 0) == broken);
            assert(place_views(positions@) =~= packed.positions.update(
                len as int,
                broken.here(),
            ));
        }
    }
    let ghost settled = place_views(positions@);
    let ghost mapped0 = mapped@;
    let ghost moved = pack_row(
        begin,
        mapped0,
        row_views(source@),
        cursors@,
        cols as int,
        index as int,
    ).1;
    let mut i: usize = 0;
    while i < cursors.len()
        invariant
            cols > 0,
            i <= cursors@.len(),
            width == row.cells@.len(),
            positions@.len() == width + 1,
            settled == place_views(positions@),
            mapped@.len() == cursors@.len(),
            moved == Seq::new(
                cursors@.len(),
                |i: int|
                    if cursors@[i].row == index {
                        let place = settled[cursor_col(cursors@[i], width as int)];
                        Cursor {
                            row: place.0 as usize,
                            col: if place.1 < cols { place.1 as usize } else { (cols - 1) as usize },
                            pending: place.1 == cols,
                            retained_row: None,
                        }
                    } else {
                        mapped0[i]
                    },
            ),
            forall|j: int| 0 <= j < i ==> mapped@[j] == moved[j],
            forall|j: int| i <= j < cursors@.len() ==> mapped@[j] == mapped0[j],
        decreases cursors@.len() - i,
    {
        let cursor: Cursor = cursors[i];
        if cursor.row == index {
            let place: (usize, usize) = positions[cursor_column(&cursor, width)];
            assert(settled[cursor_col(cursor, width as int)] == (place.0 as int, place.1 as int));
            let col: usize = if place.1 < cols { place.1 } else { cols - 1 };
            mapped[i] = Cursor { row: place.0, col, pending: place.1 == cols, retained_row: None };
        }
        i += 1;
    }
    proof {
        assert(mapped@ =~= moved);
    }
    if !wrapped && !last_source {
        break_line(rows, cols, false);
        out_col = 0;
    }
    out_col
}

/// The number of source columns to pack.
fn row_extent(row: &RetainedRow, cursors: &[Cursor], index: usize) -> (len: usize)
    requires
        row.cells@.len() < usize::MAX,
    ensures
        len == packed_len(row@, cursors@, index as int),
        len <= row.cells@.len(),
{
    let width: usize = row.cells.len();
    let mut len: usize = if row.metadata.len < width { row.metadata.len } else { width };
    let mut i: usize = 0;
    proof {
        assert(cursors@.subrange(0, 0) =~= Seq::<Cursor>::empty());
    }
    while i < cursors.len()
        invariant
            i <= cursors@.len(),
            width == row.cells@.len(),
            len <= width,
            len == packed_len(row@, cursors@.subrange(0, i as int), index as int),
        decreases cursors@.len() - i,
    {
        let cursor: Cursor = cursors[i];
        proof {
            let prefix = cursors@.subrange(0, i + 1);
            assert(prefix.drop_last() =~= cursors@.subrange(0, i as int));
            assert(prefix.last() == cursor);
        }
        if cursor.row == index {
            let col: usize = cursor_column(&cursor, width);
            if col > len {
                len = col;
            }
        }
        i += 1;
    }
    proof {
        assert(cursors@.subrange(0, i as int) =~= cursors@);
    }
    len
}

/// The source column that a cursor stands before.
fn cursor_column(cursor: &Cursor, width: usize) -> (col: usize)
    ensures
        col == cursor_col(*cursor, width as int),
{
    if cursor.col >= width {
        width
    } else if cursor.pending {
        cursor.col + 1
    } else {
        cursor.col
    }
}

/// Write one glyph behind the last one, in a new row if it does not fit.
fn write_glyph(
    rows: &mut Vec<RetainedRow>,
    cols: usize,
    out_col: usize,
    cell: &Cell,
    counts: bool,
) -> (r: (usize, usize))
    requires
        cols > 0,
        sheet_of(old(rows)@, out_col as int).valid(cols as int),
    ensures
        ({
            let roomy = sheet_of(old(rows)@, out_col as int).with_room(cell@, cols as int);
            &&& roomy.here() == (final(rows)@.len() - 1, r.0 as int)
            &&& sheet_of(final(rows)@, r.1 as int) == roomy.placed(cell@, cols as int, counts)
            &&& sheet_of(final(rows)@, r.1 as int).valid(cols as int)
            &&& r.1 == r.0 + packed_width(cell@, cols as int)
        }),
{
    let natural: usize = cell.display_width();
    let width: usize = if natural < cols { natural } else { cols };
    let mut col: usize = out_col;
    let ghost start = sheet_of(rows@, out_col as int);
    if width > cols - out_col {
        break_line(rows, cols, true);
        col = 0;
    }
    let ghost roomy = sheet_of(rows@, col as int);
    let last: usize = rows.len() - 1;
    let mut leader: Cell = cell.clone();
    leader.flags.remove(CellFlags::WIDE | CellFlags::WIDE_CONT);
    if natural == 2 {
        leader.flags.insert(CellFlags::WIDE);
    }
    let mut continuation: Cell = cell.clone();
    continuation.c = '\0';
    continuation.grapheme = None;
    continuation.flags = CellFlags::from_bits(CellFlags::WIDE_CONT);
    let end: usize = col + width;
    let ghost before = rows@;
    assert(roomy.rows[last as int].cells.len() == cols);
    let row = &mut rows[last];
    row.cells[col] = leader;
    if width == 2 {
        row.cells[col + 1] = continuation;
    }
    if counts {
        row.metadata.len = end;
    }
    proof {
        let placed = roomy.placed(cell@, cols as int, counts);
        assert(leader@ == packed_leader(cell@));
        assert(cell_views(rows@[last as int].cells@) =~= placed.rows[last as int].cells);
        assert(row_views(rows@) =~= placed.rows);
    }
    (col, end)
}

/// Start a new row, which continues the logical line if `wrapped` is set.
fn break_line(rows: &mut Vec<RetainedRow>, cols: usize, wrapped: bool)
    requires
        sheet_of(old(rows)@, 0).valid(cols as int),
    ensures
        sheet_of(final(rows)@, 0).valid(cols as int),
        final(rows)@.len() == old(rows)@.len() + 1,
        forall|col: int|
            sheet_of(final(rows)@, 0) == if wrapped {
                (#[trigger] sheet_of(old(rows)@, col)).soft_break(cols as int)
            } else {
                sheet_of(old(rows)@, col).hard_break(cols as int)
            },
{
    let last: usize = rows.len() - 1;
    let ghost before = row_views(rows@);
    if wrapped {
        rows[last].metadata.wrapped = true;
    }
    let ghost marked = row_views(rows@);
    rows.push(RetainedRow::blank(cols));
    proof {
        let sheet = sheet_of(old(rows)@, 0);
        assert(before == sheet.rows);
        assert(sheet.rows[last as int].cells.len() == cols);
        if wrapped {
            assert(row_views(rows@) =~= sheet.soft_break(cols as int).rows);
        } else {
            assert(row_views(rows@) =~= sheet.hard_break(cols as int).rows);
        }
        assert forall|i: int| 0 <= i < row_views(rows@).len() implies (
        #[trigger] row_views(rows@)[i]).cells.len() == cols by {
            if i < before.len() {
                assert(before[i].cells.len() == cols);
            }
        }
    }
}

} // verus!
