//! Where glyphs and cursors go when rows are repacked.
use crate::grid::buffer::RowView;
use crate::grid::cell::CellView;
use crate::grid::reflow::{
    cursor_behind, cursor_col, glyph_of, lemma_packed_flags, lemma_packed_len_bounds, pack_cells,
    pack_glyph, pack_row, pack_rows, packed_leader, packed_len, packed_width, repacked,
    source_step, source_width, Cursor, Packing, Sheet,
};
use crate::grid::retention::hard_lines;
use vstd::prelude::*;

verus! {

/// The output is in shape, and its last row goes on nowhere yet.
spec fn ready(sheet: Sheet, cols: int) -> bool {
    sheet.valid(cols) && !sheet.rows.last().metadata.wrapped
}

/// The output was written on: what stood before the output column still stands.
spec fn extends(before: Sheet, after: Sheet) -> bool {
    let last = before.rows.len() - 1;
    &&& after.rows.len() >= before.rows.len() > 0
    &&& forall|j: int| 0 <= j < last ==> #[trigger] after.rows[j] == before.rows[j]
    &&& forall|c: int|
        0 <= c < before.col ==> #[trigger] after.rows[last].cells[c] == before.rows[last].cells[c]
    &&& after.rows.len() == before.rows.len() ==> after.col >= before.col
}

/// The logical lines that end above the last row.
spec fn lines_above(sheet: Sheet) -> nat {
    hard_lines(sheet.rows.drop_last())
}

proof fn lemma_extends_again(a: Sheet, b: Sheet, c: Sheet)
    requires
        extends(a, b),
        extends(b, c),
        a.col <= a.rows.last().cells.len(),
    ensures
        extends(a, c),
{
    let last = a.rows.len() - 1;
    assert forall|j: int| 0 <= j < last implies #[trigger] c.rows[j] == a.rows[j] by {
        assert(b.rows[j] == a.rows[j]);
    }
    assert forall|k: int| 0 <= k < a.col implies #[trigger] c.rows[last].cells[k]
        == a.rows[last].cells[k] by {
        assert(b.rows[last].cells[k] == a.rows[last].cells[k]);
        if b.rows.len() > a.rows.len() {
            assert(c.rows[last] == b.rows[last]);
        }
    }
}

proof fn lemma_breaks(sheet: Sheet, cols: int)
    requires
        0 < cols,
        ready(sheet, cols),
    ensures
        ready(sheet.soft_break(cols), cols),
        ready(sheet.hard_break(cols), cols),
        extends(sheet, sheet.soft_break(cols)),
        extends(sheet, sheet.hard_break(cols)),
        lines_above(sheet.soft_break(cols)) == lines_above(sheet),
        lines_above(sheet.hard_break(cols)) == lines_above(sheet) + 1,
{
    let soft = sheet.soft_break(cols);
    let hard = sheet.hard_break(cols);
    let n = sheet.rows.len() - 1;
    assert forall|i: int| 0 <= i < soft.rows.len() implies (#[trigger] soft.rows[i]).cells.len()
        == cols by {
        if i < sheet.rows.len() {
            assert(sheet.rows[i].cells.len() == cols);
        }
    }
    assert forall|i: int| 0 <= i < hard.rows.len() implies (#[trigger] hard.rows[i]).cells.len()
        == cols by {
        if i < sheet.rows.len() {
            assert(sheet.rows[i].cells.len() == cols);
        }
    }
    assert(hard.rows.drop_last() =~= sheet.rows);
    assert(soft.rows.drop_last().drop_last() =~= sheet.rows.drop_last());
    assert(soft.rows.drop_last().last().metadata.wrapped);
}

proof fn lemma_glyph_placed(sheet: Sheet, cell: CellView, cols: int, counts: bool)
    requires
        0 < cols,
        ready(sheet, cols),
    ensures
        ({
            let roomy = sheet.with_room(cell, cols);
            let after = roomy.placed(cell, cols, counts);
            let place = roomy.here();
            &&& ready(after, cols)
            &&& extends(sheet, after)
            &&& lines_above(after) == lines_above(sheet)
            &&& place.0 == after.rows.len() - 1
            &&& 0 <= place.1 < after.col
            &&& after.col == place.1 + packed_width(cell, cols)
            &&& place.1 < cols
            &&& after.rows[place.0].cells[place.1] == packed_leader(cell)
        }),
{
    let roomy = sheet.with_room(cell, cols);
    lemma_breaks(sheet, cols);
    let after = roomy.placed(cell, cols, counts);
    assert forall|i: int| 0 <= i < after.rows.len() implies (#[trigger] after.rows[i]).cells.len()
        == cols by {
        assert(roomy.rows[i].cells.len() == cols);
    }
    assert(after.rows.drop_last() =~= roomy.rows.drop_last());
    assert(extends(roomy, after));
    assert(sheet.rows[sheet.rows.len() - 1].cells.len() == cols);
    lemma_extends_again(sheet, roomy, after);
}

/// A glyph stands at a place of the output, behind which the output goes on, in
/// a line with `lines` lines above it.
spec fn stands_at(sheet: Sheet, place: (int, int), cell: CellView, cols: int, lines: nat) -> bool {
    &&& 0 <= place.0 < sheet.rows.len()
    &&& 0 <= place.1 < cols
    &&& place.0 == sheet.rows.len() - 1 ==> place.1 < sheet.col
    &&& sheet.rows[place.0].cells[place.1] == packed_leader(cell)
    &&& hard_lines(sheet.rows.take(place.0)) == lines
}

proof fn lemma_stands_on(
    before: Sheet,
    after: Sheet,
    place: (int, int),
    cell: CellView,
    cols: int,
    lines: nat,
)
    requires
        extends(before, after),
        stands_at(before, place, cell, cols, lines),
    ensures
        stands_at(after, place, cell, cols, lines),
{
    assert(after.rows.take(place.0) =~= before.rows.take(place.0));
    let last = before.rows.len() - 1;
    if place.0 < last {
        assert(after.rows[place.0] == before.rows[place.0]);
    } else {
        assert(after.rows[last].cells[place.1] == before.rows[last].cells[place.1]);
    }
}

/// The last source column holds a narrow glyph.
spec fn narrow_before(cells: Seq<CellView>, len: int) -> bool {
    &&& 0 < len
    &&& !cells[len - 1].continuation()
    &&& source_width(cells, len - 1) == 1
    &&& cells[len - 1].columns() == 1
}

proof fn lemma_cells_stand(
    packing: Packing,
    cells: Seq<CellView>,
    written: int,
    cols: int,
    at: int,
    len: int,
)
    requires
        0 < cols,
        ready(packing.sheet, cols),
        packing.positions.len() == cells.len() + 1,
        0 <= at,
        len <= cells.len(),
    ensures
        ({
            let after = pack_cells(packing, cells, written, cols, at, len);
            let lines = lines_above(packing.sheet);
            &&& ready(after.sheet, cols)
            &&& extends(packing.sheet, after.sheet)
            &&& lines_above(after.sheet) == lines
            &&& after.positions.len() == packing.positions.len()
            &&& forall|j: int|
                0 <= j < at ==> #[trigger] after.positions[j] == packing.positions[j]
            &&& at >= len ==> after == packing
            &&& forall|j: int|
                at <= j < len && !(#[trigger] cells[j]).continuation() ==> stands_at(
                    after.sheet,
                    after.positions[j],
                    cells[j],
                    cols,
                    lines,
                )
            &&& at < len && narrow_before(cells, len) ==> {
                &&& after.positions[len] == after.sheet.here()
                &&& after.sheet.col > 0
                &&& after.sheet.rows.last().cells[after.sheet.col - 1] == packed_leader(
                    cells[len - 1],
                )
            }
        }),
    decreases if at < len { len - at } else { 0 },
{
    if at < len {
        let cell = cells[at];
        let next = pack_glyph(packing, cells, written, cols, at);
        let step = source_step(cells, at);
        let lines = lines_above(packing.sheet);
        if !cell.continuation() {
            lemma_glyph_placed(packing.sheet, cell, cols, at < written);
            let place = packing.sheet.with_room(cell, cols).here();
            assert(next.positions[at] == place);
            assert(next.sheet.rows.take(place.0) =~= next.sheet.rows.drop_last());
            assert(stands_at(next.sheet, place, cell, cols, lines));
        } else {
            assert(packing.sheet == next.sheet);
            assert(extends(packing.sheet, next.sheet));
        }
        lemma_cells_stand(next, cells, written, cols, at + step, len);
        let after = pack_cells(packing, cells, written, cols, at, len);
        assert(packing.sheet.rows[packing.sheet.rows.len() - 1].cells.len() == cols);
        lemma_extends_again(packing.sheet, next.sheet, after.sheet);
        assert forall|j: int| 0 <= j < at implies #[trigger] after.positions[j]
            == packing.positions[j] by {
            assert(next.positions[j] == packing.positions[j]);
        }
        assert forall|j: int| at <= j < len && !(#[trigger] cells[j]).continuation() implies stands_at(
            after.sheet,
            after.positions[j],
            cells[j],
            cols,
            lines,
        ) by {
            if j == at {
                assert(after.positions[at] == next.positions[at]);
                lemma_stands_on(
                    next.sheet,
                    after.sheet,
                    next.positions[at],
                    cell,
                    cols,
                    lines,
                );
            }
        }
    } else {
        assert(extends(packing.sheet, packing.sheet));
    }
}

/// The source column that a cursor of a row stands before.
spec fn source_col(cursor: Cursor, row: RowView) -> int {
    cursor_col(cursor, row.cells.len() as int)
}

/// A column on a written glyph, or directly behind a narrow one or an empty row.
spec fn followable(row: RowView, k: int, len: int) -> bool {
    ||| k < len && !row.cells[k].continuation()
    ||| k == len && (narrow_before(row.cells, len) || len == 0)
}

/// A cursor stands directly behind the text of a line that ends in its row, in
/// the unused part of the row.
pub open spec fn unused(
    source: Seq<RowView>,
    cursors: Seq<Cursor>,
    index: int,
    cursor: Cursor,
) -> bool {
    let row = source[index];
    let len = packed_len(row, cursors, index);
    &&& index + 1 < source.len()
    &&& !row.metadata.wrapped
    &&& !cursor.pending
    &&& cursor.col == len
    &&& len < row.cells.len()
    &&& len == 0 || (!row.cells[len - 1].continuation() && !row.cells[len - 1].wide()
        && row.cells[len - 1].columns() == 1)
}

/// Where a cursor belongs: on its glyph where it stands on a written one, and
/// behind the last glyph of its row where it stands there.
spec fn followed_to(
    sheet: Sheet,
    moved: Cursor,
    row: RowView,
    k: int,
    len: int,
    cols: int,
    lines: nat,
) -> bool {
    &&& 0 <= moved.row < sheet.rows.len()
    &&& moved.col < cols
    &&& moved.retained_row is None
    &&& 0 <= k < len && !row.cells[k].continuation() ==> {
        &&& !moved.pending
        &&& sheet.rows[moved.row as int].cells[moved.col as int] == packed_leader(
            row.cells[k],
        )
        &&& hard_lines(sheet.rows.take(moved.row as int)) == lines
    }
    &&& k == len && narrow_before(row.cells, len) ==> {
        ||| moved.pending && moved.col + 1 == cols
            && sheet.rows[moved.row as int].cells[moved.col as int] == packed_leader(
            row.cells[len - 1],
        )
        ||| !moved.pending && moved.col > 0 && sheet.rows[moved.row as int].cells[moved.col - 1]
            == packed_leader(row.cells[len - 1])
        ||| !moved.pending && moved.col == 0 && moved.row > 0 && sheet.rows[moved.row
            - 1].metadata.wrapped && sheet.rows[moved.row - 1].cells[cols - 1] == packed_leader(
            row.cells[len - 1],
        )
    }
    &&& k == len && (narrow_before(row.cells, len) || len == 0)
        ==> hard_lines(sheet.rows.take(moved.row as int)) == lines
}

proof fn lemma_followed_on(
    before: Sheet,
    after: Sheet,
    moved: Cursor,
    row: RowView,
    k: int,
    len: int,
    cols: int,
    lines: nat,
)
    requires
        0 <= k,
        followed_to(before, moved, row, k, len, cols, lines),
        extends(before, after),
        moved.row == before.rows.len() - 1 ==> {
            ||| moved.pending && moved.col < before.col
            ||| !moved.pending && moved.col <= before.col && (k < len ==> moved.col
                < before.col)
        },
        k <= len,
    ensures
        followed_to(after, moved, row, k, len, cols, lines),
{
    let m = moved.row as int;
    let last = before.rows.len() - 1;
    assert(after.rows.take(m) =~= before.rows.take(m));
    if m < last {
        assert(after.rows[m] == before.rows[m]);
    } else {
        if moved.pending || k < len {
            assert(after.rows[last].cells[moved.col as int]
                == before.rows[last].cells[moved.col as int]);
        } else if moved.col > 0 {
            assert(after.rows[last].cells[moved.col - 1] == before.rows[last].cells[moved.col - 1]);
        }
    }
    if m > 0 {
        assert(after.rows[m - 1] == before.rows[m - 1]);
    }
}

proof fn lemma_row_follows(
    sheet: Sheet,
    mapped: Seq<Cursor>,
    source: Seq<RowView>,
    cursors: Seq<Cursor>,
    cols: int,
    index: int,
)
    requires
        0 < cols <= usize::MAX,
        0 <= index < source.len(),
        ready(sheet, cols),
    ensures
        ({
            let (next, moved) = pack_row(sheet, mapped, source, cursors, cols, index);
            let row = source[index];
            let len = packed_len(row, cursors, index);
            &&& ready(next, cols)
            &&& extends(sheet, next)
            &&& lines_above(next) == lines_above(sheet) + if !row.metadata.wrapped && index + 1
                < source.len() {
                1nat
            } else {
                0
            }
            &&& moved.len() == cursors.len()
            &&& forall|i: int|
                0 <= i < cursors.len() && (#[trigger] cursors[i]).row != index ==> moved[i]
                    == mapped[i]
            &&& forall|i: int|
                0 <= i < cursors.len() && (#[trigger] cursors[i]).row == index && unused(
                    source,
                    cursors,
                    index,
                    cursors[i],
                ) ==> !moved[i].pending
            &&& next.rows.len() <= usize::MAX ==> forall|i: int|
                0 <= i < cursors.len() && (#[trigger] cursors[i]).row == index && followable(row, source_col(cursors[i], row), len) ==> {
                    &&& followed_to(
                        next,
                        moved[i],
                        row,
                        source_col(cursors[i], row),
                        len,
                        cols,
                        lines_above(sheet),
                    )
                    &&& moved[i].row == next.rows.len() - 1 ==> {
                        ||| moved[i].pending && moved[i].col < next.col
                        ||| !moved[i].pending && moved[i].col <= next.col && (source_col(cursors[i], row) < len
                            ==> moved[i].col < next.col)
                    }
                }
        }),
{
    let row = source[index];
    let width = row.cells.len() as int;
    let len = packed_len(row, cursors, index);
    let lines = lines_above(sheet);
    lemma_packed_len_bounds(row, cursors, index);
    let start = Packing { sheet, positions: Seq::new((width + 1) as nat, |i: int| sheet.here()) };
    let packed = pack_cells(start, row.cells, row.metadata.len as int, cols, 0, len);
    lemma_cells_stand(start, row.cells, row.metadata.len as int, cols, 0, len);
    let last = index + 1 >= source.len();
    lemma_breaks(packed.sheet, cols);
    let breaks = !last && !row.metadata.wrapped && packed.sheet.col == cols && cursor_behind(
        row,
        cursors,
        index,
        len,
    );
    let broken = packed.sheet.soft_break(cols);
    lemma_breaks(broken, cols);
    let settled = if breaks {
        Packing { sheet: broken, positions: packed.positions.update(len, broken.here()) }
    } else {
        packed
    };
    assert(extends(packed.sheet, packed.sheet));
    assert(sheet.rows[sheet.rows.len() - 1].cells.len() == cols);
    lemma_extends_again(sheet, packed.sheet, settled.sheet);
    let (next, moved) = pack_row(sheet, mapped, source, cursors, cols, index);
    assert forall|i: int|
        0 <= i < cursors.len() && (#[trigger] cursors[i]).row == index && unused(
            source,
            cursors,
            index,
            cursors[i],
        ) implies !moved[i].pending by {
        assert(cursor_col(cursors[i], width) == len);
        assert(narrow_before(row.cells, len) || len == 0);
        assert(packed.positions[len] == packed.sheet.here());
        assert(cursor_behind(row, cursors, index, len));
    }
    let hard = settled.sheet.hard_break(cols);
    assert(extends(settled.sheet, settled.sheet));
    lemma_extends_again(sheet, settled.sheet, next);
    assert(packed.sheet.rows[packed.sheet.rows.len() - 1].cells.len() == cols);
    lemma_extends_again(packed.sheet, settled.sheet, next);
    if next.rows.len() <= usize::MAX {
        assert forall|i: int|
            0 <= i < cursors.len() && (#[trigger] cursors[i]).row == index && followable(row, source_col(cursors[i], row), len) implies {
            &&& followed_to(next, moved[i], row, source_col(cursors[i], row), len, cols, lines)
            &&& moved[i].row == next.rows.len() - 1 ==> {
                ||| moved[i].pending && moved[i].col < next.col
                ||| !moved[i].pending && moved[i].col <= next.col && (source_col(cursors[i], row) < len
                    ==> moved[i].col < next.col)
            }
        } by {
            let cursor = cursors[i];
            let col = cursor_col(cursor, width);
            let place = settled.positions[col];
            if col < len {
                assert(place == packed.positions[col]);
                assert(stands_at(packed.sheet, place, row.cells[col], cols, lines));
                lemma_stands_on(packed.sheet, settled.sheet, place, row.cells[col], cols, lines);
                lemma_stands_on(settled.sheet, next, place, row.cells[col], cols, lines);
            } else {
                assert(packed.positions[len] == packed.sheet.here());
                assert(place == settled.sheet.here());
                assert(settled.sheet.rows.take(place.0) =~= settled.sheet.rows.drop_last());
                assert(followed_to(settled.sheet, moved[i], row, col, len, cols, lines)) by {
                    if breaks {
                        assert(broken.rows[place.0 - 1].cells[cols - 1]
                            == packed.sheet.rows.last().cells[cols - 1]);
                    }
                }
                lemma_followed_on(settled.sheet, next, moved[i], row, col, len, cols, lines);
            }
        }
    }
}

proof fn lemma_rows_follow(
    sheet: Sheet,
    mapped: Seq<Cursor>,
    source: Seq<RowView>,
    cursors: Seq<Cursor>,
    cols: int,
    index: int,
    i: int,
)
    requires
        0 < cols <= usize::MAX,
        0 <= index <= source.len(),
        ready(sheet, cols),
        mapped.len() == cursors.len(),
        0 <= i < cursors.len(),
    ensures
        ({
            let (after, moved) = pack_rows(sheet, mapped, source, cursors, cols, index);
            let at = cursors[i].row as int;
            let row = source[at];
            let len = packed_len(row, cursors, at);
            &&& ready(after, cols)
            &&& extends(sheet, after)
            &&& moved.len() == cursors.len()
            &&& at < index ==> moved[i] == mapped[i]
            &&& index <= at < source.len() && unused(source, cursors, at, cursors[i])
                ==> !moved[i].pending
            &&& index <= at < source.len() && after.rows.len() <= usize::MAX && followable(row, source_col(cursors[i], row), len) ==> followed_to(
                after,
                moved[i],
                row,
                source_col(cursors[i], row),
                len,
                cols,
                lines_above(sheet) + hard_lines(source.subrange(index, at)),
            )
        }),
    decreases source.len() - index,
{
    let at = cursors[i].row as int;
    if index < source.len() {
        let (next, moved) = pack_row(sheet, mapped, source, cursors, cols, index);
        lemma_row_follows(sheet, mapped, source, cursors, cols, index);
        lemma_rows_follow(next, moved, source, cursors, cols, index + 1, i);
        let (after, done) = pack_rows(next, moved, source, cursors, cols, index + 1);
        assert(sheet.rows[sheet.rows.len() - 1].cells.len() == cols);
        lemma_extends_again(sheet, next, after);
        let row = source[at];
        let len = packed_len(row, cursors, at);
        if index < at < source.len() {
            let part = source.subrange(index, at);
            crate::grid::retention::lemma_drop_first(part);
            assert(part.drop_first() =~= source.subrange(index + 1, at));
        }
        if index == at {
            assert(hard_lines(source.subrange(index, at)) == 0);
            assert(done[i] == moved[i]);
            if after.rows.len() <= usize::MAX && followable(row, source_col(cursors[i], row), len) {
                lemma_followed_on(
                    next,
                    after,
                    moved[i],
                    row,
                    source_col(cursors[i], row),
                    len,
                    cols,
                    lines_above(sheet),
                );
            }
        }
    } else {
        assert(extends(sheet, sheet));
    }
}

/// A cursor on a written glyph stands on that glyph after repacking, in a line
/// with as many lines above it.
pub proof fn law_cursor_stays_on_its_glyph(
    source: Seq<RowView>,
    cols: int,
    cursors: Seq<Cursor>,
    i: int,
)
    requires
        0 < cols <= usize::MAX,
        0 <= i < cursors.len(),
        cursors[i].row < source.len(),
        !cursors[i].pending,
        ({
            let row = source[cursors[i].row as int];
            &&& cursors[i].col < row.metadata.len <= row.cells.len()
            &&& !row.cells[cursors[i].col as int].continuation()
        }),
        repacked(source, cols, cursors).0.len() <= usize::MAX,
    ensures
        ({
            let (rows, mapped) = repacked(source, cols, cursors);
            let place = mapped[i];
            let cell = source[cursors[i].row as int].cells[cursors[i].col as int];
            &&& place.row < rows.len()
            &&& place.col < cols
            &&& !place.pending
            &&& glyph_of(rows[place.row as int].cells[place.col as int]) == glyph_of(cell)
            &&& hard_lines(rows.take(place.row as int)) == hard_lines(
                source.take(cursors[i].row as int),
            )
        }),
{
    let sheet = Sheet::fresh(cols);
    let home = Cursor { row: 0, col: 0, pending: false, retained_row: None };
    let row = source[cursors[i].row as int];
    lemma_packed_len_bounds(row, cursors, cursors[i].row as int);
    lemma_rows_follow(
        sheet,
        Seq::new(cursors.len(), |k: int| home),
        source,
        cursors,
        cols,
        0,
        i,
    );
    assert(hard_lines(sheet.rows.drop_last()) == 0);
    assert(source.subrange(0, cursors[i].row as int) =~= source.take(cursors[i].row as int));
    lemma_packed_flags(row.cells[cursors[i].col as int]);
}

/// A cursor directly behind the text of its row, as after printing, or with its
/// wrap pending at the end of it, stands
/// behind the same glyph after repacking: in the next column, or at the margin
/// with its wrap pending, or at the start of a row that goes on with the line.
/// In an empty row it stays in its own line.
pub proof fn law_cursor_stays_behind_its_text(
    source: Seq<RowView>,
    cols: int,
    cursors: Seq<Cursor>,
    i: int,
)
    requires
        0 < cols <= usize::MAX,
        0 <= i < cursors.len(),
        cursors[i].row < source.len(),
        ({
            let row = source[cursors[i].row as int];
            let col = if cursors[i].pending { cursors[i].col + 1 } else { cursors[i].col as int };
            &&& col == packed_len(row, cursors, cursors[i].row as int)
            &&& col > 0 ==> !row.cells[col - 1].continuation() && !row.cells[col - 1].wide()
                && row.cells[col - 1].columns() == 1
        }),
        repacked(source, cols, cursors).0.len() <= usize::MAX,
    ensures
        ({
            let (rows, mapped) = repacked(source, cols, cursors);
            let place = mapped[i];
            let row = place.row as int;
            let col = place.col as int;
            let behind = if cursors[i].pending { cursors[i].col + 1 } else { cursors[i].col as int };
            let glyph = glyph_of(source[cursors[i].row as int].cells[behind - 1]);
            &&& place.row < rows.len()
            &&& place.col < cols
            &&& hard_lines(rows.take(row)) == hard_lines(source.take(cursors[i].row as int))
            &&& behind > 0 ==> {
                ||| place.pending && col + 1 == cols && glyph_of(rows[row].cells[col]) == glyph
                ||| !place.pending && col > 0 && glyph_of(rows[row].cells[col - 1]) == glyph
                ||| !place.pending && col == 0 && row > 0 && rows[row - 1].metadata.wrapped
                    && glyph_of(rows[row - 1].cells[cols - 1]) == glyph
            }
        }),
{
    let sheet = Sheet::fresh(cols);
    let home = Cursor { row: 0, col: 0, pending: false, retained_row: None };
    let row = source[cursors[i].row as int];
    lemma_rows_follow(
        sheet,
        Seq::new(cursors.len(), |k: int| home),
        source,
        cursors,
        cols,
        0,
        i,
    );
    assert(hard_lines(sheet.rows.drop_last()) == 0);
    assert(source.subrange(0, cursors[i].row as int) =~= source.take(cursors[i].row as int));
    lemma_packed_len_bounds(row, cursors, cursors[i].row as int);
    let behind = if cursors[i].pending { cursors[i].col + 1 } else { cursors[i].col as int };
    if behind > 0 {
        lemma_packed_flags(row.cells[behind - 1]);
    }
}

/// A cursor in the unused part of a line never waits to wrap: where its place is
/// the margin, it gets a row of its own that goes on with the line, so that what
/// is printed there cannot run into the next line.
pub proof fn law_unused_space_stays_in_its_line(
    source: Seq<RowView>,
    cols: int,
    cursors: Seq<Cursor>,
    i: int,
)
    requires
        0 < cols <= usize::MAX,
        0 <= i < cursors.len(),
        cursors[i].row < source.len(),
        unused(source, cursors, cursors[i].row as int, cursors[i]),
    ensures
        !repacked(source, cols, cursors).1[i].pending,
{
    let home = Cursor { row: 0, col: 0, pending: false, retained_row: None };
    lemma_rows_follow(
        Sheet::fresh(cols),
        Seq::new(cursors.len(), |k: int| home),
        source,
        cursors,
        cols,
        0,
        i,
    );
}

/// Every place that the columns of a row have got lies in the output.
spec fn places_inside(packing: Packing) -> bool {
    forall|j: int|
        0 <= j < packing.positions.len() ==> 0 <= (#[trigger] packing.positions[j]).0
            < packing.sheet.rows.len()
}

proof fn lemma_places_inside(
    packing: Packing,
    cells: Seq<CellView>,
    written: int,
    cols: int,
    at: int,
    len: int,
)
    requires
        0 < cols,
        ready(packing.sheet, cols),
        places_inside(packing),
        packing.positions.len() == cells.len() + 1,
        0 <= at,
        len <= cells.len(),
    ensures
        places_inside(pack_cells(packing, cells, written, cols, at, len)),
        pack_cells(packing, cells, written, cols, at, len).positions.len()
            == packing.positions.len(),
    decreases if at < len { len - at } else { 0 },
{
    if at < len {
        let next = pack_glyph(packing, cells, written, cols, at);
        if !cells[at].continuation() {
            lemma_glyph_placed(packing.sheet, cells[at], cols, at < written);
        }
        assert forall|j: int| 0 <= j < next.positions.len() implies 0 <= (
        #[trigger] next.positions[j]).0 < next.sheet.rows.len() by {
            assert(0 <= packing.positions[j].0 < packing.sheet.rows.len());
        }
        lemma_places_inside(next, cells, written, cols, at + source_step(cells, at), len);
    }
}

proof fn lemma_rows_inside(
    sheet: Sheet,
    mapped: Seq<Cursor>,
    source: Seq<RowView>,
    cursors: Seq<Cursor>,
    cols: int,
    index: int,
    i: int,
)
    requires
        0 < cols <= usize::MAX,
        0 <= index <= source.len(),
        ready(sheet, cols),
        mapped.len() == cursors.len(),
        0 <= i < cursors.len(),
        mapped[i].row < sheet.rows.len(),
    ensures
        ({
            let (after, moved) = pack_rows(sheet, mapped, source, cursors, cols, index);
            after.rows.len() <= usize::MAX ==> moved[i].row < after.rows.len()
        }),
    decreases source.len() - index,
{
    if index < source.len() {
        let (next, moved) = pack_row(sheet, mapped, source, cursors, cols, index);
        lemma_row_follows(sheet, mapped, source, cursors, cols, index);
        let row = source[index];
        let width = row.cells.len() as int;
        let len = packed_len(row, cursors, index);
        lemma_packed_len_bounds(row, cursors, index);
        let start = Packing {
            sheet,
            positions: Seq::new((width + 1) as nat, |k: int| sheet.here()),
        };
        lemma_places_inside(start, row.cells, row.metadata.len as int, cols, 0, len);
        lemma_cells_stand(start, row.cells, row.metadata.len as int, cols, 0, len);
        let packed = pack_cells(start, row.cells, row.metadata.len as int, cols, 0, len);
        lemma_breaks(packed.sheet, cols);
        let place = packed.positions[cursor_col(cursors[i], width)];
        assert(0 <= place.0 < packed.sheet.rows.len());
        lemma_rows_follow(next, moved, source, cursors, cols, index + 1, i);
        if next.rows.len() <= usize::MAX {
            lemma_rows_inside(next, moved, source, cursors, cols, index + 1, i);
        }
    }
}

/// Every cursor is followed into a row of the output.
pub proof fn law_cursors_stay_in_the_output(
    source: Seq<RowView>,
    cols: int,
    cursors: Seq<Cursor>,
    i: int,
)
    requires
        0 < cols <= usize::MAX,
        0 <= i < cursors.len(),
        repacked(source, cols, cursors).0.len() <= usize::MAX,
    ensures
        repacked(source, cols, cursors).1[i].row < repacked(source, cols, cursors).0.len(),
{
    let home = Cursor { row: 0, col: 0, pending: false, retained_row: None };
    lemma_rows_inside(
        Sheet::fresh(cols),
        Seq::new(cursors.len(), |k: int| home),
        source,
        cursors,
        cols,
        0,
        i,
    );
}

/// The columns that a glyph takes in a row of `cols` columns.
pub open spec fn columns_in(cell: CellView, cols: int) -> int {
    if cell.columns() <= cols { cell.columns() } else { cols }
}

/// Every row that goes on in the next one had no room for its first glyph.
pub open spec fn rows_filled(rows: Seq<RowView>, cols: int) -> bool {
    forall|i: int|
        0 <= i < rows.len() && (#[trigger] rows[i]).metadata.wrapped ==> i + 1 < rows.len()
            && rows[i].metadata.len + columns_in(rows[i + 1].cells[0], cols) > cols
}

spec fn filling(sheet: Sheet, cols: int) -> bool {
    &&& ready(sheet, cols)
    &&& sheet.rows.last().metadata.len == sheet.col
    &&& rows_filled(sheet.rows, cols)
    &&& sheet.rows.len() >= 2 && sheet.rows[sheet.rows.len() - 2].metadata.wrapped ==> sheet.col
        > 0
}

proof fn lemma_glyph_fills(sheet: Sheet, cell: CellView, cols: int)
    requires
        0 < cols <= usize::MAX,
        filling(sheet, cols),
    ensures
        filling(sheet.with_room(cell, cols).placed(cell, cols, true), cols),
{
    lemma_glyph_placed(sheet, cell, cols, true);
    let roomy = sheet.with_room(cell, cols);
    let after = roomy.placed(cell, cols, true);
    let n = sheet.rows.len() - 1;
    assert(packed_leader(cell).columns() == cell.columns());
    assert forall|i: int|
        0 <= i < after.rows.len() && (#[trigger] after.rows[i]).metadata.wrapped implies i + 1
        < after.rows.len() && after.rows[i].metadata.len + columns_in(
        after.rows[i + 1].cells[0],
        cols,
    ) > cols by {
        if i < n {
            assert(sheet.rows[i].metadata.wrapped);
        }
    }
}

proof fn lemma_cells_fill(
    packing: Packing,
    cells: Seq<CellView>,
    written: int,
    cols: int,
    at: int,
    len: int,
)
    requires
        0 < cols <= usize::MAX,
        filling(packing.sheet, cols),
        0 <= at,
        len <= written,
    ensures
        filling(pack_cells(packing, cells, written, cols, at, len).sheet, cols),
    decreases if at < len { len - at } else { 0 },
{
    if at < len {
        if !cells[at].continuation() {
            lemma_glyph_fills(packing.sheet, cells[at], cols);
        }
        lemma_cells_fill(
            pack_glyph(packing, cells, written, cols, at),
            cells,
            written,
            cols,
            at + source_step(cells, at),
            len,
        );
    }
}

proof fn lemma_rows_fill(
    sheet: Sheet,
    mapped: Seq<Cursor>,
    source: Seq<RowView>,
    cols: int,
    index: int,
)
    requires
        0 < cols <= usize::MAX,
        0 <= index <= source.len(),
        filling(sheet, cols),
    ensures
        filling(pack_rows(sheet, mapped, source, Seq::empty(), cols, index).0, cols),
    decreases source.len() - index,
{
    if index < source.len() {
        let cursors = Seq::<Cursor>::empty();
        let row = source[index];
        let width = row.cells.len() as int;
        let len = packed_len(row, cursors, index);
        let start = Packing {
            sheet,
            positions: Seq::new((width + 1) as nat, |i: int| sheet.here()),
        };
        lemma_cells_fill(start, row.cells, row.metadata.len as int, cols, 0, len);
        let packed = pack_cells(start, row.cells, row.metadata.len as int, cols, 0, len);
        let (next, moved) = pack_row(sheet, mapped, source, cursors, cols, index);
        lemma_breaks(packed.sheet, cols);
        let hard = packed.sheet.hard_break(cols);
        assert forall|i: int|
            0 <= i < hard.rows.len() && (#[trigger] hard.rows[i]).metadata.wrapped implies i + 1
            < hard.rows.len() && hard.rows[i].metadata.len + columns_in(
            hard.rows[i + 1].cells[0],
            cols,
        ) > cols by {
            assert(packed.sheet.rows[i].metadata.wrapped);
        }
        lemma_rows_fill(next, moved, source, cols, index + 1);
    }
}

/// Repacking fills each row before it goes on in the next: a row continues only
/// where the next glyph did not fit.
pub proof fn law_reflow_fills_rows(source: Seq<RowView>, cols: int)
    requires
        0 < cols <= usize::MAX,
    ensures
        rows_filled(repacked(source, cols, Seq::empty()).0, cols),
{
    let home = Cursor { row: 0, col: 0, pending: false, retained_row: None };
    lemma_rows_fill(
        Sheet::fresh(cols),
        Seq::new(0, |i: int| home),
        source,
        cols,
        0,
    );
}

/// A packed glyph is marked by the columns that it takes: a two-column glyph
/// leads its continuation, a narrow one stands alone.
pub proof fn law_packed_glyphs_are_marked(cell: CellView)
    ensures
        packed_leader(cell).wide() == (cell.columns() == 2),
        !packed_leader(cell).continuation(),
        packed_leader(cell).c == cell.c,
        packed_leader(cell).text == cell.text,
        packed_leader(cell).fg == cell.fg,
        packed_leader(cell).bg == cell.bg,
        packed_leader(cell).underline_style == cell.underline_style,
        packed_leader(cell).underline_color == cell.underline_color,
{
    let bits = cell.flags.bits;
    assert((bits & !(16u8 | 32u8)) & 32u8 != 32u8 && ((bits & !(16u8 | 32u8)) | 16u8) & 32u8 != 32u8
        && (bits & !(16u8 | 32u8)) & 16u8 != 16u8 && ((bits & !(16u8 | 32u8)) | 16u8) & 16u8
        == 16u8) by (bit_vector);
}


/// Of a row everything that was written is repacked, and what stands before a
/// cursor in it, and no more than that.
pub proof fn law_packed_extents(row: RowView, cursors: Seq<Cursor>, index: int, i: int)
    requires
        0 <= i < cursors.len(),
    ensures
        ({
            let len = packed_len(row, cursors, index);
            let written = if row.metadata.len < row.cells.len() {
                row.metadata.len as int
            } else {
                row.cells.len() as int
            };
            &&& written <= len <= row.cells.len()
            &&& cursors[i].row == index ==> cursor_col(cursors[i], row.cells.len() as int) <= len
            &&& len == written || exists|k: int|
                0 <= k < cursors.len() && (#[trigger] cursors[k]).row == index && cursor_col(
                    cursors[k],
                    row.cells.len() as int,
                ) == len
        }),
    decreases cursors.len(),
{
    let before = cursors.drop_last();
    let last = cursors.len() - 1;
    let width = row.cells.len() as int;
    assert(cursors[last] == cursors.last());
    if i < before.len() {
        law_packed_extents(row, before, index, i);
        assert(before[i] == cursors[i]);
    } else if before.len() > 0 {
        law_packed_extents(row, before, index, 0);
    }
    if exists|k: int|
        0 <= k < before.len() && (#[trigger] before[k]).row == index && cursor_col(before[k], width)
            == packed_len(row, before, index) {
        let k = choose|k: int|
            0 <= k < before.len() && (#[trigger] before[k]).row == index && cursor_col(
                before[k],
                width,
            ) == packed_len(row, before, index);
        assert(before[k] == cursors[k]);
    }
}

/// A cursor stands before its own column, or behind it while its wrap is
/// pending, at most behind the last one.
pub proof fn law_cursor_columns_in_rows(cursor: Cursor, width: int)
    requires
        0 <= width,
    ensures
        !cursor.pending && cursor.col <= width ==> cursor_col(cursor, width) == cursor.col,
        cursor.pending && cursor.col < width ==> cursor_col(cursor, width) == cursor.col + 1,
        cursor.col >= width ==> cursor_col(cursor, width) == width,
{
}

} // verus!
