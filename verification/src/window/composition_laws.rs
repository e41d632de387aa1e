//! Where composed text is laid out, scalar by scalar.
use crate::grid::cell::CellFlags;
use crate::window::composition::{
    nearest_cell,
    layout_matches, ImePreeditLayout,
    later_cell, partner, screen_leftover,
    blank_composition, composed, composition_of, drawn, pieces_of, remaining_glyphs,
    selected_together, stays, Composition, ImePreeditGlyph, PreeditPiece,
};
use crate::window::preedit::{payload_matches, ImePreeditPayload, exceeding_cells, preedit_cursor, taken_up, ImePreeditCursor};
use crate::window::snapshot::GridSnapshot;
use vstd::prelude::*;
use vstd::utf8::{encode_utf8, is_char_boundary};

verus! {

/// Each scalar of a composed text is drawn as it is in its own columns, at most
/// two. One without a width, or one that is wider than the screen, is replaced
/// by a mark of one column. It is selected where its bytes meet the selection.
pub proof fn law_composed_pieces(
    text: Seq<char>,
    widths: Seq<Option<usize>>,
    cursor: Option<ImePreeditCursor>,
    columns: usize,
    i: int,
)
    requires
        0 <= i < text.len(),
        widths.len() == text.len(),
        encode_utf8(text).len() <= usize::MAX,
    ensures
        ({
            let piece = pieces_of(text, widths, cursor, columns)[i];
            let start = encode_utf8(text.take(i)).len();
            let end = encode_utf8(text.take(i + 1)).len();
            &&& pieces_of(text, widths, cursor, columns).len() == text.len()
            &&& widths[i] is None ==> piece.character == '\u{fffd}' && piece.width == 1
            &&& widths[i] == Some(0usize) ==> piece.character == text[i] && piece.width == 0
            &&& widths[i] == Some(1usize) && columns >= 1 ==> piece.character == text[i]
                && piece.width == 1
            &&& widths[i] is Some && widths[i]->0 >= 2 && columns >= 2 ==> piece.character
                == text[i] && piece.width == 2
            &&& widths[i] is Some && widths[i]->0 >= 2 && columns == 1 ==> piece.character
                == '\u{fffd}' && piece.width == 1
            &&& piece.byte_start == start
            &&& piece.byte_end == end
            &&& start < end
            &&& i == 0 ==> start == 0
            &&& cursor is None ==> !piece.selected && !piece.at_caret
            &&& cursor is Some ==> {
                &&& cursor->0.selection_start < cursor->0.selection_end ==> (piece.selected
                    <==> exists|b: int| #[trigger]
                    lies_in(b, start as int, end as int) && lies_in(
                        b,
                        cursor->0.selection_start as int,
                        cursor->0.selection_end as int,
                    ))
                &&& piece.at_caret <==> cursor->0.caret == start
            }
        }),
{
    let piece = pieces_of(text, widths, cursor, columns)[i];
    let start = encode_utf8(text.take(i)).len();
    let end = encode_utf8(text.take(i + 1)).len();
    crate::input::paste::lemma_prefix_is_shorter(text, i);
    crate::input::paste::lemma_prefix_is_shorter(text, i + 1);
    assert(text.take(i + 1) =~= text.take(i).push(text[i]));
    crate::input::paste::lemma_encoding_of_push(text.take(i), text[i]);
    assert(vstd::utf8::encode_scalar(text[i] as u32).len() >= 1);
    if i == 0 {
        assert(text.take(0) =~= Seq::<char>::empty());
    }
    if cursor is Some {
        let low = cursor->0.selection_start as int;
        let high = cursor->0.selection_end as int;
        if piece.selected && low < high {
            let b = if low > start { low } else { start as int };
            assert(lies_in(b, start as int, end as int) && lies_in(b, low, high));
        }
    }
}

/// One of a row of bytes.
pub open spec fn lies_in(byte: int, start: int, end: int) -> bool {
    start <= byte < end
}

/// What a step leaves where lines wrap and a piece with columns is drawn in a
/// cell: the glyph there, the position behind it, and the caret before it if it
/// asks for it.
pub open spec fn piece_drawn(
    before: Composition,
    after: Composition,
    piece: PreeditPiece,
    row: int,
    column: int,
    columns: usize,
) -> bool {
    &&& after.glyphs.len() == before.glyphs.len() + 1
    &&& after.glyphs.drop_last() == before.glyphs
    &&& shows_piece(after.glyphs.last(), piece, row, column)
    &&& after.row == row
    &&& after.column == column + piece.width
    &&& after.pending == (column + piece.width >= columns)
    &&& after.previous == Some((row as usize, column as usize))
    &&& after.cleared == before.cleared
    &&& piece.at_caret ==> after.caret == Some((row as usize, column as usize))
    &&& !piece.at_caret ==> after.caret == before.caret
}

/// A glyph is a piece in a cell.
pub open spec fn shows_piece(
    glyph: ImePreeditGlyph,
    piece: PreeditPiece,
    row: int,
    column: int,
) -> bool {
    &&& glyph.character == piece.character
    &&& glyph.byte_start == piece.byte_start
    &&& glyph.byte_end == piece.byte_end
    &&& glyph.width == piece.width
    &&& glyph.selected == piece.selected
    &&& glyph.row == row
    &&& glyph.column == column
}

/// Where lines wrap, a piece is drawn at the position if it fits there, and
/// else, or when a wrap is due, at the start of the next row.
pub proof fn law_composed_text_wraps(
    state: Composition,
    piece: PreeditPiece,
    dimensions: (usize, usize),
    snapshot: Option<&GridSnapshot>,
)
    requires
        0 < piece.width <= dimensions.0 < usize::MAX,
        state.row < dimensions.1 < usize::MAX,
        state.column <= dimensions.0,
    ensures
        ({
            let next = state.step(piece, dimensions, true, snapshot);
            let fits = !state.pending && state.column + piece.width <= dimensions.0;
            &&& fits ==> piece_drawn(
                state,
                next,
                piece,
                state.row as int,
                state.column as int,
                dimensions.0,
            )
            &&& !fits && state.row + 1 < dimensions.1 ==> piece_drawn(
                state,
                next,
                piece,
                state.row + 1,
                0,
                dimensions.0,
            )
            &&& !fits && state.row + 1 == dimensions.1 ==> next.glyphs == state.glyphs
                && next.cleared == state.cleared
        }),
{
    let next = state.step(piece, dimensions, true, snapshot);
    assert(state.glyphs.push(drawn(piece, (state.row, state.column))).drop_last()
        =~= state.glyphs);
    assert(state.glyphs.push(drawn(piece, ((state.row + 1) as usize, 0))).drop_last()
        =~= state.glyphs);
}

/// Where lines do not wrap, a piece stays in the row: one that is due to wrap
/// takes the last column, and one that does not fit is left out.
pub proof fn law_composed_text_without_wrap(
    state: Composition,
    piece: PreeditPiece,
    dimensions: (usize, usize),
    snapshot: Option<&GridSnapshot>,
)
    requires
        0 < piece.width <= dimensions.0 < usize::MAX,
        state.row < dimensions.1,
        state.column <= dimensions.0,
    ensures
        ({
            let next = state.step(piece, dimensions, false, snapshot);
            let column = if state.column < dimensions.0 {
                state.column as int
            } else {
                dimensions.0 - 1
            };
            let fits = column + piece.width <= dimensions.0;
            &&& next.row == state.row
            &&& fits ==> {
                &&& next.glyphs.len() > 0
                &&& shows_piece(next.glyphs.last(), piece, state.row as int, column)
                &&& next.column == column + piece.width
                &&& next.pending == (column + piece.width >= dimensions.0)
                &&& next.previous == Some((state.row, column as usize))
            }
            &&& !fits ==> {
                &&& next.glyphs == state.glyphs
                &&& next.column == column
                &&& next.previous is None
            }
            &&& piece.at_caret ==> next.caret == Some((state.row, column as usize))
            &&& !piece.at_caret ==> next.caret == state.caret
        }),
{
    reveal(Composition::overwritten);
}

/// A scalar without columns is drawn over the glyph before it and moves nothing.
pub proof fn law_composed_marks_go_over(
    state: Composition,
    piece: PreeditPiece,
    dimensions: (usize, usize),
    cell: (usize, usize),
    auto_wrap: bool,
    snapshot: Option<&GridSnapshot>,
)
    requires
        piece.width == 0,
        state.previous == Some(cell),
        cell.0 < dimensions.1,
        cell.1 < dimensions.0,
        auto_wrap || crate::window::composition::anchored(state.glyphs, cell),
    ensures
        ({
            let next = state.step(piece, dimensions, auto_wrap, snapshot);
            &&& next.glyphs.len() == state.glyphs.len() + 1
            &&& next.glyphs.drop_last() == state.glyphs
            &&& shows_piece(next.glyphs.last(), piece, cell.0 as int, cell.1 as int)
            &&& next.row == state.row
            &&& next.column == state.column
            &&& next.pending == state.pending
            &&& next.previous == state.previous
            &&& next.cleared == state.cleared
        }),
{
    assert(state.glyphs.push(drawn(piece, cell)).drop_last() =~= state.glyphs);
}

/// The position counted in cells from the first one of the screen.
pub open spec fn linear(row: int, column: int, columns: int) -> int {
    row * columns + column
}

/// Every piece takes one column.
pub open spec fn all_narrow(pieces: Seq<PreeditPiece>) -> bool {
    forall|i: int| 0 <= i < pieces.len() ==> (#[trigger] pieces[i]).width == 1
}

/// The pieces up to `at` stand side by side from the cell `start` on.
spec fn laid_side_by_side(
    state: Composition,
    pieces: Seq<PreeditPiece>,
    at: int,
    start: int,
    columns: int,
) -> bool {
    &&& state.glyphs.len() == at
    &&& state.column <= columns
    &&& state.pending == (state.column == columns)
    &&& linear(state.row as int, state.column as int, columns) == start + at
    &&& forall|i: int|
        0 <= i < at ==> {
            let glyph = #[trigger] state.glyphs[i];
            &&& shows_piece(glyph, pieces[i], glyph.row as int, glyph.column as int)
            &&& glyph.column < columns
            &&& linear(glyph.row as int, glyph.column as int, columns) == start + i
        }
}

proof fn lemma_side_by_side(
    state: Composition,
    pieces: Seq<PreeditPiece>,
    at: int,
    start: int,
    dimensions: (usize, usize),
    snapshot: Option<&GridSnapshot>,
)
    requires
        all_narrow(pieces),
        0 <= at <= pieces.len(),
        0 < dimensions.0 < usize::MAX,
        0 < dimensions.1 < usize::MAX,
        state.row < dimensions.1,
        laid_side_by_side(state, pieces, at, start, dimensions.0 as int),
        start + pieces.len() <= dimensions.0 * dimensions.1,
    ensures
        laid_side_by_side(
            composed(state, pieces, at, dimensions, true, snapshot),
            pieces,
            pieces.len() as int,
            start,
            dimensions.0 as int,
        ),
    decreases pieces.len() - at,
{
    if at < pieces.len() {
        let piece = pieces[at];
        let columns = dimensions.0 as int;
        let next = state.step(piece, dimensions, true, snapshot);
        law_composed_text_wraps(state, piece, dimensions, snapshot);
        let fits = !state.pending && state.column + 1 <= columns;
        if !fits {
            assert(state.row + 1 < dimensions.1) by (nonlinear_arith)
                requires
                    state.row * columns + columns == start + at,
                    start + at + 1 <= columns * dimensions.1,
                    state.row < dimensions.1,
                    0 < columns,
            ;
            assert((state.row + 1) * columns == state.row * columns + columns) by (nonlinear_arith);
        }
        assert forall|i: int| 0 <= i < at + 1 implies {
            let glyph = #[trigger] next.glyphs[i];
            &&& shows_piece(glyph, pieces[i], glyph.row as int, glyph.column as int)
            &&& glyph.column < columns
            &&& linear(glyph.row as int, glyph.column as int, columns) == start + i
        } by {
            if i < at {
                assert(next.glyphs.drop_last()[i] == state.glyphs[i]);
            }
        }
        lemma_side_by_side(next, pieces, at + 1, start, dimensions, snapshot);
    }
}

/// Composed text of narrow scalars stands side by side from the cursor on, row
/// after row: the scalar `i` is `i` cells behind the cursor.
pub proof fn law_composed_text_follows_the_cursor(
    text: Seq<char>,
    widths: Seq<Option<usize>>,
    cursor: Option<ImePreeditCursor>,
    input_cursor: (usize, usize),
    dimensions: (usize, usize),
)
    requires
        widths.len() == text.len(),
        forall|i: int| 0 <= i < widths.len() ==> #[trigger] widths[i] == Some(1usize),
        0 < dimensions.0 < usize::MAX,
        0 < dimensions.1 < usize::MAX,
        input_cursor.0 < dimensions.1,
        input_cursor.1 <= dimensions.0,
        input_cursor.0 * dimensions.0 + input_cursor.1 + text.len() <= dimensions.0
            * dimensions.1,
        encode_utf8(text).len() <= usize::MAX,
    ensures
        ({
            let glyphs = composition_of(
                text,
                widths,
                cursor,
                input_cursor,
                dimensions,
                true,
                None,
            ).glyphs;
            &&& glyphs.len() == text.len()
            &&& forall|i: int|
                0 <= i < text.len() ==> {
                    let glyph = #[trigger] glyphs[i];
                    &&& glyph.character == text[i]
                    &&& glyph.column < dimensions.0
                    &&& glyph.row * dimensions.0 + glyph.column == input_cursor.0 * dimensions.0
                        + input_cursor.1 + i
                    &&& glyph.byte_start == encode_utf8(text.take(i)).len()
                }
        }),
{
    let pieces = pieces_of(text, widths, cursor, dimensions.0);
    assert forall|i: int| 0 <= i < pieces.len() implies (#[trigger] pieces[i]).width == 1 by {
        assert(widths[i] == Some(1usize));
    }
    let start = linear(
        input_cursor.0 as int,
        input_cursor.1 as int,
        dimensions.0 as int,
    );
    let blank = blank_composition(input_cursor, dimensions, None);
    lemma_side_by_side(blank, pieces, 0, start, dimensions, None);
    let done = composed(blank, pieces, 0, dimensions, true, None);
    assert forall|i: int| 0 <= i < text.len() implies {
        let glyph = #[trigger] done.glyphs[i];
        &&& glyph.character == text[i]
        &&& glyph.column < dimensions.0
        &&& glyph.row * dimensions.0 + glyph.column == start + i
        &&& glyph.byte_start == encode_utf8(text.take(i)).len()
    } by {
        assert(widths[i] == Some(1usize));
        law_composed_pieces(text, widths, cursor, dimensions.0, i);
        assert(shows_piece(
            done.glyphs[i],
            pieces[i],
            done.glyphs[i].row as int,
            done.glyphs[i].column as int,
        ));
    }
}

/// A caret behind the whole text stands in the cell where the next scalar would
/// go, the last one of its row at the margin.
pub proof fn law_caret_behind_the_text(
    text: Seq<char>,
    widths: Seq<Option<usize>>,
    cursor: ImePreeditCursor,
    input_cursor: (usize, usize),
    dimensions: (usize, usize),
    auto_wrap: bool,
    snapshot: Option<&GridSnapshot>,
)
    requires
        0 < dimensions.0,
        0 < dimensions.1,
        cursor.caret == encode_utf8(text).len(),
    ensures
        ({
            let laid = composed(
                blank_composition(input_cursor, dimensions, snapshot),
                pieces_of(text, widths, Some(cursor), dimensions.0),
                0,
                dimensions,
                auto_wrap,
                snapshot,
            );
            let whole = composition_of(
                text,
                widths,
                Some(cursor),
                input_cursor,
                dimensions,
                auto_wrap,
                snapshot,
            );
            &&& whole.glyphs == laid.glyphs
            &&& laid.row < dimensions.1 && laid.column < dimensions.0 ==> whole.caret == Some(
                (laid.row, laid.column),
            )
            &&& laid.row < dimensions.1 && laid.column >= dimensions.0 ==> whole.caret == Some(
                (laid.row, (dimensions.0 - 1) as usize),
            )
            &&& laid.row >= dimensions.1 ==> whole.caret == laid.furthest
        }),
{
}

/// Composition starts at the cursor, with a wrap due as the screen has it, or
/// behind the last column.
pub proof fn law_composition_starts_at_the_cursor(
    input_cursor: (usize, usize),
    dimensions: (usize, usize),
    snapshot: Option<&GridSnapshot>,
)
    ensures
        ({
            let start = blank_composition(input_cursor, dimensions, snapshot);
            &&& start.row == input_cursor.0
            &&& start.column == input_cursor.1
            &&& start.glyphs.len() == 0
            &&& start.caret is None
            &&& start.previous is None
            &&& forall|cell: (usize, usize)| !#[trigger] start.cleared.contains(cell)
            &&& snapshot is None ==> start.pending == (input_cursor.1 == dimensions.0)
            &&& snapshot is Some ==> start.pending == snapshot->0.wrap_pending
        }),
{
}

/// Overwriting columns of a row takes every glyph that reaches into them and
/// keeps the order of the others.
pub proof fn law_overwritten_glyphs(
    all: Seq<ImePreeditGlyph>,
    some: Seq<ImePreeditGlyph>,
    row: usize,
    column: usize,
    end: int,
    glyph: ImePreeditGlyph,
)
    ensures
        remaining_glyphs(all, some, row, column, end).len() <= some.len(),
        remaining_glyphs(all, some, row, column, end).contains(glyph) ==> some.contains(glyph)
            && !(glyph.row == row && glyph.column < end && column < glyph.column + (
        if glyph.width == 0 { 1int } else { glyph.width as int }) && column < usize::MAX),
        some.contains(glyph) && glyph.row != row ==> remaining_glyphs(
            all,
            some,
            row,
            column,
            end,
        ).contains(glyph),
        some.contains(glyph) && glyph.width > 0 && (glyph.column >= end || glyph.column
            + glyph.width <= column) ==> remaining_glyphs(all, some, row, column, end).contains(
            glyph,
        ),
    decreases some.len(),
{
    let kept = remaining_glyphs(all, some, row, column, end);
    if some.len() > 0 {
        let before = some.drop_last();
        let last = some.last();
        let held = remaining_glyphs(all, before, row, column, end);
        law_overwritten_glyphs(all, before, row, column, end, glyph);
        assert(some[some.len() - 1] == last);
        if some.contains(glyph) {
            let i = some.index_of(glyph);
            if i < before.len() {
                assert(before[i] == glyph);
            }
        }
        if before.contains(glyph) {
            let i = before.index_of(glyph);
            assert(some[i] == glyph);
        }
        if stays(all, last, row, column, end) {
            assert(kept == held.push(last));
            assert(kept[held.len() as int] == last);
            if held.contains(glyph) {
                let i = held.index_of(glyph);
                assert(kept[i] == glyph);
            }
            if kept.contains(glyph) {
                let i = kept.index_of(glyph);
                if i < held.len() {
                    assert(held[i] == glyph);
                }
            }
        }
    }
}

/// Glyphs in one cell are selected together: each if any of them is.
pub proof fn law_cells_are_selected_together(glyphs: Seq<ImePreeditGlyph>, i: int, j: int)
    requires
        0 <= i < glyphs.len(),
        0 <= j < glyphs.len(),
    ensures
        ({
            let shown = selected_together(glyphs);
            let same = glyphs[i].row == glyphs[j].row && glyphs[i].column == glyphs[j].column;
            &&& shown.len() == glyphs.len()
            &&& shown[i].character == glyphs[i].character
            &&& shown[i].row == glyphs[i].row
            &&& shown[i].column == glyphs[i].column
            &&& shown[i].width == glyphs[i].width
            &&& shown[i].byte_start == glyphs[i].byte_start
            &&& shown[i].byte_end == glyphs[i].byte_end
            &&& glyphs[j].selected && same ==> shown[i].selected
            &&& same ==> shown[i].selected == shown[j].selected
            &&& shown[i].selected ==> exists|k: int|
                0 <= k < glyphs.len() && (#[trigger] glyphs[k]).selected && glyphs[k].row
                    == glyphs[i].row && glyphs[k].column == glyphs[i].column
        }),
{
    let shown = selected_together(glyphs);
    if shown[i].selected {
        let k = choose|k: int|
            0 <= k < glyphs.len() && (#[trigger] glyphs[k]).selected && (
            glyphs[k].row,
            glyphs[k].column,
            ) == (glyphs[i].row, glyphs[i].column);
        assert(glyphs[k].selected);
    }
}

/// The cells that drawing takes in all: as many as each scalar has columns, and
/// one for each that has none.
pub open spec fn cells_in_all(widths: Seq<Option<usize>>) -> int
    decreases widths.len(),
{
    if widths.len() == 0 {
        0
    } else {
        cells_in_all(widths.drop_last()) + (if widths.last() is None || widths.last() == Some(
            0usize,
        ) {
            1int
        } else {
            widths.last()->0 as int
        })
    }
}

proof fn lemma_cells_grow(widths: Seq<Option<usize>>, at: int)
    requires
        0 <= at <= widths.len(),
    ensures
        0 <= cells_in_all(widths.take(at)) <= cells_in_all(widths),
    decreases widths.len() - at,
{
    if at < widths.len() {
        lemma_cells_grow(widths, at + 1);
        assert(widths.take(at + 1).drop_last() =~= widths.take(at));
        lemma_cells_positive(widths.take(at));
    } else {
        assert(widths.take(at) =~= widths);
        lemma_cells_positive(widths);
    }
}

proof fn lemma_cells_positive(widths: Seq<Option<usize>>)
    ensures
        0 <= cells_in_all(widths),
    decreases widths.len(),
{
    if widths.len() > 0 {
        lemma_cells_positive(widths.drop_last());
    }
}

proof fn lemma_exceeding(widths: Seq<Option<usize>>, at: int, limit: int)
    requires
        0 <= at <= widths.len(),
        0 <= limit <= usize::MAX,
        cells_in_all(widths.take(at)) <= limit,
    ensures
        exceeding_cells(widths, at, cells_in_all(widths.take(at)), limit) is Some
            <==> cells_in_all(widths) > limit && limit < usize::MAX,
    decreases widths.len() - at,
{
    if at < widths.len() {
        let here = cells_in_all(widths.take(at));
        let next = cells_in_all(widths.take(at + 1));
        assert(widths.take(at + 1).drop_last() =~= widths.take(at));
        assert(widths.take(at + 1).last() == widths[at]);
        lemma_cells_grow(widths, at + 1);
        if next > usize::MAX {
            if limit == usize::MAX {
                lemma_capped(widths, at + 1);
            }
        } else if next <= limit {
            lemma_exceeding(widths, at + 1, limit);
        }
    } else {
        assert(widths.take(at) =~= widths);
    }
}

proof fn lemma_capped(widths: Seq<Option<usize>>, at: int)
    requires
        0 <= at <= widths.len(),
    ensures
        exceeding_cells(widths, at, usize::MAX as int, usize::MAX as int) is None,
    decreases widths.len() - at,
{
    if at < widths.len() {
        lemma_capped(widths, at + 1);
    }
}

/// A composed text is too wide exactly if drawing it takes more cells than the
/// limit.
pub proof fn law_wide_texts_are_refused(widths: Seq<Option<usize>>, limit: int)
    requires
        0 <= limit < usize::MAX,
    ensures
        exceeding_cells(widths, 0, 0, limit) is Some <==> cells_in_all(widths) > limit,
{
    assert(widths.take(0) =~= Seq::<Option<usize>>::empty());
    lemma_exceeding(widths, 0, limit);
}

/// The cursor of a composed text keeps its two ends in order, with the caret at
/// the second one; ends inside a scalar hide it.
pub proof fn law_composed_cursors(text: Seq<char>, anchor: usize, caret: usize)
    ensures
        ({
            let cursor = preedit_cursor(text, Some((anchor, caret)));
            let bytes = encode_utf8(text);
            &&& cursor is Some <==> is_char_boundary(bytes, anchor as int) && is_char_boundary(
                bytes,
                caret as int,
            )
            &&& cursor is Some ==> {
                &&& cursor->0.caret == caret
                &&& cursor->0.selection_start <= anchor <= cursor->0.selection_end
                &&& cursor->0.selection_start <= caret <= cursor->0.selection_end
                &&& cursor->0.selection_start == anchor || cursor->0.selection_start == caret
                &&& cursor->0.selection_end == anchor || cursor->0.selection_end == caret
            }
        }),
        preedit_cursor(text, None) is None,
{
}

/// A composed text is taken up whole or not at all.
pub proof fn law_composed_texts_are_taken_whole(text: Seq<char>, cursor: Option<(usize, usize)>)
    ensures
        ({
            let taken = taken_up(text, cursor);
            &&& text.len() == 0 ==> taken is None
            &&& encode_utf8(text).len() > 4096 ==> taken is None
            &&& taken is Some ==> (taken->0).0 == text && (taken->0).1 == preedit_cursor(
                text,
                cursor,
            )
        }),
{
}


/// Overwriting blanks no cell that it writes, keeps what was blanked elsewhere,
/// and blanks the other half of every glyph of the screen that it cuts.
pub proof fn law_blanked_by_overwriting(
    state: Composition,
    snapshot: &GridSnapshot,
    row: usize,
    column: usize,
    width: int,
    cell: (usize, usize),
)
    requires
        0 < width,
        column + width < usize::MAX,
        0 < snapshot.columns,
        row * snapshot.columns + column + width < snapshot.cells@.len() <= usize::MAX,
        column + width < snapshot.columns,
    ensures
        ({
            let after = state.overwritten(Some(snapshot), row, column, width);
            let end = column + width;
            let index = row * snapshot.columns;
            &&& cell.0 == row && column <= cell.1 < end ==> !after.cleared.contains(cell)
            &&& state.cleared.contains(cell) && !(cell.0 == row && column <= cell.1 < end)
                ==> after.cleared.contains(cell)
            &&& cell.0 != row && !state.cleared.contains(cell) ==> !after.cleared.contains(cell)
            &&& column > 0 && snapshot.cells@[index + column].flags.has(CellFlags::WIDE_CONT)
                ==> after.cleared.contains((row, (column - 1) as usize))
            &&& snapshot.cells@[index + end - 1].flags.has(CellFlags::WIDE)
                && !snapshot.cells@[index + end - 1].flags.has(CellFlags::WIDE_CONT)
                ==> after.cleared.contains((row, end as usize))
            &&& after.caret == state.caret
            &&& after.row == state.row
            &&& after.column == state.column
        }),
{
    reveal(Composition::overwritten);
    let end = column + width;
    assert(0 <= row * snapshot.columns) by (nonlinear_arith)
        requires
            0 <= row,
            0 <= snapshot.columns,
    ;
    assert(row * snapshot.columns + (end - 1) == row * snapshot.columns + end - 1);
    if column > 0 && snapshot.cells@[row * snapshot.columns + column].flags.has(
        CellFlags::WIDE_CONT,
    ) {
        assert(partner(*snapshot, row, column as int) == Some(column - 1));
        assert(screen_leftover(
            Some(snapshot),
            (row, (column - 1) as usize),
            row,
            column,
            end,
        ));
    }
    let last = row * snapshot.columns + end - 1;
    if snapshot.cells@[last].flags.has(CellFlags::WIDE) && !snapshot.cells@[last].flags.has(
        CellFlags::WIDE_CONT,
    ) {
        assert(partner(*snapshot, row, end - 1) == Some(end));
        assert(screen_leftover(Some(snapshot), (row, end as usize), row, column, end));
    }
}


/// A scalar without columns and without a glyph before it is drawn in the cell
/// where the next one would go, the last one of its row at the margin.
pub proof fn law_composed_marks_alone(
    state: Composition,
    piece: PreeditPiece,
    dimensions: (usize, usize),
    snapshot: Option<&GridSnapshot>,
)
    requires
        piece.width == 0,
        state.previous is None,
        !state.pending,
        state.row < dimensions.1,
        state.column < dimensions.0,
    ensures
        ({
            let next = state.step(piece, dimensions, true, snapshot);
            &&& next.glyphs.len() == state.glyphs.len() + 1
            &&& shows_piece(
                next.glyphs.last(),
                piece,
                state.row as int,
                state.column as int,
            )
            &&& next.row == state.row
            &&& next.column == state.column
        }),
{
}

/// The furthest cell is the later one in reading order.
pub proof fn law_later_cells(one: (usize, usize), other: (usize, usize))
    ensures
        later_cell(None, other) == Some(other),
        one.0 < other.0 ==> later_cell(Some(one), other) == Some(other),
        one.0 > other.0 ==> later_cell(Some(one), other) == Some(one),
        one.0 == other.0 && one.1 < other.1 ==> later_cell(Some(one), other) == Some(other),
        one.0 == other.0 && one.1 >= other.1 ==> later_cell(Some(one), other) == Some(one),
{
}


/// What becomes of a text that is being composed: an empty one clears, one with
/// too many bytes or too many cells is refused with its size and the limit, and
/// any other is taken up with its cursor.
pub proof fn law_composed_payloads(
    payload: ImePreeditPayload,
    text: Seq<char>,
    widths: Seq<Option<usize>>,
    cursor: Option<(usize, usize)>,
    byte_limit: usize,
    cell_limit: usize,
)
    requires
        payload_matches(payload, text, widths, cursor, byte_limit, cell_limit),
        cell_limit < usize::MAX,
        encode_utf8(text).len() <= usize::MAX,
    ensures
        ({
            let bytes = encode_utf8(text).len();
            &&& text.len() == 0 ==> payload is Clear
            &&& text.len() > 0 && bytes > byte_limit ==> match payload {
                ImePreeditPayload::TooManyBytes { byte_count, limit } => byte_count == bytes
                    && limit == byte_limit,
                _ => false,
            }
            &&& text.len() > 0 && bytes <= byte_limit && cells_in_all(widths) > cell_limit
                ==> match payload {
                ImePreeditPayload::TooManyRenderCells { cell_count, limit } => limit == cell_limit,
                _ => false,
            }
            &&& text.len() > 0 && bytes <= byte_limit && cells_in_all(widths) <= cell_limit
                ==> match payload {
                ImePreeditPayload::Text(taken) => taken.text@ == text && taken.cursor
                    == preedit_cursor(text, cursor),
                _ => false,
            }
        }),
{
    law_wide_texts_are_refused(widths, cell_limit as int);
}

/// A laid-out text shows its glyphs, its blanked cells in reading order and its
/// caret; with the cursor off the screen nothing is shown.
pub proof fn law_layouts_show_compositions(
    layout: ImePreeditLayout,
    text: Seq<char>,
    widths: Seq<Option<usize>>,
    cursor: Option<ImePreeditCursor>,
    input_cursor: (usize, usize),
    dimensions: (usize, usize),
    auto_wrap: bool,
    snapshot: Option<&GridSnapshot>,
    cell: (usize, usize),
)
    requires
        layout_matches(
            layout,
            text,
            widths,
            cursor,
            input_cursor,
            dimensions,
            auto_wrap,
            snapshot,
        ),
    ensures
        ({
            let whole = composition_of(
                text,
                widths,
                cursor,
                input_cursor,
                dimensions,
                auto_wrap,
                snapshot,
            );
            let inside = input_cursor.0 < dimensions.1 && input_cursor.1 <= dimensions.0
                && dimensions.0 > 0 && dimensions.1 > 0;
            &&& inside ==> {
                &&& layout.glyphs@.len() == whole.glyphs.len()
                &&& layout.caret_cell == whole.caret
                &&& layout.cleared_cells@.contains(cell) <==> whole.cleared.contains(cell)
                &&& forall|i: int|
                    0 <= i < whole.glyphs.len() ==> {
                        let shown = #[trigger] layout.glyphs@[i];
                        &&& shown.character == whole.glyphs[i].character
                        &&& shown.row == whole.glyphs[i].row
                        &&& shown.column == whole.glyphs[i].column
                        &&& shown.width == whole.glyphs[i].width
                        &&& whole.glyphs[i].selected ==> shown.selected
                    }
            }
            &&& !inside ==> layout.glyphs@.len() == 0 && layout.cleared_cells@.len() == 0
                && layout.caret_cell is None
        }),
{
    let whole = composition_of(
        text,
        widths,
        cursor,
        input_cursor,
        dimensions,
        auto_wrap,
        snapshot,
    );
    assert(layout.cleared_cells@.contains(cell) <==> layout.cleared_cells@.to_set().contains(cell));
    assert forall|i: int|
        0 <= i < whole.glyphs.len() && whole.glyphs[i].selected implies #[trigger] selected_together(
        whole.glyphs,
    )[i].selected by {
        assert(whole.glyphs[i].selected);
    }
}


/// The nearest cell on the screen: each side by itself, limited to the last.
pub proof fn law_nearest_cells(row: usize, column: usize, dimensions: (usize, usize))
    requires
        dimensions.0 > 0,
        dimensions.1 > 0,
    ensures
        row < dimensions.1 ==> nearest_cell(row, column, dimensions).0 == row,
        row >= dimensions.1 ==> nearest_cell(row, column, dimensions).0 + 1 == dimensions.1,
        column < dimensions.0 ==> nearest_cell(row, column, dimensions).1 == column,
        column >= dimensions.0 ==> nearest_cell(row, column, dimensions).1 + 1 == dimensions.0,
{
}

} // verus!
