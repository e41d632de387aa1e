//! What becomes of two-column glyphs that are cut.
use crate::grid::cell::CellView;
use crate::grid::edit::erased_row;
use crate::grid::buffer::RowView;
use crate::grid::terminal::Pen;
use crate::grid::wide::{
    law_paired_rows_need_no_repair, lemma_half_flags, orphaned, overlap_cleared, paired, repaired,
};
use crate::grid::write::glyph_in_row;
use vstd::prelude::*;

verus! {

/// A cell was emptied and keeps its colors.
pub open spec fn emptied(before: CellView, after: CellView) -> bool {
    &&& after.c == ' '
    &&& after.text is None
    &&& after.fg == before.fg
    &&& after.bg == before.bg
    &&& after.underline_style == before.underline_style
    &&& after.underline_color == before.underline_color
    &&& !after.wide()
    &&& !after.continuation()
}

/// Before columns are overwritten, a glyph that reaches into them from the left
/// or out of them to the right is emptied outside of them, in its colors. Other
/// cells outside do not change.
pub proof fn law_cut_glyphs_are_emptied(cells: Seq<CellView>, col: int, end: int)
    requires
        paired(cells),
        cells.len() > 1,
        0 <= col < end <= cells.len(),
    ensures
        ({
            let after = overlap_cleared(cells, col, end);
            &&& after.len() == cells.len()
            &&& forall|i: int|
                0 <= i < col - 1 || end < i < cells.len() ==> #[trigger] after[i] == cells[i]
            &&& col > 0 && cells[col - 1].wide() ==> emptied(cells[col - 1], after[col - 1])
            &&& col > 0 && !cells[col - 1].wide() ==> after[col - 1] == cells[col - 1]
            &&& end < cells.len() && cells[end].continuation() ==> emptied(cells[end], after[end])
            &&& end < cells.len() && !cells[end].continuation() ==> after[end] == cells[end]
        }),
{
    let after = overlap_cleared(cells, col, end);
    if col > 0 {
        lemma_half_flags(cells[col - 1].flags);
        assert(!(cells[col - 1].wide() && cells[col - 1].continuation()));
        if cells[col - 1].wide() {
            assert(cells[col].continuation());
        }
        if cells[col].continuation() {
            assert(cells[col - 1].wide());
        }
    }
    if end < cells.len() {
        lemma_half_flags(cells[end].flags);
        assert(!(cells[end].wide() && cells[end].continuation()));
        if cells[end].continuation() {
            assert(cells[end - 1].wide());
        }
        if cells[end - 1].wide() {
            assert(cells[end].continuation());
        }
    }
}

/// A glyph that overwrites `a` columns of whole glyphs empties what it cuts, and
/// leaves the rest of the row alone.
pub proof fn law_overwriting_glyphs(
    cells: Seq<CellView>,
    col: int,
    glyph: CellView,
    wide: bool,
    a: int,
    blank: CellView,
)
    requires
        paired(cells),
        cells.len() > 1,
        0 <= col,
        a == if wide { 2int } else { 1 },
        col + a <= cells.len(),
    ensures
        ({
            let after = glyph_in_row(cells, col, glyph, wide, a, false, blank);
            let end = col + a;
            &&& after.len() == cells.len()
            &&& after[col] == glyph
            &&& forall|i: int|
                0 <= i < col - 1 || end < i < cells.len() ==> #[trigger] after[i] == cells[i]
            &&& col > 0 && cells[col - 1].wide() ==> emptied(cells[col - 1], after[col - 1])
            &&& col > 0 && !cells[col - 1].wide() ==> after[col - 1] == cells[col - 1]
            &&& end < cells.len() && cells[end].continuation() ==> emptied(cells[end], after[end])
            &&& end < cells.len() && !cells[end].continuation() ==> after[end] == cells[end]
        }),
{
    reveal(glyph_in_row);
    law_cut_glyphs_are_emptied(cells, col, col + a);
}

/// A half whose other half is missing becomes the given blank, and every other
/// cell stays.
pub proof fn law_repairs(cells: Seq<CellView>, blank: CellView, i: int)
    requires
        0 <= i < cells.len(),
    ensures
        cells.len() == 1 && !cells[0].continuation() ==> repaired(cells, blank)[0] == cells[0],
        cells.len() > 1 ==> ({
            let after = repaired(cells, blank);
            let leads = cells[i].wide();
            let follows = cells[i].continuation();
            &&& after.len() == cells.len()
            &&& !leads && !follows ==> after[i] == cells[i]
            &&& leads && (i + 1 == cells.len() || !cells[i + 1].continuation()) ==> after[i] == blank
            &&& leads && !follows && i + 1 < cells.len() && cells[i + 1].continuation() ==> after[i]
                == cells[i]
            &&& follows && (i == 0 || !cells[i - 1].wide()) ==> after[i] == blank
            &&& follows && !leads && i > 0 && cells[i - 1].wide() && !cells[i - 1].continuation()
                ==> after[i] == cells[i]
        }),
{
    if i > 0 && cells[i - 1].wide() && !cells[i - 1].continuation() && cells[i].continuation() {
        assert(!orphaned(cells, i - 1));
    }
}

/// Erasing columns of whole glyphs blanks them, and changes no cell further away
/// than the other half of a glyph that is cut.
pub proof fn law_erasing_whole_glyphs(row: RowView, start: int, end: int, pen: Pen)
    requires
        paired(row.cells),
        row.cells.len() > 1,
        0 <= start < end <= row.cells.len(),
    ensures
        ({
            let after = erased_row(row, start, end, pen.blank()).cells;
            &&& after.len() == row.cells.len()
            &&& forall|i: int| start <= i < end ==> #[trigger] after[i] == pen.blank()
            &&& forall|i: int|
                0 <= i < start - 1 || end < i < row.cells.len() ==> #[trigger] after[i]
                    == row.cells[i]
            &&& start > 0 && !row.cells[start - 1].wide() ==> after[start - 1] == row.cells[start
                - 1]
            &&& end < row.cells.len() && !row.cells[end].continuation() ==> after[end]
                == row.cells[end]
            &&& start > 0 && row.cells[start - 1].wide() ==> after[start - 1].c == ' '
            &&& end < row.cells.len() && row.cells[end].continuation() ==> after[end].c == ' '
        }),
{
    law_cut_glyphs_are_emptied(row.cells, start, end);
    lemma_erased_whole(row, start, end, pen.blank());
}

proof fn lemma_erased_whole(row: RowView, start: int, end: int, blank: CellView)
    requires
        paired(row.cells),
        row.cells.len() > 1,
        0 <= start < end <= row.cells.len(),
        blank.flags.bits == 0,
    ensures
        ({
            let after = erased_row(row, start, end, blank).cells;
            let cleared = overlap_cleared(row.cells, start, end);
            &&& after.len() == row.cells.len()
            &&& forall|i: int| start <= i < end ==> #[trigger] after[i] == blank
            &&& forall|i: int|
                0 <= i < start || end <= i < row.cells.len() ==> #[trigger] after[i] == cleared[i]
        }),
{
    reveal(erased_row);
    lemma_half_flags(blank.flags);
    let cleared = overlap_cleared(row.cells, start, end);
    let after = erased_row(row, start, end, blank).cells;
    assert(exists|filled: Seq<CellView>|
        is_filled(filled, cleared, start, end, blank) && after == #[trigger] repaired(
            filled,
            blank,
        ));
    let filled = choose|filled: Seq<CellView>|
        is_filled(filled, cleared, start, end, blank) && after == #[trigger] repaired(
            filled,
            blank,
        );
    lemma_filled_paired(row.cells, start, end, blank, filled);
    law_paired_rows_need_no_repair(filled, blank);
}

/// Cells with columns `start..end` filled.
spec fn is_filled(
    filled: Seq<CellView>,
    cells: Seq<CellView>,
    start: int,
    end: int,
    blank: CellView,
) -> bool {
    &&& filled.len() == cells.len()
    &&& forall|i: int| start <= i < end ==> #[trigger] filled[i] == blank
    &&& forall|i: int|
        0 <= i < start || end <= i < cells.len() ==> #[trigger] filled[i] == cells[i]
}

proof fn lemma_filled_paired(
    cells: Seq<CellView>,
    start: int,
    end: int,
    blank: CellView,
    filled: Seq<CellView>,
)
    requires
        paired(cells),
        cells.len() > 1,
        0 <= start < end <= cells.len(),
        !blank.wide(),
        !blank.continuation(),
        filled.len() == cells.len(),
        forall|i: int| start <= i < end ==> #[trigger] filled[i] == blank,
        forall|i: int|
            0 <= i < start || end <= i < cells.len() ==> #[trigger] filled[i] == overlap_cleared(
                cells,
                start,
                end,
            )[i],
    ensures
        paired(filled),
{
    law_cut_glyphs_are_emptied(cells, start, end);
    assert forall|i: int| 0 <= i < filled.len() implies {
        &&& ((#[trigger] filled[i]).wide() ==> i + 1 < filled.len() && filled[i
            + 1].continuation())
        &&& (filled[i].continuation() ==> i > 0 && filled[i - 1].wide())
        &&& !(filled[i].wide() && filled[i].continuation())
    } by {
        assert(!(cells[i].wide() && cells[i].continuation()));
        if cells[i].wide() {
            assert(cells[i + 1].continuation());
        }
        if cells[i].continuation() {
            assert(cells[i - 1].wide());
        }
    }
}

} // verus!
