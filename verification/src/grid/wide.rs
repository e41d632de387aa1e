//! Two-column glyphs: a leading cell and a continuation cell that are only
//! valid together.
use crate::grid::buffer::{cell_views, Buffer};
use crate::grid::cell::{law_flag_updates, Cell, CellFlags, CellView};
use vstd::prelude::*;

verus! {

/// A leading cell that has lost its continuation.
pub open spec fn blanked_leader(cell: CellView) -> CellView {
    CellView { c: ' ', text: None, flags: cell.flags.without(CellFlags::WIDE), ..cell }
}

/// A continuation cell that has lost its leader.
pub open spec fn blanked_continuation(cell: CellView) -> CellView {
    CellView { c: ' ', text: None, flags: cell.flags.without(CellFlags::WIDE_CONT), ..cell }
}

/// The row before columns `col..end` are overwritten: the halves of glyphs
/// that would be left over outside are blanked.
pub open spec fn overlap_cleared(cells: Seq<CellView>, col: int, end: int) -> Seq<CellView> {
    Seq::new(
        cells.len(),
        |i: int|
            if i == col - 1 && col < cells.len() && cells[col].continuation() {
                blanked_leader(cells[i])
            } else if col < i <= end && cells[i - 1].wide() {
                blanked_continuation(cells[i])
            } else {
                cells[i]
            },
    )
}

/// A cell that is half of a glyph whose other half is missing. A one-column
/// row shows a wide glyph in its only cell.
pub open spec fn orphaned(cells: Seq<CellView>, i: int) -> bool
    decreases i,
{
    ||| cells[i].wide() && cells.len() > 1 && (i + 1 == cells.len()
        || !cells[i + 1].continuation())
    ||| cells[i].continuation() && (i <= 0 || !cells[i - 1].wide() || orphaned(cells, i - 1))
}

/// The row with every orphaned half replaced.
pub open spec fn repaired(cells: Seq<CellView>, template: CellView) -> Seq<CellView> {
    Seq::new(cells.len(), |i: int| if orphaned(cells, i) { template } else { cells[i] })
}

/// Every leading cell is followed by its continuation, every continuation
/// follows its leader, and no cell is both.
pub open spec fn paired(cells: Seq<CellView>) -> bool {
    &&& forall|i: int|
        0 <= i < cells.len() && (#[trigger] cells[i]).wide() && cells.len() > 1 ==> i + 1
            < cells.len() && cells[i + 1].continuation()
    &&& forall|i: int|
        0 <= i < cells.len() && (#[trigger] cells[i]).continuation() ==> i > 0 && cells[i
            - 1].wide()
    &&& one_half_each(cells)
}

/// No cell is both a leading and a continuation cell.
pub open spec fn one_half_each(cells: Seq<CellView>) -> bool {
    forall|i: int|
        0 <= i < cells.len() ==> !((#[trigger] cells[i]).wide() && cells[i].continuation())
}

/// The flags that clearing one half leaves.
pub proof fn lemma_half_flags(flags: CellFlags)
    ensures
        !flags.without(CellFlags::WIDE).has(CellFlags::WIDE),
        !flags.without(CellFlags::WIDE_CONT).has(CellFlags::WIDE_CONT),
        flags.without(CellFlags::WIDE_CONT).has(CellFlags::WIDE) == flags.has(CellFlags::WIDE),
        flags.without(CellFlags::WIDE).has(CellFlags::WIDE_CONT) == flags.has(
            CellFlags::WIDE_CONT,
        ),
        !(CellFlags { bits: 0 }).has(CellFlags::WIDE),
        !(CellFlags { bits: 0 }).has(CellFlags::WIDE_CONT),
        (CellFlags { bits: CellFlags::WIDE_CONT }).has(CellFlags::WIDE_CONT),
        !(CellFlags { bits: CellFlags::WIDE_CONT }).has(CellFlags::WIDE),
        flags.with(CellFlags::WIDE).has(CellFlags::WIDE),
        flags.without(CellFlags::WIDE | CellFlags::WIDE_CONT) == flags.without(
            CellFlags::WIDE,
        ).without(CellFlags::WIDE_CONT),
        flags.with(CellFlags::WIDE).without(CellFlags::WIDE_CONT).has(CellFlags::WIDE),
{
    let bits = flags.bits;
    assert(16u8 & 32u8 == 0 && 32u8 & 16u8 == 0 && 0u8 & 16u8 == 0 && 0u8 & 32u8 == 0 && 32u8
        & 32u8 == 32u8) by (bit_vector);
    law_flag_updates(flags, CellFlags::WIDE, CellFlags::WIDE_CONT);
    law_flag_updates(flags, CellFlags::WIDE_CONT, CellFlags::WIDE);
    law_flag_updates(flags.with(CellFlags::WIDE), CellFlags::WIDE_CONT, CellFlags::WIDE);
    assert(bits & !(16u8 | 32u8) == (bits & !16u8) & !32u8) by (bit_vector);
}

/// Repairing a row whose cells are at most one half each leaves only whole
/// glyphs.
pub proof fn law_repaired_rows_are_paired(cells: Seq<CellView>, template: CellView)
    requires
        one_half_each(cells),
        !template.wide(),
        !template.continuation(),
    ensures
        paired(repaired(cells, template)),
{
    let fixed = repaired(cells, template);
    assert forall|i: int|
        0 <= i < fixed.len() && (#[trigger] fixed[i]).wide() && fixed.len() > 1 implies i + 1
        < fixed.len() && fixed[i + 1].continuation() by {
        assert(!orphaned(cells, i));
        assert(cells[i].wide());
        assert(cells[i + 1].continuation());
        assert(!cells[i + 1].wide());
        assert(!orphaned(cells, i + 1));
    }
    assert forall|i: int| 0 <= i < fixed.len() && (#[trigger] fixed[i]).continuation() implies i > 0
        && fixed[i - 1].wide() by {
        assert(!orphaned(cells, i));
    }
    assert forall|i: int| 0 <= i < fixed.len() implies !((#[trigger] fixed[i]).wide()
        && fixed[i].continuation()) by {
        assert(!(cells[i].wide() && cells[i].continuation()));
    }
}

/// A row of whole glyphs needs no repair.
pub proof fn law_paired_rows_need_no_repair(cells: Seq<CellView>, template: CellView)
    requires
        paired(cells),
    ensures
        repaired(cells, template) == cells,
{
    assert forall|i: int| 0 <= i < cells.len() implies !orphaned(cells, i) by {
        if cells[i].continuation() {
            assert(cells[i - 1].wide());
            assert(!cells[i - 1].continuation());
            assert(!orphaned(cells, i - 1));
        }
    }
    assert(repaired(cells, template) =~= cells);
}

/// Blank the halves of glyphs that overwriting columns `col..col + width` would
/// leave over.
pub(crate) fn clear_wide_overlap(buffer: &mut Buffer, row: usize, col: usize, width: usize)
    requires
        old(buffer).wf(),
        row < old(buffer)@.rows.len(),
    ensures
        final(buffer).wf(),
        final(buffer)@ == old(buffer)@.with_cells(
            row as int,
            overlap_cleared(
                old(buffer)@.rows[row as int].cells,
                col as int,
                if col + width < old(buffer)@.cols {
                    col + width
                } else {
                    old(buffer)@.cols
                },
            ),
        ),
{
    let cols: usize = buffer.cols();
    let end: usize = if col < cols && width < cols - col { col + width } else { cols };
    let ghost start = buffer@;
    let ghost cells = buffer@.rows[row as int].cells;
    let ghost cleared = |i: int, done: int|
        if i == col - 1 && col < cells.len() && cells[col as int].continuation() {
            blanked_leader(cells[i])
        } else if col < i <= done && cells[i - 1].wide() {
            blanked_continuation(cells[i])
        } else {
            cells[i]
        };
    proof {
        buffer.lemma_shape();
    }
    if col < cols && col > 0 && buffer.cell(row, col).flags.contains(CellFlags::WIDE_CONT) {
        let previous = buffer.cell_mut(row, col - 1);
        previous.c = ' ';
        previous.grapheme = None;
        previous.flags.remove(CellFlags::WIDE);
    }
    let mut at: usize = col;
    proof {
        assert(buffer@ =~~= start.with_cells(
            row as int,
            Seq::new(cells.len(), |i: int| cleared(i, col as int)),
        ));
    }
    while at < end
        invariant
            buffer.wf(),
            row < start.rows.len(),
            start == old(buffer)@,
            start.shaped(),
            cells == start.rows[row as int].cells,
            cols == start.cols,
            cells.len() == cols,
            col <= at,
            end <= cols,
            at <= end || at == col,
            cleared == (|i: int, done: int|
                if i == col - 1 && col < cells.len() && cells[col as int].continuation() {
                    blanked_leader(cells[i])
                } else if col < i <= done && cells[i - 1].wide() {
                    blanked_continuation(cells[i])
                } else {
                    cells[i]
                }),
            buffer@ == start.with_cells(
                row as int,
                Seq::new(cells.len(), |i: int| cleared(i, at as int)),
            ),
        decreases end - at,
    {
        proof {
            lemma_half_flags(cells[at as int].flags);
        }
        if buffer.cell(row, at).flags.contains(CellFlags::WIDE) && at + 1 < cols {
            let next = buffer.cell_mut(row, at + 1);
            next.c = ' ';
            next.grapheme = None;
            next.flags.remove(CellFlags::WIDE_CONT);
        }
        at += 1;
        proof {
            assert(buffer@ =~~= start.with_cells(
                row as int,
                Seq::new(cells.len(), |i: int| cleared(i, at as int)),
            ));
        }
    }
    proof {
        assert(buffer@ =~~= start.with_cells(
            row as int,
            overlap_cleared(
                cells,
                col as int,
                if col + width < start.cols {
                    col + width
                } else {
                    start.cols
                },
            ),
        ));
    }
}

/// Replace the halves of glyphs whose other half is missing.
pub(crate) fn repair_wide_cells(cells: &mut [Cell], template: &Cell)
    requires
        !template@.wide(),
    ensures
        final(cells)@.len() == old(cells)@.len(),
        cell_views(final(cells)@) == repaired(cell_views(old(cells)@), template@),
{
    let ghost before = cell_views(cells@);
    let count: usize = cells.len();
    let mut col: usize = 0;
    while col < count
        invariant
            col <= count,
            count == cells@.len(),
            count == before.len(),
            before == cell_views(old(cells)@),
            !template@.wide(),
            forall|i: int|
                0 <= i < count ==> (#[trigger] cells@[i])@ == if i < col && orphaned(before, i) {
                    template@
                } else {
                    before[i]
                },
        decreases count - col,
    {
        let flags: CellFlags = cells[col].flags;
        assert(cells@[col as int]@ == before[col as int]);
        if col > 0 {
            assert(cells@[col - 1]@ == if orphaned(before, col - 1) {
                template@
            } else {
                before[col - 1]
            });
        }
        let orphaned_leader: bool = flags.contains(CellFlags::WIDE) && count > 1 && (col + 1
            == count || !cells[col + 1].flags.contains(CellFlags::WIDE_CONT));
        let orphaned_continuation: bool = flags.contains(CellFlags::WIDE_CONT) && (col == 0
            || !cells[col - 1].flags.contains(CellFlags::WIDE));
        if orphaned_leader || orphaned_continuation {
            cells[col] = template.clone();
        }
        col += 1;
    }
    proof {
        assert(cell_views(cells@) =~= repaired(before, template@));
    }
}

/// Replace the halves of glyphs in a row whose other half is missing.
pub(crate) fn repair_wide_buffer_row(buffer: &mut Buffer, row: usize, template: &Cell)
    requires
        old(buffer).wf(),
        row < old(buffer)@.rows.len(),
        !template@.wide(),
    ensures
        final(buffer).wf(),
        final(buffer)@ == old(buffer)@.with_cells(
            row as int,
            repaired(old(buffer)@.rows[row as int].cells, template@),
        ),
{
    let cells = buffer.row_mut(row);
    repair_wide_cells(cells, template);
}

} // verus!
