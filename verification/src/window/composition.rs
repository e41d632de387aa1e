//! Text that an input method is still composing, laid out over the screen.
use crate::grid::cell::CellFlags;
use crate::input::paste::{lemma_encoding_of_push, lemma_prefix_is_shorter, utf8_len};
use crate::text::chars_of;
use crate::window::preedit::{
    scalar_widths, widths_of, ImePreedit, ImePreeditCursor, IME_PREEDIT_REPLACEMENT,
};
use crate::window::snapshot::GridSnapshot;
use vstd::prelude::*;
use vstd::utf8::encode_utf8;

verus! {

/// A drawn scalar of a composed text: its bytes, its cell and its columns, none
/// for one that is drawn over the glyph before it.
#[derive(Debug, Clone, Copy, PartialEq, Eq, Structural)]
pub struct ImePreeditGlyph {
    pub character: char,
    pub byte_start: usize,
    pub byte_end: usize,
    pub row: usize,
    pub column: usize,
    pub width: u8,
    pub selected: bool,
}

/// The drawn scalars, the cells that are blanked besides, in order, and the
/// cell of the caret.
#[derive(Debug)]
pub struct ImePreeditLayout {
    pub glyphs: Vec<ImePreeditGlyph>,
    pub cleared_cells: Vec<(usize, usize)>,
    pub caret_cell: Option<(usize, usize)>,
}

impl Default for ImePreeditLayout {
    fn default() -> (r: ImePreeditLayout)
        ensures
            r.glyphs@.len() == 0,
            r.cleared_cells@.len() == 0,
            r.caret_cell is None,
    {
        ImePreeditLayout { glyphs: Vec::new(), cleared_cells: Vec::new(), caret_cell: None }
    }
}

/// The composed text while it is laid out.
pub ghost struct Composition {
    pub glyphs: Seq<ImePreeditGlyph>,
    pub cleared: Set<(usize, usize)>,
    pub caret: Option<(usize, usize)>,
    pub row: usize,
    pub column: usize,
    pub pending: bool,
    /// The cell of the last glyph that others can be drawn over.
    pub previous: Option<(usize, usize)>,
    /// The furthest cell that was drawn.
    pub furthest: Option<(usize, usize)>,
}

/// A scalar of a composed text as it is to be drawn.
#[derive(Debug, Clone, Copy, PartialEq, Eq, Structural)]
pub struct PreeditPiece {
    pub character: char,
    pub byte_start: usize,
    pub byte_end: usize,
    pub width: u8,
    pub selected: bool,
    /// The caret stands before it.
    pub at_caret: bool,
}

/// One cell comes before another in reading order.
pub open spec fn cell_before(left: (usize, usize), right: (usize, usize)) -> bool {
    left.0 < right.0 || (left.0 == right.0 && left.1 < right.1)
}

pub open spec fn later_cell(cell: Option<(usize, usize)>, other: (usize, usize)) -> Option<
    (usize, usize),
> {
    match cell {
        Some(cell) => if cell_before(cell, other) { Some(other) } else { Some(cell) },
        None => Some(other),
    }
}

/// A sum that stops at the largest `usize`.
pub open spec fn capped_sum(a: int, b: int) -> usize {
    if a + b > usize::MAX { usize::MAX } else { (a + b) as usize }
}

/// The columns that a glyph covers.
pub open spec fn covered(glyph: ImePreeditGlyph) -> int {
    if glyph.width < 1 { 1 } else { glyph.width as int }
}

/// A glyph covers part of columns `column..end` of a row.
pub open spec fn overlaps(glyph: ImePreeditGlyph, row: usize, column: usize, end: int) -> bool {
    glyph.row == row && glyph.column < end && column < capped_sum(
        glyph.column as int,
        covered(glyph),
    )
}

/// A cell whose own glyph is overwritten.
pub open spec fn lost_anchor(
    glyphs: Seq<ImePreeditGlyph>,
    cell: (usize, usize),
    row: usize,
    column: usize,
    end: int,
) -> bool {
    exists|i: int|
        0 <= i < glyphs.len() && (#[trigger] glyphs[i]).width > 0 && overlaps(
            glyphs[i],
            row,
            column,
            end,
        ) && (glyphs[i].row, glyphs[i].column) == cell
}

/// A glyph stays when columns `column..end` of a row are overwritten.
pub open spec fn stays(
    all: Seq<ImePreeditGlyph>,
    glyph: ImePreeditGlyph,
    row: usize,
    column: usize,
    end: int,
) -> bool {
    !overlaps(glyph, row, column, end) && !(glyph.width == 0 && lost_anchor(
        all,
        (glyph.row, glyph.column),
        row,
        column,
        end,
    ))
}

/// The glyphs among `some` that stay.
pub open spec fn remaining_glyphs(
    all: Seq<ImePreeditGlyph>,
    some: Seq<ImePreeditGlyph>,
    row: usize,
    column: usize,
    end: int,
) -> Seq<ImePreeditGlyph>
    decreases some.len(),
{
    if some.len() == 0 {
        some
    } else {
        let before = remaining_glyphs(all, some.drop_last(), row, column, end);
        if stays(all, some.last(), row, column, end) { before.push(some.last()) } else { before }
    }
}

/// A cell outside columns `column..end` that an overwritten glyph leaves over.
pub open spec fn leftover(
    glyphs: Seq<ImePreeditGlyph>,
    cell: (usize, usize),
    row: usize,
    column: usize,
    end: int,
) -> bool {
    &&& cell.0 == row
    &&& !(column <= cell.1 < end)
    &&& exists|i: int|
        0 <= i < glyphs.len() && (#[trigger] glyphs[i]).width > 0 && overlaps(
            glyphs[i],
            row,
            column,
            end,
        ) && glyphs[i].column <= cell.1 < capped_sum(glyphs[i].column as int, covered(glyphs[i]))
}

/// The other half of a glyph on the screen.
pub open spec fn partner(snapshot: GridSnapshot, row: usize, column: int) -> Option<int> {
    match snapshot.cell_view(row as int, column) {
        Some(cell) => if cell.continuation() {
            if column > 0 { Some(column - 1) } else { None }
        } else if cell.wide() {
            if column < usize::MAX { Some(column + 1) } else { None }
        } else {
            None
        },
        None => None,
    }
}

/// A cell outside columns `column..end` that half a glyph on the screen leaves
/// over.
pub open spec fn screen_leftover(
    snapshot: Option<&GridSnapshot>,
    cell: (usize, usize),
    row: usize,
    column: usize,
    end: int,
) -> bool {
    &&& snapshot is Some
    &&& cell.0 == row
    &&& !(column <= cell.1 < end)
    &&& exists|target: int|
        column <= target < end && #[trigger] partner(*snapshot->0, row, target) == Some(
            cell.1 as int,
        )
}

impl Composition {
    /// Columns `column..column + width` of a row are overwritten: glyphs that
    /// lose a part go as a whole, and what is left of them is blanked.
    #[verifier::opaque]
    pub open spec fn overwritten(
        self,
        snapshot: Option<&GridSnapshot>,
        row: usize,
        column: usize,
        width: int,
    ) -> Composition {
        let end = capped_sum(column as int, width) as int;
        Composition {
            glyphs: remaining_glyphs(self.glyphs, self.glyphs, row, column, end),
            cleared: Set::new(
                |cell: (usize, usize)|
                    (self.cleared.contains(cell) && !(cell.0 == row && column <= cell.1 < end))
                        || leftover(self.glyphs, cell, row, column, end) || screen_leftover(
                        snapshot,
                        cell,
                        row,
                        column,
                        end,
                    ),
            ),
            ..self
        }
    }
}

/// Cells in reading order, none twice.
pub open spec fn in_order(cells: Seq<(usize, usize)>) -> bool {
    forall|i: int, j: int| 0 <= i < j < cells.len() ==> cell_before(#[trigger] cells[i], #[trigger] cells[j])
}

/// Add a cell to cells in reading order.
fn insert_cell(cells: &mut Vec<(usize, usize)>, cell: (usize, usize))
    requires
        in_order(old(cells)@),
    ensures
        in_order(final(cells)@),
        forall|c: (usize, usize)| #[trigger] final(cells)@.contains(c) <==> c == cell || old(
            cells)@.contains(c),
{
    let ghost before = cells@;
    let mut at: usize = 0;
    while at < cells.len() && (cells[at].0 < cell.0 || (cells[at].0 == cell.0 && cells[at].1
        < cell.1))
        invariant
            at <= cells@.len(),
            cells@ == before,
            forall|i: int| 0 <= i < at ==> cell_before(#[trigger] cells@[i], cell),
        decreases cells@.len() - at,
    {
        at += 1;
    }
    if at < cells.len() && cells[at].0 == cell.0 && cells[at].1 == cell.1 {
        proof {
            assert(cells@[at as int] == cell);
            assert(before.contains(cell));
        }
        return;
    }
    cells.insert(at, cell);
    proof {
        let after = cells@;
        assert(after == before.insert(at as int, cell));
        assert forall|i: int, j: int| 0 <= i < j < after.len() implies cell_before(
            #[trigger] after[i],
            #[trigger] after[j],
        ) by {
            if i < at && j > at {
                assert(cell_before(before[i], before[j - 1]));
            } else if i < at && j < at {
                assert(cell_before(before[i], before[j]));
            } else if i == at {
                if j - 1 > at {
                    assert(cell_before(before[at as int], before[j - 1]));
                }
                assert(!cell_before(before[at as int], cell));
            } else if i > at {
                assert(cell_before(before[i - 1], before[j - 1]));
            }
        }
        assert forall|c: (usize, usize)| #[trigger] after.contains(c) <==> c == cell
            || before.contains(c) by {
            if after.contains(c) {
                let i = choose|i: int| 0 <= i < after.len() && after[i] == c;
                if i < at {
                    assert(before[i] == c);
                } else if i > at {
                    assert(before[i - 1] == c);
                }
            }
            if before.contains(c) {
                let i = choose|i: int| 0 <= i < before.len() && before[i] == c;
                if i < at {
                    assert(after[i] == c);
                } else {
                    assert(after[i + 1] == c);
                }
            }
            if c == cell {
                assert(after[at as int] == cell);
            }
        }
    }
}

fn add_capped(a: usize, b: usize) -> (r: usize)
    ensures
        r == capped_sum(a as int, b as int),
{
    if b < usize::MAX - a { a + b } else { usize::MAX }
}

fn glyph_overlaps(glyph: &ImePreeditGlyph, row: usize, column: usize, end: usize) -> (r: bool)
    ensures
        r == overlaps(*glyph, row, column, end as int),
{
    let width: usize = if glyph.width < 1 { 1 } else { glyph.width as usize };
    glyph.row == row && glyph.column < end && column < add_capped(glyph.column, width)
}

/// Whether the glyph of a cell is overwritten.
fn loses_anchor(
    glyphs: &Vec<ImePreeditGlyph>,
    cell: (usize, usize),
    row: usize,
    column: usize,
    end: usize,
) -> (r: bool)
    ensures
        r == lost_anchor(glyphs@, cell, row, column, end as int),
{
    let mut i: usize = 0;
    while i < glyphs.len()
        invariant
            i <= glyphs@.len(),
            forall|j: int|
                0 <= j < i ==> !((#[trigger] glyphs@[j]).width > 0 && overlaps(
                    glyphs@[j],
                    row,
                    column,
                    end as int,
                ) && (glyphs@[j].row, glyphs@[j].column) == cell),
        decreases glyphs@.len() - i,
    {
        let glyph: ImePreeditGlyph = glyphs[i];
        assert(glyph == glyphs@[i as int]);
        if glyph.width > 0 && glyph_overlaps(&glyph, row, column, end) && glyph.row == cell.0
            && glyph.column == cell.1 {
            return true;
        }
        i += 1;
    }
    false
}

fn keep_glyphs(glyphs: &Vec<ImePreeditGlyph>, row: usize, column: usize, end: usize) -> (r: Vec<
    ImePreeditGlyph,
>)
    ensures
        r@ == remaining_glyphs(glyphs@, glyphs@, row, column, end as int),
{
    let mut kept: Vec<ImePreeditGlyph> = Vec::new();
    let mut i: usize = 0;
    proof {
        assert(glyphs@.take(0) =~= Seq::<ImePreeditGlyph>::empty());
    }
    while i < glyphs.len()
        invariant
            i <= glyphs@.len(),
            kept@ == remaining_glyphs(glyphs@, glyphs@.take(i as int), row, column, end as int),
        decreases glyphs@.len() - i,
    {
        let glyph: ImePreeditGlyph = glyphs[i];
        proof {
            let prefix = glyphs@.take(i + 1);
            assert(prefix.drop_last() =~= glyphs@.take(i as int));
            assert(prefix.last() == glyph);
        }
        if !glyph_overlaps(&glyph, row, column, end) && !(glyph.width == 0 && loses_anchor(
            glyphs,
            (glyph.row, glyph.column),
            row,
            column,
            end,
        )) {
            kept.push(glyph);
        }
        i += 1;
    }
    proof {
        assert(glyphs@.take(i as int) =~= glyphs@);
    }
    kept
}

/// The blanked cells without those in columns `column..end` of a row.
fn keep_cleared(cells: &Vec<(usize, usize)>, row: usize, column: usize, end: usize) -> (r: Vec<
    (usize, usize),
>)
    requires
        in_order(cells@),
    ensures
        in_order(r@),
        forall|c: (usize, usize)| #[trigger] r@.contains(c) <==> cells@.contains(c) && !(c.0 == row
            && column <= c.1 < end),
{
    let mut kept: Vec<(usize, usize)> = Vec::new();
    let mut i: usize = 0;
    while i < cells.len()
        invariant
            i <= cells@.len(),
            in_order(cells@),
            in_order(kept@),
            forall|j: int| 0 <= j < kept@.len() ==> exists|k: int| 0 <= k < i && cells@[k]
                == #[trigger] kept@[j],
            forall|c: (usize, usize)| #[trigger] kept@.contains(c) <==> cells@.take(
                i as int,
            ).contains(c) && !(c.0 == row && column <= c.1 < end),
        decreases cells@.len() - i,
    {
        let cell: (usize, usize) = cells[i];
        let ghost before = kept@;
        let ghost seen = cells@.take(i as int);
        if !(cell.0 == row && column <= cell.1 && cell.1 < end) {
            kept.push(cell);
        }
        proof {
            let next = cells@.take(i + 1);
            assert(next =~= seen.push(cell));
            assert forall|j: int| 0 <= j < kept@.len() implies exists|k: int| 0 <= k < i + 1
                && cells@[k] == #[trigger] kept@[j] by {
                if j < before.len() {
                    assert(kept@[j] == before[j]);
                    let k = choose|k: int| 0 <= k < i && cells@[k] == before[j];
                    assert(cells@[k] == kept@[j]);
                } else {
                    assert(cells@[i as int] == kept@[j]);
                }
            }
            assert forall|a: int, b: int| 0 <= a < b < kept@.len() implies cell_before(
                #[trigger] kept@[a],
                #[trigger] kept@[b],
            ) by {
                if b < before.len() {
                    assert(cell_before(before[a], before[b]));
                } else {
                    assert(kept@[a] == before[a]);
                    let k = choose|k: int| 0 <= k < i && cells@[k] == before[a];
                    assert(cell_before(cells@[k], cells@[i as int]));
                }
            }
            assert forall|c: (usize, usize)| #[trigger] kept@.contains(c) <==> next.contains(c) && !(
            c.0 == row && column <= c.1 < end) by {
                assert(before.contains(c) <==> seen.contains(c) && !(c.0 == row && column <= c.1
                    < end));
                if kept@.contains(c) {
                    let j = choose|j: int| 0 <= j < kept@.len() && kept@[j] == c;
                    if j < before.len() {
                        assert(before[j] == c);
                        let k = choose|k: int| 0 <= k < seen.len() && seen[k] == c;
                        assert(next[k] == c);
                    } else {
                        assert(next[i as int] == c);
                    }
                }
                if next.contains(c) && !(c.0 == row && column <= c.1 < end) {
                    let k = choose|k: int| 0 <= k < next.len() && next[k] == c;
                    if k < seen.len() {
                        assert(seen[k] == c);
                        let j = choose|j: int| 0 <= j < before.len() && before[j] == c;
                        assert(kept@[j] == c);
                    } else {
                        assert(kept@[kept@.len() - 1] == c);
                    }
                }
            }
        }
        i += 1;
    }
    proof {
        assert(cells@.take(i as int) =~= cells@);
    }
    kept
}

/// Add the cells that overwritten glyphs leave over.
fn add_leftovers(
    cells: &mut Vec<(usize, usize)>,
    glyphs: &Vec<ImePreeditGlyph>,
    row: usize,
    column: usize,
    end: usize,
)
    requires
        in_order(old(cells)@),
    ensures
        in_order(final(cells)@),
        forall|c: (usize, usize)| #[trigger] final(cells)@.contains(c) <==> old(cells)@.contains(c)
            || leftover(glyphs@, c, row, column, end as int),
{
    let ghost start = cells@;
    let mut i: usize = 0;
    while i < glyphs.len()
        invariant
            i <= glyphs@.len(),
            in_order(cells@),
            forall|c: (usize, usize)| #[trigger] cells@.contains(c) <==> start.contains(c)
                || leftover(glyphs@.take(i as int), c, row, column, end as int),
        decreases glyphs@.len() - i,
    {
        let glyph: ImePreeditGlyph = glyphs[i];
        let ghost before = cells@;
        if glyph.width > 0 && glyph_overlaps(&glyph, row, column, end) {
            let glyph_end: usize = add_capped(glyph.column, glyph.width as usize);
            let mut at: usize = glyph.column;
            while at < glyph_end
                invariant
                    glyph.column <= at,
                    at <= glyph_end || at == glyph.column,
                    in_order(cells@),
                    forall|c: (usize, usize)| #[trigger] cells@.contains(c) <==> before.contains(c)
                        || (c.0 == row && !(column <= c.1 < end) && glyph.column <= c.1 < at),
                decreases glyph_end - at,
            {
                if at < column || at >= end {
                    insert_cell(cells, (row, at));
                }
                at += 1;
            }
        }
        proof {
            let seen = glyphs@.take(i as int);
            let next = glyphs@.take(i + 1);
            assert(next =~= seen.push(glyph));
            assert forall|c: (usize, usize)| #[trigger] cells@.contains(c) <==> start.contains(c)
                || leftover(next, c, row, column, end as int) by {
                assert(before.contains(c) <==> start.contains(c) || leftover(
                    seen,
                    c,
                    row,
                    column,
                    end as int,
                ));
                if leftover(seen, c, row, column, end as int) {
                    let k = choose|k: int|
                        0 <= k < seen.len() && (#[trigger] seen[k]).width > 0 && overlaps(
                            seen[k],
                            row,
                            column,
                            end as int,
                        ) && seen[k].column <= c.1 < capped_sum(
                            seen[k].column as int,
                            covered(seen[k]),
                        );
                    assert(next[k] == seen[k]);
                }
                if leftover(next, c, row, column, end as int) {
                    let k = choose|k: int|
                        0 <= k < next.len() && (#[trigger] next[k]).width > 0 && overlaps(
                            next[k],
                            row,
                            column,
                            end as int,
                        ) && next[k].column <= c.1 < capped_sum(
                            next[k].column as int,
                            covered(next[k]),
                        );
                    if k < seen.len() {
                        assert(seen[k] == next[k]);
                    } else {
                        assert(next[k] == glyph);
                    }
                }
                if glyph.width > 0 && overlaps(glyph, row, column, end as int) && c.0 == row && !(
                column <= c.1 < end) && glyph.column <= c.1 < capped_sum(
                    glyph.column as int,
                    covered(glyph),
                ) {
                    assert(next[i as int] == glyph);
                }
            }
        }
        i += 1;
    }
    proof {
        assert(glyphs@.take(i as int) =~= glyphs@);
    }
}

/// Add the cells that half a glyph on the screen leaves over.
fn add_partners(
    cells: &mut Vec<(usize, usize)>,
    snapshot: Option<&GridSnapshot>,
    row: usize,
    column: usize,
    end: usize,
)
    requires
        in_order(old(cells)@),
    ensures
        in_order(final(cells)@),
        forall|c: (usize, usize)| #[trigger] final(cells)@.contains(c) <==> old(cells)@.contains(c)
            || screen_leftover(snapshot, c, row, column, end as int),
{
    let ghost start = cells@;
    if let Some(shown) = snapshot {
        let mut target: usize = column;
        while target < end
            invariant
                column <= target,
                target <= end || target == column,
                snapshot == Some(shown),
                in_order(cells@),
                forall|c: (usize, usize)| #[trigger] cells@.contains(c) <==> start.contains(c) || (
                c.0 == row && !(column <= c.1 < end) && exists|t: int|
                    column <= t < target && #[trigger] partner(*shown, row, t) == Some(
                        c.1 as int,
                    )),
            decreases end - target,
        {
            let ghost before = cells@;
            let other: Option<usize> = match shown.cell(row, target) {
                Some(cell) => {
                    if cell.flags.contains(CellFlags::WIDE_CONT) {
                        if target > 0 {
                            Some(target - 1)
                        } else {
                            None
                        }
                    } else if cell.flags.contains(CellFlags::WIDE) {
                        if target < usize::MAX {
                            Some(target + 1)
                        } else {
                            None
                        }
                    } else {
                        None
                    }
                },
                None => None,
            };
            assert(match other {
                Some(other) => partner(*shown, row, target as int) == Some(other as int),
                None => partner(*shown, row, target as int) is None,
            });
            if let Some(other) = other {
                if other < column || other >= end {
                    insert_cell(cells, (row, other));
                }
            }
            proof {
                assert forall|c: (usize, usize)| #[trigger] cells@.contains(c) <==> start.contains(
                    c,
                ) || (c.0 == row && !(column <= c.1 < end) && exists|t: int|
                    column <= t < target + 1 && #[trigger] partner(*shown, row, t) == Some(
                        c.1 as int,
                    )) by {
                    assert(before.contains(c) <==> start.contains(c) || (c.0 == row && !(column
                        <= c.1 < end) && exists|t: int|
                        column <= t < target && #[trigger] partner(*shown, row, t) == Some(
                            c.1 as int,
                        )));
                }
            }
            target += 1;
        }
    }
}

/// The composed text while it is laid out.
struct Composer {
    glyphs: Vec<ImePreeditGlyph>,
    cleared: Vec<(usize, usize)>,
    caret: Option<(usize, usize)>,
    row: usize,
    column: usize,
    pending: bool,
    previous: Option<(usize, usize)>,
    furthest: Option<(usize, usize)>,
}

impl View for Composer {
    type V = Composition;

    closed spec fn view(&self) -> Composition {
        Composition {
            glyphs: self.glyphs@,
            cleared: self.cleared@.to_set(),
            caret: self.caret,
            row: self.row,
            column: self.column,
            pending: self.pending,
            previous: self.previous,
            furthest: self.furthest,
        }
    }
}

/// The nearest cell on the screen.
pub open spec fn nearest_cell(row: usize, column: usize, dimensions: (usize, usize)) -> (
    usize,
    usize,
) {
    (
        if row < dimensions.1 { row } else { (dimensions.1 - 1) as usize },
        if column < dimensions.0 { column } else { (dimensions.0 - 1) as usize },
    )
}

/// The cell of a caret before a glyph at a position; below the screen it stays
/// at what was drawn last.
pub open spec fn caret_at(
    row: usize,
    column: usize,
    dimensions: (usize, usize),
    furthest: Option<(usize, usize)>,
) -> Option<(usize, usize)> {
    if row >= dimensions.1 {
        furthest
    } else {
        Some(nearest_cell(row, column, dimensions))
    }
}

/// A glyph stands in a cell.
pub open spec fn anchored(glyphs: Seq<ImePreeditGlyph>, cell: (usize, usize)) -> bool {
    exists|i: int|
        0 <= i < glyphs.len() && ((#[trigger] glyphs[i]).row, glyphs[i].column) == cell
}

/// A piece drawn in a cell.
pub open spec fn drawn(piece: PreeditPiece, cell: (usize, usize)) -> ImePreeditGlyph {
    ImePreeditGlyph {
        character: piece.character,
        byte_start: piece.byte_start,
        byte_end: piece.byte_end,
        row: cell.0,
        column: cell.1,
        width: piece.width,
        selected: piece.selected,
    }
}

/// The columns left in a row.
pub open spec fn room(columns: usize, column: usize) -> int {
    if column < columns { columns - column } else { 0 }
}

impl Composition {
    /// The position for the next piece, after a delayed wrap and one for want
    /// of room. What is drawn over the last glyph does not wrap.
    pub open spec fn positioned(self, width: u8, columns: usize, auto_wrap: bool) -> Composition {
        let wraps = !(width == 0 && self.previous is Some) && (self.pending || self.column
            >= columns);
        let settled = Composition {
            row: if wraps && auto_wrap { capped_sum(self.row as int, 1) } else { self.row },
            column: if wraps && auto_wrap {
                0
            } else if wraps {
                if self.column < columns { self.column } else { (columns - 1) as usize }
            } else {
                self.column
            },
            pending: if wraps { false } else { self.pending },
            ..self
        };
        let breaks = auto_wrap && width != 0 && width > room(columns, settled.column);
        Composition {
            row: if breaks { capped_sum(settled.row as int, 1) } else { settled.row },
            column: if breaks { 0 } else { settled.column },
            ..settled
        }
    }

    pub open spec fn with_caret(self, here: bool, dimensions: (usize, usize)) -> Composition {
        Composition {
            caret: if here {
                caret_at(self.row, self.column, dimensions, self.furthest)
            } else {
                self.caret
            },
            ..self
        }
    }

    /// A piece without columns drawn over the last glyph, or in a cell of its
    /// own.
    pub open spec fn with_mark(
        self,
        piece: PreeditPiece,
        dimensions: (usize, usize),
        auto_wrap: bool,
        snapshot: Option<&GridSnapshot>,
    ) -> Composition {
        let cell = match self.previous {
            Some(cell) => cell,
            None => nearest_cell(self.row, self.column, dimensions),
        };
        if cell.0 < dimensions.1 && cell.1 < dimensions.0 {
            let over = self.previous == Some(cell) && anchored(self.glyphs, cell);
            let base = if !auto_wrap && !over {
                self.overwritten(snapshot, cell.0, cell.1, 1)
            } else {
                self
            };
            Composition {
                glyphs: base.glyphs.push(drawn(piece, cell)),
                furthest: later_cell(self.furthest, cell),
                ..base
            }
        } else {
            self
        }
    }

    /// A piece drawn at the position, and the position behind it. Below the
    /// screen nothing is drawn.
    pub open spec fn with_piece(
        self,
        piece: PreeditPiece,
        dimensions: (usize, usize),
        auto_wrap: bool,
        snapshot: Option<&GridSnapshot>,
    ) -> Composition {
        let cell = (self.row, self.column);
        let end = capped_sum(self.column as int, piece.width as int);
        let shown = if self.row < dimensions.1 {
            let base = if !auto_wrap {
                self.overwritten(snapshot, self.row, self.column, piece.width as int)
            } else {
                self
            };
            let last = capped_sum(self.column as int, piece.width - 1);
            Composition {
                glyphs: base.glyphs.push(drawn(piece, cell)),
                furthest: later_cell(
                    self.furthest,
                    (self.row, if last < dimensions.0 { last } else { (dimensions.0 - 1) as usize }),
                ),
                ..base
            }
        } else {
            self
        };
        Composition { previous: Some(cell), column: end, pending: end >= dimensions.0, ..shown }
    }

    /// One more piece. Where lines do not wrap, a piece without room is not
    /// drawn.
    pub open spec fn step(
        self,
        piece: PreeditPiece,
        dimensions: (usize, usize),
        auto_wrap: bool,
        snapshot: Option<&GridSnapshot>,
    ) -> Composition {
        let ready = self.positioned(piece.width, dimensions.0, auto_wrap).with_caret(
            piece.at_caret,
            dimensions,
        );
        if piece.width == 0 {
            ready.with_mark(piece, dimensions, auto_wrap, snapshot)
        } else if !auto_wrap && piece.width > room(dimensions.0, ready.column) {
            Composition { previous: None, ..ready }
        } else {
            ready.with_piece(piece, dimensions, auto_wrap, snapshot)
        }
    }
}

/// The pieces from `at` on laid out.
pub open spec fn composed(
    state: Composition,
    pieces: Seq<PreeditPiece>,
    at: int,
    dimensions: (usize, usize),
    auto_wrap: bool,
    snapshot: Option<&GridSnapshot>,
) -> Composition
    decreases pieces.len() - at,
{
    if at >= pieces.len() {
        state
    } else {
        composed(
            state.step(pieces[at], dimensions, auto_wrap, snapshot),
            pieces,
            at + 1,
            dimensions,
            auto_wrap,
            snapshot,
        )
    }
}

impl Composer {
    spec fn wf(self) -> bool {
        in_order(self.cleared@)
    }

    /// Overwrite columns of a row.
    fn overwrite(
        &mut self,
        snapshot: Option<&GridSnapshot>,
        row: usize,
        column: usize,
        width: usize,
    )
        requires
            old(self).wf(),
        ensures
            final(self).wf(),
            final(self)@ == old(self)@.overwritten(snapshot, row, column, width as int),
    {
        reveal(Composition::overwritten);
        let end: usize = add_capped(column, width);
        let mut cleared: Vec<(usize, usize)> = keep_cleared(&self.cleared, row, column, end);
        add_leftovers(&mut cleared, &self.glyphs, row, column, end);
        add_partners(&mut cleared, snapshot, row, column, end);
        let kept: Vec<ImePreeditGlyph> = keep_glyphs(&self.glyphs, row, column, end);
        self.cleared = cleared;
        self.glyphs = kept;
        proof {
            let goal = old(self)@.overwritten(snapshot, row, column, width as int);
            assert(self@.cleared =~= goal.cleared);
        }
    }

    fn position(&mut self, width: u8, columns: usize, auto_wrap: bool)
        requires
            old(self).wf(),
            columns > 0,
        ensures
            final(self).wf(),
            final(self)@ == old(self)@.positioned(width, columns, auto_wrap),
    {
        let over: bool = width == 0 && self.previous.is_some();
        if !over && (self.pending || self.column >= columns) {
            self.pending = false;
            if auto_wrap {
                self.row = add_capped(self.row, 1);
                self.column = 0;
            } else if self.column >= columns {
                self.column = columns - 1;
            }
        }
        let room: usize = if self.column < columns { columns - self.column } else { 0 };
        if auto_wrap && width != 0 && width as usize > room {
            self.row = add_capped(self.row, 1);
            self.column = 0;
        }
    }

    fn holds_glyph(&self, cell: (usize, usize)) -> (r: bool)
        ensures
            r == anchored(self@.glyphs, cell),
    {
        let mut i: usize = 0;
        while i < self.glyphs.len()
            invariant
                i <= self.glyphs@.len(),
                forall|j: int|
                    0 <= j < i ==> ((#[trigger] self.glyphs@[j]).row, self.glyphs@[j].column)
                        != cell,
            decreases self.glyphs@.len() - i,
        {
            let glyph: ImePreeditGlyph = self.glyphs[i];
            assert(glyph == self.glyphs@[i as int]);
            if glyph.row == cell.0 && glyph.column == cell.1 {
                return true;
            }
            i += 1;
        }
        false
    }

    fn extend_to(&mut self, cell: (usize, usize))
        requires
            old(self).wf(),
        ensures
            final(self).wf(),
            final(self)@ == (Composition {
                furthest: later_cell(old(self)@.furthest, cell),
                ..old(self)@
            }),
    {
        let later: bool = match self.furthest {
            Some(last) => last.0 < cell.0 || (last.0 == cell.0 && last.1 < cell.1),
            None => true,
        };
        if later {
            self.furthest = Some(cell);
        }
    }

    fn draw(&mut self, piece: PreeditPiece, cell: (usize, usize))
        requires
            old(self).wf(),
        ensures
            final(self).wf(),
            final(self)@ == (Composition {
                glyphs: old(self)@.glyphs.push(drawn(piece, cell)),
                ..old(self)@
            }),
    {
        self.glyphs.push(
            ImePreeditGlyph {
                character: piece.character,
                byte_start: piece.byte_start,
                byte_end: piece.byte_end,
                row: cell.0,
                column: cell.1,
                width: piece.width,
                selected: piece.selected,
            },
        );
    }

    fn add_mark(
        &mut self,
        piece: PreeditPiece,
        dimensions: (usize, usize),
        auto_wrap: bool,
        snapshot: Option<&GridSnapshot>,
    )
        requires
            old(self).wf(),
            dimensions.0 > 0,
            dimensions.1 > 0,
        ensures
            final(self).wf(),
            final(self)@ == old(self)@.with_mark(piece, dimensions, auto_wrap, snapshot),
    {
        let cell: (usize, usize) = match self.previous {
            Some(cell) => cell,
            None => nearest_position(self.row, self.column, dimensions),
        };
        if !(cell.0 < dimensions.1 && cell.1 < dimensions.0) {
            return;
        }
        let over: bool = self.previous.is_some() && self.holds_glyph(cell);
        if !auto_wrap && !over {
            reveal(Composition::overwritten);
            self.overwrite(snapshot, cell.0, cell.1, 1);
        }
        self.draw(piece, cell);
        self.extend_to(cell);
    }

    fn add_piece(
        &mut self,
        piece: PreeditPiece,
        dimensions: (usize, usize),
        auto_wrap: bool,
        snapshot: Option<&GridSnapshot>,
    )
        requires
            old(self).wf(),
            dimensions.0 > 0,
            piece.width > 0,
        ensures
            final(self).wf(),
            final(self)@ == old(self)@.with_piece(piece, dimensions, auto_wrap, snapshot),
    {
        let row: usize = self.row;
        let column: usize = self.column;
        let width: usize = piece.width as usize;
        if row < dimensions.1 {
            if !auto_wrap {
                reveal(Composition::overwritten);
                self.overwrite(snapshot, row, column, width);
            }
            self.draw(piece, (row, column));
            let last: usize = add_capped(column, width - 1);
            self.extend_to((row, if last < dimensions.0 { last } else { dimensions.0 - 1 }));
        }
        self.previous = Some((row, column));
        self.column = add_capped(column, width);
        self.pending = self.column >= dimensions.0;
    }

    fn add(
        &mut self,
        piece: PreeditPiece,
        dimensions: (usize, usize),
        auto_wrap: bool,
        snapshot: Option<&GridSnapshot>,
    )
        requires
            old(self).wf(),
            dimensions.0 > 0,
            dimensions.1 > 0,
        ensures
            final(self).wf(),
            final(self)@ == old(self)@.step(piece, dimensions, auto_wrap, snapshot),
    {
        self.position(piece.width, dimensions.0, auto_wrap);
        if piece.at_caret {
            self.caret = caret_position(self.row, self.column, dimensions, self.furthest);
        }
        let room: usize = if self.column < dimensions.0 { dimensions.0 - self.column } else { 0 };
        if piece.width == 0 {
            self.add_mark(piece, dimensions, auto_wrap, snapshot);
        } else if !auto_wrap && piece.width as usize > room {
            self.previous = None;
        } else {
            self.add_piece(piece, dimensions, auto_wrap, snapshot);
        }
    }
}

fn nearest_position(row: usize, column: usize, dimensions: (usize, usize)) -> (r: (usize, usize))
    requires
        dimensions.0 > 0,
        dimensions.1 > 0,
    ensures
        r == nearest_cell(row, column, dimensions),
{
    (
        if row < dimensions.1 { row } else { dimensions.1 - 1 },
        if column < dimensions.0 { column } else { dimensions.0 - 1 },
    )
}

fn caret_position(
    row: usize,
    column: usize,
    dimensions: (usize, usize),
    furthest: Option<(usize, usize)>,
) -> (r: Option<(usize, usize)>)
    requires
        dimensions.0 > 0,
        dimensions.1 > 0,
    ensures
        r == caret_at(row, column, dimensions, furthest),
{
    if row >= dimensions.1 {
        furthest
    } else {
        Some(nearest_position(row, column, dimensions))
    }
}

/// The columns that a scalar is drawn in: one that the screen has no room for
/// is replaced.
pub open spec fn drawn_columns(width: Option<usize>, columns: usize) -> u8 {
    match width {
        Some(width) => {
            let narrow: u8 = if width < 2 { width as u8 } else { 2 };
            if narrow > columns { 1 } else { narrow }
        },
        None => 1,
    }
}

/// A scalar that has no width, or one that exceeds the screen, is replaced.
pub open spec fn drawn_scalar(c: char, width: Option<usize>, columns: usize) -> char {
    match width {
        Some(width) => {
            let narrow: u8 = if width < 2 { width as u8 } else { 2 };
            if narrow > columns { IME_PREEDIT_REPLACEMENT } else { c }
        },
        None => IME_PREEDIT_REPLACEMENT,
    }
}

/// The byte at which a scalar begins.
pub open spec fn byte_offset(text: Seq<char>, at: int) -> usize {
    encode_utf8(text.take(at)).len() as usize
}

/// Bytes of a scalar lie in the selection.
pub open spec fn in_selection(cursor: Option<ImePreeditCursor>, start: usize, end: usize) -> bool {
    match cursor {
        Some(cursor) => cursor.selection_start < end && start < cursor.selection_end,
        None => false,
    }
}

pub open spec fn caret_before(cursor: Option<ImePreeditCursor>, at: usize) -> bool {
    match cursor {
        Some(cursor) => cursor.caret == at,
        None => false,
    }
}

/// The scalars of a composed text as they are to be drawn.
pub open spec fn pieces_of(
    text: Seq<char>,
    widths: Seq<Option<usize>>,
    cursor: Option<ImePreeditCursor>,
    columns: usize,
) -> Seq<PreeditPiece> {
    Seq::new(
        text.len(),
        |i: int|
            PreeditPiece {
                character: drawn_scalar(text[i], widths[i], columns),
                byte_start: byte_offset(text, i),
                byte_end: byte_offset(text, i + 1),
                width: drawn_columns(widths[i], columns),
                selected: in_selection(cursor, byte_offset(text, i), byte_offset(text, i + 1)),
                at_caret: caret_before(cursor, byte_offset(text, i)),
            },
    )
}

/// Nothing laid out yet.
pub open spec fn blank_composition(
    input_cursor: (usize, usize),
    dimensions: (usize, usize),
    snapshot: Option<&GridSnapshot>,
) -> Composition {
    Composition {
        glyphs: Seq::empty(),
        cleared: Set::empty(),
        caret: None,
        row: input_cursor.0,
        column: input_cursor.1,
        pending: match snapshot {
            Some(snapshot) => snapshot.wrap_pending,
            None => input_cursor.1 == dimensions.0,
        },
        previous: None,
        furthest: Some(nearest_cell(input_cursor.0, input_cursor.1, dimensions)),
    }
}

/// There is a screen, and the cursor stands on it or behind its last column.
pub open spec fn cursor_on_screen(input_cursor: (usize, usize), dimensions: (usize, usize)) -> bool {
    dimensions.0 > 0 && dimensions.1 > 0 && input_cursor.0 < dimensions.1 && input_cursor.1
        <= dimensions.0
}

/// A composed text laid out as a whole.
pub open spec fn composition_of(
    text: Seq<char>,
    widths: Seq<Option<usize>>,
    cursor: Option<ImePreeditCursor>,
    input_cursor: (usize, usize),
    dimensions: (usize, usize),
    auto_wrap: bool,
    snapshot: Option<&GridSnapshot>,
) -> Composition {
    composed(
        blank_composition(input_cursor, dimensions, snapshot),
        pieces_of(text, widths, cursor, dimensions.0),
        0,
        dimensions,
        auto_wrap,
        snapshot,
    ).with_caret(caret_before(cursor, encode_utf8(text).len() as usize), dimensions)
}

/// A selected glyph stands in a cell.
pub open spec fn cell_selected(glyphs: Seq<ImePreeditGlyph>, cell: (usize, usize)) -> bool {
    exists|i: int|
        0 <= i < glyphs.len() && (#[trigger] glyphs[i]).selected && (glyphs[i].row, glyphs[i].column)
            == cell
}

/// Glyphs in one cell are selected together.
pub open spec fn selected_together(glyphs: Seq<ImePreeditGlyph>) -> Seq<ImePreeditGlyph> {
    Seq::new(
        glyphs.len(),
        |i: int|
            ImePreeditGlyph {
                selected: cell_selected(glyphs, (glyphs[i].row, glyphs[i].column)),
                ..glyphs[i]
            },
    )
}

/// The layout of a composed text whose scalars have the given widths.
pub open spec fn layout_matches(
    layout: ImePreeditLayout,
    text: Seq<char>,
    widths: Seq<Option<usize>>,
    cursor: Option<ImePreeditCursor>,
    input_cursor: (usize, usize),
    dimensions: (usize, usize),
    auto_wrap: bool,
    snapshot: Option<&GridSnapshot>,
) -> bool {
    if cursor_on_screen(input_cursor, dimensions) {
        let whole = composition_of(
            text,
            widths,
            cursor,
            input_cursor,
            dimensions,
            auto_wrap,
            snapshot,
        );
        &&& layout.glyphs@ == selected_together(whole.glyphs)
        &&& in_order(layout.cleared_cells@)
        &&& layout.cleared_cells@.to_set() == whole.cleared
        &&& layout.caret_cell == whole.caret
    } else {
        layout.glyphs@.len() == 0 && layout.cleared_cells@.len() == 0 && layout.caret_cell is None
    }
}

fn is_cell_selected(glyphs: &Vec<ImePreeditGlyph>, cell: (usize, usize)) -> (r: bool)
    ensures
        r == cell_selected(glyphs@, cell),
{
    let mut i: usize = 0;
    while i < glyphs.len()
        invariant
            i <= glyphs@.len(),
            forall|j: int|
                0 <= j < i ==> !((#[trigger] glyphs@[j]).selected && (
                glyphs@[j].row,
                glyphs@[j].column,
                ) == cell),
        decreases glyphs@.len() - i,
    {
        let glyph: ImePreeditGlyph = glyphs[i];
        assert(glyph == glyphs@[i as int]);
        if glyph.selected && glyph.row == cell.0 && glyph.column == cell.1 {
            return true;
        }
        i += 1;
    }
    false
}

fn select_together(glyphs: &Vec<ImePreeditGlyph>) -> (r: Vec<ImePreeditGlyph>)
    ensures
        r@ == selected_together(glyphs@),
{
    let mut out: Vec<ImePreeditGlyph> = Vec::new();
    let mut i: usize = 0;
    while i < glyphs.len()
        invariant
            i <= glyphs@.len(),
            out@ == selected_together(glyphs@).take(i as int),
        decreases glyphs@.len() - i,
    {
        let glyph: ImePreeditGlyph = glyphs[i];
        let selected: bool = is_cell_selected(glyphs, (glyph.row, glyph.column));
        out.push(ImePreeditGlyph { selected, ..glyph });
        proof {
            assert(out@ =~= selected_together(glyphs@).take(i + 1));
        }
        i += 1;
    }
    proof {
        assert(selected_together(glyphs@).take(i as int) =~= selected_together(glyphs@));
    }
    out
}

fn piece_at(
    c: char,
    width: Option<usize>,
    columns: usize,
    cursor: Option<ImePreeditCursor>,
    byte_start: usize,
    byte_end: usize,
) -> (r: PreeditPiece)
    ensures
        r == (PreeditPiece {
            character: drawn_scalar(c, width, columns),
            byte_start,
            byte_end,
            width: drawn_columns(width, columns),
            selected: in_selection(cursor, byte_start, byte_end),
            at_caret: caret_before(cursor, byte_start),
        }),
{
    let (character, width): (char, u8) = match width {
        Some(width) => {
            let narrow: u8 = if width < 2 { width as u8 } else { 2 };
            if narrow as usize > columns {
                (IME_PREEDIT_REPLACEMENT, 1)
            } else {
                (c, narrow)
            }
        },
        None => (IME_PREEDIT_REPLACEMENT, 1),
    };
    let (selected, at_caret): (bool, bool) = match cursor {
        Some(cursor) => (
            cursor.selection_start < byte_end && byte_start < cursor.selection_end,
            cursor.caret == byte_start,
        ),
        None => (false, false),
    };
    PreeditPiece { character, byte_start, byte_end, width, selected, at_caret }
}

/// Lay out a composed text whose scalars have the given widths.
pub fn layout_ime_preedit_of_widths(
    preedit: &ImePreedit,
    widths: &Vec<Option<usize>>,
    input_cursor: (usize, usize),
    grid_dimensions: (usize, usize),
    auto_wrap: bool,
    snapshot: Option<&GridSnapshot>,
) -> (r: ImePreeditLayout)
    requires
        widths@.len() == preedit.text@.len(),
    ensures
        layout_matches(
            r,
            preedit.text@,
            widths@,
            preedit.cursor,
            input_cursor,
            grid_dimensions,
            auto_wrap,
            snapshot,
        ),
{
    let (columns, rows): (usize, usize) = grid_dimensions;
    if columns == 0 || rows == 0 || input_cursor.0 >= rows || input_cursor.1 > columns {
        return ImePreeditLayout::default();
    }
    let chars: Vec<char> = chars_of(preedit.text.as_str());
    let total: usize = preedit.text.as_str().as_bytes().len();
    let mut state: Composer = Composer {
        glyphs: Vec::new(),
        cleared: Vec::new(),
        caret: None,
        row: input_cursor.0,
        column: input_cursor.1,
        pending: match snapshot {
            Some(snapshot) => snapshot.wrap_pending,
            None => input_cursor.1 == columns,
        },
        previous: None,
        furthest: Some(nearest_position(input_cursor.0, input_cursor.1, grid_dimensions)),
    };
    let ghost pieces = pieces_of(chars@, widths@, preedit.cursor, columns);
    let ghost blank = blank_composition(input_cursor, grid_dimensions, snapshot);
    proof {
        assert(state@.cleared =~= Set::empty());
        assert(state@.glyphs =~= blank.glyphs);
        assert(chars@.take(0) =~= Seq::<char>::empty());
        assert(encode_utf8(chars@.take(0)).len() == 0);
    }
    let mut start: usize = 0;
    let mut i: usize = 0;
    while i < chars.len()
        invariant
            i <= chars@.len(),
            chars@.len() == widths@.len(),
            total == encode_utf8(chars@).len(),
            start == encode_utf8(chars@.take(i as int)).len(),
            columns > 0,
            rows > 0,
            grid_dimensions == (columns, rows),
            state.wf(),
            pieces == pieces_of(chars@, widths@, preedit.cursor, columns),
            composed(blank, pieces, 0, grid_dimensions, auto_wrap, snapshot) == composed(
                state@,
                pieces,
                i as int,
                grid_dimensions,
                auto_wrap,
                snapshot,
            ),
        decreases chars@.len() - i,
    {
        let c: char = chars[i];
        let len: usize = utf8_len(c);
        proof {
            assert(chars@.take(i + 1) =~= chars@.take(i as int).push(c));
            lemma_encoding_of_push(chars@.take(i as int), c);
            lemma_prefix_is_shorter(chars@, i + 1);
        }
        let end: usize = start + len;
        let piece: PreeditPiece = piece_at(c, widths[i], columns, preedit.cursor, start, end);
        proof {
            assert(piece == pieces[i as int]);
        }
        state.add(piece, grid_dimensions, auto_wrap, snapshot);
        start = end;
        i += 1;
    }
    let caret: Option<(usize, usize)> = match preedit.cursor {
        Some(cursor) => if cursor.caret == total {
            caret_position(state.row, state.column, grid_dimensions, state.furthest)
        } else {
            state.caret
        },
        None => state.caret,
    };
    let glyphs: Vec<ImePreeditGlyph> = select_together(&state.glyphs);
    ImePreeditLayout { glyphs, cleared_cells: state.cleared, caret_cell: caret }
}

/// Lay out a composed text from the cursor on. Where lines do not wrap, glyphs
/// that it overwrites in part are blanked.
pub fn layout_ime_preedit_with_mode(
    preedit: &ImePreedit,
    input_cursor: (usize, usize),
    grid_dimensions: (usize, usize),
    auto_wrap: bool,
    snapshot: Option<&GridSnapshot>,
) -> (r: ImePreeditLayout)
    ensures
        layout_matches(
            r,
            preedit.text@,
            scalar_widths(preedit.text@),
            preedit.cursor,
            input_cursor,
            grid_dimensions,
            auto_wrap,
            snapshot,
        ),
{
    let chars: Vec<char> = chars_of(preedit.text.as_str());
    let widths: Vec<Option<usize>> = widths_of(&chars);
    layout_ime_preedit_of_widths(
        preedit,
        &widths,
        input_cursor,
        grid_dimensions,
        auto_wrap,
        snapshot,
    )
}

pub fn layout_ime_preedit(
    preedit: &ImePreedit,
    input_cursor: (usize, usize),
    grid_dimensions: (usize, usize),
) -> (r: ImePreeditLayout)
    ensures
        layout_matches(
            r,
            preedit.text@,
            scalar_widths(preedit.text@),
            preedit.cursor,
            input_cursor,
            grid_dimensions,
            true,
            None,
        ),
{
    layout_ime_preedit_with_mode(preedit, input_cursor, grid_dimensions, true, None)
}

pub fn layout_ime_preedit_for_snapshot(preedit: &ImePreedit, snapshot: &GridSnapshot) -> (r:
    ImePreeditLayout)
    ensures
        layout_matches(
            r,
            preedit.text@,
            scalar_widths(preedit.text@),
            preedit.cursor,
            snapshot.input_cursor,
            (snapshot.columns, snapshot.rows),
            snapshot.auto_wrap,
            Some(snapshot),
        ),
{
    layout_ime_preedit_with_mode(
        preedit,
        snapshot.input_cursor,
        (snapshot.columns, snapshot.rows),
        snapshot.auto_wrap,
        Some(snapshot),
    )
}

/// A cell of the screen.
pub open spec fn cell_on_screen(cell: (usize, usize), dimensions: (usize, usize)) -> bool {
    cell.0 < dimensions.1 && cell.1 < dimensions.0
}

/// All glyphs, the caret and what was drawn last lie on the screen.
pub open spec fn stays_on_screen(state: Composition, dimensions: (usize, usize)) -> bool {
    &&& forall|i: int|
        0 <= i < state.glyphs.len() ==> (#[trigger] state.glyphs[i]).row < dimensions.1
            && state.glyphs[i].column + covered(state.glyphs[i]) <= dimensions.0
    &&& (state.caret is Some ==> cell_on_screen(state.caret->0, dimensions))
    &&& (state.furthest is Some ==> cell_on_screen(state.furthest->0, dimensions))
}

/// What stays was there before.
proof fn lemma_remaining_glyphs(
    all: Seq<ImePreeditGlyph>,
    some: Seq<ImePreeditGlyph>,
    row: usize,
    column: usize,
    end: int,
)
    ensures
        forall|i: int|
            0 <= i < remaining_glyphs(all, some, row, column, end).len() ==> some.contains(
                #[trigger] remaining_glyphs(all, some, row, column, end)[i],
            ),
    decreases some.len(),
{
    if some.len() > 0 {
        lemma_remaining_glyphs(all, some.drop_last(), row, column, end);
        let before = remaining_glyphs(all, some.drop_last(), row, column, end);
        let after = remaining_glyphs(all, some, row, column, end);
        assert forall|i: int| 0 <= i < after.len() implies some.contains(#[trigger] after[i]) by {
            if i < before.len() {
                assert(some.drop_last().contains(before[i]));
                let k = choose|k: int|
                    0 <= k < some.drop_last().len() && some.drop_last()[k] == before[i];
                assert(some[k] == after[i]);
            } else {
                assert(some[some.len() - 1] == after[i]);
            }
        }
    }
}

proof fn lemma_overwriting_stays_on_screen(
    state: Composition,
    snapshot: Option<&GridSnapshot>,
    row: usize,
    column: usize,
    width: int,
    dimensions: (usize, usize),
)
    requires
        stays_on_screen(state, dimensions),
    ensures
        stays_on_screen(state.overwritten(snapshot, row, column, width), dimensions),
        ({
            let after = state.overwritten(snapshot, row, column, width);
            after.row == state.row && after.column == state.column && after.caret == state.caret
                && after.furthest == state.furthest && after.previous == state.previous
        }),
{
    reveal(Composition::overwritten);
    let end = capped_sum(column as int, width) as int;
    lemma_remaining_glyphs(state.glyphs, state.glyphs, row, column, end);
    let after = state.overwritten(snapshot, row, column, width);
    assert forall|i: int| 0 <= i < after.glyphs.len() implies (#[trigger] after.glyphs[i]).row
        < dimensions.1 && after.glyphs[i].column + covered(after.glyphs[i]) <= dimensions.0 by {
        assert(state.glyphs.contains(after.glyphs[i]));
        let k = choose|k: int| 0 <= k < state.glyphs.len() && state.glyphs[k] == after.glyphs[i];
        assert(state.glyphs[k].row < dimensions.1);
    }
}

proof fn lemma_step_stays_on_screen(
    state: Composition,
    piece: PreeditPiece,
    dimensions: (usize, usize),
    auto_wrap: bool,
    snapshot: Option<&GridSnapshot>,
)
    requires
        dimensions.0 > 0,
        dimensions.1 > 0,
        piece.width <= dimensions.0,
        stays_on_screen(state, dimensions),
    ensures
        stays_on_screen(state.step(piece, dimensions, auto_wrap, snapshot), dimensions),
{
    let ready = state.positioned(piece.width, dimensions.0, auto_wrap).with_caret(
        piece.at_caret,
        dimensions,
    );
    assert(ready.glyphs == state.glyphs);
    assert(stays_on_screen(ready, dimensions));
    if piece.width == 0 {
        let cell = match ready.previous {
            Some(cell) => cell,
            None => nearest_cell(ready.row, ready.column, dimensions),
        };
        lemma_overwriting_stays_on_screen(ready, snapshot, cell.0, cell.1, 1, dimensions);
    } else {
        lemma_overwriting_stays_on_screen(
            ready,
            snapshot,
            ready.row,
            ready.column,
            piece.width as int,
            dimensions,
        );
    }
}

proof fn lemma_composed_stays_on_screen(
    state: Composition,
    pieces: Seq<PreeditPiece>,
    at: int,
    dimensions: (usize, usize),
    auto_wrap: bool,
    snapshot: Option<&GridSnapshot>,
)
    requires
        dimensions.0 > 0,
        dimensions.1 > 0,
        0 <= at,
        forall|i: int| 0 <= i < pieces.len() ==> (#[trigger] pieces[i]).width <= dimensions.0,
        stays_on_screen(state, dimensions),
    ensures
        stays_on_screen(
            composed(state, pieces, at, dimensions, auto_wrap, snapshot),
            dimensions,
        ),
    decreases pieces.len() - at,
{
    if at < pieces.len() {
        lemma_step_stays_on_screen(state, pieces[at], dimensions, auto_wrap, snapshot);
        lemma_composed_stays_on_screen(
            state.step(pieces[at], dimensions, auto_wrap, snapshot),
            pieces,
            at + 1,
            dimensions,
            auto_wrap,
            snapshot,
        );
    }
}

/// However long a composed text is, what is drawn of it and its caret lie on
/// the screen, and no glyph is cut off at the end of a row.
pub proof fn law_composed_text_stays_on_screen(
    layout: ImePreeditLayout,
    text: Seq<char>,
    widths: Seq<Option<usize>>,
    cursor: Option<ImePreeditCursor>,
    input_cursor: (usize, usize),
    dimensions: (usize, usize),
    auto_wrap: bool,
    snapshot: Option<&GridSnapshot>,
)
    requires
        widths.len() == text.len(),
        layout_matches(
            layout,
            text,
            widths,
            cursor,
            input_cursor,
            dimensions,
            auto_wrap,
            snapshot,
        ),
    ensures
        forall|i: int|
            0 <= i < layout.glyphs@.len() ==> (#[trigger] layout.glyphs@[i]).row < dimensions.1
                && layout.glyphs@[i].column + covered(layout.glyphs@[i]) <= dimensions.0,
        layout.caret_cell is Some ==> cell_on_screen(layout.caret_cell->0, dimensions),
{
    if cursor_on_screen(input_cursor, dimensions) {
        let blank = blank_composition(input_cursor, dimensions, snapshot);
        let pieces = pieces_of(text, widths, cursor, dimensions.0);
        let done = composed(blank, pieces, 0, dimensions, auto_wrap, snapshot);
        lemma_composed_stays_on_screen(blank, pieces, 0, dimensions, auto_wrap, snapshot);
        assert(stays_on_screen(done, dimensions));
        assert forall|i: int| 0 <= i < layout.glyphs@.len() implies (#[trigger] layout.glyphs@[i]).row
            < dimensions.1 && layout.glyphs@[i].column + covered(layout.glyphs@[i])
            <= dimensions.0 by {
            assert(done.glyphs[i].row < dimensions.1);
        }
    }
}

proof fn lemma_wrapping_clears_nothing(
    state: Composition,
    pieces: Seq<PreeditPiece>,
    at: int,
    dimensions: (usize, usize),
    snapshot: Option<&GridSnapshot>,
)
    requires
        0 <= at,
    ensures
        composed(state, pieces, at, dimensions, true, snapshot).cleared == state.cleared,
    decreases pieces.len() - at,
{
    if at < pieces.len() {
        lemma_wrapping_clears_nothing(
            state.step(pieces[at], dimensions, true, snapshot),
            pieces,
            at + 1,
            dimensions,
            snapshot,
        );
    }
}

/// Where lines wrap, no cell is blanked besides those that glyphs are drawn
/// over.
pub proof fn law_wrapping_text_clears_nothing(
    layout: ImePreeditLayout,
    text: Seq<char>,
    widths: Seq<Option<usize>>,
    cursor: Option<ImePreeditCursor>,
    input_cursor: (usize, usize),
    dimensions: (usize, usize),
    snapshot: Option<&GridSnapshot>,
)
    requires
        layout_matches(layout, text, widths, cursor, input_cursor, dimensions, true, snapshot),
    ensures
        layout.cleared_cells@.len() == 0,
{
    if cursor_on_screen(input_cursor, dimensions) {
        let blank = blank_composition(input_cursor, dimensions, snapshot);
        let pieces = pieces_of(text, widths, cursor, dimensions.0);
        lemma_wrapping_clears_nothing(blank, pieces, 0, dimensions, snapshot);
        if layout.cleared_cells@.len() > 0 {
            assert(layout.cleared_cells@.to_set().contains(layout.cleared_cells@[0]));
        }
    }
}

spec fn in_one_row(state: Composition, row: usize) -> bool {
    &&& state.row == row
    &&& (state.previous is Some ==> (state.previous->0).0 == row)
    &&& forall|i: int| 0 <= i < state.glyphs.len() ==> (#[trigger] state.glyphs[i]).row == row
}

proof fn lemma_step_stays_in_row(
    state: Composition,
    piece: PreeditPiece,
    dimensions: (usize, usize),
    snapshot: Option<&GridSnapshot>,
    row: usize,
)
    requires
        row < dimensions.1,
        in_one_row(state, row),
    ensures
        in_one_row(state.step(piece, dimensions, false, snapshot), row),
{
    reveal(Composition::overwritten);
    let ready = state.positioned(piece.width, dimensions.0, false).with_caret(
        piece.at_caret,
        dimensions,
    );
    let cell = if piece.width == 0 {
        match ready.previous {
            Some(cell) => cell,
            None => nearest_cell(ready.row, ready.column, dimensions),
        }
    } else {
        (ready.row, ready.column)
    };
    let width = if piece.width == 0 { 1 } else { piece.width as int };
    let end = capped_sum(cell.1 as int, width) as int;
    lemma_remaining_glyphs(ready.glyphs, ready.glyphs, cell.0, cell.1, end);
    let kept = remaining_glyphs(ready.glyphs, ready.glyphs, cell.0, cell.1, end);
    assert forall|i: int| 0 <= i < kept.len() implies (#[trigger] kept[i]).row == row by {
        assert(ready.glyphs.contains(kept[i]));
        let k = choose|k: int| 0 <= k < ready.glyphs.len() && ready.glyphs[k] == kept[i];
        assert(state.glyphs[k].row == row);
    }
}

proof fn lemma_composed_stays_in_row(
    state: Composition,
    pieces: Seq<PreeditPiece>,
    at: int,
    dimensions: (usize, usize),
    snapshot: Option<&GridSnapshot>,
    row: usize,
)
    requires
        0 <= at,
        row < dimensions.1,
        in_one_row(state, row),
    ensures
        in_one_row(composed(state, pieces, at, dimensions, false, snapshot), row),
    decreases pieces.len() - at,
{
    if at < pieces.len() {
        lemma_step_stays_in_row(state, pieces[at], dimensions, snapshot, row);
        lemma_composed_stays_in_row(
            state.step(pieces[at], dimensions, false, snapshot),
            pieces,
            at + 1,
            dimensions,
            snapshot,
            row,
        );
    }
}

/// Where lines do not wrap, a composed text stays in the row of the cursor.
pub proof fn law_unwrapped_text_stays_in_its_row(
    layout: ImePreeditLayout,
    text: Seq<char>,
    widths: Seq<Option<usize>>,
    cursor: Option<ImePreeditCursor>,
    input_cursor: (usize, usize),
    dimensions: (usize, usize),
    snapshot: Option<&GridSnapshot>,
)
    requires
        layout_matches(layout, text, widths, cursor, input_cursor, dimensions, false, snapshot),
    ensures
        forall|i: int|
            0 <= i < layout.glyphs@.len() ==> (#[trigger] layout.glyphs@[i]).row == input_cursor.0,
{
    if cursor_on_screen(input_cursor, dimensions) {
        let blank = blank_composition(input_cursor, dimensions, snapshot);
        let pieces = pieces_of(text, widths, cursor, dimensions.0);
        let done = composed(blank, pieces, 0, dimensions, false, snapshot);
        lemma_composed_stays_in_row(blank, pieces, 0, dimensions, snapshot, input_cursor.0);
        assert forall|i: int| 0 <= i < layout.glyphs@.len() implies (#[trigger] layout.glyphs@[i]).row
            == input_cursor.0 by {
            assert(done.glyphs[i].row == input_cursor.0);
        }
    }
}

/// Two glyphs share no column. A glyph without columns shares none.
pub open spec fn apart(left: ImePreeditGlyph, right: ImePreeditGlyph) -> bool {
    left.width == 0 || right.width == 0 || left.row != right.row || left.column + left.width
        <= right.column || right.column + right.width <= left.column
}

spec fn all_apart(glyphs: Seq<ImePreeditGlyph>) -> bool {
    forall|i: int, j: int|
        0 <= i < j < glyphs.len() ==> apart(#[trigger] glyphs[i], #[trigger] glyphs[j])
}

/// All glyphs with columns end before a position.
spec fn all_before(glyphs: Seq<ImePreeditGlyph>, row: usize, column: usize) -> bool {
    forall|i: int|
        0 <= i < glyphs.len() ==> (#[trigger] glyphs[i]).width == 0 || glyphs[i].row < row || (
        glyphs[i].row == row && glyphs[i].column + glyphs[i].width <= column)
}

/// Glyphs do not share columns, and where lines wrap, they end before the
/// position.
spec fn orderly(state: Composition, dimensions: (usize, usize), auto_wrap: bool) -> bool {
    &&& stays_on_screen(state, dimensions)
    &&& all_apart(state.glyphs)
    &&& auto_wrap ==> all_before(state.glyphs, state.row, state.column)
}

proof fn lemma_remaining_apart(
    all: Seq<ImePreeditGlyph>,
    some: Seq<ImePreeditGlyph>,
    row: usize,
    column: usize,
    end: int,
)
    requires
        all_apart(some),
    ensures
        all_apart(remaining_glyphs(all, some, row, column, end)),
        forall|i: int|
            0 <= i < remaining_glyphs(all, some, row, column, end).len() ==> !overlaps(
                #[trigger] remaining_glyphs(all, some, row, column, end)[i],
                row,
                column,
                end,
            ),
    decreases some.len(),
{
    if some.len() > 0 {
        let before = remaining_glyphs(all, some.drop_last(), row, column, end);
        let after = remaining_glyphs(all, some, row, column, end);
        assert forall|i: int, j: int| 0 <= i < j < some.drop_last().len() implies apart(
            #[trigger] some.drop_last()[i],
            #[trigger] some.drop_last()[j],
        ) by {
            assert(apart(some[i], some[j]));
        }
        lemma_remaining_apart(all, some.drop_last(), row, column, end);
        lemma_remaining_glyphs(all, some.drop_last(), row, column, end);
        assert forall|i: int, j: int| 0 <= i < j < after.len() implies apart(
            #[trigger] after[i],
            #[trigger] after[j],
        ) by {
            if j < before.len() {
                assert(apart(before[i], before[j]));
            } else {
                assert(some.drop_last().contains(before[i]));
                let k = choose|k: int|
                    0 <= k < some.drop_last().len() && some.drop_last()[k] == before[i];
                assert(apart(some[k], some[some.len() - 1]));
            }
        }
    }
}

proof fn lemma_overwriting_is_orderly(
    state: Composition,
    snapshot: Option<&GridSnapshot>,
    row: usize,
    column: usize,
    width: int,
    dimensions: (usize, usize),
)
    requires
        stays_on_screen(state, dimensions),
        all_apart(state.glyphs),
        0 < width,
        column + width <= dimensions.0,
    ensures
        ({
            let after = state.overwritten(snapshot, row, column, width);
            &&& all_apart(after.glyphs)
            &&& forall|i: int|
                0 <= i < after.glyphs.len() ==> (#[trigger] after.glyphs[i]).row != row
                    || after.glyphs[i].column + covered(after.glyphs[i]) <= column || column + width
                    <= after.glyphs[i].column
        }),
{
    reveal(Composition::overwritten);
    let end = capped_sum(column as int, width) as int;
    let after = state.overwritten(snapshot, row, column, width);
    lemma_remaining_apart(state.glyphs, state.glyphs, row, column, end);
    lemma_remaining_glyphs(state.glyphs, state.glyphs, row, column, end);
    assert forall|i: int| 0 <= i < after.glyphs.len() implies (#[trigger] after.glyphs[i]).row
        != row || after.glyphs[i].column + covered(after.glyphs[i]) <= column || column + width
        <= after.glyphs[i].column by {
        assert(!overlaps(after.glyphs[i], row, column, end));
        assert(state.glyphs.contains(after.glyphs[i]));
        let k = choose|k: int| 0 <= k < state.glyphs.len() && state.glyphs[k] == after.glyphs[i];
        assert(state.glyphs[k].row < dimensions.1);
    }
}

proof fn lemma_step_is_orderly(
    state: Composition,
    piece: PreeditPiece,
    dimensions: (usize, usize),
    auto_wrap: bool,
    snapshot: Option<&GridSnapshot>,
)
    requires
        dimensions.0 > 0,
        dimensions.1 > 0,
        piece.width <= dimensions.0,
        orderly(state, dimensions, auto_wrap),
    ensures
        orderly(
            state.step(piece, dimensions, auto_wrap, snapshot),
            dimensions,
            auto_wrap,
        ),
{
    lemma_step_stays_on_screen(state, piece, dimensions, auto_wrap, snapshot);
    let ready = state.positioned(piece.width, dimensions.0, auto_wrap).with_caret(
        piece.at_caret,
        dimensions,
    );
    let next = state.step(piece, dimensions, auto_wrap, snapshot);
    assert(ready.glyphs == state.glyphs);
    if auto_wrap {
        assert forall|i: int| 0 <= i < ready.glyphs.len() implies (
        #[trigger] ready.glyphs[i]).width == 0 || ready.glyphs[i].row < ready.row || (
        ready.glyphs[i].row == ready.row && ready.glyphs[i].column + ready.glyphs[i].width
            <= ready.column) by {
            assert(state.glyphs[i].row < dimensions.1);
        }
    }
    let cell = if piece.width == 0 {
        match ready.previous {
            Some(cell) => cell,
            None => nearest_cell(ready.row, ready.column, dimensions),
        }
    } else {
        (ready.row, ready.column)
    };
    let width = if piece.width == 0 { 1 } else { piece.width as int };
    let base = if !auto_wrap && cell.1 + width <= dimensions.0 {
        lemma_overwriting_is_orderly(ready, snapshot, cell.0, cell.1, width, dimensions);
        lemma_overwriting_stays_on_screen(ready, snapshot, cell.0, cell.1, width, dimensions);
        ready.overwritten(snapshot, cell.0, cell.1, width)
    } else {
        ready
    };
    assert forall|i: int, j: int| 0 <= i < j < next.glyphs.len() implies apart(
        #[trigger] next.glyphs[i],
        #[trigger] next.glyphs[j],
    ) by {
        if next.glyphs == ready.glyphs {
            assert(apart(ready.glyphs[i], ready.glyphs[j]));
        } else if j < next.glyphs.len() - 1 {
            if next.glyphs.len() == ready.glyphs.len() + 1 && next.glyphs.drop_last()
                =~= ready.glyphs {
                assert(next.glyphs[i] == ready.glyphs[i] && next.glyphs[j] == ready.glyphs[j]);
                assert(apart(ready.glyphs[i], ready.glyphs[j]));
            } else {
                assert(next.glyphs.drop_last() =~= base.glyphs);
                assert(next.glyphs[i] == base.glyphs[i] && next.glyphs[j] == base.glyphs[j]);
                assert(apart(base.glyphs[i], base.glyphs[j]));
            }
        } else if piece.width > 0 {
            if auto_wrap {
                assert(next.glyphs[i] == ready.glyphs[i]);
            } else {
                assert(next.glyphs[i] == base.glyphs[i]);
            }
        }
    }
    if auto_wrap {
        assert forall|i: int| 0 <= i < next.glyphs.len() implies (
        #[trigger] next.glyphs[i]).width == 0 || next.glyphs[i].row < next.row || (
        next.glyphs[i].row == next.row && next.glyphs[i].column + next.glyphs[i].width
            <= next.column) by {
            if i < ready.glyphs.len() {
                assert(next.glyphs[i] == ready.glyphs[i]);
            }
        }
    }
}

proof fn lemma_composed_is_orderly(
    state: Composition,
    pieces: Seq<PreeditPiece>,
    at: int,
    dimensions: (usize, usize),
    auto_wrap: bool,
    snapshot: Option<&GridSnapshot>,
)
    requires
        dimensions.0 > 0,
        dimensions.1 > 0,
        0 <= at,
        forall|i: int| 0 <= i < pieces.len() ==> (#[trigger] pieces[i]).width <= dimensions.0,
        orderly(state, dimensions, auto_wrap),
    ensures
        orderly(
            composed(state, pieces, at, dimensions, auto_wrap, snapshot),
            dimensions,
            auto_wrap,
        ),
    decreases pieces.len() - at,
{
    if at < pieces.len() {
        lemma_step_is_orderly(state, pieces[at], dimensions, auto_wrap, snapshot);
        lemma_composed_is_orderly(
            state.step(pieces[at], dimensions, auto_wrap, snapshot),
            pieces,
            at + 1,
            dimensions,
            auto_wrap,
            snapshot,
        );
    }
}

/// No two glyphs of a composed text share a column; only marks without columns
/// are drawn over a glyph.
pub proof fn law_composed_glyphs_are_apart(
    layout: ImePreeditLayout,
    text: Seq<char>,
    widths: Seq<Option<usize>>,
    cursor: Option<ImePreeditCursor>,
    input_cursor: (usize, usize),
    dimensions: (usize, usize),
    auto_wrap: bool,
    snapshot: Option<&GridSnapshot>,
)
    requires
        widths.len() == text.len(),
        layout_matches(
            layout,
            text,
            widths,
            cursor,
            input_cursor,
            dimensions,
            auto_wrap,
            snapshot,
        ),
    ensures
        forall|i: int, j: int|
            0 <= i < j < layout.glyphs@.len() ==> apart(
                #[trigger] layout.glyphs@[i],
                #[trigger] layout.glyphs@[j],
            ),
{
    if cursor_on_screen(input_cursor, dimensions) {
        let blank = blank_composition(input_cursor, dimensions, snapshot);
        let pieces = pieces_of(text, widths, cursor, dimensions.0);
        let done = composed(blank, pieces, 0, dimensions, auto_wrap, snapshot);
        lemma_composed_is_orderly(blank, pieces, 0, dimensions, auto_wrap, snapshot);
        assert forall|i: int, j: int| 0 <= i < j < layout.glyphs@.len() implies apart(
            #[trigger] layout.glyphs@[i],
            #[trigger] layout.glyphs@[j],
        ) by {
            assert(apart(done.glyphs[i], done.glyphs[j]));
        }
    }
}

} // verus!
