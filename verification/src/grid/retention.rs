//! How much history is kept.
use crate::grid::buffer::{RowMetadata, RowView};
use crate::grid::history::HistoryRow;
use crate::grid::reflow::{row_views, RetainedRow};
use std::collections::VecDeque;
use vstd::prelude::*;

verus! {

/// The rows that the history cells and their metadata stand for.
pub open spec fn history_rows(cells: Seq<HistoryRow>, metadata: Seq<RowMetadata>) -> Seq<RowView> {
    Seq::new(cells.len(), |i: int| RowView { cells: cells[i]@, metadata: metadata[i] })
}

/// The rows that end a logical line.
pub open spec fn hard_lines(rows: Seq<RowView>) -> nat
    decreases rows.len(),
{
    if rows.len() == 0 {
        0
    } else {
        hard_lines(rows.drop_last()) + if rows.last().metadata.wrapped { 0nat } else { 1 }
    }
}

/// The cells in all rows.
pub open spec fn cell_count(rows: Seq<RowView>) -> nat
    decreases rows.len(),
{
    if rows.len() == 0 {
        0
    } else {
        cell_count(rows.drop_last()) + rows.last().cells.len()
    }
}

/// The history holds no more lines and cells than it may.
pub open spec fn within_budget(rows: Seq<RowView>, lines: int, cells: int) -> bool {
    hard_lines(rows) <= lines && cell_count(rows) <= cells
}

/// The oldest rows are dropped until the budget is met.
pub open spec fn evicted(rows: Seq<RowView>, lines: int, cells: int) -> Seq<RowView>
    decreases rows.len(),
{
    if rows.len() == 0 || within_budget(rows, lines, cells) {
        rows
    } else {
        evicted(rows.drop_first(), lines, cells)
    }
}

/// An absolute row number after rows above it have gone, absent if the row
/// itself has gone.
pub open spec fn shifted_row(row: Option<usize>, gone: int) -> Option<usize> {
    match row {
        Some(row) => if row >= gone { Some((row - gone) as usize) } else { None },
        None => None,
    }
}

/// The history after rows have left the screen, one after the other.
pub open spec fn retained_after(
    history: Seq<RowView>,
    leaving: Seq<RowView>,
    lines: int,
    cells: int,
) -> Seq<RowView>
    decreases leaving.len(),
{
    if leaving.len() == 0 {
        history
    } else {
        evicted(
            retained_after(history, leaving.drop_last(), lines, cells).push(leaving.last()),
            lines,
            cells,
        )
    }
}

pub proof fn lemma_drop_first(rows: Seq<RowView>)
    requires
        rows.len() > 0,
    ensures
        hard_lines(rows) == hard_lines(rows.drop_first()) + if rows[0].metadata.wrapped {
            0nat
        } else {
            1
        },
        cell_count(rows) == cell_count(rows.drop_first()) + rows[0].cells.len(),
    decreases rows.len(),
{
    if rows.len() > 1 {
        lemma_drop_first(rows.drop_last());
        assert(rows.drop_last().drop_first() =~= rows.drop_first().drop_last());
        assert(rows.drop_first().last() == rows.last());
        assert(rows.drop_last()[0] == rows[0]);
    } else {
        assert(rows.drop_first() =~= Seq::<RowView>::empty());
        assert(rows.drop_last() =~= Seq::<RowView>::empty());
    }
}

pub proof fn lemma_push(rows: Seq<RowView>, row: RowView)
    ensures
        hard_lines(rows.push(row)) == hard_lines(rows) + if row.metadata.wrapped { 0nat } else { 1 },
        cell_count(rows.push(row)) == cell_count(rows) + row.cells.len(),
{
    assert(rows.push(row).drop_last() =~= rows);
}

pub proof fn lemma_append(left: Seq<RowView>, right: Seq<RowView>)
    ensures
        hard_lines(left + right) == hard_lines(left) + hard_lines(right),
        cell_count(left + right) == cell_count(left) + cell_count(right),
    decreases right.len(),
{
    if right.len() == 0 {
        assert(left + right =~= left);
    } else {
        lemma_append(left, right.drop_last());
        assert((left + right).drop_last() =~= left + right.drop_last());
    }
}

pub proof fn lemma_hard_lines_bound(rows: Seq<RowView>)
    ensures
        hard_lines(rows) <= rows.len(),
    decreases rows.len(),
{
    if rows.len() > 0 {
        lemma_hard_lines_bound(rows.drop_last());
    }
}

/// Rows of equal width hold a multiple of that width.
pub proof fn lemma_uniform_cell_count(rows: Seq<RowView>, cols: int)
    requires
        cols >= 0,
        forall|i: int| 0 <= i < rows.len() ==> (#[trigger] rows[i]).cells.len() == cols,
    ensures
        cell_count(rows) == rows.len() * cols,
    decreases rows.len(),
{
    if rows.len() > 0 {
        lemma_uniform_cell_count(rows.drop_last(), cols);
        assert(rows[rows.len() - 1].cells.len() == cols);
        assert(rows.len() * cols == (rows.len() - 1) * cols + cols) by (nonlinear_arith);
    } else {
        assert(rows.len() * cols == 0) by (nonlinear_arith)
            requires
                rows.len() == 0,
        ;
    }
}

/// What is kept is the longest recent part that fits the budget.
pub proof fn law_eviction_keeps_longest_suffix(rows: Seq<RowView>, lines: int, cells: int)
    requires
        lines >= 0,
        cells >= 0,
    ensures
        evicted(rows, lines, cells).len() <= rows.len(),
        evicted(rows, lines, cells) == rows.skip(rows.len() - evicted(rows, lines, cells).len()),
        within_budget(evicted(rows, lines, cells), lines, cells),
        evicted(rows, lines, cells).len() < rows.len() ==> !within_budget(
            rows.skip(rows.len() - evicted(rows, lines, cells).len() - 1),
            lines,
            cells,
        ),
    decreases rows.len(),
{
    let kept = evicted(rows, lines, cells);
    if rows.len() == 0 || within_budget(rows, lines, cells) {
        assert(rows.skip(0) =~= rows);
    } else {
        law_eviction_keeps_longest_suffix(rows.drop_first(), lines, cells);
        let gone = rows.len() - kept.len();
        assert(rows.skip(gone) =~= rows.drop_first().skip(gone - 1));
        if kept.len() < rows.drop_first().len() {
            assert(rows.skip(gone - 1) =~= rows.drop_first().skip(gone - 2));
        } else {
            assert(rows.skip(gone - 1) =~= rows);
        }
    }
}

/// However many rows leave the screen, the history stays within its budget,
/// unless it was over it and nothing left.
pub proof fn law_history_is_bounded(
    history: Seq<RowView>,
    leaving: Seq<RowView>,
    lines: int,
    cells: int,
)
    requires
        lines >= 0,
        cells >= 0,
        leaving.len() > 0 || within_budget(history, lines, cells),
    ensures
        within_budget(retained_after(history, leaving, lines, cells), lines, cells),
{
    if leaving.len() > 0 {
        law_eviction_keeps_longest_suffix(
            retained_after(history, leaving.drop_last(), lines, cells).push(leaving.last()),
            lines,
            cells,
        );
    }
}

/// The rows above and below the screen that are kept.
#[derive(Debug)]
pub struct History {
    pub scrollback: VecDeque<HistoryRow>,
    pub metadata: VecDeque<RowMetadata>,
    /// Rows below the screen that a resize had no room for.
    pub tail: Vec<RetainedRow>,
    pub hard_lines: usize,
    pub cells: usize,
    pub cell_budget: usize,
    pub max_lines: usize,
}

pub ghost struct HistoryView {
    pub rows: Seq<RowView>,
    pub tail: Seq<RowView>,
    pub cell_budget: int,
    pub line_budget: int,
}

/// The product, or the largest `usize` if the product is larger.
pub open spec fn budget_for(lines: int, cols: int) -> int {
    if lines * cols > usize::MAX { usize::MAX as int } else { lines * cols }
}

/// The cells that `lines` full rows hold, limited to what can be counted.
pub fn cell_budget(lines: usize, cols: usize) -> (r: usize)
    ensures
        r == budget_for(lines as int, cols as int),
{
    match lines.checked_mul(cols) {
        Some(product) => product,
        None => usize::MAX,
    }
}

impl View for History {
    type V = HistoryView;

    open spec fn view(&self) -> HistoryView {
        HistoryView {
            rows: history_rows(self.scrollback@, self.metadata@),
            tail: row_views(self.tail@),
            cell_budget: self.cell_budget as int,
            line_budget: self.max_lines as int,
        }
    }
}

/// Every row has the given width.
pub open spec fn rows_of_width(rows: Seq<RowView>, cols: int) -> bool {
    forall|i: int| 0 <= i < rows.len() ==> (#[trigger] rows[i]).cells.len() == cols
}

/// Eviction keeps the width of the rows.
pub proof fn lemma_evicted_width(rows: Seq<RowView>, lines: int, cells: int, cols: int)
    requires
        lines >= 0,
        cells >= 0,
        rows_of_width(rows, cols),
    ensures
        rows_of_width(evicted(rows, lines, cells), cols),
{
    law_eviction_keeps_longest_suffix(rows, lines, cells);
    let kept = evicted(rows, lines, cells);
    assert forall|i: int| 0 <= i < kept.len() implies (#[trigger] kept[i]).cells.len() == cols by {
        assert(kept[i] == rows[i + (rows.len() - kept.len())]);
    }
}

impl HistoryView {
    /// All rows have the given width.
    pub open spec fn of_width(self, cols: int) -> bool {
        rows_of_width(self.rows, cols) && rows_of_width(self.tail, cols)
    }

    /// No history yet.
    pub open spec fn empty(line_budget: int, cols: int) -> HistoryView {
        HistoryView {
            rows: Seq::empty(),
            tail: Seq::empty(),
            cell_budget: budget_for(line_budget, cols),
            line_budget,
        }
    }

    /// One more row, and the oldest rows dropped that go beyond the budget.
    pub open spec fn pushed(self, row: RowView) -> HistoryView {
        HistoryView {
            rows: evicted(self.rows.push(row), self.line_budget, self.cell_budget),
            ..self
        }
    }
}

impl History {
    /// The history is counted correctly.
    pub open spec fn wf(&self) -> bool {
        &&& self.scrollback@.len() == self.metadata@.len()
        &&& self.hard_lines == hard_lines(self@.rows)
        &&& self.cells == cell_count(self@.rows)
    }

    pub fn new(max_lines: usize, cols: usize) -> (r: History)
        ensures
            r.wf(),
            r@ == HistoryView::empty(max_lines as int, cols as int),
    {
        let r = History {
            scrollback: VecDeque::new(),
            metadata: VecDeque::new(),
            tail: Vec::new(),
            hard_lines: 0,
            cells: 0,
            cell_budget: cell_budget(max_lines, cols),
            max_lines,
        };
        proof {
            assert(r@.rows =~= Seq::<RowView>::empty());
            assert(r@.tail =~= Seq::<RowView>::empty());
        }
        r
    }

    pub fn len(&self) -> (r: usize)
        ensures
            r == self@.rows.len(),
    {
        self.scrollback.len()
    }

    /// Forget the rows above the screen.
    pub fn clear_rows(&mut self)
        requires
            old(self).wf(),
        ensures
            final(self).wf(),
            final(self)@ == (HistoryView { rows: Seq::empty(), ..old(self)@ }),
    {
        self.scrollback.clear();
        self.metadata.clear();
        self.hard_lines = 0;
        self.cells = 0;
        proof {
            assert(self@.rows =~= Seq::<RowView>::empty());
        }
    }

    /// Take out the rows above the screen, oldest first.
    pub fn take_rows(&mut self) -> (r: Vec<RetainedRow>)
        requires
            old(self).wf(),
        ensures
            final(self).wf(),
            final(self)@ == (HistoryView { rows: Seq::empty(), ..old(self)@ }),
            row_views(r@) == old(self)@.rows,
    {
        let ghost all = self@.rows;
        let mut rows: Vec<RetainedRow> = Vec::new();
        proof {
            assert(row_views(rows@) + self@.rows =~= all);
        }
        while self.scrollback.len() > 0
            invariant
                self.scrollback@.len() == self.metadata@.len(),
                row_views(rows@) + self@.rows == all,
                *self == (History {
                    scrollback: self.scrollback,
                    metadata: self.metadata,
                    ..*old(self)
                }),
            decreases self.scrollback@.len(),
        {
            let ghost taken = row_views(rows@);
            let ghost left = self@.rows;
            let cells: Option<HistoryRow> = self.scrollback.pop_front();
            let metadata: Option<RowMetadata> = self.metadata.pop_front();
            if let (Some(cells), Some(metadata)) = (cells, metadata) {
                rows.push(RetainedRow { cells: cells.into_cells(), metadata });
                proof {
                    assert(self@.rows =~= left.drop_first());
                    assert(row_views(rows@) =~= taken.push(left[0]));
                    assert(taken.push(left[0]) + left.drop_first() =~= taken + left);
                }
            }
        }
        self.hard_lines = 0;
        self.cells = 0;
        proof {
            assert(self@.rows =~= Seq::<RowView>::empty());
            assert(row_views(rows@) =~= all);
        }
        rows
    }

    /// Put rows back above the screen, however many they are. The cell budget
    /// grows so that it holds them.
    pub fn set_rows(&mut self, rows: Vec<RetainedRow>)
        requires
            cell_count(row_views(rows@)) <= usize::MAX,
        ensures
            final(self).wf(),
            final(self)@ == (HistoryView {
                rows: row_views(rows@),
                cell_budget: if cell_count(row_views(rows@)) > old(self)@.cell_budget {
                    cell_count(row_views(rows@)) as int
                } else {
                    old(self)@.cell_budget
                },
                ..old(self)@
            }),
    {
        let ghost all = row_views(rows@);
        let mut rows = rows;
        let mut scrollback: VecDeque<HistoryRow> = VecDeque::new();
        let mut metadata: VecDeque<RowMetadata> = VecDeque::new();
        let mut lines: usize = 0;
        let mut cells: usize = 0;
        proof {
            assert(row_views(rows@) + history_rows(scrollback@, metadata@) =~= all);
        }
        while rows.len() > 0
            invariant
                scrollback@.len() == metadata@.len(),
                row_views(rows@) + history_rows(scrollback@, metadata@) == all,
                lines == hard_lines(history_rows(scrollback@, metadata@)),
                cells == cell_count(history_rows(scrollback@, metadata@)),
                cell_count(all) <= usize::MAX,
            decreases rows@.len(),
        {
            let ghost left = row_views(rows@);
            let ghost done = history_rows(scrollback@, metadata@);
            if let Some(row) = rows.pop() {
                proof {
                    assert(left.last() == row@);
                    lemma_append(left, done);
                    assert(left == left.drop_last().push(left.last()));
                    lemma_push(left.drop_last(), left.last());
                }
                cells += row.cells.len();
                let wrapped: bool = row.metadata.wrapped;
                scrollback.push_front(HistoryRow::from_cells(row.cells));
                metadata.push_front(row.metadata);
                proof {
                    let next = history_rows(scrollback@, metadata@);
                    assert(next =~= seq![left.last()] + done);
                    assert(next.drop_first() =~= done);
                    lemma_drop_first(next);
                    lemma_hard_lines_bound(next);
                    assert(scrollback.len() == scrollback@.len());
                    assert(row_views(rows@) =~= left.drop_last());
                    assert(left.drop_last() + next =~= left + done);
                }
                if !wrapped {
                    lines += 1;
                }
            }
        }
        self.scrollback = scrollback;
        self.metadata = metadata;
        self.hard_lines = lines;
        self.cells = cells;
        if cells > self.cell_budget {
            self.cell_budget = cells;
        }
        proof {
            assert(self@.rows =~= all);
        }
    }

    /// Keep one more row, and drop the oldest rows that go beyond the budget.
    /// The line budget counts logical lines, so that a narrow screen keeps as
    /// many; the cell budget bounds an endless wrapped line. The result is the
    /// number of rows dropped.
    pub fn push(&mut self, row: HistoryRow, metadata: RowMetadata) -> (gone: usize)
        requires
            old(self).wf(),
        ensures
            final(self).wf(),
            final(self)@ == old(self)@.pushed(RowView { cells: row@, metadata }),
            gone == old(self)@.rows.len() + 1 - final(self)@.rows.len(),
    {
        let ghost entry = RowView { cells: row@, metadata };
        let ghost before = self@.rows;
        // Cells of the rows that were there before, and of the new row.
        let mut older: usize = self.cells;
        let mut newest: usize = row.len();
        let mut lines: usize = self.hard_lines;
        let max: usize = self.max_lines;
        let budget: usize = self.cell_budget;
        let mut gone_rows: usize = 0;
        self.scrollback.push_back(row);
        self.metadata.push_back(metadata);
        let ghost all = self@.rows;
        proof {
            assert(all =~= before.push(entry));
            lemma_push(before, entry);
            lemma_hard_lines_bound(all);
            assert(self.scrollback.len() == self.scrollback@.len());
        }
        if !metadata.wrapped {
            lines += 1;
        }
        while self.scrollback.len() > 0 && (lines > max || newest > budget || older > budget
            - newest)
            invariant
                self.scrollback@.len() == self.metadata@.len(),
                gone_rows + self.scrollback@.len() == all.len(),
                all.len() <= usize::MAX,
                lines == hard_lines(self@.rows),
                older + newest == cell_count(self@.rows),
                self.scrollback@.len() > 0 ==> newest == self@.rows.last().cells.len(),
                self.scrollback@.len() == 0 ==> newest == 0,
                evicted(self@.rows, max as int, budget as int) == evicted(
                    all,
                    max as int,
                    budget as int,
                ),
                *self == (History {
                    scrollback: self.scrollback,
                    metadata: self.metadata,
                    ..*old(self)
                }),
            decreases self.scrollback@.len(),
        {
            let ghost rows = self@.rows;
            proof {
                lemma_drop_first(rows);
            }
            let gone: Option<HistoryRow> = self.scrollback.pop_front();
            let gone_metadata: Option<RowMetadata> = self.metadata.pop_front();
            let ghost left = self@.rows;
            proof {
                assert(left =~= rows.drop_first());
            }
            if let Some(gone) = gone {
                if self.scrollback.len() == 0 {
                    proof {
                        assert(left =~= Seq::<RowView>::empty());
                        assert(rows[0] == rows.last());
                    }
                    newest = 0;
                } else {
                    proof {
                        assert(left.last() == rows.last());
                        assert(cell_count(left) >= left.last().cells.len());
                    }
                    older -= gone.len();
                }
            }
            if let Some(gone) = gone_metadata {
                if !gone.wrapped {
                    lines -= 1;
                }
            }
            gone_rows += 1;
        }
        self.cells = older + newest;
        self.hard_lines = lines;
        gone_rows
    }
}

} // verus!
