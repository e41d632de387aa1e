//! Rows that have left the screen.
use crate::grid::buffer::cell_views;
use crate::grid::cell::{Cell, CellView};
use vstd::prelude::*;

verus! {

/// `Vec::shrink_to_fit` gives unused memory back and keeps the elements.
#[verifier::external_body]
fn release_spare(cells: &mut Vec<Cell>)
    ensures
        final(cells)@ == old(cells)@,
{
    cells.shrink_to_fit();
}

/// `Vec::capacity` is at least the number of elements. What more the allocator
/// gave is not stated.
#[verifier::external_body]
pub(crate) fn capacity_of<T>(items: &Vec<T>) -> (r: usize)
    ensures
        r >= items@.len(),
{
    items.capacity()
}

#[derive(Debug)]
enum HistoryCells {
    Empty,
    Single(Cell),
    Many(Vec<Cell>),
}

/// An immutable history row with a materialized prefix and a default-cell
/// suffix. Its logical width never changes when cells are omitted from the
/// allocation, and a prefix of one cell needs no allocation.
#[derive(Debug)]
pub struct HistoryRow {
    cells: HistoryCells,
    cols: usize,
    blank: Cell,
}

impl HistoryCells {
    spec fn prefix(self) -> Seq<CellView> {
        match self {
            HistoryCells::Empty => Seq::empty(),
            HistoryCells::Single(cell) => seq![cell@],
            HistoryCells::Many(cells) => cell_views(cells@),
        }
    }
}

/// A row of `cols` cells that starts with `prefix` and is blank after it.
pub open spec fn padded(prefix: Seq<CellView>, cols: int) -> Seq<CellView> {
    Seq::new(
        cols as nat,
        |i: int| if i < prefix.len() { prefix[i] } else { CellView::default_cell() },
    )
}

/// The number of leading cells up to the last one that is not a default cell.
pub open spec fn default_suffix_start(cells: Seq<CellView>) -> int
    decreases cells.len(),
{
    if cells.len() == 0 {
        0
    } else if cells.last() != CellView::default_cell() {
        cells.len() as int
    } else {
        default_suffix_start(cells.drop_last())
    }
}

/// Dropping the default cells at the end of a row and padding it again gives
/// the row back.
pub proof fn law_default_suffix_is_redundant(cells: Seq<CellView>)
    ensures
        0 <= default_suffix_start(cells) <= cells.len(),
        padded(cells.subrange(0, default_suffix_start(cells)), cells.len() as int) == cells,
        default_suffix_start(cells) > 0 ==> cells[default_suffix_start(cells) - 1]
            != CellView::default_cell(),
    decreases cells.len(),
{
    let end = default_suffix_start(cells);
    if cells.len() > 0 && cells.last() == CellView::default_cell() {
        let shorter = cells.drop_last();
        law_default_suffix_is_redundant(shorter);
        assert(padded(shorter.subrange(0, end), shorter.len() as int) == shorter);
        assert forall|i: int| 0 <= i < cells.len() implies padded(
            cells.subrange(0, end),
            cells.len() as int,
        )[i] == cells[i] by {
            if i < shorter.len() {
                assert(padded(shorter.subrange(0, end), shorter.len() as int)[i] == shorter[i]);
                assert(shorter[i] == cells[i]);
                if i < end {
                    assert(shorter.subrange(0, end)[i] == cells.subrange(0, end)[i]);
                }
            }
        }
    }
    assert(padded(cells.subrange(0, end), cells.len() as int) =~= cells);
}

impl View for HistoryRow {
    type V = Seq<CellView>;

    closed spec fn view(&self) -> Seq<CellView> {
        padded(self.cells.prefix(), self.cols as int)
    }
}

impl HistoryRow {
    #[verifier::type_invariant]
    spec fn inv(self) -> bool {
        &&& self.cells.prefix().len() <= self.cols
        &&& self.blank@ == CellView::default_cell()
        &&& self.cells is Many ==> self.cells.prefix().len() >= 2
    }

    /// The number of leading cells that are stored.
    pub closed spec fn materialized(&self) -> nat {
        self.cells.prefix().len()
    }

    /// A row of `cols` cells whose omitted cells are default cells.
    pub fn from_prefix(cells: Vec<Cell>, cols: usize) -> (r: HistoryRow)
        requires
            cells@.len() <= cols,
        ensures
            r@ == padded(cell_views(cells@), cols as int),
            r.materialized() == cells@.len(),
    {
        let mut cells = cells;
        let ghost prefix = cell_views(cells@);
        let stored: HistoryCells = if cells.len() >= 2 {
            HistoryCells::Many(cells)
        } else {
            match cells.pop() {
                Some(cell) => HistoryCells::Single(cell),
                None => HistoryCells::Empty,
            }
        };
        proof {
            assert(stored.prefix() =~= prefix);
        }
        HistoryRow { cells: stored, cols, blank: Cell::default() }
    }

    /// A row of the given cells, stored without the default cells at its end.
    pub fn from_cells(cells: Vec<Cell>) -> (r: HistoryRow)
        ensures
            r@ == cell_views(cells@),
            r.materialized() == default_suffix_start(cell_views(cells@)),
    {
        let mut cells = cells;
        let cols: usize = cells.len();
        let ghost views = cell_views(cells@);
        let blank: Cell = Cell::default();
        let mut end: usize = cols;
        proof {
            assert(views.subrange(0, cols as int) =~= views);
        }
        while end > 0 && cells[end - 1] == blank
            invariant
                end <= cols == cells@.len(),
                views == cell_views(cells@),
                blank@ == CellView::default_cell(),
                default_suffix_start(views.subrange(0, end as int)) == default_suffix_start(views),
            decreases end,
        {
            proof {
                assert(views.subrange(0, end as int).last() == views[end - 1]);
                assert(views.subrange(0, end as int).drop_last() =~= views.subrange(0, end - 1));
            }
            end -= 1;
        }
        proof {
            if end > 0 {
                assert(views.subrange(0, end as int).last() == views[end - 1]);
            }
            law_default_suffix_is_redundant(views);
        }
        cells.truncate(end);
        release_spare(&mut cells);
        proof {
            assert(cell_views(cells@) =~= views.subrange(0, end as int));
        }
        HistoryRow::from_prefix(cells, cols)
    }

    /// Logical width, used for retention budgets and column projection.
    pub fn len(&self) -> (r: usize)
        ensures
            r == self@.len(),
    {
        self.cols
    }

    pub fn get(&self, col: usize) -> (r: Option<&Cell>)
        ensures
            r is Some <==> col < self@.len(),
            r is Some ==> r->0@ == self@[col as int],
    {
        proof {
            use_type_invariant(self);
        }
        if col >= self.cols {
            return None;
        }
        match &self.cells {
            HistoryCells::Empty => Some(&self.blank),
            HistoryCells::Single(cell) => {
                if col == 0 {
                    Some(cell)
                } else {
                    Some(&self.blank)
                }
            },
            HistoryCells::Many(cells) => {
                if col < cells.len() {
                    Some(&cells[col])
                } else {
                    Some(&self.blank)
                }
            },
        }
    }

    /// Materialize the logical row for the editable buffer and reflow.
    pub fn into_cells(self) -> (r: Vec<Cell>)
        ensures
            cell_views(r@) == self@,
    {
        proof {
            use_type_invariant(&self);
        }
        let ghost logical = self@;
        let cols: usize = self.cols;
        let blank: Cell = self.blank;
        let mut cells: Vec<Cell> = match self.cells {
            HistoryCells::Empty => Vec::new(),
            HistoryCells::Single(cell) => vec![cell],
            HistoryCells::Many(cells) => cells,
        };
        let ghost prefix = cell_views(cells@);
        proof {
            assert(prefix =~= self.cells.prefix());
        }
        while cells.len() < cols
            invariant
                prefix.len() <= cells@.len() <= cols,
                blank@ == CellView::default_cell(),
                logical == padded(prefix, cols as int),
                forall|i: int| 0 <= i < cells@.len() ==> (#[trigger] cells@[i])@ == logical[i],
            decreases cols - cells@.len(),
        {
            cells.push(blank.clone());
        }
        proof {
            assert(cell_views(cells@) =~= logical);
        }
        cells
    }

    pub fn materialized_len(&self) -> (r: usize)
        ensures
            r == self.materialized(),
    {
        match &self.cells {
            HistoryCells::Empty => 0,
            HistoryCells::Single(_) => 1,
            HistoryCells::Many(cells) => cells.len(),
        }
    }

    /// The cells for which memory is allocated besides the row itself.
    pub fn allocated_capacity(&self) -> (r: usize)
        ensures
            self.materialized() <= 1 ==> r == 0,
            self.materialized() > 1 ==> r >= self.materialized(),
    {
        proof {
            use_type_invariant(self);
        }
        match &self.cells {
            HistoryCells::Empty => 0,
            HistoryCells::Single(_) => 0,
            HistoryCells::Many(cells) => capacity_of(cells),
        }
    }
}

/// A copy of each cell.
pub(crate) fn clone_cells(cells: &Vec<Cell>) -> (r: Vec<Cell>)
    ensures
        r@ =~= cells@,
{
    let mut copied: Vec<Cell> = Vec::with_capacity(cells.len());
    let mut i: usize = 0;
    while i < cells.len()
        invariant
            i <= cells@.len(),
            copied@ =~= cells@.subrange(0, i as int),
        decreases cells@.len() - i,
    {
        copied.push(cells[i].clone());
        i += 1;
    }
    copied
}

impl Clone for HistoryRow {
    fn clone(&self) -> (r: HistoryRow)
        ensures
            r@ == self@,
            r.materialized() == self.materialized(),
    {
        proof {
            use_type_invariant(self);
        }
        let cells: HistoryCells = match &self.cells {
            HistoryCells::Empty => HistoryCells::Empty,
            HistoryCells::Single(cell) => HistoryCells::Single(cell.clone()),
            HistoryCells::Many(cells) => HistoryCells::Many(clone_cells(cells)),
        };
        proof {
            assert(cells.prefix() =~= self.cells.prefix());
        }
        HistoryRow { cells, cols: self.cols, blank: Cell::default() }
    }
}

} // verus!
