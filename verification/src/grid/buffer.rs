//! The rectangular cell storage of one screen.
use crate::grid::cell::{Cell, CellView};
use crate::grid::history::{padded, HistoryRow};
use crate::grid::reflow::{row_views, RetainedRow};
use vstd::prelude::*;

verus! {

/// How much of a row was written, and whether its line continues in the next.
#[derive(Debug, Clone, Copy, PartialEq, Eq, Structural)]
pub struct RowMetadata {
    pub len: usize,
    pub wrapped: bool,
}

impl Default for RowMetadata {
    fn default() -> (r: RowMetadata)
        ensures
            r == (RowMetadata { len: 0, wrapped: false }),
    {
        RowMetadata { len: 0, wrapped: false }
    }
}

/// One row as it is shown: its cells and its metadata.
#[verifier::ext_equal]
pub ghost struct RowView {
    pub cells: Seq<CellView>,
    pub metadata: RowMetadata,
}

/// A screen as it is shown: rows of equally many cells.
#[verifier::ext_equal]
pub ghost struct BufferView {
    pub cols: int,
    pub rows: Seq<RowView>,
}

/// What each cell of a sequence shows.
pub open spec fn cell_views(cells: Seq<Cell>) -> Seq<CellView> {
    Seq::new(cells.len(), |i: int| cells[i]@)
}

impl RowView {
    /// A row of `cols` copies of one cell, with nothing written in it.
    pub open spec fn filled(cols: int, cell: CellView) -> RowView {
        RowView {
            cells: Seq::new(cols as nat, |i: int| cell),
            metadata: RowMetadata { len: 0, wrapped: false },
        }
    }

    /// The end of the retained content: the written length, or the end of the
    /// last cell that does not show a space, whichever is further right.
    pub open spec fn content_len(self) -> int {
        let last = content_end(self.cells);
        if last > self.metadata.len { last } else { self.metadata.len as int }
    }

    /// The metadata with the length that the content asks for.
    pub open spec fn content_metadata(self) -> RowMetadata {
        RowMetadata { len: self.content_len() as usize, wrapped: self.metadata.wrapped }
    }
}

/// One past the last cell whose scalar is not a space.
pub open spec fn content_end(cells: Seq<CellView>) -> int
    decreases cells.len(),
{
    if cells.len() == 0 {
        0
    } else if cells.last().c != ' ' {
        cells.len() as int
    } else {
        content_end(cells.drop_last())
    }
}

/// `content_end` is where only spaces follow, directly after a non-space.
pub proof fn lemma_content_end(cells: Seq<CellView>)
    ensures
        0 <= content_end(cells) <= cells.len(),
        forall|i: int| content_end(cells) <= i < cells.len() ==> cells[i].c == ' ',
        content_end(cells) > 0 ==> cells[content_end(cells) - 1].c != ' ',
    decreases cells.len(),
{
    if cells.len() > 0 && cells.last().c == ' ' {
        lemma_content_end(cells.drop_last());
        assert forall|i: int| content_end(cells) <= i < cells.len() implies cells[i].c == ' ' by {
            if i < cells.len() - 1 {
                assert(cells.drop_last()[i].c == ' ');
            }
        }
    }
}

/// Only one column has that property.
pub proof fn lemma_content_end_unique(cells: Seq<CellView>, end: int)
    requires
        0 <= end <= cells.len(),
        forall|i: int| end <= i < cells.len() ==> cells[i].c == ' ',
        end > 0 ==> cells[end - 1].c != ' ',
    ensures
        content_end(cells) == end,
{
    lemma_content_end(cells);
}

impl BufferView {
    /// Every row has the width of the screen.
    pub open spec fn shaped(self) -> bool {
        &&& 0 <= self.cols <= usize::MAX
        &&& self.rows.len() <= usize::MAX
        &&& forall|r: int| 0 <= r < self.rows.len() ==> (#[trigger] self.rows[r]).cells.len() == self.cols
    }

    /// A screen of blank rows.
    pub open spec fn blank(cols: int, rows: int) -> BufferView {
        BufferView {
            cols,
            rows: Seq::new(rows as nat, |r: int| RowView::filled(cols, CellView::default_cell())),
        }
    }

    pub open spec fn cell(self, row: int, col: int) -> CellView {
        self.rows[row].cells[col]
    }

    pub open spec fn with_cell(self, row: int, col: int, cell: CellView) -> BufferView {
        self.with_cells(row, self.rows[row].cells.update(col, cell))
    }

    /// The screen with other cells in one row.
    pub open spec fn with_cells(self, row: int, cells: Seq<CellView>) -> BufferView {
        BufferView {
            rows: self.rows.update(row, RowView { cells, ..self.rows[row] }),
            ..self
        }
    }

    pub open spec fn with_metadata(self, row: int, metadata: RowMetadata) -> BufferView {
        BufferView { rows: self.rows.update(row, RowView { metadata, ..self.rows[row] }), ..self }
    }

    /// The screen after writing up to column `end` of a row.
    pub open spec fn written(self, row: int, end: int) -> BufferView {
        let limit = if end < self.cols { end } else { self.cols };
        let len = self.rows[row].metadata.len;
        self.with_metadata(
            row,
            RowMetadata {
                len: if limit > len { limit as usize } else { len },
                ..self.rows[row].metadata
            },
        )
    }

    pub open spec fn with_wrapped(self, row: int, wrapped: bool) -> BufferView {
        self.with_metadata(row, RowMetadata { wrapped, ..self.rows[row].metadata })
    }

    pub open spec fn cleared(self, row: int, template: CellView) -> BufferView {
        BufferView { rows: self.rows.update(row, RowView::filled(self.cols, template)), ..self }
    }

    /// Rows `top..=bottom` moved up by `count`, with blank rows below them.
    pub open spec fn scrolled_up(self, top: int, bottom: int, count: int, template: CellView)
        -> BufferView {
        BufferView {
            rows: Seq::new(
                self.rows.len(),
                |r: int|
                    if r < top || r > bottom {
                        self.rows[r]
                    } else if r + count <= bottom {
                        self.rows[r + count]
                    } else {
                        RowView::filled(self.cols, template)
                    },
            ),
            ..self
        }
    }

    /// Rows `top..=bottom` moved down by `count`, with blank rows above them.
    pub open spec fn scrolled_down(self, top: int, bottom: int, count: int, template: CellView)
        -> BufferView {
        BufferView {
            rows: Seq::new(
                self.rows.len(),
                |r: int|
                    if r < top || r > bottom {
                        self.rows[r]
                    } else if r - count >= top {
                        self.rows[r - count]
                    } else {
                        RowView::filled(self.cols, template)
                    },
            ),
            ..self
        }
    }
}

/// Changes of one row keep the shape of the screen.
pub proof fn lemma_row_change_shaped(
    screen: BufferView,
    row: int,
    cells: Seq<CellView>,
    metadata: RowMetadata,
)
    requires
        screen.shaped(),
        0 <= row < screen.rows.len(),
    ensures
        cells.len() == screen.cols ==> screen.with_cells(row, cells).shaped(),
        screen.with_metadata(row, metadata).shaped(),
{
    assert forall|r: int| 0 <= r < screen.rows.len() implies (
    #[trigger] screen.with_metadata(row, metadata).rows[r]).cells.len() == screen.cols by {
        assert(screen.rows[r].cells.len() == screen.cols);
    }
    if cells.len() == screen.cols {
        assert forall|r: int| 0 <= r < screen.rows.len() implies (
        #[trigger] screen.with_cells(row, cells).rows[r]).cells.len() == screen.cols by {
            assert(screen.rows[r].cells.len() == screen.cols);
        }
    }
}

impl BufferView {
    /// The screen after cells are written one after the other, each at its row
    /// and column.
    pub open spec fn with_writes(self, writes: Seq<(int, int, CellView)>) -> BufferView
        decreases writes.len(),
    {
        if writes.len() == 0 {
            self
        } else {
            let (row, col, cell) = writes.last();
            self.with_writes(writes.drop_last()).with_cell(row, col, cell)
        }
    }
}

/// Whatever is written into the cells of a screen, the recorded length of a row
/// and its wrap stay, and its content reaches at least as far as recorded.
pub proof fn law_cell_writes_keep_recorded_length(
    screen: BufferView,
    row: int,
    metadata: RowMetadata,
    writes: Seq<(int, int, CellView)>,
)
    requires
        0 <= row < screen.rows.len(),
        forall|i: int| 0 <= i < writes.len() ==> 0 <= (#[trigger] writes[i]).0 < screen.rows.len(),
    ensures
        ({
            let after = screen.with_metadata(row, metadata).with_writes(writes);
            let end = content_end(after.rows[row].cells);
            &&& after.rows.len() == screen.rows.len()
            &&& after.rows[row].metadata == metadata
            &&& after.rows[row].content_metadata() == RowMetadata {
                len: if end > metadata.len { end as usize } else { metadata.len },
                wrapped: metadata.wrapped,
            }
        }),
    decreases writes.len(),
{
    if writes.len() > 0 {
        let before = writes.drop_last();
        assert forall|i: int| 0 <= i < before.len() implies 0 <= (#[trigger] before[i]).0
            < screen.rows.len() by {
            assert(before[i] == writes[i]);
        }
        assert(writes[writes.len() - 1] == writes.last());
        law_cell_writes_keep_recorded_length(screen, row, metadata, before);
    }
}

/// A region longer than the distance loses nothing else by scrolling up and
/// down again: the rows that stayed inside it come back, and rows outside the
/// region never move.
pub proof fn law_scroll_round_trip(
    screen: BufferView,
    top: int,
    bottom: int,
    count: int,
    template: CellView,
)
    requires
        screen.shaped(),
        0 <= top <= bottom < screen.rows.len(),
        0 <= count <= bottom - top + 1,
    ensures
        ({
            let back = screen.scrolled_up(top, bottom, count, template).scrolled_down(
                top,
                bottom,
                count,
                template,
            );
            &&& back.rows.len() == screen.rows.len()
            &&& forall|r: int|
                0 <= r < screen.rows.len() && !(top <= r < top + count) ==> back.rows[r]
                    == screen.rows[r]
            &&& forall|r: int|
                top <= r < top + count ==> back.rows[r] == RowView::filled(screen.cols, template)
        }),
{
}

/// Two scrolls in the same direction are one scroll by the sum, and a distance
/// beyond the region clears it.
pub proof fn law_scrolls_add(
    screen: BufferView,
    top: int,
    bottom: int,
    first: int,
    second: int,
    template: CellView,
)
    requires
        screen.shaped(),
        0 <= top <= bottom < screen.rows.len(),
        0 <= first,
        0 <= second,
    ensures
        screen.scrolled_up(top, bottom, first, template).scrolled_up(top, bottom, second, template)
            == screen.scrolled_up(top, bottom, first + second, template),
        screen.scrolled_down(top, bottom, first, template).scrolled_down(
            top,
            bottom,
            second,
            template,
        ) == screen.scrolled_down(top, bottom, first + second, template),
{
    assert(screen.scrolled_up(top, bottom, first, template).scrolled_up(
        top,
        bottom,
        second,
        template,
    ).rows =~= screen.scrolled_up(top, bottom, first + second, template).rows);
    assert(screen.scrolled_down(top, bottom, first, template).scrolled_down(
        top,
        bottom,
        second,
        template,
    ).rows =~= screen.scrolled_down(top, bottom, first + second, template).rows);
}

/// The cells of all rows in one allocation. Scrolling rotates the offsets of
/// the rows instead of moving the cells that stay on screen, and a scroll of
/// the whole screen only moves the circular origin of the offsets.
#[derive(Debug)]
pub struct Buffer {
    cells: Vec<Cell>,
    row_starts: Vec<usize>,
    row_origin: usize,
    // Cells from this column onward show the same as the last cell of the row.
    // A frontier at `cols` means that the suffix is unknown. Mutable access
    // only moves the frontier right; clearing makes the whole row uniform.
    uniform_suffix_start: Vec<usize>,
    cols: usize,
    rows: usize,
    metadata: Vec<RowMetadata>,
}

/// Position `i` after a left rotation by `count` of the positions `top..end`.
spec fn rotated(i: int, top: int, end: int, count: int) -> int {
    if i < top || i >= end {
        i
    } else if i + count < end {
        i + count
    } else {
        i + count - (end - top)
    }
}

/// Rotate the entries `top..end` of a vector left by `count`.
fn rotate_left<T: Copy>(entries: &mut Vec<T>, top: usize, end: usize, count: usize)
    requires
        top <= end <= old(entries)@.len(),
        count <= end - top,
    ensures
        final(entries)@ == Seq::new(
            old(entries)@.len(),
            |i: int| old(entries)@[rotated(i, top as int, end as int, count as int)],
        ),
{
    let mut turned: Vec<T> = Vec::with_capacity(entries.len());
    let mut i: usize = 0;
    while i < entries.len()
        invariant
            i <= entries@.len(),
            entries@ == old(entries)@,
            top <= end <= entries@.len(),
            count <= end - top,
            turned@ == Seq::new(
                i as nat,
                |j: int| entries@[rotated(j, top as int, end as int, count as int)],
            ),
        decreases entries@.len() - i,
    {
        let source: usize = if i < top || i >= end {
            i
        } else if i < end - count {
            i + count
        } else {
            i - (end - top - count)
        };
        turned.push(entries[source]);
        i += 1;
        proof {
            assert(turned@ =~= Seq::new(
                i as nat,
                |j: int| entries@[rotated(j, top as int, end as int, count as int)],
            ));
        }
    }
    *entries = turned;
}

impl View for Buffer {
    type V = BufferView;

    closed spec fn view(&self) -> BufferView {
        BufferView {
            cols: self.cols as int,
            rows: Seq::new(self.rows as nat, |r: int| self.row_view(self.physical(r))),
        }
    }
}

impl Buffer {
    spec fn physical(self, row: int) -> int {
        if row < self.rows - self.row_origin {
            self.row_origin + row
        } else {
            row - (self.rows - self.row_origin)
        }
    }

    spec fn row_view(self, at: int) -> RowView {
        RowView {
            cells: Seq::new(self.cols as nat, |c: int| self.cells@[self.row_starts@[at] + c]@),
            metadata: self.metadata@[at],
        }
    }

    spec fn layout(self) -> bool {
        &&& self.cells@.len() <= usize::MAX
        &&& self.cols * self.rows <= usize::MAX / 2
        &&& self.row_starts@.len() == self.rows
        &&& self.uniform_suffix_start@.len() == self.rows
        &&& self.metadata@.len() == self.rows
        &&& self.row_origin <= self.rows
        &&& self.rows > 0 ==> self.row_origin < self.rows
        &&& forall|r: int|
            0 <= r < self.rows ==> (#[trigger] self.row_starts@[r]) + self.cols
                <= self.cells@.len()
        &&& forall|r: int|
            0 <= r < self.rows ==> (#[trigger] self.uniform_suffix_start@[r]) <= self.cols
        &&& forall|r: int, s: int|
            0 <= r < self.rows && 0 <= s < self.rows && r != s
                ==> (#[trigger] self.row_starts@[r]) + self.cols <= (
            #[trigger] self.row_starts@[s]) || self.row_starts@[s] + self.cols <= self.row_starts@[r]
    }

    spec fn suffixes(self) -> bool {
        forall|r: int, c: int|
            #![trigger self.row_view(r).cells[c]]
            0 <= r < self.rows && self.uniform_suffix_start@[r] <= c < self.cols
                ==> self.row_view(r).cells[c] == self.row_view(r).cells[self.cols - 1]
    }

    /// The rows are disjoint parts of the allocation, and each known suffix is
    /// uniform.
    pub closed spec fn wf(&self) -> bool {
        self.layout() && self.suffixes()
    }

    /// The number of known leading cells of a row: what follows them is known
    /// to equal the last cell, unless the number is the width of the row.
    pub closed spec fn frontier(&self, row: int) -> int {
        self.uniform_suffix_start@[self.physical(row)] as int
    }

    /// Where the first row stands among the row offsets.
    pub closed spec fn origin(&self) -> int {
        self.row_origin as int
    }

    pub proof fn lemma_shape(&self)
        requires
            self.wf(),
        ensures
            self@.shaped(),
            forall|r: int| 0 <= r < self@.rows.len() ==> 0 <= #[trigger] self.frontier(r) <= self@.cols,
            forall|r: int, c: int|
                0 <= r < self@.rows.len() && #[trigger] self.frontier(r) <= c < self@.cols ==> (
                #[trigger] self@.rows[r].cells[c]) == self@.rows[r].cells[self@.cols - 1],
            self@.rows.len() > 0 ==> 0 <= self.origin() < self@.rows.len(),
            self@.cols * self@.rows.len() <= usize::MAX / 2,
            self@.cols > 0 ==> self@.rows.len() <= usize::MAX / 2,
            self@.rows.len() > 0 ==> self@.cols <= usize::MAX / 2,
    {
        if self.cols > 0 && self.rows > 0 {
            assert(self.rows <= self.cols * self.rows) by (nonlinear_arith)
                requires
                    self.cols >= 1,
                    self.rows >= 0,
            ;
            assert(self.cols <= self.cols * self.rows) by (nonlinear_arith)
                requires
                    self.rows >= 1,
                    self.cols >= 0,
            ;
        }
        assert forall|r: int| 0 <= r < self@.rows.len() implies 0 <= #[trigger] self.frontier(r)
            <= self@.cols by {
            assert(0 <= self.physical(r) < self.rows);
        }
        assert forall|r: int, c: int|
            0 <= r < self@.rows.len() && #[trigger] self.frontier(r) <= c < self@.cols implies (
        #[trigger] self@.rows[r].cells[c]) == self@.rows[r].cells[self@.cols - 1] by {
            assert(0 <= self.physical(r) < self.rows);
            assert(self.row_view(self.physical(r)).cells[c] == self.row_view(
                self.physical(r),
            ).cells[self.cols - 1]);
        }
    }

    /// A change of one row alone keeps the invariant and every other row.
    proof fn lemma_row_replaced(before: Buffer, after: Buffer, row: int)
        requires
            before.wf(),
            0 <= row < before.rows,
            after.cols == before.cols,
            after.rows == before.rows,
            after.row_origin == before.row_origin,
            after.row_starts@ == before.row_starts@,
            after.cells@.len() == before.cells@.len(),
            ({
                let at = before.physical(row);
                let start = before.row_starts@[at];
                &&& forall|i: int|
                    0 <= i < before.cells@.len() && !(start <= i < start + before.cols)
                        ==> #[trigger] after.cells@[i] == before.cells@[i]
                &&& after.uniform_suffix_start@ == before.uniform_suffix_start@.update(
                    at,
                    after.uniform_suffix_start@[at],
                )
                &&& after.metadata@ == before.metadata@.update(at, after.metadata@[at])
                &&& after.uniform_suffix_start@[at] <= before.cols
                &&& forall|c: int|
                    after.uniform_suffix_start@[at] <= c < before.cols
                        ==> #[trigger] after.row_view(at).cells[c] == after.row_view(
                        at,
                    ).cells[before.cols - 1]
            }),
        ensures
            after.wf(),
            after@ == (BufferView {
                rows: before@.rows.update(row, after.row_view(before.physical(row))),
                ..before@
            }),
            after.origin() == before.origin(),
            forall|r: int|
                0 <= r < before.rows && r != row ==> #[trigger] after.frontier(r)
                    == before.frontier(r),
    {
        let at = before.physical(row);
        assert(0 <= at < before.rows);
        assert forall|r: int| 0 <= r < before.rows && r != at implies after.row_view(r)
            == before.row_view(r) by {
            assert(before.row_starts@[r] + before.cols <= before.cells@.len());
            assert(before.row_starts@[at] + before.cols <= before.cells@.len());
            assert(after.row_view(r).cells =~= before.row_view(r).cells);
        }
        assert forall|r: int| 0 <= r < before.rows && r != row implies before.physical(r) != at by {}
        assert(after@.rows =~= before@.rows.update(row, after.row_view(at)));
        assert forall|r: int, c: int|
            #![trigger after.row_view(r).cells[c]]
            0 <= r < after.rows && after.uniform_suffix_start@[r] <= c
                < after.cols implies after.row_view(r).cells[c] == after.row_view(
            r,
        ).cells[after.cols - 1] by {
            if r != at {
                assert(after.row_view(r) == before.row_view(r));
                assert(before.row_view(r).cells[c] == before.row_view(r).cells[before.cols - 1]);
            }
        }
        assert forall|r: int| 0 <= r < after.rows implies (
        #[trigger] after.uniform_suffix_start@[r]) <= after.cols by {
            if r != at {
                assert(before.uniform_suffix_start@[r] <= before.cols);
            }
        }
    }

    /// The buffer whose cells `lo..hi` of one row were overwritten.
    proof fn lemma_row_assigned(
        before: Buffer,
        after: Buffer,
        row: int,
        lo: int,
        hi: int,
        cells: Seq<Cell>,
    )
        requires
            before.wf(),
            0 <= row < before.rows,
            0 <= lo <= hi <= before.cols,
            after.cols == before.cols,
            after.rows == before.rows,
            after.row_origin == before.row_origin,
            after.row_starts@ == before.row_starts@,
            after.metadata@ == before.metadata@,
            ({
                let at = before.physical(row);
                let start = before.row_starts@[at];
                let frontier = before.uniform_suffix_start@[at];
                &&& after.cells@ == before.cells@.subrange(0, start + lo) + (cells
                    + before.cells@.subrange(start + hi, before.cells@.len() as int))
                &&& after.uniform_suffix_start@ == before.uniform_suffix_start@.update(
                    at,
                    if lo < hi && hi > frontier {
                        hi as usize
                    } else {
                        frontier
                    },
                )
            }),
        ensures
            cells.len() == hi - lo ==> {
                &&& after.wf()
                &&& after@ == before@.with_cells(
                    row,
                    before@.rows[row].cells.subrange(0, lo) + cell_views(cells)
                        + before@.rows[row].cells.subrange(hi, before@.cols),
                )
                &&& after.origin() == before.origin()
                &&& after.frontier(row) == if lo < hi && hi > before.frontier(row) {
                    hi
                } else {
                    before.frontier(row)
                }
                &&& forall|other: int|
                    0 <= other < before@.rows.len() && other != row ==> #[trigger] after.frontier(
                        other,
                    ) == before.frontier(other)
            },
    {
        if cells.len() == hi - lo {
            let at = before.physical(row);
            assert(0 <= at < before.rows);
            assert(before.row_starts@[at] + before.cols <= before.cells@.len());
            assert(after.row_view(at).cells =~= before@.rows[row].cells.subrange(0, lo)
                + cell_views(cells) + before@.rows[row].cells.subrange(hi, before@.cols));
            assert(after.metadata@ =~= before.metadata@.update(at, after.metadata@[at]));
            assert forall|c: int|
                after.uniform_suffix_start@[at] <= c
                    < before.cols implies #[trigger] after.row_view(at).cells[c]
                == after.row_view(at).cells[before.cols - 1] by {
                assert(before.row_view(at).cells[c] == before.row_view(at).cells[before.cols - 1]);
            }
            Self::lemma_row_replaced(before, after, row);
        }
    }

    /// Turning the rows `top..end` left keeps the invariant.
    proof fn lemma_rotated(before: Buffer, after: Buffer, top: int, end: int, count: int)
        requires
            before.wf(),
            0 <= top <= end <= before.rows,
            0 <= count <= end - top,
            after.cells@ == before.cells@,
            after.cols == before.cols,
            after.rows == before.rows,
            after.row_origin == 0,
            after.row_starts@ == Seq::new(
                before.rows as nat,
                |i: int| before.row_starts@[rotated(i, top, end, count)],
            ),
            after.uniform_suffix_start@ == Seq::new(
                before.rows as nat,
                |i: int| before.uniform_suffix_start@[rotated(i, top, end, count)],
            ),
            after.metadata@ == Seq::new(
                before.rows as nat,
                |i: int| before.metadata@[rotated(i, top, end, count)],
            ),
        ensures
            after.wf(),
            forall|r: int|
                0 <= r < before.rows ==> #[trigger] after.row_view(r) == before.row_view(
                    rotated(r, top, end, count),
                ),
    {
        assert forall|r: int| 0 <= r < before.rows implies #[trigger] after.row_view(r)
            == before.row_view(rotated(r, top, end, count)) by {
            assert(after.row_view(r).cells =~= before.row_view(
                rotated(r, top, end, count),
            ).cells);
        }
        assert forall|r: int, c: int|
            #![trigger after.row_view(r).cells[c]]
            0 <= r < after.rows && after.uniform_suffix_start@[r] <= c
                < after.cols implies after.row_view(r).cells[c] == after.row_view(
            r,
        ).cells[after.cols - 1] by {
            let q = rotated(r, top, end, count);
            assert(before.row_view(q).cells[c] == before.row_view(q).cells[before.cols - 1]);
        }
    }

    pub fn new(cols: usize, rows: usize) -> (r: Buffer)
        requires
            cols * rows <= usize::MAX / 2,
        ensures
            r.wf(),
            r@ == BufferView::blank(cols as int, rows as int),
            r.origin() == 0,
            forall|row: int| 0 <= row < rows ==> #[trigger] r.frontier(row) == 0,
    {
        let total: usize = cols * rows;
        let mut cells: Vec<Cell> = Vec::with_capacity(total);
        let mut i: usize = 0;
        while i < total
            invariant
                i <= total,
                cells@.len() == i,
                forall|j: int| 0 <= j < i ==> (#[trigger] cells@[j])@ == CellView::default_cell(),
            decreases total - i,
        {
            cells.push(Cell::default());
            i += 1;
        }
        let mut row_starts: Vec<usize> = Vec::with_capacity(rows);
        let mut uniform_suffix_start: Vec<usize> = Vec::with_capacity(rows);
        let mut metadata: Vec<RowMetadata> = Vec::with_capacity(rows);
        let mut row: usize = 0;
        let mut start: usize = 0;
        while row < rows
            invariant
                row <= rows,
                total == cols * rows,
                start == cols * row,
                row_starts@.len() == row,
                uniform_suffix_start@ == Seq::new(row as nat, |j: int| 0usize),
                metadata@ == Seq::new(row as nat, |j: int| RowMetadata { len: 0, wrapped: false }),
                forall|j: int| 0 <= j < row ==> (#[trigger] row_starts@[j]) + cols <= start,
                forall|j: int, k: int|
                    0 <= j < row && 0 <= k < row && j < k ==> (#[trigger] row_starts@[j]) + cols
                        <= (#[trigger] row_starts@[k]),
            decreases rows - row,
        {
            proof {
                assert(cols * row + cols == cols * (row + 1)) by (nonlinear_arith);
                assert(cols * (row + 1) <= cols * rows) by (nonlinear_arith)
                    requires
                        row + 1 <= rows,
                        0 <= cols,
                ;
            }
            row_starts.push(start);
            uniform_suffix_start.push(0);
            metadata.push(RowMetadata::default());
            start = start + cols;
            row += 1;
            proof {
                assert(uniform_suffix_start@ =~= Seq::new(row as nat, |j: int| 0usize));
                assert(metadata@ =~= Seq::new(
                    row as nat,
                    |j: int| RowMetadata { len: 0, wrapped: false },
                ));
            }
        }
        let r = Buffer {
            cells,
            row_starts,
            row_origin: 0,
            uniform_suffix_start,
            cols,
            rows,
            metadata,
        };
        proof {
            assert forall|k: int| 0 <= k < rows implies r.row_view(k) == RowView::filled(
                cols as int,
                CellView::default_cell(),
            ) by {
                assert(r.row_starts@[k] + cols <= total);
                assert(r.row_view(k).cells =~= RowView::filled(
                    cols as int,
                    CellView::default_cell(),
                ).cells);
            }
            assert(r@.rows =~= BufferView::blank(cols as int, rows as int).rows);
        }
        r
    }

    fn row_index(&self, row: usize) -> (r: usize)
        requires
            self.layout(),
            row < self.rows,
        ensures
            r == self.physical(row as int),
            r < self.rows,
    {
        let remaining: usize = self.rows - self.row_origin;
        if row < remaining {
            self.row_origin + row
        } else {
            row - remaining
        }
    }

    pub fn cell(&self, row: usize, col: usize) -> (r: &Cell)
        requires
            self.wf(),
            row < self@.rows.len(),
            col < self@.cols,
        ensures
            r@ == self@.cell(row as int, col as int),
    {
        let at: usize = self.row_index(row);
        &self.cells[self.row_starts[at] + col]
    }

    pub fn cell_mut(&mut self, row: usize, col: usize) -> (r: &mut Cell)
        requires
            old(self).wf(),
            row < old(self)@.rows.len(),
            col < old(self)@.cols,
        ensures
            r@ == old(self)@.cell(row as int, col as int),
            final(self).wf(),
            final(self)@ == old(self)@.with_cell(row as int, col as int, final(r)@),
            final(self).origin() == old(self).origin(),
            final(self).frontier(row as int) == (if old(self).frontier(row as int) > col {
                old(self).frontier(row as int)
            } else {
                col + 1
            }),
            forall|other: int|
                0 <= other < old(self)@.rows.len() && other != row
                    ==> #[trigger] final(self).frontier(other) == old(self).frontier(other),
    {
        let at: usize = self.row_index(row);
        let frontier: usize = self.uniform_suffix_start[at];
        if frontier <= col {
            self.uniform_suffix_start[at] = col + 1;
        }
        let index: usize = self.row_starts[at] + col;
        let ghost after = *final(self);
        let r = &mut self.cells[index];
        proof {
            let before = *old(self);
            assert(after.cells@ == before.cells@.update(index as int, *final(r)));
            assert(after.row_view(at as int).cells =~= before.row_view(at as int).cells.update(
                col as int,
                final(r)@,
            ));
            assert forall|c: int|
                after.uniform_suffix_start@[at as int] <= c < before.cols implies
                #[trigger] after.row_view(at as int).cells[c] == after.row_view(
                at as int,
            ).cells[before.cols - 1] by {
                assert(before.row_view(at as int).cells[c] == before.row_view(
                    at as int,
                ).cells[before.cols - 1]);
            }
            assert(after.uniform_suffix_start@ =~= before.uniform_suffix_start@.update(
                at as int,
                after.uniform_suffix_start@[at as int],
            ));
            assert(after.metadata@ =~= before.metadata@.update(
                at as int,
                after.metadata@[at as int],
            ));
            Self::lemma_row_replaced(before, after, row as int);
            assert(before.metadata@[at as int] == after.metadata@[at as int]);
        }
        r
    }

    pub fn row_mut(&mut self, row: usize) -> (r: &mut [Cell])
        requires
            old(self).wf(),
            row < old(self)@.rows.len(),
        ensures
            cell_views(r@) == old(self)@.rows[row as int].cells,
            final(r)@.len() == r@.len() ==> {
                &&& final(self).wf()
                &&& final(self)@ == old(self)@.with_cells(row as int, cell_views(final(r)@))
                &&& final(self).origin() == old(self).origin()
                &&& final(self).frontier(row as int) == old(self)@.cols
                &&& forall|other: int|
                    0 <= other < old(self)@.rows.len() && other != row
                        ==> #[trigger] final(self).frontier(other) == old(self).frontier(other)
            },
    {
        let ghost cells = self@.rows[row as int].cells;
        let ghost cols = self.cols as int;
        proof {
            self.lemma_shape();
            assert(0 <= self.frontier(row as int) <= cols);
            assert(cells.subrange(0, cols) =~= cells);
        }
        let end: usize = self.cols;
        let r = self.row_range_mut(row, 0..end);
        proof {
            assert(cells.subrange(0, 0) + cell_views(final(r)@) + cells.subrange(cols, cols)
                =~= cell_views(final(r)@));
        }
        r
    }

    pub fn row_range_mut(&mut self, row: usize, range: core::ops::Range<usize>) -> (r: &mut [Cell])
        requires
            old(self).wf(),
            row < old(self)@.rows.len(),
            range.start <= range.end <= old(self)@.cols,
        ensures
            cell_views(r@) == old(self)@.rows[row as int].cells.subrange(
                range.start as int,
                range.end as int,
            ),
            final(r)@.len() == r@.len() ==> {
                let before = old(self)@.rows[row as int].cells;
                let frontier = old(self).frontier(row as int);
                &&& final(self).wf()
                &&& final(self)@ == old(self)@.with_cells(
                    row as int,
                    before.subrange(0, range.start as int) + cell_views(final(r)@)
                        + before.subrange(range.end as int, old(self)@.cols),
                )
                &&& final(self).origin() == old(self).origin()
                &&& final(self).frontier(row as int) == if range.start < range.end && range.end
                    > frontier {
                    range.end as int
                } else {
                    frontier
                }
                &&& forall|other: int|
                    0 <= other < old(self)@.rows.len() && other != row
                        ==> #[trigger] final(self).frontier(other) == old(self).frontier(other)
            },
    {
        let at: usize = self.row_index(row);
        let lo: usize = range.start;
        let hi: usize = range.end;
        if lo < hi && hi > self.uniform_suffix_start[at] {
            self.uniform_suffix_start[at] = hi;
        }
        let start: usize = self.row_starts[at];
        let ghost before = *old(self);
        let ghost after = *final(self);
        let all = self.cells.as_mut_slice();
        let (head, rest) = all.split_at_mut(start + lo);
        let (r, tail) = rest.split_at_mut(hi - lo);
        proof {
            assert(cell_views(r@) =~= before.row_view(at as int).cells.subrange(
                lo as int,
                hi as int,
            ));
            assert(after.cells@ == final(head)@ + (final(r)@ + final(tail)@));
            assert(has_resolved(head));
            assert(has_resolved(tail));
            assert(final(head)@ =~= before.cells@.subrange(0, start + lo));
            assert(final(tail)@ =~= before.cells@.subrange(
                start + hi,
                before.cells@.len() as int,
            ));
            assert(after.uniform_suffix_start@ =~= before.uniform_suffix_start@.update(
                at as int,
                after.uniform_suffix_start@[at as int],
            ));
            Self::lemma_row_assigned(before, after, row as int, lo as int, hi as int, final(r)@);
        }
        r
    }

    /// The metadata of a row, with the length that directly assigned cells
    /// ask for.
    pub fn row_metadata(&self, row: usize) -> (r: RowMetadata)
        requires
            self.wf(),
            row < self@.rows.len(),
        ensures
            r == self@.rows[row as int].content_metadata(),
    {
        let at: usize = self.row_index(row);
        let start: usize = self.row_starts[at];
        let suffix: usize = self.uniform_suffix_start[at];
        let len: usize = self.metadata[at].len;
        let wrapped: bool = self.metadata[at].wrapped;
        let ghost cells = self@.rows[row as int].cells;
        proof {
            assert(cells == self.row_view(at as int).cells);
            lemma_content_end(cells);
            assert(forall|c: int|
                suffix <= c < self.cols ==> #[trigger] self.row_view(at as int).cells[c]
                    == self.row_view(at as int).cells[self.cols - 1]);
        }
        if suffix < self.cols && self.cells[start + (self.cols - 1)].c != ' ' {
            proof {
                assert(cells[self.cols - 1].c != ' ');
                lemma_content_end_unique(cells, self.cols as int);
            }
            return RowMetadata { len: if len > self.cols { len } else { self.cols }, wrapped };
        }
        let scan_start: usize = if len < suffix { len } else { suffix };
        let mut end: usize = suffix;
        while end > scan_start
            invariant
                self.wf(),
                row < self.rows,
                at == self.physical(row as int),
                at < self.rows,
                start == self.row_starts@[at as int],
                cells == self.row_view(at as int).cells,
                scan_start <= end <= suffix <= self.cols,
                suffix == self.uniform_suffix_start@[at as int],
                forall|c: int| end <= c < self.cols ==> (#[trigger] cells[c]).c == ' ',
                cells == self@.rows[row as int].cells,
                len == self.metadata@[at as int].len,
                wrapped == self.metadata@[at as int].wrapped,
                scan_start == (if len < suffix { len } else { suffix }),
            decreases end,
        {
            assert(start + self.cols <= self.cells@.len());
            if self.cells[start + (end - 1)].c != ' ' {
                proof {
                    assert(cells[end - 1].c != ' ');
                    lemma_content_end_unique(cells, end as int);
                }
                return RowMetadata { len: if end > len { end } else { len }, wrapped };
            }
            end -= 1;
            assert(cells[end as int].c == ' ');
        }
        proof {
            lemma_content_end(cells);
            assert(content_end(cells) <= scan_start);
        }
        RowMetadata { len, wrapped }
    }

    pub fn set_row_metadata(&mut self, row: usize, metadata: RowMetadata)
        requires
            old(self).wf(),
            row < old(self)@.rows.len(),
        ensures
            final(self).wf(),
            final(self)@ == old(self)@.with_metadata(row as int, metadata),
            final(self).origin() == old(self).origin(),
            forall|r: int|
                0 <= r < old(self)@.rows.len() ==> #[trigger] final(self).frontier(r)
                    == old(self).frontier(r),
    {
        let at: usize = self.row_index(row);
        self.metadata[at] = metadata;
        proof {
            assert(self.row_view(at as int).cells =~= old(self).row_view(at as int).cells);
            assert(self.uniform_suffix_start@ =~= old(self).uniform_suffix_start@.update(
                at as int,
                self.uniform_suffix_start@[at as int],
            ));
            Self::lemma_row_replaced(*old(self), *self, row as int);
        }
    }

    /// Extend the written length of a row to column `end`.
    pub fn mark_written(&mut self, row: usize, end: usize)
        requires
            old(self).wf(),
            row < old(self)@.rows.len(),
        ensures
            final(self).wf(),
            final(self)@ == old(self)@.written(row as int, end as int),
            final(self).origin() == old(self).origin(),
            forall|r: int|
                0 <= r < old(self)@.rows.len() ==> #[trigger] final(self).frontier(r)
                    == old(self).frontier(r),
    {
        let at: usize = self.row_index(row);
        let limit: usize = if end < self.cols { end } else { self.cols };
        let metadata: RowMetadata = self.metadata[at];
        let len: usize = if limit > metadata.len { limit } else { metadata.len };
        self.set_row_metadata(row, RowMetadata { len, wrapped: metadata.wrapped });
    }

    pub fn set_wrapped(&mut self, row: usize, wrapped: bool)
        requires
            old(self).wf(),
            row < old(self)@.rows.len(),
        ensures
            final(self).wf(),
            final(self)@ == old(self)@.with_wrapped(row as int, wrapped),
            final(self).origin() == old(self).origin(),
            forall|r: int|
                0 <= r < old(self)@.rows.len() ==> #[trigger] final(self).frontier(r)
                    == old(self).frontier(r),
    {
        let at: usize = self.row_index(row);
        let metadata: RowMetadata = self.metadata[at];
        self.set_row_metadata(row, RowMetadata { len: metadata.len, wrapped });
    }

    /// Fill a row with copies of `template` and forget what was written in it.
    pub fn clear_row(&mut self, row: usize, template: Cell)
        requires
            old(self).wf(),
            row < old(self)@.rows.len(),
        ensures
            final(self).wf(),
            final(self)@ == old(self)@.cleared(row as int, template@),
            final(self).origin() == old(self).origin(),
            final(self).frontier(row as int) == 0,
            forall|r: int|
                0 <= r < old(self)@.rows.len() && r != row ==> #[trigger] final(self).frontier(r)
                    == old(self).frontier(r),
    {
        let at: usize = self.row_index(row);
        let start: usize = self.row_starts[at];
        let suffix: usize = self.uniform_suffix_start[at];
        let end: usize = if suffix < self.cols && self.cells[start + (self.cols - 1)] == template {
            suffix
        } else {
            self.cols
        };
        proof {
            assert(forall|c: int|
                suffix <= c < self.cols ==> #[trigger] self.row_view(at as int).cells[c]
                    == self.row_view(at as int).cells[self.cols - 1]);
            assert forall|c: int| end <= c < self.cols implies #[trigger] self.cells@[start + c]@
                == template@ by {
                assert(self.row_view(at as int).cells[c] == self.row_view(
                    at as int,
                ).cells[self.cols - 1]);
            }
        }
        let mut i: usize = 0;
        while i < end
            invariant
                i <= end <= self.cols,
                old(self).wf(),
                at < old(self).rows,
                start == old(self).row_starts@[at as int],
                start + self.cols <= self.cells@.len(),
                self.cells@.len() == old(self).cells@.len(),
                *self == (Buffer { cells: self.cells, ..*old(self) }),
                forall|c: int| 0 <= c < i ==> (#[trigger] self.cells@[start + c])@ == template@,
                forall|c: int| end <= c < self.cols ==> (#[trigger] self.cells@[start + c])@ == template@,
                forall|j: int|
                    0 <= j < self.cells@.len() && !(start <= j < start + self.cols)
                        ==> #[trigger] self.cells@[j] == old(self).cells@[j],
            decreases end - i,
        {
            let index: usize = start + i;
            self.cells[index] = template.clone();
            i += 1;
        }
        self.metadata[at] = RowMetadata::default();
        self.uniform_suffix_start[at] = 0;
        proof {
            let row_cells = self.row_view(at as int).cells;
            assert forall|c: int| 0 <= c < self.cols implies row_cells[c] == template@ by {
                assert(self.cells@[start + c]@ == template@);
            }
            assert(row_cells =~= RowView::filled(self.cols as int, template@).cells);
            Self::lemma_row_replaced(*old(self), *self, row as int);
        }
    }

    fn normalize_rows(&mut self)
        requires
            old(self).wf(),
        ensures
            final(self).wf(),
            final(self)@ == old(self)@,
            final(self).row_origin == 0,
            final(self).rows == old(self).rows,
            final(self).cols == old(self).cols,
    {
        if self.row_origin == 0 {
            return;
        }
        let rows: usize = self.rows;
        let origin: usize = self.row_origin;
        rotate_left(&mut self.row_starts, 0, rows, origin);
        rotate_left(&mut self.uniform_suffix_start, 0, rows, origin);
        rotate_left(&mut self.metadata, 0, rows, origin);
        self.row_origin = 0;
        proof {
            Self::lemma_rotated(*old(self), *self, 0, rows as int, origin as int);
            assert forall|r: int| 0 <= r < rows implies self@.rows[r] == old(self)@.rows[r] by {
                assert(rotated(r, 0, rows as int, origin as int) == old(self).physical(r));
                assert(self.row_view(r) == old(self).row_view(old(self).physical(r)));
            }
            assert(self@.rows =~= old(self)@.rows);
        }
    }

    /// Turn the rows `top..=bottom` left by `count`.
    fn turn_rows(&mut self, top: usize, bottom: usize, count: usize)
        requires
            old(self).wf(),
            top <= bottom < old(self).rows,
            count <= bottom - top + 1,
        ensures
            final(self).wf(),
            final(self)@ == (BufferView {
                rows: Seq::new(
                    old(self)@.rows.len(),
                    |r: int|
                        old(self)@.rows[rotated(r, top as int, bottom + 1, count as int)],
                ),
                ..old(self)@
            }),
            (top == 0 && bottom + 1 == old(self).rows) ==> {
                &&& final(self).row_starts@ == old(self).row_starts@
                &&& final(self).origin() == if old(self).origin() + count < old(self).rows {
                    old(self).origin() + count
                } else {
                    old(self).origin() + count - old(self).rows
                }
            },
            !(top == 0 && bottom + 1 == old(self).rows) ==> final(self).origin() == 0,
    {
        if top == 0 && bottom == self.rows - 1 {
            let remaining: usize = self.rows - self.row_origin;
            self.row_origin = if count < remaining {
                self.row_origin + count
            } else {
                count - remaining
            };
            proof {
                assert forall|r: int| 0 <= r < self.rows implies #[trigger] self.row_view(r)
                    == old(self).row_view(r) by {
                    assert(self.row_view(r).cells =~= old(self).row_view(r).cells);
                }
                assert forall|r: int, c: int|
                    #![trigger self.row_view(r).cells[c]]
                    0 <= r < self.rows && self.uniform_suffix_start@[r] <= c
                        < self.cols implies self.row_view(r).cells[c] == self.row_view(
                    r,
                ).cells[self.cols - 1] by {
                    assert(old(self).row_view(r).cells[c] == old(self).row_view(
                        r,
                    ).cells[self.cols - 1]);
                }
                assert forall|r: int| 0 <= r < self.rows implies self@.rows[r] == old(self)@.rows[rotated(r, top as int, bottom + 1, count as int)] by {
                    let q = rotated(r, top as int, bottom + 1, count as int);
                    assert(self.physical(r) == old(self).physical(q));
                    assert(self.row_view(self.physical(r)) == old(self).row_view(
                        old(self).physical(q),
                    ));
                }
                assert(self@.rows =~= Seq::new(
                    old(self)@.rows.len(),
                    |r: int| old(self)@.rows[rotated(r, top as int, bottom + 1, count as int)],
                ));
            }
        } else {
            self.normalize_rows();
            let ghost mid = *self;
            rotate_left(&mut self.row_starts, top, bottom + 1, count);
            rotate_left(&mut self.uniform_suffix_start, top, bottom + 1, count);
            rotate_left(&mut self.metadata, top, bottom + 1, count);
            proof {
                Self::lemma_rotated(mid, *self, top as int, bottom + 1, count as int);
                assert forall|r: int| 0 <= r < self.rows implies self@.rows[r] == old(self)@.rows[rotated(r, top as int, bottom + 1, count as int)] by {
                    assert(self.row_view(r) == mid.row_view(
                        rotated(r, top as int, bottom + 1, count as int),
                    ));
                }
                assert(self@.rows =~= Seq::new(
                    old(self)@.rows.len(),
                    |r: int| old(self)@.rows[rotated(r, top as int, bottom + 1, count as int)],
                ));
            }
        }
    }

    /// Move the rows `top..=bottom` up by `count`, and fill the rows that
    /// become free with copies of `template`.
    pub fn scroll_up(&mut self, top: usize, bottom: usize, count: usize, template: Cell)
        requires
            old(self).wf(),
            top <= bottom < usize::MAX,
            count > 0 ==> bottom < old(self)@.rows.len(),
        ensures
            final(self).wf(),
            final(self)@ == old(self)@.scrolled_up(
                top as int,
                bottom as int,
                count as int,
                template@,
            ),
            count > 0 && !(top == 0 && bottom + 1 == old(self)@.rows.len()) ==> final(self).origin() == 0,
    {
        let distance: usize = if count < bottom - top + 1 { count } else { bottom - top + 1 };
        if distance == 0 {
            proof {
                assert(self@.rows =~= old(self)@.scrolled_up(
                    top as int,
                    bottom as int,
                    count as int,
                    template@,
                ).rows);
            }
            return;
        }
        self.turn_rows(top, bottom, distance);
        let first: usize = bottom + 1 - distance;
        let mut row: usize = first;
        let ghost turned = self@;
        while row <= bottom
            invariant
                self.wf(),
                first <= row <= bottom + 1,
                bottom < turned.rows.len(),
                bottom < usize::MAX,
                self.origin() == 0 || (top == 0 && bottom + 1 == turned.rows.len()),
                self@ == (BufferView {
                    rows: Seq::new(
                        turned.rows.len(),
                        |r: int|
                            if first <= r < row {
                                RowView::filled(turned.cols, template@)
                            } else {
                                turned.rows[r]
                            },
                    ),
                    ..turned
                }),
            decreases bottom + 1 - row,
        {
            let ghost before = self@;
            self.clear_row(row, template.clone());
            row += 1;
            proof {
                assert(self@.rows =~= Seq::new(
                    turned.rows.len(),
                    |r: int|
                        if first <= r < row {
                            RowView::filled(turned.cols, template@)
                        } else {
                            turned.rows[r]
                        },
                ));
            }
        }
        proof {
            assert(self@.rows =~= old(self)@.scrolled_up(
                top as int,
                bottom as int,
                count as int,
                template@,
            ).rows);
        }
    }

    /// Move the rows `top..=bottom` down by `count`, and fill the rows that
    /// become free with copies of `template`.
    pub fn scroll_down(&mut self, top: usize, bottom: usize, count: usize, template: Cell)
        requires
            old(self).wf(),
            top <= bottom < usize::MAX,
            count > 0 ==> bottom < old(self)@.rows.len(),
        ensures
            final(self).wf(),
            final(self)@ == old(self)@.scrolled_down(
                top as int,
                bottom as int,
                count as int,
                template@,
            ),
            count > 0 && !(top == 0 && bottom + 1 == old(self)@.rows.len()) ==> final(self).origin() == 0,
    {
        let height: usize = bottom - top + 1;
        let distance: usize = if count < height { count } else { height };
        if distance == 0 {
            proof {
                assert(self@.rows =~= old(self)@.scrolled_down(
                    top as int,
                    bottom as int,
                    count as int,
                    template@,
                ).rows);
            }
            return;
        }
        self.turn_rows(top, bottom, height - distance);
        let end: usize = top + distance;
        let mut row: usize = top;
        let ghost turned = self@;
        while row < end
            invariant
                self.wf(),
                top <= row <= end,
                end <= bottom + 1,
                bottom < turned.rows.len(),
                self.origin() == 0 || (top == 0 && bottom + 1 == turned.rows.len()),
                self@ == (BufferView {
                    rows: Seq::new(
                        turned.rows.len(),
                        |r: int|
                            if top <= r < row {
                                RowView::filled(turned.cols, template@)
                            } else {
                                turned.rows[r]
                            },
                    ),
                    ..turned
                }),
            decreases end - row,
        {
            self.clear_row(row, template.clone());
            row += 1;
            proof {
                assert(self@.rows =~= Seq::new(
                    turned.rows.len(),
                    |r: int|
                        if top <= r < row {
                            RowView::filled(turned.cols, template@)
                        } else {
                            turned.rows[r]
                        },
                ));
            }
        }
        proof {
            assert(self@.rows =~= old(self)@.scrolled_down(
                top as int,
                bottom as int,
                count as int,
                template@,
            ).rows);
        }
    }

    /// A copy of the cells of a row.
    pub fn extract_row(&self, row: usize) -> (r: Vec<Cell>)
        requires
            self.wf(),
            row < self@.rows.len(),
        ensures
            cell_views(r@) == self@.rows[row as int].cells,
    {
        let at: usize = self.row_index(row);
        let start: usize = self.row_starts[at];
        let cols: usize = self.cols;
        let suffix: usize = self.uniform_suffix_start[at];
        let ghost cells = self.row_view(at as int).cells;
        // Read a known suffix of scalars from the last cell alone. Cells with
        // compound texts may own different allocations of the same text.
        let repeats: bool = suffix < cols && self.cells[start + (cols - 1)].grapheme.is_none();
        let mut extracted: Vec<Cell> = Vec::with_capacity(cols);
        let mut col: usize = 0;
        while col < cols
            invariant
                self.wf(),
                at < self.rows,
                start == self.row_starts@[at as int],
                suffix == self.uniform_suffix_start@[at as int],
                cols == self.cols,
                col <= cols,
                cells == self.row_view(at as int).cells,
                extracted@.len() == col,
                forall|c: int| 0 <= c < col ==> (#[trigger] extracted@[c])@ == cells[c],
            decreases cols - col,
        {
            let source: usize = if !repeats || col < suffix { col } else { cols - 1 };
            assert(start + cols <= self.cells@.len());
            proof {
                if suffix <= col {
                    assert(self.row_view(at as int).cells[col as int] == self.row_view(
                        at as int,
                    ).cells[self.cols - 1]);
                }
            }
            extracted.push(self.cells[start + source].clone());
            col += 1;
        }
        proof {
            assert(cell_views(extracted@) =~= cells);
        }
        extracted
    }

    /// The row as it is kept in the history: without a suffix that is known to
    /// consist of default cells.
    pub fn extract_history_row(&self, row: usize) -> (r: HistoryRow)
        requires
            self.wf(),
            row < self@.rows.len(),
        ensures
            r@ == self@.rows[row as int].cells,
            r.materialized() == if self.frontier(row as int) < self@.cols
                && self@.rows[row as int].cells.last() == CellView::default_cell() {
                self.frontier(row as int)
            } else {
                self@.cols
            },
    {
        let at: usize = self.row_index(row);
        let start: usize = self.row_starts[at];
        let cols: usize = self.cols;
        let suffix: usize = self.uniform_suffix_start[at];
        let ghost cells = self.row_view(at as int).cells;
        let blank: Cell = Cell::default();
        let end: usize = if suffix < cols && self.cells[start + (cols - 1)] == blank {
            suffix
        } else {
            cols
        };
        let mut prefix: Vec<Cell> = Vec::with_capacity(end);
        let mut col: usize = 0;
        while col < end
            invariant
                self.wf(),
                at < self.rows,
                start == self.row_starts@[at as int],
                col <= end <= cols == self.cols,
                cells == self.row_view(at as int).cells,
                prefix@.len() == col,
                forall|c: int| 0 <= c < col ==> (#[trigger] prefix@[c])@ == cells[c],
            decreases end - col,
        {
            assert(start + cols <= self.cells@.len());
            prefix.push(self.cells[start + col].clone());
            col += 1;
        }
        proof {
            assert forall|c: int| end <= c < cols implies cells[c]
                == CellView::default_cell() by {
                assert(self.row_view(at as int).cells[c] == self.row_view(
                    at as int,
                ).cells[self.cols - 1]);
            }
            assert(padded(cell_views(prefix@), cols as int) =~= cells);
        }
        HistoryRow::from_prefix(prefix, cols)
    }

    /// A buffer that shows the given rows.
    pub fn from_retained_rows(cols: usize, rows: &[RetainedRow]) -> (r: Buffer)
        requires
            cols * rows@.len() <= usize::MAX / 2,
            forall|i: int| 0 <= i < rows@.len() ==> (#[trigger] rows@[i]).cells@.len() == cols,
        ensures
            r.wf(),
            r@ == (BufferView { cols: cols as int, rows: row_views(rows@) }),
    {
        let mut buffer = Buffer::new(cols, rows.len());
        let ghost blank = buffer@;
        let mut index: usize = 0;
        while index < rows.len()
            invariant
                index <= rows@.len(),
                buffer.wf(),
                buffer@.cols == cols,
                buffer@.rows.len() == rows@.len(),
                forall|i: int| 0 <= i < rows@.len() ==> (#[trigger] rows@[i]).cells@.len() == cols,
                forall|i: int| 0 <= i < index ==> (#[trigger] buffer@.rows[i]) == rows@[i]@,
            decreases rows@.len() - index,
        {
            buffer.assign_row(index, &rows[index]);
            index += 1;
        }
        proof {
            assert(buffer@.rows =~= row_views(rows@));
        }
        buffer
    }

    /// Copy the cells and the metadata of a retained row into a row.
    pub fn assign_row(&mut self, row: usize, source: &RetainedRow)
        requires
            old(self).wf(),
            row < old(self)@.rows.len(),
            source.cells@.len() == old(self)@.cols,
        ensures
            final(self).wf(),
            final(self)@ == (BufferView {
                rows: old(self)@.rows.update(row as int, source@),
                ..old(self)@
            }),
    {
        let cols: usize = self.cols;
        let mut col: usize = 0;
        let ghost before = self@.rows[row as int].cells;
        proof {
            self.lemma_shape();
            assert(self@ =~~= old(self)@.with_cells(
                row as int,
                Seq::new(cols as nat, |c: int| if c < col { source.cells@[c]@ } else { before[c] }),
            ));
        }
        while col < cols
            invariant
                col <= cols,
                self.wf(),
                row < old(self)@.rows.len(),
                cols == old(self)@.cols,
                cols == source.cells@.len(),
                before.len() == cols,
                self@ == old(self)@.with_cells(
                    row as int,
                    Seq::new(
                        cols as nat,
                        |c: int| if c < col { source.cells@[c]@ } else { before[c] },
                    ),
                ),
            decreases cols - col,
        {
            *self.cell_mut(row, col) = source.cells[col].clone();
            col += 1;
            proof {
                assert(self@ =~~= old(self)@.with_cells(
                    row as int,
                    Seq::new(
                        cols as nat,
                        |c: int| if c < col { source.cells@[c]@ } else { before[c] },
                    ),
                ));
            }
        }
        self.set_row_metadata(row, source.metadata);
        proof {
            assert(self@.rows[row as int].cells =~= cell_views(source.cells@));
            assert(self@ =~= (BufferView {
                rows: old(self)@.rows.update(row as int, source@),
                ..old(self)@
            }));
        }
    }

    pub fn cols(&self) -> (r: usize)
        ensures
            r == self@.cols,
    {
        self.cols
    }

    pub fn rows(&self) -> (r: usize)
        ensures
            r == self@.rows.len(),
    {
        self.rows
    }

    /// Where the first row stands among the row offsets.
    pub fn row_origin(&self) -> (r: usize)
        ensures
            r == self.origin(),
    {
        self.row_origin
    }

    /// Where each row begins among the cells, in the order before the origin is
    /// applied.
    pub closed spec fn offsets(&self) -> Seq<usize> {
        self.row_starts@
    }

    pub fn row_offsets(&self) -> (r: &Vec<usize>)
        ensures
            r@ == self.offsets(),
    {
        &self.row_starts
    }

    /// The column from which a row is known to show what its last cell shows.
    pub fn suffix_start(&self, row: usize) -> (r: usize)
        requires
            self.wf(),
            row < self@.rows.len(),
        ensures
            r == self.frontier(row as int),
    {
        self.uniform_suffix_start[self.row_index(row)]
    }
}

} // verus!
