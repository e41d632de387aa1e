//! Shell prompt marks and the rows they stand in.
use vstd::prelude::*;

verus! {

#[derive(Debug, Clone, Copy, PartialEq, Eq, Structural)]
pub enum PromptMarkKind {
    PromptStart,
    CommandStart,
    CommandExecuted,
    CommandFinished { exit_code: i32 },
}

#[derive(Debug, Clone, Copy, PartialEq, Eq, Structural)]
pub struct PromptMark {
    pub kind: PromptMarkKind,
    pub absolute_row: usize,
}

/// The marks in the order in which they were set.
#[derive(Debug)]
pub struct MarkIndex {
    marks: Vec<PromptMark>,
}

impl View for MarkIndex {
    type V = Seq<PromptMark>;

    closed spec fn view(&self) -> Seq<PromptMark> {
        self.marks@
    }
}

/// A mark starts a prompt in the rows `start..end`.
pub open spec fn prompt_within(mark: PromptMark, start: int, end: int) -> bool {
    mark.kind == PromptMarkKind::PromptStart && start <= mark.absolute_row < end
}

/// The absolute rows in `start..end` in which prompts start, in the order of
/// the marks.
pub open spec fn prompt_rows(marks: Seq<PromptMark>, start: int, end: int) -> Seq<usize>
    decreases marks.len(),
{
    if marks.len() == 0 {
        Seq::empty()
    } else {
        let before = prompt_rows(marks.drop_last(), start, end);
        if prompt_within(marks.last(), start, end) {
            before.push(marks.last().absolute_row)
        } else {
            before
        }
    }
}

/// The marks at or below row `erased`, counted from that row.
pub open spec fn rebased(marks: Seq<PromptMark>, erased: int) -> Seq<PromptMark>
    decreases marks.len(),
{
    if marks.len() == 0 {
        Seq::empty()
    } else {
        let before = rebased(marks.drop_last(), erased);
        let mark = marks.last();
        if mark.absolute_row >= erased {
            before.push(
                PromptMark { absolute_row: (mark.absolute_row - erased) as usize, ..mark },
            )
        } else {
            before
        }
    }
}

/// Erasing rows above a viewport moves each of its prompts up by as many rows
/// and loses none of them.
pub proof fn law_rebased_marks_keep_visible_prompts(
    marks: Seq<PromptMark>,
    erased: int,
    start: int,
    end: int,
)
    requires
        0 <= erased <= start <= end,
    ensures
        prompt_rows(rebased(marks, erased), start - erased, end - erased) == prompt_rows(
            marks,
            start,
            end,
        ).map_values(|row: usize| (row - erased) as usize),
    decreases marks.len(),
{
    if marks.len() > 0 {
        law_rebased_marks_keep_visible_prompts(marks.drop_last(), erased, start, end);
        let before = rebased(marks.drop_last(), erased);
        let after = rebased(marks, erased);
        if marks.last().absolute_row >= erased {
            assert(after.drop_last() =~= before);
        }
        let moved = |row: usize| (row - erased) as usize;
        assert(prompt_rows(after, start - erased, end - erased) =~= prompt_rows(
            marks,
            start,
            end,
        ).map_values(moved));
    } else {
        assert(prompt_rows(rebased(marks, erased), start - erased, end - erased) =~= prompt_rows(
            marks,
            start,
            end,
        ).map_values(|row: usize| (row - erased) as usize));
    }
}

impl MarkIndex {
    pub fn push(&mut self, kind: PromptMarkKind, absolute_row: usize)
        ensures
            final(self)@ == old(self)@.push(PromptMark { kind, absolute_row }),
    {
        self.marks.push(PromptMark { kind, absolute_row });
    }

    /// Find the nearest prompt start strictly above the given row.
    pub fn prev_prompt(&self, current_row: usize) -> (r: Option<usize>)
        ensures
            r is None <==> forall|i: int|
                0 <= i < self@.len() ==> !prompt_within(#[trigger] self@[i], 0, current_row as int),
            r is Some ==> {
                &&& exists|i: int|
                    0 <= i < self@.len() && prompt_within(#[trigger] self@[i], 0, current_row as int)
                        && self@[i].absolute_row == r->0
                &&& forall|i: int|
                    0 <= i < self@.len() && prompt_within(#[trigger] self@[i], 0, current_row as int)
                        ==> self@[i].absolute_row <= r->0
            },
    {
        let mut nearest: Option<usize> = None;
        let mut i: usize = 0;
        while i < self.marks.len()
            invariant
                i <= self.marks@.len(),
                nearest is None <==> forall|j: int|
                    0 <= j < i ==> !prompt_within(#[trigger] self@[j], 0, current_row as int),
                nearest is Some ==> {
                    &&& exists|j: int|
                        0 <= j < i && prompt_within(#[trigger] self@[j], 0, current_row as int)
                            && self@[j].absolute_row == nearest->0
                    &&& forall|j: int|
                        0 <= j < i && prompt_within(#[trigger] self@[j], 0, current_row as int)
                            ==> self@[j].absolute_row <= nearest->0
                },
            decreases self.marks@.len() - i,
        {
            let mark: PromptMark = self.marks[i];
            assert(mark == self@[i as int]);
            if mark.absolute_row < current_row && mark.kind == PromptMarkKind::PromptStart {
                nearest = match nearest {
                    Some(row) if row >= mark.absolute_row => Some(row),
                    _ => Some(mark.absolute_row),
                };
            }
            i += 1;
        }
        nearest
    }

    /// Find the nearest prompt start strictly below the given row.
    pub fn next_prompt(&self, current_row: usize) -> (r: Option<usize>)
        ensures
            r is None <==> forall|i: int|
                0 <= i < self@.len() ==> !prompt_within(
                    #[trigger] self@[i],
                    current_row + 1,
                    usize::MAX + 1,
                ),
            r is Some ==> {
                &&& exists|i: int|
                    0 <= i < self@.len() && prompt_within(
                        #[trigger] self@[i],
                        current_row + 1,
                        usize::MAX + 1,
                    ) && self@[i].absolute_row == r->0
                &&& forall|i: int|
                    0 <= i < self@.len() && prompt_within(
                        #[trigger] self@[i],
                        current_row + 1,
                        usize::MAX + 1,
                    ) ==> r->0 <= self@[i].absolute_row
            },
    {
        let mut nearest: Option<usize> = None;
        let mut i: usize = 0;
        while i < self.marks.len()
            invariant
                i <= self.marks@.len(),
                nearest is None <==> forall|j: int|
                    0 <= j < i ==> !prompt_within(
                        #[trigger] self@[j],
                        current_row + 1,
                        usize::MAX + 1,
                    ),
                nearest is Some ==> {
                    &&& exists|j: int|
                        0 <= j < i && prompt_within(
                            #[trigger] self@[j],
                            current_row + 1,
                            usize::MAX + 1,
                        ) && self@[j].absolute_row == nearest->0
                    &&& forall|j: int|
                        0 <= j < i && prompt_within(
                            #[trigger] self@[j],
                            current_row + 1,
                            usize::MAX + 1,
                        ) ==> nearest->0 <= self@[j].absolute_row
                },
            decreases self.marks@.len() - i,
        {
            let mark: PromptMark = self.marks[i];
            assert(mark == self@[i as int]);
            if mark.absolute_row > current_row && mark.kind == PromptMarkKind::PromptStart {
                nearest = match nearest {
                    Some(row) if row <= mark.absolute_row => Some(row),
                    _ => Some(mark.absolute_row),
                };
            }
            i += 1;
        }
        nearest
    }

    /// The absolute rows of all prompt starts that are currently visible.
    pub fn visible_prompt_rows(
        &self,
        scroll_offset: usize,
        scrollback_len: usize,
        visible_rows: usize,
    ) -> (r: Vec<usize>)
        requires
            scrollback_len <= scroll_offset || scrollback_len - scroll_offset + visible_rows
                <= usize::MAX,
        ensures
            ({
                let start: int = if scrollback_len > scroll_offset {
                    scrollback_len - scroll_offset
                } else {
                    0
                };
                r@ == prompt_rows(self@, start, start + visible_rows)
            }),
    {
        let start: usize = scrollback_len.saturating_sub(scroll_offset);
        let end: usize = start + visible_rows;
        let mut rows: Vec<usize> = Vec::new();
        let mut i: usize = 0;
        while i < self.marks.len()
            invariant
                i <= self.marks@.len(),
                start + visible_rows == end,
                rows@ == prompt_rows(self@.subrange(0, i as int), start as int, end as int),
            decreases self.marks@.len() - i,
        {
            let mark: PromptMark = self.marks[i];
            proof {
                let prefix = self@.subrange(0, i + 1);
                assert(prefix.drop_last() =~= self@.subrange(0, i as int));
                assert(prefix.last() == mark);
            }
            if mark.kind == PromptMarkKind::PromptStart && mark.absolute_row >= start
                && mark.absolute_row < end {
                rows.push(mark.absolute_row);
            }
            i += 1;
        }
        proof {
            assert(self@.subrange(0, i as int) =~= self@);
        }
        rows
    }

    /// Forget the marks above row `erased` and count the others from it.
    pub fn erase_saved_lines(&mut self, erased: usize)
        ensures
            final(self)@ == rebased(old(self)@, erased as int),
    {
        let mut kept: Vec<PromptMark> = Vec::new();
        let mut i: usize = 0;
        while i < self.marks.len()
            invariant
                *self == *old(self),
                i <= self.marks@.len(),
                kept@ == rebased(self@.subrange(0, i as int), erased as int),
            decreases self.marks@.len() - i,
        {
            let mark: PromptMark = self.marks[i];
            proof {
                let prefix = self@.subrange(0, i + 1);
                assert(prefix.drop_last() =~= self@.subrange(0, i as int));
                assert(prefix.last() == mark);
            }
            if mark.absolute_row >= erased {
                kept.push(
                    PromptMark { kind: mark.kind, absolute_row: mark.absolute_row - erased },
                );
            }
            i += 1;
        }
        proof {
            assert(self@.subrange(0, i as int) =~= self@);
        }
        self.marks = kept;
    }

    pub fn is_empty(&self) -> (r: bool)
        ensures
            r == (self@.len() == 0),
    {
        self.marks.is_empty()
    }
}

impl Default for MarkIndex {
    fn default() -> (r: MarkIndex)
        ensures
            r@ == Seq::<PromptMark>::empty(),
    {
        MarkIndex { marks: Vec::new() }
    }
}

} // verus!
