//! Text that an input method is still composing, and the text it settles on.
use crate::grid::cell::{natural_columns, scalar_width};
use crate::text::{bytes_of, chars_of, same_text};
use vstd::prelude::*;
use vstd::utf8::{encode_utf8, is_char_boundary};

verus! {

pub const MAX_IME_PREEDIT_BYTES: usize = 4 * 1024;
pub const MAX_IME_PREEDIT_RENDER_CELLS: usize = 1024;
pub const MAX_IME_COMMIT_BYTES: usize = 64 * 1024;

/// What is shown for a scalar that cannot be shown.
pub const IME_PREEDIT_REPLACEMENT: char = '\u{fffd}';

/// The selected bytes of a composed text and the byte before which its caret
/// stands.
#[derive(Debug, Clone, Copy, PartialEq, Eq, Structural)]
pub struct ImePreeditCursor {
    pub selection_start: usize,
    pub selection_end: usize,
    pub caret: usize,
}

#[derive(Debug, Clone, PartialEq, Eq)]
pub struct ImePreedit {
    pub text: String,
    pub cursor: Option<ImePreeditCursor>,
}

#[derive(Debug, Clone, PartialEq, Eq)]
pub enum ImePreeditPayload {
    Clear,
    Text(ImePreedit),
    TooManyBytes { byte_count: usize, limit: usize },
    TooManyRenderCells { cell_count: usize, limit: usize },
}

/// A finished text of an input method, as it is sent.
#[derive(Debug, Clone, PartialEq, Eq)]
pub enum ImeCommitPayload {
    Empty,
    Bytes(Vec<u8>),
    TooLarge { byte_count: usize, limit: usize },
}

/// A finished text is sent as a whole, unless it exceeds the limit.
pub fn ime_commit_payload(text: String) -> (r: ImeCommitPayload)
    ensures
        text@.len() == 0 ==> r is Empty,
        text@.len() > 0 && encode_utf8(text@).len() <= MAX_IME_COMMIT_BYTES ==> r is Bytes
            && r->Bytes_0@ == encode_utf8(text@),
        text@.len() > 0 && encode_utf8(text@).len() > MAX_IME_COMMIT_BYTES ==> r == (
        ImeCommitPayload::TooLarge {
            byte_count: encode_utf8(text@).len() as usize,
            limit: MAX_IME_COMMIT_BYTES,
        }),
{
    if text.as_str().is_empty() {
        return ImeCommitPayload::Empty;
    }
    let byte_count: usize = text.as_str().as_bytes().len();
    if byte_count > MAX_IME_COMMIT_BYTES {
        return ImeCommitPayload::TooLarge { byte_count, limit: MAX_IME_COMMIT_BYTES };
    }
    ImeCommitPayload::Bytes(bytes_of(text.as_str()))
}

/// The cells that drawing a scalar of the given width takes.
pub open spec fn render_cells(width: Option<usize>) -> int {
    match width {
        Some(width) => if width < 1 { 1 } else { width as int },
        None => 1,
    }
}

/// The first running total of cells that exceeds the limit, from scalar `at`
/// on.
pub open spec fn exceeding_cells(
    widths: Seq<Option<usize>>,
    at: int,
    total: int,
    limit: int,
) -> Option<int>
    decreases widths.len() - at,
{
    if at >= widths.len() {
        None
    } else {
        let sum = total + render_cells(widths[at]);
        let next = if sum > usize::MAX { usize::MAX as int } else { sum };
        if next > limit { Some(next) } else { exceeding_cells(widths, at + 1, next, limit) }
    }
}

/// The widths that the scalars of a text have.
pub open spec fn scalar_widths(text: Seq<char>) -> Seq<Option<usize>> {
    Seq::new(text.len(), |i: int| natural_columns(text[i]))
}

/// The cursor of a composed text, if both of its ends stand between scalars.
pub open spec fn preedit_cursor(text: Seq<char>, cursor: Option<(usize, usize)>) -> Option<
    ImePreeditCursor,
> {
    match cursor {
        Some((anchor, caret)) => if is_char_boundary(encode_utf8(text), anchor as int)
            && is_char_boundary(encode_utf8(text), caret as int) {
            Some(
                ImePreeditCursor {
                    selection_start: if anchor < caret { anchor } else { caret },
                    selection_end: if anchor < caret { caret } else { anchor },
                    caret,
                },
            )
        } else {
            None
        },
        None => None,
    }
}

/// A composed text is taken up if it is neither too long nor too wide.
pub open spec fn payload_matches(
    payload: ImePreeditPayload,
    text: Seq<char>,
    widths: Seq<Option<usize>>,
    cursor: Option<(usize, usize)>,
    byte_limit: usize,
    cell_limit: usize,
) -> bool {
    let bytes = encode_utf8(text).len();
    if text.len() == 0 {
        payload is Clear
    } else if bytes > byte_limit {
        payload == ImePreeditPayload::TooManyBytes { byte_count: bytes as usize, limit: byte_limit }
    } else {
        match exceeding_cells(widths, 0, 0, cell_limit as int) {
            Some(count) => payload == ImePreeditPayload::TooManyRenderCells {
                cell_count: count as usize,
                limit: cell_limit,
            },
            None => payload is Text && (payload->Text_0).text@ == text && (payload->Text_0).cursor
                == preedit_cursor(text, cursor),
        }
    }
}

/// The first running total of cells that exceeds the limit.
fn overflowing_cells(widths: &Vec<Option<usize>>, limit: usize) -> (r: Option<usize>)
    ensures
        r is Some <==> exceeding_cells(widths@, 0, 0, limit as int) is Some,
        r is Some ==> r->0 == exceeding_cells(widths@, 0, 0, limit as int)->0,
{
    let mut total: usize = 0;
    let mut i: usize = 0;
    while i < widths.len()
        invariant
            i <= widths@.len(),
            exceeding_cells(widths@, 0, 0, limit as int) == exceeding_cells(
                widths@,
                i as int,
                total as int,
                limit as int,
            ),
        decreases widths@.len() - i,
    {
        let cells: usize = match widths[i] {
            Some(width) => if width < 1 {
                1
            } else {
                width
            },
            None => 1,
        };
        total = if cells < usize::MAX - total { total + cells } else { usize::MAX };
        if total > limit {
            return Some(total);
        }
        i += 1;
    }
    None
}

/// Decide on a composed text whose scalars have the given widths.
pub fn preedit_payload_of_widths(
    text: String,
    widths: &Vec<Option<usize>>,
    cursor: Option<(usize, usize)>,
    byte_limit: usize,
    render_cell_limit: usize,
) -> (r: ImePreeditPayload)
    ensures
        payload_matches(r, text@, widths@, cursor, byte_limit, render_cell_limit),
{
    if text.as_str().is_empty() {
        return ImePreeditPayload::Clear;
    }
    let byte_count: usize = text.as_str().as_bytes().len();
    if byte_count > byte_limit {
        return ImePreeditPayload::TooManyBytes { byte_count, limit: byte_limit };
    }
    if let Some(cell_count) = overflowing_cells(widths, render_cell_limit) {
        return ImePreeditPayload::TooManyRenderCells { cell_count, limit: render_cell_limit };
    }
    let cursor: Option<ImePreeditCursor> = match cursor {
        Some((anchor, caret)) => {
            if text.as_str().is_char_boundary(anchor) && text.as_str().is_char_boundary(caret) {
                Some(
                    ImePreeditCursor {
                        selection_start: if anchor < caret { anchor } else { caret },
                        selection_end: if anchor < caret { caret } else { anchor },
                        caret,
                    },
                )
            } else {
                None
            }
        },
        None => None,
    };
    ImePreeditPayload::Text(ImePreedit { text, cursor })
}

/// The widths of the scalars of a text.
pub(crate) fn widths_of(chars: &Vec<char>) -> (r: Vec<Option<usize>>)
    ensures
        r@ == scalar_widths(chars@),
{
    let mut widths: Vec<Option<usize>> = Vec::new();
    let mut i: usize = 0;
    while i < chars.len()
        invariant
            i <= chars@.len(),
            widths@ == scalar_widths(chars@).take(i as int),
        decreases chars@.len() - i,
    {
        widths.push(scalar_width(chars[i]));
        i += 1;
        proof {
            assert(widths@ =~= scalar_widths(chars@).take(i as int));
        }
    }
    proof {
        assert(scalar_widths(chars@).take(i as int) =~= scalar_widths(chars@));
    }
    widths
}

pub fn ime_preedit_payload_with_limits(
    text: String,
    cursor: Option<(usize, usize)>,
    byte_limit: usize,
    render_cell_limit: usize,
) -> (r: ImePreeditPayload)
    ensures
        payload_matches(r, text@, scalar_widths(text@), cursor, byte_limit, render_cell_limit),
{
    let chars: Vec<char> = chars_of(text.as_str());
    let widths: Vec<Option<usize>> = widths_of(&chars);
    preedit_payload_of_widths(text, &widths, cursor, byte_limit, render_cell_limit)
}

pub fn ime_preedit_payload(text: String, cursor: Option<(usize, usize)>) -> (r: ImePreeditPayload)
    ensures
        payload_matches(
            r,
            text@,
            scalar_widths(text@),
            cursor,
            MAX_IME_PREEDIT_BYTES,
            MAX_IME_PREEDIT_RENDER_CELLS,
        ),
{
    ime_preedit_payload_with_limits(
        text,
        cursor,
        MAX_IME_PREEDIT_BYTES,
        MAX_IME_PREEDIT_RENDER_CELLS,
    )
}

/// The text and the cursor of a composed text.
pub open spec fn preedit_view(preedit: Option<ImePreedit>) -> Option<
    (Seq<char>, Option<ImePreeditCursor>),
> {
    match preedit {
        Some(preedit) => Some((preedit.text@, preedit.cursor)),
        None => None,
    }
}

/// What is taken up of a composed text: nothing if it is empty, too long or too
/// wide.
pub open spec fn taken_up(text: Seq<char>, cursor: Option<(usize, usize)>) -> Option<
    (Seq<char>, Option<ImePreeditCursor>),
> {
    if text.len() == 0 || encode_utf8(text).len() > MAX_IME_PREEDIT_BYTES || exceeding_cells(
        scalar_widths(text),
        0,
        0,
        MAX_IME_PREEDIT_RENDER_CELLS as int,
    ) is Some {
        None
    } else {
        Some((text, preedit_cursor(text, cursor)))
    }
}

/// Two composed texts are the same.
pub open spec fn same_preedit(left: Option<ImePreedit>, right: Option<ImePreedit>) -> bool {
    match (left, right) {
        (Some(left), Some(right)) => left.text@ == right.text@ && left.cursor == right.cursor,
        (None, None) => true,
        _ => false,
    }
}

/// Take up another composed text; the result tells whether it differs.
pub fn replace_ime_preedit(current: &mut Option<ImePreedit>, next: Option<ImePreedit>) -> (r: bool)
    ensures
        r == !same_preedit(*old(current), next),
        r ==> *final(current) == next,
        !r ==> *final(current) == *old(current),
{
    let same: bool = match (&*current, &next) {
        (Some(left), Some(right)) => {
            let same_cursor: bool = match (left.cursor, right.cursor) {
                (Some(left), Some(right)) => left == right,
                (None, None) => true,
                _ => false,
            };
            same_cursor && same_text(left.text.as_str(), right.text.as_str())
        },
        (None, None) => true,
        _ => false,
    };
    if same {
        return false;
    }
    *current = next;
    true
}

} // verus!
