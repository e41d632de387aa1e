//! What the window, its title and the clipboard worker come to.
use crate::grid::boundary_pages::{SuccessorClass, SuccessorPages};
use crate::grid::terminal::GridView;
use crate::linux_clipboard::{
    paste_answer, text_fits, worker_step, ClipboardCommand, ClipboardError, ClipboardEvent,
    WorkerAction, WorkerEvent,
};
use crate::window::dispatch::{KeyboardInputError, KeyboardInputOutcome};
use crate::window::geometry::{
    clamped, lesser, ImeCursorArea, PixelSize, TerminalDimensions,
};
use crate::window::paint_laws::{law_screens_fill_windows, law_windows_hold_screens};
use crate::window::pointer::{button_bit, Coordinate, DeviceId, PointerView};
use crate::window::preedit::ImePreedit;
use crate::window::state::{
    ending, ime_area_to_set, located, nothing, redrawing, surface_of, WindowError, WindowState,
};
use crate::window::status::{reader_failure, writer_failure, ReaderExit, ReaderStatus, WriterExit};
use crate::window::title::{shown_title, without_controls};
use vstd::prelude::*;
use vstd::utf8::encode_utf8;

verus! {

/// Bringing a value into a range changes it only where it lies outside.
pub proof fn law_limits(value: int, low: int, high: int)
    requires
        low <= high,
    ensures
        low <= clamped(value, low, high) <= high,
        low <= value <= high ==> clamped(value, low, high) == value,
        value < low ==> clamped(value, low, high) == low,
        value > high ==> clamped(value, low, high) == high,
        lesser(low, high) == low,
        lesser(high, low) == low,
{
}

/// The end of the window stops both threads and asks for no frame; a redraw asks
/// for nothing else.
pub proof fn law_reactions(redraw: bool)
    ensures
        ending().exit && ending().stop_reader && ending().stop_writer && !ending().redraw,
        !nothing().exit && !nothing().stop_reader && !nothing().stop_writer && !nothing().redraw,
        redrawing(redraw).redraw == redraw,
        !redrawing(redraw).exit && !redrawing(redraw).stop_reader && !redrawing(
            redraw,
        ).stop_writer,
{
}

/// An error is kept, ends the window and its composed text, and changes nothing
/// else; a plain end keeps no error.
pub proof fn law_ends<F>(state: WindowState<F>, error: WindowError)
    ensures
        ({
            let failed = state.failed(error);
            let ended = state.ended();
            &&& failed.exiting && ended.exiting
            &&& failed.ime_preedit is None && ended.ime_preedit is None
            &&& state.error is None ==> failed.error == Some(error)
            &&& state.error is Some ==> failed.error == state.error
            &&& ended.error == state.error
            &&& failed.has_window == state.has_window && ended.has_window == state.has_window
            &&& failed.cell_dimensions == state.cell_dimensions
            &&& failed.reader_status == state.reader_status
            &&& failed.first_frame_presented == state.first_frame_presented
            &&& failed.modifiers == state.modifiers
            &&& failed.pointer_route == state.pointer_route
        }),
        state.accepts_input() <==> !state.exiting && state.reader_status is None,
{
}

/// Input that moved the viewport redraws a window that is there; input that
/// failed ends it.
pub proof fn law_handled_input<F>(
    state: WindowState<F>,
    outcome: KeyboardInputOutcome,
    error: KeyboardInputError,
)
    ensures
        state.input_handled(Ok(outcome)).0 == state,
        state.input_handled(Ok(outcome)).1.redraw == (state.has_window && match outcome {
            KeyboardInputOutcome::Ignored { viewport_changed } => viewport_changed,
            KeyboardInputOutcome::Forwarded { viewport_changed } => viewport_changed,
            KeyboardInputOutcome::Scrollback { viewport_changed } => viewport_changed,
        }),
        !state.input_handled(Ok(outcome)).1.exit,
        state.input_handled(Err(error)).0.exiting,
        state.input_handled(Err(error)).1.exit,
        state.error is None ==> state.input_handled(Err(error)).0.error == Some(
            WindowError::Input(error),
        ),
{
}

/// Another composed text replaces the one before and is drawn; the same one is
/// not drawn again.
pub proof fn law_composed_text_changes<F>(state: WindowState<F>, next: Option<ImePreedit>)
    ensures
        ({
            let same = match (state.ime_preedit, next) {
                (None, None) => true,
                (Some(one), Some(other)) => one.text@ == other.text@ && one.cursor == other.cursor,
                _ => false,
            };
            &&& !same ==> state.composing(next).ime_preedit == next
            &&& same ==> state.composing(next) == state
            &&& state.redraws_for(next) == (state.has_window && !same)
        }),
{
}

/// The input method is told an area while it is on, and only a new one.
pub proof fn law_told_areas(
    active: bool,
    last: Option<ImeCursorArea>,
    next: Option<ImeCursorArea>,
)
    ensures
        !active ==> ime_area_to_set(active, last, next) is None,
        next is None ==> ime_area_to_set(active, last, next) is None,
        next == last ==> ime_area_to_set(active, last, next) is None,
        active && next is Some && next != last ==> ime_area_to_set(active, last, next) == next,
{
}

/// A pointer has a place where both its position and the size of a cell are
/// known.
pub proof fn law_places(x: Coordinate, y: Coordinate, cell: (u16, u16))
    ensures
        located(Some((x, y)), Some(cell)) is Some,
        located(Some((x, y)), Some(cell))->0.x == x,
        located(Some((x, y)), Some(cell))->0.y == y,
        located(Some((x, y)), Some(cell))->0.cell_dimensions == cell,
        located(None, Some(cell)) is None,
        located(Some((x, y)), None) is None,
{
}

/// A window of another size asks for the screen that fills it, unless the
/// terminal has that size; before cells are measured that is an error, and a
/// window without area asks for nothing.
pub proof fn law_wanted_sizes<F>(
    state: WindowState<F>,
    grid: GridView,
    size: PixelSize,
    cell: (u16, u16),
)
    requires
        grid.valid(),
        grid.screen.cols <= 65535,
        grid.screen.rows.len() <= 65535,
        cell.0 > 0,
        cell.1 > 0,
        state.cell_dimensions == Some(cell),
    ensures
        ({
            let wanted = state.wanted_size(grid, size);
            &&& wanted is Ok
            &&& size.width == 0 || size.height == 0 ==> wanted->Ok_0 is None
            &&& wanted->Ok_0 is Some ==> {
                let target = wanted->Ok_0->0;
                &&& target.columns != grid.screen.cols || target.rows != grid.screen.rows.len()
                &&& cell.0 <= size.width ==> target.columns * cell.0 <= size.width
                &&& target.columns < 1024 ==> size.width < (target.columns + 1) * cell.0
                &&& cell.1 <= size.height ==> target.rows * cell.1 <= size.height
                &&& target.rows < 256 ==> size.height < (target.rows + 1) * cell.1
            }
            &&& size.width > 0 && size.height > 0 && wanted->Ok_0 is None ==> {
                &&& cell.0 <= size.width ==> grid.screen.cols * cell.0 <= size.width
                &&& grid.screen.cols < 1024 ==> size.width < (grid.screen.cols + 1) * cell.0
                &&& cell.1 <= size.height ==> grid.screen.rows.len() * cell.1 <= size.height
                &&& grid.screen.rows.len() < 256 ==> size.height < (grid.screen.rows.len() + 1)
                    * cell.1
            }
        }),
{
    if size.width > 0 && size.height > 0 {
        law_screens_fill_windows(size, cell);
    }
}

/// A window that shows the whole screen has the pixels of all its cells.
pub proof fn law_full_sizes<F>(state: WindowState<F>, grid: GridView, cell: (u16, u16))
    requires
        grid.valid(),
        grid.screen.cols <= 65535,
        grid.screen.rows.len() <= 65535,
        state.cell_dimensions == Some(cell),
    ensures
        ({
            let full = state.full_size(grid);
            let width = grid.screen.cols * cell.0;
            let height = grid.screen.rows.len() * cell.1;
            &&& full == surface_of(grid, cell)
            &&& full is Ok <==> cell.0 > 0 && cell.1 > 0
            &&& full is Ok && width <= 8192 ==> full->Ok_0.width == width
            &&& full is Ok && height <= 4320 ==> full->Ok_0.height == height
        }),
{
    let dimensions = TerminalDimensions {
        columns: grid.screen.cols as u16,
        rows: grid.screen.rows.len() as u16,
    };
    law_windows_hold_screens(dimensions, cell);
    assert(dimensions.columns * cell.0 > 0 <==> cell.0 > 0) by (nonlinear_arith)
        requires
            dimensions.columns > 0,
            cell.0 >= 0,
    ;
    assert(dimensions.rows * cell.1 > 0 <==> cell.1 > 0) by (nonlinear_arith)
        requires
            dimensions.rows > 0,
            cell.1 >= 0,
    ;
}

/// A frame that was shown is remembered. A window for one frame ends with it,
/// with an error if it showed nothing; a frame that failed ends any window.
pub proof fn law_frames<F>(state: WindowState<F>, visible: bool, error: WindowError)
    ensures
        ({
            let shown = state.framed(Ok(Some(visible)));
            &&& shown.first_frame_presented
            &&& !state.exit_after_first_frame ==> shown.exiting == state.exiting && shown.error
                == state.error && shown.ime_preedit == state.ime_preedit
            &&& state.exit_after_first_frame ==> shown.exiting
            &&& state.exit_after_first_frame && visible ==> shown.error == state.error
            &&& state.exit_after_first_frame && !visible && state.error is None ==> shown.error
                == Some(WindowError::EmptyFirstFrame)
            &&& state.framed(Ok(None)) == state
            &&& state.framed(Err(error)).exiting
            &&& state.error is None ==> state.framed(Err(error)).error == Some(error)
            &&& state.ends_with_frame(Ok(Some(visible))) == state.exit_after_first_frame
            &&& !state.ends_with_frame(Ok(None))
            &&& state.ends_with_frame(Err(error))
        }),
{
}

/// The end of the program ends the window once its last output was shown, with
/// the error of the reader where it had one.
pub proof fn law_drained_programs<F>(state: WindowState<F>, words: String)
    ensures
        state.reader_status is None ==> state.drained() == state,
        state.reader_status is Some ==> state.drained().exiting && state.drained().reader_status
            is None,
        state.reader_status == Some(ReaderStatus::Normal) ==> state.drained().error == state.error,
        state.reader_status == Some(ReaderStatus::Failed(words)) && state.error is None
            ==> state.drained().error == Some(WindowError::Message(words)),
{
}

/// A pointer in another scale is forgotten, unless a button of it is down. A
/// press that the program was told of keeps the size of cell it was made in.
pub proof fn law_rescaled_pointers<F>(state: PointerView<F>, current: (u16, u16))
    ensures
        ({
            let next = state.rescaled(Some(current));
            let free = state.held.len() == 0 && state.forwarded == 0;
            &&& next.motion_state.last_cell is None
            &&& next.wheel_state.line_remainder is None
            &&& free ==> next.active_device is None && next.position is None
            &&& !free ==> next.active_device == state.active_device && next.held == state.held
                && next.forwarded == state.forwarded
            &&& state.forwarded != 0 ==> next.position == state.position
                && next.position_uses_captured_metrics
            &&& state.forwarded != 0 && !state.position_uses_captured_metrics
                ==> next.captured_cell_dimensions == Some(current)
            &&& state.forwarded != 0 && state.position_uses_captured_metrics
                ==> next.captured_cell_dimensions == state.captured_cell_dimensions
            &&& !free && state.forwarded == 0 ==> next.position is None
                && next.captured_cell_dimensions is None && !next.position_uses_captured_metrics
        }),
{
}

/// A button event is read in the size of cell of now, but for the release of a
/// press in an older one.
pub proof fn law_button_metrics<F>(
    state: PointerView<F>,
    device: DeviceId,
    pressed: bool,
    button: u8,
    current: Option<(u16, u16)>,
)
    requires
        button <= 2,
        state.active_device == Some(device),
    ensures
        ({
            let metrics = state.button_metrics(device, pressed, Some(button), current);
            let told = state.forwarded & button_bit(button) != 0;
            &&& !state.position_uses_captured_metrics ==> metrics == current
            &&& state.position_uses_captured_metrics && !pressed && told
                && state.captured_cell_dimensions is Some ==> metrics
                == state.captured_cell_dimensions
            &&& state.position_uses_captured_metrics && (pressed || !told) ==> metrics is None
        }),
{
}

/// The title that is shown is that of the program without its controls, or the
/// name of the terminal where nothing is left.
pub proof fn law_titles(title: Seq<char>, c: char)
    ensures
        shown_title(title).len() > 0,
        ({
            let code = c as u32;
            &&& code <= 31 || (127 <= code && code <= 159) ==> without_controls(title.push(c))
                == without_controls(title)
            &&& !(code <= 31 || (127 <= code && code <= 159)) ==> without_controls(title.push(c))
                == without_controls(title).push(c)
        }),
        without_controls(Seq::empty()).len() == 0,
        without_controls(title).len() > 0 ==> shown_title(title) == without_controls(title),
        without_controls(title).len() == 0 ==> shown_title(title) == "kokuban"@,
{
    reveal(Seq::filter);
    reveal_strlit("kokuban");
    assert(title.push(c).drop_last() =~= title);
}

/// A thread that was asked to end, or whose program did, has no error; every
/// other end of it has words.
pub proof fn law_thread_ends(reader: ReaderExit, writer: WriterExit)
    ensures
        reader_failure(reader) is None <==> reader is Shutdown || reader is Eof,
        writer_failure(writer) is None <==> writer is Shutdown,
{
}

/// A text from the clipboard is handed on whole, or refused where it is longer
/// than a mebibyte; an error is handed on as it is.
pub proof fn law_pasted_texts(request_id: u64, text: String, error: ClipboardError)
    ensures
        text_fits(text@) <==> encode_utf8(text@).len() <= 1048576,
        match paste_answer(request_id, Ok(text)) {
            ClipboardEvent::Paste { request_id: id, result } => {
                &&& id == request_id
                &&& encode_utf8(text@).len() <= 1048576 ==> result == Ok::<
                    String,
                    ClipboardError,
                >(text)
                &&& encode_utf8(text@).len() > 1048576 ==> result is Err && result->Err_0
                    is TooLarge
            },
            _ => false,
        },
        match paste_answer(request_id, Err(error)) {
            ClipboardEvent::Paste { request_id: id, result } => id == request_id && result == Err::<
                String,
                ClipboardError,
            >(error),
            _ => false,
        },
{
}

/// On an open clipboard a copy writes its text and a paste reads; on a closed
/// one the clipboard is opened for the command first.
pub proof fn law_clipboard_commands(text: String, request_id: u64)
    ensures
        worker_step(true, false, WorkerEvent::Asked(ClipboardCommand::Copy(text))) == (
            true,
            WorkerAction::Write(text),
        ),
        worker_step(true, false, WorkerEvent::Asked(ClipboardCommand::Paste(request_id))) == (
            true,
            WorkerAction::Read { request_id },
        ),
        worker_step(false, false, WorkerEvent::Asked(ClipboardCommand::Copy(text))) == (
            false,
            WorkerAction::Open(ClipboardCommand::Copy(text)),
        ),
        worker_step(false, false, WorkerEvent::Asked(ClipboardCommand::Paste(request_id))) == (
            false,
            WorkerAction::Open(ClipboardCommand::Paste(request_id)),
        ),
{
}

/// Printable ASCII is known without a table; the table answers by two bits for
/// each page of 64 scalars.
pub proof fn law_successor_pages(pages: SuccessorPages, c: char, word: u64, page: int)
    requires
        page == c as u32 as int / 64,
    ensures
        0x20 <= c as u32 <= 0x7e ==> pages.class(c) == SuccessorClass::Other,
        !(0x20 <= c as u32 <= 0x7e) && page / 32 >= pages.words@.len() ==> pages.class(c)
            == SuccessorClass::Unknown,
        !(0x20 <= c as u32 <= 0x7e) && page / 32 < pages.words@.len() && pages.words@[page / 32]
            == word ==> {
            let bits = (word >> (2 * (page % 32)) as u64) & 3u64;
            &&& bits == 1 <==> pages.class(c) == SuccessorClass::Other
            &&& bits == 2 <==> pages.class(c) == SuccessorClass::Attach
            &&& bits == 0 || bits == 3 ==> pages.class(c) == SuccessorClass::Unknown
        },
{
    let shift = (2 * (page % 32)) as u64;
    assert((word >> shift) & 3u64 <= 3) by (bit_vector);
}


/// The words for a thread that failed name what it was doing, and end with those
/// of the system.
pub proof fn law_thread_words(words: String)
    ensures
        reader_failure(ReaderExit::WaitFailed(words)) == Some(
            "terminal reader could not wait for PTY output: "@ + words@,
        ),
        reader_failure(ReaderExit::ReadFailed(words)) == Some(
            "terminal reader could not read PTY output: "@ + words@,
        ),
        reader_failure(ReaderExit::ResponseWriteFailed(words)) == Some(
            "terminal reader could not write a protocol response: "@ + words@,
        ),
        reader_failure(ReaderExit::GridPoisoned) == Some(
            "terminal reader lost access to the terminal grid"@,
        ),
        reader_failure(ReaderExit::DecoderStalled) == Some(
            "terminal decoder stopped making progress"@,
        ),
        reader_failure(ReaderExit::UnexpectedProtocolEvent) == Some(
            "terminal reader received a graphics event in text-only mode"@,
        ),
        writer_failure(WriterExit::ChannelClosed) == Some("terminal writer lost its input queue"@),
        writer_failure(WriterExit::WriteFailed(words)) == Some(
            "terminal writer could not write keyboard input to the PTY: "@ + words@,
        ),
{
}


/// The loss of the focus forgets the held modifiers and the composed text; the
/// program is told of a change alone, and only while it takes input.
pub proof fn law_focus_changes<F>(state: WindowState<F>, focused: bool)
    ensures
        ({
            let next = state.with_focus(focused);
            &&& next.last_window_focus == Some(focused)
            &&& focused ==> next.modifiers == state.modifiers && next.ime_preedit
                == state.ime_preedit
            &&& !focused ==> !next.modifiers.shift && !next.modifiers.control && !next.modifiers.alt
                && !next.modifiers.super_key && next.ime_preedit is None
            &&& next.exiting == state.exiting
            &&& next.error == state.error
            &&& next.pointer_route == state.pointer_route
            &&& next.ime_active == state.ime_active
            &&& !next.tells_focus(focused)
            &&& state.tells_focus(focused) <==> state.last_window_focus != Some(focused)
                && !state.exiting && state.reader_status is None
        }),
{
}

/// Switching the input method forgets what it was composing and was told.
pub proof fn law_input_methods<F>(state: WindowState<F>, active: bool)
    ensures
        ({
            let next = state.with_input_method(active);
            &&& next.ime_active == active
            &&& next.ime_preedit is None
            &&& next.last_ime_cursor_area is None
            &&& next.modifiers == state.modifiers
            &&& next.exiting == state.exiting
            &&& next.pointer_route == state.pointer_route
        }),
{
}

/// After the program ended nothing more is sent; a last frame is drawn, and a
/// second end changes nothing.
pub proof fn law_ended_programs<F>(state: WindowState<F>, status: ReaderStatus, later: ReaderStatus)
    ensures
        ({
            let next = state.without_program(status);
            &&& !next.accepts_input()
            &&& next.ime_preedit is None
            &&& state.reader_status is None ==> next.reader_status == Some(status)
            &&& state.reader_status is Some ==> next.reader_status == state.reader_status
            &&& next.without_program(later) == next
            &&& next.exiting == state.exiting
            &&& state.program_left().redraw == state.has_window
            &&& state.program_left().stop_writer == (state.reader_status is None)
            &&& !state.program_left().stop_reader
            &&& !state.program_left().exit
            &&& !next.program_left().stop_writer
        }),
{
}

/// A window ends with its error, or with that of a first frame that was never
/// shown, or without one.
pub proof fn law_final_errors<F>(state: WindowState<F>)
    ensures
        state.error is Some ==> state.final_error() == state.error,
        state.error is None && state.exit_after_first_frame && !state.first_frame_presented
            ==> state.final_error() == Some(WindowError::NoFirstFrame),
        state.error is None && (!state.exit_after_first_frame || state.first_frame_presented)
            ==> state.final_error() is None,
{
}

/// A frame has the size of the window, up to the largest one; a window without
/// area gets none.
pub proof fn law_frame_sizes<F>(state: WindowState<F>, size: PixelSize)
    ensures
        ({
            let frame = state.frame_size(size);
            let area = size.width > 0 && size.height > 0;
            let drawable = area && size.width <= 8192 && size.height <= 4320;
            &&& !state.has_window ==> frame is Err
            &&& state.has_window && !area ==> frame is Ok && frame->Ok_0 is None
            &&& state.has_window && area && !drawable ==> frame is Err
            &&& state.has_window && drawable && state.cell_dimensions is None ==> frame is Err
            &&& state.has_window && drawable && state.cell_dimensions is Some ==> {
                &&& frame is Ok
                &&& frame->Ok_0 is Some
                &&& (frame->Ok_0->0).0.0 == size.width
                &&& (frame->Ok_0->0).0.1 == size.height
                &&& (frame->Ok_0->0).1 == state.cell_dimensions->0
            }
        }),
{
}


/// A press that the program was told of keeps its size of cell where the present
/// one is not known.
pub proof fn law_rescaled_without_metrics<F>(state: PointerView<F>)
    requires
        state.forwarded != 0,
    ensures
        state.rescaled(None).captured_cell_dimensions == state.captured_cell_dimensions,
        state.rescaled(None).position == state.position,
        state.rescaled(None).position_uses_captured_metrics,
{
}

} // verus!
