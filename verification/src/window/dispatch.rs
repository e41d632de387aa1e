//! What keys, pointers and focus changes do: move the viewport, or send bytes
//! to the terminal program.
use crate::grid::cursor::least;
use crate::grid::terminal::{Grid, GridView, MouseTracking};
use crate::input::keyboard::{encode_terminal_key, key_bytes, TerminalKey};
use crate::input::linux::{
    encode_key_press, press_bytes, LinuxKeyPress, Modifiers, ScrollbackAction,
};
use crate::input::mouse::{
    encode_mouse_event, modified_button, mouse_button_with_modifier_flags, mouse_bytes,
    MOUSE_WHEEL_DOWN, MOUSE_WHEEL_UP,
};
use crate::window::geometry::{GridAccessError, TerminalDimensions};
use crate::window::pointer::{
    Coordinate, MouseMotionDispatchOutcome, MouseMotionState, MouseWheelRoute, MouseWheelState,
};
use vstd::prelude::*;

verus! {

/// The most lines that one wheel event moves.
pub const MAX_WHEEL_STEPS_PER_EVENT: u32 = 32;

pub const MOUSE_MOTION_FLAG: u8 = 32;
pub const MOUSE_NO_BUTTON: u8 = 3;

/// Why bytes could not be queued for the terminal program.
#[derive(Debug, Clone, Copy, PartialEq, Eq, Structural)]
pub enum TerminalWriteQueueError {
    Full,
    Disconnected,
}

#[derive(Debug, Clone, Copy, PartialEq, Eq, Structural)]
pub enum KeyboardInputError {
    Grid(GridAccessError),
    Queue(TerminalWriteQueueError),
}

#[derive(Debug, Clone, Copy, PartialEq, Eq, Structural)]
pub enum KeyboardInputOutcome {
    Ignored { viewport_changed: bool },
    Forwarded { viewport_changed: bool },
    Scrollback { viewport_changed: bool },
}

impl KeyboardInputOutcome {
    pub open spec fn moved_viewport(self) -> bool {
        match self {
            KeyboardInputOutcome::Ignored { viewport_changed } => viewport_changed,
            KeyboardInputOutcome::Forwarded { viewport_changed } => viewport_changed,
            KeyboardInputOutcome::Scrollback { viewport_changed } => viewport_changed,
        }
    }

    pub fn viewport_changed(self) -> (r: bool)
        ensures
            r == self.moved_viewport(),
    {
        match self {
            KeyboardInputOutcome::Ignored { viewport_changed } => viewport_changed,
            KeyboardInputOutcome::Forwarded { viewport_changed } => viewport_changed,
            KeyboardInputOutcome::Scrollback { viewport_changed } => viewport_changed,
        }
    }
}

/// Nothing is to be done.
pub open spec fn ignored() -> KeyboardInputOutcome {
    KeyboardInputOutcome::Ignored { viewport_changed: false }
}

/// What is left to do: nothing, or to queue bytes and then report the outcome.
#[derive(Debug)]
pub enum InputPlan {
    Done(KeyboardInputOutcome),
    Send { bytes: Vec<u8>, outcome: KeyboardInputOutcome },
    Failed(GridAccessError),
}

impl InputPlan {
    pub open spec fn sends(self, expected: Seq<u8>, reported: KeyboardInputOutcome) -> bool {
        match self {
            InputPlan::Send { bytes, outcome } => bytes@ == expected && outcome == reported,
            _ => false,
        }
    }
}

/// The outcome once the bytes of a plan were queued, or could not be.
pub open spec fn input_result(
    plan: InputPlan,
    queued: Result<(), TerminalWriteQueueError>,
) -> Result<KeyboardInputOutcome, KeyboardInputError> {
    match plan {
        InputPlan::Done(outcome) => Ok(outcome),
        InputPlan::Failed(error) => Err(KeyboardInputError::Grid(error)),
        InputPlan::Send { outcome, .. } => match queued {
            Ok(_) => Ok(outcome),
            Err(error) => Err(KeyboardInputError::Queue(error)),
        },
    }
}

pub fn finish_input(plan: &InputPlan, queued: Result<(), TerminalWriteQueueError>) -> (r: Result<
    KeyboardInputOutcome,
    KeyboardInputError,
>)
    ensures
        r == input_result(*plan, queued),
{
    match plan {
        InputPlan::Done(outcome) => Ok(*outcome),
        InputPlan::Failed(error) => Err(KeyboardInputError::Grid(*error)),
        InputPlan::Send { outcome, .. } => match queued {
            Ok(()) => Ok(*outcome),
            Err(error) => Err(KeyboardInputError::Queue(error)),
        },
    }
}

impl GridView {
    /// The lines that a page key moves the viewport by.
    pub open spec fn page_lines(self) -> int {
        if self.rows() > 2 { self.rows() - 1 } else { 1 }
    }

    /// The viewport moved up, at most to the oldest line.
    pub open spec fn viewport_up(self, lines: int) -> GridView {
        self.with_scroll_offset(least(self.scroll_offset + lines, self.history.rows.len() as int))
    }

    /// The viewport moved down, at most to the screen.
    pub open spec fn viewport_down(self, lines: int) -> GridView {
        self.with_scroll_offset(
            if self.scroll_offset > lines { self.scroll_offset - lines } else { 0 },
        )
    }

    /// The viewport at the screen.
    pub open spec fn viewport_home(self) -> GridView {
        if self.scroll_offset != 0 { self.with_scroll_offset(0) } else { self }
    }

    pub open spec fn scrollback_moved(self, action: ScrollbackAction) -> GridView {
        match action {
            ScrollbackAction::PageUp => self.viewport_up(self.page_lines()),
            ScrollbackAction::PageDown => self.viewport_down(self.page_lines()),
            ScrollbackAction::Top => self.viewport_up(self.history.rows.len() as int),
            ScrollbackAction::Bottom => self.viewport_home(),
        }
    }
}

/// Move the viewport; the result tells whether it moved.
pub fn apply_scrollback_action(grid: &mut Grid, action: ScrollbackAction) -> (r: bool)
    requires
        old(grid).wf(),
    ensures
        final(grid).wf(),
        final(grid)@ == old(grid)@.scrollback_moved(action),
        r == (final(grid)@.scroll_offset != old(grid)@.scroll_offset),
{
    let previous: usize = grid.scroll_offset;
    let rows: usize = grid.rows();
    let page: usize = if rows > 2 { rows - 1 } else { 1 };
    match action {
        ScrollbackAction::PageUp => grid.scroll_viewport_up(page),
        ScrollbackAction::PageDown => grid.scroll_viewport_down(page),
        ScrollbackAction::Top => {
            let all: usize = grid.scrollback_len();
            grid.scroll_viewport_up(all)
        },
        ScrollbackAction::Bottom => grid.scroll_to_bottom(),
    }
    grid.scroll_offset != previous
}

/// The plan for encoded input.
pub open spec fn sent_plan(
    plan: InputPlan,
    bytes: Option<Seq<u8>>,
    before: GridView,
    after: GridView,
) -> bool {
    match bytes {
        None => plan == InputPlan::Done(ignored()) && after == before,
        Some(bytes) => {
            &&& plan.sends(
                bytes,
                KeyboardInputOutcome::Forwarded {
                    viewport_changed: before.scroll_offset != 0,
                },
            )
            &&& after == before.viewport_home()
        },
    }
}

/// Input returns the viewport to the screen before it is sent.
pub fn dispatch_encoded_terminal_input(grid: &mut Grid, bytes: Option<Vec<u8>>) -> (r: InputPlan)
    requires
        old(grid).wf(),
    ensures
        final(grid).wf(),
        sent_plan(
            r,
            match bytes {
                Some(bytes) => Some(bytes@),
                None => None,
            },
            old(grid)@,
            final(grid)@,
        ),
{
    match bytes {
        None => InputPlan::Done(KeyboardInputOutcome::Ignored { viewport_changed: false }),
        Some(bytes) => {
            let viewport_changed: bool = grid.scroll_offset != 0;
            grid.scroll_to_bottom();
            InputPlan::Send {
                bytes,
                outcome: KeyboardInputOutcome::Forwarded { viewport_changed },
            }
        },
    }
}

/// The plan for a key.
pub open spec fn key_plan(
    plan: InputPlan,
    scrollback_action: Option<ScrollbackAction>,
    press: Option<LinuxKeyPress<'_>>,
    before: GridView,
    after: GridView,
) -> bool {
    match scrollback_action {
        Some(action) => {
            &&& after == before.scrollback_moved(action)
            &&& plan == InputPlan::Done(
                KeyboardInputOutcome::Scrollback {
                    viewport_changed: after.scroll_offset != before.scroll_offset,
                },
            )
        },
        None => match typed_bytes(press, before.modes.application_cursor_keys) {
            Some(bytes) => {
                &&& plan.sends(
                    bytes,
                    KeyboardInputOutcome::Forwarded {
                        viewport_changed: before.scroll_offset != 0,
                    },
                )
                &&& after == before.viewport_home()
            },
            None => plan == InputPlan::Done(ignored()) && after == before,
        },
    }
}

/// A key moves the viewport, or is sent.
pub fn dispatch_keyboard_input(
    grid: &mut Grid,
    scrollback_action: Option<ScrollbackAction>,
    press: Option<LinuxKeyPress<'_>>,
) -> (r: InputPlan)
    requires
        old(grid).wf(),
    ensures
        final(grid).wf(),
        key_plan(r, scrollback_action, press, old(grid)@, final(grid)@),
{
    if let Some(action) = scrollback_action {
        let viewport_changed: bool = apply_scrollback_action(grid, action);
        return InputPlan::Done(KeyboardInputOutcome::Scrollback { viewport_changed });
    }
    let bytes: Option<Vec<u8>> = match press {
        Some(press) => encode_key_press(press, grid.modes.application_cursor_keys),
        None => None,
    };
    dispatch_encoded_terminal_input(grid, bytes)
}

/// The bytes of a press, if there is one.
pub open spec fn typed_bytes(press: Option<LinuxKeyPress<'_>>, application: bool) -> Option<
    Seq<u8>,
> {
    match press {
        Some(press) => press_bytes(press, application),
        None => None,
    }
}

/// The cell, counted from one, that a pointer is in. Beyond the last cell the
/// last one counts.
pub open spec fn cell_at(
    x: Coordinate,
    y: Coordinate,
    cell: (u16, u16),
    terminal: TerminalDimensions,
) -> Option<(int, int)> {
    match (x, y) {
        (Coordinate::At(x), Coordinate::At(y)) => if cell.0 == 0 || cell.1 == 0 || terminal.columns
            == 0 || terminal.rows == 0 {
            None
        } else {
            Some(
                (
                    least(x as int / cell.0 as int, terminal.columns - 1) + 1,
                    least(y as int / cell.1 as int, terminal.rows - 1) + 1,
                ),
            )
        },
        _ => None,
    }
}

/// The position is on both axes a number, so that it may be brought to the edge.
pub open spec fn finite(x: Coordinate, y: Coordinate) -> bool {
    x != Coordinate::NotFinite && y != Coordinate::NotFinite
}

/// The cell of a pointer that may have been dragged out of the window.
pub open spec fn dragged_cell(
    x: Coordinate,
    y: Coordinate,
    cell: (u16, u16),
    terminal: TerminalDimensions,
    dragged: bool,
) -> Option<(int, int)> {
    if dragged && finite(x, y) {
        cell_at(x.at_edge(), y.at_edge(), cell, terminal)
    } else {
        cell_at(x, y, cell, terminal)
    }
}

pub open spec fn same_cell(found: Option<(usize, usize)>, expected: Option<(int, int)>) -> bool {
    match (found, expected) {
        (Some(found), Some(expected)) => found.0 == expected.0 && found.1 == expected.1,
        (None, None) => true,
        _ => false,
    }
}

pub fn terminal_cell_at_pointer(
    x: Coordinate,
    y: Coordinate,
    cell_dimensions: (u16, u16),
    terminal_dimensions: TerminalDimensions,
) -> (r: Option<(usize, usize)>)
    ensures
        same_cell(r, cell_at(x, y, cell_dimensions, terminal_dimensions)),
{
    match (x, y) {
        (Coordinate::At(x), Coordinate::At(y)) => {
            if cell_dimensions.0 == 0 || cell_dimensions.1 == 0 || terminal_dimensions.columns == 0
                || terminal_dimensions.rows == 0 {
                return None;
            }
            let last_column: u64 = terminal_dimensions.columns as u64 - 1;
            let last_row: u64 = terminal_dimensions.rows as u64 - 1;
            let column: u64 = x / cell_dimensions.0 as u64;
            let row: u64 = y / cell_dimensions.1 as u64;
            let column: u64 = if column < last_column { column } else { last_column };
            let row: u64 = if row < last_row { row } else { last_row };
            Some((column as usize + 1, row as usize + 1))
        },
        _ => None,
    }
}

/// The cell of a button event: a release outside the window counts at its
/// edge.
pub fn terminal_cell_at_mouse_button(
    x: Coordinate,
    y: Coordinate,
    cell_dimensions: (u16, u16),
    terminal_dimensions: TerminalDimensions,
    pressed: bool,
) -> (r: Option<(usize, usize)>)
    ensures
        same_cell(r, dragged_cell(x, y, cell_dimensions, terminal_dimensions, !pressed)),
{
    terminal_cell_at_mouse_motion(x, y, cell_dimensions, terminal_dimensions, !pressed)
}

/// The cell of a move: with a button held it counts at the edge of the window.
pub fn terminal_cell_at_mouse_motion(
    x: Coordinate,
    y: Coordinate,
    cell_dimensions: (u16, u16),
    terminal_dimensions: TerminalDimensions,
    button_held: bool,
) -> (r: Option<(usize, usize)>)
    ensures
        same_cell(r, dragged_cell(x, y, cell_dimensions, terminal_dimensions, button_held)),
{
    if button_held && x != Coordinate::NotFinite && y != Coordinate::NotFinite {
        let x: Coordinate = if x == Coordinate::Negative { Coordinate::At(0) } else { x };
        let y: Coordinate = if y == Coordinate::Negative { Coordinate::At(0) } else { y };
        terminal_cell_at_pointer(x, y, cell_dimensions, terminal_dimensions)
    } else {
        terminal_cell_at_pointer(x, y, cell_dimensions, terminal_dimensions)
    }
}

pub fn mouse_button_with_modifiers(button: u8, modifiers: Modifiers) -> (r: u8)
    ensures
        r == modified_button(button, modifiers.shift, modifiers.alt, modifiers.control),
{
    mouse_button_with_modifier_flags(button, modifiers.shift, modifiers.alt, modifiers.control)
}

/// A button of a pointing device.
#[derive(Debug, Clone, Copy, PartialEq, Eq, Structural)]
pub enum MouseButton {
    Left,
    Right,
    Middle,
    Back,
    Forward,
    Other(u16),
}

pub open spec fn button_code(button: MouseButton) -> Option<u8> {
    match button {
        MouseButton::Left => Some(0u8),
        MouseButton::Middle => Some(1u8),
        MouseButton::Right => Some(2u8),
        _ => None,
    }
}

pub fn mouse_button_code(button: MouseButton) -> (r: Option<u8>)
    ensures
        r == button_code(button),
{
    match button {
        MouseButton::Left => Some(0),
        MouseButton::Middle => Some(1),
        MouseButton::Right => Some(2),
        _ => None,
    }
}

/// Where the pointer is: its position with the metrics to read it in, where
/// both are known.
#[derive(Debug, Clone, Copy, PartialEq, Eq)]
pub struct PointerLocation {
    pub x: Coordinate,
    pub y: Coordinate,
    pub cell_dimensions: (u16, u16),
}

/// What a button event does to the followed cell.
#[derive(Debug, Clone, Copy, PartialEq, Eq)]
pub enum MotionChange {
    Keep,
    Reset,
    Anchor((usize, usize)),
}

/// A plan for a button event, with the followed cell once it is carried out.
#[derive(Debug)]
pub struct ButtonPlan {
    pub plan: InputPlan,
    pub motion: MotionChange,
}

impl ButtonPlan {
    pub open spec fn ignores(self, expected: MotionChange) -> bool {
        self.plan == InputPlan::Done(ignored()) && self.motion == expected
    }
}

/// The plan for a button event.
pub open spec fn button_plan(
    plan: ButtonPlan,
    grid: GridView,
    location: Option<PointerLocation>,
    pressed: bool,
    button: MouseButton,
    modifiers: Modifiers,
) -> bool {
    &&& button_code(button) is None ==> plan.ignores(MotionChange::Keep)
    &&& button_code(button) is Some && location is None ==> plan.ignores(MotionChange::Reset)
    &&& button_code(button) is Some && location is Some ==> {
        let place = location->0;
        match crate::window::geometry::grid_dimensions(grid.cols(), grid.rows()) {
            Err(error) => plan.plan == InputPlan::Failed(error) && plan.motion == MotionChange::Keep,
            Ok(terminal) => match dragged_cell(
                place.x,
                place.y,
                place.cell_dimensions,
                terminal,
                !pressed,
            ) {
                None => plan.ignores(MotionChange::Reset),
                Some(cell) => {
                    &&& plan.motion == MotionChange::Anchor((cell.0 as usize, cell.1 as usize))
                    &&& if grid.modes.mouse_tracking == MouseTracking::Off {
                        plan.plan == InputPlan::Done(ignored())
                    } else {
                        plan.plan.sends(
                            mouse_bytes(
                                modified_button(
                                    button_code(button)->0,
                                    modifiers.shift,
                                    modifiers.alt,
                                    modifiers.control,
                                ),
                                cell.0,
                                cell.1,
                                pressed,
                                grid.modes.mouse_encoding,
                            ),
                            KeyboardInputOutcome::Forwarded { viewport_changed: false },
                        )
                    }
                },
            },
        }
    }
}

/// Decide on a button event. The program is told if it tracks buttons; the
/// cell of the event is followed either way.
pub fn dispatch_mouse_button(
    grid: &Grid,
    location: Option<PointerLocation>,
    pressed: bool,
    button: MouseButton,
    modifiers: Modifiers,
) -> (r: ButtonPlan)
    ensures
        button_plan(r, grid@, location, pressed, button, modifiers),
{
    let ignore: KeyboardInputOutcome = KeyboardInputOutcome::Ignored { viewport_changed: false };
    let code: u8 = match mouse_button_code(button) {
        Some(code) => code,
        None => {
            return ButtonPlan { plan: InputPlan::Done(ignore), motion: MotionChange::Keep };
        },
    };
    let place: PointerLocation = match location {
        Some(place) => place,
        None => {
            return ButtonPlan { plan: InputPlan::Done(ignore), motion: MotionChange::Reset };
        },
    };
    let terminal: TerminalDimensions =
        match crate::window::geometry::terminal_dimensions_from_locked_grid(grid) {
        Ok(terminal) => terminal,
        Err(error) => {
            return ButtonPlan { plan: InputPlan::Failed(error), motion: MotionChange::Keep };
        },
    };
    let cell: (usize, usize) = match terminal_cell_at_mouse_button(
        place.x,
        place.y,
        place.cell_dimensions,
        terminal,
        pressed,
    ) {
        Some(cell) => cell,
        None => {
            return ButtonPlan { plan: InputPlan::Done(ignore), motion: MotionChange::Reset };
        },
    };
    if grid.modes.mouse_tracking == MouseTracking::Off {
        return ButtonPlan { plan: InputPlan::Done(ignore), motion: MotionChange::Anchor(cell) };
    }
    let bytes: Vec<u8> = encode_mouse_event(
        mouse_button_with_modifiers(code, modifiers),
        cell.0,
        cell.1,
        pressed,
        grid.modes.mouse_encoding,
    );
    ButtonPlan {
        plan: InputPlan::Send {
            bytes,
            outcome: KeyboardInputOutcome::Forwarded { viewport_changed: false },
        },
        motion: MotionChange::Anchor(cell),
    }
}

/// The followed cell after a button event. A report that could not be queued
/// leaves it alone.
pub open spec fn settled(motion: MouseMotionState, plan: ButtonPlan, queued: bool) -> MouseMotionState {
    match plan.plan {
        InputPlan::Send { .. } if !queued => motion,
        _ => match plan.motion {
            MotionChange::Keep => motion,
            MotionChange::Reset => MouseMotionState { last_cell: None },
            MotionChange::Anchor(cell) => MouseMotionState { last_cell: Some(cell) },
        },
    }
}

pub fn settle_motion(motion: &mut MouseMotionState, plan: &ButtonPlan, queued: bool)
    ensures
        *final(motion) == settled(*old(motion), *plan, queued),
{
    let dropped: bool = match plan.plan {
        InputPlan::Send { .. } => !queued,
        _ => false,
    };
    if dropped {
        return;
    }
    match plan.motion {
        MotionChange::Keep => {},
        MotionChange::Reset => motion.reset(),
        MotionChange::Anchor(cell) => motion.anchor(cell),
    }
}

/// What a pointer move comes to.
#[derive(Debug)]
pub enum MotionPlan {
    Done(MouseMotionDispatchOutcome),
    Send { bytes: Vec<u8>, cell: (usize, usize) },
    Failed(GridAccessError),
}

/// The button that a move is reported with, if it is reported.
pub open spec fn motion_button(tracking: MouseTracking, active: Option<u8>) -> Option<u8> {
    match tracking {
        MouseTracking::Off => None,
        MouseTracking::Normal => None,
        MouseTracking::ButtonEvent => active,
        MouseTracking::AnyEvent => match active {
            Some(button) => Some(button),
            None => Some(3u8),
        },
    }
}

/// The plan for a pointer move.
pub open spec fn motion_plan(
    plan: MotionPlan,
    grid: GridView,
    location: Option<PointerLocation>,
    active_button: Option<u8>,
    modifiers: Modifiers,
    last_cell: Option<(usize, usize)>,
) -> bool {
    &&& location is None ==> plan == MotionPlan::Done(MouseMotionDispatchOutcome::Ignored)
    &&& location is Some ==> {
        let place = location->0;
        match crate::window::geometry::grid_dimensions(grid.cols(), grid.rows()) {
            Err(error) => plan == MotionPlan::Failed(error),
            Ok(terminal) => match dragged_cell(
                place.x,
                place.y,
                place.cell_dimensions,
                terminal,
                active_button is Some,
            ) {
                None => plan == MotionPlan::Done(MouseMotionDispatchOutcome::Ignored),
                Some(found) => {
                    let cell = (found.0 as usize, found.1 as usize);
                    if last_cell == Some(cell) {
                        plan == MotionPlan::Done(MouseMotionDispatchOutcome::Deduplicated)
                    } else {
                        match motion_button(grid.modes.mouse_tracking, active_button) {
                            None => plan == MotionPlan::Done(
                                MouseMotionDispatchOutcome::Observed(cell),
                            ),
                            Some(button) => {
                                &&& plan is Send
                                &&& plan->cell == cell
                                &&& plan->bytes@ == mouse_bytes(
                                    modified_button(
                                        button | 32u8,
                                        modifiers.shift,
                                        modifiers.alt,
                                        modifiers.control,
                                    ),
                                    found.0,
                                    found.1,
                                    true,
                                    grid.modes.mouse_encoding,
                                )
                            },
                        }
                    }
                },
            },
        }
    }
}

/// Decide on a pointer move. Only a move into another cell counts.
pub fn dispatch_mouse_motion(
    grid: &Grid,
    location: Option<PointerLocation>,
    active_button: Option<u8>,
    modifiers: Modifiers,
    last_cell: Option<(usize, usize)>,
) -> (r: MotionPlan)
    ensures
        motion_plan(r, grid@, location, active_button, modifiers, last_cell),
{
    let place: PointerLocation = match location {
        Some(place) => place,
        None => {
            return MotionPlan::Done(MouseMotionDispatchOutcome::Ignored);
        },
    };
    let terminal: TerminalDimensions =
        match crate::window::geometry::terminal_dimensions_from_locked_grid(grid) {
        Ok(terminal) => terminal,
        Err(error) => {
            return MotionPlan::Failed(error);
        },
    };
    let cell: (usize, usize) = match terminal_cell_at_mouse_motion(
        place.x,
        place.y,
        place.cell_dimensions,
        terminal,
        active_button.is_some(),
    ) {
        Some(cell) => cell,
        None => {
            return MotionPlan::Done(MouseMotionDispatchOutcome::Ignored);
        },
    };
    if let Some(last) = last_cell {
        if last.0 == cell.0 && last.1 == cell.1 {
            return MotionPlan::Done(MouseMotionDispatchOutcome::Deduplicated);
        }
    }
    let button: u8 = match grid.modes.mouse_tracking {
        MouseTracking::Off | MouseTracking::Normal => {
            return MotionPlan::Done(MouseMotionDispatchOutcome::Observed(cell));
        },
        MouseTracking::ButtonEvent => match active_button {
            Some(button) => button,
            None => {
                return MotionPlan::Done(MouseMotionDispatchOutcome::Observed(cell));
            },
        },
        MouseTracking::AnyEvent => match active_button {
            Some(button) => button,
            None => MOUSE_NO_BUTTON,
        },
    };
    let bytes: Vec<u8> = encode_mouse_event(
        mouse_button_with_modifiers(button | MOUSE_MOTION_FLAG, modifiers),
        cell.0,
        cell.1,
        true,
        grid.modes.mouse_encoding,
    );
    MotionPlan::Send { bytes, cell }
}

/// The outcome of a move once its report was queued, or could not be. A report
/// that found the queue full is dropped, since the next move tells more.
pub open spec fn motion_result(
    plan: MotionPlan,
    queued: Result<(), TerminalWriteQueueError>,
) -> Result<MouseMotionDispatchOutcome, KeyboardInputError> {
    match plan {
        MotionPlan::Done(outcome) => Ok(outcome),
        MotionPlan::Failed(error) => Err(KeyboardInputError::Grid(error)),
        MotionPlan::Send { cell, .. } => match queued {
            Ok(_) => Ok(MouseMotionDispatchOutcome::Enqueued(cell)),
            Err(TerminalWriteQueueError::Full) => Ok(MouseMotionDispatchOutcome::DroppedFull),
            Err(TerminalWriteQueueError::Disconnected) => Err(
                KeyboardInputError::Queue(TerminalWriteQueueError::Disconnected),
            ),
        },
    }
}

pub fn finish_motion(plan: &MotionPlan, queued: Result<(), TerminalWriteQueueError>) -> (r: Result<
    MouseMotionDispatchOutcome,
    KeyboardInputError,
>)
    ensures
        r == motion_result(*plan, queued),
{
    match plan {
        MotionPlan::Done(outcome) => Ok(*outcome),
        MotionPlan::Failed(error) => Err(KeyboardInputError::Grid(*error)),
        MotionPlan::Send { cell, .. } => match queued {
            Ok(()) => Ok(MouseMotionDispatchOutcome::Enqueued(*cell)),
            Err(TerminalWriteQueueError::Full) => Ok(MouseMotionDispatchOutcome::DroppedFull),
            Err(TerminalWriteQueueError::Disconnected) => Err(
                KeyboardInputError::Queue(TerminalWriteQueueError::Disconnected),
            ),
        },
    }
}

/// Where the wheel goes: to a program that tracks the pointer, as cursor keys to
/// a program on the alternate screen, or to the viewport.
pub open spec fn wheel_route(grid: GridView) -> MouseWheelRoute {
    if grid.modes.mouse_tracking != MouseTracking::Off {
        MouseWheelRoute::Terminal(grid.modes.mouse_encoding)
    } else if grid.using_alt_screen && grid.modes.alternate_scroll {
        MouseWheelRoute::AlternateScroll {
            application_cursor_keys: grid.modes.application_cursor_keys,
        }
    } else {
        MouseWheelRoute::Scrollback
    }
}

pub fn mouse_wheel_route(grid: &Grid) -> (r: MouseWheelRoute)
    ensures
        r == wheel_route(grid@),
{
    if grid.modes.mouse_tracking != MouseTracking::Off {
        MouseWheelRoute::Terminal(grid.modes.mouse_encoding)
    } else if grid.using_alt_screen && grid.modes.alternate_scroll {
        MouseWheelRoute::AlternateScroll {
            application_cursor_keys: grid.modes.application_cursor_keys,
        }
    } else {
        MouseWheelRoute::Scrollback
    }
}

/// The phase of a wheel gesture.
#[derive(Debug, Clone, Copy, PartialEq, Eq, Structural)]
pub enum WheelPhase {
    Started,
    Moved,
    Ended,
    Cancelled,
}

/// The wheel before a turn. What was left of a turn does not carry over to
/// another route or gesture.
pub open spec fn turning<F>(
    state: MouseWheelState<F>,
    route: MouseWheelRoute,
    phase: WheelPhase,
) -> MouseWheelState<F> {
    MouseWheelState {
        last_route: Some(route),
        line_remainder: if state.last_route == Some(route) && phase != WheelPhase::Started {
            state.line_remainder
        } else {
            None
        },
    }
}

/// The wheel after a turn.
pub open spec fn turned<F>(state: MouseWheelState<F>, phase: WheelPhase) -> MouseWheelState<F> {
    MouseWheelState {
        line_remainder: if phase == WheelPhase::Ended || phase == WheelPhase::Cancelled {
            None
        } else {
            state.line_remainder
        },
        ..state
    }
}

/// Prepare for a wheel event.
pub fn begin_wheel<F>(state: &mut MouseWheelState<F>, route: MouseWheelRoute, phase: WheelPhase)
    ensures
        *final(state) == turning(*old(state), route, phase),
{
    let same: bool = match state.last_route {
        Some(last) => last == route,
        None => false,
    };
    if !same || phase == WheelPhase::Started {
        state.line_remainder = None;
    }
    state.last_route = Some(route);
}

/// Finish a wheel event. Nothing is left of a turn at the end of its gesture.
pub fn end_wheel<F>(state: &mut MouseWheelState<F>, phase: WheelPhase)
    ensures
        *final(state) == turned(*old(state), phase),
{
    if phase == WheelPhase::Ended || phase == WheelPhase::Cancelled {
        state.line_remainder = None;
    }
}

/// The lines of a wheel event, at most as many as one event moves.
pub open spec fn step_count(steps: i32) -> int {
    least(if steps < 0 { -steps } else { steps as int }, 32)
}

fn count_steps(steps: i32) -> (r: usize)
    ensures
        r == step_count(steps),
{
    let magnitude: i64 = if steps < 0 { -(steps as i64) } else { steps as i64 };
    if magnitude < 32 {
        magnitude as usize
    } else {
        32
    }
}

/// A byte string several times over.
pub open spec fn repeated(bytes: Seq<u8>, count: int) -> Seq<u8>
    decreases count,
{
    if count <= 0 { Seq::empty() } else { repeated(bytes, count - 1) + bytes }
}

fn repeat_bytes(bytes: &Vec<u8>, count: usize) -> (r: Vec<u8>)
    ensures
        r@ == repeated(bytes@, count as int),
{
    let mut all: Vec<u8> = Vec::new();
    let mut i: usize = 0;
    while i < count
        invariant
            i <= count,
            all@ == repeated(bytes@, i as int),
        decreases count - i,
    {
        crate::decimal::push_bytes(&mut all, bytes.as_slice());
        i += 1;
    }
    all
}

/// The cursor keys that a wheel turn stands for.
pub open spec fn alternate_scroll_bytes(steps: i32, application_cursor_keys: bool) -> Seq<u8> {
    repeated(
        key_bytes(
            if steps > 0 { TerminalKey::Up } else { TerminalKey::Down },
            application_cursor_keys,
        )->0,
        step_count(steps),
    )
}

pub fn encode_alternate_scroll_steps(steps: i32, application_cursor_keys: bool) -> (r: Vec<u8>)
    ensures
        r@ == alternate_scroll_bytes(steps, application_cursor_keys),
{
    let key: TerminalKey = if steps > 0 { TerminalKey::Up } else { TerminalKey::Down };
    match encode_terminal_key(key, application_cursor_keys) {
        Some(bytes) => repeat_bytes(&bytes, count_steps(steps)),
        None => Vec::new(),
    }
}

/// Move the viewport with the wheel; the result tells whether it moved.
pub fn apply_wheel_scrollback(grid: &mut Grid, steps: i32) -> (r: bool)
    requires
        old(grid).wf(),
    ensures
        final(grid).wf(),
        final(grid)@ == if steps > 0 {
            old(grid)@.viewport_up(step_count(steps))
        } else {
            old(grid)@.viewport_down(step_count(steps))
        },
        r == (final(grid)@.scroll_offset != old(grid)@.scroll_offset),
{
    let previous: usize = grid.scroll_offset;
    let lines: usize = count_steps(steps);
    if steps > 0 {
        grid.scroll_viewport_up(lines);
    } else {
        grid.scroll_viewport_down(lines);
    }
    grid.scroll_offset != previous
}

/// The plan for a wheel turn of whole lines.
pub open spec fn wheel_plan(
    plan: InputPlan,
    location: Option<PointerLocation>,
    steps: i32,
    modifiers: Modifiers,
    before: GridView,
    after: GridView,
) -> bool {
    &&& steps == 0 ==> plan == InputPlan::Done(ignored()) && after == before
    &&& steps != 0 ==> match wheel_route(before) {
        MouseWheelRoute::Scrollback => {
            &&& after == if steps > 0 {
                before.viewport_up(step_count(steps))
            } else {
                before.viewport_down(step_count(steps))
            }
            &&& plan == InputPlan::Done(
                KeyboardInputOutcome::Scrollback {
                    viewport_changed: after.scroll_offset != before.scroll_offset,
                },
            )
        },
        MouseWheelRoute::AlternateScroll { application_cursor_keys } => {
            &&& after == before
            &&& plan.sends(
                alternate_scroll_bytes(steps, application_cursor_keys),
                KeyboardInputOutcome::Forwarded { viewport_changed: false },
            )
        },
        MouseWheelRoute::Terminal(encoding) => {
            &&& after == before
            &&& match crate::window::geometry::grid_dimensions(
                before.cols(),
                before.rows(),
            ) {
                Err(error) => plan == InputPlan::Failed(error),
                Ok(terminal) => match located_cell(location, terminal) {
                    None => plan == InputPlan::Done(ignored()),
                    Some(cell) => plan.sends(
                        repeated(
                            mouse_bytes(
                                modified_button(
                                    if steps > 0 { 64u8 } else { 65u8 },
                                    modifiers.shift,
                                    modifiers.alt,
                                    modifiers.control,
                                ),
                                cell.0,
                                cell.1,
                                true,
                                encoding,
                            ),
                            step_count(steps),
                        ),
                        KeyboardInputOutcome::Forwarded { viewport_changed: false },
                    ),
                },
            }
        },
    }
}

/// Decide on a wheel turn of whole lines, upwards where `steps` is positive.
pub fn dispatch_mouse_wheel(
    grid: &mut Grid,
    location: Option<PointerLocation>,
    steps: i32,
    modifiers: Modifiers,
) -> (r: InputPlan)
    requires
        old(grid).wf(),
    ensures
        final(grid).wf(),
        wheel_plan(r, location, steps, modifiers, old(grid)@, final(grid)@),
{
    let ignore: KeyboardInputOutcome = KeyboardInputOutcome::Ignored { viewport_changed: false };
    if steps == 0 {
        return InputPlan::Done(ignore);
    }
    let forwarded: KeyboardInputOutcome = KeyboardInputOutcome::Forwarded {
        viewport_changed: false,
    };
    match mouse_wheel_route(grid) {
        MouseWheelRoute::Scrollback => {
            let viewport_changed: bool = apply_wheel_scrollback(grid, steps);
            InputPlan::Done(KeyboardInputOutcome::Scrollback { viewport_changed })
        },
        MouseWheelRoute::AlternateScroll { application_cursor_keys } => InputPlan::Send {
            bytes: encode_alternate_scroll_steps(steps, application_cursor_keys),
            outcome: forwarded,
        },
        MouseWheelRoute::Terminal(encoding) => {
            let terminal: TerminalDimensions =
                match crate::window::geometry::terminal_dimensions_from_locked_grid(grid) {
                Ok(terminal) => terminal,
                Err(error) => {
                    return InputPlan::Failed(error);
                },
            };
            let cell: Option<(usize, usize)> = match location {
                Some(place) => terminal_cell_at_pointer(
                    place.x,
                    place.y,
                    place.cell_dimensions,
                    terminal,
                ),
                None => None,
            };
            match cell {
                None => InputPlan::Done(ignore),
                Some(cell) => {
                    let button: u8 = if steps > 0 { MOUSE_WHEEL_UP } else { MOUSE_WHEEL_DOWN };
                    let report: Vec<u8> = encode_mouse_event(
                        mouse_button_with_modifiers(button, modifiers),
                        cell.0,
                        cell.1,
                        true,
                        encoding,
                    );
                    InputPlan::Send {
                        bytes: repeat_bytes(&report, count_steps(steps)),
                        outcome: forwarded,
                    }
                },
            }
        },
    }
}

/// The cell of a pointer whose location is known.
pub open spec fn located_cell(
    location: Option<PointerLocation>,
    terminal: TerminalDimensions,
) -> Option<(int, int)> {
    match location {
        Some(place) => cell_at(place.x, place.y, place.cell_dimensions, terminal),
        None => None,
    }
}

/// The report of a focus change.
pub open spec fn focus_bytes(focused: bool) -> Seq<u8> {
    seq![27u8, 91, if focused { 73u8 } else { 79u8 }]
}

pub fn focus_report_bytes(focused: bool) -> (r: Vec<u8>)
    ensures
        r@ == focus_bytes(focused),
{
    let bytes: Vec<u8> = vec![0x1b, 0x5b, if focused { 0x49 } else { 0x4f }];
    proof {
        assert(bytes@ =~= focus_bytes(focused));
    }
    bytes
}

/// Note the focus of the window; the result tells whether it changed.
pub fn record_window_focus_change(last_window_focus: &mut Option<bool>, focused: bool) -> (r: bool)
    ensures
        *final(last_window_focus) == Some(focused),
        r == (*old(last_window_focus) != Some(focused)),
{
    let same: bool = match *last_window_focus {
        Some(last) => last == focused,
        None => false,
    };
    *last_window_focus = Some(focused);
    !same
}

/// The plan for a change of focus.
pub open spec fn focus_plan(plan: InputPlan, grid: GridView, focused: bool) -> bool {
    &&& grid.modes.focus_events ==> plan.sends(
        focus_bytes(focused),
        KeyboardInputOutcome::Forwarded { viewport_changed: false },
    )
    &&& !grid.modes.focus_events ==> plan == InputPlan::Done(ignored())
}

/// The program is told of the focus if it asked for that.
pub fn dispatch_focus_event(grid: &Grid, focused: bool) -> (r: InputPlan)
    ensures
        focus_plan(r, grid@, focused),
{
    if !grid.modes.focus_events {
        return InputPlan::Done(KeyboardInputOutcome::Ignored { viewport_changed: false });
    }
    InputPlan::Send {
        bytes: focus_report_bytes(focused),
        outcome: KeyboardInputOutcome::Forwarded { viewport_changed: false },
    }
}

/// Modifiers are forgotten when the window loses the focus, since their release
/// will not be seen.
pub fn modifiers_after_focus_change(current: Modifiers, focused: bool) -> (r: Modifiers)
    ensures
        r == if focused {
            current
        } else {
            Modifiers { shift: false, control: false, alt: false, super_key: false }
        },
{
    if focused {
        current
    } else {
        Modifiers::new(false, false, false, false)
    }
}

} // verus!
