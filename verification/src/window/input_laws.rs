//! What keys, pointers and the focus come to.
use crate::grid::terminal::{GridView, MouseTracking};
use crate::input::keyboard::{key_bytes, TerminalKey};
use crate::input::linux::{press_bytes, LinuxKeyPress, Modifiers, ScrollbackAction};
use crate::input::mouse::{modified_button, mouse_bytes};
use crate::window::dispatch::{
    button_code, button_plan, cell_at, dragged_cell, focus_plan, input_result, key_plan,
    motion_button, motion_plan, motion_result, repeated, sent_plan, settled, step_count, turned,
    turning, wheel_plan, wheel_route, ButtonPlan, InputPlan, KeyboardInputError,
    KeyboardInputOutcome, MotionChange, MotionPlan, MouseButton, PointerLocation,
    TerminalWriteQueueError, WheelPhase,
};
use crate::window::geometry::{GridAccessError, TerminalDimensions};
use crate::window::pointer::{
    button_bit, lemma_without_button, Coordinate, DeviceId, MouseMotionDispatchOutcome,
    MouseMotionState, MouseWheelRoute, MouseWheelState, PointerView, Position,
};
use vstd::prelude::*;

verus! {

/// The viewport moves by as many lines as asked for, up to the oldest line and
/// down to the screen.
pub proof fn law_viewport_steps(grid: GridView, lines: int)
    requires
        0 <= lines,
        0 <= grid.scroll_offset <= grid.history.rows.len(),
    ensures
        ({
            let oldest = grid.history.rows.len();
            let at = grid.scroll_offset;
            &&& at + lines <= oldest ==> grid.viewport_up(lines).scroll_offset == at + lines
            &&& at + lines > oldest ==> grid.viewport_up(lines).scroll_offset == oldest
            &&& lines <= at ==> grid.viewport_down(lines).scroll_offset == at - lines
            &&& lines > at ==> grid.viewport_down(lines).scroll_offset == 0
            &&& grid.viewport_home().scroll_offset == 0
            &&& at == 0 ==> grid.viewport_home() == grid
            &&& grid.viewport_up(lines).screen == grid.screen
            &&& grid.viewport_down(lines).screen == grid.screen
            &&& grid.viewport_home().screen == grid.screen
            &&& grid.viewport_up(lines).history == grid.history
            &&& grid.viewport_down(lines).history == grid.history
        }),
{
}

/// A page is one row less than the screen, at least one; the other keys go to
/// the oldest line and back to the screen.
pub proof fn law_scrollback_actions(grid: GridView)
    requires
        grid.valid(),
        0 <= grid.scroll_offset <= grid.history.rows.len(),
    ensures
        ({
            let rows = grid.screen.rows.len();
            let page = if rows >= 2 { rows - 1 } else { 1 };
            let at = grid.scroll_offset;
            let oldest = grid.history.rows.len();
            let up = grid.scrollback_moved(ScrollbackAction::PageUp).scroll_offset;
            let down = grid.scrollback_moved(ScrollbackAction::PageDown).scroll_offset;
            &&& at + page <= oldest ==> up == at + page
            &&& at + page > oldest ==> up == oldest
            &&& at >= page ==> down == at - page
            &&& at < page ==> down == 0
            &&& grid.scrollback_moved(ScrollbackAction::Top).scroll_offset == oldest
            &&& grid.scrollback_moved(ScrollbackAction::Bottom).scroll_offset == 0
        }),
{
}

/// Input that is sent returns the viewport to the screen, and says whether it
/// moved; where nothing is sent, nothing moves.
pub proof fn law_sent_input(plan: InputPlan, bytes: Option<Seq<u8>>, before: GridView, after: GridView)
    requires
        sent_plan(plan, bytes, before, after),
    ensures
        bytes is None ==> after == before && plan is Done,
        bytes is Some ==> after.scroll_offset == 0 && match plan {
            InputPlan::Send { bytes: sent, outcome } => sent@ == bytes->0 && outcome
                == KeyboardInputOutcome::Forwarded {
                viewport_changed: before.scroll_offset != 0,
            },
            _ => false,
        },
        after.screen == before.screen,
        after.history == before.history,
{
}

/// A key that scrolls is not sent, and one that is sent does so as the cursor
/// mode of the program asks.
pub proof fn law_key_input(
    plan: InputPlan,
    action: Option<ScrollbackAction>,
    press: Option<LinuxKeyPress<'_>>,
    before: GridView,
    after: GridView,
)
    requires
        key_plan(plan, action, press, before, after),
    ensures
        action is Some ==> !(plan is Send) && after.scroll_offset == before.scrollback_moved(
            action->0,
        ).scroll_offset,
        action is Some ==> plan == InputPlan::Done(
            KeyboardInputOutcome::Scrollback {
                viewport_changed: after.scroll_offset != before.scroll_offset,
            },
        ),
        action is None && press is None ==> plan is Done && after == before,
        action is None && press is Some ==> match press_bytes(
            press->0,
            before.modes.application_cursor_keys,
        ) {
            Some(bytes) => plan is Send && plan->bytes@ == bytes && after.scroll_offset == 0,
            None => plan is Done && after == before,
        },
{
}

/// A pointer is in the cell, counted from one, whose pixels it is over; beyond
/// the last cell it counts as in that. A place that is no number has no cell.
pub proof fn law_pointer_cells(x: u64, y: u64, cell: (u16, u16), terminal: TerminalDimensions)
    requires
        cell.0 > 0,
        cell.1 > 0,
        terminal.columns > 0,
        terminal.rows > 0,
    ensures
        ({
            let found = cell_at(Coordinate::At(x), Coordinate::At(y), cell, terminal);
            let (column, row) = found->0;
            &&& found is Some
            &&& 1 <= column <= terminal.columns
            &&& 1 <= row <= terminal.rows
            &&& (column - 1) * cell.0 <= x
            &&& column < terminal.columns ==> x < column * cell.0
            &&& (row - 1) * cell.1 <= y
            &&& row < terminal.rows ==> y < row * cell.1
        }),
        forall|other: Coordinate|
            !(other is At) ==> (#[trigger] cell_at(
                other,
                Coordinate::At(y),
                cell,
                terminal,
            )) is None,
{
    lemma_cell_under(x as int, cell.0 as int, terminal.columns as int);
    lemma_cell_under(y as int, cell.1 as int, terminal.rows as int);
}

proof fn lemma_cell_under(x: int, cell: int, count: int)
    requires
        0 <= x,
        0 < cell,
        0 < count,
    ensures
        ({
            let at = if x / cell < count - 1 { x / cell } else { count - 1 };
            &&& 0 <= at < count
            &&& at * cell <= x
            &&& at + 1 < count ==> x < (at + 1) * cell
        }),
{
    let whole = x / cell;
    let at = if whole < count - 1 { whole } else { count - 1 };
    vstd::arithmetic::div_mod::lemma_fundamental_div_mod(x, cell);
    vstd::arithmetic::div_mod::lemma_mod_bound(x, cell);
    vstd::arithmetic::div_mod::lemma_div_pos_is_pos(x, cell);
    assert(at <= whole ==> at * cell <= cell * whole) by (nonlinear_arith)
        requires
            0 < cell,
    ;
    assert(at == whole ==> (at + 1) * cell == cell * whole + cell) by (nonlinear_arith);
}

/// A drag that leaves the window upwards or to the left counts at its edge; a
/// free pointer there is in no cell.
pub proof fn law_dragged_pointers(x: Coordinate, y: Coordinate, cell: (u16, u16), terminal: TerminalDimensions)
    ensures
        ({
            let in_x = if x == Coordinate::Negative { Coordinate::At(0) } else { x };
            let in_y = if y == Coordinate::Negative { Coordinate::At(0) } else { y };
            &&& dragged_cell(x, y, cell, terminal, false) == cell_at(x, y, cell, terminal)
            &&& x != Coordinate::NotFinite && y != Coordinate::NotFinite ==> dragged_cell(
                x,
                y,
                cell,
                terminal,
                true,
            ) == cell_at(in_x, in_y, cell, terminal)
            &&& x == Coordinate::NotFinite || y == Coordinate::NotFinite ==> dragged_cell(
                x,
                y,
                cell,
                terminal,
                true,
            ) is None
        }),
{
}

/// The left button has code zero, the middle one code one, the right one code
/// two, and the others are not told.
pub proof fn law_button_codes(button: MouseButton)
    ensures
        button_code(button) == Some(0u8) <==> button == MouseButton::Left,
        button_code(button) == Some(1u8) <==> button == MouseButton::Middle,
        button_code(button) == Some(2u8) <==> button == MouseButton::Right,
        button_code(button) is Some ==> button_code(button)->0 <= 2,
{
}

/// A button event is sent to a program that tracks the pointer, with the cell
/// and the modifiers, and to no other. Its cell is followed either way.
pub proof fn law_button_events(
    plan: ButtonPlan,
    grid: GridView,
    place: PointerLocation,
    pressed: bool,
    button: MouseButton,
    held: Modifiers,
    cell: (usize, usize),
)
    requires
        button_plan(plan, grid, Some(place), pressed, button, held),
        button_code(button) is Some,
        0 < grid.screen.cols <= 65535,
        0 < grid.screen.rows.len() <= 65535,
        dragged_cell(
            place.x,
            place.y,
            place.cell_dimensions,
            TerminalDimensions {
                columns: grid.screen.cols as u16,
                rows: grid.screen.rows.len() as u16,
            },
            !pressed,
        ) == Some((cell.0 as int, cell.1 as int)),
    ensures
        plan.motion == MotionChange::Anchor(cell),
        grid.modes.mouse_tracking == MouseTracking::Off ==> plan.plan is Done,
        grid.modes.mouse_tracking != MouseTracking::Off ==> plan.plan is Send
            && plan.plan->bytes@ == mouse_bytes(
            modified_button(button_code(button)->0, held.shift, held.alt, held.control),
            cell.0 as int,
            cell.1 as int,
            pressed,
            grid.modes.mouse_encoding,
        ),
{
}

/// A button without a code or a place tells the program nothing.
pub proof fn law_unplaced_button_events(
    plan: ButtonPlan,
    grid: GridView,
    location: Option<PointerLocation>,
    pressed: bool,
    button: MouseButton,
    held: Modifiers,
)
    requires
        button_plan(plan, grid, location, pressed, button, held),
    ensures
        button_code(button) is None ==> plan.plan is Done && plan.motion == MotionChange::Keep,
        button_code(button) is Some && location is None ==> plan.plan is Done && plan.motion
            == MotionChange::Reset,
{
}

/// A report that could not be queued leaves the followed cell as it was.
pub proof fn law_followed_cells(motion: MouseMotionState, plan: ButtonPlan, cell: (usize, usize))
    ensures
        plan.plan is Send ==> settled(motion, plan, false) == motion,
        plan.motion == MotionChange::Anchor(cell) ==> settled(motion, plan, true).last_cell == Some(
            cell,
        ),
        plan.motion == MotionChange::Reset ==> settled(motion, plan, true).last_cell is None,
        plan.motion == MotionChange::Keep ==> settled(motion, plan, true) == motion,
{
}

/// A move is told to a program that asks for moves: with the button that is
/// held, or, where all moves are asked for, as a move without one.
pub proof fn law_reported_moves(tracking: MouseTracking, active: Option<u8>)
    ensures
        ({
            let button = motion_button(tracking, active);
            &&& tracking == MouseTracking::Off || tracking == MouseTracking::Normal ==> button is None
            &&& tracking == MouseTracking::ButtonEvent ==> button == active
            &&& tracking == MouseTracking::AnyEvent && active is Some ==> button == active
            &&& tracking == MouseTracking::AnyEvent && active is None ==> button == Some(3u8)
        }),
{
}

/// A move within a cell is told once; a move into another cell is a press with
/// the bit of 32 set, or is only remembered where it is not told.
pub proof fn law_pointer_moves(
    plan: MotionPlan,
    grid: GridView,
    place: PointerLocation,
    active: Option<u8>,
    held: Modifiers,
    last: Option<(usize, usize)>,
    cell: (usize, usize),
)
    requires
        motion_plan(plan, grid, Some(place), active, held, last),
        0 < grid.screen.cols <= 65535,
        0 < grid.screen.rows.len() <= 65535,
        dragged_cell(
            place.x,
            place.y,
            place.cell_dimensions,
            TerminalDimensions {
                columns: grid.screen.cols as u16,
                rows: grid.screen.rows.len() as u16,
            },
            active is Some,
        ) == Some((cell.0 as int, cell.1 as int)),
    ensures
        last == Some(cell) ==> plan == MotionPlan::Done(MouseMotionDispatchOutcome::Deduplicated),
        last != Some(cell) && motion_button(grid.modes.mouse_tracking, active) is None ==> plan
            == MotionPlan::Done(MouseMotionDispatchOutcome::Observed(cell)),
        last != Some(cell) && motion_button(grid.modes.mouse_tracking, active) is Some ==> ({
            let button = motion_button(grid.modes.mouse_tracking, active)->0;
            &&& plan is Send
            &&& plan->cell == cell
            &&& plan->bytes@ == mouse_bytes(
                modified_button(button | 0x20u8, held.shift, held.alt, held.control),
                cell.0 as int,
                cell.1 as int,
                true,
                grid.modes.mouse_encoding,
            )
        }),
{
}

/// What came of a move: a full queue drops it, a closed one ends the terminal.
/// Only a move that was told or seen is remembered.
pub proof fn law_move_outcomes(
    bytes: Vec<u8>,
    cell: (usize, usize),
    outcome: MouseMotionDispatchOutcome,
    motion: MouseMotionState,
)
    ensures
        motion_result(MotionPlan::Send { bytes, cell }, Ok(())) == Ok::<
            MouseMotionDispatchOutcome,
            KeyboardInputError,
        >(MouseMotionDispatchOutcome::Enqueued(cell)),
        motion_result(MotionPlan::Send { bytes, cell }, Err(TerminalWriteQueueError::Full)) == Ok::<
            MouseMotionDispatchOutcome,
            KeyboardInputError,
        >(MouseMotionDispatchOutcome::DroppedFull),
        motion_result(
            MotionPlan::Send { bytes, cell },
            Err(TerminalWriteQueueError::Disconnected),
        ) is Err,
        motion_result(MotionPlan::Done(outcome), Ok(())) == Ok::<
            MouseMotionDispatchOutcome,
            KeyboardInputError,
        >(outcome),
        motion.after(MouseMotionDispatchOutcome::Enqueued(cell)).last_cell == Some(cell),
        motion.after(MouseMotionDispatchOutcome::Observed(cell)).last_cell == Some(cell),
        motion.after(MouseMotionDispatchOutcome::DroppedFull) == motion,
        motion.after(MouseMotionDispatchOutcome::Deduplicated) == motion,
        motion.after(MouseMotionDispatchOutcome::Ignored) == motion,
{
}

/// What came of input: what was planned, unless it could not be queued.
pub proof fn law_input_outcomes(
    bytes: Vec<u8>,
    outcome: KeyboardInputOutcome,
    error: TerminalWriteQueueError,
    lost: GridAccessError,
    queued: Result<(), TerminalWriteQueueError>,
)
    ensures
        input_result(InputPlan::Send { bytes, outcome }, Ok(())) == Ok::<
            KeyboardInputOutcome,
            KeyboardInputError,
        >(outcome),
        input_result(InputPlan::Send { bytes, outcome }, Err(error)) == Err::<
            KeyboardInputOutcome,
            KeyboardInputError,
        >(KeyboardInputError::Queue(error)),
        input_result(InputPlan::Done(outcome), queued) == Ok::<
            KeyboardInputOutcome,
            KeyboardInputError,
        >(outcome),
        input_result(InputPlan::Failed(lost), queued) == Err::<
            KeyboardInputOutcome,
            KeyboardInputError,
        >(KeyboardInputError::Grid(lost)),
{
}

/// The wheel goes to a program that tracks the pointer; else, on the alternate
/// screen with its scroll mode, it becomes cursor keys; else it scrolls the
/// history.
pub proof fn law_wheel_routes(grid: GridView)
    ensures
        ({
            let route = wheel_route(grid);
            let reports = grid.modes.mouse_tracking != MouseTracking::Off;
            let keys = grid.using_alt_screen && grid.modes.alternate_scroll;
            &&& reports ==> route == MouseWheelRoute::Terminal(grid.modes.mouse_encoding)
            &&& !reports && keys ==> route == MouseWheelRoute::AlternateScroll {
                application_cursor_keys: grid.modes.application_cursor_keys,
            }
            &&& !reports && !keys ==> route == MouseWheelRoute::Scrollback
        }),
{
}

/// A turn counts its lines in either direction, up to 32.
pub proof fn law_wheel_lines(steps: i32)
    ensures
        0 <= steps <= 32 ==> step_count(steps) == steps,
        -32 <= steps <= 0 ==> step_count(steps) == -steps,
        steps > 32 || steps < -32 ==> step_count(steps) == 32,
{
}

/// A string sent several times over.
pub proof fn law_repeated(bytes: Seq<u8>, count: int)
    requires
        0 <= count,
    ensures
        repeated(bytes, count).len() == count * bytes.len(),
        forall|i: int, k: int|
            #![trigger repeated(bytes, count)[i * bytes.len() + k]]
            0 <= i < count && 0 <= k < bytes.len() ==> repeated(bytes, count)[i * bytes.len() + k]
                == bytes[k],
    decreases count,
{
    if count > 0 {
        law_repeated(bytes, count - 1);
        let before = repeated(bytes, count - 1);
        let n = bytes.len() as int;
        assert(count * n == (count - 1) * n + n) by (nonlinear_arith);
        assert forall|i: int, k: int|
            #![trigger repeated(bytes, count)[i * bytes.len() + k]]
            0 <= i < count && 0 <= k < n implies repeated(bytes, count)[i * bytes.len() + k]
            == bytes[k] by {
            if i < count - 1 {
                assert(i * n + n <= (count - 1) * n) by (nonlinear_arith)
                    requires
                        i + 1 <= count - 1,
                        0 <= n,
                ;
                assert(0 <= i * n) by (nonlinear_arith)
                    requires
                        0 <= i,
                        0 <= n,
                ;
                assert(before[i * bytes.len() + k] == bytes[k]);
            }
        }
    } else {
        assert(0 * bytes.len() == 0);
        assert(count * bytes.len() == 0) by (nonlinear_arith)
            requires
                count == 0,
        ;
    }
}

/// A turn of the wheel: the history moves by its lines, or a program gets one
/// cursor key or one report for each of them. Upwards is the code 64, downwards
/// 65.
pub proof fn law_wheel_turns(
    plan: InputPlan,
    location: Option<PointerLocation>,
    steps: i32,
    held: Modifiers,
    before: GridView,
    after: GridView,
)
    requires
        wheel_plan(plan, location, steps, held, before, after),
        0 <= before.scroll_offset <= before.history.rows.len(),
    ensures
        steps == 0 ==> plan is Done && after == before,
        steps != 0 && wheel_route(before) == MouseWheelRoute::Scrollback ==> {
            let lines = step_count(steps);
            let at = before.scroll_offset;
            let oldest = before.history.rows.len();
            &&& plan is Done
            &&& steps > 0 && at + lines <= oldest ==> after.scroll_offset == at + lines
            &&& steps > 0 && at + lines > oldest ==> after.scroll_offset == oldest
            &&& steps < 0 && lines <= at ==> after.scroll_offset == at - lines
            &&& steps < 0 && lines > at ==> after.scroll_offset == 0
        },
        steps != 0 && wheel_route(before) != MouseWheelRoute::Scrollback ==> after == before,
        steps != 0 && before.modes.mouse_tracking == MouseTracking::Off && before.using_alt_screen
            && before.modes.alternate_scroll ==> plan is Send && plan->bytes@ == repeated(
            key_bytes(
                if steps > 0 {
                    TerminalKey::Up
                } else {
                    TerminalKey::Down
                },
                before.modes.application_cursor_keys,
            )->0,
            step_count(steps),
        ),
        steps != 0 && before.modes.mouse_tracking != MouseTracking::Off && location is Some
            && before.screen.cols <= 65535 && before.screen.rows.len() <= 65535 ==> match cell_at(
            location->0.x,
            location->0.y,
            location->0.cell_dimensions,
            TerminalDimensions {
                columns: before.screen.cols as u16,
                rows: before.screen.rows.len() as u16,
            },
        ) {
            Some((column, row)) => plan is Send && plan->bytes@ == repeated(
                mouse_bytes(
                    modified_button(
                        if steps > 0 {
                            64u8
                        } else {
                            65u8
                        },
                        held.shift,
                        held.alt,
                        held.control,
                    ),
                    column,
                    row,
                    true,
                    before.modes.mouse_encoding,
                ),
                step_count(steps),
            ),
            None => plan is Done,
        },
{
}

/// What is left of a turn goes on with the same gesture on the same route alone.
pub proof fn law_wheel_remainders<F>(
    state: MouseWheelState<F>,
    route: MouseWheelRoute,
    phase: WheelPhase,
)
    ensures
        turning(state, route, phase).last_route == Some(route),
        state.last_route == Some(route) && phase != WheelPhase::Started ==> turning(
            state,
            route,
            phase,
        ).line_remainder == state.line_remainder,
        state.last_route != Some(route) || phase == WheelPhase::Started ==> turning(
            state,
            route,
            phase,
        ).line_remainder is None,
        phase == WheelPhase::Ended || phase == WheelPhase::Cancelled ==> turned(
            state,
            phase,
        ).line_remainder is None,
        phase == WheelPhase::Started || phase == WheelPhase::Moved ==> turned(state, phase)
            == state,
{
}

/// A change of the focus is told, `ESC [ I` or `ESC [ O`, to a program that asks
/// for it.
pub proof fn law_focus_reports(plan: InputPlan, grid: GridView, focused: bool)
    requires
        focus_plan(plan, grid, focused),
    ensures
        !grid.modes.focus_events ==> plan is Done,
        grid.modes.focus_events ==> plan is Send && plan->bytes@.len() == 3 && plan->bytes@[0]
            == 0x1b && plan->bytes@[1] == 0x5b && (focused ==> plan->bytes@[2] == 0x49) && (
        !focused ==> plan->bytes@[2] == 0x4f),
{
}

/// A pointer becomes the followed one by a move, and with it its place; a new
/// one starts without buttons.
pub proof fn law_followed_pointers<F>(state: PointerView<F>, device: DeviceId, position: Position)
    ensures
        ({
            let free = state.held.len() == 0 && state.forwarded == 0;
            let mine = state.active_device == Some(device);
            let moved = state.moved(device, position);
            &&& mine || free ==> moved.active_device == Some(device) && moved.position == Some(
                position,
            ) && !moved.position_uses_captured_metrics
            &&& mine ==> moved.held == state.held && moved.forwarded == state.forwarded
                && moved.motion_state == state.motion_state && moved.wheel_state
                == state.wheel_state
            &&& !mine && free ==> moved.held.len() == 0 && moved.motion_state.last_cell is None
                && moved.wheel_state.line_remainder is None
            &&& !mine && !free ==> moved == state
        }),
{
}

/// A pointer that leaves is forgotten, unless a button of it is down: then it is
/// followed on until that comes up.
pub proof fn law_leaving_pointers<F>(state: PointerView<F>, device: DeviceId)
    ensures
        ({
            let left = state.left(device);
            let mine = state.active_device == Some(device);
            let free = state.held.len() == 0 && state.forwarded == 0;
            &&& !mine ==> left == state
            &&& mine && free ==> left.active_device is None && left.position is None
            &&& mine && !free ==> left.active_device == Some(device) && left.held == state.held
                && left.forwarded == state.forwarded && left.left_while_captured
                && left.motion_state.last_cell is None && left.position == state.position
        }),
        ({
            let entered = state.entered(device);
            state.active_device == Some(device) ==> entered == (PointerView {
                left_while_captured: false,
                ..state
            })
        }),
{
}

/// The held buttons are those that went down and did not come up, and a move is
/// told with the one that went down last.
pub proof fn law_held_buttons<F>(state: PointerView<F>, device: DeviceId, button: u8, other: u8)
    requires
        state.active_device == Some(device),
        button <= 2,
        other != button,
    ensures
        ({
            let down = state.button_event(device, true, Some(button));
            let up = state.button_event(device, false, Some(button));
            &&& down.held.contains(button)
            &&& down.motion_button() == Some(button)
            &&& down.held.contains(other) == state.held.contains(other)
            &&& !up.held.contains(button)
            &&& up.held.contains(other) == state.held.contains(other)
            &&& up.held.len() > 0 ==> up.motion_button() == Some(up.held.last())
            &&& up.held.len() == 0 ==> up.motion_button() is None
            &&& down.forwarded == state.forwarded
            &&& up.forwarded == state.forwarded
        }),
        state.button_event(device, true, None) == state,
        state.button_event(device, false, None) == state,
{
    lemma_without_button(state.held, button);
    let kept = crate::window::pointer::without_button(state.held, button);
    let pressed = kept.push(button);
    assert(pressed[pressed.len() - 1] == button);
    if kept.contains(other) {
        let i = kept.index_of(other);
        assert(pressed[i] == other);
    }
    if pressed.contains(other) {
        let i = pressed.index_of(other);
        assert(kept[i] == other);
    }
}

/// The bits of the three buttons differ.
pub proof fn law_button_bits(one: u8, other: u8)
    requires
        one <= 2,
        other <= 2,
    ensures
        one != other ==> button_bit(one) != button_bit(other),
        button_bit(one) != 0,
        button_bit(0) == 1,
        button_bit(1) == 2,
        button_bit(2) == 4,
{
}

/// A press that the program was told of captures the pointer in the size of cell
/// that it was made in; with the release of the last one the pointer is free
/// again, and forgotten if it has left.
pub proof fn law_told_presses<F>(
    state: PointerView<F>,
    device: DeviceId,
    button: u8,
    cell: Option<(u16, u16)>,
)
    requires
        state.active_device == Some(device),
        button <= 2,
    ensures
        ({
            let told = state.button_handled(device, true, Some(button), true, cell);
            let untold = state.button_handled(device, true, Some(button), false, cell);
            let released = state.button_handled(device, false, Some(button), true, cell);
            &&& untold == state
            &&& told.captured_cell_dimensions == cell
            &&& told.forwarded == state.forwarded | button_bit(button)
            &&& told.held == state.held
            &&& state.held.len() == 0 && state.forwarded == button_bit(button) ==> {
                &&& released.forwarded == 0
                &&& released.captured_cell_dimensions is None
                &&& state.left_while_captured ==> released.active_device is None
                &&& !state.left_while_captured ==> released.active_device == Some(device)
                &&& !state.left_while_captured && !state.position_uses_captured_metrics
                    ==> released.position == state.position
                &&& state.position_uses_captured_metrics ==> released.position is None
            }
        }),
{
    let bit = button_bit(button);
    assert(bit & !bit == 0) by (bit_vector);
}


/// A pointer without a place or outside every cell moves nothing: a move there
/// is ignored, and a button there is ignored and forgets the followed cell.
pub proof fn law_pointers_outside(
    motion: MotionPlan,
    button: ButtonPlan,
    grid: GridView,
    location: Option<PointerLocation>,
    pressed: bool,
    which: MouseButton,
    active: Option<u8>,
    held: Modifiers,
    last: Option<(usize, usize)>,
)
    requires
        motion_plan(motion, grid, location, active, held, last),
        button_plan(button, grid, location, pressed, which, held),
        button_code(which) is Some,
        0 < grid.screen.cols <= 65535,
        0 < grid.screen.rows.len() <= 65535,
    ensures
        ({
            let terminal = TerminalDimensions {
                columns: grid.screen.cols as u16,
                rows: grid.screen.rows.len() as u16,
            };
            let place = location->0;
            &&& location is None || dragged_cell(
                place.x,
                place.y,
                place.cell_dimensions,
                terminal,
                active is Some,
            ) is None ==> motion == MotionPlan::Done(MouseMotionDispatchOutcome::Ignored)
            &&& location is None || dragged_cell(
                place.x,
                place.y,
                place.cell_dimensions,
                terminal,
                !pressed,
            ) is None ==> button.plan == InputPlan::Done(
                KeyboardInputOutcome::Ignored { viewport_changed: false },
            ) && button.motion == MotionChange::Reset
        }),
{
}

/// Where a screen is too large to be told, pointers fail with its size.
pub proof fn law_untold_screens(
    motion: MotionPlan,
    button: ButtonPlan,
    grid: GridView,
    place: PointerLocation,
    pressed: bool,
    which: MouseButton,
    active: Option<u8>,
    held: Modifiers,
    last: Option<(usize, usize)>,
)
    requires
        motion_plan(motion, grid, Some(place), active, held, last),
        button_plan(button, grid, Some(place), pressed, which, held),
        button_code(which) is Some,
        grid.screen.cols > 65535 || grid.screen.rows.len() > 65535,
    ensures
        motion is Failed,
        button.plan is Failed,
        button.motion == MotionChange::Keep,
{
}

} // verus!
