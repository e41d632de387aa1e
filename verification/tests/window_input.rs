//! Keys, pointers and wheels of the window, as far as they reach the program.
use kokuban::grid::{Grid, MouseEncoding, MouseTracking};
use kokuban::input::linux::{Modifiers, ScrollbackAction};
use kokuban::input::mouse::MOUSE_WHEEL_UP;
use kokuban::window::dispatch::{
    apply_scrollback_action, begin_wheel, dispatch_encoded_terminal_input, dispatch_focus_event,
    dispatch_keyboard_input, dispatch_mouse_button, dispatch_mouse_motion, dispatch_mouse_wheel,
    end_wheel, finish_input, finish_motion, focus_report_bytes, modifiers_after_focus_change,
    mouse_button_code, mouse_button_with_modifiers, mouse_wheel_route,
    record_window_focus_change, settle_motion, InputPlan, KeyboardInputError,
    KeyboardInputOutcome, MotionPlan, MouseButton, PointerLocation, TerminalWriteQueueError,
    WheelPhase, MAX_WHEEL_STEPS_PER_EVENT,
};
use kokuban::window::geometry::TerminalDimensions;
use kokuban::window::pointer::{
    Coordinate, MouseMotionDispatchOutcome, MouseMotionState, MouseWheelRoute, MouseWheelState,
    PointerRouteState, Position,
};
use kokuban::window::preedit::{ime_commit_payload, ImeCommitPayload};
use std::cell::RefCell;
use std::sync::atomic::{AtomicUsize, Ordering};
use std::sync::Mutex;

const SHIFT: u8 = 1;
const CONTROL: u8 = 2;
const ALT: u8 = 4;
const SUPER: u8 = 8;

fn keys(held: u8) -> Modifiers {
    Modifiers::new(
        held & SHIFT != 0,
        held & CONTROL != 0,
        held & ALT != 0,
        held & SUPER != 0,
    )
}

fn coordinate(value: f64) -> Coordinate {
    if !value.is_finite() {
        Coordinate::NotFinite
    } else if value < 0.0 {
        Coordinate::Negative
    } else {
        Coordinate::At(value as u64)
    }
}

fn at(x: f64, y: f64) -> Position {
    (coordinate(x), coordinate(y))
}

fn location(position: Option<Position>, cell: Option<(u16, u16)>) -> Option<PointerLocation> {
    let (x, y) = position?;
    Some(PointerLocation { x, y, cell_dimensions: cell? })
}

fn no_wheel() -> MouseWheelState<f64> {
    MouseWheelState { line_remainder: None, last_route: None }
}

fn terminal_cell_at_pointer(
    position: Position,
    cell: (u16, u16),
    terminal: TerminalDimensions,
) -> Option<(usize, usize)> {
    kokuban::window::dispatch::terminal_cell_at_pointer(position.0, position.1, cell, terminal)
}

fn grid_with_scrollback(rows: usize, history_lines: usize) -> Grid {
    let mut grid = Grid::new(8, rows, history_lines + rows);
    grid.cursor_row = rows - 1;
    for _ in 0..history_lines {
        grid.newline();
    }
    assert_eq!(grid.scrollback_len(), history_lines);
    grid
}

// Queue the bytes of a plan.
fn carry_out<W>(plan: InputPlan, write: W) -> Result<KeyboardInputOutcome, KeyboardInputError>
where
    W: FnOnce(Vec<u8>) -> Result<(), TerminalWriteQueueError>,
{
    let queued = match &plan {
        InputPlan::Send { bytes, .. } => write(bytes.clone()),
        _ => Ok(()),
    };
    finish_input(&plan, queued)
}

fn dispatch_encoded_terminal_input_with<W>(
    grid: &Mutex<Grid>,
    bytes: Option<Vec<u8>>,
    write: W,
) -> Result<KeyboardInputOutcome, KeyboardInputError>
where
    W: FnOnce(Vec<u8>) -> Result<(), TerminalWriteQueueError>,
{
    let plan = dispatch_encoded_terminal_input(&mut grid.lock().unwrap(), bytes);
    carry_out(plan, write)
}

fn dispatch_keyboard_input_with<E, W>(
    grid: &Mutex<Grid>,
    action: Option<ScrollbackAction>,
    encode: E,
    write: W,
) -> Result<KeyboardInputOutcome, KeyboardInputError>
where
    E: FnOnce(bool) -> Option<Vec<u8>>,
    W: FnOnce(Vec<u8>) -> Result<(), TerminalWriteQueueError>,
{
    if action.is_some() {
        let plan = dispatch_keyboard_input(&mut grid.lock().unwrap(), action, None);
        return carry_out(plan, write);
    }
    let application = grid.lock().unwrap().modes.application_cursor_keys;
    dispatch_encoded_terminal_input_with(grid, encode(application), write)
}

fn dispatch_focus_event_with<W>(
    grid: &Mutex<Grid>,
    focused: bool,
    write: W,
) -> Result<KeyboardInputOutcome, KeyboardInputError>
where
    W: FnOnce(Vec<u8>) -> Result<(), TerminalWriteQueueError>,
{
    let plan = dispatch_focus_event(&grid.lock().unwrap(), focused);
    carry_out(plan, write)
}

fn dispatch_mouse_button_and_motion_with<W>(
    grid: &Mutex<Grid>,
    position: Option<Position>,
    cell: Option<(u16, u16)>,
    pressed: bool,
    button: MouseButton,
    modifiers: Modifiers,
    motion: &mut MouseMotionState,
    write: W,
) -> Result<KeyboardInputOutcome, KeyboardInputError>
where
    W: FnOnce(Vec<u8>) -> Result<(), TerminalWriteQueueError>,
{
    let plan = dispatch_mouse_button(
        &grid.lock().unwrap(),
        location(position, cell),
        pressed,
        button,
        modifiers,
    );
    let queued = match &plan.plan {
        InputPlan::Send { bytes, .. } => write(bytes.clone()),
        _ => Ok(()),
    };
    settle_motion(motion, &plan, queued.is_ok());
    finish_input(&plan.plan, queued)
}

fn dispatch_mouse_button_with<W>(
    grid: &Mutex<Grid>,
    position: Option<Position>,
    cell: Option<(u16, u16)>,
    pressed: bool,
    button: MouseButton,
    modifiers: Modifiers,
    write: W,
) -> Result<KeyboardInputOutcome, KeyboardInputError>
where
    W: FnOnce(Vec<u8>) -> Result<(), TerminalWriteQueueError>,
{
    let mut motion = MouseMotionState { last_cell: None };
    dispatch_mouse_button_and_motion_with(
        grid,
        position,
        cell,
        pressed,
        button,
        modifiers,
        &mut motion,
        write,
    )
}

fn dispatch_mouse_motion_with<W>(
    grid: &Mutex<Grid>,
    position: Position,
    cell: Option<(u16, u16)>,
    active_button: Option<u8>,
    modifiers: Modifiers,
    last_cell: Option<(usize, usize)>,
    write: W,
) -> Result<MouseMotionDispatchOutcome, KeyboardInputError>
where
    W: FnOnce(Vec<u8>) -> Result<(), TerminalWriteQueueError>,
{
    let plan = dispatch_mouse_motion(
        &grid.lock().unwrap(),
        location(Some(position), cell),
        active_button,
        modifiers,
        last_cell,
    );
    let queued = match &plan {
        MotionPlan::Send { bytes, .. } => write(bytes.clone()),
        _ => Ok(()),
    };
    finish_motion(&plan, queued)
}

fn dispatch_mouse_wheel_with<W>(
    grid: &Mutex<Grid>,
    position: Option<Position>,
    cell: Option<(u16, u16)>,
    lines: f64,
    phase: WheelPhase,
    modifiers: Modifiers,
    state: &mut MouseWheelState<f64>,
    write: W,
) -> Result<KeyboardInputOutcome, KeyboardInputError>
where
    W: FnOnce(Vec<u8>) -> Result<(), TerminalWriteQueueError>,
{
    let plan = {
        let mut grid = grid.lock().unwrap();
        begin_wheel(state, mouse_wheel_route(&grid), phase);
        let total = state.line_remainder.unwrap_or(0.0) + lines;
        let limit = f64::from(MAX_WHEEL_STEPS_PER_EVENT);
        let steps = total.trunc().clamp(-limit, limit);
        state.line_remainder = Some(total - steps);
        end_wheel(state, phase);
        dispatch_mouse_wheel(&mut grid, location(position, cell), steps as i32, modifiers)
    };
    carry_out(plan, write)
}

#[test]
fn keyboard_forwarding_releases_the_grid_before_encoding_and_enqueueing() {
    let mut history = grid_with_scrollback(4, 10);
    history.modes.application_cursor_keys = true;
    history.scroll_viewport_up(history.scrollback_len());
    let grid = Mutex::new(history);
    let written = RefCell::new(Vec::new());

    let outcome = dispatch_keyboard_input_with(
        &grid,
        None,
        |application_cursor_keys| {
            assert!(application_cursor_keys);
            assert!(
                grid.try_lock().is_ok(),
                "encoder must run without the Grid lock"
            );
            Some(b"\x1bOA".to_vec())
        },
        |bytes| {
            assert!(
                grid.try_lock().is_ok(),
                "queue enqueue must run without the Grid lock"
            );
            written.borrow_mut().extend_from_slice(&bytes);
            Ok(())
        },
    )
    .expect("fake keyboard write should succeed");

    assert_eq!(
        outcome,
        KeyboardInputOutcome::Forwarded {
            viewport_changed: true,
        }
    );
    assert_eq!(written.into_inner(), b"\x1bOA");
    assert_eq!(
        grid.lock()
            .expect("keyboard dispatch should keep the grid available")
            .scroll_offset,
        0
    );
}

#[test]
fn ime_commit_is_queued_once_as_raw_utf8_outside_the_grid_lock() {
    let mut history = grid_with_scrollback(4, 10);
    history.modes.bracketed_paste = true;
    history.scroll_viewport_up(history.scrollback_len());
    let grid = Mutex::new(history);
    let text = "é日本🙂\0".to_string();
    let expected = text.as_bytes().to_vec();
    let ImeCommitPayload::Bytes(bytes) = ime_commit_payload(text) else {
        panic!("normal IME text should fit the commit budget");
    };
    let writes = RefCell::new(Vec::new());

    let outcome = dispatch_encoded_terminal_input_with(&grid, Some(bytes), |bytes| {
        assert!(
            grid.try_lock().is_ok(),
            "IME enqueue must run without the Grid lock"
        );
        writes.borrow_mut().push(bytes);
        Ok(())
    })
    .expect("fake IME write should succeed");

    assert_eq!(
        outcome,
        KeyboardInputOutcome::Forwarded {
            viewport_changed: true,
        }
    );
    assert_eq!(
        writes.into_inner(),
        vec![expected],
        "IME text must not receive modifier or bracketed-paste framing"
    );
    assert_eq!(
        grid.lock()
            .expect("IME dispatch should keep the grid available")
            .scroll_offset,
        0
    );
}

#[test]
fn scrollback_shortcuts_navigate_locally_without_queueing_input() {
    let grid = Mutex::new(grid_with_scrollback(4, 10));
    let encode_calls = AtomicUsize::new(0);
    let enqueue_calls = AtomicUsize::new(0);
    let dispatch = |action| {
        dispatch_keyboard_input_with(
            &grid,
            Some(action),
            |_| {
                encode_calls.fetch_add(1, Ordering::Relaxed);
                Some(b"trap".to_vec())
            },
            |_| {
                enqueue_calls.fetch_add(1, Ordering::Relaxed);
                Ok(())
            },
        )
        .expect("local scrollback action should succeed")
    };

    assert_eq!(
        dispatch(ScrollbackAction::PageUp),
        KeyboardInputOutcome::Scrollback {
            viewport_changed: true,
        }
    );
    assert_eq!(
        grid.lock()
            .expect("scrollback dispatch should keep the grid available")
            .scroll_offset,
        3
    );
    assert_eq!(
        dispatch(ScrollbackAction::PageUp),
        KeyboardInputOutcome::Scrollback {
            viewport_changed: true,
        }
    );
    assert_eq!(
        grid.lock()
            .expect("scrollback dispatch should keep the grid available")
            .scroll_offset,
        6
    );
    assert_eq!(
        dispatch(ScrollbackAction::PageDown),
        KeyboardInputOutcome::Scrollback {
            viewport_changed: true,
        }
    );
    assert_eq!(
        grid.lock()
            .expect("scrollback dispatch should keep the grid available")
            .scroll_offset,
        3
    );
    assert_eq!(
        dispatch(ScrollbackAction::Top),
        KeyboardInputOutcome::Scrollback {
            viewport_changed: true,
        }
    );
    assert_eq!(
        grid.lock()
            .expect("scrollback dispatch should keep the grid available")
            .scroll_offset,
        10
    );
    assert_eq!(
        dispatch(ScrollbackAction::Top),
        KeyboardInputOutcome::Scrollback {
            viewport_changed: false,
        },
        "a shortcut at its limit must still be consumed"
    );
    assert_eq!(
        dispatch(ScrollbackAction::Bottom),
        KeyboardInputOutcome::Scrollback {
            viewport_changed: true,
        }
    );
    assert_eq!(
        grid.lock()
            .expect("scrollback dispatch should keep the grid available")
            .scroll_offset,
        0
    );
    assert_eq!(encode_calls.load(Ordering::Relaxed), 0);
    assert_eq!(enqueue_calls.load(Ordering::Relaxed), 0);
}

#[test]
fn one_row_scrollback_pages_by_one_line_without_underflow() {
    let mut grid = grid_with_scrollback(1, 3);

    assert!(apply_scrollback_action(&mut grid, ScrollbackAction::PageUp));
    assert_eq!(grid.scroll_offset, 1);
    assert!(apply_scrollback_action(
        &mut grid,
        ScrollbackAction::PageDown
    ));
    assert_eq!(grid.scroll_offset, 0);
}

#[test]
fn mouse_wheel_modifiers_match_xterm_button_bits() {
    for (modifiers, expected) in [
        (keys(0), MOUSE_WHEEL_UP),
        (keys(SUPER), MOUSE_WHEEL_UP),
        (keys(SHIFT), MOUSE_WHEEL_UP | 4),
        (keys(ALT), MOUSE_WHEEL_UP | 8),
        (keys(CONTROL), MOUSE_WHEEL_UP | 16),
        (
            keys(SHIFT | ALT | CONTROL),
            MOUSE_WHEEL_UP | 4 | 8 | 16,
        ),
    ] {
        assert_eq!(
            mouse_button_with_modifiers(MOUSE_WHEEL_UP, modifiers),
            expected
        );
    }
}

#[test]
fn maps_only_primary_winit_mouse_buttons_to_xterm_codes() {
    for (button, expected) in [
        (MouseButton::Left, Some(0)),
        (MouseButton::Middle, Some(1)),
        (MouseButton::Right, Some(2)),
        (MouseButton::Back, None),
        (MouseButton::Forward, None),
        (MouseButton::Other(0), None),
        (MouseButton::Other(u16::MAX), None),
    ] {
        assert_eq!(mouse_button_code(button), expected);
    }
}

#[test]
fn pointer_route_isolates_mouse_button_positions_by_device() {
    let mut history = grid_with_scrollback(4, 10);
    history.modes.mouse_tracking = MouseTracking::Normal;
    history.modes.mouse_encoding = MouseEncoding::Sgr;
    history.scroll_viewport_up(2);
    let grid = Mutex::new(history);
    let writes = RefCell::new(Vec::new());
    let mut pointer_route = PointerRouteState::<f64>::idle();

    pointer_route.cursor_moved(1, at(5.0, 5.0));
    assert_eq!(
        dispatch_mouse_button_with(
            &grid,
            pointer_route.position_for(2),
            Some((10, 20)),
            true,
            MouseButton::Left,
            keys(0),
            |bytes| {
                writes.borrow_mut().push(bytes);
                Ok(())
            },
        )
        .expect("a click from another pointer device should be ignored"),
        KeyboardInputOutcome::Ignored {
            viewport_changed: false,
        }
    );
    assert!(writes.borrow().is_empty());

    pointer_route.cursor_moved(2, at(25.0, 45.0));
    assert_eq!(pointer_route.position_for(1), None);
    assert_eq!(
        dispatch_mouse_button_with(
            &grid,
            pointer_route.position_for(2),
            Some((10, 20)),
            true,
            MouseButton::Left,
            keys(0),
            |bytes| {
                assert!(
                    grid.try_lock().is_ok(),
                    "routed mouse button enqueue must run without the Grid lock"
                );
                writes.borrow_mut().push(bytes);
                Ok(())
            },
        )
        .expect("the active pointer device should use its own position"),
        KeyboardInputOutcome::Forwarded {
            viewport_changed: false,
        }
    );
    assert_eq!(writes.into_inner(), [b"\x1b[<0;3;3M".to_vec()]);
    assert_eq!(
        grid.lock()
            .expect("routed mouse button grid should remain available")
            .scroll_offset,
        2
    );
}

#[test]
fn pointer_route_keeps_a_forwarded_button_captured_until_its_release() {
    let mut history = grid_with_scrollback(4, 10);
    history.modes.mouse_tracking = MouseTracking::Normal;
    history.modes.mouse_encoding = MouseEncoding::Sgr;
    let grid = Mutex::new(history);
    let writes = RefCell::new(Vec::new());
    let mut pointer_route = PointerRouteState::<f64>::idle();
    let first_position = at(15.0, 25.0);
    let second_position = at(75.0, 85.0);

    pointer_route.cursor_moved(1, first_position);
    let press = dispatch_mouse_button_with(
        &grid,
        pointer_route.position_for(1),
        Some((10, 20)),
        true,
        MouseButton::Left,
        keys(0),
        |bytes| {
            assert!(grid.try_lock().is_ok());
            writes.borrow_mut().push(bytes);
            Ok(())
        },
    )
    .expect("the first device press should be forwarded");
    pointer_route.record_button_dispatch(
        1,
        true,
        Some(0),
        matches!(
            press,
            KeyboardInputOutcome::Forwarded {
                viewport_changed: false
            }
        ),
        Some((10, 20)),
    );
    assert_eq!(pointer_route.forwarded_buttons, 1);

    pointer_route.wheel_state.line_remainder = Some(0.5);
    pointer_route.cursor_entered(2);
    pointer_route.cursor_moved(2, second_position);
    assert_eq!(pointer_route.active_device, Some(1));
    assert_eq!(pointer_route.position_for(1), Some(first_position));
    assert_eq!(pointer_route.position_for(2), None);
    assert_eq!(pointer_route.select_wheel_device(2), None);
    assert_eq!(pointer_route.wheel_state.line_remainder.unwrap_or(0.0), 0.5);

    let second_press = dispatch_mouse_button_with(
        &grid,
        pointer_route.position_for(2),
        Some((10, 20)),
        true,
        MouseButton::Left,
        keys(0),
        |bytes| {
            writes.borrow_mut().push(bytes);
            Ok(())
        },
    )
    .expect("a press from another device should fail closed during capture");
    assert_eq!(
        second_press,
        KeyboardInputOutcome::Ignored {
            viewport_changed: false,
        }
    );
    pointer_route.record_button_dispatch(
        2,
        true,
        Some(0),
        false,
        Some((10, 20)),
    );
    assert_eq!(pointer_route.forwarded_buttons, 1);

    pointer_route.cursor_left(1);
    assert!(pointer_route.left_while_captured);
    assert_eq!(pointer_route.position_for(1), Some(first_position));
    pointer_route.scale_factor_changed(Some((10, 20)));
    assert_eq!(pointer_route.active_device, Some(1));
    assert_eq!(pointer_route.forwarded_buttons, 1);
    assert_eq!(pointer_route.position_for(1), Some(first_position));
    assert_eq!(pointer_route.wheel_state.line_remainder.unwrap_or(0.0), 0.0);
    assert!(pointer_route.position_uses_captured_metrics);
    let stale_wheel_position = pointer_route
        .select_wheel_device(1)
        .expect("the captured wheel device should keep its route");
    assert_eq!(stale_wheel_position, None);
    assert_eq!(
        dispatch_mouse_wheel_with(
            &grid,
            stale_wheel_position,
            Some((20, 40)),
            1.0,
            WheelPhase::Moved,
            keys(0),
            &mut pointer_route.wheel_state,
            |bytes| {
                writes.borrow_mut().push(bytes);
                Ok(())
            },
        )
        .expect("tracked wheel input should fail closed with stale DPI geometry"),
        KeyboardInputOutcome::Ignored {
            viewport_changed: false,
        }
    );
    assert_eq!(writes.borrow().len(), 1);

    grid.lock()
        .expect("DPI wheel grid should disable mouse tracking")
        .modes.mouse_tracking = MouseTracking::Off;
    assert_eq!(
        dispatch_mouse_wheel_with(
            &grid,
            stale_wheel_position,
            Some((20, 40)),
            1.0,
            WheelPhase::Moved,
            keys(0),
            &mut pointer_route.wheel_state,
            |bytes| {
                writes.borrow_mut().push(bytes);
                Ok(())
            },
        )
        .expect("local scrollback should not require fresh DPI pointer geometry"),
        KeyboardInputOutcome::Scrollback {
            viewport_changed: true,
        }
    );
    {
        let mut grid = grid
            .lock()
            .expect("DPI wheel grid should restore mouse tracking");
        grid.modes.mouse_tracking = MouseTracking::Normal;
        grid.modes.mouse_encoding = MouseEncoding::Sgr;
    }
    let release_cell_dimensions = pointer_route.button_cell_dimensions_for(
        1,
        false,
        Some(0),
        Some((20, 40)),
    );
    assert_eq!(release_cell_dimensions, Some((10, 20)));
    let release = dispatch_mouse_button_with(
        &grid,
        pointer_route.position_for(1),
        release_cell_dimensions,
        false,
        MouseButton::Left,
        keys(0),
        |bytes| {
            assert!(grid.try_lock().is_ok());
            writes.borrow_mut().push(bytes);
            Ok(())
        },
    )
    .expect("the captured device release should use its retained position");
    pointer_route.record_button_dispatch(
        1,
        false,
        Some(0),
        matches!(
            release,
            KeyboardInputOutcome::Forwarded {
                viewport_changed: false
            }
        ),
        release_cell_dimensions,
    );

    assert_eq!(
        writes.into_inner(),
        [b"\x1b[<0;2;2M".to_vec(), b"\x1b[<0;2;2m".to_vec()]
    );
    assert_eq!(pointer_route.active_device, None);
    assert_eq!(pointer_route.position, None);
    assert_eq!(pointer_route.forwarded_buttons, 0);
    assert!(!pointer_route.left_while_captured);
    assert_eq!(pointer_route.captured_cell_dimensions, None);
    assert!(!pointer_route.position_uses_captured_metrics);

    pointer_route.cursor_moved(2, second_position);
    assert_eq!(pointer_route.active_device, Some(2));
    assert_eq!(pointer_route.position_for(2), Some(second_position));
}

#[test]
fn pointer_route_releases_chords_even_when_the_release_is_not_forwarded() {
    let mut pointer_route = PointerRouteState::<f64>::idle();
    pointer_route.cursor_moved(1, at(15.0, 25.0));
    pointer_route.record_button_dispatch(
        1,
        true,
        Some(0),
        true,
        Some((10, 20)),
    );
    pointer_route.record_button_dispatch(
        1,
        true,
        Some(2),
        true,
        Some((10, 20)),
    );
    assert_eq!(pointer_route.forwarded_buttons, 0b101);

    pointer_route.scale_factor_changed(Some((10, 20)));
    assert_eq!(pointer_route.select_wheel_device(1), Some(None));
    let moved_position = at(45.0, 65.0);
    pointer_route.cursor_moved(1, moved_position);
    assert_eq!(
        pointer_route.select_wheel_device(1),
        Some(Some(moved_position))
    );
    assert!(!pointer_route.position_uses_captured_metrics);

    pointer_route.cursor_left(1);
    pointer_route.record_button_dispatch(
        2,
        false,
        Some(2),
        false,
        Some((10, 20)),
    );
    assert_eq!(
        pointer_route.forwarded_buttons, 0b101,
        "another device must not release a captured button"
    );

    pointer_route.record_button_dispatch(
        1,
        false,
        Some(0),
        false,
        Some((10, 20)),
    );
    assert_eq!(pointer_route.active_device, Some(1));
    assert_eq!(pointer_route.forwarded_buttons, 0b100);
    assert!(pointer_route.left_while_captured);

    pointer_route.record_button_dispatch(
        1,
        false,
        Some(2),
        false,
        Some((10, 20)),
    );
    assert_eq!(pointer_route.active_device, None);
    assert_eq!(pointer_route.position, None);
    assert_eq!(pointer_route.forwarded_buttons, 0);
    assert!(!pointer_route.left_while_captured);
}

#[test]
fn pointer_route_drops_stale_dpi_position_after_the_last_release() {
    let mut pointer_route = PointerRouteState::<f64>::idle();
    let old_position = at(15.0, 25.0);
    pointer_route.cursor_moved(1, old_position);
    pointer_route.record_button_dispatch(
        1,
        true,
        Some(0),
        true,
        Some((10, 20)),
    );
    pointer_route.scale_factor_changed(Some((10, 20)));
    assert_eq!(
        pointer_route.button_cell_dimensions_for(
            1,
            false,
            Some(0),
            Some((20, 40)),
        ),
        Some((10, 20))
    );

    pointer_route.record_button_dispatch(
        1,
        false,
        Some(0),
        false,
        Some((10, 20)),
    );
    assert_eq!(pointer_route.active_device, Some(1));
    assert_eq!(pointer_route.position, None);
    assert_eq!(pointer_route.forwarded_buttons, 0);
    assert_eq!(pointer_route.captured_cell_dimensions, None);
    assert!(!pointer_route.position_uses_captured_metrics);

    let new_position = at(35.0, 45.0);
    pointer_route.cursor_moved(1, new_position);
    assert_eq!(pointer_route.position_for(1), Some(new_position));
}

#[test]
fn pointer_route_resets_on_device_changes_matching_leaves_and_scale_changes() {
    let mut pointer_route = PointerRouteState::<f64>::idle();
    let second_position = at(25.0, 45.0);

    pointer_route.cursor_moved(1, at(5.0, 5.0));
    pointer_route.wheel_state.line_remainder = Some(0.5);
    pointer_route.wheel_state.last_route = Some(MouseWheelRoute::Scrollback);
    pointer_route.cursor_entered(2);
    assert_eq!(pointer_route.active_device, Some(2));
    assert_eq!(pointer_route.position, None);
    assert_eq!(pointer_route.wheel_state.line_remainder.unwrap_or(0.0), 0.0);
    assert_eq!(pointer_route.wheel_state.last_route, None);

    pointer_route.cursor_moved(2, second_position);
    pointer_route.wheel_state.line_remainder = Some(0.75);
    pointer_route.wheel_state.last_route = Some(MouseWheelRoute::Scrollback);
    pointer_route.cursor_entered(2);
    pointer_route.cursor_left(1);
    assert_eq!(pointer_route.active_device, Some(2));
    assert_eq!(pointer_route.position, Some(second_position));
    assert_eq!(pointer_route.wheel_state.line_remainder.unwrap_or(0.0), 0.75);
    assert_eq!(
        pointer_route.wheel_state.last_route,
        Some(MouseWheelRoute::Scrollback)
    );

    pointer_route.cursor_left(2);
    assert_eq!(pointer_route.active_device, None);
    assert_eq!(pointer_route.position, None);
    assert_eq!(pointer_route.wheel_state.line_remainder.unwrap_or(0.0), 0.0);
    assert_eq!(pointer_route.wheel_state.last_route, None);

    pointer_route.cursor_moved(1, at(5.0, 5.0));
    pointer_route.wheel_state.line_remainder = Some(0.5);
    pointer_route.wheel_state.last_route = Some(MouseWheelRoute::Scrollback);
    pointer_route.scale_factor_changed(Some((10, 20)));
    assert_eq!(pointer_route.active_device, None);
    assert_eq!(pointer_route.position, None);
    assert_eq!(pointer_route.wheel_state.line_remainder.unwrap_or(0.0), 0.0);
    assert_eq!(pointer_route.wheel_state.last_route, None);
    assert_eq!(pointer_route.forwarded_buttons, 0);
    assert_eq!(pointer_route.captured_cell_dimensions, None);
    assert!(!pointer_route.position_uses_captured_metrics);
}

#[test]
fn pointer_route_preserves_physical_drag_identity_across_leave_and_dpi() {
    let mut route = PointerRouteState::<f64>::idle();
    route.cursor_moved(1, at(15.0, 25.0));
    route.motion_state.anchor((2, 2));
    assert!(route.record_physical_button_event(1, true, Some(0)));
    assert_eq!(route.active_motion_button(), Some(0));

    route.cursor_left(2);
    assert_eq!(route.active_device, Some(1));
    assert_eq!(route.motion_state.last_cell, Some((2, 2)));
    route.cursor_left(1);
    assert!(route.left_while_captured);
    assert_eq!(route.motion_state.last_cell, None);
    assert!(!route.cursor_moved(2, at(55.0, 65.0)));
    assert!(!route.record_physical_button_event(2, true, Some(2)));
    assert!(!route.record_physical_button_event(2, false, Some(0)));
    assert_eq!(route.active_motion_button(), Some(0));

    route.scale_factor_changed(Some((10, 20)));
    assert_eq!(route.active_device, Some(1));
    assert_eq!(route.active_motion_button(), Some(0));
    assert_eq!(route.position, None);
    assert!(!route.position_uses_captured_metrics);
    assert_eq!(route.motion_state.last_cell, None);

    let new_position = at(35.0, 45.0);
    route.cursor_entered(1);
    assert!(route.cursor_moved(1, new_position));
    assert_eq!(route.position_for(1), Some(new_position));
    assert!(!route.left_while_captured);
    assert!(route.record_physical_button_event(1, false, Some(0)));
    route.record_button_dispatch(1, false, Some(0), false, Some((20, 40)));
    assert_eq!(route.active_motion_button(), None);
    assert!(route.cursor_moved(2, at(55.0, 65.0)));
    assert_eq!(route.active_device, Some(2));
}

#[test]
fn pointer_route_keeps_fractional_wheel_steps_per_active_device() {
    let grid = Mutex::new(grid_with_scrollback(4, 10));
    let mut pointer_route = PointerRouteState::<f64>::idle();
    let writes = AtomicUsize::new(0);

    pointer_route.cursor_moved(1, at(5.0, 5.0));
    let first_position = pointer_route
        .select_wheel_device(1)
        .expect("the active wheel device should be accepted");
    assert_eq!(
        dispatch_mouse_wheel_with(
            &grid,
            first_position,
            Some((10, 20)),
            0.5,
            WheelPhase::Moved,
            keys(0),
            &mut pointer_route.wheel_state,
            |_| {
                writes.fetch_add(1, Ordering::Relaxed);
                Ok(())
            },
        )
        .expect("the first fractional wheel event should be accumulated"),
        KeyboardInputOutcome::Ignored {
            viewport_changed: false,
        }
    );
    assert_eq!(pointer_route.wheel_state.line_remainder.unwrap_or(0.0), 0.5);

    let second_position = pointer_route
        .select_wheel_device(2)
        .expect("a wheel device switch without a capture should be accepted");
    assert_eq!(second_position, None);
    assert_eq!(pointer_route.wheel_state.line_remainder.unwrap_or(0.0), 0.0);
    assert_eq!(
        dispatch_mouse_wheel_with(
            &grid,
            second_position,
            Some((10, 20)),
            0.5,
            WheelPhase::Moved,
            keys(0),
            &mut pointer_route.wheel_state,
            |_| {
                writes.fetch_add(1, Ordering::Relaxed);
                Ok(())
            },
        )
        .expect("a different device should start its own wheel remainder"),
        KeyboardInputOutcome::Ignored {
            viewport_changed: false,
        }
    );
    assert_eq!(pointer_route.wheel_state.line_remainder.unwrap_or(0.0), 0.5);
    assert_eq!(
        grid.lock()
            .expect("fractional wheel grid should remain available")
            .scroll_offset,
        0
    );
    assert_eq!(writes.load(Ordering::Relaxed), 0);
}

#[test]
fn pointer_route_requires_matching_position_only_for_tracked_wheel_input() {
    let mut tracked_history = grid_with_scrollback(4, 10);
    tracked_history.modes.mouse_tracking = MouseTracking::Normal;
    tracked_history.modes.mouse_encoding = MouseEncoding::Sgr;
    tracked_history.scroll_viewport_up(2);
    let tracked_grid = Mutex::new(tracked_history);
    let tracked_writes = RefCell::new(Vec::new());
    let mut tracked_route = PointerRouteState::<f64>::idle();

    tracked_route.cursor_moved(1, at(5.0, 5.0));
    let mismatched_position = tracked_route
        .select_wheel_device(2)
        .expect("a tracked wheel device switch should be accepted");
    assert_eq!(mismatched_position, None);
    assert_eq!(
        dispatch_mouse_wheel_with(
            &tracked_grid,
            mismatched_position,
            Some((10, 20)),
            1.0,
            WheelPhase::Moved,
            keys(0),
            &mut tracked_route.wheel_state,
            |bytes| {
                tracked_writes.borrow_mut().push(bytes);
                Ok(())
            },
        )
        .expect("tracked wheel input without a matching position should fail closed"),
        KeyboardInputOutcome::Ignored {
            viewport_changed: false,
        }
    );
    assert!(tracked_writes.borrow().is_empty());
    assert_eq!(
        tracked_grid
            .lock()
            .expect("tracked wheel grid should remain available")
            .scroll_offset,
        2,
        "tracked mismatches must neither enqueue input nor move scrollback"
    );

    tracked_route.cursor_moved(2, at(25.0, 45.0));
    let matching_position = tracked_route
        .select_wheel_device(2)
        .expect("the matching tracked wheel device should be accepted");
    assert_eq!(
        dispatch_mouse_wheel_with(
            &tracked_grid,
            matching_position,
            Some((10, 20)),
            1.0,
            WheelPhase::Moved,
            keys(0),
            &mut tracked_route.wheel_state,
            |bytes| {
                assert!(
                    tracked_grid.try_lock().is_ok(),
                    "routed wheel enqueue must run without the Grid lock"
                );
                tracked_writes.borrow_mut().push(bytes);
                Ok(())
            },
        )
        .expect("matching tracked wheel input should preserve its encoded bytes"),
        KeyboardInputOutcome::Forwarded {
            viewport_changed: false,
        }
    );
    assert_eq!(tracked_writes.into_inner(), [b"\x1b[<64;3;3M".to_vec()]);

    let local_grid = Mutex::new(grid_with_scrollback(4, 10));
    let local_writes = AtomicUsize::new(0);
    let mut local_route = PointerRouteState::<f64>::idle();
    local_route.cursor_moved(1, at(5.0, 5.0));
    let mismatched_position = local_route
        .select_wheel_device(2)
        .expect("local wheel input should select its device without a position");
    assert_eq!(mismatched_position, None);
    assert_eq!(
        dispatch_mouse_wheel_with(
            &local_grid,
            mismatched_position,
            Some((10, 20)),
            1.0,
            WheelPhase::Moved,
            keys(0),
            &mut local_route.wheel_state,
            |_| {
                local_writes.fetch_add(1, Ordering::Relaxed);
                Ok(())
            },
        )
        .expect("local scrollback should not require a pointer position"),
        KeyboardInputOutcome::Scrollback {
            viewport_changed: true,
        }
    );
    assert_eq!(
        local_grid
            .lock()
            .expect("local wheel grid should remain available")
            .scroll_offset,
        1
    );
    assert_eq!(local_writes.load(Ordering::Relaxed), 0);
}

#[test]
fn every_supported_mouse_tracking_mode_forwards_button_press_and_release() {
    for tracking in [
        MouseTracking::Normal,
        MouseTracking::ButtonEvent,
        MouseTracking::AnyEvent,
    ] {
        let mut history = grid_with_scrollback(4, 10);
        history.modes.mouse_tracking = tracking;
        history.modes.mouse_encoding = MouseEncoding::Sgr;
        let grid = Mutex::new(history);
        let writes = RefCell::new(Vec::new());
        let dispatch = |state| {
            dispatch_mouse_button_with(
                &grid,
                Some(at(25.0, 45.0)),
                Some((10, 20)),
                state,
                MouseButton::Left,
                keys(0),
                |bytes| {
                    writes.borrow_mut().push(bytes);
                    Ok(())
                },
            )
            .expect("supported mouse tracking should forward button input")
        };

        assert_eq!(
            dispatch(true),
            KeyboardInputOutcome::Forwarded {
                viewport_changed: false,
            }
        );
        assert_eq!(
            dispatch(false),
            KeyboardInputOutcome::Forwarded {
                viewport_changed: false,
            }
        );
        assert_eq!(
            writes.into_inner(),
            [b"\x1b[<0;3;3M".to_vec(), b"\x1b[<0;3;3m".to_vec()]
        );
    }
}

#[test]
fn mouse_button_release_clamps_negative_grab_coordinates_to_the_terminal_edge() {
    let mut history = grid_with_scrollback(4, 10);
    history.modes.mouse_tracking = MouseTracking::Normal;
    history.modes.mouse_encoding = MouseEncoding::Sgr;
    let grid = Mutex::new(history);
    let writes = RefCell::new(Vec::new());
    let dispatch = |state, position| {
        dispatch_mouse_button_with(
            &grid,
            Some(position),
            Some((10, 20)),
            state,
            MouseButton::Left,
            keys(0),
            |bytes| {
                writes.borrow_mut().push(bytes);
                Ok(())
            },
        )
        .expect("implicit-grab mouse button input should be handled")
    };

    assert_eq!(
        dispatch(true, at(15.0, 25.0)),
        KeyboardInputOutcome::Forwarded {
            viewport_changed: false,
        }
    );
    assert_eq!(
        dispatch(false, at(-15.0, -25.0),),
        KeyboardInputOutcome::Forwarded {
            viewport_changed: false,
        }
    );
    assert_eq!(
        writes.into_inner(),
        [b"\x1b[<0;2;2M".to_vec(), b"\x1b[<0;1;1m".to_vec()]
    );
}

#[test]
fn mouse_buttons_encode_modifiers_without_holding_the_grid_lock_or_scrolling() {
    let mut history = grid_with_scrollback(4, 10);
    history.modes.mouse_tracking = MouseTracking::Normal;
    history.modes.mouse_encoding = MouseEncoding::Sgr;
    history.scroll_viewport_up(2);
    let grid = Mutex::new(history);
    let writes = RefCell::new(Vec::new());
    let modified = keys(SHIFT | ALT | CONTROL);
    let dispatch = |state, button| {
        dispatch_mouse_button_with(
            &grid,
            Some(at(25.0, 45.0)),
            Some((10, 20)),
            state,
            button,
            modified,
            |bytes| {
                assert!(
                    grid.try_lock().is_ok(),
                    "mouse button enqueue must run without the Grid lock"
                );
                writes.borrow_mut().push(bytes);
                Ok(())
            },
        )
        .expect("tracked mouse button should be queued")
    };

    assert_eq!(
        dispatch(true, MouseButton::Right),
        KeyboardInputOutcome::Forwarded {
            viewport_changed: false,
        }
    );
    assert_eq!(
        dispatch(false, MouseButton::Right),
        KeyboardInputOutcome::Forwarded {
            viewport_changed: false,
        }
    );

    grid.lock()
        .expect("mouse button grid should select legacy encoding")
        .modes.mouse_encoding = MouseEncoding::Default;
    assert_eq!(
        dispatch(true, MouseButton::Middle),
        KeyboardInputOutcome::Forwarded {
            viewport_changed: false,
        }
    );
    assert_eq!(
        dispatch(false, MouseButton::Middle),
        KeyboardInputOutcome::Forwarded {
            viewport_changed: false,
        }
    );

    assert_eq!(
        writes.into_inner(),
        [
            b"\x1b[<30;3;3M".to_vec(),
            b"\x1b[<30;3;3m".to_vec(),
            vec![0x1b, b'[', b'M', 61, 35, 35],
            vec![0x1b, b'[', b'M', 63, 35, 35],
        ]
    );
    assert_eq!(
        grid.lock()
            .expect("mouse button grid should remain available")
            .scroll_offset,
        2,
        "tracked mouse buttons must preserve scrollback"
    );
}

#[test]
fn mouse_buttons_ignore_disabled_unsupported_or_missing_geometry_and_preserve_queue_errors() {
    let grid = Mutex::new(grid_with_scrollback(4, 10));
    let enqueue_calls = AtomicUsize::new(0);

    assert_eq!(
        dispatch_mouse_button_with(
            &grid,
            Some(at(1.0, 1.0)),
            Some((10, 20)),
            true,
            MouseButton::Left,
            keys(0),
            |_| {
                enqueue_calls.fetch_add(1, Ordering::Relaxed);
                Ok(())
            },
        )
        .expect("disabled mouse tracking should ignore button input"),
        KeyboardInputOutcome::Ignored {
            viewport_changed: false,
        }
    );

    {
        let mut grid = grid
            .lock()
            .expect("mouse button grid should enable tracking");
        grid.modes.mouse_tracking = MouseTracking::AnyEvent;
        grid.modes.mouse_encoding = MouseEncoding::Sgr;
    }
    for (position, dimensions, button) in [
        (None, Some((10, 20)), MouseButton::Left),
        (
            Some(at(1.0, 1.0)),
            None,
            MouseButton::Left,
        ),
        (
            Some(at(-1.0, 1.0)),
            Some((10, 20)),
            MouseButton::Left,
        ),
        (
            Some(at(1.0, 1.0)),
            Some((0, 20)),
            MouseButton::Left,
        ),
        (
            Some(at(1.0, 1.0)),
            Some((10, 20)),
            MouseButton::Back,
        ),
        (
            Some(at(1.0, 1.0)),
            Some((10, 20)),
            MouseButton::Forward,
        ),
        (
            Some(at(1.0, 1.0)),
            Some((10, 20)),
            MouseButton::Other(9),
        ),
    ] {
        assert_eq!(
            dispatch_mouse_button_with(
                &grid,
                position,
                dimensions,
                true,
                button,
                keys(0),
                |_| {
                    enqueue_calls.fetch_add(1, Ordering::Relaxed);
                    Ok(())
                },
            )
            .expect("invalid mouse button input should be ignored"),
            KeyboardInputOutcome::Ignored {
                viewport_changed: false,
            }
        );
    }
    assert_eq!(enqueue_calls.load(Ordering::Relaxed), 0);

    for queue_error in [
        TerminalWriteQueueError::Full,
        TerminalWriteQueueError::Disconnected,
    ] {
        let error = dispatch_mouse_button_with(
            &grid,
            Some(at(1.0, 1.0)),
            Some((10, 20)),
            false,
            MouseButton::Left,
            keys(0),
            |_| {
                assert!(
                    grid.try_lock().is_ok(),
                    "mouse button queue errors must occur outside the Grid lock"
                );
                Err(queue_error)
            },
        )
        .expect_err("mouse button queue failures should be preserved");
        assert!(matches!(
            error,
            KeyboardInputError::Queue(actual) if actual == queue_error
        ));
    }
}

#[test]
fn mouse_motion_respects_xterm_tracking_modes() {
    let cases = [
        (
            MouseTracking::Off,
            None,
            MouseMotionDispatchOutcome::Observed((3, 3)),
            None,
        ),
        (
            MouseTracking::Normal,
            Some(0),
            MouseMotionDispatchOutcome::Observed((3, 3)),
            None,
        ),
        (
            MouseTracking::ButtonEvent,
            None,
            MouseMotionDispatchOutcome::Observed((3, 3)),
            None,
        ),
        (
            MouseTracking::ButtonEvent,
            Some(0),
            MouseMotionDispatchOutcome::Enqueued((3, 3)),
            Some(b"\x1b[<32;3;3M".to_vec()),
        ),
        (
            MouseTracking::AnyEvent,
            None,
            MouseMotionDispatchOutcome::Enqueued((3, 3)),
            Some(b"\x1b[<35;3;3M".to_vec()),
        ),
        (
            MouseTracking::AnyEvent,
            Some(2),
            MouseMotionDispatchOutcome::Enqueued((3, 3)),
            Some(b"\x1b[<34;3;3M".to_vec()),
        ),
    ];

    for (tracking, active_button, expected_outcome, expected_write) in cases {
        let mut history = grid_with_scrollback(4, 10);
        history.modes.mouse_tracking = tracking;
        history.modes.mouse_encoding = MouseEncoding::Sgr;
        history.scroll_viewport_up(2);
        let grid = Mutex::new(history);
        let writes = RefCell::new(Vec::new());
        let outcome = dispatch_mouse_motion_with(
            &grid,
            at(25.0, 45.0),
            Some((10, 20)),
            active_button,
            keys(0),
            None,
            |bytes| {
                assert!(
                    grid.try_lock().is_ok(),
                    "mouse motion enqueue must run without the Grid lock"
                );
                writes.borrow_mut().push(bytes);
                Ok(())
            },
        )
        .expect("supported mouse tracking mode should be handled");

        assert_eq!(outcome, expected_outcome, "tracking mode {tracking:?}");
        assert_eq!(
            writes.into_inner(),
            expected_write.into_iter().collect::<Vec<_>>()
        );
        assert_eq!(
            grid.lock()
                .expect("mouse motion grid should remain available")
                .scroll_offset,
            2,
            "mouse motion must preserve scrollback"
        );
    }
}

#[test]
fn mouse_motion_encodes_buttons_modifiers_and_both_encodings() {
    let cases = [
        (
            MouseEncoding::Sgr,
            Some(0),
            keys(0),
            b"\x1b[<32;3;3M".to_vec(),
        ),
        (
            MouseEncoding::Sgr,
            Some(1),
            keys(0),
            b"\x1b[<33;3;3M".to_vec(),
        ),
        (
            MouseEncoding::Sgr,
            Some(2),
            keys(0),
            b"\x1b[<34;3;3M".to_vec(),
        ),
        (
            MouseEncoding::Sgr,
            None,
            keys(0),
            b"\x1b[<35;3;3M".to_vec(),
        ),
        (
            MouseEncoding::Sgr,
            Some(0),
            keys(SHIFT | ALT | CONTROL),
            b"\x1b[<60;3;3M".to_vec(),
        ),
        (
            MouseEncoding::Sgr,
            Some(0),
            keys(SUPER),
            b"\x1b[<32;3;3M".to_vec(),
        ),
        (
            MouseEncoding::Default,
            Some(0),
            keys(0),
            vec![0x1b, b'[', b'M', 64, 35, 35],
        ),
        (
            MouseEncoding::Default,
            Some(1),
            keys(0),
            vec![0x1b, b'[', b'M', 65, 35, 35],
        ),
        (
            MouseEncoding::Default,
            Some(2),
            keys(0),
            vec![0x1b, b'[', b'M', 66, 35, 35],
        ),
        (
            MouseEncoding::Default,
            None,
            keys(0),
            vec![0x1b, b'[', b'M', 67, 35, 35],
        ),
        (
            MouseEncoding::Default,
            Some(0),
            keys(SHIFT | ALT | CONTROL),
            vec![0x1b, b'[', b'M', 92, 35, 35],
        ),
    ];

    for (encoding, active_button, modifiers, expected) in cases {
        let mut history = grid_with_scrollback(4, 10);
        history.modes.mouse_tracking = MouseTracking::AnyEvent;
        history.modes.mouse_encoding = encoding;
        let grid = Mutex::new(history);
        let writes = RefCell::new(Vec::new());

        assert_eq!(
            dispatch_mouse_motion_with(
                &grid,
                at(25.0, 45.0),
                Some((10, 20)),
                active_button,
                modifiers,
                None,
                |bytes| {
                    writes.borrow_mut().push(bytes);
                    Ok(())
                },
            )
            .expect("mouse motion should encode"),
            MouseMotionDispatchOutcome::Enqueued((3, 3))
        );
        assert_eq!(writes.into_inner(), [expected]);
    }
}

#[test]
fn physical_mouse_buttons_survive_tracking_transitions_and_follow_chord_order() {
    let mut history = grid_with_scrollback(4, 10);
    history.modes.mouse_encoding = MouseEncoding::Sgr;
    let grid = Mutex::new(history);
    let writes = RefCell::new(Vec::new());
    let mut route = PointerRouteState::<f64>::idle();
    assert!(route.cursor_moved(1, at(5.0, 5.0)));
    assert!(route.record_physical_button_event(1, true, Some(0)));
    assert_eq!(route.active_motion_button(), Some(0));
    assert!(!route.cursor_moved(2, at(15.0, 25.0)));

    grid.lock()
        .expect("motion grid should enable button-event tracking")
        .modes.mouse_tracking = MouseTracking::ButtonEvent;
    for (position, expected_button) in [
        (at(15.0, 25.0), 32),
        (at(25.0, 25.0), 34),
        (at(35.0, 25.0), 33),
        (at(45.0, 25.0), 34),
        (at(55.0, 25.0), 32),
    ] {
        if expected_button == 34 && route.active_motion_button() == Some(0) {
            assert!(route.record_physical_button_event(1, true, Some(2),));
        } else if expected_button == 33 {
            assert!(route.record_physical_button_event(1, true, Some(1),));
        } else if expected_button == 34 && route.active_motion_button() == Some(1) {
            assert!(route.record_physical_button_event(1, false, Some(1),));
        } else if expected_button == 32 && route.active_motion_button() == Some(2) {
            assert!(route.record_physical_button_event(1, false, Some(2),));
        }
        assert_eq!(
            route.active_motion_button().map(|button| button | 32),
            Some(expected_button)
        );
        let outcome = dispatch_mouse_motion_with(
            &grid,
            position,
            Some((10, 20)),
            route.active_motion_button(),
            keys(0),
            route.motion_state.last_cell,
            |bytes| {
                writes.borrow_mut().push(bytes);
                Ok(())
            },
        )
        .expect("ordered chord motion should be queued");
        let MouseMotionDispatchOutcome::Enqueued(cell) = outcome else {
            panic!("expected an enqueued chord motion, got {outcome:?}");
        };
        route.motion_state.anchor(cell);
    }
    assert!(route.record_physical_button_event(1, false, Some(0)));
    assert_eq!(route.active_motion_button(), None);
    assert_eq!(
        dispatch_mouse_motion_with(
            &grid,
            at(65.0, 25.0),
            Some((10, 20)),
            route.active_motion_button(),
            keys(0),
            route.motion_state.last_cell,
            |_| panic!("1002 without a held button must not enqueue"),
        )
        .expect("button-event hover should be observed"),
        MouseMotionDispatchOutcome::Observed((7, 2))
    );
    assert_eq!(
        writes.into_inner(),
        [
            b"\x1b[<32;2;2M".to_vec(),
            b"\x1b[<34;3;2M".to_vec(),
            b"\x1b[<33;4;2M".to_vec(),
            b"\x1b[<34;5;2M".to_vec(),
            b"\x1b[<32;6;2M".to_vec(),
        ]
    );
}

#[test]
fn mouse_motion_deduplicates_only_committed_cells_and_uses_current_context_next() {
    let mut history = grid_with_scrollback(4, 10);
    history.modes.mouse_tracking = MouseTracking::AnyEvent;
    history.modes.mouse_encoding = MouseEncoding::Sgr;
    let grid = Mutex::new(history);
    let writes = RefCell::new(Vec::new());
    let first_cell = at(25.0, 45.0);
    let second_cell = at(35.0, 45.0);
    let mut motion_state = MouseMotionState { last_cell: None };

    let dropped = dispatch_mouse_motion_with(
        &grid,
        first_cell,
        Some((10, 20)),
        None,
        keys(0),
        motion_state.last_cell,
        |_| Err(TerminalWriteQueueError::Full),
    )
    .expect("a full queue should drop only mouse motion");
    assert_eq!(dropped, MouseMotionDispatchOutcome::DroppedFull);
    motion_state.record_dispatch(dropped);
    assert_eq!(
        motion_state.last_cell, None,
        "the production reducer must keep a dropped motion retryable"
    );

    let outcome = dispatch_mouse_motion_with(
        &grid,
        first_cell,
        Some((10, 20)),
        None,
        keys(0),
        motion_state.last_cell,
        |bytes| {
            writes.borrow_mut().push(bytes);
            Ok(())
        },
    )
    .expect("the same cell should retry after backpressure");
    assert_eq!(outcome, MouseMotionDispatchOutcome::Enqueued((3, 3)));
    motion_state.record_dispatch(outcome);
    assert_eq!(motion_state.last_cell, Some((3, 3)));

    grid.lock()
        .expect("motion grid should switch encoding")
        .modes.mouse_encoding = MouseEncoding::Default;
    assert_eq!(
        dispatch_mouse_motion_with(
            &grid,
            first_cell,
            Some((10, 20)),
            None,
            keys(SHIFT | ALT | CONTROL),
            motion_state.last_cell,
            |_| panic!("context changes in the same cell must stay deduplicated"),
        )
        .expect("same-cell context change should be handled"),
        MouseMotionDispatchOutcome::Deduplicated
    );

    let modified = keys(SHIFT | ALT | CONTROL);
    let outcome = dispatch_mouse_motion_with(
        &grid,
        second_cell,
        Some((10, 20)),
        None,
        modified,
        motion_state.last_cell,
        |bytes| {
            writes.borrow_mut().push(bytes);
            Ok(())
        },
    )
    .expect("the next cell should use the current encoding and modifiers");
    assert_eq!(outcome, MouseMotionDispatchOutcome::Enqueued((4, 3)));
    motion_state.record_dispatch(outcome);

    assert_eq!(
        dispatch_mouse_motion_with(
            &grid,
            first_cell,
            Some((10, 20)),
            None,
            modified,
            motion_state.last_cell,
            |bytes| {
                writes.borrow_mut().push(bytes);
                Ok(())
            },
        )
        .expect("returning to an earlier cell should report again"),
        MouseMotionDispatchOutcome::Enqueued((3, 3))
    );
    assert_eq!(
        writes.into_inner(),
        [
            b"\x1b[<35;3;3M".to_vec(),
            vec![0x1b, b'[', b'M', 95, 36, 35],
            vec![0x1b, b'[', b'M', 95, 35, 35],
        ]
    );
}

#[test]
fn mouse_button_reports_anchor_motion_without_hiding_button_queue_failures() {
    let mut history = grid_with_scrollback(4, 10);
    history.modes.mouse_tracking = MouseTracking::AnyEvent;
    history.modes.mouse_encoding = MouseEncoding::Sgr;
    let grid = Mutex::new(history);
    let writes = RefCell::new(Vec::new());
    let mut motion_state = MouseMotionState { last_cell: None };

    assert_eq!(
        dispatch_mouse_button_and_motion_with(
            &grid,
            Some(at(25.0, 45.0)),
            Some((10, 20)),
            true,
            MouseButton::Left,
            keys(0),
            &mut motion_state,
            |bytes| {
                writes.borrow_mut().push(bytes);
                Ok(())
            },
        )
        .expect("button press should anchor motion"),
        KeyboardInputOutcome::Forwarded {
            viewport_changed: false,
        }
    );
    assert_eq!(motion_state.last_cell, Some((3, 3)));
    assert_eq!(
        dispatch_mouse_motion_with(
            &grid,
            at(29.0, 49.0),
            Some((10, 20)),
            Some(0),
            keys(0),
            motion_state.last_cell,
            |_| panic!("same-cell motion after a button press must be deduplicated"),
        )
        .expect("same-cell motion should be handled"),
        MouseMotionDispatchOutcome::Deduplicated
    );

    motion_state.reset();
    let error = dispatch_mouse_button_and_motion_with(
        &grid,
        Some(at(25.0, 45.0)),
        Some((10, 20)),
        true,
        MouseButton::Left,
        keys(0),
        &mut motion_state,
        |_| Err(TerminalWriteQueueError::Full),
    )
    .expect_err("button queue backpressure must remain fatal");
    assert!(matches!(
        error,
        KeyboardInputError::Queue(TerminalWriteQueueError::Full)
    ));
    assert_eq!(
        motion_state.last_cell, None,
        "a failed button report must not anchor motion"
    );
    assert_eq!(writes.into_inner(), [b"\x1b[<0;3;3M".to_vec()]);
}

#[test]
fn mouse_motion_clamps_only_finite_drags_and_propagates_disconnects() {
    let mut history = grid_with_scrollback(4, 10);
    history.modes.mouse_tracking = MouseTracking::AnyEvent;
    history.modes.mouse_encoding = MouseEncoding::Sgr;
    let grid = Mutex::new(history);
    let writes = RefCell::new(Vec::new());

    assert_eq!(
        dispatch_mouse_motion_with(
            &grid,
            at(-25.0, -45.0),
            Some((10, 20)),
            Some(0),
            keys(0),
            None,
            |bytes| {
                writes.borrow_mut().push(bytes);
                Ok(())
            },
        )
        .expect("finite implicit-grab motion should clamp"),
        MouseMotionDispatchOutcome::Enqueued((1, 1))
    );
    for (position, button) in [
        (at(-1.0, 1.0), None),
        (at(f64::NAN, 1.0), Some(0)),
        (at(1.0, f64::INFINITY), Some(0)),
    ] {
        assert_eq!(
            dispatch_mouse_motion_with(
                &grid,
                position,
                Some((10, 20)),
                button,
                keys(0),
                None,
                |_| panic!("invalid motion geometry must not enqueue"),
            )
            .expect("invalid motion geometry should be ignored"),
            MouseMotionDispatchOutcome::Ignored
        );
    }
    assert_eq!(
        dispatch_mouse_motion_with(
            &grid,
            at(f64::MAX, f64::MAX),
            Some((10, 20)),
            None,
            keys(0),
            None,
            |bytes| {
                writes.borrow_mut().push(bytes);
                Ok(())
            },
        )
        .expect("positive motion beyond the surface should clamp"),
        MouseMotionDispatchOutcome::Enqueued((8, 4))
    );

    let error = dispatch_mouse_motion_with(
        &grid,
        at(15.0, 25.0),
        Some((10, 20)),
        None,
        keys(0),
        None,
        |_| Err(TerminalWriteQueueError::Disconnected),
    )
    .expect_err("a disconnected motion queue must remain fatal");
    assert!(matches!(
        error,
        KeyboardInputError::Queue(TerminalWriteQueueError::Disconnected)
    ));
    assert_eq!(
        writes.into_inner(),
        [b"\x1b[<32;1;1M".to_vec(), b"\x1b[<35;8;4M".to_vec(),]
    );
}

#[test]
fn wheel_remainder_resets_between_gestures_routes_and_pointer_contexts() {
    let grid = Mutex::new(grid_with_scrollback(4, 10));
    let writes = RefCell::new(Vec::new());
    let mut state = no_wheel();
    let dispatch = |delta, phase, state: &mut MouseWheelState<f64>| {
        dispatch_mouse_wheel_with(
            &grid,
            Some(at(1.0, 1.0)),
            Some((10, 20)),
            delta,
            phase,
            keys(0),
            state,
            |bytes| {
                writes.borrow_mut().push(bytes);
                Ok(())
            },
        )
        .expect("wheel gesture dispatch should succeed")
    };

    assert_eq!(
        dispatch(0.5, WheelPhase::Started, &mut state),
        KeyboardInputOutcome::Ignored {
            viewport_changed: false,
        }
    );
    assert_eq!(state.line_remainder.unwrap_or(0.0), 0.5);
    assert_eq!(
        dispatch(0.0, WheelPhase::Ended, &mut state),
        KeyboardInputOutcome::Ignored {
            viewport_changed: false,
        }
    );
    assert_eq!(state.line_remainder.unwrap_or(0.0), 0.0);

    assert_eq!(
        dispatch(0.5, WheelPhase::Moved, &mut state),
        KeyboardInputOutcome::Ignored {
            viewport_changed: false,
        }
    );
    {
        let mut grid = grid
            .lock()
            .expect("wheel grid should switch to SGR terminal reporting");
        grid.modes.mouse_tracking = MouseTracking::Normal;
        grid.modes.mouse_encoding = MouseEncoding::Sgr;
    }
    assert_eq!(
        dispatch(0.5, WheelPhase::Moved, &mut state),
        KeyboardInputOutcome::Ignored {
            viewport_changed: false,
        },
        "a local-scroll remainder must not become terminal input"
    );
    assert_eq!(state.line_remainder.unwrap_or(0.0), 0.5);
    assert_eq!(
        dispatch(0.5, WheelPhase::Moved, &mut state),
        KeyboardInputOutcome::Forwarded {
            viewport_changed: false,
        }
    );

    assert_eq!(
        dispatch(0.25, WheelPhase::Started, &mut state),
        KeyboardInputOutcome::Ignored {
            viewport_changed: false,
        }
    );
    assert_eq!(state.line_remainder.unwrap_or(0.0), 0.25);
    assert_eq!(
        dispatch(0.25, WheelPhase::Cancelled, &mut state),
        KeyboardInputOutcome::Ignored {
            viewport_changed: false,
        }
    );
    assert_eq!(state.line_remainder.unwrap_or(0.0), 0.0);
    assert_eq!(writes.into_inner(), [b"\x1b[<64;1;1M".to_vec()]);

    state.line_remainder = Some(0.75);
    state.reset();
    assert_eq!(state.line_remainder.unwrap_or(0.0), 0.0);
    assert_eq!(state.last_route, None);
}

#[test]
fn every_supported_mouse_tracking_mode_forwards_wheel_reports() {
    for tracking in [
        MouseTracking::Normal,
        MouseTracking::ButtonEvent,
        MouseTracking::AnyEvent,
    ] {
        let mut history = grid_with_scrollback(4, 10);
        history.modes.alternate_scroll = true;
        history.enter_alt_screen();
        history.modes.mouse_tracking = tracking;
        history.modes.mouse_encoding = MouseEncoding::Sgr;
        let grid = Mutex::new(history);
        let writes = RefCell::new(Vec::new());
        let mut state = no_wheel();

        assert_eq!(
            dispatch_mouse_wheel_with(
                &grid,
                Some(at(1.0, 1.0)),
                Some((10, 20)),
                1.0,
                WheelPhase::Moved,
                keys(0),
                &mut state,
                |bytes| {
                    writes.borrow_mut().push(bytes);
                    Ok(())
                },
            )
            .expect("supported mouse tracking should forward wheel input"),
            KeyboardInputOutcome::Forwarded {
                viewport_changed: false,
            }
        );
        assert_eq!(writes.into_inner(), [b"\x1b[<64;1;1M".to_vec()]);
    }
}

#[test]
fn alternate_scroll_forwards_unmodified_cursor_keys_without_pointer_geometry() {
    let mut history = grid_with_scrollback(4, 10);
    history.modes.alternate_scroll = true;
    history.enter_alt_screen();
    let grid = Mutex::new(history);
    let writes = RefCell::new(Vec::new());
    let mut state = no_wheel();
    let modified = keys(SHIFT | ALT | CONTROL);

    assert_eq!(
        dispatch_mouse_wheel_with(
            &grid,
            None,
            None,
            2.0,
            WheelPhase::Moved,
            modified,
            &mut state,
            |bytes| {
                assert!(
                    grid.try_lock().is_ok(),
                    "alternate scroll must enqueue outside the Grid lock"
                );
                writes.borrow_mut().push(bytes);
                Ok(())
            },
        )
        .expect("alternate scroll should forward normal cursor keys"),
        KeyboardInputOutcome::Forwarded {
            viewport_changed: false,
        }
    );

    grid.lock()
        .expect("alternate scroll grid should enable application cursor keys")
        .modes.application_cursor_keys = true;
    assert_eq!(
        dispatch_mouse_wheel_with(
            &grid,
            None,
            None,
            -2.0,
            WheelPhase::Moved,
            modified,
            &mut state,
            |bytes| {
                assert!(grid.try_lock().is_ok());
                writes.borrow_mut().push(bytes);
                Ok(())
            },
        )
        .expect("alternate scroll should honor application cursor key mode"),
        KeyboardInputOutcome::Forwarded {
            viewport_changed: false,
        }
    );

    assert_eq!(
        writes.into_inner(),
        [b"\x1b[A\x1b[A".to_vec(), b"\x1bOB\x1bOB".to_vec()]
    );

    for queue_error in [
        TerminalWriteQueueError::Full,
        TerminalWriteQueueError::Disconnected,
    ] {
        let error = dispatch_mouse_wheel_with(
            &grid,
            None,
            None,
            1.0,
            WheelPhase::Moved,
            keys(0),
            &mut state,
            |_| {
                assert!(grid.try_lock().is_ok());
                Err(queue_error)
            },
        )
        .expect_err("alternate scroll queue failures should be preserved");
        assert!(matches!(
            error,
            KeyboardInputError::Queue(actual) if actual == queue_error
        ));
    }
}

#[test]
fn pointer_positions_map_to_one_based_clamped_terminal_cells() {
    let terminal = TerminalDimensions {
        columns: 80,
        rows: 24,
    };

    assert_eq!(
        terminal_cell_at_pointer(at(0.0, 0.0), (10, 20), terminal),
        Some((1, 1))
    );
    assert_eq!(
        terminal_cell_at_pointer(at(9.999, 19.999), (10, 20), terminal,),
        Some((1, 1))
    );
    assert_eq!(
        terminal_cell_at_pointer(at(10.0, 20.0), (10, 20), terminal),
        Some((2, 2))
    );
    assert_eq!(
        terminal_cell_at_pointer(
            at(f64::MAX, f64::MAX),
            (10, 20),
            terminal,
        ),
        Some((80, 24)),
        "positions beyond a stale surface must clamp to the terminal edge"
    );

    for invalid in [
        terminal_cell_at_pointer(at(-0.1, 0.0), (10, 20), terminal),
        terminal_cell_at_pointer(at(0.0, -0.1), (10, 20), terminal),
        terminal_cell_at_pointer(at(f64::NAN, 0.0), (10, 20), terminal),
        terminal_cell_at_pointer(
            at(0.0, f64::INFINITY),
            (10, 20),
            terminal,
        ),
        terminal_cell_at_pointer(at(0.0, 0.0), (0, 20), terminal),
        terminal_cell_at_pointer(at(0.0, 0.0), (10, 0), terminal),
        terminal_cell_at_pointer(
            at(0.0, 0.0),
            (10, 20),
            TerminalDimensions {
                columns: 0,
                rows: 24,
            },
        ),
        terminal_cell_at_pointer(
            at(0.0, 0.0),
            (10, 20),
            TerminalDimensions {
                columns: 80,
                rows: 0,
            },
        ),
    ] {
        assert_eq!(invalid, None);
    }
}

#[test]
fn wheel_scrolls_locally_or_reports_tracking_without_holding_the_grid_lock() {
    let grid = Mutex::new(grid_with_scrollback(4, 10));
    let enqueue_calls = AtomicUsize::new(0);
    let mut wheel_state = no_wheel();

    assert_eq!(
        dispatch_mouse_wheel_with(
            &grid,
            None,
            None,
            3.0,
            WheelPhase::Moved,
            keys(0),
            &mut wheel_state,
            |_| {
                enqueue_calls.fetch_add(1, Ordering::Relaxed);
                Ok(())
            },
        )
        .expect("local wheel scrolling should succeed"),
        KeyboardInputOutcome::Scrollback {
            viewport_changed: true,
        }
    );
    assert_eq!(
        grid.lock()
            .expect("wheel grid should remain available")
            .scroll_offset,
        3
    );
    assert_eq!(enqueue_calls.load(Ordering::Relaxed), 0);

    assert_eq!(
        dispatch_mouse_wheel_with(
            &grid,
            None,
            None,
            -2.0,
            WheelPhase::Moved,
            keys(0),
            &mut wheel_state,
            |_| {
                enqueue_calls.fetch_add(1, Ordering::Relaxed);
                Ok(())
            },
        )
        .expect("local wheel scrolling down should succeed"),
        KeyboardInputOutcome::Scrollback {
            viewport_changed: true,
        }
    );
    assert_eq!(
        grid.lock()
            .expect("wheel grid should remain available")
            .scroll_offset,
        1
    );

    {
        let mut grid = grid.lock().expect("wheel grid should enable tracking");
        grid.modes.mouse_tracking = MouseTracking::Normal;
        grid.modes.mouse_encoding = MouseEncoding::Sgr;
    }
    let writes = RefCell::new(Vec::new());
    let modified = keys(SHIFT | ALT | CONTROL);
    assert_eq!(
        dispatch_mouse_wheel_with(
            &grid,
            Some(at(25.0, 45.0)),
            Some((10, 20)),
            2.0,
            WheelPhase::Moved,
            modified,
            &mut wheel_state,
            |bytes| {
                assert!(
                    grid.try_lock().is_ok(),
                    "mouse enqueue must run without the Grid lock"
                );
                writes.borrow_mut().push(bytes);
                Ok(())
            },
        )
        .expect("tracked SGR wheel should succeed"),
        KeyboardInputOutcome::Forwarded {
            viewport_changed: false,
        }
    );
    assert_eq!(
        writes.borrow().as_slice(),
        [b"\x1b[<92;3;3M\x1b[<92;3;3M".to_vec()]
    );
    assert_eq!(
        grid.lock()
            .expect("tracked wheel grid should remain available")
            .scroll_offset,
        1,
        "tracked wheel input must preserve scrollback"
    );

    grid.lock()
        .expect("wheel grid should select legacy encoding")
        .modes.mouse_encoding = MouseEncoding::Default;
    assert_eq!(
        dispatch_mouse_wheel_with(
            &grid,
            Some(at(25.0, 45.0)),
            Some((10, 20)),
            -1.0,
            WheelPhase::Moved,
            modified,
            &mut wheel_state,
            |bytes| {
                assert!(grid.try_lock().is_ok());
                writes.borrow_mut().push(bytes);
                Ok(())
            },
        )
        .expect("tracked legacy wheel should succeed"),
        KeyboardInputOutcome::Forwarded {
            viewport_changed: false,
        }
    );
    assert_eq!(
        writes.into_inner(),
        [
            b"\x1b[<92;3;3M\x1b[<92;3;3M".to_vec(),
            vec![0x1b, b'[', b'M', 125, 35, 35],
        ]
    );
    assert_eq!(enqueue_calls.load(Ordering::Relaxed), 0);
}

#[test]
fn tracked_wheel_ignores_missing_geometry_and_preserves_queue_errors() {
    let mut history = grid_with_scrollback(4, 10);
    history.modes.mouse_tracking = MouseTracking::AnyEvent;
    let grid = Mutex::new(history);
    let enqueue_calls = AtomicUsize::new(0);
    let mut wheel_state = no_wheel();

    for (position, cell_dimensions) in [
        (None, Some((10, 20))),
        (Some(at(1.0, 1.0)), None),
        (Some(at(-1.0, 1.0)), Some((10, 20))),
    ] {
        assert_eq!(
            dispatch_mouse_wheel_with(
                &grid,
                position,
                cell_dimensions,
                1.0,
                WheelPhase::Moved,
                keys(0),
                &mut wheel_state,
                |_| {
                    enqueue_calls.fetch_add(1, Ordering::Relaxed);
                    Ok(())
                },
            )
            .expect("missing mouse geometry should be ignored"),
            KeyboardInputOutcome::Ignored {
                viewport_changed: false,
            }
        );
    }
    assert_eq!(enqueue_calls.load(Ordering::Relaxed), 0);

    for queue_error in [
        TerminalWriteQueueError::Full,
        TerminalWriteQueueError::Disconnected,
    ] {
        let error = dispatch_mouse_wheel_with(
            &grid,
            Some(at(1.0, 1.0)),
            Some((10, 20)),
            1.0,
            WheelPhase::Moved,
            keys(0),
            &mut wheel_state,
            |_| {
                assert!(
                    grid.try_lock().is_ok(),
                    "mouse queue errors must be returned outside the Grid lock"
                );
                Err(queue_error)
            },
        )
        .expect_err("mouse queue failures should be preserved");
        assert!(matches!(
            error,
            KeyboardInputError::Queue(actual) if actual == queue_error
        ));
    }
}

#[test]
fn focus_loss_clears_stale_keyboard_modifiers() {
    let active = keys(CONTROL | ALT | SHIFT);

    assert_eq!(modifiers_after_focus_change(active, true), active);
    assert_eq!(
        modifiers_after_focus_change(active, false),
        keys(0)
    );
}

#[test]
fn repeated_window_focus_states_are_not_transitions() {
    let mut last_window_focus = None;

    assert!(record_window_focus_change(&mut last_window_focus, false));
    assert_eq!(last_window_focus, Some(false));
    assert!(!record_window_focus_change(&mut last_window_focus, false));
    assert!(record_window_focus_change(&mut last_window_focus, true));
    assert_eq!(last_window_focus, Some(true));
    assert!(!record_window_focus_change(&mut last_window_focus, true));
    assert!(record_window_focus_change(&mut last_window_focus, false));
}

#[test]
fn focus_reporting_is_gated_and_writes_exact_bytes_without_scrolling() {
    assert_eq!(focus_report_bytes(true), b"\x1b[I");
    assert_eq!(focus_report_bytes(false), b"\x1b[O");

    let mut history = grid_with_scrollback(3, 5);
    history.scroll_viewport_up(history.scrollback_len());
    let grid = Mutex::new(history);
    let writes = RefCell::new(Vec::new());
    let dispatch = |focused| {
        dispatch_focus_event_with(&grid, focused, |bytes| {
            assert!(
                grid.try_lock().is_ok(),
                "focus enqueue must run without the Grid lock"
            );
            writes.borrow_mut().push(bytes);
            Ok(())
        })
        .expect("fake focus report should succeed")
    };

    assert_eq!(
        dispatch(true),
        KeyboardInputOutcome::Ignored {
            viewport_changed: false,
        }
    );
    assert!(writes.borrow().is_empty());

    grid.lock()
        .expect("fresh Grid should enable focus reporting")
        .modes.focus_events = true;
    assert_eq!(
        dispatch(true),
        KeyboardInputOutcome::Forwarded {
            viewport_changed: false,
        }
    );
    assert_eq!(
        dispatch(false),
        KeyboardInputOutcome::Forwarded {
            viewport_changed: false,
        }
    );
    assert_eq!(
        writes.into_inner(),
        [b"\x1b[I".to_vec(), b"\x1b[O".to_vec()]
    );
    assert_eq!(
        grid.lock()
            .expect("focus reporting should keep the Grid available")
            .scroll_offset,
        5,
        "focus reports must preserve the user's scrollback position"
    );

    for queue_error in [
        TerminalWriteQueueError::Full,
        TerminalWriteQueueError::Disconnected,
    ] {
        let error = dispatch_focus_event_with(&grid, true, |_| {
            assert!(
                grid.try_lock().is_ok(),
                "focus queue errors must be returned outside the Grid lock"
            );
            Err(queue_error)
        })
        .expect_err("focus queue failures should be preserved");
        assert!(matches!(
            error,
            KeyboardInputError::Queue(actual) if actual == queue_error
        ));
    }
}

#[test]
fn keyboard_forwarding_skips_empty_output_and_preserves_queue_errors() {
    let mut history = grid_with_scrollback(4, 6);
    history.scroll_viewport_up(history.scrollback_len());
    let grid = Mutex::new(history);
    let writes = AtomicUsize::new(0);

    assert_eq!(
        dispatch_keyboard_input_with(
            &grid,
            None,
            |_| None,
            |_| {
                writes.fetch_add(1, Ordering::Relaxed);
                Ok(())
            },
        )
        .expect("empty keyboard output should be a no-op"),
        KeyboardInputOutcome::Ignored {
            viewport_changed: false,
        }
    );
    assert_eq!(
        grid.lock()
            .expect("keyboard dispatch should keep the grid available")
            .scroll_offset,
        6,
        "ignored keys must preserve the scrollback position"
    );
    assert_eq!(writes.load(Ordering::Relaxed), 0);

    let error = dispatch_keyboard_input_with(
        &grid,
        None,
        |_| Some(b"x".to_vec()),
        |_| Err(TerminalWriteQueueError::Full),
    )
    .expect_err("fake queue failure should be preserved");
    assert!(matches!(
        error,
        KeyboardInputError::Queue(TerminalWriteQueueError::Full)
    ));
}
