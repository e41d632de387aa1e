//! The state of the window through its events.
use kokuban::grid::{Grid, MouseEncoding, MouseTracking};
use kokuban::input::linux::{KeyInput, LogicalKey, Modifiers, NamedKey};
use kokuban::window::dispatch::{
    InputPlan, KeyboardInputError, KeyboardInputOutcome, MotionPlan, MouseButton,
    TerminalWriteQueueError, WheelPhase,
};
use kokuban::window::geometry::{PixelSize, TerminalDimensions};
use kokuban::window::paint::{CellColors, Paint, ResolvedCellColors, ScreenColors};
use kokuban::window::pointer::{Coordinate, MouseWheelRoute};
use kokuban::window::snapshot::snapshot_grid;
use kokuban::window::state::{Reaction, ResizeStep, WindowError, WindowState};
use kokuban::window::status::{
    reader_status_result, writer_status_result, ReaderStatus, WriterStatus,
};
use kokuban::window::title::{normalized_window_title, sync_window_title, WINDOW_TITLE};

const NOTHING: Reaction =
    Reaction { redraw: false, stop_reader: false, stop_writer: false, exit: false };
const REDRAW: Reaction = Reaction { redraw: true, ..NOTHING };
const END: Reaction = Reaction { redraw: false, stop_reader: true, stop_writer: true, exit: true };

fn window() -> WindowState<f64> {
    let mut state = WindowState::new(false);
    state.has_window = true;
    state.cell_dimensions = Some((10, 20));
    state
}

fn key(named: NamedKey) -> KeyInput<'static> {
    KeyInput {
        logical_key: LogicalKey::Named(named),
        pressed: true,
        repeat: false,
        text: None,
        control_text: None,
    }
}

fn sent(plan: Option<InputPlan>) -> Vec<u8> {
    match plan {
        Some(InputPlan::Send { bytes, .. }) => bytes,
        other => panic!("nothing to send: {other:?}"),
    }
}

#[test]
fn the_first_error_counts_and_input_ends_with_it() {
    let mut state = window();
    let mut grid = Grid::new(8, 2, 0);
    assert!(state.terminal_accepts_input());
    assert_eq!(state.fail(WindowError::Message("first".into())), END);
    assert_eq!(state.fail(WindowError::Message("second".into())), END);
    assert!(!state.terminal_accepts_input());
    assert!(state.keyboard_input(&mut grid, key(NamedKey::Enter), false).is_none());
    match state.finish() {
        Err(WindowError::Message(words)) => assert_eq!(words, "first"),
        other => panic!("unexpected end: {other:?}"),
    }
    assert!(state.finish().is_ok(), "an error is handed out once");
}

#[test]
fn keys_are_sent_or_scroll_and_failures_end_the_window() {
    let mut state = window();
    let mut grid = Grid::new(8, 2, 10);
    grid.scroll_up(4);
    state.modifiers_changed(Modifiers::new(true, false, false, false));
    let plan = state.keyboard_input(&mut grid, key(NamedKey::PageUp), false);
    assert!(matches!(
        plan,
        Some(InputPlan::Done(KeyboardInputOutcome::Scrollback { viewport_changed: true }))
    ));
    state.modifiers_changed(Modifiers::new(false, false, false, false));
    assert_eq!(sent(state.keyboard_input(&mut grid, key(NamedKey::ArrowUp), false)), b"\x1b[A");
    assert_eq!(grid.scroll_offset, 0);
    assert!(state.keyboard_input(&mut grid, key(NamedKey::ArrowUp), true).is_none());

    let moved = KeyboardInputOutcome::Forwarded { viewport_changed: true };
    assert_eq!(state.handle_terminal_input_result(Ok(moved)), REDRAW);
    let error = KeyboardInputError::Queue(TerminalWriteQueueError::Full);
    assert_eq!(state.handle_terminal_input_result(Err(error)), END);
    assert!(matches!(state.finish(), Err(WindowError::Input(kept)) if kept == error));
}

#[test]
fn a_press_holds_the_terminal_until_its_release() {
    let mut state = window();
    let mut grid = Grid::new(8, 4, 0);
    grid.modes.mouse_tracking = MouseTracking::ButtonEvent;
    grid.modes.mouse_encoding = MouseEncoding::Sgr;
    let place = (Coordinate::At(25), Coordinate::At(45));

    let plan = state.cursor_moved(&grid, 1, place).unwrap();
    assert!(matches!(plan, MotionPlan::Done(_)));
    assert_eq!(state.finish_cursor_moved(&plan, Ok(())), NOTHING);
    assert_eq!(state.pointer_route.motion_state.last_cell, Some((3, 3)));

    let (plan, cell) = state.mouse_input(&grid, 1, true, MouseButton::Left).unwrap();
    assert_eq!(cell, Some((10, 20)));
    match &plan.plan {
        InputPlan::Send { bytes, .. } => assert_eq!(bytes, b"\x1b[<0;3;3M"),
        other => panic!("nothing to send: {other:?}"),
    }
    let reaction = state.finish_mouse_input(1, true, MouseButton::Left, &plan, cell, Ok(()));
    assert_eq!(reaction, NOTHING);
    assert!(state.mouse_input(&grid, 2, true, MouseButton::Left).is_none());
    assert!(state.begin_mouse_wheel(&grid, 2, WheelPhase::Moved).is_none());

    let drag = state.cursor_moved(&grid, 1, (Coordinate::Negative, Coordinate::At(45))).unwrap();
    match &drag {
        MotionPlan::Send { bytes, cell } => {
            assert_eq!(bytes, b"\x1b[<32;1;3M");
            assert_eq!(*cell, (1, 3));
        }
        other => panic!("nothing to send: {other:?}"),
    }
    state.finish_cursor_moved(&drag, Err(TerminalWriteQueueError::Full));
    assert_eq!(state.pointer_route.motion_state.last_cell, Some((3, 3)));

    let (plan, cell) = state.mouse_input(&grid, 1, false, MouseButton::Left).unwrap();
    state.finish_mouse_input(1, false, MouseButton::Left, &plan, cell, Ok(()));
    assert!(!state.pointer_route.has_pointer_capture());
    let gone = Err(TerminalWriteQueueError::Disconnected);
    let plan = state.cursor_moved(&grid, 1, (Coordinate::At(5), Coordinate::At(5))).unwrap();
    assert_eq!(state.finish_cursor_moved(&plan, gone), NOTHING, "nothing was sent");
}

#[test]
fn the_wheel_goes_where_the_terminal_wants_it() {
    let mut state = window();
    let mut grid = Grid::new(8, 2, 10);
    grid.scroll_up(4);
    let position = state.begin_mouse_wheel(&grid, 1, WheelPhase::Started).unwrap();
    assert_eq!(position, None);
    assert_eq!(
        state.pointer_route.wheel_state.last_route,
        Some(MouseWheelRoute::Scrollback)
    );
    state.pointer_route.wheel_state.line_remainder = Some(0.25);
    let plan = state.turn_mouse_wheel(&mut grid, position, 2, WheelPhase::Ended);
    assert!(matches!(
        plan,
        InputPlan::Done(KeyboardInputOutcome::Scrollback { viewport_changed: true })
    ));
    assert_eq!(grid.scroll_offset, 2);
    assert_eq!(state.pointer_route.wheel_state.line_remainder, None);
}

#[test]
fn losing_the_focus_drops_modifiers_and_composed_text() {
    let mut state = window();
    let mut grid = Grid::new(8, 2, 0);
    grid.modes.focus_events = true;
    state.ime_enabled();
    assert_eq!(state.ime_composed(&mut grid, "に".into(), Some((3, 3))), REDRAW);
    assert_eq!(state.ime_composed(&mut grid, "に".into(), Some((3, 3))), NOTHING);
    state.modifiers_changed(Modifiers::new(false, true, false, false));

    let (reaction, plan) = state.focused(&grid, false);
    assert_eq!(reaction, REDRAW);
    assert_eq!(sent(plan), b"\x1b[O");
    assert!(state.ime_preedit.is_none());
    assert_eq!(state.modifiers, Modifiers::new(false, false, false, false));
    let (reaction, plan) = state.focused(&grid, false);
    assert_eq!(reaction, NOTHING);
    assert!(plan.is_none(), "the focus has not changed");
    assert_eq!(sent(state.focused(&grid, true).1), b"\x1b[I");
}

#[test]
fn composed_text_is_limited_and_brings_the_screen_back() {
    let mut state = window();
    let mut grid = Grid::new(8, 2, 10);
    grid.scroll_up(4);
    grid.scroll_viewport_up(3);
    assert_eq!(grid.scroll_offset, 2);
    assert_eq!(state.ime_composed(&mut grid, "x".into(), None), NOTHING, "the method is off");
    assert_eq!(grid.scroll_offset, 2);
    assert_eq!(state.ime_enabled(), REDRAW);
    assert_eq!(state.ime_composed(&mut grid, "x".into(), None), REDRAW);
    assert_eq!(grid.scroll_offset, 0);
    assert_eq!(state.ime_composed(&mut grid, "x".repeat(5000), None), REDRAW);
    assert!(state.ime_preedit.is_none(), "a text that is too long is dropped");

    let (_, plan) = state.ime_committed(&mut grid, "x".repeat(70_000));
    assert!(plan.is_none());
    let (_, plan) = state.ime_committed(&mut grid, String::new());
    assert!(plan.is_none());
    assert_eq!(sent(state.ime_committed(&mut grid, "é".into()).1), "é".as_bytes());
}

#[test]
fn sizes_are_reconciled_and_failures_keep_the_grid() {
    let mut state = window();
    let mut grid = Grid::new(80, 24, 0);
    let size = |width, height| PixelSize { width, height };
    assert_eq!(
        state.resized(&grid, size(800, 480), Some(size(810, 480))),
        ResizeStep::Stale
    );
    assert_eq!(state.resized(&grid, size(805, 481), None), ResizeStep::Done(REDRAW));
    assert_eq!(state.resized(&grid, size(0, 481), None), ResizeStep::Done(REDRAW));
    let target = TerminalDimensions { columns: 40, rows: 10 };
    assert_eq!(
        state.resized(&grid, size(400, 200), Some(size(400, 200))),
        ResizeStep::Tell(target)
    );
    assert_eq!(state.finish_resize(&mut grid, target, Ok(())), REDRAW);
    assert_eq!((grid.cols(), grid.rows()), (40, 10));
    assert_eq!(state.finish_resize(&mut grid, target, Err("no".into())), END);
    assert_eq!((grid.cols(), grid.rows()), (40, 10));

    let mut blank = WindowState::<f64>::new(false);
    assert_eq!(blank.resized(&grid, size(400, 200), None), ResizeStep::Done(END));
    assert!(matches!(blank.finish(), Err(WindowError::MetricsNotReady)));
}

#[test]
fn another_scale_forgets_positions_and_keeps_the_grid() {
    let mut state = window();
    let mut grid = Grid::new(80, 24, 0);
    state.cursor_moved(&grid, 1, (Coordinate::At(5), Coordinate::At(5)));
    state.scale_factor_changed();
    assert_eq!(state.pointer_route.position_for(1), None);
    assert_eq!(
        state.glyphs_rebuilt(&mut grid, Some((20, 40))),
        Ok(PixelSize { width: 1600, height: 960 })
    );
    assert_eq!((grid.images.cell_pixel_width, grid.images.cell_pixel_height), (20, 40));
    assert_eq!(
        state.glyphs_rebuilt(&mut grid, None),
        Ok(PixelSize { width: 1600, height: 960 })
    );
    let mut blank = WindowState::<f64>::new(false);
    assert_eq!(blank.glyphs_rebuilt(&mut grid, None), Err(END));
}

#[test]
fn the_last_output_is_shown_before_the_window_ends() {
    let mut state = window();
    let exit = state.reader_exited(ReaderStatus::Failed("read failed".into()));
    assert_eq!(exit, Reaction { redraw: true, stop_writer: true, ..NOTHING });
    let again = state.reader_exited(ReaderStatus::Normal);
    assert_eq!(again, REDRAW, "the first report counts");
    assert!(!state.terminal_accepts_input());
    assert_eq!(state.frame_presented(Ok(Some(true))), END);
    assert!(matches!(state.finish(), Err(WindowError::Message(words)) if words == "read failed"));

    let mut state = window();
    assert_eq!(state.frame_presented(Ok(None)), NOTHING);
    assert_eq!(state.grid_updated(), REDRAW);
    assert_eq!(state.writer_exited(WriterStatus::Normal), NOTHING);
    assert_eq!(state.close_requested(), END);
    assert!(state.finish().is_ok());
    assert_eq!(state.writer_exited(WriterStatus::Failed("queue".into())), END);
    assert!(reader_status_result(ReaderStatus::Normal).is_ok());
    assert_eq!(writer_status_result(WriterStatus::Failed("w".into())), Err("w".to_string()));
}

#[test]
fn a_window_for_one_frame_must_show_something() {
    let mut state = WindowState::<f64>::new(true);
    assert!(matches!(state.finish(), Err(WindowError::NoFirstFrame)));
    assert_eq!(state.frame_presented(Ok(Some(false))), END);
    assert!(matches!(state.finish(), Err(WindowError::EmptyFirstFrame)));
    assert!(state.finish().is_ok());

    let mut state = WindowState::<f64>::new(true);
    assert_eq!(state.frame_presented(Ok(Some(true))), END);
    assert!(state.finish().is_ok());
    let mut state = WindowState::<f64>::new(false);
    assert_eq!(state.frame_presented(Err(WindowError::MetricsNotReady)), END);
}

#[test]
fn a_frame_needs_a_window_with_an_area_and_metrics() {
    let size = |width, height| PixelSize { width, height };
    let mut grid = Grid::new(80, 24, 0);
    let mut state = WindowState::<f64>::new(true);
    assert!(matches!(state.frame_extent(size(800, 480)), Err(WindowError::NoWindow)));
    let mut refused = WindowState::<f64>::new(true);
    assert_eq!(refused.window_created(&mut grid, (0, 20)), Err(END));
    assert!(!refused.has_window);
    assert_eq!(refused.cell_dimensions, None);
    assert!(matches!(refused.finish(), Err(WindowError::NoSurface(_))));
    assert_eq!(
        state.window_created(&mut grid, (10, 20)),
        Ok(size(800, 480))
    );
    assert!(matches!(state.frame_extent(size(0, 480)), Ok(None)));
    assert!(matches!(state.frame_extent(size(9000, 480)), Err(WindowError::Surface(_))));
    assert_eq!(
        state.frame_extent(size(800, 480)).unwrap(),
        Some(((800, 480), (10, 20)))
    );
    state.cell_dimensions = None;
    assert!(matches!(state.frame_extent(size(800, 480)), Err(WindowError::MetricsNotReady)));

    assert!(!state.shows_content(&[7, 7, 7], 7));
    assert!(state.shows_content(&[7, 8, 7], 7));
    assert!(window().shows_content(&[7, 7, 7], 7));
}

#[test]
fn titles_are_shown_without_controls() {
    assert_eq!(normalized_window_title("a\u{1b}b\u{9c}c"), "abc");
    assert_eq!(normalized_window_title(""), WINDOW_TITLE);
    let mut applied = WINDOW_TITLE.to_string();
    assert!(!sync_window_title(&mut applied, WINDOW_TITLE));
    assert!(sync_window_title(&mut applied, "vim"));
    assert_eq!(applied, "vim");
}

#[test]
fn a_frame_shows_the_cursor_unless_text_is_composed() {
    let mut grid = Grid::new(3, 1, 0);
    grid.put_char('a');
    let snapshot = snapshot_grid(&grid);
    let shade = ResolvedCellColors { foreground: 0x00ff_ffff, background: 0 };
    let colors = ScreenColors {
        cells: vec![CellColors { text: shade, underline: 0 }; 3],
        fallback: shade,
    };
    let fills = |paints: &[Paint]| {
        paints
            .iter()
            .filter(|step| matches!(step, Paint::Fill { .. }))
            .count()
    };
    let plain = kokuban::window::frame::plan_frame(&snapshot, &colors, (10, 20), (30, 20), None);
    assert_eq!(fills(&plain.paints), 4);
    assert_eq!(plain.paints.len(), 5);
    assert_eq!(plain.ime_area.unwrap().x, 10);
    match plain.paints[4] {
        Paint::Fill { origin, size, color, alpha } => {
            assert_eq!((origin, size), ((10, 0), (10, 20)));
            assert_eq!((color, alpha), (0x00ff_ffff, 180));
        }
        other => panic!("unexpected step: {other:?}"),
    }

    let mut state = window();
    state.ime_enabled();
    state.ime_composed(&mut grid, "x".into(), Some((1, 1)));
    let composed = kokuban::window::frame::plan_frame(
        &snapshot,
        &colors,
        (10, 20),
        (30, 20),
        state.ime_preedit.as_ref(),
    );
    // Three cells, then background, line and caret of the composed text.
    assert_eq!(fills(&composed.paints), 6);
    assert_eq!(composed.ime_area.unwrap().x, 20);
}
