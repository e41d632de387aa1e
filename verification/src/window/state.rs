//! The state of the window, and how it answers the events of the window system
//! and of the threads around the terminal.
use crate::grid::terminal::{Grid, GridView, ImagesView};
use crate::input::linux::{
    forwards, key_press_from_event, local_action, named_of, scrollback_action_from_event, KeyInput,
    LinuxKeyPress, Modifiers, ScrollbackAction,
};
use crate::window::dispatch::{
    begin_wheel, button_code, button_plan, dispatch_encoded_terminal_input, dispatch_focus_event,
    dispatch_keyboard_input, dispatch_mouse_button, dispatch_mouse_motion, dispatch_mouse_wheel,
    end_wheel, finish_input, finish_motion, focus_plan, input_result, key_plan,
    modifiers_after_focus_change, motion_plan, motion_result, mouse_button_code, mouse_wheel_route,
    record_window_focus_change, sent_plan, settle_motion, settled, turned, turning, wheel_plan,
    wheel_route, ButtonPlan, InputPlan, KeyboardInputError, KeyboardInputOutcome, MotionPlan,
    MouseButton, PointerLocation, TerminalWriteQueueError, WheelPhase,
};
use crate::window::geometry::{
    dimensions_for_surface, drawable_dimensions, grid_dimensions, is_current_surface_size,
    surface_for_dimensions, terminal_dimensions_for_surface, terminal_dimensions_from_locked_grid,
    physical_size_for_terminal, GridAccessError, ImeCursorArea, PixelSize, SurfaceSizeError,
    TerminalDimensions,
};
use crate::window::pointer::{DeviceId, PointerRouteState, PointerView, Position};
use crate::window::preedit::{
    ime_commit_payload, ime_preedit_payload, preedit_view, replace_ime_preedit, same_preedit,
    taken_up, ImeCommitPayload, ImePreedit, ImePreeditPayload, MAX_IME_COMMIT_BYTES,
};
use crate::window::status::{terminal_accepts_input, ReaderStatus, WriterStatus};
use vstd::prelude::*;
use vstd::utf8::encode_utf8;

verus! {

/// Why the window closed by itself.
#[derive(Debug)]
pub enum WindowError {
    /// An error of the system, in its words.
    Message(String),
    Input(KeyboardInputError),
    Grid(GridAccessError),
    Resize { target: TerminalDimensions, message: String },
    ResizeGrid { target: TerminalDimensions, error: GridAccessError },
    /// The glyphs have no size yet.
    MetricsNotReady,
    /// There is no window yet.
    NoWindow,
    Surface(SurfaceSizeError),
    /// No window can show the screen.
    NoSurface(TerminalDimensions),
    /// A window that was to show one frame showed an empty one.
    EmptyFirstFrame,
    /// A window that was to show one frame showed none.
    NoFirstFrame,
}

/// What the window is to do besides.
#[derive(Debug, Clone, Copy, PartialEq, Eq, Structural)]
pub struct Reaction {
    pub redraw: bool,
    pub stop_reader: bool,
    pub stop_writer: bool,
    pub exit: bool,
}

pub open spec fn nothing() -> Reaction {
    Reaction { redraw: false, stop_reader: false, stop_writer: false, exit: false }
}

pub open spec fn redrawing(redraw: bool) -> Reaction {
    Reaction { redraw, ..nothing() }
}

/// The terminal ends, and the window with it.
pub open spec fn ending() -> Reaction {
    Reaction { redraw: false, stop_reader: true, stop_writer: true, exit: true }
}

fn no_reaction() -> (r: Reaction)
    ensures
        r == nothing(),
{
    Reaction { redraw: false, stop_reader: false, stop_writer: false, exit: false }
}

fn redraw_reaction(redraw: bool) -> (r: Reaction)
    ensures
        r == redrawing(redraw),
{
    Reaction { redraw, stop_reader: false, stop_writer: false, exit: false }
}

fn end_reaction() -> (r: Reaction)
    ensures
        r == ending(),
{
    Reaction { redraw: false, stop_reader: true, stop_writer: true, exit: true }
}

/// The state of the window. `F` is the number in which a wheel is measured.
#[derive(Debug)]
pub struct WindowState<F> {
    pub has_window: bool,
    pub exiting: bool,
    pub cell_dimensions: Option<(u16, u16)>,
    pub exit_after_first_frame: bool,
    pub first_frame_presented: bool,
    pub reader_status: Option<ReaderStatus>,
    pub modifiers: Modifiers,
    pub last_window_focus: Option<bool>,
    pub pointer_route: PointerRouteState<F>,
    pub ime_active: bool,
    pub ime_preedit: Option<ImePreedit>,
    pub last_ime_cursor_area: Option<ImeCursorArea>,
    pub error: Option<WindowError>,
}

/// The place of a pointer, if its position and the size of a cell are known.
pub open spec fn located(position: Option<Position>, cell: Option<(u16, u16)>) -> Option<
    PointerLocation,
> {
    match (position, cell) {
        (Some(position), Some(cell_dimensions)) => Some(
            PointerLocation { x: position.0, y: position.1, cell_dimensions },
        ),
        _ => None,
    }
}

fn locate(position: Option<Position>, cell: Option<(u16, u16)>) -> (r: Option<PointerLocation>)
    ensures
        r == located(position, cell),
{
    match (position, cell) {
        (Some(position), Some(cell_dimensions)) => Some(
            PointerLocation { x: position.0, y: position.1, cell_dimensions },
        ),
        _ => None,
    }
}

/// The area to hand to the input method: nothing while it is off, and nothing
/// that it was told already.
pub open spec fn ime_area_to_set(
    active: bool,
    last: Option<ImeCursorArea>,
    next: Option<ImeCursorArea>,
) -> Option<ImeCursorArea> {
    if active && next is Some && last != next { next } else { None }
}

pub fn sync_ime_cursor_area(
    ime_active: bool,
    last_area: &mut Option<ImeCursorArea>,
    next_area: Option<ImeCursorArea>,
) -> (r: Option<ImeCursorArea>)
    ensures
        r == ime_area_to_set(ime_active, *old(last_area), next_area),
        *final(last_area) == if r is Some { r } else { *old(last_area) },
{
    if !ime_active {
        return None;
    }
    let next: ImeCursorArea = match next_area {
        Some(next) => next,
        None => {
            return None;
        },
    };
    if let Some(last) = *last_area {
        if last == next {
            return None;
        }
    }
    *last_area = Some(next);
    Some(next)
}

/// Return the viewport to the screen, where composed text is shown; the result
/// tells whether it moved.
pub fn reveal_ime_input_viewport(grid: &mut Grid) -> (r: bool)
    requires
        old(grid).wf(),
    ensures
        final(grid).wf(),
        r == (old(grid)@.scroll_offset != 0),
        final(grid)@ == old(grid)@.viewport_home(),
{
    let changed: bool = grid.scroll_offset != 0;
    grid.scroll_to_bottom();
    changed
}

pub fn set_grid_cell_dimensions(grid: &mut Grid, cell_dimensions: (u16, u16))
    requires
        old(grid).wf(),
    ensures
        final(grid).wf(),
        final(grid)@ == (GridView {
            images: ImagesView {
                cell_pixel_width: cell_dimensions.0,
                cell_pixel_height: cell_dimensions.1,
                ..old(grid)@.images
            },
            ..old(grid)@
        }),
{
    grid.images.cell_pixel_width = cell_dimensions.0;
    grid.images.cell_pixel_height = cell_dimensions.1;
}

impl<F> WindowState<F> {
    /// The terminal still takes input.
    pub open spec fn accepts_input(self) -> bool {
        !self.exiting && self.reader_status is None
    }

    /// The state after an error. The first error counts.
    pub open spec fn failed(self, error: WindowError) -> WindowState<F> {
        WindowState {
            error: if self.error is Some { self.error } else { Some(error) },
            ime_preedit: None,
            exiting: true,
            ..self
        }
    }

    /// The state once the terminal is asked to end.
    pub open spec fn ended(self) -> WindowState<F> {
        WindowState { ime_preedit: None, exiting: true, ..self }
    }

    /// The state with or without the focus. Without it no modifier is known to
    /// be held, and no text is composed.
    pub open spec fn with_focus(self, focused: bool) -> WindowState<F> {
        WindowState {
            modifiers: if focused {
                self.modifiers
            } else {
                Modifiers { shift: false, control: false, alt: false, super_key: false }
            },
            ime_preedit: if focused { self.ime_preedit } else { None },
            last_window_focus: Some(focused),
            ..self
        }
    }

    /// A focus is one that the program may be told of.
    pub open spec fn tells_focus(self, focused: bool) -> bool {
        self.last_window_focus != Some(focused) && self.accepts_input()
    }

    /// The state after the input method was switched on or off.
    pub open spec fn with_input_method(self, active: bool) -> WindowState<F> {
        WindowState { ime_active: active, ime_preedit: None, last_ime_cursor_area: None, ..self }
    }

    /// The state after the program ended. Its first end counts.
    pub open spec fn without_program(self, status: ReaderStatus) -> WindowState<F> {
        WindowState {
            ime_preedit: None,
            reader_status: if self.reader_status is Some {
                self.reader_status
            } else {
                Some(status)
            },
            ..self
        }
    }

    /// What the end of the program asks for: a last frame, and no more input.
    pub open spec fn program_left(self) -> Reaction {
        Reaction {
            redraw: self.has_window,
            stop_writer: self.reader_status is None,
            ..nothing()
        }
    }

    /// The error that the window ends with.
    pub open spec fn final_error(self) -> Option<WindowError> {
        if self.error is Some {
            self.error
        } else if self.exit_after_first_frame && !self.first_frame_presented {
            Some(WindowError::NoFirstFrame)
        } else {
            None
        }
    }

    /// The size of the next frame and of its cells.
    pub open spec fn frame_size(self, size: PixelSize) -> Result<
        Option<((u32, u32), (u16, u16))>,
        WindowError,
    > {
        if !self.has_window {
            Err(WindowError::NoWindow)
        } else if size.width == 0 || size.height == 0 {
            Ok(None)
        } else if size.width > 8192 || size.height > 4320 {
            Err(
                WindowError::Surface(
                    SurfaceSizeError::ExceedsRenderBudget {
                        width: size.width,
                        height: size.height,
                    },
                ),
            )
        } else {
            match self.cell_dimensions {
                None => Err(WindowError::MetricsNotReady),
                Some(cell) => Ok(Some(((size.width, size.height), cell))),
            }
        }
    }

    /// The state with another composed text.
    pub open spec fn composing(self, next: Option<ImePreedit>) -> WindowState<F> {
        WindowState {
            ime_preedit: if same_preedit(self.ime_preedit, next) { self.ime_preedit } else { next },
            ..self
        }
    }

    /// Another composed text is to be drawn.
    pub open spec fn redraws_for(self, next: Option<ImePreedit>) -> bool {
        self.has_window && !same_preedit(self.ime_preedit, next)
    }

    pub fn new(exit_after_first_frame: bool) -> (r: WindowState<F>)
        ensures
            r.pointer_route@ == PointerView::<F>::idle(),
            r == (WindowState {
                has_window: false,
                exiting: false,
                cell_dimensions: None,
                exit_after_first_frame,
                first_frame_presented: false,
                reader_status: None,
                modifiers: Modifiers { shift: false, control: false, alt: false, super_key: false },
                last_window_focus: None,
                pointer_route: r.pointer_route,
                ime_active: false,
                ime_preedit: None,
                last_ime_cursor_area: None,
                error: None,
            }),
    {
        WindowState {
            has_window: false,
            exiting: false,
            cell_dimensions: None,
            exit_after_first_frame,
            first_frame_presented: false,
            reader_status: None,
            modifiers: Modifiers { shift: false, control: false, alt: false, super_key: false },
            last_window_focus: None,
            pointer_route: PointerRouteState::idle(),
            ime_active: false,
            ime_preedit: None,
            last_ime_cursor_area: None,
            error: None,
        }
    }

    pub fn terminal_accepts_input(&self) -> (r: bool)
        ensures
            r == self.accepts_input(),
    {
        terminal_accepts_input(self.exiting, self.reader_status.as_ref())
    }

    pub fn fail(&mut self, error: WindowError) -> (r: Reaction)
        ensures
            *final(self) == old(self).failed(error),
            r == ending(),
    {
        if self.error.is_none() {
            self.error = Some(error);
        }
        self.ime_preedit = None;
        self.exiting = true;
        end_reaction()
    }

    pub fn close_requested(&mut self) -> (r: Reaction)
        ensures
            *final(self) == old(self).ended(),
            r == ending(),
    {
        self.ime_preedit = None;
        self.exiting = true;
        end_reaction()
    }

    /// Take up another composed text; the result tells whether to draw it.
    pub fn update_ime_preedit(&mut self, next: Option<ImePreedit>) -> (r: bool)
        ensures
            *final(self) == old(self).composing(next),
            r == old(self).redraws_for(next),
    {
        let changed: bool = replace_ime_preedit(&mut self.ime_preedit, next);
        changed && self.has_window
    }

    /// The state and the answer once input was handed over, or could not be.
    pub open spec fn input_handled(
        self,
        result: Result<KeyboardInputOutcome, KeyboardInputError>,
    ) -> (WindowState<F>, Reaction) {
        match result {
            Ok(outcome) => (self, redrawing(self.has_window && outcome.moved_viewport())),
            Err(error) => (self.failed(WindowError::Input(error)), ending()),
        }
    }

    pub fn handle_terminal_input_result(
        &mut self,
        result: Result<KeyboardInputOutcome, KeyboardInputError>,
    ) -> (r: Reaction)
        ensures
            (*final(self), r) == old(self).input_handled(result),
    {
        match result {
            Ok(outcome) => redraw_reaction(self.has_window && outcome.viewport_changed()),
            Err(error) => self.fail(WindowError::Input(error)),
        }
    }

    pub fn modifiers_changed(&mut self, modifiers: Modifiers)
        ensures
            *final(self) == (WindowState { modifiers, ..*old(self) }),
    {
        self.modifiers = modifiers;
    }

    /// Decide on a pointer move; no plan where the pointer is not followed or
    /// the terminal takes no input.
    pub fn cursor_moved(&mut self, grid: &Grid, device_id: DeviceId, position: Position) -> (r: Option<
        MotionPlan,
    >)
        ensures
            final(self).pointer_route@ == old(self).pointer_route@.moved(device_id, position),
            *final(self) == (WindowState {
                pointer_route: final(self).pointer_route,
                ..*old(self)
            }),
            r is Some <==> old(self).pointer_route@.admits(device_id) && old(self).accepts_input(),
            r is Some ==> motion_plan(
                r->0,
                grid@,
                located(Some(position), old(self).cell_dimensions),
                final(self).pointer_route@.motion_button(),
                old(self).modifiers,
                final(self).pointer_route@.motion_state.last_cell,
            ),
    {
        if !self.pointer_route.cursor_moved(device_id, position) || !self.terminal_accepts_input() {
            return None;
        }
        let button: Option<u8> = self.pointer_route.active_motion_button();
        let location: Option<PointerLocation> = locate(Some(position), self.cell_dimensions);
        Some(
            dispatch_mouse_motion(
                grid,
                location,
                button,
                self.modifiers,
                self.pointer_route.motion_state.last_cell,
            ),
        )
    }

    /// A pointer move was handed over, or could not be.
    pub fn finish_cursor_moved(
        &mut self,
        plan: &MotionPlan,
        queued: Result<(), TerminalWriteQueueError>,
    ) -> (r: Reaction)
        ensures
            match motion_result(*plan, queued) {
                Ok(outcome) => {
                    &&& r == nothing()
                    &&& final(self).pointer_route@ == (PointerView {
                        motion_state: old(self).pointer_route@.motion_state.after(outcome),
                        ..old(self).pointer_route@
                    })
                    &&& *final(self) == (WindowState {
                        pointer_route: final(self).pointer_route,
                        ..*old(self)
                    })
                },
                Err(error) => *final(self) == old(self).failed(WindowError::Input(error)) && r
                    == ending(),
            },
    {
        match finish_motion(plan, queued) {
            Ok(outcome) => {
                self.pointer_route.motion_state.record_dispatch(outcome);
                no_reaction()
            },
            Err(error) => self.fail(WindowError::Input(error)),
        }
    }

    /// Decide on a button event; the plan comes with the size of a cell in
    /// which the position was read.
    pub fn mouse_input(
        &mut self,
        grid: &Grid,
        device_id: DeviceId,
        pressed: bool,
        button: MouseButton,
    ) -> (r: Option<(ButtonPlan, Option<(u16, u16)>)>)
        ensures
            !old(self).accepts_input() ==> r is None && *final(self) == *old(self),
            old(self).accepts_input() ==> {
                let code = button_code(button);
                let after = old(self).pointer_route@.button_event(device_id, pressed, code);
                &&& *final(self) == (WindowState {
                    pointer_route: final(self).pointer_route,
                    ..*old(self)
                })
                &&& final(self).pointer_route@ == after
                &&& r is Some <==> old(self).pointer_route@.takes_button(device_id, pressed, code)
                &&& r is Some ==> {
                    let (plan, cell) = r->0;
                    &&& cell == after.button_metrics(
                        device_id,
                        pressed,
                        code,
                        old(self).cell_dimensions,
                    )
                    &&& button_plan(
                        plan,
                        grid@,
                        located(
                            if after.follows(device_id) { after.position } else { None },
                            cell,
                        ),
                        pressed,
                        button,
                        old(self).modifiers,
                    )
                }
            },
    {
        if !self.terminal_accepts_input() {
            return None;
        }
        let code: Option<u8> = mouse_button_code(button);
        if !self.pointer_route.record_physical_button_event(device_id, pressed, code) {
            return None;
        }
        let cell: Option<(u16, u16)> = self.pointer_route.button_cell_dimensions_for(
            device_id,
            pressed,
            code,
            self.cell_dimensions,
        );
        let location: Option<PointerLocation> = locate(
            self.pointer_route.position_for(device_id),
            cell,
        );
        Some((dispatch_mouse_button(grid, location, pressed, button, self.modifiers), cell))
    }

    /// A button event was handed over, or could not be.
    pub fn finish_mouse_input(
        &mut self,
        device_id: DeviceId,
        pressed: bool,
        button: MouseButton,
        plan: &ButtonPlan,
        cell_dimensions: Option<(u16, u16)>,
        queued: Result<(), TerminalWriteQueueError>,
    ) -> (r: Reaction)
        ensures
            ({
                let result = input_result(plan.plan, queued);
                let forwarded = result == Ok::<KeyboardInputOutcome, KeyboardInputError>(
                    KeyboardInputOutcome::Forwarded { viewport_changed: false },
                );
                let moved = PointerView {
                    motion_state: settled(
                        old(self).pointer_route@.motion_state,
                        *plan,
                        queued is Ok,
                    ),
                    ..old(self).pointer_route@
                };
                &&& final(self).pointer_route@ == moved.button_handled(
                    device_id,
                    pressed,
                    button_code(button),
                    forwarded,
                    cell_dimensions,
                )
                &&& (*final(self), r) == (WindowState {
                    pointer_route: final(self).pointer_route,
                    ..*old(self)
                }).input_handled(result)
            }),
    {
        settle_motion(&mut self.pointer_route.motion_state, plan, queued.is_ok());
        let result: Result<KeyboardInputOutcome, KeyboardInputError> = finish_input(
            &plan.plan,
            queued,
        );
        let forwarded: bool = match result {
            Ok(KeyboardInputOutcome::Forwarded { viewport_changed }) => !viewport_changed,
            _ => false,
        };
        self.pointer_route.record_button_dispatch(
            device_id,
            pressed,
            mouse_button_code(button),
            forwarded,
            cell_dimensions,
        );
        self.handle_terminal_input_result(result)
    }

    /// Follow the pointer whose wheel turns, and tell its position; nothing
    /// where another pointer holds the terminal or that takes no input.
    pub fn begin_mouse_wheel(&mut self, grid: &Grid, device_id: DeviceId, phase: WheelPhase) -> (r:
        Option<Option<Position>>)
        ensures
            !old(self).accepts_input() ==> r is None && *final(self) == *old(self),
            old(self).accepts_input() ==> {
                let chosen = old(self).pointer_route@.selected(device_id);
                &&& *final(self) == (WindowState {
                    pointer_route: final(self).pointer_route,
                    ..*old(self)
                })
                &&& r is Some <==> old(self).pointer_route@.admits(device_id)
                &&& final(self).pointer_route@ == if r is Some {
                    PointerView {
                        wheel_state: turning(chosen.wheel_state, wheel_route(grid@), phase),
                        ..chosen
                    }
                } else {
                    old(self).pointer_route@
                }
                &&& r is Some ==> r->0 == if chosen.position_uses_captured_metrics {
                    None
                } else {
                    chosen.position
                }
            },
    {
        if !self.terminal_accepts_input() {
            return None;
        }
        let position: Option<Position> = match self.pointer_route.select_wheel_device(device_id) {
            Some(position) => position,
            None => {
                return None;
            },
        };
        begin_wheel(&mut self.pointer_route.wheel_state, mouse_wheel_route(grid), phase);
        Some(position)
    }

    /// Decide on the whole lines that a wheel has turned.
    pub fn turn_mouse_wheel(
        &mut self,
        grid: &mut Grid,
        position: Option<Position>,
        steps: i32,
        phase: WheelPhase,
    ) -> (r: InputPlan)
        requires
            old(grid).wf(),
        ensures
            final(grid).wf(),
            wheel_plan(
                r,
                located(position, old(self).cell_dimensions),
                steps,
                old(self).modifiers,
                old(grid)@,
                final(grid)@,
            ),
            final(self).pointer_route@ == (PointerView {
                wheel_state: turned(old(self).pointer_route@.wheel_state, phase),
                ..old(self).pointer_route@
            }),
            *final(self) == (WindowState {
                pointer_route: final(self).pointer_route,
                ..*old(self)
            }),
    {
        end_wheel(&mut self.pointer_route.wheel_state, phase);
        let location: Option<PointerLocation> = locate(position, self.cell_dimensions);
        dispatch_mouse_wheel(grid, location, steps, self.modifiers)
    }

    /// The window gets or loses the focus. A composed text does not outlast it.
    pub fn focused(&mut self, grid: &Grid, focused: bool) -> (r: (Reaction, Option<InputPlan>))
        ensures
            *final(self) == old(self).with_focus(focused),
            r.0 == redrawing(!focused && old(self).has_window && old(self).ime_preedit is Some),
            r.1 is Some <==> old(self).tells_focus(focused),
            r.1 is Some ==> focus_plan(r.1->0, grid@, focused),
    {
        self.modifiers = modifiers_after_focus_change(self.modifiers, focused);
        let redraw: bool = if focused {
            false
        } else {
            self.update_ime_preedit(None)
        };
        let changed: bool = record_window_focus_change(&mut self.last_window_focus, focused);
        if changed && self.terminal_accepts_input() {
            (redraw_reaction(redraw), Some(dispatch_focus_event(grid, focused)))
        } else {
            (redraw_reaction(redraw), None)
        }
    }

    pub fn ime_enabled(&mut self) -> (r: Reaction)
        ensures
            *final(self) == old(self).with_input_method(true),
            r == redrawing(old(self).has_window),
    {
        self.ime_active = true;
        let _redraw: bool = self.update_ime_preedit(None);
        self.last_ime_cursor_area = None;
        redraw_reaction(self.has_window)
    }

    pub fn ime_disabled(&mut self) -> (r: Reaction)
        ensures
            *final(self) == old(self).with_input_method(false),
            r == redrawing(old(self).has_window && old(self).ime_preedit is Some),
    {
        self.ime_active = false;
        let redraw: bool = self.update_ime_preedit(None);
        self.last_ime_cursor_area = None;
        redraw_reaction(redraw)
    }

    /// A text is being composed. What is taken up of it is shown on the screen,
    /// so the viewport returns there.
    pub fn ime_composed(
        &mut self,
        grid: &mut Grid,
        text: String,
        cursor: Option<(usize, usize)>,
    ) -> (r: Reaction)
        requires
            old(grid).wf(),
        ensures
            final(grid).wf(),
            !(old(self).ime_active && old(self).accepts_input()) ==> {
                &&& r == nothing()
                &&& *final(self) == *old(self)
                &&& final(grid)@ == old(grid)@
            },
            old(self).ime_active && old(self).accepts_input() ==> {
                let next = taken_up(text@, cursor);
                &&& *final(self) == (WindowState {
                    ime_preedit: final(self).ime_preedit,
                    ..*old(self)
                })
                &&& preedit_view(final(self).ime_preedit) == next
                &&& final(grid)@ == if next is Some {
                    old(grid)@.viewport_home()
                } else {
                    old(grid)@
                }
                &&& r == redrawing(
                    old(self).has_window && (preedit_view(old(self).ime_preedit) != next || (
                    next is Some && old(grid)@.scroll_offset != 0)),
                )
            },
    {
        if !self.ime_active || !self.terminal_accepts_input() {
            return no_reaction();
        }
        let (next, moved): (Option<ImePreedit>, bool) = match ime_preedit_payload(text, cursor) {
            ImePreeditPayload::Text(preedit) => {
                let moved: bool = reveal_ime_input_viewport(grid);
                (Some(preedit), moved)
            },
            _ => (None, false),
        };
        let ghost given = next;
        assert(preedit_view(given) == taken_up(text@, cursor));
        let changed: bool = self.update_ime_preedit(next);
        assert(same_preedit(old(self).ime_preedit, given) == (preedit_view(old(self).ime_preedit)
            == preedit_view(given)));
        redraw_reaction(changed || (moved && self.has_window))
    }

    /// A composed text is settled on and sent, unless it is empty or too long.
    pub fn ime_committed(&mut self, grid: &mut Grid, text: String) -> (r: (
        Reaction,
        Option<InputPlan>,
    ))
        requires
            old(grid).wf(),
        ensures
            final(grid).wf(),
            *final(self) == (WindowState { ime_preedit: None, ..*old(self) }),
            r.0 == redrawing(old(self).has_window && old(self).ime_preedit is Some),
            r.1 is Some <==> old(self).accepts_input() && text@.len() > 0 && encode_utf8(
                text@,
            ).len() <= MAX_IME_COMMIT_BYTES,
            r.1 is Some ==> sent_plan(
                r.1->0,
                Some(encode_utf8(text@)),
                old(grid)@,
                final(grid)@,
            ),
            r.1 is None ==> final(grid)@ == old(grid)@,
    {
        let redraw: bool = self.update_ime_preedit(None);
        if !self.terminal_accepts_input() {
            return (redraw_reaction(redraw), None);
        }
        match ime_commit_payload(text) {
            ImeCommitPayload::Bytes(bytes) => {
                let plan: InputPlan = dispatch_encoded_terminal_input(grid, Some(bytes));
                (redraw_reaction(redraw), Some(plan))
            },
            _ => (redraw_reaction(redraw), None),
        }
    }

    /// Decide on a key; no plan where it means nothing or the terminal takes no
    /// input.
    pub fn keyboard_input(&self, grid: &mut Grid, event: KeyInput<'_>, is_synthetic: bool) -> (r:
        Option<InputPlan>)
        requires
            old(grid).wf(),
        ensures
            final(grid).wf(),
            ({
                let action = local_action(
                    event.logical_key,
                    event.pressed,
                    is_synthetic,
                    self.modifiers,
                );
                let press = press_of(event, is_synthetic, self.modifiers);
                &&& r is Some <==> self.accepts_input() && (action is Some || press is Some)
                &&& r is Some ==> key_plan(r->0, action, press, old(grid)@, final(grid)@)
                &&& r is None ==> final(grid)@ == old(grid)@
            }),
    {
        if !self.terminal_accepts_input() {
            return None;
        }
        let action: Option<ScrollbackAction> = scrollback_action_from_event(
            event,
            is_synthetic,
            self.modifiers,
        );
        let press: Option<LinuxKeyPress<'_>> = key_press_from_event(
            event,
            is_synthetic,
            self.modifiers,
        );
        if action.is_none() && press.is_none() {
            return None;
        }
        Some(dispatch_keyboard_input(grid, action, press))
    }
}

/// The press that an event hands to the terminal program.
pub open spec fn press_of<'a>(event: KeyInput<'a>, is_synthetic: bool, modifiers: Modifiers) -> Option<
    LinuxKeyPress<'a>,
> {
    if forwards(event.pressed, is_synthetic, modifiers) {
        Some(
            LinuxKeyPress {
                named_key: named_of(event.logical_key),
                text: event.text,
                control_text: event.control_text,
                modifiers,
            },
        )
    } else {
        None
    }
}

/// The size of a window that shows a whole screen with cells of a given size.
pub open spec fn surface_of(grid: GridView, cell: (u16, u16)) -> Result<PixelSize, WindowError> {
    match grid_dimensions(grid.cols(), grid.rows()) {
        Err(error) => Err(WindowError::Grid(error)),
        Ok(dimensions) => match surface_for_dimensions(dimensions, cell) {
            Some(size) => Ok(size),
            None => Err(WindowError::NoSurface(dimensions)),
        },
    }
}

fn grid_surface(grid: &Grid, cell: (u16, u16)) -> (r: Result<PixelSize, WindowError>)
    ensures
        r == surface_of(grid@, cell),
{
    match terminal_dimensions_from_locked_grid(grid) {
        Err(error) => Err(WindowError::Grid(error)),
        Ok(dimensions) => match physical_size_for_terminal(dimensions, cell) {
            Some(size) => Ok(size),
            None => Err(WindowError::NoSurface(dimensions)),
        },
    }
}

/// What a new size of the window asks for.
#[derive(Debug, Clone, Copy, PartialEq, Eq, Structural)]
pub enum ResizeStep {
    /// The window has another size by now.
    Stale,
    /// The program is to be told of its new size first.
    Tell(TerminalDimensions),
    Done(Reaction),
}

impl<F> WindowState<F> {
    /// The size that the terminal takes in a window; none if it has it.
    pub open spec fn wanted_size(self, grid: GridView, size: PixelSize) -> Result<
        Option<TerminalDimensions>,
        WindowError,
    > {
        match self.cell_dimensions {
            None => Err(WindowError::MetricsNotReady),
            Some(cell) => match dimensions_for_surface(size, cell) {
                None => Ok(None),
                Some(target) => match grid_dimensions(grid.cols(), grid.rows()) {
                    Err(error) => Err(WindowError::ResizeGrid { target, error }),
                    Ok(current) => if current == target { Ok(None) } else { Ok(Some(target)) },
                },
            },
        }
    }

    fn terminal_size_for(&self, grid: &Grid, size: PixelSize) -> (r: Result<
        Option<TerminalDimensions>,
        WindowError,
    >)
        ensures
            r == self.wanted_size(grid@, size),
    {
        let cell: (u16, u16) = match self.cell_dimensions {
            Some(cell) => cell,
            None => {
                return Err(WindowError::MetricsNotReady);
            },
        };
        let target: TerminalDimensions = match terminal_dimensions_for_surface(size, cell) {
            Some(target) => target,
            None => {
                return Ok(None);
            },
        };
        match terminal_dimensions_from_locked_grid(grid) {
            Err(error) => Err(WindowError::ResizeGrid { target, error }),
            Ok(current) => if current == target {
                Ok(None)
            } else {
                Ok(Some(target))
            },
        }
    }

    /// The window has a new size. A report of a size that the window no longer
    /// has is passed over.
    pub fn resized(&mut self, grid: &Grid, size: PixelSize, current_size: Option<PixelSize>) -> (r:
        ResizeStep)
        ensures
            current_size is Some && current_size->0 != size ==> r == ResizeStep::Stale
                && *final(self) == *old(self),
            current_size is None || current_size->0 == size ==> match old(self).wanted_size(
                grid@,
                size,
            ) {
                Err(error) => r == ResizeStep::Done(ending()) && *final(self) == old(self).failed(
                    error,
                ),
                Ok(None) => r == ResizeStep::Done(redrawing(old(self).has_window)) && *final(self)
                    == *old(self),
                Ok(Some(target)) => r == ResizeStep::Tell(target) && *final(self) == *old(self),
            },
    {
        if let Some(current) = current_size {
            if !is_current_surface_size(size, current) {
                return ResizeStep::Stale;
            }
        }
        match self.terminal_size_for(grid, size) {
            Err(error) => ResizeStep::Done(self.fail(error)),
            Ok(None) => ResizeStep::Done(redraw_reaction(self.has_window)),
            Ok(Some(target)) => ResizeStep::Tell(target),
        }
    }

    /// The program was told of its new size, or could not be. The screen
    /// changes only after the program knows.
    pub fn finish_resize(
        &mut self,
        grid: &mut Grid,
        target: TerminalDimensions,
        told: Result<(), String>,
    ) -> (r: Reaction)
        requires
            old(grid).wf(),
            target.columns > 0,
            target.rows > 0,
            told is Ok ==> old(grid)@.resizable(target.columns as int, target.rows as int),
        ensures
            final(grid).wf(),
            match told {
                Ok(_) => {
                    &&& r == redrawing(old(self).has_window)
                    &&& *final(self) == *old(self)
                    &&& final(grid)@ == if target.columns == old(grid)@.cols() && target.rows
                        == old(grid)@.rows() {
                        old(grid)@
                    } else {
                        old(grid)@.resized(target.columns as int, target.rows as int)
                    }
                },
                Err(message) => {
                    &&& r == ending()
                    &&& *final(self) == old(self).failed(WindowError::Resize { target, message })
                    &&& final(grid)@ == old(grid)@
                },
            },
    {
        match told {
            Ok(()) => {
                grid.resize(target.columns as usize, target.rows as usize);
                redraw_reaction(self.has_window)
            },
            Err(message) => self.fail(WindowError::Resize { target, message }),
        }
    }

    /// The size of a window that shows the whole screen.
    pub open spec fn full_size(self, grid: GridView) -> Result<PixelSize, WindowError> {
        match self.cell_dimensions {
            None => Err(WindowError::MetricsNotReady),
            Some(cell) => surface_of(grid, cell),
        }
    }

    pub fn current_grid_physical_size(&self, grid: &Grid) -> (r: Result<PixelSize, WindowError>)
        ensures
            r == self.full_size(grid@),
    {
        let cell: (u16, u16) = match self.cell_dimensions {
            Some(cell) => cell,
            None => {
                return Err(WindowError::MetricsNotReady);
            },
        };
        grid_surface(grid, cell)
    }

    /// The window is shown in another scale. Positions and areas in the old one
    /// are forgotten.
    pub fn scale_factor_changed(&mut self)
        ensures
            final(self).pointer_route@ == old(self).pointer_route@.rescaled(
                old(self).cell_dimensions,
            ),
            *final(self) == (WindowState {
                pointer_route: final(self).pointer_route,
                last_ime_cursor_area: None,
                ..*old(self)
            }),
    {
        self.pointer_route.scale_factor_changed(self.cell_dimensions);
        self.last_ime_cursor_area = None;
    }

    /// The glyphs were drawn anew where they had to be, in cells of the given
    /// size; the result is the size of window to ask for.
    pub fn glyphs_rebuilt(&mut self, grid: &mut Grid, replaced: Option<(u16, u16)>) -> (r: Result<
        PixelSize,
        Reaction,
    >)
        requires
            old(grid).wf(),
        ensures
            final(grid).wf(),
            ({
                let measured = WindowState {
                    cell_dimensions: if replaced is Some {
                        replaced
                    } else {
                        old(self).cell_dimensions
                    },
                    ..*old(self)
                };
                &&& final(grid)@ == match replaced {
                    Some(cell) => GridView {
                        images: ImagesView {
                            cell_pixel_width: cell.0,
                            cell_pixel_height: cell.1,
                            ..old(grid)@.images
                        },
                        ..old(grid)@
                    },
                    None => old(grid)@,
                }
                &&& match measured.full_size(old(grid)@) {
                    Ok(size) => r == Ok::<PixelSize, Reaction>(size) && *final(self) == measured,
                    Err(error) => r == Err::<PixelSize, Reaction>(ending()) && *final(self)
                        == measured.failed(error),
                }
            }),
    {
        if let Some(cell) = replaced {
            set_grid_cell_dimensions(grid, cell);
            self.cell_dimensions = Some(cell);
        }
        match self.current_grid_physical_size(grid) {
            Ok(size) => Ok(size),
            Err(error) => Err(self.fail(error)),
        }
    }

    /// A window was made, with glyphs in cells of the given size; the result is
    /// the size of window to ask for. Where there is none, the window is not
    /// taken up.
    pub fn window_created(&mut self, grid: &mut Grid, cell: (u16, u16)) -> (r: Result<
        PixelSize,
        Reaction,
    >)
        requires
            old(grid).wf(),
        ensures
            final(grid).wf(),
            ({
                let made = WindowState {
                    has_window: true,
                    cell_dimensions: Some(cell),
                    ..*old(self)
                };
                &&& final(grid)@ == (GridView {
                    images: ImagesView {
                        cell_pixel_width: cell.0,
                        cell_pixel_height: cell.1,
                        ..old(grid)@.images
                    },
                    ..old(grid)@
                })
                &&& match made.full_size(old(grid)@) {
                    Ok(size) => r == Ok::<PixelSize, Reaction>(size) && *final(self) == made,
                    Err(error) => r == Err::<PixelSize, Reaction>(ending()) && *final(self)
                        == old(self).failed(error),
                }
            }),
    {
        set_grid_cell_dimensions(grid, cell);
        match grid_surface(grid, cell) {
            Ok(size) => {
                self.has_window = true;
                self.cell_dimensions = Some(cell);
                Ok(size)
            },
            Err(error) => Err(self.fail(error)),
        }
    }

    /// The size of the next frame and of its cells: nothing where the window
    /// has no area.
    pub fn frame_extent(&self, size: PixelSize) -> (r: Result<
        Option<((u32, u32), (u16, u16))>,
        WindowError,
    >)
        ensures
            r == self.frame_size(size),
    {
        if !self.has_window {
            return Err(WindowError::NoWindow);
        }
        match drawable_dimensions(size) {
            Err(error) => Err(WindowError::Surface(error)),
            Ok(None) => Ok(None),
            Ok(Some(extent)) => match self.cell_dimensions {
                None => Err(WindowError::MetricsNotReady),
                Some(cell) => Ok(Some((extent, cell))),
            },
        }
    }

    /// Whether a frame shows anything, which matters to a window for one frame
    /// alone.
    pub fn shows_content(&self, frame: &[u32], background: u32) -> (r: bool)
        ensures
            r == (!self.exit_after_first_frame || exists|i: int|
                0 <= i < frame@.len() && #[trigger] frame@[i] != background),
    {
        if !self.exit_after_first_frame {
            return true;
        }
        let mut i: usize = 0;
        while i < frame.len()
            invariant
                i <= frame@.len(),
                forall|j: int| 0 <= j < i ==> #[trigger] frame@[j] == background,
            decreases frame@.len() - i,
        {
            if frame[i] != background {
                return true;
            }
            i += 1;
        }
        false
    }

    /// The state after a frame: a window that was to show one frame ends.
    pub open spec fn framed(self, presented: Result<Option<bool>, WindowError>) -> WindowState<F> {
        match presented {
            Err(error) => self.failed(error),
            Ok(None) => self,
            Ok(Some(visible)) => {
                let shown = WindowState { first_frame_presented: true, ..self };
                if !self.exit_after_first_frame {
                    shown
                } else if visible {
                    shown.ended()
                } else {
                    shown.failed(WindowError::EmptyFirstFrame)
                }
            },
        }
    }

    /// The frame ends the window.
    pub open spec fn ends_with_frame(self, presented: Result<Option<bool>, WindowError>) -> bool {
        match presented {
            Err(_) => true,
            Ok(shown) => shown is Some && self.exit_after_first_frame,
        }
    }

    /// The state once the last output of a program that ended was shown.
    pub open spec fn drained(self) -> WindowState<F> {
        match self.reader_status {
            None => self,
            Some(ReaderStatus::Normal) => WindowState { reader_status: None, ..self }.ended(),
            Some(ReaderStatus::Failed(message)) => WindowState {
                reader_status: None,
                ..self
            }.failed(WindowError::Message(message)),
        }
    }

    fn finish_reader_exit_after_frame(&mut self) -> (r: Reaction)
        ensures
            *final(self) == old(self).drained(),
            r == if old(self).reader_status is Some { ending() } else { nothing() },
    {
        let status: Option<ReaderStatus> = self.reader_status.take();
        match status {
            None => no_reaction(),
            Some(ReaderStatus::Normal) => self.close_requested(),
            Some(ReaderStatus::Failed(message)) => self.fail(WindowError::Message(message)),
        }
    }

    /// A frame was drawn: whether it shows anything, or that there was nothing
    /// to draw in.
    pub fn frame_presented(&mut self, presented: Result<Option<bool>, WindowError>) -> (r: Reaction)
        ensures
            *final(self) == old(self).framed(presented).drained(),
            r == if old(self).ends_with_frame(presented) || old(self).reader_status is Some {
                ending()
            } else {
                nothing()
            },
    {
        let mut ends: bool = false;
        match presented {
            Ok(Some(visible)) => {
                self.first_frame_presented = true;
                if self.exit_after_first_frame {
                    ends = true;
                    if visible {
                        let _reaction: Reaction = self.close_requested();
                    } else {
                        let _reaction: Reaction = self.fail(WindowError::EmptyFirstFrame);
                    }
                }
            },
            Ok(None) => {},
            Err(error) => {
                ends = true;
                let _reaction: Reaction = self.fail(error);
            },
        }
        let drained: Reaction = self.finish_reader_exit_after_frame();
        if ends {
            end_reaction()
        } else {
            drained
        }
    }

    pub fn grid_updated(&self) -> (r: Reaction)
        ensures
            r == redrawing(self.has_window),
    {
        redraw_reaction(self.has_window)
    }

    /// The program ended. Its last output is still to be shown.
    pub fn reader_exited(&mut self, status: ReaderStatus) -> (r: Reaction)
        ensures
            *final(self) == old(self).without_program(status),
            r == old(self).program_left(),
    {
        let _redraw: bool = self.update_ime_preedit(None);
        let first: bool = self.reader_status.is_none();
        if first {
            self.reader_status = Some(status);
        }
        Reaction { redraw: self.has_window, stop_reader: false, stop_writer: first, exit: false }
    }

    pub fn writer_exited(&mut self, status: WriterStatus) -> (r: Reaction)
        ensures
            match status {
                WriterStatus::Normal => *final(self) == *old(self) && r == nothing(),
                WriterStatus::Failed(message) => *final(self) == old(self).failed(
                    WindowError::Message(message),
                ) && r == ending(),
            },
    {
        match status {
            WriterStatus::Normal => no_reaction(),
            WriterStatus::Failed(message) => self.fail(WindowError::Message(message)),
        }
    }

    /// How the window ended.
    pub fn finish(&mut self) -> (r: Result<(), WindowError>)
        ensures
            *final(self) == (WindowState { error: None, ..*old(self) }),
            match old(self).final_error() {
                Some(error) => r == Err::<(), WindowError>(error),
                None => r is Ok,
            },
    {
        if let Some(error) = self.error.take() {
            return Err(error);
        }
        if self.exit_after_first_frame && !self.first_frame_presented {
            return Err(WindowError::NoFirstFrame);
        }
        Ok(())
    }
}

/// A terminal that ends takes no more input, keeps no composed text, and keeps
/// the error that came first.
pub proof fn law_ended_terminal_takes_no_input<F>(
    state: WindowState<F>,
    error: WindowError,
    later: WindowError,
)
    ensures
        !state.ended().accepts_input(),
        !state.failed(error).accepts_input(),
        state.ended().ime_preedit is None,
        state.failed(error).ime_preedit is None,
        state.failed(error).failed(later) == state.failed(error),
        state.failed(error).ended() == state.failed(error),
{
}

/// Once the reader has ended, the next frame ends the window, whatever the
/// frame comes to, and an error of the reader is kept.
pub proof fn law_reader_exit_ends_window<F>(
    state: WindowState<F>,
    presented: Result<Option<bool>, WindowError>,
)
    requires
        state.reader_status is Some,
    ensures
        state.framed(presented).drained().exiting,
        state.framed(presented).drained().reader_status is None,
        state.reader_status->0 is Failed ==> state.framed(presented).drained().error is Some,
{
}

} // verus!
