//! Which pointer the terminal follows, and what it has pressed.
use crate::grid::terminal::MouseEncoding;
use vstd::prelude::*;

verus! {

/// A pointing device of the window system.
pub type DeviceId = u64;

/// A pointer coordinate in whole pixels, if it is one.
#[derive(Debug, Clone, Copy, PartialEq, Eq, Structural)]
pub enum Coordinate {
    NotFinite,
    Negative,
    At(u64),
}

impl Coordinate {
    /// A coordinate outside the window is brought to its edge.
    pub open spec fn at_edge(self) -> Coordinate {
        match self {
            Coordinate::Negative => Coordinate::At(0),
            _ => self,
        }
    }
}

/// Column and row of a pointer, in pixels.
pub type Position = (Coordinate, Coordinate);

/// Where the wheel goes.
#[derive(Debug, Clone, Copy, PartialEq, Eq, Structural)]
pub enum MouseWheelRoute {
    /// It moves the viewport.
    Scrollback,
    /// It becomes cursor keys of a program on the alternate screen.
    AlternateScroll { application_cursor_keys: bool },
    /// It is reported to the program.
    Terminal(MouseEncoding),
}

/// The part of a line that the wheel has turned beyond whole lines, absent if
/// there is none, and where the wheel went last.
#[derive(Debug, Clone, Copy)]
pub struct MouseWheelState<F> {
    pub line_remainder: Option<F>,
    pub last_route: Option<MouseWheelRoute>,
}

impl<F> MouseWheelState<F> {
    pub fn reset(&mut self)
        ensures
            *final(self) == no_wheel::<F>(),
    {
        self.line_remainder = None;
        self.last_route = None;
    }
}

/// The cell in which the pointer was last seen. Programs are told of moves from
/// cell to cell, not within one.
#[derive(Debug, Clone, Copy, PartialEq, Eq)]
pub struct MouseMotionState {
    pub last_cell: Option<(usize, usize)>,
}

/// What came of a pointer move.
#[derive(Debug, Clone, Copy, PartialEq, Eq)]
pub enum MouseMotionDispatchOutcome {
    Ignored,
    Observed((usize, usize)),
    Deduplicated,
    DroppedFull,
    Enqueued((usize, usize)),
}

impl MouseMotionState {
    pub fn reset(&mut self)
        ensures
            final(self).last_cell is None,
    {
        self.last_cell = None;
    }

    pub fn anchor(&mut self, cell: (usize, usize))
        ensures
            final(self).last_cell == Some(cell),
    {
        self.last_cell = Some(cell);
    }

    /// The state after a move. A move that could not be sent is tried again.
    pub open spec fn after(self, outcome: MouseMotionDispatchOutcome) -> MouseMotionState {
        match outcome {
            MouseMotionDispatchOutcome::Observed(cell) => MouseMotionState {
                last_cell: Some(cell),
            },
            MouseMotionDispatchOutcome::Enqueued(cell) => MouseMotionState {
                last_cell: Some(cell),
            },
            _ => self,
        }
    }

    pub fn record_dispatch(&mut self, outcome: MouseMotionDispatchOutcome)
        ensures
            *final(self) == old(self).after(outcome),
    {
        match outcome {
            MouseMotionDispatchOutcome::Observed(cell) => self.anchor(cell),
            MouseMotionDispatchOutcome::Enqueued(cell) => self.anchor(cell),
            _ => {},
        }
    }
}

/// The pointer that the terminal follows. Buttons that are held are kept apart
/// from presses that the program was told of, since the program can ask for
/// reports while a button is down.
#[derive(Debug)]
pub struct PointerRouteState<F> {
    pub active_device: Option<DeviceId>,
    pub position: Option<Position>,
    pub wheel_state: MouseWheelState<F>,
    pub motion_state: MouseMotionState,
    /// The held buttons in the order of their presses.
    pub held_buttons: Vec<u8>,
    /// One bit for each button whose press the program was told of.
    pub forwarded_buttons: u8,
    pub left_while_captured: bool,
    pub captured_cell_dimensions: Option<(u16, u16)>,
    pub position_uses_captured_metrics: bool,
}

pub ghost struct PointerView<F> {
    pub active_device: Option<DeviceId>,
    pub position: Option<Position>,
    pub wheel_state: MouseWheelState<F>,
    pub motion_state: MouseMotionState,
    pub held: Seq<u8>,
    pub forwarded: u8,
    pub left_while_captured: bool,
    pub captured_cell_dimensions: Option<(u16, u16)>,
    pub position_uses_captured_metrics: bool,
}

impl<F> View for PointerRouteState<F> {
    type V = PointerView<F>;

    open spec fn view(&self) -> PointerView<F> {
        PointerView {
            active_device: self.active_device,
            position: self.position,
            wheel_state: self.wheel_state,
            motion_state: self.motion_state,
            held: self.held_buttons@,
            forwarded: self.forwarded_buttons,
            left_while_captured: self.left_while_captured,
            captured_cell_dimensions: self.captured_cell_dimensions,
            position_uses_captured_metrics: self.position_uses_captured_metrics,
        }
    }
}

/// The bit of a button.
pub open spec fn button_bit(button: u8) -> u8 {
    if button == 0 {
        1
    } else if button == 1 {
        2
    } else {
        4
    }
}

/// The buttons without one of them.
pub open spec fn without_button(held: Seq<u8>, button: u8) -> Seq<u8>
    decreases held.len(),
{
    if held.len() == 0 {
        held
    } else {
        let before = without_button(held.drop_last(), button);
        if held.last() == button { before } else { before.push(held.last()) }
    }
}

/// A button that the terminal reports.
pub open spec fn reported(button: Option<u8>) -> bool {
    button is Some && button->0 <= 2
}

pub open spec fn no_wheel<F>() -> MouseWheelState<F> {
    MouseWheelState { line_remainder: None, last_route: None }
}

impl<F> PointerView<F> {
    /// No pointer is followed.
    pub open spec fn idle() -> PointerView<F> {
        PointerView {
            active_device: None,
            position: None,
            wheel_state: no_wheel(),
            motion_state: MouseMotionState { last_cell: None },
            held: Seq::empty(),
            forwarded: 0,
            left_while_captured: false,
            captured_cell_dimensions: None,
            position_uses_captured_metrics: false,
        }
    }

    /// A button is down, so no other pointer takes over.
    pub open spec fn captured(self) -> bool {
        self.held.len() > 0 || self.forwarded != 0
    }

    pub open spec fn follows(self, device: DeviceId) -> bool {
        self.active_device == Some(device)
    }

    /// A device may become the one that is followed.
    pub open spec fn admits(self, device: DeviceId) -> bool {
        self.follows(device) || !self.captured()
    }

    /// The state that follows a device.
    pub open spec fn selected(self, device: DeviceId) -> PointerView<F> {
        if self.follows(device) || self.captured() {
            self
        } else {
            PointerView { active_device: Some(device), ..PointerView::idle() }
        }
    }

    pub open spec fn entered(self, device: DeviceId) -> PointerView<F> {
        if self.admits(device) {
            PointerView { left_while_captured: false, ..self.selected(device) }
        } else {
            self
        }
    }

    pub open spec fn moved(self, device: DeviceId, position: Position) -> PointerView<F> {
        if self.admits(device) {
            PointerView {
                position: Some(position),
                position_uses_captured_metrics: false,
                ..self.selected(device)
            }
        } else {
            self
        }
    }

    pub open spec fn left(self, device: DeviceId) -> PointerView<F> {
        if !self.follows(device) {
            self
        } else if !self.captured() {
            PointerView::idle()
        } else {
            PointerView {
                motion_state: MouseMotionState { last_cell: None },
                left_while_captured: true,
                ..self
            }
        }
    }

    /// The cell metrics change. A press that the program was told of keeps the
    /// metrics under which it was made, so that its release fits it.
    pub open spec fn rescaled(self, current: Option<(u16, u16)>) -> PointerView<F> {
        let calm = PointerView {
            wheel_state: no_wheel(),
            motion_state: MouseMotionState { last_cell: None },
            ..self
        };
        if !self.captured() {
            PointerView::idle()
        } else if self.forwarded != 0 {
            PointerView {
                captured_cell_dimensions: if !self.position_uses_captured_metrics && current is Some {
                    current
                } else {
                    self.captured_cell_dimensions
                },
                position_uses_captured_metrics: true,
                ..calm
            }
        } else {
            PointerView {
                position: None,
                captured_cell_dimensions: None,
                position_uses_captured_metrics: false,
                ..calm
            }
        }
    }

    /// A button goes down.
    pub open spec fn pressed(self, device: DeviceId, button: u8) -> PointerView<F> {
        let chosen = self.selected(device);
        PointerView { held: without_button(chosen.held, button).push(button), ..chosen }
    }

    /// A button comes up.
    pub open spec fn released(self, button: u8) -> PointerView<F> {
        PointerView { held: without_button(self.held, button), ..self }
    }

    /// The program was told of a press.
    pub open spec fn press_forwarded(
        self,
        button: u8,
        cell_dimensions: Option<(u16, u16)>,
    ) -> PointerView<F> {
        PointerView {
            forwarded: self.forwarded | button_bit(button),
            captured_cell_dimensions: cell_dimensions,
            ..self
        }
    }

    /// A release was handled. With the last button up the pointer is free: a
    /// pointer that has left the window is no longer followed, and a position
    /// in old metrics is forgotten.
    pub open spec fn release_handled(self, button: u8) -> PointerView<F> {
        let freed = PointerView { forwarded: self.forwarded & !button_bit(button), ..self };
        if freed.captured() {
            freed
        } else if self.left_while_captured {
            PointerView::idle()
        } else {
            PointerView {
                position: if self.position_uses_captured_metrics { None } else { self.position },
                motion_state: if self.position_uses_captured_metrics {
                    MouseMotionState { last_cell: None }
                } else {
                    self.motion_state
                },
                captured_cell_dimensions: None,
                position_uses_captured_metrics: false,
                ..freed
            }
        }
    }

    /// A button event comes from the pointer that is followed.
    pub open spec fn takes_button(
        self,
        device: DeviceId,
        pressed: bool,
        button: Option<u8>,
    ) -> bool {
        if reported(button) && pressed { self.admits(device) } else { self.follows(device) }
    }

    /// The state after a button event.
    pub open spec fn button_event(
        self,
        device: DeviceId,
        pressed: bool,
        button: Option<u8>,
    ) -> PointerView<F> {
        if !reported(button) || !self.takes_button(device, pressed, button) {
            self
        } else if pressed {
            self.pressed(device, button->0)
        } else {
            self.released(button->0)
        }
    }

    /// The metrics in which the position of a button event is to be read.
    pub open spec fn button_metrics(
        self,
        device: DeviceId,
        pressed: bool,
        button: Option<u8>,
        current: Option<(u16, u16)>,
    ) -> Option<(u16, u16)> {
        if !self.follows(device) || !self.position_uses_captured_metrics {
            current
        } else if !pressed && reported(button) && self.forwarded & button_bit(button->0) != 0 {
            if self.captured_cell_dimensions is Some {
                self.captured_cell_dimensions
            } else {
                current
            }
        } else {
            None
        }
    }

    /// The state once a button event was handed over, or was not.
    pub open spec fn button_handled(
        self,
        device: DeviceId,
        pressed: bool,
        button: Option<u8>,
        forwarded: bool,
        cell_dimensions: Option<(u16, u16)>,
    ) -> PointerView<F> {
        if !reported(button) || !self.follows(device) {
            self
        } else if pressed {
            if forwarded { self.press_forwarded(button->0, cell_dimensions) } else { self }
        } else {
            self.release_handled(button->0)
        }
    }

    /// The button that a move is reported with: the one pressed last.
    pub open spec fn motion_button(self) -> Option<u8> {
        if self.held.len() > 0 { Some(self.held.last()) } else { None }
    }
}

/// While a button of one pointer is down, no other pointer changes anything.
pub proof fn law_capture_excludes_other_pointers<F>(
    state: PointerView<F>,
    other: DeviceId,
    position: Position,
)
    requires
        state.captured(),
        !state.follows(other),
    ensures
        !state.admits(other),
        state.entered(other) == state,
        state.moved(other, position) == state,
        state.left(other) == state,
{
}

pub proof fn lemma_without_button(held: Seq<u8>, button: u8)
    ensures
        !without_button(held, button).contains(button),
        forall|b: u8| b != button ==> #[trigger] without_button(held, button).contains(b)
            == held.contains(b),
        without_button(held, button).len() <= held.len(),
        !held.contains(button) ==> without_button(held, button) == held,
    decreases held.len(),
{
    if held.len() > 0 {
        let shorter = held.drop_last();
        let before = without_button(shorter, button);
        lemma_without_button(shorter, button);
        let after = without_button(held, button);
        assert forall|b: u8| b != button implies #[trigger] after.contains(b) == held.contains(
            b,
        ) by {
            assert(before.contains(b) == shorter.contains(b));
            if held.contains(b) {
                let i = choose|i: int| 0 <= i < held.len() && held[i] == b;
                if i < shorter.len() {
                    assert(shorter[i] == b);
                    let j = choose|j: int| 0 <= j < before.len() && before[j] == b;
                    assert(after[j] == b);
                } else {
                    assert(after[after.len() - 1] == b);
                }
            }
            if after.contains(b) {
                let i = choose|i: int| 0 <= i < after.len() && after[i] == b;
                if i < before.len() {
                    assert(before[i] == b);
                    let j = choose|j: int| 0 <= j < shorter.len() && shorter[j] == b;
                    assert(held[j] == b);
                } else {
                    assert(held[held.len() - 1] == b);
                }
            }
        }
        if after.contains(button) {
            let i = choose|i: int| 0 <= i < after.len() && after[i] == button;
            if i < before.len() {
                assert(before[i] == button);
            }
            assert(false);
        }
        if !held.contains(button) {
            assert(held[held.len() - 1] != button);
            assert(!shorter.contains(button)) by {
                if shorter.contains(button) {
                    let i = choose|i: int| 0 <= i < shorter.len() && shorter[i] == button;
                    assert(held[i] == button);
                }
            }
            assert(after =~= held);
        }
    }
}

/// A press and its release leave the held buttons as they were.
pub proof fn law_press_and_release<F>(state: PointerView<F>, device: DeviceId, button: u8)
    requires
        state.admits(device),
        !state.held.contains(button),
    ensures
        state.pressed(device, button).held.last() == button,
        state.pressed(device, button).released(button).held == state.selected(device).held,
{
    let chosen = state.selected(device);
    lemma_without_button(state.held, button);
    lemma_without_button(chosen.held, button);
    let pressed = without_button(chosen.held, button).push(button);
    assert(pressed.drop_last() =~= without_button(chosen.held, button));
    assert(!chosen.held.contains(button)) by {
        if chosen.held.contains(button) {
            assert(chosen.held == state.held || chosen.held == Seq::<u8>::empty());
        }
    }
}

fn bit_of(button: u8) -> (r: u8)
    ensures
        r == button_bit(button),
{
    if button == 0 {
        1
    } else if button == 1 {
        2
    } else {
        4
    }
}

/// The button, if the terminal reports it.
fn reported_button(button: Option<u8>) -> (r: Option<u8>)
    ensures
        r is Some <==> reported(button),
        r is Some ==> r == button,
{
    match button {
        Some(button) => if button <= 2 {
            Some(button)
        } else {
            None
        },
        None => None,
    }
}

fn same_device(active: Option<DeviceId>, device: DeviceId) -> (r: bool)
    ensures
        r == (active == Some(device)),
{
    match active {
        Some(active) => active == device,
        None => false,
    }
}

impl<F> PointerRouteState<F> {
    pub fn idle() -> (r: PointerRouteState<F>)
        ensures
            r@ == PointerView::<F>::idle(),
    {
        let r = PointerRouteState {
            active_device: None,
            position: None,
            wheel_state: MouseWheelState { line_remainder: None, last_route: None },
            motion_state: MouseMotionState { last_cell: None },
            held_buttons: Vec::new(),
            forwarded_buttons: 0,
            left_while_captured: false,
            captured_cell_dimensions: None,
            position_uses_captured_metrics: false,
        };
        proof {
            assert(r@.held =~= Seq::<u8>::empty());
        }
        r
    }

    pub fn reset(&mut self)
        ensures
            final(self)@ == PointerView::<F>::idle(),
    {
        *self = PointerRouteState::idle();
    }

    pub fn has_pointer_capture(&self) -> (r: bool)
        ensures
            r == self@.captured(),
    {
        self.held_buttons.len() > 0 || self.forwarded_buttons != 0
    }

    pub fn select_device(&mut self, device_id: DeviceId) -> (r: bool)
        ensures
            r == old(self)@.admits(device_id),
            final(self)@ == old(self)@.selected(device_id),
    {
        if same_device(self.active_device, device_id) {
            return true;
        }
        if self.has_pointer_capture() {
            return false;
        }
        self.reset();
        self.active_device = Some(device_id);
        true
    }

    pub fn cursor_entered(&mut self, device_id: DeviceId)
        ensures
            final(self)@ == old(self)@.entered(device_id),
    {
        if self.select_device(device_id) {
            self.left_while_captured = false;
        }
    }

    pub fn cursor_moved(&mut self, device_id: DeviceId, position: Position) -> (r: bool)
        ensures
            r == old(self)@.admits(device_id),
            final(self)@ == old(self)@.moved(device_id, position),
    {
        if !self.select_device(device_id) {
            return false;
        }
        self.position = Some(position);
        self.position_uses_captured_metrics = false;
        true
    }

    pub fn cursor_left(&mut self, device_id: DeviceId)
        ensures
            final(self)@ == old(self)@.left(device_id),
    {
        if same_device(self.active_device, device_id) {
            if !self.has_pointer_capture() {
                self.reset();
            } else {
                self.motion_state.reset();
                self.left_while_captured = true;
            }
        }
    }

    /// The metrics in which the position of a button event is to be read.
    pub fn button_cell_dimensions_for(
        &self,
        device_id: DeviceId,
        pressed: bool,
        button: Option<u8>,
        current: Option<(u16, u16)>,
    ) -> (r: Option<(u16, u16)>)
        ensures
            r == self@.button_metrics(device_id, pressed, button, current),
    {
        if !same_device(self.active_device, device_id) || !self.position_uses_captured_metrics {
            return current;
        }
        match reported_button(button) {
            Some(button) => {
                if !pressed && self.forwarded_buttons & bit_of(button) != 0 {
                    match self.captured_cell_dimensions {
                        Some(captured) => Some(captured),
                        None => current,
                    }
                } else {
                    None
                }
            },
            None => None,
        }
    }

    pub fn scale_factor_changed(&mut self, current_cell_dimensions: Option<(u16, u16)>)
        ensures
            final(self)@ == old(self)@.rescaled(current_cell_dimensions),
    {
        if !self.has_pointer_capture() {
            self.reset();
            return;
        }
        self.wheel_state.reset();
        self.motion_state.reset();
        if self.forwarded_buttons != 0 {
            if !self.position_uses_captured_metrics {
                if let Some(current) = current_cell_dimensions {
                    self.captured_cell_dimensions = Some(current);
                }
            }
            self.position_uses_captured_metrics = true;
        } else {
            self.position = None;
            self.captured_cell_dimensions = None;
            self.position_uses_captured_metrics = false;
        }
    }

    fn remove_held_button(&mut self, button: u8)
        ensures
            final(self)@ == old(self)@.released(button),
    {
        let mut kept: Vec<u8> = Vec::new();
        let mut i: usize = 0;
        proof {
            assert(self.held_buttons@.take(0) =~= Seq::<u8>::empty());
        }
        while i < self.held_buttons.len()
            invariant
                *self == *old(self),
                i <= self.held_buttons@.len(),
                kept@ == without_button(self.held_buttons@.take(i as int), button),
            decreases self.held_buttons@.len() - i,
        {
            let held: u8 = self.held_buttons[i];
            proof {
                let prefix = self.held_buttons@.take(i + 1);
                assert(prefix.drop_last() =~= self.held_buttons@.take(i as int));
                assert(prefix.last() == held);
            }
            if held != button {
                kept.push(held);
            }
            i += 1;
        }
        proof {
            assert(self.held_buttons@.take(i as int) =~= self.held_buttons@);
        }
        self.held_buttons = kept;
    }

    /// Note a button event. The result tells whether it comes from the pointer
    /// that is followed.
    pub fn record_physical_button_event(
        &mut self,
        device_id: DeviceId,
        pressed: bool,
        button: Option<u8>,
    ) -> (r: bool)
        ensures
            r == old(self)@.takes_button(device_id, pressed, button),
            final(self)@ == old(self)@.button_event(device_id, pressed, button),
    {
        let button: u8 = match reported_button(button) {
            Some(button) => button,
            None => {
                return same_device(self.active_device, device_id);
            },
        };
        if pressed {
            if !self.select_device(device_id) {
                return false;
            }
            self.remove_held_button(button);
            self.held_buttons.push(button);
        } else {
            if !same_device(self.active_device, device_id) {
                return false;
            }
            self.remove_held_button(button);
        }
        true
    }

    /// The button that a move is reported with: the one pressed last.
    pub fn active_motion_button(&self) -> (r: Option<u8>)
        ensures
            r == self@.motion_button(),
    {
        let count: usize = self.held_buttons.len();
        if count > 0 {
            Some(self.held_buttons[count - 1])
        } else {
            None
        }
    }

    /// Note what came of a button event.
    pub fn record_button_dispatch(
        &mut self,
        device_id: DeviceId,
        pressed: bool,
        button: Option<u8>,
        forwarded: bool,
        cell_dimensions: Option<(u16, u16)>,
    )
        ensures
            final(self)@ == old(self)@.button_handled(
                device_id,
                pressed,
                button,
                forwarded,
                cell_dimensions,
            ),
    {
        let button: u8 = match reported_button(button) {
            Some(button) => button,
            None => {
                return;
            },
        };
        if !same_device(self.active_device, device_id) {
            return;
        }
        let mask: u8 = bit_of(button);
        if pressed {
            if forwarded {
                self.forwarded_buttons = self.forwarded_buttons | mask;
                self.captured_cell_dimensions = cell_dimensions;
            }
            return;
        }
        self.forwarded_buttons = self.forwarded_buttons & !mask;
        if self.has_pointer_capture() {
            return;
        }
        if self.left_while_captured {
            self.reset();
            return;
        }
        if self.position_uses_captured_metrics {
            self.position = None;
            self.motion_state.reset();
        }
        self.captured_cell_dimensions = None;
        self.position_uses_captured_metrics = false;
    }
}

impl<F> PointerRouteState<F> {
    pub fn position_for(&self, device_id: DeviceId) -> (r: Option<Position>)
        ensures
            r == if self@.follows(device_id) { self@.position } else { None },
    {
        if same_device(self.active_device, device_id) {
            self.position
        } else {
            None
        }
    }

    /// Follow the device whose wheel turned, and tell its position unless that
    /// is in old metrics.
    pub fn select_wheel_device(&mut self, device_id: DeviceId) -> (r: Option<Option<Position>>)
        ensures
            final(self)@ == old(self)@.selected(device_id),
            r is Some <==> old(self)@.admits(device_id),
            r is Some ==> r->0 == if final(self)@.position_uses_captured_metrics {
                None
            } else {
                final(self)@.position
            },
    {
        if !self.select_device(device_id) {
            return None;
        }
        Some(
            if self.position_uses_captured_metrics {
                None
            } else {
                self.position
            },
        )
    }
}

} // verus!
