//! Key events of the Linux window system as terminal input.
use crate::input::keyboard::{
    encode_terminal_key_with_modifiers, modified_bytes, TerminalKey, TerminalKeyModifiers,
};
use crate::text::bytes_of;
use vstd::prelude::*;
use vstd::utf8::encode_utf8;

verus! {

/// A key with a name instead of a text.
#[derive(Debug, Clone, Copy, PartialEq, Eq, Structural)]
pub enum NamedKey {
    Enter,
    Backspace,
    Tab,
    Escape,
    ArrowUp,
    ArrowDown,
    ArrowRight,
    ArrowLeft,
    Home,
    End,
    PageUp,
    PageDown,
    Insert,
    Delete,
    F1,
    F2,
    F3,
    F4,
    F5,
    F6,
    F7,
    F8,
    F9,
    F10,
    F11,
    F12,
    /// A key that terminals have no sequence for.
    Other,
}

/// What a key means under the active layout.
#[derive(Debug, Clone, Copy, PartialEq, Eq, Structural)]
pub enum LogicalKey {
    Named(NamedKey),
    Character,
    Other,
}

#[derive(Debug, Clone, Copy, PartialEq, Eq, Structural)]
pub struct Modifiers {
    pub shift: bool,
    pub control: bool,
    pub alt: bool,
    pub super_key: bool,
}

impl Modifiers {
    pub fn new(shift: bool, control: bool, alt: bool, super_key: bool) -> (r: Modifiers)
        ensures
            r == (Modifiers { shift, control, alt, super_key }),
    {
        Modifiers { shift, control, alt, super_key }
    }

    /// Shift and nothing else.
    pub open spec fn only_shift(self) -> bool {
        self.shift && !self.control && !self.alt && !self.super_key
    }
}

/// A key event as the window system reports it.
#[derive(Debug, Clone, Copy)]
pub struct KeyInput<'a> {
    pub logical_key: LogicalKey,
    pub pressed: bool,
    pub repeat: bool,
    pub text: Option<&'a str>,
    pub control_text: Option<&'a str>,
}

/// A key press that goes to the terminal program.
#[derive(Debug, Clone, Copy)]
pub struct LinuxKeyPress<'a> {
    pub named_key: Option<NamedKey>,
    pub text: Option<&'a str>,
    pub control_text: Option<&'a str>,
    pub modifiers: Modifiers,
}

#[derive(Debug, Clone, Copy, PartialEq, Eq, Structural)]
pub enum ScrollbackAction {
    PageUp,
    PageDown,
    Top,
    Bottom,
}

/// A real press without the Super key. A repeated press is input like the
/// first one.
pub open spec fn forwards(pressed: bool, is_synthetic: bool, modifiers: Modifiers) -> bool {
    pressed && !is_synthetic && !modifiers.super_key
}

pub open spec fn named_of(logical_key: LogicalKey) -> Option<NamedKey> {
    match logical_key {
        LogicalKey::Named(named_key) => Some(named_key),
        _ => None,
    }
}

/// The local action of a named key with Shift.
pub open spec fn scrollback_key(named_key: NamedKey) -> Option<ScrollbackAction> {
    match named_key {
        NamedKey::PageUp => Some(ScrollbackAction::PageUp),
        NamedKey::PageDown => Some(ScrollbackAction::PageDown),
        NamedKey::Home => Some(ScrollbackAction::Top),
        NamedKey::End => Some(ScrollbackAction::Bottom),
        _ => None,
    }
}

pub open spec fn local_action(
    logical_key: LogicalKey,
    pressed: bool,
    is_synthetic: bool,
    modifiers: Modifiers,
) -> Option<ScrollbackAction> {
    if modifiers.only_shift() && forwards(pressed, is_synthetic, modifiers) {
        match logical_key {
            LogicalKey::Named(named_key) => scrollback_key(named_key),
            _ => None,
        }
    } else {
        None
    }
}

/// The terminal key of a named key.
pub open spec fn terminal_key(named_key: NamedKey, has_shift: bool) -> Option<TerminalKey> {
    match named_key {
        NamedKey::Enter => Some(TerminalKey::Enter),
        NamedKey::Backspace => Some(TerminalKey::Backspace),
        NamedKey::Tab => Some(if has_shift { TerminalKey::BackTab } else { TerminalKey::Tab }),
        NamedKey::Escape => Some(TerminalKey::Escape),
        NamedKey::ArrowUp => Some(TerminalKey::Up),
        NamedKey::ArrowDown => Some(TerminalKey::Down),
        NamedKey::ArrowRight => Some(TerminalKey::Right),
        NamedKey::ArrowLeft => Some(TerminalKey::Left),
        NamedKey::Home => Some(TerminalKey::Home),
        NamedKey::End => Some(TerminalKey::End),
        NamedKey::PageUp => Some(TerminalKey::PageUp),
        NamedKey::PageDown => Some(TerminalKey::PageDown),
        NamedKey::Insert => Some(TerminalKey::Insert),
        NamedKey::Delete => Some(TerminalKey::Delete),
        NamedKey::F1 => Some(TerminalKey::Function(1)),
        NamedKey::F2 => Some(TerminalKey::Function(2)),
        NamedKey::F3 => Some(TerminalKey::Function(3)),
        NamedKey::F4 => Some(TerminalKey::Function(4)),
        NamedKey::F5 => Some(TerminalKey::Function(5)),
        NamedKey::F6 => Some(TerminalKey::Function(6)),
        NamedKey::F7 => Some(TerminalKey::Function(7)),
        NamedKey::F8 => Some(TerminalKey::Function(8)),
        NamedKey::F9 => Some(TerminalKey::Function(9)),
        NamedKey::F10 => Some(TerminalKey::Function(10)),
        NamedKey::F11 => Some(TerminalKey::Function(11)),
        NamedKey::F12 => Some(TerminalKey::Function(12)),
        NamedKey::Other => None,
    }
}

/// The terminal key of an optional named key.
pub open spec fn pressed_terminal_key(named_key: Option<NamedKey>, has_shift: bool) -> Option<
    TerminalKey,
> {
    match named_key {
        Some(named_key) => terminal_key(named_key, has_shift),
        None => None,
    }
}

/// The text of a press: what Control makes of it, if Control is held.
pub open spec fn pressed_text(press: LinuxKeyPress<'_>) -> Option<Seq<char>> {
    match if press.modifiers.control { press.control_text } else { press.text } {
        Some(text) => Some(text@),
        None => None,
    }
}

/// The bytes of a key press. A named key never sends its text as well, Alt
/// prefixes text with Escape, and Super is not for the terminal.
pub open spec fn press_bytes(press: LinuxKeyPress<'_>, application_cursor_keys: bool) -> Option<
    Seq<u8>,
> {
    if press.modifiers.super_key {
        None
    } else if let Some(key) = pressed_terminal_key(press.named_key, press.modifiers.shift) {
        modified_bytes(
            key,
            application_cursor_keys,
            TerminalKeyModifiers {
                shift: press.modifiers.shift,
                alt: press.modifiers.alt,
                control: press.modifiers.control,
            },
        )
    } else {
        match pressed_text(press) {
            Some(text) => if text.len() == 0 {
                None
            } else if press.modifiers.alt {
                Some(seq![27u8] + encode_utf8(text))
            } else {
                Some(encode_utf8(text))
            },
            None => None,
        }
    }
}

/// A key press is either scrolled locally or sent, never both: what Shift alone
/// does to the scrollback keys is never a plain text.
pub proof fn law_local_keys_are_named(
    logical_key: LogicalKey,
    pressed: bool,
    is_synthetic: bool,
    modifiers: Modifiers,
)
    ensures
        local_action(logical_key, pressed, is_synthetic, modifiers) is Some ==> named_of(
            logical_key,
        ) is Some && forwards(pressed, is_synthetic, modifiers),
{
}

pub fn named_key_from_logical(logical_key: LogicalKey) -> (r: Option<NamedKey>)
    ensures
        r == named_of(logical_key),
{
    match logical_key {
        LogicalKey::Named(named_key) => Some(named_key),
        _ => None,
    }
}

pub fn should_forward_key_event(
    pressed: bool,
    is_synthetic: bool,
    _repeat: bool,
    modifiers: Modifiers,
) -> (r: bool)
    ensures
        r == forwards(pressed, is_synthetic, modifiers),
{
    pressed && !is_synthetic && !modifiers.super_key
}

/// The press that an event hands to the terminal program, if it does.
pub fn key_press_from_event<'a>(event: KeyInput<'a>, is_synthetic: bool, modifiers: Modifiers) -> (r:
    Option<LinuxKeyPress<'a>>)
    ensures
        r is Some <==> forwards(event.pressed, is_synthetic, modifiers),
        r is Some ==> r->0 == (LinuxKeyPress {
            named_key: named_of(event.logical_key),
            text: event.text,
            control_text: event.control_text,
            modifiers,
        }),
{
    if !should_forward_key_event(event.pressed, is_synthetic, event.repeat, modifiers) {
        return None;
    }
    Some(
        LinuxKeyPress {
            named_key: named_key_from_logical(event.logical_key),
            text: event.text,
            control_text: event.control_text,
            modifiers,
        },
    )
}

pub fn scrollback_action_for_key_event(
    logical_key: LogicalKey,
    pressed: bool,
    is_synthetic: bool,
    repeat: bool,
    modifiers: Modifiers,
) -> (r: Option<ScrollbackAction>)
    ensures
        r == local_action(logical_key, pressed, is_synthetic, modifiers),
{
    let only_shift: bool = modifiers.shift && !modifiers.control && !modifiers.alt
        && !modifiers.super_key;
    if !only_shift || !should_forward_key_event(pressed, is_synthetic, repeat, modifiers) {
        return None;
    }
    match logical_key {
        LogicalKey::Named(NamedKey::PageUp) => Some(ScrollbackAction::PageUp),
        LogicalKey::Named(NamedKey::PageDown) => Some(ScrollbackAction::PageDown),
        LogicalKey::Named(NamedKey::Home) => Some(ScrollbackAction::Top),
        LogicalKey::Named(NamedKey::End) => Some(ScrollbackAction::Bottom),
        _ => None,
    }
}

pub fn scrollback_action_from_event(
    event: KeyInput<'_>,
    is_synthetic: bool,
    modifiers: Modifiers,
) -> (r: Option<ScrollbackAction>)
    ensures
        r == local_action(event.logical_key, event.pressed, is_synthetic, modifiers),
{
    scrollback_action_for_key_event(
        event.logical_key,
        event.pressed,
        is_synthetic,
        event.repeat,
        modifiers,
    )
}

pub fn terminal_key_from_named(named_key: NamedKey, has_shift: bool) -> (r: Option<TerminalKey>)
    ensures
        r == terminal_key(named_key, has_shift),
{
    match named_key {
        NamedKey::Enter => Some(TerminalKey::Enter),
        NamedKey::Backspace => Some(TerminalKey::Backspace),
        NamedKey::Tab => Some(if has_shift { TerminalKey::BackTab } else { TerminalKey::Tab }),
        NamedKey::Escape => Some(TerminalKey::Escape),
        NamedKey::ArrowUp => Some(TerminalKey::Up),
        NamedKey::ArrowDown => Some(TerminalKey::Down),
        NamedKey::ArrowRight => Some(TerminalKey::Right),
        NamedKey::ArrowLeft => Some(TerminalKey::Left),
        NamedKey::Home => Some(TerminalKey::Home),
        NamedKey::End => Some(TerminalKey::End),
        NamedKey::PageUp => Some(TerminalKey::PageUp),
        NamedKey::PageDown => Some(TerminalKey::PageDown),
        NamedKey::Insert => Some(TerminalKey::Insert),
        NamedKey::Delete => Some(TerminalKey::Delete),
        NamedKey::F1 => Some(TerminalKey::Function(1)),
        NamedKey::F2 => Some(TerminalKey::Function(2)),
        NamedKey::F3 => Some(TerminalKey::Function(3)),
        NamedKey::F4 => Some(TerminalKey::Function(4)),
        NamedKey::F5 => Some(TerminalKey::Function(5)),
        NamedKey::F6 => Some(TerminalKey::Function(6)),
        NamedKey::F7 => Some(TerminalKey::Function(7)),
        NamedKey::F8 => Some(TerminalKey::Function(8)),
        NamedKey::F9 => Some(TerminalKey::Function(9)),
        NamedKey::F10 => Some(TerminalKey::Function(10)),
        NamedKey::F11 => Some(TerminalKey::Function(11)),
        NamedKey::F12 => Some(TerminalKey::Function(12)),
        NamedKey::Other => None,
    }
}

pub fn encode_key_press(press: LinuxKeyPress<'_>, application_cursor_keys: bool) -> (r: Option<
    Vec<u8>,
>)
    ensures
        r is Some <==> press_bytes(press, application_cursor_keys) is Some,
        r is Some ==> r->0@ == press_bytes(press, application_cursor_keys)->0,
{
    if press.modifiers.super_key {
        return None;
    }
    // The window system also reports a text for named keys such as Enter, so
    // the name comes first.
    let key: Option<TerminalKey> = match press.named_key {
        Some(named_key) => terminal_key_from_named(named_key, press.modifiers.shift),
        None => None,
    };
    if let Some(key) = key {
        return encode_terminal_key_with_modifiers(
            key,
            application_cursor_keys,
            TerminalKeyModifiers::new(
                press.modifiers.shift,
                press.modifiers.alt,
                press.modifiers.control,
            ),
        );
    }
    let text: Option<&str> = if press.modifiers.control {
        press.control_text
    } else {
        press.text
    };
    match text {
        Some(text) => {
            if text.is_empty() {
                return None;
            }
            let mut bytes: Vec<u8> = bytes_of(text);
            if press.modifiers.alt {
                bytes.insert(0, 0x1b);
            }
            proof {
                assert(bytes@ =~= press_bytes(press, application_cursor_keys)->0);
            }
            Some(bytes)
        },
        None => None,
    }
}

} // verus!
