//! Key events of the macOS window system as terminal input.
use crate::input::keybind::KeyModifiers;
use crate::input::keyboard::{
    encode_terminal_key_with_modifiers, modified_bytes, TerminalKey, TerminalKeyModifiers,
};
use crate::input::mouse::{modified_button, mouse_button_with_modifier_flags};
use crate::text::{bytes_of, chars_of};
use vstd::prelude::*;
use vstd::utf8::encode_utf8;

verus! {

/// The modifier keys that matter to a terminal.
#[derive(Debug, Clone, Copy, PartialEq, Eq, Structural)]
pub struct AppkitModifiers {
    pub command: bool,
    pub shift: bool,
    pub control: bool,
    pub option: bool,
}

/// A key event: the hardware key, the modifiers and the characters it types.
#[derive(Debug)]
pub struct AppkitKeyEvent {
    pub key_code: u16,
    pub modifiers: AppkitModifiers,
    pub characters: Option<String>,
}

/// The terminal key of a hardware key.
pub open spec fn terminal_key_code(key_code: u16, has_shift: bool) -> Option<TerminalKey> {
    match key_code {
        36 => Some(TerminalKey::Enter),
        51 => Some(TerminalKey::Backspace),
        48 => Some(if has_shift { TerminalKey::BackTab } else { TerminalKey::Tab }),
        53 => Some(TerminalKey::Escape),
        126 => Some(TerminalKey::Up),
        125 => Some(TerminalKey::Down),
        124 => Some(TerminalKey::Right),
        123 => Some(TerminalKey::Left),
        115 => Some(TerminalKey::Home),
        119 => Some(TerminalKey::End),
        116 => Some(TerminalKey::PageUp),
        121 => Some(TerminalKey::PageDown),
        117 => Some(TerminalKey::Delete),
        122 => Some(TerminalKey::Function(1)),
        120 => Some(TerminalKey::Function(2)),
        99 => Some(TerminalKey::Function(3)),
        118 => Some(TerminalKey::Function(4)),
        96 => Some(TerminalKey::Function(5)),
        97 => Some(TerminalKey::Function(6)),
        98 => Some(TerminalKey::Function(7)),
        100 => Some(TerminalKey::Function(8)),
        101 => Some(TerminalKey::Function(9)),
        109 => Some(TerminalKey::Function(10)),
        103 => Some(TerminalKey::Function(11)),
        111 => Some(TerminalKey::Function(12)),
        _ => None,
    }
}

/// The bytes of a named key, if the hardware key is one.
pub open spec fn named_bytes(
    key_code: u16,
    modifiers: AppkitModifiers,
    application_cursor_keys: bool,
) -> Option<Seq<u8>> {
    match terminal_key_code(key_code, modifiers.shift) {
        Some(key) => modified_bytes(
            key,
            application_cursor_keys,
            TerminalKeyModifiers {
                shift: modifiers.shift,
                alt: modifiers.option,
                control: modifiers.control,
            },
        ),
        None => None,
    }
}

/// The control byte that Control makes of a character.
pub open spec fn control_byte(c: char) -> Option<u8> {
    if 'a' <= c <= 'z' {
        Some((c as u32 - 96) as u8)
    } else if 'A' <= c <= 'Z' {
        Some((c as u32 - 64) as u8)
    } else if c == '[' {
        Some(0x1bu8)
    } else if c == '\\' {
        Some(0x1cu8)
    } else if c == ']' {
        Some(0x1du8)
    } else if c == '^' {
        Some(0x1eu8)
    } else if c == '_' {
        Some(0x1fu8)
    } else if c == ' ' {
        Some(0u8)
    } else {
        None
    }
}

/// The bytes of typed characters. Control turns the first one into a control
/// byte where it can, and Option prefixes the text with Escape.
pub open spec fn typed_bytes(text: Seq<char>, modifiers: AppkitModifiers) -> Option<Seq<u8>> {
    if text.len() == 0 {
        None
    } else if modifiers.control && control_byte(text[0]) is Some {
        Some(seq![control_byte(text[0])->0])
    } else if modifiers.option {
        Some(seq![27u8] + encode_utf8(text))
    } else {
        Some(encode_utf8(text))
    }
}

/// The bytes of a key event.
pub open spec fn event_bytes(event: AppkitKeyEvent, application_cursor_keys: bool) -> Option<
    Seq<u8>,
> {
    let named = named_bytes(event.key_code, event.modifiers, application_cursor_keys);
    if named is Some {
        named
    } else {
        match event.characters {
            Some(text) => typed_bytes(text@, event.modifiers),
            None => None,
        }
    }
}

pub fn terminal_key_from_key_code(key_code: u16, has_shift: bool) -> (r: Option<TerminalKey>)
    ensures
        r == terminal_key_code(key_code, has_shift),
{
    match key_code {
        36 => Some(TerminalKey::Enter),
        51 => Some(TerminalKey::Backspace),
        48 => Some(if has_shift { TerminalKey::BackTab } else { TerminalKey::Tab }),
        53 => Some(TerminalKey::Escape),
        126 => Some(TerminalKey::Up),
        125 => Some(TerminalKey::Down),
        124 => Some(TerminalKey::Right),
        123 => Some(TerminalKey::Left),
        115 => Some(TerminalKey::Home),
        119 => Some(TerminalKey::End),
        116 => Some(TerminalKey::PageUp),
        121 => Some(TerminalKey::PageDown),
        117 => Some(TerminalKey::Delete),
        122 => Some(TerminalKey::Function(1)),
        120 => Some(TerminalKey::Function(2)),
        99 => Some(TerminalKey::Function(3)),
        118 => Some(TerminalKey::Function(4)),
        96 => Some(TerminalKey::Function(5)),
        97 => Some(TerminalKey::Function(6)),
        98 => Some(TerminalKey::Function(7)),
        100 => Some(TerminalKey::Function(8)),
        101 => Some(TerminalKey::Function(9)),
        109 => Some(TerminalKey::Function(10)),
        103 => Some(TerminalKey::Function(11)),
        111 => Some(TerminalKey::Function(12)),
        _ => None,
    }
}

pub fn encode_macos_terminal_key(
    key_code: u16,
    modifiers: AppkitModifiers,
    application_cursor_keys: bool,
) -> (r: Option<Vec<u8>>)
    ensures
        r is Some <==> named_bytes(key_code, modifiers, application_cursor_keys) is Some,
        r is Some ==> r->0@ == named_bytes(key_code, modifiers, application_cursor_keys)->0,
{
    match terminal_key_from_key_code(key_code, modifiers.shift) {
        Some(key) => encode_terminal_key_with_modifiers(
            key,
            application_cursor_keys,
            TerminalKeyModifiers::new(modifiers.shift, modifiers.option, modifiers.control),
        ),
        None => None,
    }
}

fn control_code(c: char) -> (r: Option<u8>)
    ensures
        r == control_byte(c),
{
    if 'a' <= c && c <= 'z' {
        Some((c as u32 - 96) as u8)
    } else if 'A' <= c && c <= 'Z' {
        Some((c as u32 - 64) as u8)
    } else if c == '[' {
        Some(0x1b)
    } else if c == '\\' {
        Some(0x1c)
    } else if c == ']' {
        Some(0x1d)
    } else if c == '^' {
        Some(0x1e)
    } else if c == '_' {
        Some(0x1f)
    } else if c == ' ' {
        Some(0)
    } else {
        None
    }
}

pub fn translate_key_event(event: &AppkitKeyEvent, application_cursor_keys: bool) -> (r: Option<
    Vec<u8>,
>)
    ensures
        r is Some <==> event_bytes(*event, application_cursor_keys) is Some,
        r is Some ==> r->0@ == event_bytes(*event, application_cursor_keys)->0,
{
    if let Some(bytes) = encode_macos_terminal_key(
        event.key_code,
        event.modifiers,
        application_cursor_keys,
    ) {
        return Some(bytes);
    }
    let text: &str = match &event.characters {
        Some(text) => text.as_str(),
        None => {
            return None;
        },
    };
    if text.is_empty() {
        return None;
    }
    if event.modifiers.control {
        let chars: Vec<char> = chars_of(text);
        if let Some(byte) = control_code(chars[0]) {
            let bytes: Vec<u8> = vec![byte];
            proof {
                assert(bytes@ =~= seq![byte]);
            }
            return Some(bytes);
        }
    }
    let mut bytes: Vec<u8> = bytes_of(text);
    if event.modifiers.option {
        bytes.insert(0, 0x1b);
    }
    proof {
        assert(bytes@ =~= event_bytes(*event, application_cursor_keys)->0);
    }
    Some(bytes)
}

pub fn mouse_button_with_appkit_modifiers(button: u8, modifiers: AppkitModifiers) -> (r: u8)
    ensures
        r == modified_button(button, modifiers.shift, modifiers.option, modifiers.control),
{
    mouse_button_with_modifier_flags(button, modifiers.shift, modifiers.option, modifiers.control)
}

/// The modifiers as a set.
pub fn key_modifiers_from_appkit(modifiers: AppkitModifiers) -> (r: KeyModifiers)
    ensures
        r.command() == modifiers.command,
        r.shift() == modifiers.shift,
        r.control() == modifiers.control,
        r.alt() == modifiers.option,
        r.bits < 16,
{
    let mut set: KeyModifiers = KeyModifiers::empty();
    proof {
        crate::input::keybind::lemma_modifier_bits();
    }
    if modifiers.command {
        set.insert(KeyModifiers::CMD);
    }
    if modifiers.shift {
        set.insert(KeyModifiers::SHIFT);
    }
    if modifiers.control {
        set.insert(KeyModifiers::CTRL);
    }
    if modifiers.option {
        set.insert(KeyModifiers::ALT);
    }
    set
}

} // verus!
