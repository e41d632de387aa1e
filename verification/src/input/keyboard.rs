//! Terminal key sequences.
use crate::decimal::{decimal, push_decimal};
use vstd::prelude::*;

verus! {

#[derive(Debug, Clone, Copy, PartialEq, Eq, Structural)]
pub enum TerminalKey {
    Enter,
    Backspace,
    Tab,
    BackTab,
    Escape,
    Up,
    Down,
    Right,
    Left,
    Home,
    End,
    PageUp,
    PageDown,
    Insert,
    Delete,
    Function(u8),
}

#[derive(Debug, Clone, Copy, PartialEq, Eq, Structural)]
pub struct TerminalKeyModifiers {
    pub shift: bool,
    pub alt: bool,
    pub control: bool,
}

impl Default for TerminalKeyModifiers {
    fn default() -> (r: TerminalKeyModifiers)
        ensures
            r == (TerminalKeyModifiers { shift: false, alt: false, control: false }),
    {
        TerminalKeyModifiers { shift: false, alt: false, control: false }
    }
}

/// A key sends a fixed byte string.
pub open spec fn plain_bytes(key: TerminalKey) -> Option<Seq<u8>> {
    match key {
        TerminalKey::Enter => Some(seq![13u8]),
        TerminalKey::Backspace => Some(seq![127u8]),
        TerminalKey::Tab => Some(seq![9u8]),
        TerminalKey::BackTab => Some(seq![27u8, 91, 90]),
        TerminalKey::Escape => Some(seq![27u8]),
        _ => None,
    }
}

/// The final letter of a cursor key.
pub open spec fn cursor_letter(key: TerminalKey) -> Option<u8> {
    match key {
        TerminalKey::Up => Some(65u8),
        TerminalKey::Down => Some(66u8),
        TerminalKey::Right => Some(67u8),
        TerminalKey::Left => Some(68u8),
        TerminalKey::Home => Some(72u8),
        TerminalKey::End => Some(70u8),
        _ => None,
    }
}

/// The final letter of the first four function keys.
pub open spec fn function_letter(key: TerminalKey) -> Option<u8> {
    match key {
        TerminalKey::Function(n) => if 1 <= n <= 4 { Some((79 + n) as u8) } else { None },
        _ => None,
    }
}

/// The number of an editing key or a later function key.
pub open spec fn tilde_number(key: TerminalKey) -> Option<u8> {
    match key {
        TerminalKey::Insert => Some(2u8),
        TerminalKey::Delete => Some(3u8),
        TerminalKey::PageUp => Some(5u8),
        TerminalKey::PageDown => Some(6u8),
        TerminalKey::Function(n) => if n == 5 {
            Some(15u8)
        } else if 6 <= n <= 10 {
            Some((11 + n) as u8)
        } else if 11 <= n <= 12 {
            Some((12 + n) as u8)
        } else {
            None
        },
        _ => None,
    }
}

/// The bytes of an unmodified key.
pub open spec fn key_bytes(key: TerminalKey, application_cursor_keys: bool) -> Option<Seq<u8>> {
    if plain_bytes(key) is Some {
        plain_bytes(key)
    } else if let Some(letter) = cursor_letter(key) {
        Some(seq![27u8, if application_cursor_keys { 79u8 } else { 91u8 }, letter])
    } else if let Some(letter) = function_letter(key) {
        Some(seq![27u8, 79, letter])
    } else if let Some(number) = tilde_number(key) {
        Some(seq![27u8, 91] + decimal(number as nat) + seq![126u8])
    } else {
        None
    }
}

/// The bytes of a key with xterm's modifier parameter.
pub open spec fn parameter_bytes(key: TerminalKey, parameter: int) -> Option<Seq<u8>> {
    let digit = (48 + parameter) as u8;
    if let Some(letter) = cursor_letter(key) {
        Some(seq![27u8, 91, 49, 59, digit, letter])
    } else if let Some(letter) = function_letter(key) {
        Some(seq![27u8, 91, 49, 59, digit, letter])
    } else if let Some(number) = tilde_number(key) {
        Some(seq![27u8, 91] + decimal(number as nat) + seq![59u8, digit, 126])
    } else {
        None
    }
}

impl TerminalKeyModifiers {
    /// One, and one for Shift, two for Alt and four for Control.
    pub open spec fn parameter(self) -> int {
        1 + (if self.shift { 1int } else { 0 }) + (if self.alt { 2int } else { 0 }) + (
        if self.control { 4int } else { 0 })
    }

    pub fn new(shift: bool, alt: bool, control: bool) -> (r: TerminalKeyModifiers)
        ensures
            r == (TerminalKeyModifiers { shift, alt, control }),
    {
        TerminalKeyModifiers { shift, alt, control }
    }

    fn xterm_parameter(self) -> (r: Option<u8>)
        ensures
            r is Some <==> self.parameter() > 1,
            r is Some ==> r->0 == self.parameter(),
    {
        let mut parameter: u8 = 1;
        if self.shift {
            parameter += 1;
        }
        if self.alt {
            parameter += 2;
        }
        if self.control {
            parameter += 4;
        }
        if parameter > 1 {
            Some(parameter)
        } else {
            None
        }
    }
}

/// The bytes of a key with modifiers. A key without a modifier parameter only
/// takes an Escape prefix for Alt.
pub open spec fn modified_bytes(
    key: TerminalKey,
    application_cursor_keys: bool,
    modifiers: TerminalKeyModifiers,
) -> Option<Seq<u8>> {
    if modifiers.parameter() > 1 && parameter_bytes(key, modifiers.parameter()) is Some {
        parameter_bytes(key, modifiers.parameter())
    } else {
        match key_bytes(key, application_cursor_keys) {
            Some(bytes) => Some(if modifiers.alt { seq![27u8] + bytes } else { bytes }),
            None => None,
        }
    }
}

/// With a modifier, a cursor key sends the same bytes in both cursor modes.
pub proof fn law_modified_keys_ignore_cursor_mode(
    key: TerminalKey,
    modifiers: TerminalKeyModifiers,
)
    requires
        modifiers.parameter() > 1,
    ensures
        modified_bytes(key, true, modifiers) == modified_bytes(key, false, modifiers),
{
}

/// The cursor mode changes cursor keys alone.
pub proof fn law_cursor_mode_changes_cursor_keys_alone(key: TerminalKey)
    ensures
        cursor_letter(key) is None ==> key_bytes(key, true) == key_bytes(key, false),
        cursor_letter(key) is Some ==> key_bytes(key, true) != key_bytes(key, false),
{
    if let Some(letter) = cursor_letter(key) {
        assert(key_bytes(key, true)->0[1] == 79u8);
        assert(key_bytes(key, false)->0[1] == 91u8);
    }
}

fn cursor_final(key: TerminalKey) -> (r: Option<u8>)
    ensures
        r == cursor_letter(key),
{
    match key {
        TerminalKey::Up => Some('A' as u8),
        TerminalKey::Down => Some('B' as u8),
        TerminalKey::Right => Some('C' as u8),
        TerminalKey::Left => Some('D' as u8),
        TerminalKey::Home => Some('H' as u8),
        TerminalKey::End => Some('F' as u8),
        _ => None,
    }
}

fn function_final(key: TerminalKey) -> (r: Option<u8>)
    ensures
        r == function_letter(key),
{
    match key {
        TerminalKey::Function(1) => Some('P' as u8),
        TerminalKey::Function(2) => Some('Q' as u8),
        TerminalKey::Function(3) => Some('R' as u8),
        TerminalKey::Function(4) => Some('S' as u8),
        _ => None,
    }
}

fn editing_number(key: TerminalKey) -> (r: Option<usize>)
    ensures
        r is Some <==> tilde_number(key) is Some,
        r is Some ==> r->0 == tilde_number(key)->0,
{
    match key {
        TerminalKey::Insert => Some(2),
        TerminalKey::Delete => Some(3),
        TerminalKey::PageUp => Some(5),
        TerminalKey::PageDown => Some(6),
        TerminalKey::Function(5) => Some(15),
        TerminalKey::Function(6) => Some(17),
        TerminalKey::Function(7) => Some(18),
        TerminalKey::Function(8) => Some(19),
        TerminalKey::Function(9) => Some(20),
        TerminalKey::Function(10) => Some(21),
        TerminalKey::Function(11) => Some(23),
        TerminalKey::Function(12) => Some(24),
        _ => None,
    }
}

pub fn encode_terminal_key(key: TerminalKey, application_cursor_keys: bool) -> (r: Option<Vec<u8>>)
    ensures
        r is Some <==> key_bytes(key, application_cursor_keys) is Some,
        r is Some ==> r->0@ == key_bytes(key, application_cursor_keys)->0,
{
    let bytes: Vec<u8> = match key {
        TerminalKey::Enter => vec!['\r' as u8],
        TerminalKey::Backspace => vec![0x7f],
        TerminalKey::Tab => vec!['\t' as u8],
        TerminalKey::BackTab => vec![0x1b, '[' as u8, 'Z' as u8],
        TerminalKey::Escape => vec![0x1b],
        _ => {
            if let Some(letter) = cursor_final(key) {
                if application_cursor_keys {
                    vec![0x1b, 'O' as u8, letter]
                } else {
                    vec![0x1b, '[' as u8, letter]
                }
            } else if let Some(letter) = function_final(key) {
                vec![0x1b, 'O' as u8, letter]
            } else {
                match editing_number(key) {
                    Some(number) => {
                        let mut bytes: Vec<u8> = vec![0x1b, '[' as u8];
                        push_decimal(&mut bytes, number);
                        bytes.push('~' as u8);
                        proof {
                            assert(bytes@ =~= seq![27u8, 91] + decimal(number as nat)
                                + seq![126u8]);
                        }
                        bytes
                    },
                    None => {
                        return None;
                    },
                }
            }
        },
    };
    proof {
        assert(bytes@ =~= key_bytes(key, application_cursor_keys)->0);
    }
    Some(bytes)
}

fn encode_xterm_modified_key(key: TerminalKey, parameter: u8) -> (r: Option<Vec<u8>>)
    requires
        2 <= parameter <= 8,
    ensures
        r is Some <==> parameter_bytes(key, parameter as int) is Some,
        r is Some ==> r->0@ == parameter_bytes(key, parameter as int)->0,
{
    let digit: u8 = ('0' as u8) + parameter;
    let letter: Option<u8> = match cursor_final(key) {
        Some(letter) => Some(letter),
        None => function_final(key),
    };
    if let Some(letter) = letter {
        let bytes: Vec<u8> = vec![0x1b, '[' as u8, '1' as u8, ';' as u8, digit, letter];
        proof {
            assert(bytes@ =~= parameter_bytes(key, parameter as int)->0);
        }
        return Some(bytes);
    }
    match editing_number(key) {
        Some(number) => {
            let mut bytes: Vec<u8> = vec![0x1b, '[' as u8];
            push_decimal(&mut bytes, number);
            bytes.push(';' as u8);
            bytes.push(digit);
            bytes.push('~' as u8);
            proof {
                assert(bytes@ =~= parameter_bytes(key, parameter as int)->0);
            }
            Some(bytes)
        },
        None => None,
    }
}

pub fn encode_terminal_key_with_modifiers(
    key: TerminalKey,
    application_cursor_keys: bool,
    modifiers: TerminalKeyModifiers,
) -> (r: Option<Vec<u8>>)
    ensures
        r is Some <==> modified_bytes(key, application_cursor_keys, modifiers) is Some,
        r is Some ==> r->0@ == modified_bytes(key, application_cursor_keys, modifiers)->0,
{
    if let Some(parameter) = modifiers.xterm_parameter() {
        if let Some(bytes) = encode_xterm_modified_key(key, parameter) {
            return Some(bytes);
        }
    }
    match encode_terminal_key(key, application_cursor_keys) {
        Some(bytes) => {
            let mut bytes = bytes;
            if modifiers.alt {
                bytes.insert(0, 0x1b);
            }
            proof {
                assert(bytes@ =~= modified_bytes(key, application_cursor_keys, modifiers)->0);
            }
            Some(bytes)
        },
        None => None,
    }
}

} // verus!
