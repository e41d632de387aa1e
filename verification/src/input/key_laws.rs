//! What keys and pointers send, byte by byte.
use crate::decimal::{decimal, decimal_value, law_decimal_round_trip};
use crate::grid::terminal::MouseEncoding;
use crate::input::keybind::{
    ascii_lowercase, binding_of, bound_action, bound_key, configured, key_code, letter_code,
    lowered_parts, modifier_bit, plus_parts, with_binding, KeyBind, KeybindConfig, PaneAction,
};
use crate::input::keyboard::{key_bytes, modified_bytes, TerminalKey, TerminalKeyModifiers};
use crate::input::linux::{
    local_action, press_bytes, terminal_key, LinuxKeyPress, LogicalKey, Modifiers, NamedKey,
    ScrollbackAction,
};
use crate::input::macos::{
    control_byte, event_bytes, terminal_key_code, typed_bytes, AppkitKeyEvent, AppkitModifiers,
};
use crate::input::mouse::{modified_button, mouse_bytes};
use crate::input::paste::{normalized, paste_bytes};
use vstd::prelude::*;
use vstd::utf8::encode_utf8;

verus! {

/// Digits of a number start with a zero only where it is zero.
pub proof fn law_decimals_have_no_leading_zero(n: nat)
    ensures
        decimal(n).len() > 0,
        decimal(n)[0] == 48 <==> n == 0,
        n < 10 <==> decimal(n).len() == 1,
    decreases n,
{
    if n >= 10 {
        law_decimals_have_no_leading_zero(n / 10);
    }
}

proof fn lemma_two_digits(tens: nat, units: nat)
    requires
        1 <= tens < 10,
        units < 10,
    ensures
        decimal(tens * 10 + units) == seq![(48 + tens) as u8, (48 + units) as u8],
{
    let n = tens * 10 + units;
    assert(n / 10 == tens && n % 10 == units);
    assert(decimal(tens) == seq![(48 + tens) as u8]);
    assert(decimal(n) =~= seq![(48 + tens) as u8, (48 + units) as u8]);
}

/// The keys that write: Enter, Backspace, Tab and Escape send one byte each, and
/// a tab backwards an escape sequence, in both cursor modes.
pub proof fn law_writing_keys(application: bool)
    ensures
        key_bytes(TerminalKey::Enter, application) == Some(seq![0x0du8]),
        key_bytes(TerminalKey::Backspace, application) == Some(seq![0x7fu8]),
        key_bytes(TerminalKey::Tab, application) == Some(seq![0x09u8]),
        key_bytes(TerminalKey::BackTab, application) == Some(seq![0x1bu8, 0x5b, 0x5a]),
        key_bytes(TerminalKey::Escape, application) == Some(seq![0x1bu8]),
{
}

/// The cursor keys send the letters A to D, H and F, behind `ESC [` or, in the
/// application mode, behind `ESC O`.
pub proof fn law_cursor_keys(application: bool)
    ensures
        ({
            let lead: u8 = if application { 0x4f } else { 0x5b };
            &&& key_bytes(TerminalKey::Up, application) == Some(seq![0x1bu8, lead, 0x41])
            &&& key_bytes(TerminalKey::Down, application) == Some(seq![0x1bu8, lead, 0x42])
            &&& key_bytes(TerminalKey::Right, application) == Some(seq![0x1bu8, lead, 0x43])
            &&& key_bytes(TerminalKey::Left, application) == Some(seq![0x1bu8, lead, 0x44])
            &&& key_bytes(TerminalKey::Home, application) == Some(seq![0x1bu8, lead, 0x48])
            &&& key_bytes(TerminalKey::End, application) == Some(seq![0x1bu8, lead, 0x46])
        }),
{
}

/// The editing keys and the later function keys send their number between
/// `ESC [` and a tilde, and the first four function keys the letters P to S
/// behind `ESC O`.
pub proof fn law_numbered_keys(application: bool)
    ensures
        key_bytes(TerminalKey::Insert, application) == Some(seq![0x1bu8, 0x5b, 0x32, 0x7e]),
        key_bytes(TerminalKey::Delete, application) == Some(seq![0x1bu8, 0x5b, 0x33, 0x7e]),
        key_bytes(TerminalKey::PageUp, application) == Some(seq![0x1bu8, 0x5b, 0x35, 0x7e]),
        key_bytes(TerminalKey::PageDown, application) == Some(seq![0x1bu8, 0x5b, 0x36, 0x7e]),
        key_bytes(TerminalKey::Function(1), application) == Some(seq![0x1bu8, 0x4f, 0x50]),
        key_bytes(TerminalKey::Function(2), application) == Some(seq![0x1bu8, 0x4f, 0x51]),
        key_bytes(TerminalKey::Function(3), application) == Some(seq![0x1bu8, 0x4f, 0x52]),
        key_bytes(TerminalKey::Function(4), application) == Some(seq![0x1bu8, 0x4f, 0x53]),
        key_bytes(TerminalKey::Function(5), application) == Some(
            seq![0x1bu8, 0x5b, 0x31, 0x35, 0x7e],
        ),
        key_bytes(TerminalKey::Function(6), application) == Some(
            seq![0x1bu8, 0x5b, 0x31, 0x37, 0x7e],
        ),
        key_bytes(TerminalKey::Function(7), application) == Some(
            seq![0x1bu8, 0x5b, 0x31, 0x38, 0x7e],
        ),
        key_bytes(TerminalKey::Function(8), application) == Some(
            seq![0x1bu8, 0x5b, 0x31, 0x39, 0x7e],
        ),
        key_bytes(TerminalKey::Function(9), application) == Some(
            seq![0x1bu8, 0x5b, 0x32, 0x30, 0x7e],
        ),
        key_bytes(TerminalKey::Function(10), application) == Some(
            seq![0x1bu8, 0x5b, 0x32, 0x31, 0x7e],
        ),
        key_bytes(TerminalKey::Function(11), application) == Some(
            seq![0x1bu8, 0x5b, 0x32, 0x33, 0x7e],
        ),
        key_bytes(TerminalKey::Function(12), application) == Some(
            seq![0x1bu8, 0x5b, 0x32, 0x34, 0x7e],
        ),
        forall|n: u8|
            n == 0 || n > 12 ==> (#[trigger] key_bytes(
                TerminalKey::Function(n),
                application,
            )) is None,
{
    lemma_two_digits(1, 5);
    lemma_two_digits(1, 7);
    lemma_two_digits(1, 8);
    lemma_two_digits(1, 9);
    lemma_two_digits(2, 0);
    lemma_two_digits(2, 1);
    lemma_two_digits(2, 3);
    lemma_two_digits(2, 4);
    assert(decimal(2) == seq![0x32u8] && decimal(3) == seq![0x33u8] && decimal(5) == seq![0x35u8]
        && decimal(6) == seq![0x36u8]);
    assert(key_bytes(TerminalKey::Insert, application)->0 =~= seq![0x1bu8, 0x5b, 0x32, 0x7e]);
    assert(key_bytes(TerminalKey::Delete, application)->0 =~= seq![0x1bu8, 0x5b, 0x33, 0x7e]);
    assert(key_bytes(TerminalKey::PageUp, application)->0 =~= seq![0x1bu8, 0x5b, 0x35, 0x7e]);
    assert(key_bytes(TerminalKey::PageDown, application)->0 =~= seq![0x1bu8, 0x5b, 0x36, 0x7e]);
    assert(key_bytes(TerminalKey::Function(5), application)->0
        =~= seq![0x1bu8, 0x5b, 0x31, 0x35, 0x7e]);
    assert(key_bytes(TerminalKey::Function(6), application)->0
        =~= seq![0x1bu8, 0x5b, 0x31, 0x37, 0x7e]);
    assert(key_bytes(TerminalKey::Function(7), application)->0
        =~= seq![0x1bu8, 0x5b, 0x31, 0x38, 0x7e]);
    assert(key_bytes(TerminalKey::Function(8), application)->0
        =~= seq![0x1bu8, 0x5b, 0x31, 0x39, 0x7e]);
    assert(key_bytes(TerminalKey::Function(9), application)->0
        =~= seq![0x1bu8, 0x5b, 0x32, 0x30, 0x7e]);
    assert(key_bytes(TerminalKey::Function(10), application)->0
        =~= seq![0x1bu8, 0x5b, 0x32, 0x31, 0x7e]);
    assert(key_bytes(TerminalKey::Function(11), application)->0
        =~= seq![0x1bu8, 0x5b, 0x32, 0x33, 0x7e]);
    assert(key_bytes(TerminalKey::Function(12), application)->0
        =~= seq![0x1bu8, 0x5b, 0x32, 0x34, 0x7e]);
}

/// A held modifier is told by a digit, one more than the sum of one for Shift,
/// two for Alt and four for Control, before the last byte of the sequence of the
/// key. Keys that write tell Alt alone, by an Escape before their bytes.
pub proof fn law_modified_keys(key: TerminalKey, application: bool, shift: bool, alt: bool, control: bool)
    ensures
        ({
            let modifiers = TerminalKeyModifiers { shift, alt, control };
            let sum: int = (if shift { 1int } else { 0 }) + (if alt { 2int } else { 0 }) + (
            if control { 4int } else { 0 });
            let digit = (49 + sum) as u8;
            let sent = modified_bytes(key, application, modifiers);
            let plain = key_bytes(key, application);
            let normal = key_bytes(key, false);
            let writes = match key {
                TerminalKey::Enter
                | TerminalKey::Backspace
                | TerminalKey::Tab
                | TerminalKey::BackTab
                | TerminalKey::Escape => true,
                _ => false,
            };
            let tilde = plain is Some && plain->0.last() == 0x7e;
            &&& sent is Some <==> plain is Some
            &&& sum == 0 ==> sent == plain
            &&& writes && !alt ==> sent == plain
            &&& writes && alt ==> sent == Some(seq![0x1bu8] + plain->0)
            &&& !writes && sum > 0 && plain is Some && !tilde ==> sent == Some(
                seq![0x1bu8, 0x5b, 0x31, 0x3b, digit, plain->0.last()],
            )
            &&& !writes && sum > 0 && tilde ==> sent == Some(
                plain->0.drop_last() + seq![0x3bu8, digit, 0x7e],
            )
        }),
{
    let modifiers = TerminalKeyModifiers { shift, alt, control };
    let plain = key_bytes(key, application);
    if let Some(number) = crate::input::keyboard::tilde_number(key) {
        let digits = decimal(number as nat);
        let sum: int = (if shift { 1int } else { 0 }) + (if alt { 2int } else { 0 }) + (if control {
            4int
        } else {
            0
        });
        assert(plain->0.drop_last() =~= seq![27u8, 91] + digits);
        assert(seq![27u8, 91] + digits + seq![59u8, (48 + modifiers.parameter()) as u8, 126]
            =~= plain->0.drop_last() + seq![0x3bu8, (49 + sum) as u8, 0x7e]);
    }
}

/// The names of the window system stand for the terminal's keys of the same
/// name; Shift makes a tab go backwards and changes no other key.
pub proof fn law_named_keys(shift: bool)
    ensures
        terminal_key(NamedKey::Enter, shift) == Some(TerminalKey::Enter),
        terminal_key(NamedKey::Backspace, shift) == Some(TerminalKey::Backspace),
        terminal_key(NamedKey::Tab, false) == Some(TerminalKey::Tab),
        terminal_key(NamedKey::Tab, true) == Some(TerminalKey::BackTab),
        terminal_key(NamedKey::Escape, shift) == Some(TerminalKey::Escape),
        terminal_key(NamedKey::ArrowUp, shift) == Some(TerminalKey::Up),
        terminal_key(NamedKey::ArrowDown, shift) == Some(TerminalKey::Down),
        terminal_key(NamedKey::ArrowRight, shift) == Some(TerminalKey::Right),
        terminal_key(NamedKey::ArrowLeft, shift) == Some(TerminalKey::Left),
        terminal_key(NamedKey::Home, shift) == Some(TerminalKey::Home),
        terminal_key(NamedKey::End, shift) == Some(TerminalKey::End),
        terminal_key(NamedKey::PageUp, shift) == Some(TerminalKey::PageUp),
        terminal_key(NamedKey::PageDown, shift) == Some(TerminalKey::PageDown),
        terminal_key(NamedKey::Insert, shift) == Some(TerminalKey::Insert),
        terminal_key(NamedKey::Delete, shift) == Some(TerminalKey::Delete),
        terminal_key(NamedKey::F1, shift) == Some(TerminalKey::Function(1)),
        terminal_key(NamedKey::F2, shift) == Some(TerminalKey::Function(2)),
        terminal_key(NamedKey::F3, shift) == Some(TerminalKey::Function(3)),
        terminal_key(NamedKey::F4, shift) == Some(TerminalKey::Function(4)),
        terminal_key(NamedKey::F5, shift) == Some(TerminalKey::Function(5)),
        terminal_key(NamedKey::F6, shift) == Some(TerminalKey::Function(6)),
        terminal_key(NamedKey::F7, shift) == Some(TerminalKey::Function(7)),
        terminal_key(NamedKey::F8, shift) == Some(TerminalKey::Function(8)),
        terminal_key(NamedKey::F9, shift) == Some(TerminalKey::Function(9)),
        terminal_key(NamedKey::F10, shift) == Some(TerminalKey::Function(10)),
        terminal_key(NamedKey::F11, shift) == Some(TerminalKey::Function(11)),
        terminal_key(NamedKey::F12, shift) == Some(TerminalKey::Function(12)),
        terminal_key(NamedKey::Other, shift) is None,
{
}

/// A press sends the sequence of its key where it has one, and else its text,
/// which Control exchanges and Alt puts an Escape before. With Super held
/// nothing is sent.
pub proof fn law_presses(press: LinuxKeyPress<'_>, application: bool)
    ensures
        ({
            let sent = press_bytes(press, application);
            let held = press.modifiers;
            let text = if held.control { press.control_text } else { press.text };
            let named = match press.named_key {
                Some(name) => terminal_key(name, held.shift),
                None => None,
            };
            &&& held.super_key ==> sent is None
            &&& !held.super_key && named is Some ==> sent == modified_bytes(
                named->0,
                application,
                TerminalKeyModifiers { shift: held.shift, alt: held.alt, control: held.control },
            )
            &&& !held.super_key && named is None && (text is None || text->0@.len() == 0) ==> sent
                is None
            &&& !held.super_key && named is None && text is Some && text->0@.len() > 0
                && !held.alt ==> sent == Some(encode_utf8(text->0@))
            &&& !held.super_key && named is None && text is Some && text->0@.len() > 0
                && held.alt ==> sent is Some && sent->0.len() == encode_utf8(text->0@).len() + 1
                && sent->0[0] == 0x1b && sent->0.drop_first() == encode_utf8(text->0@)
        }),
{
    let text = if press.modifiers.control { press.control_text } else { press.text };
    if text is Some {
        assert((seq![27u8] + encode_utf8(text->0@)).drop_first() =~= encode_utf8(text->0@));
    }
}

/// Shift with a page key scrolls the history by a page in its direction, with
/// Home to the top and with End to the bottom. Any other modifier, a release or
/// a made-up event does not.
pub proof fn law_scrolling_keys(key: LogicalKey, pressed: bool, synthetic: bool, held: Modifiers)
    ensures
        ({
            let action = local_action(key, pressed, synthetic, held);
            let alone = held.shift && !held.control && !held.alt && !held.super_key;
            &&& !pressed || synthetic || !alone ==> action is None
            &&& pressed && !synthetic && alone ==> {
                &&& key == LogicalKey::Named(NamedKey::PageUp) <==> action == Some(
                    ScrollbackAction::PageUp,
                )
                &&& key == LogicalKey::Named(NamedKey::PageDown) <==> action == Some(
                    ScrollbackAction::PageDown,
                )
                &&& key == LogicalKey::Named(NamedKey::Home) <==> action == Some(
                    ScrollbackAction::Top,
                )
                &&& key == LogicalKey::Named(NamedKey::End) <==> action == Some(
                    ScrollbackAction::Bottom,
                )
            }
        }),
{
}

/// The hardware keys of a keyboard that have sequences of their own.
pub proof fn law_hardware_keys(shift: bool)
    ensures
        terminal_key_code(36, shift) == Some(TerminalKey::Enter),
        terminal_key_code(51, shift) == Some(TerminalKey::Backspace),
        terminal_key_code(48, false) == Some(TerminalKey::Tab),
        terminal_key_code(48, true) == Some(TerminalKey::BackTab),
        terminal_key_code(53, shift) == Some(TerminalKey::Escape),
        terminal_key_code(126, shift) == Some(TerminalKey::Up),
        terminal_key_code(125, shift) == Some(TerminalKey::Down),
        terminal_key_code(124, shift) == Some(TerminalKey::Right),
        terminal_key_code(123, shift) == Some(TerminalKey::Left),
        terminal_key_code(115, shift) == Some(TerminalKey::Home),
        terminal_key_code(119, shift) == Some(TerminalKey::End),
        terminal_key_code(116, shift) == Some(TerminalKey::PageUp),
        terminal_key_code(121, shift) == Some(TerminalKey::PageDown),
        terminal_key_code(117, shift) == Some(TerminalKey::Delete),
        terminal_key_code(122, shift) == Some(TerminalKey::Function(1)),
        terminal_key_code(120, shift) == Some(TerminalKey::Function(2)),
        terminal_key_code(99, shift) == Some(TerminalKey::Function(3)),
        terminal_key_code(118, shift) == Some(TerminalKey::Function(4)),
        terminal_key_code(96, shift) == Some(TerminalKey::Function(5)),
        terminal_key_code(97, shift) == Some(TerminalKey::Function(6)),
        terminal_key_code(98, shift) == Some(TerminalKey::Function(7)),
        terminal_key_code(100, shift) == Some(TerminalKey::Function(8)),
        terminal_key_code(101, shift) == Some(TerminalKey::Function(9)),
        terminal_key_code(109, shift) == Some(TerminalKey::Function(10)),
        terminal_key_code(103, shift) == Some(TerminalKey::Function(11)),
        terminal_key_code(111, shift) == Some(TerminalKey::Function(12)),
        forall|one: u16, other: u16|
            (#[trigger] terminal_key_code(one, shift)) is Some && terminal_key_code(one, shift)
                == #[trigger] terminal_key_code(other, shift) ==> one == other,
{
}

/// Control clears the upper bits of a letter or of the signs from the bracket to
/// the underscore, and makes a space the zero byte.
pub proof fn law_control_bytes(c: char)
    ensures
        'a' <= c <= 'z' ==> control_byte(c) is Some && control_byte(c)->0 + 0x60 == c as u32,
        'A' <= c <= '_' ==> control_byte(c) is Some && control_byte(c)->0 + 0x40 == c as u32,
        c == ' ' ==> control_byte(c) == Some(0u8),
        !('a' <= c <= 'z' || 'A' <= c <= '_' || c == ' ') ==> control_byte(c) is None,
{
}

/// A typed text is sent as it is; Control makes its first character a control
/// byte where it can, and Option puts an Escape before it.
pub proof fn law_typed_texts(text: Seq<char>, held: AppkitModifiers)
    ensures
        ({
            let sent = typed_bytes(text, held);
            let control = held.control && text.len() > 0 && control_byte(text[0]) is Some;
            &&& text.len() == 0 <==> sent is None
            &&& control ==> sent is Some && sent->0.len() == 1 && Some(sent->0[0]) == control_byte(
                text[0],
            )
            &&& text.len() > 0 && !control && !held.option ==> sent == Some(encode_utf8(text))
            &&& text.len() > 0 && !control && held.option ==> sent is Some && sent->0[0] == 0x1b
                && sent->0.drop_first() == encode_utf8(text)
        }),
{
    assert((seq![27u8] + encode_utf8(text)).drop_first() =~= encode_utf8(text));
}

/// A key event sends the sequence of its hardware key with Option as Alt, and
/// else what it types.
pub proof fn law_key_events(event: AppkitKeyEvent, application: bool)
    ensures
        ({
            let sent = event_bytes(event, application);
            let held = event.modifiers;
            match terminal_key_code(event.key_code, held.shift) {
                Some(key) => sent == modified_bytes(
                    key,
                    application,
                    TerminalKeyModifiers {
                        shift: held.shift,
                        alt: held.option,
                        control: held.control,
                    },
                ),
                None => match event.characters {
                    Some(text) => sent == typed_bytes(text@, held),
                    None => sent is None,
                },
            }
        }),
{
    if let Some(key) = terminal_key_code(event.key_code, event.modifiers.shift) {
        law_modified_keys(
            key,
            application,
            event.modifiers.shift,
            event.modifiers.option,
            event.modifiers.control,
        );
    }
}

/// A legacy pointer report is six bytes: the code of the button, or of a release
/// without the button, then column and row, each above 32 and counted from one.
pub proof fn law_legacy_reports(button: u8, column: int, row: int, pressed: bool)
    requires
        0 <= column,
        0 <= row,
    ensures
        ({
            let sent = mouse_bytes(button, column, row, pressed, MouseEncoding::Default);
            &&& sent.len() == 6
            &&& sent[0] == 0x1b && sent[1] == 0x5b && sent[2] == 0x4d
            &&& pressed && button <= 223 ==> sent[3] == button + 32
            &&& pressed && button > 223 ==> sent[3] == 255
            &&& !pressed && button <= 223 ==> (sent[3] - 32) as u8 & 3u8 == 3 && (sent[3]
                - 32) as u8 & 28u8 == button & 28u8 && sent[3] < 64
            &&& 1 <= column <= 223 ==> sent[4] == column + 32
            &&& column == 0 ==> sent[4] == 33
            &&& column > 223 ==> sent[4] == 255
            &&& 1 <= row <= 223 ==> sent[5] == row + 32
            &&& row == 0 ==> sent[5] == 33
            &&& row > 223 ==> sent[5] == 255
        }),
{
    let code = 3u8 | (button & 28u8);
    assert(code <= 31 && code & 3u8 == 3 && code & 28u8 == button & 28u8) by (bit_vector)
        requires
            code == 3u8 | (button & 28u8),
    ;
}

/// An SGR pointer report names the button, the column and the row in decimal,
/// between `ESC [ <` and M for a press or m for a release.
pub proof fn law_sgr_reports(button: u8, column: nat, row: nat, pressed: bool)
    requires
        1 <= column,
        1 <= row,
    ensures
        ({
            let sent = mouse_bytes(button, column as int, row as int, pressed, MouseEncoding::Sgr);
            let b = decimal(button as nat).len() as int;
            let c = decimal(column).len() as int;
            let r = decimal(row).len() as int;
            &&& sent.len() == 6 + b + c + r
            &&& sent[0] == 0x1b && sent[1] == 0x5b && sent[2] == 0x3c
            &&& decimal_value(sent.subrange(3, 3 + b)) == button
            &&& sent[3 + b] == 0x3b
            &&& decimal_value(sent.subrange(4 + b, 4 + b + c)) == column
            &&& sent[4 + b + c] == 0x3b
            &&& decimal_value(sent.subrange(5 + b + c, 5 + b + c + r)) == row
            &&& pressed ==> sent.last() == 0x4d
            &&& !pressed ==> sent.last() == 0x6d
        }),
{
    let sent = mouse_bytes(button, column as int, row as int, pressed, MouseEncoding::Sgr);
    let b = decimal(button as nat).len() as int;
    let c = decimal(column).len() as int;
    let r = decimal(row).len() as int;
    law_decimal_round_trip(button as nat);
    law_decimal_round_trip(column);
    law_decimal_round_trip(row);
    assert(sent.subrange(3, 3 + b) =~= decimal(button as nat));
    assert(sent.subrange(4 + b, 4 + b + c) =~= decimal(column));
    assert(sent.subrange(5 + b + c, 5 + b + c + r) =~= decimal(row));
}

/// A button tells Shift by the bit of four, Alt by that of eight and Control by
/// that of sixteen, and keeps its other bits.
pub proof fn law_button_modifiers(button: u8, shift: bool, alt: bool, control: bool)
    ensures
        ({
            let code = modified_button(button, shift, alt, control);
            &&& code & 0xe3u8 == button & 0xe3u8
            &&& button & 4u8 == 0 ==> (code & 4u8 != 0 <==> shift)
            &&& button & 8u8 == 0 ==> (code & 8u8 != 0 <==> alt)
            &&& button & 16u8 == 0 ==> (code & 16u8 != 0 <==> control)
        }),
{
    let s: u8 = if shift { 4u8 } else { 0u8 };
    let a: u8 = if alt { 8u8 } else { 0u8 };
    let c: u8 = if control { 16u8 } else { 0u8 };
    let code = modified_button(button, shift, alt, control);
    assert(code == button | s | a | c);
    assert((code & 0xe3u8 == button & 0xe3u8) && (button & 4u8 == 0 ==> (code & 4u8 != 0 <==> s
        == 4)) && (button & 8u8 == 0 ==> (code & 8u8 != 0 <==> a == 8)) && (button & 16u8 == 0
        ==> (code & 16u8 != 0 <==> c == 16))) by (bit_vector)
        requires
            code == button | s | a | c,
            s == 0 || s == 4,
            a == 0 || a == 8,
            c == 0 || c == 16,
    ;
}

/// Pasted text is sent as it is, but for line ends and controls: a line feed
/// becomes Enter, unless it follows one and belongs to it, and other controls
/// are left out.
pub proof fn law_pasted_characters(text: Seq<char>, c: char)
    ensures
        ({
            let before = normalized(text);
            let after = normalized(text.push(c));
            let follows = text.len() > 0 && text.last() == '\r';
            let code = c as u32;
            &&& normalized(Seq::empty()).len() == 0
            &&& c == '\n' && !follows ==> after == before.push('\r')
            &&& c == '\n' && follows ==> after == before
            &&& c == '\r' ==> after == before.push('\r')
            &&& c == '\t' ==> after == before.push('\t')
            &&& 0x20 <= code <= 0x7e || code >= 0xa0 ==> after == before.push(c)
            &&& code < 0x20 && c != '\n' && c != '\r' && c != '\t' ==> after == before
            &&& 0x7f <= code < 0xa0 ==> after == before
        }),
{
    assert(text.push(c).drop_last() =~= text);
}

/// A bracketed paste is the plain one between its markers; nothing is sent for a
/// text of which nothing is left.
pub proof fn law_bracketed_pastes(text: Seq<char>)
    ensures
        ({
            let plain = paste_bytes(text, false);
            let framed = paste_bytes(text, true);
            &&& plain == encode_utf8(normalized(text))
            &&& plain.len() == 0 ==> framed.len() == 0
            &&& plain.len() > 0 ==> {
                &&& framed.len() == plain.len() + 12
                &&& framed.subrange(6, 6 + plain.len() as int) == plain
                &&& framed.take(6) == seq![0x1bu8, 0x5b, 0x32, 0x30, 0x30, 0x7e]
                &&& framed.skip(6 + plain.len() as int) == seq![0x1bu8, 0x5b, 0x32, 0x30, 0x31, 0x7e]
            }
        }),
{
    let plain = paste_bytes(text, false);
    let framed = paste_bytes(text, true);
    if plain.len() > 0 {
        assert(framed.subrange(6, 6 + plain.len() as int) =~= plain);
        assert(framed.take(6) =~= seq![0x1bu8, 0x5b, 0x32, 0x30, 0x30, 0x7e]);
        assert(framed.skip(6 + plain.len() as int) =~= seq![0x1bu8, 0x5b, 0x32, 0x30, 0x31, 0x7e]);
    }
}

/// The letters of a binding stand for different hardware keys, none of them one
/// that has a sequence of its own; nothing but a single small letter names one.
pub proof fn law_bound_letters(one: char, other: char)
    ensures
        letter_code(one) is Some <==> 'a' <= one <= 'z',
        letter_code(one) is Some && letter_code(one) == letter_code(other) ==> one == other,
        letter_code(one) is Some ==> terminal_key_code(letter_code(one)->0, false) is None,
        forall|name: Seq<char>|
            (#[trigger] key_code(name)) is Some ==> name.len() == 1 && 'a' <= name[0] <= 'z',
{
}

/// The letters by their hardware keys, and the names of the modifiers by their
/// bits.
pub proof fn law_binding_words()
    ensures
        letter_code('a') == Some(0u16),
        letter_code('b') == Some(11u16),
        letter_code('c') == Some(8u16),
        letter_code('d') == Some(2u16),
        letter_code('e') == Some(14u16),
        letter_code('f') == Some(3u16),
        letter_code('g') == Some(5u16),
        letter_code('h') == Some(4u16),
        letter_code('i') == Some(34u16),
        letter_code('j') == Some(38u16),
        letter_code('k') == Some(40u16),
        letter_code('l') == Some(37u16),
        letter_code('m') == Some(46u16),
        letter_code('n') == Some(45u16),
        letter_code('o') == Some(31u16),
        letter_code('p') == Some(35u16),
        letter_code('q') == Some(12u16),
        letter_code('r') == Some(15u16),
        letter_code('s') == Some(1u16),
        letter_code('t') == Some(17u16),
        letter_code('u') == Some(32u16),
        letter_code('v') == Some(9u16),
        letter_code('w') == Some(13u16),
        letter_code('x') == Some(7u16),
        letter_code('y') == Some(16u16),
        letter_code('z') == Some(6u16),
        modifier_bit("cmd"@) == Some(1u8),
        modifier_bit("command"@) == Some(1u8),
        modifier_bit("super"@) == Some(1u8),
        modifier_bit("shift"@) == Some(2u8),
        modifier_bit("ctrl"@) == Some(4u8),
        modifier_bit("control"@) == Some(4u8),
        modifier_bit("alt"@) == Some(8u8),
        modifier_bit("option"@) == Some(8u8),
{
    reveal_strlit("cmd");
    reveal_strlit("command");
    reveal_strlit("super");
    reveal_strlit("shift");
    reveal_strlit("ctrl");
    reveal_strlit("control");
    reveal_strlit("alt");
    reveal_strlit("option");
    assert("cmd"@.len() == 3 && "ctrl"@.len() == 4 && "super"@.len() == 5 && "shift"@.len() == 5);
    assert("option"@.len() == 6 && "command"@.len() == 7 && "control"@.len() == 7);
    assert("cmd"@[0] == 'c' && "alt"@[0] == 'a');
    assert("super"@[1] == 'u' && "shift"@[1] == 'h');
    assert("command"@[2] == 'm' && "control"@[2] == 'n');
}

/// A binding names its key by the last part that is no modifier, and has every
/// modifier that a part names.
pub proof fn law_bound_parts(parts: Seq<Seq<char>>, last: Seq<char>)
    ensures
        bound_key(Seq::empty()).0 == 0,
        bound_key(Seq::empty()).1.len() == 0,
        modifier_bit(last) is None ==> bound_key(parts.push(last)) == (bound_key(parts).0, last),
        modifier_bit(last) is Some ==> bound_key(parts.push(last)).1 == bound_key(parts).1
            && bound_key(parts.push(last)).0 & modifier_bit(last)->0 == modifier_bit(last)->0,
{
    assert(parts.push(last).drop_last() =~= parts);
    if let Some(bit) = modifier_bit(last) {
        let bits = bound_key(parts).0;
        assert((bits | bit) & bit == bit) by (bit_vector);
    }
}


/// A plus sign starts a new part, and any other character belongs to the part
/// before it.
pub proof fn law_parts_of_a_binding(text: Seq<char>, c: char)
    ensures
        plus_parts(Seq::empty()) == seq![Seq::<char>::empty()],
        plus_parts(text).len() > 0,
        c == '+' ==> plus_parts(text.push(c)) == plus_parts(text).push(Seq::empty()),
        c != '+' ==> {
            let before = plus_parts(text);
            let after = plus_parts(text.push(c));
            &&& after.len() == before.len()
            &&& after.drop_last() == before.drop_last()
            &&& after.last() == before.last().push(c)
        },
    decreases text.len(),
{
    assert(text.push(c).drop_last() =~= text);
    if text.len() > 0 {
        law_parts_of_a_binding(text.drop_last(), text.last());
        assert(text.drop_last().push(text.last()) =~= text);
    }
    let before = plus_parts(text);
    if c != '+' {
        let after = plus_parts(text.push(c));
        assert(after.drop_last() =~= before.drop_last());
    }
}

/// The action of a key is the first that was bound to it.
pub proof fn law_first_bindings(
    bindings: Seq<(KeyBind, PaneAction)>,
    bind: KeyBind,
    i: int,
)
    requires
        0 <= i < bindings.len(),
        bindings[i].0 == bind,
        forall|k: int| 0 <= k < i ==> (#[trigger] bindings[k]).0 != bind,
    ensures
        bound_action(bindings, bind) == Some(bindings[i].1),
    decreases i,
{
    if i > 0 {
        assert(bindings[0].0 != bind);
        let rest = bindings.drop_first();
        assert forall|k: int| 0 <= k < i - 1 implies (#[trigger] rest[k]).0 != bind by {
            assert(bindings[k + 1].0 != bind);
        }
        law_first_bindings(rest, bind, i - 1);
    }
}

/// A key that was not bound has no action.
pub proof fn law_unbound_keys(bindings: Seq<(KeyBind, PaneAction)>, bind: KeyBind)
    requires
        forall|k: int| 0 <= k < bindings.len() ==> (#[trigger] bindings[k]).0 != bind,
    ensures
        bound_action(bindings, bind) is None,
    decreases bindings.len(),
{
    if bindings.len() > 0 {
        assert(bindings[0].0 != bind);
        let rest = bindings.drop_first();
        assert forall|k: int| 0 <= k < rest.len() implies (#[trigger] rest[k]).0 != bind by {
            assert(bindings[k + 1].0 != bind);
        }
        law_unbound_keys(rest, bind);
    }
}

/// Every configured key that can be read is bound to the action it is
/// configured for.
pub proof fn law_configured_keys(config: KeybindConfig, bind: KeyBind)
    ensures
        ({
            let all = configured(config);
            &&& binding_of(lowered_parts(config.split_vertical@)) == Some(bind) ==> all.contains(
                (bind, PaneAction::SplitVertical),
            )
            &&& binding_of(lowered_parts(config.split_horizontal@)) == Some(bind) ==> all.contains(
                (bind, PaneAction::SplitHorizontal),
            )
            &&& binding_of(lowered_parts(config.close_pane@)) == Some(bind) ==> all.contains(
                (bind, PaneAction::ClosePane),
            )
            &&& binding_of(lowered_parts(config.focus_left@)) == Some(bind) ==> all.contains(
                (bind, PaneAction::FocusLeft),
            )
            &&& binding_of(lowered_parts(config.focus_down@)) == Some(bind) ==> all.contains(
                (bind, PaneAction::FocusDown),
            )
            &&& binding_of(lowered_parts(config.focus_up@)) == Some(bind) ==> all.contains(
                (bind, PaneAction::FocusUp),
            )
            &&& binding_of(lowered_parts(config.focus_right@)) == Some(bind) ==> all.contains(
                (bind, PaneAction::FocusRight),
            )
            &&& binding_of(lowered_parts(config.resize_left@)) == Some(bind) ==> all.contains(
                (bind, PaneAction::ResizeLeft),
            )
            &&& binding_of(lowered_parts(config.resize_down@)) == Some(bind) ==> all.contains(
                (bind, PaneAction::ResizeDown),
            )
            &&& binding_of(lowered_parts(config.resize_up@)) == Some(bind) ==> all.contains(
                (bind, PaneAction::ResizeUp),
            )
            &&& binding_of(lowered_parts(config.resize_right@)) == Some(bind) ==> all.contains(
                (bind, PaneAction::ResizeRight),
            )
        }),
{
    let b0 = lemma_bound(
        Seq::empty(),
        binding_of(lowered_parts(config.split_vertical@)),
        PaneAction::SplitVertical,
    );
    let b1 = lemma_bound(
        b0,
        binding_of(lowered_parts(config.split_horizontal@)),
        PaneAction::SplitHorizontal,
    );
    let b2 = lemma_bound(b1, binding_of(lowered_parts(config.close_pane@)), PaneAction::ClosePane);
    let b3 = lemma_bound(b2, binding_of(lowered_parts(config.focus_left@)), PaneAction::FocusLeft);
    let b4 = lemma_bound(b3, binding_of(lowered_parts(config.focus_down@)), PaneAction::FocusDown);
    let b5 = lemma_bound(b4, binding_of(lowered_parts(config.focus_up@)), PaneAction::FocusUp);
    let b6 = lemma_bound(
        b5,
        binding_of(lowered_parts(config.focus_right@)),
        PaneAction::FocusRight,
    );
    let b7 = lemma_bound(
        b6,
        binding_of(lowered_parts(config.resize_left@)),
        PaneAction::ResizeLeft,
    );
    let b8 = lemma_bound(
        b7,
        binding_of(lowered_parts(config.resize_down@)),
        PaneAction::ResizeDown,
    );
    let b9 = lemma_bound(b8, binding_of(lowered_parts(config.resize_up@)), PaneAction::ResizeUp);
    let b10 = lemma_bound(
        b9,
        binding_of(lowered_parts(config.resize_right@)),
        PaneAction::ResizeRight,
    );
}

proof fn lemma_bound(
    before: Seq<(KeyBind, PaneAction)>,
    bind: Option<KeyBind>,
    action: PaneAction,
) -> (after: Seq<(KeyBind, PaneAction)>)
    ensures
        after == with_binding(before, bind, action),
        bind is Some ==> after.contains((bind->0, action)),
        forall|entry: (KeyBind, PaneAction)| #[trigger]
            before.contains(entry) ==> after.contains(entry),
        forall|entry: (KeyBind, PaneAction)| #[trigger]
            after.contains(entry) ==> before.contains(entry) || Some(entry.0) == bind && entry.1
                == action,
{
    let after = with_binding(before, bind, action);
    if let Some(found) = bind {
        assert(after[before.len() as int] == (found, action));
        assert forall|entry: (KeyBind, PaneAction)| #[trigger]
            before.contains(entry) implies after.contains(entry) by {
            let i = before.index_of(entry);
            assert(after[i] == entry);
        }
        assert forall|entry: (KeyBind, PaneAction)| #[trigger]
            after.contains(entry) implies before.contains(entry) || Some(entry.0) == bind
            && entry.1 == action by {
            let i = after.index_of(entry);
            if i < before.len() {
                assert(before[i] == entry);
            }
        }
    }
    after
}

/// Small letters take the place of ASCII capitals, and nothing else changes.
pub proof fn law_small_letters(text: Seq<char>, i: int)
    requires
        0 <= i < text.len(),
    ensures
        ascii_lowercase(text).len() == text.len(),
        'A' <= text[i] <= 'Z' ==> ascii_lowercase(text)[i] as u32 == text[i] as u32 + 32,
        !('A' <= text[i] <= 'Z') ==> ascii_lowercase(text)[i] == text[i],
{
}

} // verus!
