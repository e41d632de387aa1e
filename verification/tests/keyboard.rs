//! Key sequences.
use kokuban::input::keyboard::{
    encode_terminal_key, encode_terminal_key_with_modifiers, TerminalKey, TerminalKeyModifiers,
};

#[test]
fn encodes_cursor_keys_in_normal_and_application_modes() {
    let cases = [
        (TerminalKey::Up, b"\x1b[A".as_slice(), b"\x1bOA".as_slice()),
        (
            TerminalKey::Down,
            b"\x1b[B".as_slice(),
            b"\x1bOB".as_slice(),
        ),
        (
            TerminalKey::Right,
            b"\x1b[C".as_slice(),
            b"\x1bOC".as_slice(),
        ),
        (
            TerminalKey::Left,
            b"\x1b[D".as_slice(),
            b"\x1bOD".as_slice(),
        ),
        (
            TerminalKey::Home,
            b"\x1b[H".as_slice(),
            b"\x1bOH".as_slice(),
        ),
        (TerminalKey::End, b"\x1b[F".as_slice(), b"\x1bOF".as_slice()),
    ];

    for (key, normal, application) in cases {
        assert_eq!(encode_terminal_key(key, false).as_deref(), Some(normal));
        assert_eq!(encode_terminal_key(key, true).as_deref(), Some(application));
    }
}

#[test]
fn encodes_backtab_editing_and_function_keys() {
    assert_eq!(
        encode_terminal_key(TerminalKey::Tab, true).as_deref(),
        Some(b"\t".as_slice())
    );
    assert_eq!(
        encode_terminal_key(TerminalKey::BackTab, false).as_deref(),
        Some(b"\x1b[Z".as_slice())
    );
    for application_cursor_keys in [false, true] {
        assert_eq!(
            encode_terminal_key(TerminalKey::Insert, application_cursor_keys).as_deref(),
            Some(b"\x1b[2~".as_slice())
        );
    }
    assert_eq!(
        encode_terminal_key(TerminalKey::Delete, true).as_deref(),
        Some(b"\x1b[3~".as_slice())
    );

    let expected = [
        b"\x1bOP".as_slice(),
        b"\x1bOQ".as_slice(),
        b"\x1bOR".as_slice(),
        b"\x1bOS".as_slice(),
        b"\x1b[15~".as_slice(),
        b"\x1b[17~".as_slice(),
        b"\x1b[18~".as_slice(),
        b"\x1b[19~".as_slice(),
        b"\x1b[20~".as_slice(),
        b"\x1b[21~".as_slice(),
        b"\x1b[23~".as_slice(),
        b"\x1b[24~".as_slice(),
    ];
    for (index, sequence) in expected.into_iter().enumerate() {
        assert_eq!(
            encode_terminal_key(TerminalKey::Function((index + 1) as u8), false).as_deref(),
            Some(sequence)
        );
    }
    assert_eq!(
        encode_terminal_key(TerminalKey::Function(5), true).as_deref(),
        Some(b"\x1b[15~".as_slice())
    );
    assert_eq!(encode_terminal_key(TerminalKey::Function(0), false), None);
    assert_eq!(encode_terminal_key(TerminalKey::Function(13), false), None);
}

#[test]
fn encodes_every_xterm_modifier_parameter() {
    let cases = [
        (TerminalKeyModifiers::new(true, false, false), b"\x1b[1;2A"),
        (TerminalKeyModifiers::new(false, true, false), b"\x1b[1;3A"),
        (TerminalKeyModifiers::new(true, true, false), b"\x1b[1;4A"),
        (TerminalKeyModifiers::new(false, false, true), b"\x1b[1;5A"),
        (TerminalKeyModifiers::new(true, false, true), b"\x1b[1;6A"),
        (TerminalKeyModifiers::new(false, true, true), b"\x1b[1;7A"),
        (TerminalKeyModifiers::new(true, true, true), b"\x1b[1;8A"),
    ];

    for (modifiers, expected) in cases {
        assert_eq!(
            encode_terminal_key_with_modifiers(TerminalKey::Up, false, modifiers).as_deref(),
            Some(expected.as_slice())
        );
    }
}

#[test]
fn encodes_modified_cursor_editing_and_function_key_families() {
    let control = TerminalKeyModifiers::new(false, false, true);
    let cases = [
        (TerminalKey::Up, b"\x1b[1;5A".as_slice()),
        (TerminalKey::Down, b"\x1b[1;5B".as_slice()),
        (TerminalKey::Right, b"\x1b[1;5C".as_slice()),
        (TerminalKey::Left, b"\x1b[1;5D".as_slice()),
        (TerminalKey::Home, b"\x1b[1;5H".as_slice()),
        (TerminalKey::End, b"\x1b[1;5F".as_slice()),
        (TerminalKey::Insert, b"\x1b[2;5~".as_slice()),
        (TerminalKey::Delete, b"\x1b[3;5~".as_slice()),
        (TerminalKey::PageUp, b"\x1b[5;5~".as_slice()),
        (TerminalKey::PageDown, b"\x1b[6;5~".as_slice()),
        (TerminalKey::Function(1), b"\x1b[1;5P".as_slice()),
        (TerminalKey::Function(2), b"\x1b[1;5Q".as_slice()),
        (TerminalKey::Function(3), b"\x1b[1;5R".as_slice()),
        (TerminalKey::Function(4), b"\x1b[1;5S".as_slice()),
        (TerminalKey::Function(5), b"\x1b[15;5~".as_slice()),
        (TerminalKey::Function(6), b"\x1b[17;5~".as_slice()),
        (TerminalKey::Function(7), b"\x1b[18;5~".as_slice()),
        (TerminalKey::Function(8), b"\x1b[19;5~".as_slice()),
        (TerminalKey::Function(9), b"\x1b[20;5~".as_slice()),
        (TerminalKey::Function(10), b"\x1b[21;5~".as_slice()),
        (TerminalKey::Function(11), b"\x1b[23;5~".as_slice()),
        (TerminalKey::Function(12), b"\x1b[24;5~".as_slice()),
    ];

    for (key, expected) in cases {
        assert_eq!(
            encode_terminal_key_with_modifiers(key, false, control).as_deref(),
            Some(expected)
        );
    }
}

#[test]
fn modified_cursor_keys_use_csi_in_both_cursor_modes() {
    let shift_control = TerminalKeyModifiers::new(true, false, true);

    for application_cursor_keys in [false, true] {
        assert_eq!(
            encode_terminal_key_with_modifiers(
                TerminalKey::Home,
                application_cursor_keys,
                shift_control,
            )
            .as_deref(),
            Some(b"\x1b[1;6H".as_slice())
        );
    }
}

#[test]
fn non_parameterized_named_keys_keep_traditional_alt_prefixes() {
    let alt = TerminalKeyModifiers::new(false, true, false);
    let shift_alt = TerminalKeyModifiers::new(true, true, false);

    assert_eq!(
        encode_terminal_key_with_modifiers(TerminalKey::Enter, false, alt).as_deref(),
        Some(b"\x1b\r".as_slice())
    );
    assert_eq!(
        encode_terminal_key_with_modifiers(TerminalKey::BackTab, false, shift_alt).as_deref(),
        Some(b"\x1b\x1b[Z".as_slice())
    );
    assert_eq!(
        encode_terminal_key_with_modifiers(TerminalKey::Function(0), false, alt),
        None
    );
    assert_eq!(
        encode_terminal_key_with_modifiers(TerminalKey::Function(13), false, alt),
        None
    );
}
