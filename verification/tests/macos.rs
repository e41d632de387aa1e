//! Key and mouse events of the macOS window system.
use kokuban::input::keybind::KeyModifiers;
use kokuban::input::keyboard::TerminalKey;
use kokuban::input::macos::{
    encode_macos_terminal_key, key_modifiers_from_appkit, mouse_button_with_appkit_modifiers,
    terminal_key_from_key_code, translate_key_event, AppkitKeyEvent, AppkitModifiers,
};
use kokuban::input::mouse::{MOUSE_WHEEL_DOWN, MOUSE_WHEEL_UP};

const COMMAND: u8 = 1;
const SHIFT: u8 = 2;
const CONTROL: u8 = 4;
const OPTION: u8 = 8;
const CAPS_LOCK: u8 = 16;
const FUNCTION: u8 = 32;
const NUMERIC_PAD: u8 = 64;

fn appkit(flags: u8) -> AppkitModifiers {
    AppkitModifiers {
        command: flags & COMMAND != 0,
        shift: flags & SHIFT != 0,
        control: flags & CONTROL != 0,
        option: flags & OPTION != 0,
    }
}

#[test]
fn maps_tab_and_shift_tab() {
    assert_eq!(
        terminal_key_from_key_code(48, false),
        Some(TerminalKey::Tab)
    );
    assert_eq!(
        terminal_key_from_key_code(48, true),
        Some(TerminalKey::BackTab)
    );
}

#[test]
fn maps_macos_function_key_codes() {
    let key_codes = [122, 120, 99, 118, 96, 97, 98, 100, 101, 109, 103, 111];

    for (index, key_code) in key_codes.into_iter().enumerate() {
        assert_eq!(
            terminal_key_from_key_code(key_code, false),
            Some(TerminalKey::Function((index + 1) as u8))
        );
    }
}

#[test]
fn encodes_macos_modifiers_for_named_terminal_keys() {
    for application_cursor_keys in [false, true] {
        assert_eq!(
            encode_macos_terminal_key(
                123,
                appkit(CONTROL),
                application_cursor_keys,
            )
            .as_deref(),
            Some(b"\x1b[1;5D".as_slice())
        );
    }
    assert_eq!(
        encode_macos_terminal_key(96, appkit(OPTION), false).as_deref(),
        Some(b"\x1b[15;3~".as_slice())
    );
    assert_eq!(
        encode_macos_terminal_key(
            123,
            appkit(SHIFT | OPTION | CONTROL),
            false,
        )
        .as_deref(),
        Some(b"\x1b[1;8D".as_slice())
    );
    assert_eq!(
        encode_macos_terminal_key(48, appkit(SHIFT), false).as_deref(),
        Some(b"\x1b[Z".as_slice())
    );
}

#[test]
fn maps_appkit_key_modifiers_and_ignores_irrelevant_flags() {
    let irrelevant = CAPS_LOCK | FUNCTION | NUMERIC_PAD;

    for mask in 0_u8..16 {
        let mut flags = irrelevant;
        let mut expected = KeyModifiers::empty();
        for (bit, appkit_flag, key_modifier) in [
            (0, COMMAND, KeyModifiers::CMD),
            (1, SHIFT, KeyModifiers::SHIFT),
            (2, CONTROL, KeyModifiers::CTRL),
            (3, OPTION, KeyModifiers::ALT),
        ] {
            if mask & (1 << bit) != 0 {
                flags |= appkit_flag;
                expected.insert(key_modifier);
            }
        }

        assert_eq!(
            key_modifiers_from_appkit(appkit(flags)),
            expected,
            "unexpected mapping for relevant modifier mask {mask:04b}",
        );
    }
}

#[test]
fn macos_mouse_modifiers_map_exact_xterm_bits() {
    for (modifiers, expected) in [
        (appkit(0), 64),
        (appkit(SHIFT), 68),
        (appkit(OPTION), 72),
        (appkit(CONTROL), 80),
        (appkit(SHIFT | OPTION), 76),
        (appkit(SHIFT | CONTROL), 84),
        (appkit(OPTION | CONTROL), 88),
        (
            appkit(SHIFT | OPTION | CONTROL),
            92,
        ),
    ] {
        assert_eq!(
            mouse_button_with_appkit_modifiers(MOUSE_WHEEL_UP, modifiers),
            expected,
        );
    }

    let ignored = COMMAND | CAPS_LOCK | FUNCTION | NUMERIC_PAD;
    assert_eq!(
        mouse_button_with_appkit_modifiers(MOUSE_WHEEL_UP, appkit(ignored)),
        MOUSE_WHEEL_UP,
    );
    assert_eq!(
        mouse_button_with_appkit_modifiers(
            MOUSE_WHEEL_DOWN,
            appkit(ignored | SHIFT | OPTION | CONTROL),
        ),
        93,
    );
}

#[test]
fn typed_text_follows_control_and_option() {
    let typed = |characters: Option<&str>, flags: u8| {
        let event = AppkitKeyEvent {
            key_code: 0,
            modifiers: appkit(flags),
            characters: characters.map(str::to_string),
        };
        translate_key_event(&event, false)
    };
    assert_eq!(typed(Some("é"), 0), Some("é".as_bytes().to_vec()));
    assert_eq!(typed(Some("C"), CONTROL), Some(vec![3]));
    assert_eq!(typed(Some("["), CONTROL), Some(vec![0x1b]));
    assert_eq!(typed(Some(" "), CONTROL | OPTION), Some(vec![0]));
    assert_eq!(typed(Some("1"), CONTROL), Some(b"1".to_vec()));
    assert_eq!(typed(Some("a"), OPTION), Some(b"\x1ba".to_vec()));
    assert_eq!(typed(Some(""), 0), None);
    assert_eq!(typed(None, 0), None);
    let arrow = AppkitKeyEvent { key_code: 126, modifiers: appkit(0), characters: None };
    assert_eq!(translate_key_event(&arrow, true), Some(b"\x1bOA".to_vec()));
}
