//! Key events of the Linux window system.
use kokuban::input::keyboard::TerminalKey;
use kokuban::input::linux::{
    encode_key_press, named_key_from_logical, scrollback_action_for_key_event,
    should_forward_key_event, terminal_key_from_named, LinuxKeyPress, LogicalKey, Modifiers,
    NamedKey, ScrollbackAction,
};

const SHIFT: u8 = 1;
const CONTROL: u8 = 2;
const ALT: u8 = 4;
const SUPER: u8 = 8;

fn keys(held: u8) -> Modifiers {
    Modifiers::new(
        held & SHIFT != 0,
        held & CONTROL != 0,
        held & ALT != 0,
        held & SUPER != 0,
    )
}

fn press<'a>(
    named_key: Option<NamedKey>,
    text: Option<&'a str>,
    control_text: Option<&'a str>,
    modifiers: Modifiers,
) -> LinuxKeyPress<'a> {
    LinuxKeyPress {
        named_key,
        text,
        control_text,
        modifiers,
    }
}

#[test]
fn filters_release_and_synthetic_events_but_accepts_repeats() {
    assert!(should_forward_key_event(
        true,
        false,
        false,
        keys(0),
    ));
    assert!(should_forward_key_event(
        true,
        false,
        true,
        keys(0),
    ));
    assert!(!should_forward_key_event(
        false,
        false,
        false,
        keys(0),
    ));
    assert!(!should_forward_key_event(
        true,
        true,
        false,
        keys(0),
    ));
    assert!(!should_forward_key_event(
        true,
        false,
        false,
        keys(SUPER),
    ));
}

#[test]
fn logical_key_preserves_numlock_text_instead_of_modifierless_navigation() {
    assert_eq!(named_key_from_logical(LogicalKey::Character), None);
    assert_eq!(
        named_key_from_logical(LogicalKey::Named(NamedKey::End)),
        Some(NamedKey::End)
    );
}

#[test]
fn maps_exact_shift_navigation_to_local_scrollback_actions() {
    let cases = [
        (NamedKey::PageUp, ScrollbackAction::PageUp),
        (NamedKey::PageDown, ScrollbackAction::PageDown),
        (NamedKey::Home, ScrollbackAction::Top),
        (NamedKey::End, ScrollbackAction::Bottom),
    ];

    for (named_key, expected) in cases {
        assert_eq!(
            scrollback_action_for_key_event(
                LogicalKey::Named(named_key),
                true,
                false,
                false,
                keys(SHIFT),
            ),
            Some(expected)
        );
    }
    assert_eq!(
        scrollback_action_for_key_event(
            LogicalKey::Named(NamedKey::ArrowUp),
            true,
            false,
            false,
            keys(SHIFT),
        ),
        None
    );
}

#[test]
fn scrollback_shortcuts_require_a_real_press_and_exact_shift() {
    let action = |state, is_synthetic, repeat, modifiers| {
        scrollback_action_for_key_event(
            LogicalKey::Named(NamedKey::PageUp),
            state,
            is_synthetic,
            repeat,
            modifiers,
        )
    };

    assert_eq!(
        action(true, false, true, keys(SHIFT),),
        Some(ScrollbackAction::PageUp),
        "key repeat should keep scrolling"
    );
    assert_eq!(
        action(false, false, false, keys(SHIFT),),
        None
    );
    assert_eq!(
        action(true, true, false, keys(SHIFT),),
        None
    );

    for modifiers in [
        keys(0),
        keys(CONTROL),
        keys(ALT),
        keys(SHIFT | CONTROL),
        keys(SHIFT | ALT),
        keys(SHIFT | SUPER),
    ] {
        assert_eq!(
            action(true, false, false, modifiers),
            None,
            "unexpected local shortcut for {modifiers:?}"
        );
    }
}

#[test]
fn non_local_page_up_combinations_keep_their_terminal_sequences() {
    let cases = [
        (keys(0), b"\x1b[5~".as_slice()),
        (keys(CONTROL), b"\x1b[5;5~".as_slice()),
        (keys(ALT), b"\x1b[5;3~".as_slice()),
        (
            keys(SHIFT | CONTROL),
            b"\x1b[5;6~".as_slice(),
        ),
        (
            keys(SHIFT | ALT),
            b"\x1b[5;4~".as_slice(),
        ),
    ];

    for (modifiers, expected) in cases {
        assert_eq!(
            scrollback_action_for_key_event(
                LogicalKey::Named(NamedKey::PageUp),
                true,
                false,
                false,
                modifiers,
            ),
            None,
            "{modifiers:?} PageUp must stay on the terminal input path"
        );
        assert_eq!(
            encode_key_press(press(Some(NamedKey::PageUp), None, None, modifiers), false,)
                .as_deref(),
            Some(expected),
            "unexpected terminal sequence for {modifiers:?} PageUp"
        );
    }
}

#[test]
fn maps_every_supported_named_key() {
    let cases = [
        (NamedKey::Enter, TerminalKey::Enter),
        (NamedKey::Backspace, TerminalKey::Backspace),
        (NamedKey::Tab, TerminalKey::Tab),
        (NamedKey::Escape, TerminalKey::Escape),
        (NamedKey::ArrowUp, TerminalKey::Up),
        (NamedKey::ArrowDown, TerminalKey::Down),
        (NamedKey::ArrowRight, TerminalKey::Right),
        (NamedKey::ArrowLeft, TerminalKey::Left),
        (NamedKey::Home, TerminalKey::Home),
        (NamedKey::End, TerminalKey::End),
        (NamedKey::PageUp, TerminalKey::PageUp),
        (NamedKey::PageDown, TerminalKey::PageDown),
        (NamedKey::Insert, TerminalKey::Insert),
        (NamedKey::Delete, TerminalKey::Delete),
    ];
    for (named_key, terminal_key) in cases {
        assert_eq!(
            terminal_key_from_named(named_key, false),
            Some(terminal_key)
        );
    }
    assert_eq!(
        terminal_key_from_named(NamedKey::Tab, true),
        Some(TerminalKey::BackTab)
    );

    let function_keys = [
        NamedKey::F1,
        NamedKey::F2,
        NamedKey::F3,
        NamedKey::F4,
        NamedKey::F5,
        NamedKey::F6,
        NamedKey::F7,
        NamedKey::F8,
        NamedKey::F9,
        NamedKey::F10,
        NamedKey::F11,
        NamedKey::F12,
    ];
    for (index, named_key) in function_keys.into_iter().enumerate() {
        assert_eq!(
            terminal_key_from_named(named_key, false),
            Some(TerminalKey::Function((index + 1) as u8))
        );
    }
    assert_eq!(terminal_key_from_named(NamedKey::Other, false), None);
}

#[test]
fn encodes_every_linux_named_key_to_its_exact_terminal_sequence() {
    let cases = [
        (NamedKey::Enter, b"\r".as_slice()),
        (NamedKey::Backspace, b"\x7f".as_slice()),
        (NamedKey::Tab, b"\t".as_slice()),
        (NamedKey::Escape, b"\x1b".as_slice()),
        (NamedKey::ArrowUp, b"\x1b[A".as_slice()),
        (NamedKey::ArrowDown, b"\x1b[B".as_slice()),
        (NamedKey::ArrowRight, b"\x1b[C".as_slice()),
        (NamedKey::ArrowLeft, b"\x1b[D".as_slice()),
        (NamedKey::Home, b"\x1b[H".as_slice()),
        (NamedKey::End, b"\x1b[F".as_slice()),
        (NamedKey::PageUp, b"\x1b[5~".as_slice()),
        (NamedKey::PageDown, b"\x1b[6~".as_slice()),
        (NamedKey::Insert, b"\x1b[2~".as_slice()),
        (NamedKey::Delete, b"\x1b[3~".as_slice()),
        (NamedKey::F1, b"\x1bOP".as_slice()),
        (NamedKey::F2, b"\x1bOQ".as_slice()),
        (NamedKey::F3, b"\x1bOR".as_slice()),
        (NamedKey::F4, b"\x1bOS".as_slice()),
        (NamedKey::F5, b"\x1b[15~".as_slice()),
        (NamedKey::F6, b"\x1b[17~".as_slice()),
        (NamedKey::F7, b"\x1b[18~".as_slice()),
        (NamedKey::F8, b"\x1b[19~".as_slice()),
        (NamedKey::F9, b"\x1b[20~".as_slice()),
        (NamedKey::F10, b"\x1b[21~".as_slice()),
        (NamedKey::F11, b"\x1b[23~".as_slice()),
        (NamedKey::F12, b"\x1b[24~".as_slice()),
    ];

    for (named_key, expected) in cases {
        assert_eq!(
            encode_key_press(
                press(
                    Some(named_key),
                    Some("text trap"),
                    Some("control trap"),
                    keys(0),
                ),
                false,
            )
            .as_deref(),
            Some(expected),
            "unexpected Linux terminal sequence for {named_key:?}"
        );
    }
}

#[test]
fn named_keys_take_precedence_over_their_text_without_duplicates() {
    assert_eq!(
        encode_key_press(
            press(
                Some(NamedKey::Enter),
                Some("\r"),
                Some("\r"),
                keys(0),
            ),
            false,
        )
        .as_deref(),
        Some(b"\r".as_slice())
    );
    assert_eq!(
        encode_key_press(
            press(
                Some(NamedKey::Tab),
                Some("\t"),
                Some("\t"),
                keys(SHIFT),
            ),
            false,
        )
        .as_deref(),
        Some(b"\x1b[Z".as_slice())
    );
}

#[test]
fn named_cursor_keys_follow_the_terminal_application_mode() {
    let up = press(Some(NamedKey::ArrowUp), None, None, keys(0));
    assert_eq!(
        encode_key_press(up, false).as_deref(),
        Some(b"\x1b[A".as_slice())
    );
    assert_eq!(
        encode_key_press(up, true).as_deref(),
        Some(b"\x1bOA".as_slice())
    );
}

#[test]
fn text_preserves_unicode_and_control_supplements() {
    assert_eq!(
        encode_key_press(
            press(None, Some("é日本"), None, keys(0)),
            false,
        ),
        Some("é日本".as_bytes().to_vec())
    );
    assert_eq!(
        encode_key_press(
            press(None, Some("a"), Some("\x01"), keys(CONTROL),),
            false,
        ),
        Some(vec![0x01])
    );
    assert_eq!(
        encode_key_press(
            press(
                Some(NamedKey::Other),
                Some(" "),
                Some("\0"),
                keys(CONTROL),
            ),
            false,
        ),
        Some(vec![0x00])
    );
    assert_eq!(
        encode_key_press(press(None, Some("a"), None, keys(CONTROL)), false,),
        None,
        "missing all-modifier text must not leak printable input"
    );
}

#[test]
fn alt_prefixes_text_and_control_but_parameterizes_named_sequences() {
    assert_eq!(
        encode_key_press(
            press(None, Some("é"), Some("é"), keys(ALT)),
            false,
        ),
        Some([b"\x1b".as_slice(), "é".as_bytes()].concat())
    );
    assert_eq!(
        encode_key_press(
            press(
                None,
                Some("a"),
                Some("\x01"),
                keys(CONTROL | ALT),
            ),
            false,
        ),
        Some(vec![0x1b, 0x01])
    );
    assert_eq!(
        encode_key_press(
            press(Some(NamedKey::ArrowLeft), None, None, keys(ALT),),
            false,
        )
        .as_deref(),
        Some(b"\x1b[1;3D".as_slice())
    );
}

#[test]
fn modified_named_keys_use_xterm_parameters_without_text_duplicates() {
    assert_eq!(
        encode_key_press(
            press(
                Some(NamedKey::Delete),
                Some("text trap"),
                Some("control trap"),
                keys(CONTROL | ALT),
            ),
            false,
        )
        .as_deref(),
        Some(b"\x1b[3;7~".as_slice())
    );
    assert_eq!(
        encode_key_press(
            press(
                Some(NamedKey::F1),
                Some("text trap"),
                Some("control trap"),
                keys(SHIFT),
            ),
            true,
        )
        .as_deref(),
        Some(b"\x1b[1;2P".as_slice())
    );
}

#[test]
fn tab_keeps_backtab_and_traditional_alt_behavior() {
    let cases = [
        (keys(0), b"\t".as_slice()),
        (keys(SHIFT), b"\x1b[Z".as_slice()),
        (keys(CONTROL), b"\t".as_slice()),
        (keys(ALT), b"\x1b\t".as_slice()),
        (
            keys(SHIFT | CONTROL),
            b"\x1b[Z".as_slice(),
        ),
        (
            keys(SHIFT | ALT),
            b"\x1b\x1b[Z".as_slice(),
        ),
        (
            keys(CONTROL | ALT),
            b"\x1b\t".as_slice(),
        ),
        (
            keys(SHIFT | CONTROL | ALT),
            b"\x1b\x1b[Z".as_slice(),
        ),
    ];

    for (modifiers, expected) in cases {
        assert_eq!(
            encode_key_press(
                press(Some(NamedKey::Tab), Some("trap"), Some("trap"), modifiers),
                false,
            )
            .as_deref(),
            Some(expected)
        );
    }
}

#[test]
fn modified_numlock_text_stays_text_instead_of_navigation() {
    assert_eq!(
        encode_key_press(
            press(None, Some("1"), Some("1"), keys(ALT)),
            false,
        )
        .as_deref(),
        Some(b"\x1b1".as_slice())
    );
    assert_eq!(
        encode_key_press(
            press(Some(NamedKey::End), None, None, keys(CONTROL),),
            false,
        )
        .as_deref(),
        Some(b"\x1b[1;5F".as_slice())
    );
}

#[test]
fn super_and_empty_text_do_not_reach_the_terminal() {
    assert_eq!(
        encode_key_press(
            press(None, Some("x"), Some("x"), keys(SUPER)),
            false,
        ),
        None
    );
    assert_eq!(
        encode_key_press(
            press(None, Some(""), Some(""), keys(0)),
            false,
        ),
        None
    );
}
