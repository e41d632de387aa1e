//! Mouse reports.
use kokuban::grid::MouseEncoding;
use kokuban::input::mouse::{encode_mouse_event, MOUSE_WHEEL_DOWN, MOUSE_WHEEL_UP};

#[test]
fn sgr_encodes_press_release_and_unbounded_coordinates() {
    assert_eq!(
        encode_mouse_event(0, 1, 2, true, MouseEncoding::Sgr),
        b"\x1b[<0;1;2M"
    );
    assert_eq!(
        encode_mouse_event(0, 1, 2, false, MouseEncoding::Sgr),
        b"\x1b[<0;1;2m"
    );
    assert_eq!(
        encode_mouse_event(0, 0, 0, true, MouseEncoding::Sgr),
        b"\x1b[<0;1;1M"
    );
    assert_eq!(
        encode_mouse_event(0, usize::MAX, usize::MAX, true, MouseEncoding::Sgr),
        format!("\x1b[<0;{};{}M", usize::MAX, usize::MAX).into_bytes()
    );
}

#[test]
fn sgr_encodes_wheel_buttons_exactly() {
    assert_eq!(
        encode_mouse_event(MOUSE_WHEEL_UP, 80, 24, true, MouseEncoding::Sgr),
        b"\x1b[<64;80;24M"
    );
    assert_eq!(
        encode_mouse_event(MOUSE_WHEEL_DOWN, 80, 24, true, MouseEncoding::Sgr),
        b"\x1b[<65;80;24M"
    );
}

#[test]
fn legacy_enforces_one_based_coordinates_and_clamps_without_wrapping() {
    assert_eq!(
        encode_mouse_event(0, 0, 0, true, MouseEncoding::Default),
        [0x1b, b'[', b'M', 32, 33, 33]
    );
    assert_eq!(
        encode_mouse_event(0, 223, 223, true, MouseEncoding::Default),
        [0x1b, b'[', b'M', 32, 255, 255]
    );
    assert_eq!(
        encode_mouse_event(0, 256, 300, true, MouseEncoding::Default),
        [0x1b, b'[', b'M', 32, 255, 255]
    );
    assert_eq!(
        encode_mouse_event(0, usize::MAX, usize::MAX, true, MouseEncoding::Default),
        [0x1b, b'[', b'M', 32, 255, 255]
    );
}

#[test]
fn legacy_clamps_pressed_button_and_uses_release_code_three() {
    assert_eq!(
        encode_mouse_event(u8::MAX, 1, 1, true, MouseEncoding::Default),
        [0x1b, b'[', b'M', 255, 33, 33]
    );
    assert_eq!(
        encode_mouse_event(u8::MAX, 1, 1, false, MouseEncoding::Default),
        [0x1b, b'[', b'M', 35, 33, 33]
    );
}
