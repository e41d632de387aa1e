//! Pointer reports.
use crate::decimal::{decimal, push_decimal};
use crate::grid::terminal::MouseEncoding;
use vstd::prelude::*;

verus! {

pub const MOUSE_WHEEL_UP: u8 = 64;
pub const MOUSE_WHEEL_DOWN: u8 = 65;

/// The largest value that fits into one byte of a legacy report.
pub open spec fn legacy_limit(value: int) -> int {
    if value < 223 { value } else { 223 }
}

/// A legacy report of a release does not tell the button. It keeps the
/// modifiers of a code that fits into a report.
pub open spec fn release_code(button: u8) -> u8 {
    if button <= 223 { 3u8 | (button & 28u8) } else { 3u8 }
}

/// Coordinates count from one.
pub open spec fn one_based(value: int) -> int {
    if value < 1 { 1 } else { value }
}

/// The bytes of a pointer report.
pub open spec fn mouse_bytes(
    button: u8,
    column: int,
    row: int,
    pressed: bool,
    encoding: MouseEncoding,
) -> Seq<u8> {
    match encoding {
        MouseEncoding::Sgr => seq![27u8, 91, 60] + decimal(button as nat) + seq![59u8] + decimal(
            one_based(column) as nat,
        ) + seq![59u8] + decimal(one_based(row) as nat) + seq![
            if pressed {
                77u8
            } else {
                109u8
            },
        ],
        MouseEncoding::Default => seq![
            27u8,
            91,
            77,
            (32 + if pressed {
                legacy_limit(button as int)
            } else {
                release_code(button) as int
            }) as u8,
            (32 + legacy_limit(one_based(column))) as u8,
            (32 + legacy_limit(one_based(row))) as u8,
        ],
    }
}

fn encode_legacy_coordinate(coordinate: usize) -> (r: u8)
    ensures
        r == 32 + legacy_limit(coordinate as int),
{
    let limited: u8 = if coordinate < 223 { coordinate as u8 } else { 223 };
    limited + 32
}

pub fn encode_mouse_event(
    button: u8,
    column: usize,
    row: usize,
    pressed: bool,
    encoding: MouseEncoding,
) -> (r: Vec<u8>)
    ensures
        r@ == mouse_bytes(button, column as int, row as int, pressed, encoding),
{
    let column: usize = if column < 1 { 1 } else { column };
    let row: usize = if row < 1 { 1 } else { row };
    let bytes: Vec<u8> = match encoding {
        MouseEncoding::Sgr => {
            let mut bytes: Vec<u8> = vec![0x1b, '[' as u8, '<' as u8];
            push_decimal(&mut bytes, button as usize);
            bytes.push(';' as u8);
            push_decimal(&mut bytes, column);
            bytes.push(';' as u8);
            push_decimal(&mut bytes, row);
            bytes.push(if pressed { ('M' as u8) } else { ('m' as u8) });
            bytes
        },
        MouseEncoding::Default => {
            proof {
                assert((3u8 | (button & 28u8)) <= 31) by (bit_vector);
            }
            let limited: u8 = if !pressed {
                if button <= 223 {
                    3 | (button & 28)
                } else {
                    3
                }
            } else if button < 223 {
                button
            } else {
                223
            };
            vec![
                0x1b,
                '[' as u8,
                'M' as u8,
                limited + 32,
                encode_legacy_coordinate(column),
                encode_legacy_coordinate(row),
            ]
        },
    };
    proof {
        assert(bytes@ =~= mouse_bytes(button, column as int, row as int, pressed, encoding));
    }
    bytes
}

/// The button code with xterm's modifier bits: four for Shift, eight for Alt
/// and sixteen for Control.
pub open spec fn modified_button(button: u8, shift: bool, alt: bool, control: bool) -> u8 {
    button | (if shift { 4u8 } else { 0u8 }) | (if alt { 8u8 } else { 0u8 }) | (if control {
        16u8
    } else {
        0u8
    })
}

pub fn mouse_button_with_modifier_flags(button: u8, shift: bool, alt: bool, control: bool) -> (r: u8)
    ensures
        r == modified_button(button, shift, alt, control),
{
    button | (if shift { 4u8 } else { 0u8 }) | (if alt { 8u8 } else { 0u8 }) | (if control {
        16u8
    } else {
        0u8
    })
}

} // verus!
