//! The byte protocol of the actuator board on its serial line: servo angles
//! go out, button presses come in.
use crate::bytes::{be32, be32_bytes, push_all};
use vstd::prelude::*;

verus! {

/// The byte that opens a servo-angle command.
pub const SERVO_ANGLE: u8 = 0x03;

/// The byte the board sends when its button is pressed.
pub const BUTTON_PRESSED: u8 = 0x07;

/// The command that moves the servo to `angle`: the opening byte, then the
/// angle as a big-endian 32-bit word.
pub open spec fn servo_bytes(angle: u32) -> Seq<u8> {
    seq![SERVO_ANGLE] + be32(angle)
}

/// The command that moves the servo to `angle`.
pub fn servo_command(angle: u32) -> (r: Vec<u8>)
    ensures
        r@ == servo_bytes(angle),
{
    let mut r: Vec<u8> = vec![SERVO_ANGLE];
    let word = be32_bytes(angle);
    push_all(&mut r, word.as_slice());
    assert(r@ =~= servo_bytes(angle));
    r
}

/// Whether a byte from the board reports a button press.
pub fn is_button_press(b: u8) -> (r: bool)
    ensures
        r == (b == BUTTON_PRESSED),
{
    b == BUTTON_PRESSED
}

} // verus!
