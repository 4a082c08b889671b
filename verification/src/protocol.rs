//! The first bytes of the messages between agent and viewer.

use vstd::prelude::*;

verus! {

/// Agent to viewer, once at the start: width, height (four bytes each), frame rate, codec.
pub const MSG_INIT: u8 = 0x10;

/// Agent to viewer, for each frame: key frame or not, length (four bytes), data.
pub const MSG_FRAME: u8 = 0x11;

/// Agent to viewer, in answer to a ping: the eight bytes of the ping.
pub const MSG_PONG: u8 = 0x12;

/// Agent to viewer, where the shape of the cursor changed: its type.
pub const MSG_CURSOR: u8 = 0x13;

/// Viewer to agent: the pointer in the picture, and the size of the picture.
pub const IN_MOUSE_MOVE: u8 = 0x01;

/// Viewer to agent: a mouse button.
pub const IN_MOUSE_BUTTON: u8 = 0x02;

/// Viewer to agent: a physical key.
pub const IN_KEY_PRESS: u8 = 0x03;

/// Viewer to agent: the mouse wheel.
pub const IN_SCROLL: u8 = 0x04;

/// Viewer to agent: eight bytes that the agent sends back.
pub const IN_PING: u8 = 0x06;

/// Viewer to agent: the pointer on the virtual screen.
pub const IN_MOUSE_GLOBAL: u8 = 0x07;

/// Viewer to agent: a virtual key.
pub const IN_KEY_VK: u8 = 0x08;

/// The byte of a truth value.
pub open spec fn flag(b: bool) -> u8 {
    if b {
        1
    } else {
        0
    }
}

/// Gives the byte of a truth value.
pub fn flag_byte(b: bool) -> (n: u8)
    ensures
        n == flag(b),
{
    if b {
        1
    } else {
        0
    }
}

} // verus!
