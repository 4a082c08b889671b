//! The messages of a session as the agent sends and understands them.

use crate::agent::services::input;
use crate::agent::services::input::{InjectGate, KeyInput, MouseInput, VirtualScreen, INPUT_MARK};
use crate::agent::services::video::{Codec, VideoFrame};
use crate::outside::buffer;
use crate::protocol;
use crate::protocol::{
    IN_KEY_PRESS, IN_KEY_VK, IN_MOUSE_BUTTON, IN_MOUSE_GLOBAL, IN_MOUSE_MOVE, IN_PING, IN_SCROLL,
    MSG_CURSOR, MSG_FRAME, MSG_INIT, MSG_PONG,
};
use crate::wire;
use vstd::prelude::*;
use vstd::slice::slice_subrange;

verus! {

/// The message that a session starts with.
pub open spec fn init_of(width: u32, height: u32, fps: u8, codec: Codec) -> Seq<u8> {
    seq![MSG_INIT] + wire::be32(width as int) + wire::be32(height as int) + seq![
        fps,
        codec.number(),
    ]
}

/// The message that carries a frame.
pub open spec fn frame_of(is_key: bool, data: Seq<u8>) -> Seq<u8> {
    seq![MSG_FRAME, protocol::flag(is_key)] + wire::be32(wire::wrap32(data.len() as int)) + data
}

/// The message that answers a ping.
pub open spec fn pong_of(ping: Seq<u8>) -> Seq<u8> {
    seq![MSG_PONG] + ping.subrange(1, 9)
}

/// The message that names the type of the cursor.
pub open spec fn cursor_of(cursor: u8) -> Seq<u8> {
    seq![MSG_CURSOR, cursor]
}

/// Makes the message that a session starts with, from its first frame.
pub fn init_message(frame: &VideoFrame) -> (m: bytes::Bytes)
    ensures
        buffer::contents(m) == init_of(frame.width, frame.height, frame.fps, frame.codec),
{
    let mut buf = buffer::with_capacity(11);
    buffer::put_u8(&mut buf, MSG_INIT);
    buffer::put_u32(&mut buf, frame.width);
    buffer::put_u32(&mut buf, frame.height);
    buffer::put_u8(&mut buf, frame.fps);
    buffer::put_u8(&mut buf, frame.codec.code());
    assert(buffer::pending(buf) =~= init_of(frame.width, frame.height, frame.fps, frame.codec));
    buffer::freeze(buf)
}

fn low_word(n: usize) -> (v: u32)
    ensures
        v == wire::wrap32(n as int),
{
    (n as u64 % 0x1_0000_0000) as u32
}

/// Makes the message that carries a frame.
pub fn frame_message(frame: &VideoFrame) -> (m: bytes::Bytes)
    requires
        frame.data@.len() + 6 <= isize::MAX,
    ensures
        buffer::contents(m) == frame_of(frame.is_key, frame.data@),
{
    let mut buf = buffer::with_capacity(6 + frame.data.len());
    buffer::put_u8(&mut buf, MSG_FRAME);
    buffer::put_u8(&mut buf, protocol::flag_byte(frame.is_key));
    buffer::put_u32(&mut buf, low_word(frame.data.len()));
    buffer::extend_from_slice(&mut buf, frame.data.as_slice());
    assert(buffer::pending(buf) =~= frame_of(frame.is_key, frame.data@));
    buffer::freeze(buf)
}

/// The type that stands for no cursor sent yet.
pub const NO_CURSOR: u8 = 0xFF;

/// Makes the message that names the type of the cursor, where it is not the one sent last.
pub fn cursor_message(last: &mut u8, cursor: u8) -> (m: Option<bytes::Bytes>)
    ensures
        *final(last) == cursor,
        m is Some <==> cursor != *old(last),
        m matches Some(b) ==> buffer::contents(b) == cursor_of(cursor),
{
    if cursor != *last {
        *last = cursor;
        let data: Vec<u8> = vec![MSG_CURSOR, cursor];
        assert(data@ =~= cursor_of(cursor));
        Some(buffer::from_vec(data))
    } else {
        None
    }
}

/// An input of the viewer's user.
#[derive(Clone, Copy, Debug, PartialEq, Eq, Structural)]
pub enum Input {
    /// The pointer in a picture of `win_w` by `win_h` pixels.
    MouseMove { x: i32, y: i32, win_w: i32, win_h: i32 },
    /// The pointer on the virtual screen.
    MouseMoveGlobal { gx: i32, gy: i32 },
    MouseButton { button: u8, pressed: bool },
    /// A physical key.
    KeyPress { key: u32, pressed: bool },
    Scroll { dx: i16, dy: i16 },
    /// A virtual key.
    KeyVk { vk: u32, scan: u16, pressed: bool, extended: bool },
}

/// What the agent does with a message of the viewer.
#[derive(Debug)]
pub enum InputAction {
    /// Hands the input to the system.
    Inject(Input),
    /// Sends a message back.
    Reply(bytes::Bytes),
    Nothing,
}

/// The message is a ping.
pub open spec fn is_ping(b: Seq<u8>) -> bool {
    b.len() >= 9 && b[0] == IN_PING
}

/// The input that a message carries. A message that is too short carries none; bytes after the
/// input do not count, but for a virtual key, which may say that it is extended.
pub open spec fn input_of(b: Seq<u8>) -> Option<Input> {
    if b.len() >= 13 && b[0] == IN_MOUSE_MOVE {
        Some(
            Input::MouseMove {
                x: wire::signed32(wire::be32_at(b, 1)) as i32,
                y: wire::signed32(wire::be32_at(b, 5)) as i32,
                win_w: wire::be16_at(b, 9) as i32,
                win_h: wire::be16_at(b, 11) as i32,
            },
        )
    } else if b.len() >= 9 && b[0] == IN_MOUSE_GLOBAL {
        Some(
            Input::MouseMoveGlobal {
                gx: wire::signed32(wire::be32_at(b, 1)) as i32,
                gy: wire::signed32(wire::be32_at(b, 5)) as i32,
            },
        )
    } else if b.len() >= 3 && b[0] == IN_MOUSE_BUTTON {
        Some(Input::MouseButton { button: b[1], pressed: b[2] != 0 })
    } else if b.len() >= 6 && b[0] == IN_KEY_PRESS {
        Some(Input::KeyPress { key: wire::be32_at(b, 1) as u32, pressed: b[5] != 0 })
    } else if b.len() >= 5 && b[0] == IN_SCROLL {
        Some(
            Input::Scroll {
                dx: wire::signed16(wire::be16_at(b, 1)) as i16,
                dy: wire::signed16(wire::be16_at(b, 3)) as i16,
            },
        )
    } else if b.len() >= 8 && b[0] == IN_KEY_VK {
        Some(
            Input::KeyVk {
                vk: wire::be32_at(b, 1) as u32,
                scan: wire::be16_at(b, 5) as u16,
                pressed: b[7] != 0,
                extended: b.len() > 8 && b[8] != 0,
            },
        )
    } else {
        None
    }
}

fn parse_input(bytes: &[u8]) -> (r: Option<Input>)
    ensures
        r == input_of(bytes@),
{
    let n: usize = bytes.len();
    if n == 0 {
        return None;
    }
    let kind: u8 = bytes[0];
    if kind == IN_MOUSE_MOVE && n >= 13 {
        Some(
            Input::MouseMove {
                x: wire::read_i32(bytes, 1),
                y: wire::read_i32(bytes, 5),
                win_w: wire::read_u16(bytes, 9) as i32,
                win_h: wire::read_u16(bytes, 11) as i32,
            },
        )
    } else if kind == IN_MOUSE_GLOBAL && n >= 9 {
        Some(
            Input::MouseMoveGlobal { gx: wire::read_i32(bytes, 1), gy: wire::read_i32(bytes, 5) },
        )
    } else if kind == IN_MOUSE_BUTTON && n >= 3 {
        Some(Input::MouseButton { button: bytes[1], pressed: bytes[2] != 0 })
    } else if kind == IN_KEY_PRESS && n >= 6 {
        Some(Input::KeyPress { key: wire::read_u32(bytes, 1), pressed: bytes[5] != 0 })
    } else if kind == IN_SCROLL && n >= 5 {
        Some(Input::Scroll { dx: wire::read_i16(bytes, 1), dy: wire::read_i16(bytes, 3) })
    } else if kind == IN_KEY_VK && n >= 8 {
        Some(
            Input::KeyVk {
                vk: wire::read_u32(bytes, 1),
                scan: wire::read_u16(bytes, 5),
                pressed: bytes[7] != 0,
                extended: n > 8 && bytes[8] != 0,
            },
        )
    } else {
        None
    }
}

/// Takes a message of the viewer: an input is handed to the system, a ping is answered, and
/// anything else is passed over.
pub fn handle_input(bytes: &[u8]) -> (a: InputAction)
    ensures
        match a {
            InputAction::Inject(input) => input_of(bytes@) == Some(input),
            InputAction::Reply(m) => is_ping(bytes@) && buffer::contents(m) == pong_of(bytes@),
            InputAction::Nothing => input_of(bytes@) is None && !is_ping(bytes@),
        },
{
    if bytes.len() >= 9 && bytes[0] == IN_PING {
        let mut buf = buffer::with_capacity(9);
        buffer::put_u8(&mut buf, MSG_PONG);
        buffer::extend_from_slice(&mut buf, slice_subrange(bytes, 1, 9));
        assert(buffer::pending(buf) =~= pong_of(bytes@));
        return InputAction::Reply(buffer::freeze(buf));
    }
    match parse_input(bytes) {
        Some(input) => InputAction::Inject(input),
        None => InputAction::Nothing,
    }
}

/// What the system tells of the screens.
#[derive(Clone, Copy, Debug, PartialEq, Eq, Structural)]
pub struct Desktop {
    /// The size of the main screen.
    pub screen_w: i32,
    pub screen_h: i32,
    /// The rectangle of all screens.
    pub all: VirtualScreen,
}

/// The events that an input becomes, for the system.
#[derive(Debug)]
pub enum Injection {
    Nothing,
    Mouse(MouseInput),
    Wheels(Vec<MouseInput>),
    Key(KeyInput),
}

/// The events that an input becomes. For a physical key `scan` is the scan code that the system
/// has for it.
pub open spec fn injects(
    r: Injection,
    gate: InjectGate,
    e: Input,
    desk: Desktop,
    scan: u16,
) -> bool {
    let mouse = match e {
        Input::MouseMove { x, y, win_w, win_h } => input::screen_move(
            gate,
            x,
            y,
            win_w,
            win_h,
            desk.screen_w,
            desk.screen_h,
        ),
        Input::MouseMoveGlobal { gx, gy } => input::desktop_move(gate, gx, gy, desk.all),
        Input::MouseButton { button, pressed } => input::button_event(gate, button, pressed),
        _ => None,
    };
    let key = match e {
        Input::KeyPress { key, pressed } => input::key_event(gate, key, pressed, scan),
        Input::KeyVk { vk, scan: s, pressed, extended } => input::vk_event(
            gate,
            vk,
            s,
            pressed,
            extended,
        ),
        _ => None,
    };
    match r {
        Injection::Nothing => mouse is None && key is None && !(e is Scroll),
        Injection::Mouse(m) => mouse == Some(m),
        Injection::Wheels(w) => e matches Input::Scroll { dx, dy } && w@ == input::wheel_events(
            gate,
            dx,
            dy,
        ),
        Injection::Key(k) => key == Some(k),
    }
}

/// No number on the way to the system's coordinates gets out of range.
pub open spec fn can_inject(gate: InjectGate, e: Input, desk: Desktop) -> bool {
    gate.no_inject || match e {
        Input::MouseMove { x, y, win_w, win_h } => win_w > 0 && win_h > 0 ==> {
            &&& input::coord_fits(x as int, desk.screen_w as int, win_w as int)
            &&& input::coord_fits(y as int, desk.screen_h as int, win_h as int)
        },
        Input::MouseMoveGlobal { .. } => desk.all.x < i32::MAX && desk.all.y < i32::MAX,
        _ => true,
    }
}

/// Tells whether no number on the way to the system's coordinates gets out of range.
pub fn injectable(gate: &InjectGate, e: Input, desk: Desktop) -> (b: bool)
    ensures
        b == can_inject(*gate, e, desk),
{
    if gate.no_inject {
        return true;
    }
    match e {
        Input::MouseMove { x, y, win_w, win_h } => win_w <= 0 || win_h <= 0 || (input::fits_screen(
            x,
            desk.screen_w,
            win_w,
        ) && input::fits_screen(y, desk.screen_h, win_h)),
        Input::MouseMoveGlobal { .. } => desk.all.x < 0x7FFF_FFFF && desk.all.y < 0x7FFF_FFFF,
        _ => true,
    }
}

/// Turns an input into the events for the system.
pub fn inject(gate: &InjectGate, e: Input, desk: Desktop, scan: u16) -> (r: Injection)
    requires
        can_inject(*gate, e, desk),
    ensures
        injects(r, *gate, e, desk, scan),
{
    match e {
        Input::MouseMove { x, y, win_w, win_h } => mouse_or_nothing(
            input::inject_mouse_move(gate, x, y, win_w, win_h, desk.screen_w, desk.screen_h),
        ),
        Input::MouseMoveGlobal { gx, gy } => mouse_or_nothing(
            input::inject_mouse_move_global(gate, gx, gy, desk.all),
        ),
        Input::MouseButton { button, pressed } => mouse_or_nothing(
            input::inject_mouse_button(gate, button, pressed),
        ),
        Input::Scroll { dx, dy } => Injection::Wheels(input::inject_scroll(gate, dx, dy)),
        Input::KeyPress { key, pressed } => key_or_nothing(
            input::inject_key(gate, key, pressed, scan),
        ),
        Input::KeyVk { vk, scan: s, pressed, extended } => key_or_nothing(
            input::inject_key_vk(gate, vk, s, pressed, extended),
        ),
    }
}

fn mouse_or_nothing(m: Option<MouseInput>) -> (r: Injection)
    ensures
        r == match m {
            Some(m) => Injection::Mouse(m),
            None => Injection::Nothing,
        },
{
    match m {
        Some(m) => Injection::Mouse(m),
        None => Injection::Nothing,
    }
}

fn key_or_nothing(k: Option<KeyInput>) -> (r: Injection)
    ensures
        r == match k {
            Some(k) => Injection::Key(k),
            None => Injection::Nothing,
        },
{
    match k {
        Some(k) => Injection::Key(k),
        None => Injection::Nothing,
    }
}

/// Every injected event carries the mark by which a viewer on the same machine knows it.
pub proof fn injected_events_are_marked(
    r: Injection,
    gate: InjectGate,
    e: Input,
    desk: Desktop,
    scan: u16,
)
    requires
        injects(r, gate, e, desk, scan),
    ensures
        match r {
            Injection::Nothing => true,
            Injection::Mouse(m) => m.extra_info == INPUT_MARK,
            Injection::Wheels(w) => forall|i: int|
                0 <= i < w@.len() ==> #[trigger] w@[i].extra_info == INPUT_MARK,
            Injection::Key(k) => k.extra_info == INPUT_MARK,
        },
{
}

/// Nothing is injected while injection is switched off.
pub proof fn nothing_is_injected_when_off(
    r: Injection,
    gate: InjectGate,
    e: Input,
    desk: Desktop,
    scan: u16,
)
    requires
        injects(r, gate, e, desk, scan),
        gate.no_inject,
    ensures
        r is Nothing || (r matches Injection::Wheels(w) && w@.len() == 0),
{
}

/// What happens in a session.
#[derive(Debug)]
pub enum SessionEvent<'a> {
    /// A message of the viewer.
    Received(&'a [u8]),
    /// The viewer is gone, or a message was not received or not sent.
    Broken,
    /// A captured frame.
    Frame(&'a VideoFrame),
    /// The type of the cursor that is shown.
    Cursor(u8),
}

/// What the agent does in a session.
#[derive(Debug)]
pub enum SessionAction {
    /// Sends these messages, one after the other.
    Send(Vec<bytes::Bytes>),
    /// Hands an input to the system.
    Inject(Input),
    /// Ends the session.
    End,
    Nothing,
}

/// What messages hold.
pub open spec fn message_bytes(v: Seq<bytes::Bytes>) -> Seq<Seq<u8>> {
    v.map_values(|b: bytes::Bytes| buffer::contents(b))
}

/// A session with a viewer.
#[derive(Clone, Copy, Debug, PartialEq, Eq, Structural)]
pub struct AgentSession {
    /// The message that a session starts with is sent.
    pub started: bool,
    /// The type of the cursor that was sent last.
    pub last_cursor: u8,
}

impl AgentSession {
    /// The messages that a captured frame makes: the first comes with the start of the session.
    pub open spec fn frame_messages(self, f: VideoFrame) -> Seq<Seq<u8>> {
        if self.started {
            seq![frame_of(f.is_key, f.data@)]
        } else {
            seq![
                init_of(f.width, f.height, f.fps, f.codec),
                frame_of(f.is_key, f.data@),
            ]
        }
    }

    /// Makes a session in which nothing was sent.
    pub fn new() -> (s: AgentSession)
        ensures
            !s.started,
            s.last_cursor == NO_CURSOR,
    {
        AgentSession { started: false, last_cursor: NO_CURSOR }
    }

    /// Takes an event of the session. Until the first frame is there, the session has not started,
    /// and nothing else is sent or injected.
    pub fn on_event(&mut self, e: SessionEvent<'_>) -> (a: SessionAction)
        requires
            e matches SessionEvent::Frame(f) ==> f.data@.len() + 6 <= isize::MAX,
        ensures
            match e {
                SessionEvent::Received(b) => {
                    &&& *final(self) == *old(self)
                    &&& match a {
                        SessionAction::Inject(input) => old(self).started && input_of(b@) == Some(
                            input,
                        ),
                        SessionAction::Send(m) => old(self).started && is_ping(b@)
                            && message_bytes(m@) == seq![pong_of(b@)],
                        SessionAction::Nothing => !old(self).started || (input_of(b@) is None
                            && !is_ping(b@)),
                        SessionAction::End => false,
                    }
                },
                SessionEvent::Broken => a is End && *final(self) == *old(self),
                SessionEvent::Frame(f) => {
                    &&& a matches SessionAction::Send(m)
                    &&& message_bytes(m@) == old(self).frame_messages(*f)
                    &&& *final(self) == (AgentSession { started: true, ..*old(self) })
                },
                SessionEvent::Cursor(ct) => if old(self).started && ct != old(self).last_cursor {
                    &&& a matches SessionAction::Send(m)
                    &&& message_bytes(m@) == seq![cursor_of(ct)]
                    &&& *final(self) == (AgentSession { last_cursor: ct, ..*old(self) })
                } else {
                    a is Nothing && *final(self) == *old(self)
                },
            },
    {
        match e {
            SessionEvent::Received(b) => {
                if !self.started {
                    return SessionAction::Nothing;
                }
                match handle_input(b) {
                    InputAction::Inject(input) => SessionAction::Inject(input),
                    InputAction::Reply(m) => {
                        let v: Vec<bytes::Bytes> = vec![m];
                        assert(message_bytes(v@) =~= seq![pong_of(b@)]);
                        SessionAction::Send(v)
                    },
                    InputAction::Nothing => SessionAction::Nothing,
                }
            },
            SessionEvent::Broken => SessionAction::End,
            SessionEvent::Frame(f) => {
                let mut v: Vec<bytes::Bytes> = Vec::new();
                if !self.started {
                    self.started = true;
                    v.push(init_message(f));
                }
                v.push(frame_message(f));
                assert(message_bytes(v@) =~= old(self).frame_messages(*f));
                SessionAction::Send(v)
            },
            SessionEvent::Cursor(ct) => {
                if !self.started {
                    return SessionAction::Nothing;
                }
                match cursor_message(&mut self.last_cursor, ct) {
                    Some(m) => {
                        let v: Vec<bytes::Bytes> = vec![m];
                        assert(message_bytes(v@) =~= seq![cursor_of(ct)]);
                        SessionAction::Send(v)
                    },
                    None => SessionAction::Nothing,
                }
            },
        }
    }
}

/// The system's cursors that are told apart: the number of each and its type, in the order in
/// which they are compared.
pub open spec fn known_cursors() -> Seq<(usize, u8)> {
    seq![
        (32513usize, 1u8),
        (32644usize, 2u8),
        (32645usize, 3u8),
        (32642usize, 4u8),
        (32643usize, 5u8),
        (32646usize, 6u8),
        (32649usize, 7u8),
        (32514usize, 8u8),
        (32648usize, 9u8),
        (32512usize, 0u8),
    ]
}

/// Gives the cursors that are told apart: arrow last, so that it stands for an unknown one too.
pub fn cursor_candidates() -> (v: Vec<(usize, u8)>)
    ensures
        v@ == known_cursors(),
{
    let v: Vec<(usize, u8)> = vec![
        (32513, 1),
        (32644, 2),
        (32645, 3),
        (32642, 4),
        (32643, 5),
        (32646, 6),
        (32649, 7),
        (32514, 8),
        (32648, 9),
        (32512, 0),
    ];
    assert(v@ =~= known_cursors());
    v
}

/// The type of the first known cursor, from the `i`-th on, whose handle is the one shown; that of
/// the arrow where there is none.
pub open spec fn type_from(shown: isize, handles: Seq<isize>, i: int) -> u8
    decreases known_cursors().len() - i,
{
    if i < 0 || i >= known_cursors().len() {
        0
    } else if handles[i] == shown {
        known_cursors()[i].1
    } else {
        type_from(shown, handles, i + 1)
    }
}

/// Finds the type of the cursor shown, where the system told it, among the handles of the known
/// cursors.
pub fn get_cursor_type(shown: Option<isize>, handles: &[isize]) -> (t: u8)
    requires
        handles@.len() == known_cursors().len(),
    ensures
        t == match shown {
            Some(h) => type_from(h, handles@, 0),
            None => 0,
        },
{
    match shown {
        None => 0,
        Some(h) => {
            let known: Vec<(usize, u8)> = cursor_candidates();
            let mut i: usize = 0;
            while i < known.len()
                invariant
                    i <= known.len(),
                    known@ == known_cursors(),
                    shown == Some(h),
                    handles@.len() == known_cursors().len(),
                    type_from(h, handles@, 0) == type_from(h, handles@, i as int),
                decreases known.len() - i,
            {
                if handles[i] == h {
                    return known[i].1;
                }
                i = i + 1;
            }
            0
        },
    }
}

} // verus!
