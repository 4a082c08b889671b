//! The messages of a session as the viewer sends and understands them.

use crate::agent::services::video;
use crate::agent::services::video::{Codec, VideoFrame};
use crate::agent::session;
use crate::agent::session::{AgentSession, Input};
use crate::jpeg_frame;
use crate::outside::jpeg;
use crate::protocol;
use crate::protocol::{
    IN_KEY_PRESS, IN_KEY_VK, IN_MOUSE_BUTTON, IN_MOUSE_GLOBAL, IN_MOUSE_MOVE, IN_PING, IN_SCROLL,
    MSG_CURSOR, MSG_FRAME, MSG_INIT, MSG_PONG,
};
use crate::viewer::decoder;
use crate::viewer::display::{FrameBuffer, InputEvent};
use crate::wire;
use vstd::prelude::*;
use vstd::slice::slice_subrange;

verus! {

/// What a message of the agent says.
#[verifier::ext_equal]
pub enum Heard {
    /// The size of the screen, the frame rate and the codec.
    Init { width: u32, height: u32, fps: u8, codec: Codec },
    /// A frame.
    Frame { is_key: bool, data: Seq<u8> },
    /// A frame whose data is cut off.
    CutOff,
    /// The eight bytes of a ping.
    Pong { sent: u64 },
    /// The type of the cursor.
    Cursor { ty: u8 },
    /// Nothing that is understood.
    Nothing,
}

/// The codec of a number: VP9 for 1, else JPEG.
pub open spec fn codec_of(n: u8) -> Codec {
    if n == 1 {
        Codec::Vp9
    } else {
        Codec::Jpeg
    }
}

/// What a message of the agent says. The frame rate and the codec may be left out.
pub open spec fn heard(b: Seq<u8>) -> Heard {
    if b.len() >= 9 && b[0] == MSG_INIT {
        Heard::Init {
            width: wire::be32_at(b, 1) as u32,
            height: wire::be32_at(b, 5) as u32,
            fps: if b.len() > 9 {
                b[9]
            } else {
                60
            },
            codec: if b.len() > 10 {
                codec_of(b[10])
            } else {
                Codec::Vp9
            },
        }
    } else if b.len() >= 6 && b[0] == MSG_FRAME {
        let len = wire::be32_at(b, 2);
        if b.len() < 6 + len {
            Heard::CutOff
        } else {
            Heard::Frame { is_key: b[1] != 0, data: b.subrange(6, 6 + len) }
        }
    } else if b.len() >= 9 && b[0] == MSG_PONG {
        Heard::Pong { sent: wire::be64_at(b, 1) as u64 }
    } else if b.len() >= 2 && b[0] == MSG_CURSOR {
        Heard::Cursor { ty: b[1] }
    } else {
        Heard::Nothing
    }
}

/// A message of the agent.
#[derive(Debug)]
pub enum AgentMsg<'a> {
    Init { width: u32, height: u32, fps: u8, codec: Codec },
    Frame { is_key: bool, data: &'a [u8] },
    CutOff,
    Pong { sent: u64 },
    Cursor { ty: u8 },
    Nothing,
}

impl<'a> AgentMsg<'a> {
    /// What the message says.
    pub open spec fn says(self) -> Heard {
        match self {
            AgentMsg::Init { width, height, fps, codec } => Heard::Init {
                width,
                height,
                fps,
                codec,
            },
            AgentMsg::Frame { is_key, data } => Heard::Frame { is_key, data: data@ },
            AgentMsg::CutOff => Heard::CutOff,
            AgentMsg::Pong { sent } => Heard::Pong { sent },
            AgentMsg::Cursor { ty } => Heard::Cursor { ty },
            AgentMsg::Nothing => Heard::Nothing,
        }
    }
}

/// Reads a message of the agent.
pub fn parse_agent_msg<'a>(bytes: &'a [u8]) -> (m: AgentMsg<'a>)
    ensures
        m.says() == heard(bytes@),
{
    let n: usize = bytes.len();
    if n == 0 {
        return AgentMsg::Nothing;
    }
    let kind: u8 = bytes[0];
    if kind == MSG_INIT && n >= 9 {
        let codec: Codec = if n > 10 && bytes[10] != 1 {
            Codec::Jpeg
        } else {
            Codec::Vp9
        };
        AgentMsg::Init {
            width: wire::read_u32(bytes, 1),
            height: wire::read_u32(bytes, 5),
            fps: if n > 9 {
                bytes[9]
            } else {
                60
            },
            codec,
        }
    } else if kind == MSG_FRAME && n >= 6 {
        let len: u64 = wire::read_u32(bytes, 2) as u64;
        if ((n - 6) as u64) < len {
            AgentMsg::CutOff
        } else {
            AgentMsg::Frame {
                is_key: bytes[1] != 0,
                data: slice_subrange(bytes, 6, 6 + len as usize),
            }
        }
    } else if kind == MSG_PONG && n >= 9 {
        AgentMsg::Pong { sent: wire::read_u64(bytes, 1) }
    } else if kind == MSG_CURSOR && n >= 2 {
        AgentMsg::Cursor { ty: bytes[1] }
    } else {
        AgentMsg::Nothing
    }
}

/// What the viewer does with a message of the agent.
#[derive(Debug)]
pub enum Reaction<'a> {
    /// Makes a VP9 decoder; where that fails, the one it had stays.
    MakeDecoder,
    /// Gives up its VP9 decoder.
    DropDecoder,
    /// Hands the data to its VP9 decoder.
    Decode(&'a [u8]),
    /// Shows a picture.
    Show(FrameBuffer),
    /// The picture could not be decoded.
    NotDecoded,
    /// Takes note of the time that a ping and its answer took, in milliseconds.
    RoundTrip(u64),
    /// Takes note of the type of the remote cursor.
    Cursor(u8),
    Nothing,
}

/// What the viewer does with a message, under the codec that was agreed on. A JPEG frame is shown as
/// it is decoded, and reported where it cannot be.
pub open spec fn reacts(r: Reaction<'_>, b: Seq<u8>, codec: Codec, has_decoder: bool, now: u64) -> bool {
    match r {
        Reaction::MakeDecoder => heard(b) matches Heard::Init { codec: agreed, .. } && agreed
            == Codec::Vp9,
        Reaction::DropDecoder => heard(b) matches Heard::Init { codec: agreed, .. } && agreed
            == Codec::Jpeg,
        Reaction::Decode(d) => {
            &&& heard(b) matches Heard::Frame { data, .. }
            &&& d@ == data
            &&& codec == Codec::Vp9
            &&& has_decoder
        },
        Reaction::Show(f) => {
            &&& heard(b) matches Heard::Frame { data, .. }
            &&& codec == Codec::Jpeg
            &&& f.wf()
            &&& decoder::shown(data) == Some((f.width, f.height, f.pixels@))
            &&& jpeg_frame::size_of(data) == (f.width as int, f.height as int)
        },
        Reaction::NotDecoded => {
            &&& heard(b) matches Heard::Frame { data, .. }
            &&& codec == Codec::Jpeg
            &&& decoder::shown(data) is None
        },
        Reaction::RoundTrip(ms) => {
            &&& heard(b) matches Heard::Pong { sent }
            &&& ms == if now < sent {
                0
            } else {
                now - sent
            }
        },
        Reaction::Cursor(t) => heard(b) matches Heard::Cursor { ty } && t == ty,
        Reaction::Nothing => match heard(b) {
            Heard::Frame { .. } => codec == Codec::Vp9 && !has_decoder,
            Heard::CutOff => true,
            Heard::Nothing => true,
            _ => false,
        },
    }
}

/// The round trip is so long that the picture may lag.
pub const SLOW_MILLIS: u64 = 150;

/// Takes a message of the agent. A frame is decoded with the codec that was agreed on: JPEG at
/// once, VP9 by the decoder, if there is one.
pub fn handle_agent_msg<'a>(bytes: &'a [u8], codec: &mut Codec, has_decoder: bool, now: u64) -> (r:
    Reaction<'a>)
    ensures
        *final(codec) == match heard(bytes@) {
            Heard::Init { codec: agreed, .. } => agreed,
            _ => *old(codec),
        },
        reacts(r, bytes@, *old(codec), has_decoder, now),
{
    match parse_agent_msg(bytes) {
        AgentMsg::Init { codec: agreed, .. } => {
            *codec = agreed;
            match agreed {
                Codec::Vp9 => Reaction::MakeDecoder,
                Codec::Jpeg => Reaction::DropDecoder,
            }
        },
        AgentMsg::Frame { data, .. } => match *codec {
            Codec::Vp9 => if has_decoder {
                Reaction::Decode(data)
            } else {
                Reaction::Nothing
            },
            Codec::Jpeg => match decoder::decode_jpeg(data) {
                Ok((width, height, pixels)) => Reaction::Show(
                    FrameBuffer { pixels, width, height },
                ),
                Err(_) => Reaction::NotDecoded,
            },
        },
        AgentMsg::Pong { sent } => Reaction::RoundTrip(now.saturating_sub(sent)),
        AgentMsg::Cursor { ty } => Reaction::Cursor(ty),
        AgentMsg::CutOff => Reaction::Nothing,
        AgentMsg::Nothing => Reaction::Nothing,
    }
}

/// A session with an agent.
#[derive(Clone, Copy, Debug, PartialEq, Eq, Structural)]
pub struct ViewerSession {
    /// The codec that was agreed on.
    pub codec: Codec,
    /// There is a VP9 decoder.
    pub has_decoder: bool,
}

impl ViewerSession {
    /// The session after a message.
    pub open spec fn after(self, b: Seq<u8>) -> ViewerSession {
        match heard(b) {
            Heard::Init { codec, .. } => ViewerSession {
                codec,
                has_decoder: self.has_decoder && codec == Codec::Vp9,
            },
            _ => self,
        }
    }

    /// Makes a session before anything was agreed on: VP9 is expected.
    pub fn new() -> (s: ViewerSession)
        ensures
            s.codec == Codec::Vp9,
            !s.has_decoder,
    {
        ViewerSession { codec: Codec::Vp9, has_decoder: false }
    }

    /// Takes a message of the agent, as `handle_agent_msg` does.
    pub fn on_message<'a>(&mut self, bytes: &'a [u8], now: u64) -> (r: Reaction<'a>)
        ensures
            *final(self) == old(self).after(bytes@),
            reacts(r, bytes@, old(self).codec, old(self).has_decoder, now),
    {
        let r: Reaction<'a> = handle_agent_msg(bytes, &mut self.codec, self.has_decoder, now);
        if let Reaction::DropDecoder = &r {
            self.has_decoder = false;
        }
        r
    }

    /// Takes note of whether a VP9 decoder was made. Where it was not, the one before stays.
    pub fn decoder_made(&mut self, made: bool)
        ensures
            final(self).codec == old(self).codec,
            final(self).has_decoder == (made || old(self).has_decoder),
    {
        if made {
            self.has_decoder = true;
        }
    }
}

/// The message of an input.
pub open spec fn bytes_of(e: InputEvent) -> Seq<u8> {
    match e {
        InputEvent::MouseMove { x, y, win_w, win_h } => seq![IN_MOUSE_MOVE] + wire::be32(
            wire::wrap32(x as int),
        ) + wire::be32(wire::wrap32(y as int)) + wire::be16(wire::wrap16(win_w as int))
            + wire::be16(wire::wrap16(win_h as int)),
        InputEvent::MouseMoveGlobal { gx, gy } => seq![IN_MOUSE_GLOBAL] + wire::be32(
            wire::wrap32(gx as int),
        ) + wire::be32(wire::wrap32(gy as int)),
        InputEvent::MouseButton { button, pressed } => seq![
            IN_MOUSE_BUTTON,
            (button % 0x100) as u8,
            protocol::flag(pressed),
        ],
        InputEvent::KeyPress { key, pressed } => seq![IN_KEY_PRESS] + wire::be32(key as int)
            + seq![protocol::flag(pressed)],
        InputEvent::Scroll { dx, dy } => seq![IN_SCROLL] + wire::be16(wire::wrap16(dx as int))
            + wire::be16(wire::wrap16(dy as int)),
        InputEvent::KeyVk { vk, scan, pressed, extended } => seq![IN_KEY_VK] + wire::be32(
            vk as int,
        ) + wire::be16(scan as int) + seq![protocol::flag(pressed), protocol::flag(extended)],
    }
}

/// Writes the message of an input.
pub fn input_to_bytes(input: InputEvent) -> (out: Vec<u8>)
    ensures
        out@ == bytes_of(input),
{
    let mut d: Vec<u8> = Vec::new();
    match input {
        InputEvent::MouseMove { x, y, win_w, win_h } => {
            d.push(IN_MOUSE_MOVE);
            wire::push_i32(&mut d, x);
            wire::push_i32(&mut d, y);
            wire::push_u16(&mut d, (win_w % 0x1_0000) as u16);
            wire::push_u16(&mut d, (win_h % 0x1_0000) as u16);
        },
        InputEvent::MouseMoveGlobal { gx, gy } => {
            d.push(IN_MOUSE_GLOBAL);
            wire::push_i32(&mut d, gx);
            wire::push_i32(&mut d, gy);
        },
        InputEvent::MouseButton { button, pressed } => {
            d.push(IN_MOUSE_BUTTON);
            d.push((button % 0x100) as u8);
            d.push(protocol::flag_byte(pressed));
        },
        InputEvent::KeyPress { key, pressed } => {
            d.push(IN_KEY_PRESS);
            wire::push_u32(&mut d, key);
            d.push(protocol::flag_byte(pressed));
        },
        InputEvent::Scroll { dx, dy } => {
            d.push(IN_SCROLL);
            wire::push_i16(&mut d, dx);
            wire::push_i16(&mut d, dy);
        },
        InputEvent::KeyVk { vk, scan, pressed, extended } => {
            d.push(IN_KEY_VK);
            wire::push_u32(&mut d, vk);
            wire::push_u16(&mut d, scan);
            d.push(protocol::flag_byte(pressed));
            d.push(protocol::flag_byte(extended));
        },
    }
    assert(d@ =~= bytes_of(input));
    d
}

/// The message of a ping.
pub open spec fn ping_of(stamp: u64) -> Seq<u8> {
    seq![IN_PING] + wire::be64(stamp as int)
}

/// Writes the message of a ping, which the agent sends back with its time.
pub fn ping_message(stamp: u64) -> (out: Vec<u8>)
    ensures
        out@ == ping_of(stamp),
{
    let mut d: Vec<u8> = Vec::new();
    d.push(IN_PING);
    wire::push_u64(&mut d, stamp);
    assert(d@ =~= ping_of(stamp));
    d
}

/// What the agent understands of an input: the input itself, with the size of the picture and the
/// number of the button cut down to the bytes that a message has for them.
pub open spec fn arrived(e: InputEvent) -> Input {
    match e {
        InputEvent::MouseMove { x, y, win_w, win_h } => Input::MouseMove {
            x,
            y,
            win_w: wire::wrap16(win_w as int) as i32,
            win_h: wire::wrap16(win_h as int) as i32,
        },
        InputEvent::MouseMoveGlobal { gx, gy } => Input::MouseMoveGlobal { gx, gy },
        InputEvent::MouseButton { button, pressed } => Input::MouseButton {
            button: (button % 0x100) as u8,
            pressed,
        },
        InputEvent::KeyPress { key, pressed } => Input::KeyPress { key, pressed },
        InputEvent::Scroll { dx, dy } => Input::Scroll { dx, dy },
        InputEvent::KeyVk { vk, scan, pressed, extended } => Input::KeyVk {
            vk,
            scan,
            pressed,
            extended,
        },
    }
}

proof fn lemma_move_arrives(x: i32, y: i32, win_w: u32, win_h: u32)
    ensures
        ({
            let e = InputEvent::MouseMove { x, y, win_w, win_h };
            session::input_of(bytes_of(e)) == Some(arrived(e))
        }),
{
    let (p, q) = (wire::wrap32(x as int), wire::wrap32(y as int));
    let (r, s) = (wire::wrap16(win_w as int), wire::wrap16(win_h as int));
    let b = bytes_of(InputEvent::MouseMove { x, y, win_w, win_h });
    let t = seq![IN_MOUSE_MOVE];
    assert(wire::be32_at(b, 1) == p) by {
        wire::be32_roundtrip(t, p, wire::be32(q) + wire::be16(r) + wire::be16(s));
        assert(b =~= t + wire::be32(p) + (wire::be32(q) + wire::be16(r) + wire::be16(s)));
    }
    assert(wire::be32_at(b, 5) == q) by {
        wire::be32_roundtrip(t + wire::be32(p), q, wire::be16(r) + wire::be16(s));
        assert(b =~= t + wire::be32(p) + wire::be32(q) + (wire::be16(r) + wire::be16(s)));
    }
    assert(wire::be16_at(b, 9) == r) by {
        wire::be16_roundtrip(t + wire::be32(p) + wire::be32(q), r, wire::be16(s));
    }
    assert(wire::be16_at(b, 11) == s) by {
        let head = t + wire::be32(p) + wire::be32(q) + wire::be16(r);
        wire::be16_roundtrip(head, s, seq![]);
        assert(b =~= head + wire::be16(s) + seq![]);
    }
}

proof fn lemma_global_arrives(gx: i32, gy: i32)
    ensures
        ({
            let e = InputEvent::MouseMoveGlobal { gx, gy };
            session::input_of(bytes_of(e)) == Some(arrived(e))
        }),
{
    let (p, q) = (wire::wrap32(gx as int), wire::wrap32(gy as int));
    let b = bytes_of(InputEvent::MouseMoveGlobal { gx, gy });
    let t = seq![IN_MOUSE_GLOBAL];
    assert(wire::be32_at(b, 1) == p) by {
        wire::be32_roundtrip(t, p, wire::be32(q));
    }
    assert(wire::be32_at(b, 5) == q) by {
        wire::be32_roundtrip(t + wire::be32(p), q, seq![]);
        assert(b =~= t + wire::be32(p) + wire::be32(q) + seq![]);
    }
}

proof fn lemma_scroll_arrives(dx: i16, dy: i16)
    ensures
        ({
            let e = InputEvent::Scroll { dx, dy };
            session::input_of(bytes_of(e)) == Some(arrived(e))
        }),
{
    let (p, q) = (wire::wrap16(dx as int), wire::wrap16(dy as int));
    let b = bytes_of(InputEvent::Scroll { dx, dy });
    let t = seq![IN_SCROLL];
    assert(wire::be16_at(b, 1) == p) by {
        wire::be16_roundtrip(t, p, wire::be16(q));
    }
    assert(wire::be16_at(b, 3) == q) by {
        wire::be16_roundtrip(t + wire::be16(p), q, seq![]);
        assert(b =~= t + wire::be16(p) + wire::be16(q) + seq![]);
    }
}

proof fn lemma_key_arrives(key: u32, pressed: bool)
    ensures
        ({
            let e = InputEvent::KeyPress { key, pressed };
            session::input_of(bytes_of(e)) == Some(arrived(e))
        }),
{
    let b = bytes_of(InputEvent::KeyPress { key, pressed });
    assert(wire::be32_at(b, 1) == key) by {
        wire::be32_roundtrip(seq![IN_KEY_PRESS], key as int, seq![protocol::flag(pressed)]);
    }
}

proof fn lemma_vk_arrives(vk: u32, scan: u16, pressed: bool, extended: bool)
    ensures
        ({
            let e = InputEvent::KeyVk { vk, scan, pressed, extended };
            session::input_of(bytes_of(e)) == Some(arrived(e))
        }),
{
    let b = bytes_of(InputEvent::KeyVk { vk, scan, pressed, extended });
    let t = seq![IN_KEY_VK];
    let f = seq![protocol::flag(pressed), protocol::flag(extended)];
    assert(wire::be32_at(b, 1) == vk) by {
        wire::be32_roundtrip(t, vk as int, wire::be16(scan as int) + f);
        assert(b =~= t + wire::be32(vk as int) + (wire::be16(scan as int) + f));
    }
    assert(wire::be16_at(b, 5) == scan) by {
        wire::be16_roundtrip(t + wire::be32(vk as int), scan as int, f);
    }
}

/// Every input arrives: the agent reads from its message what the viewer wrote.
pub proof fn input_arrives(e: InputEvent)
    ensures
        session::input_of(bytes_of(e)) == Some(arrived(e)),
        !session::is_ping(bytes_of(e)),
{
    match e {
        InputEvent::MouseMove { x, y, win_w, win_h } => {
            lemma_move_arrives(x, y, win_w, win_h);
        },
        InputEvent::MouseMoveGlobal { gx, gy } => {
            lemma_global_arrives(gx, gy);
        },
        InputEvent::MouseButton { .. } => {},
        InputEvent::KeyPress { key, pressed } => {
            lemma_key_arrives(key, pressed);
        },
        InputEvent::Scroll { dx, dy } => {
            lemma_scroll_arrives(dx, dy);
        },
        InputEvent::KeyVk { vk, scan, pressed, extended } => {
            lemma_vk_arrives(vk, scan, pressed, extended);
        },
    }
}

/// An input arrives whole where the size of the picture and the number of the button can be
/// written in a message.
pub proof fn input_arrives_whole(e: InputEvent)
    requires
        match e {
            InputEvent::MouseMove { win_w, win_h, .. } => win_w <= u16::MAX && win_h <= u16::MAX,
            InputEvent::MouseButton { button, .. } => button <= u8::MAX,
            _ => true,
        },
    ensures
        match (e, session::input_of(bytes_of(e))) {
            (
                InputEvent::MouseMove { x, y, win_w, win_h },
                Some(Input::MouseMove { x: px, y: py, win_w: w, win_h: h }),
            ) => x == px && y == py && win_w == w && win_h == h,
            (
                InputEvent::MouseMoveGlobal { gx, gy },
                Some(Input::MouseMoveGlobal { gx: px, gy: py }),
            ) => gx == px && gy == py,
            (
                InputEvent::MouseButton { button, pressed },
                Some(Input::MouseButton { button: b, pressed: p }),
            ) => button == b && pressed == p,
            (
                InputEvent::KeyPress { key, pressed },
                Some(Input::KeyPress { key: k, pressed: p }),
            ) => key == k && pressed == p,
            (InputEvent::Scroll { dx, dy }, Some(Input::Scroll { dx: px, dy: py })) => dx == px
                && dy == py,
            (
                InputEvent::KeyVk { vk, scan, pressed, extended },
                Some(Input::KeyVk { vk: v, scan: s, pressed: p, extended: x }),
            ) => vk == v && scan == s && pressed == p && extended == x,
            _ => false,
        },
{
    input_arrives(e);
}

/// The start of a session arrives: the viewer reads the size, the frame rate and the codec that
/// the agent wrote.
pub proof fn init_arrives(width: u32, height: u32, fps: u8, codec: Codec)
    ensures
        heard(session::init_of(width, height, fps, codec)) == (Heard::Init {
            width,
            height,
            fps,
            codec,
        }),
{
    let b = session::init_of(width, height, fps, codec);
    let t = seq![MSG_INIT];
    let (p, q) = (width as int, height as int);
    let f = seq![fps, codec.number()];
    wire::be32_roundtrip(t, p, wire::be32(q) + f);
    wire::be32_roundtrip(t + wire::be32(p), q, f);
    assert(b =~= t + wire::be32(p) + (wire::be32(q) + f));
}

/// A frame arrives: the viewer reads the data that the agent wrote, if its length can be written
/// in four bytes.
pub proof fn frame_arrives(is_key: bool, data: Seq<u8>)
    requires
        data.len() <= u32::MAX,
    ensures
        heard(session::frame_of(is_key, data)) == (Heard::Frame { is_key, data }),
{
    frame_arrives_with_more(is_key, data, seq![]);
    assert(session::frame_of(is_key, data) + seq![] =~= session::frame_of(is_key, data));
}

/// Bytes behind a frame change nothing: the viewer reads the data that the agent wrote.
pub proof fn frame_arrives_with_more(is_key: bool, data: Seq<u8>, more: Seq<u8>)
    requires
        data.len() <= u32::MAX,
    ensures
        heard(session::frame_of(is_key, data) + more) == (Heard::Frame { is_key, data }),
{
    let t = seq![MSG_FRAME, protocol::flag(is_key)];
    let len = data.len() as int;
    assert(wire::wrap32(len) == len);
    assert(wire::be32(len).len() == 4);
    lemma_parts(t, wire::be32(len), data, more);
    wire::be32_roundtrip(t, len, data + more);
}

/// The parts of a frame message, and where the data stands in it.
proof fn lemma_parts(head: Seq<u8>, len: Seq<u8>, data: Seq<u8>, more: Seq<u8>)
    requires
        head.len() == 2,
        len.len() == 4,
    ensures
        head + len + data + more == head + len + (data + more),
        (head + len + data + more).len() == 6 + data.len() + more.len(),
        (head + len + data + more)[0] == head[0],
        (head + len + data + more)[1] == head[1],
        (head + len + data + more).subrange(6, 6 + data.len() as int) == data,
{
    let b = head + len + data + more;
    assert(b =~= head + len + (data + more));
    assert(b.subrange(6, 6 + data.len() as int) =~= data);
}

/// A session starts with its size: the first message that the viewer gets tells the size, the frame
/// rate and the codec of the first frame, and the second is that frame.
pub proof fn session_starts_with_size(s: AgentSession, f: VideoFrame)
    requires
        !s.started,
        f.data@.len() <= u32::MAX,
    ensures
        ({
            let m = s.frame_messages(f);
            &&& m.len() == 2
            &&& heard(m[0]) == (Heard::Init {
                width: f.width,
                height: f.height,
                fps: f.fps,
                codec: f.codec,
            })
            &&& heard(m[1]) == (Heard::Frame { is_key: f.is_key, data: f.data@ })
        }),
{
    let m = s.frame_messages(f);
    assert(heard(m[0]) == (Heard::Init {
        width: f.width,
        height: f.height,
        fps: f.fps,
        codec: f.codec,
    })) by {
        init_arrives(f.width, f.height, f.fps, f.codec);
        assert(m[0] == session::init_of(f.width, f.height, f.fps, f.codec));
    }
    assert(heard(m[1]) == (Heard::Frame { is_key: f.is_key, data: f.data@ })) by {
        frame_arrives(f.is_key, f.data@);
        assert(m[1] == session::frame_of(f.is_key, f.data@));
    }
}

/// A ping comes back: the viewer reads its own time from the agent's answer.
pub proof fn ping_comes_back(stamp: u64)
    ensures
        session::is_ping(ping_of(stamp)),
        heard(session::pong_of(ping_of(stamp))) == (Heard::Pong { sent: stamp }),
{
    let ping = ping_of(stamp);
    let v = stamp as int;
    wire::be64_roundtrip(seq![MSG_PONG], v, seq![]);
    assert(ping.subrange(1, 9) =~= wire::be64(v));
    assert(session::pong_of(ping) =~= seq![MSG_PONG] + wire::be64(v) + seq![]);
}

/// The type of the cursor arrives.
pub proof fn cursor_arrives(cursor: u8)
    ensures
        heard(session::cursor_of(cursor)) == (Heard::Cursor { ty: cursor }),
{
}

/// A JPEG frame is shown as it is decoded, whether it is a key frame or not and whatever bytes stand
/// behind it; where it cannot be decoded, that is reported and nothing is shown.
pub proof fn frame_is_shown_as_decoded(
    is_key: bool,
    file: Seq<u8>,
    more: Seq<u8>,
    r: Reaction<'_>,
    has_decoder: bool,
    now: u64,
)
    requires
        file.len() <= u32::MAX,
        reacts(r, session::frame_of(is_key, file) + more, Codec::Jpeg, has_decoder, now),
    ensures
        match decoder::shown(file) {
            Some((w, h, pixels)) => {
                &&& r matches Reaction::Show(f)
                &&& f.width == w
                &&& f.height == h
                &&& f.pixels@ == pixels
            },
            None => r is NotDecoded,
        },
{
    frame_arrives_with_more(is_key, file, more);
}

/// A picture that the agent encoded as JPEG can be given to the decoder, up to 149869 blocks of
/// eight by eight pixels. It is shown in the size that it had, with the pixels that the decoder makes
/// of its file, wherever the decoder makes a picture of it.
pub proof fn encoded_picture_is_shown(
    is_key: bool,
    file: Seq<u8>,
    w: u32,
    h: u32,
    r: Reaction<'_>,
    has_decoder: bool,
    now: u64,
)
    requires
        file.len() <= u32::MAX,
        jpeg_frame::is_plain(
            file,
            w as int,
            h as int,
            jpeg::first_quantiser(16, video::JPEG_QUALITY),
            jpeg::first_quantiser(17, video::JPEG_QUALITY),
        ),
        jpeg_frame::units(w as int, 1) * jpeg_frame::units(h as int, 1) <= 149869,
        reacts(r, session::frame_of(is_key, file), Codec::Jpeg, has_decoder, now),
    ensures
        jpeg_frame::can_be_decoded(file),
        match jpeg::jpeg_picture(file) {
            Some((_, _, rgb)) => {
                &&& r matches Reaction::Show(f)
                &&& f.width == w
                &&& f.height == h
                &&& f.pixels@ == decoder::xrgb_of(rgb)
            },
            None => r is NotDecoded,
        },
{
    let blocks = jpeg_frame::units(w as int, 1) * jpeg_frame::units(h as int, 1);
    assert(jpeg_frame::product_fits(1, blocks, 2047, 6));
    assert(jpeg_frame::product_fits(1, blocks, 2047, 7));
    jpeg_frame::plain_can_be_decoded(file, w as int, h as int, 6, 7);
    frame_arrives(is_key, file);
}

} // verus!
