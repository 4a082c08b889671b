//! The messages between agent and viewer, byte by byte, and what each side makes of them.

use crate::agent::services::input;
use crate::agent::services::input::InjectGate;
use crate::agent::services::video::{Codec, VideoFrame};
use crate::agent::session;
use crate::agent::session::{AgentSession, Desktop, Injection, Input};
use crate::viewer::display::InputEvent;
use crate::viewer::session as viewing;
use crate::viewer::session::{Heard, Reaction, ViewerSession};
use crate::wire;
use vstd::prelude::*;

verus! {

/// Two bytes from `i` on are the number `v`, the more significant one first.
pub open spec fn two_at(b: Seq<u8>, i: int, v: int) -> bool {
    b[i] * 256 + b[i + 1] == v
}

/// Four bytes from `i` on are the number `v`, the most significant one first.
pub open spec fn four_at(b: Seq<u8>, i: int, v: int) -> bool {
    ((b[i] * 256 + b[i + 1]) * 256 + b[i + 2]) * 256 + b[i + 3] == v
}

/// Two bytes from `i` on are the signed number `v`.
pub open spec fn signed_two_at(b: Seq<u8>, i: int, v: int) -> bool {
    two_at(b, i, v) || two_at(b, i, v + 65536)
}

/// Four bytes from `i` on are the signed number `v`.
pub open spec fn signed_four_at(b: Seq<u8>, i: int, v: int) -> bool {
    four_at(b, i, v) || four_at(b, i, v + 4294967296)
}

/// The byte is that of a truth value.
pub open spec fn truth(byte: u8, t: bool) -> bool {
    byte == if t {
        1u8
    } else {
        0u8
    }
}

/// The message that a session starts with has eleven bytes: 0x10, the width, the height, the frame
/// rate, and 1 for VP9 or 0 for JPEG.
pub proof fn layout_of_init(width: u32, height: u32, fps: u8, codec: Codec)
    ensures
        ({
            let b = session::init_of(width, height, fps, codec);
            &&& b.len() == 11
            &&& b[0] == 0x10
            &&& four_at(b, 1, width as int)
            &&& four_at(b, 5, height as int)
            &&& b[9] == fps
            &&& truth(b[10], codec == Codec::Vp9)
        }),
{
}

/// The message that carries a frame is 0x11, whether it is a key frame, the length, of which it takes
/// the low four bytes, and the data.
pub proof fn layout_of_frame(is_key: bool, data: Seq<u8>)
    ensures
        ({
            let b = session::frame_of(is_key, data);
            &&& b.len() == 6 + data.len()
            &&& b[0] == 0x11
            &&& truth(b[1], is_key)
            &&& four_at(b, 2, data.len() as int % 4294967296)
            &&& forall|i: int| 0 <= i < data.len() ==> b[6 + i] == #[trigger] data[i]
        }),
{
    let b = session::frame_of(is_key, data);
    let n = data.len() as int % 4294967296;
    assert(b[2] == wire::be32(n)[0]);
    assert(b[3] == wire::be32(n)[1]);
    assert(b[4] == wire::be32(n)[2]);
    assert(b[5] == wire::be32(n)[3]);
}

/// A ping is 0x06 and eight bytes; its answer is 0x12 and the same eight bytes.
pub proof fn layout_of_ping(stamp: u64, ping: Seq<u8>)
    requires
        ping.len() >= 9,
    ensures
        ({
            let b = viewing::ping_of(stamp);
            &&& b.len() == 9
            &&& b[0] == 0x06
            &&& four_at(b, 1, stamp as int / 4294967296)
            &&& four_at(b, 5, stamp as int % 4294967296)
        }),
        ({
            let b = session::pong_of(ping);
            &&& b.len() == 9
            &&& b[0] == 0x12
            &&& forall|i: int| 1 <= i < 9 ==> b[i] == #[trigger] ping[i]
        }),
        session::is_ping(ping) <==> ping[0] == 0x06,
{
    let b = session::pong_of(ping);
    assert forall|i: int| 1 <= i < 9 implies b[i] == #[trigger] ping[i] by {
        assert(b[i] == ping.subrange(1, 9)[i - 1]);
    }
}

/// The message that names the type of the cursor is 0x13 and the type.
pub proof fn layout_of_cursor(cursor: u8)
    ensures
        session::cursor_of(cursor) == seq![0x13u8, cursor],
{
}

/// The message of a pointer in the picture is 0x01, its column and row in four bytes each, and the
/// size of the picture in two bytes each, the low ones.
pub proof fn layout_of_move(x: i32, y: i32, win_w: u32, win_h: u32)
    ensures
        ({
            let b = viewing::bytes_of(InputEvent::MouseMove { x, y, win_w, win_h });
            &&& b.len() == 13
            &&& b[0] == 0x01
            &&& signed_four_at(b, 1, x as int)
            &&& signed_four_at(b, 5, y as int)
            &&& two_at(b, 9, win_w as int % 65536)
            &&& two_at(b, 11, win_h as int % 65536)
        }),
{
    let (p, q) = (wire::wrap32(x as int), wire::wrap32(y as int));
    let (w, h) = (win_w as int % 65536, win_h as int % 65536);
    let b = viewing::bytes_of(InputEvent::MouseMove { x, y, win_w, win_h });
    let t = seq![0x01u8];
    let size = wire::be16(w) + wire::be16(h);
    assert(four_at(b, 1, p)) by {
        lemma_four(t, p, wire::be32(q) + size);
        assert(b =~= t + wire::be32(p) + (wire::be32(q) + size));
    }
    assert(four_at(b, 5, q)) by {
        lemma_four(t + wire::be32(p), q, size);
        assert(b =~= t + wire::be32(p) + wire::be32(q) + size);
    }
    assert(two_at(b, 9, w)) by {
        assert(b[9] == wire::be16(w)[0] && b[10] == wire::be16(w)[1]);
    }
    assert(two_at(b, 11, h)) by {
        assert(b[11] == wire::be16(h)[0] && b[12] == wire::be16(h)[1]);
    }
}

/// The four bytes of a number stand where they are put.
proof fn lemma_four(head: Seq<u8>, v: int, tail: Seq<u8>)
    requires
        0 <= v < 0x1_0000_0000,
    ensures
        four_at(head + wire::be32(v) + tail, head.len() as int, v),
{
    wire::be32_roundtrip(head, v, tail);
}

/// The message of a pointer on the virtual screen is 0x07, its column and its row.
pub proof fn layout_of_global_move(gx: i32, gy: i32)
    ensures
        ({
            let b = viewing::bytes_of(InputEvent::MouseMoveGlobal { gx, gy });
            &&& b.len() == 9
            &&& b[0] == 0x07
            &&& signed_four_at(b, 1, gx as int)
            &&& signed_four_at(b, 5, gy as int)
        }),
{
    let (p, q) = (wire::wrap32(gx as int), wire::wrap32(gy as int));
    let b = viewing::bytes_of(InputEvent::MouseMoveGlobal { gx, gy });
    let t = seq![0x07u8];
    assert(four_at(b, 1, p)) by {
        lemma_four(t, p, wire::be32(q));
    }
    assert(four_at(b, 5, q)) by {
        lemma_four(t + wire::be32(p), q, seq![]);
        assert(b =~= t + wire::be32(p) + wire::be32(q) + seq![]);
    }
}

/// The message of a button is 0x02, its number, of which it takes the low byte, and whether it goes
/// down.
pub proof fn layout_of_button(button: u32, pressed: bool)
    ensures
        ({
            let b = viewing::bytes_of(InputEvent::MouseButton { button, pressed });
            &&& b.len() == 3
            &&& b[0] == 0x02
            &&& b[1] == button % 256
            &&& truth(b[2], pressed)
        }),
{
}

/// The message of a physical key is 0x03, its code, and whether it goes down; that of a virtual key is
/// 0x08, its code, its scan code, whether it goes down, and whether it is extended.
pub proof fn layout_of_keys(key: u32, scan: u16, pressed: bool, extended: bool)
    ensures
        ({
            let b = viewing::bytes_of(InputEvent::KeyPress { key, pressed });
            &&& b.len() == 6
            &&& b[0] == 0x03
            &&& four_at(b, 1, key as int)
            &&& truth(b[5], pressed)
        }),
        ({
            let b = viewing::bytes_of(InputEvent::KeyVk { vk: key, scan, pressed, extended });
            &&& b.len() == 9
            &&& b[0] == 0x08
            &&& four_at(b, 1, key as int)
            &&& two_at(b, 5, scan as int)
            &&& truth(b[7], pressed)
            &&& truth(b[8], extended)
        }),
{
}

/// The message of the wheel is 0x04, and how far it turns to the side and up, in two bytes each.
pub proof fn layout_of_wheel(dx: i16, dy: i16)
    ensures
        ({
            let b = viewing::bytes_of(InputEvent::Scroll { dx, dy });
            &&& b.len() == 5
            &&& b[0] == 0x04
            &&& signed_two_at(b, 1, dx as int)
            &&& signed_two_at(b, 3, dy as int)
        }),
{
    let b = viewing::bytes_of(InputEvent::Scroll { dx, dy });
    assert(two_at(b, 1, wire::wrap16(dx as int)));
    assert(two_at(b, 3, wire::wrap16(dy as int)));
}

/// The agent understands a message by its first byte, and passes over one that is too short for it.
/// Bytes behind the input do not count.
pub proof fn agent_understands(b: Seq<u8>)
    ensures
        match session::input_of(b) {
            Some(Input::MouseMove { x, y, win_w, win_h }) => {
                &&& b.len() >= 13
                &&& b[0] == 0x01
                &&& signed_four_at(b, 1, x as int)
                &&& signed_four_at(b, 5, y as int)
                &&& two_at(b, 9, win_w as int)
                &&& two_at(b, 11, win_h as int)
            },
            Some(Input::MouseMoveGlobal { gx, gy }) => {
                &&& b.len() >= 9
                &&& b[0] == 0x07
                &&& signed_four_at(b, 1, gx as int)
                &&& signed_four_at(b, 5, gy as int)
            },
            Some(Input::MouseButton { button, pressed }) => {
                &&& b.len() >= 3
                &&& b[0] == 0x02
                &&& b[1] == button
                &&& pressed <==> b[2] > 0
            },
            Some(Input::KeyPress { key, pressed }) => {
                &&& b.len() >= 6
                &&& b[0] == 0x03
                &&& four_at(b, 1, key as int)
                &&& pressed <==> b[5] > 0
            },
            Some(Input::Scroll { dx, dy }) => {
                &&& b.len() >= 5
                &&& b[0] == 0x04
                &&& signed_two_at(b, 1, dx as int)
                &&& signed_two_at(b, 3, dy as int)
            },
            Some(Input::KeyVk { vk, scan, pressed, extended }) => {
                &&& b.len() >= 8
                &&& b[0] == 0x08
                &&& four_at(b, 1, vk as int)
                &&& two_at(b, 5, scan as int)
                &&& pressed <==> b[7] > 0
                &&& extended <==> b.len() >= 9 && b[8] > 0
            },
            None => {
                ||| b.len() == 0
                ||| b[0] == 0x01 && b.len() < 13
                ||| b[0] == 0x07 && b.len() < 9
                ||| b[0] == 0x02 && b.len() < 3
                ||| b[0] == 0x03 && b.len() < 6
                ||| b[0] == 0x04 && b.len() < 5
                ||| b[0] == 0x08 && b.len() < 8
                ||| b[0] == 0 || b[0] == 5 || b[0] == 6 || b[0] > 8
            },
        },
        session::is_ping(b) <==> b.len() >= 9 && b[0] == 0x06,
{
}

/// The viewer understands a message by its first byte, and passes over one that is too short for it.
/// A start without a frame rate stands for sixty frames a second, and one without a codec for VP9;
/// every number but 1 stands for JPEG. A frame whose data is not all there is cut off.
pub proof fn viewer_understands(b: Seq<u8>)
    ensures
        match viewing::heard(b) {
            Heard::Init { width, height, fps, codec } => {
                &&& b.len() >= 9
                &&& b[0] == 0x10
                &&& four_at(b, 1, width as int)
                &&& four_at(b, 5, height as int)
                &&& b.len() >= 10 ==> fps == b[9]
                &&& b.len() == 9 ==> fps == 60
                &&& codec == Codec::Vp9 <==> b.len() <= 10 || b[10] == 1
            },
            Heard::Frame { is_key, data } => {
                &&& b.len() >= 6 + data.len()
                &&& b[0] == 0x11
                &&& is_key <==> b[1] > 0
                &&& four_at(b, 2, data.len() as int)
                &&& forall|i: int| 0 <= i < data.len() ==> b[6 + i] == #[trigger] data[i]
            },
            Heard::CutOff => {
                &&& b.len() >= 6
                &&& b[0] == 0x11
                &&& forall|n: int|
                    #![trigger four_at(b, 2, n)]
                    four_at(b, 2, n) ==> b.len() < 6 + n
            },
            Heard::Pong { sent } => {
                &&& b.len() >= 9
                &&& b[0] == 0x12
                &&& four_at(b, 1, sent as int / 4294967296)
                &&& four_at(b, 5, sent as int % 4294967296)
            },
            Heard::Cursor { ty } => b.len() >= 2 && b[0] == 0x13 && b[1] == ty,
            Heard::Nothing => {
                ||| b.len() == 0
                ||| b[0] == 0x10 && b.len() < 9
                ||| b[0] == 0x11 && b.len() < 6
                ||| b[0] == 0x12 && b.len() < 9
                ||| b[0] == 0x13 && b.len() < 2
                ||| b[0] < 0x10 || b[0] > 0x13
            },
        },
{
}

/// The viewer tells how long a ping was under way: the time that went by since it was sent, or none
/// where the clock went back.
pub proof fn round_trip_is_measured(
    r: Reaction<'_>,
    sent: u64,
    codec: Codec,
    has_decoder: bool,
    now: u64,
)
    requires
        viewing::reacts(
            r,
            session::pong_of(viewing::ping_of(sent)),
            codec,
            has_decoder,
            now,
        ),
    ensures
        r matches Reaction::RoundTrip(ms) && (now >= sent ==> sent + ms == now) && (now < sent ==> ms
            == 0),
{
    viewing::ping_comes_back(sent);
}

/// The codec of the first message decides what becomes of the frames: for VP9 a decoder is made and
/// gets the data, for JPEG it is given up.
pub proof fn codec_decides(
    r: Reaction<'_>,
    s: ViewerSession,
    width: u32,
    height: u32,
    fps: u8,
    codec: Codec,
    now: u64,
)
    requires
        viewing::reacts(
            r,
            session::init_of(width, height, fps, codec),
            s.codec,
            s.has_decoder,
            now,
        ),
    ensures
        codec == Codec::Vp9 ==> r is MakeDecoder,
        codec == Codec::Jpeg ==> r is DropDecoder,
        s.after(session::init_of(width, height, fps, codec)).codec == codec,
        codec == Codec::Vp9 ==> s.after(
            session::init_of(width, height, fps, codec),
        ).has_decoder == s.has_decoder,
        codec == Codec::Jpeg ==> !s.after(session::init_of(width, height, fps, codec)).has_decoder,
{
    viewing::init_arrives(width, height, fps, codec);
}

/// A VP9 frame goes to the decoder as it was sent, and nowhere where there is none. No frame changes
/// what was agreed on.
pub proof fn vp9_frame_is_decoded(
    r: Reaction<'_>,
    s: ViewerSession,
    is_key: bool,
    data: Seq<u8>,
    now: u64,
)
    requires
        data.len() <= u32::MAX,
        s.codec == Codec::Vp9,
        viewing::reacts(r, session::frame_of(is_key, data), s.codec, s.has_decoder, now),
    ensures
        s.has_decoder ==> (r matches Reaction::Decode(d) && d@ == data),
        !s.has_decoder ==> r is Nothing,
        s.after(session::frame_of(is_key, data)) == s,
{
    viewing::frame_arrives(is_key, data);
}

/// The type of the remote cursor is taken note of.
pub proof fn cursor_is_followed(
    r: Reaction<'_>,
    s: ViewerSession,
    cursor: u8,
    now: u64,
)
    requires
        viewing::reacts(r, session::cursor_of(cursor), s.codec, s.has_decoder, now),
    ensures
        r == Reaction::Cursor(cursor),
        s.after(session::cursor_of(cursor)) == s,
{
    viewing::cursor_arrives(cursor);
}

/// The cursor that is shown is known by its handle: that of the first known cursor with the same
/// handle, in the order text bar, double arrows, four-way arrow, hand, hourglass, crossed circle,
/// arrow; the arrow, of type 0, where there is none.
pub proof fn cursor_is_known_by_its_handle(shown: isize, handles: Seq<isize>, i: int)
    requires
        0 <= i <= 10,
        forall|j: int| 0 <= j < i ==> #[trigger] handles[j] != shown,
        i < 10 ==> handles[i] == shown,
    ensures
        i < 9 ==> session::type_from(shown, handles, 0) == i + 1,
        i >= 9 ==> session::type_from(shown, handles, 0) == 0,
        i < 10 ==> session::known_cursors()[i].0 == seq![
            32513usize,
            32644usize,
            32645usize,
            32642usize,
            32643usize,
            32646usize,
            32649usize,
            32514usize,
            32648usize,
            32512usize,
        ][i],
{
    lemma_type_from(shown, handles, i, 0);
}

proof fn lemma_type_from(shown: isize, handles: Seq<isize>, i: int, k: int)
    requires
        0 <= k <= i <= 10,
        forall|j: int| 0 <= j < i ==> #[trigger] handles[j] != shown,
        i < 10 ==> handles[i] == shown,
    ensures
        i < 9 ==> session::type_from(shown, handles, k) == i + 1,
        i >= 9 ==> session::type_from(shown, handles, k) == 0,
    decreases i - k,
{
    if k < i {
        assert(handles[k] != shown);
        lemma_type_from(shown, handles, i, k + 1);
    }
}

/// An input becomes the events of its own kind, from its own numbers: a pointer in the picture goes by
/// the main screen, one on the virtual screen by all screens; a physical key takes the scan code that
/// the system has for it, a virtual key its own.
pub proof fn input_becomes_its_events(
    r: Injection,
    gate: InjectGate,
    e: Input,
    desk: Desktop,
    scan: u16,
)
    requires
        session::injects(r, gate, e, desk, scan),
    ensures
        match e {
            Input::MouseMove { x, y, win_w, win_h } => r == match input::screen_move(
                gate,
                x,
                y,
                win_w,
                win_h,
                desk.screen_w,
                desk.screen_h,
            ) {
                Some(m) => Injection::Mouse(m),
                None => Injection::Nothing,
            },
            Input::MouseMoveGlobal { gx, gy } => r == match input::desktop_move(
                gate,
                gx,
                gy,
                desk.all,
            ) {
                Some(m) => Injection::Mouse(m),
                None => Injection::Nothing,
            },
            Input::MouseButton { button, pressed } => r == match input::button_event(
                gate,
                button,
                pressed,
            ) {
                Some(m) => Injection::Mouse(m),
                None => Injection::Nothing,
            },
            Input::KeyPress { key, pressed } => r == match input::key_event(
                gate,
                key,
                pressed,
                scan,
            ) {
                Some(k) => Injection::Key(k),
                None => Injection::Nothing,
            },
            Input::KeyVk { vk, scan: own, pressed, extended } => r == match input::vk_event(
                gate,
                vk,
                own,
                pressed,
                extended,
            ) {
                Some(k) => Injection::Key(k),
                None => Injection::Nothing,
            },
            Input::Scroll { dx, dy } => r matches Injection::Wheels(w) && w@
                == input::wheel_events(gate, dx, dy),
        },
{
}

/// Every input can be injected on a screen of up to 32768 pixels a side; of the pointers in a picture,
/// those on it, to the left of it or above it.
pub proof fn usual_inputs_are_injected(gate: InjectGate, e: Input, desk: Desktop)
    requires
        1 <= desk.screen_w <= 32768,
        1 <= desk.screen_h <= 32768,
        desk.all.x <= 0x100_0000,
        desk.all.y <= 0x100_0000,
        e matches Input::MouseMove { x, y, win_w, win_h } ==> -0x8000 <= x < win_w <= 0xFFFF
            && -0x8000 <= y < win_h <= 0xFFFF,
    ensures
        session::can_inject(gate, e, desk),
{
    if let Input::MouseMove { x, y, win_w, win_h } = e {
        if win_w > 0 && win_h > 0 {
            lemma_fits(x as int, desk.screen_w as int, win_w as int);
            lemma_fits(y as int, desk.screen_h as int, win_h as int);
        }
    }
}

proof fn lemma_fits(v: int, screen: int, win: int)
    requires
        1 <= screen <= 32768,
        -0x8000 <= v < win <= 0xFFFF,
        0 < win,
    ensures
        input::coord_fits(v, screen, win),
{
    assert(-0x8000 * 32768 <= v * screen <= 0xFFFF * 32768) by (nonlinear_arith)
        requires
            1 <= screen <= 32768,
            -0x8000 <= v < 0xFFFF,
    ;
    let s = input::screen_coord(v, screen, win);
    assert(s <= screen - 1);
    assert(s * 65535 <= i32::MAX);
}

/// Only the first frame of a session comes with the message that the session starts with; every later
/// one comes alone.
pub proof fn later_frames_come_alone(s: AgentSession, f: VideoFrame)
    ensures
        s.started ==> s.frame_messages(f) == seq![session::frame_of(f.is_key, f.data@)],
        !s.started ==> s.frame_messages(f) == seq![
            session::init_of(f.width, f.height, f.fps, f.codec),
            session::frame_of(f.is_key, f.data@),
        ],
{
}

} // verus!
