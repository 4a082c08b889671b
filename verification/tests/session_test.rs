use vdesk::agent::services::input::{InjectGate, VirtualScreen, INPUT_MARK};
use vdesk::agent::services::video::{encode_jpeg, Codec, VideoFrame};
use vdesk::agent::session::{
    cursor_candidates, cursor_message, frame_message, get_cursor_type, handle_input, init_message,
    inject, AgentSession, Desktop, Injection, Input, InputAction, SessionAction, SessionEvent,
    NO_CURSOR,
};
use vdesk::viewer::decoder::decode_jpeg;
use vdesk::viewer::display::{cursor_type_to_idc, FrameBuffer, InputEvent};
use vdesk::viewer::session::{
    handle_agent_msg, input_to_bytes, parse_agent_msg, ping_message, AgentMsg, Reaction,
    ViewerSession,
};

fn frame(data: Vec<u8>, codec: Codec, is_key: bool) -> VideoFrame {
    VideoFrame::new(data, 1920, 1080, codec, is_key)
}

fn understood(e: InputEvent) -> Input {
    match handle_input(&input_to_bytes(e)) {
        InputAction::Inject(i) => i,
        other => panic!("{:?}", other),
    }
}

#[test]
fn init_message_bytes() {
    let m = init_message(&frame(vec![], Codec::Vp9, true));
    assert_eq!(m.to_vec(), vec![0x10, 0, 0, 7, 0x80, 0, 0, 4, 0x38, 60, 1]);
}

#[test]
fn frame_message_bytes() {
    let m = frame_message(&frame(vec![9, 8], Codec::Jpeg, false));
    assert_eq!(m.to_vec(), vec![0x11, 0, 0, 0, 0, 2, 9, 8]);
}

#[test]
fn cursor_is_sent_when_it_changes() {
    let mut last = NO_CURSOR;
    assert_eq!(cursor_message(&mut last, 0).unwrap().to_vec(), vec![0x13, 0]);
    assert!(cursor_message(&mut last, 0).is_none());
    assert_eq!(cursor_message(&mut last, 7).unwrap().to_vec(), vec![0x13, 7]);
}

#[test]
fn inputs_have_fixed_bytes() {
    assert_eq!(
        input_to_bytes(InputEvent::MouseMove { x: 1, y: -1, win_w: 1920, win_h: 1080 }),
        vec![1, 0, 0, 0, 1, 0xFF, 0xFF, 0xFF, 0xFF, 7, 0x80, 4, 0x38]
    );
    assert_eq!(
        input_to_bytes(InputEvent::MouseButton { button: 4, pressed: true }),
        vec![2, 4, 1]
    );
    assert_eq!(
        input_to_bytes(InputEvent::KeyPress { key: 19, pressed: false }),
        vec![3, 0, 0, 0, 19, 0]
    );
    assert_eq!(
        input_to_bytes(InputEvent::Scroll { dx: 0, dy: -120 }),
        vec![4, 0, 0, 0xFF, 0x88]
    );
    assert_eq!(
        input_to_bytes(InputEvent::MouseMoveGlobal { gx: 2, gy: 3 }),
        vec![7, 0, 0, 0, 2, 0, 0, 0, 3]
    );
    assert_eq!(
        input_to_bytes(InputEvent::KeyVk { vk: 0xA3, scan: 0x1D, pressed: true, extended: true }),
        vec![8, 0, 0, 0, 0xA3, 0, 0x1D, 1, 1]
    );
}

#[test]
fn inputs_arrive() {
    assert_eq!(
        understood(InputEvent::MouseMove { x: -5, y: 700, win_w: 1920, win_h: 1080 }),
        Input::MouseMove { x: -5, y: 700, win_w: 1920, win_h: 1080 }
    );
    assert_eq!(
        understood(InputEvent::MouseMoveGlobal { gx: i32::MIN, gy: i32::MAX }),
        Input::MouseMoveGlobal { gx: i32::MIN, gy: i32::MAX }
    );
    assert_eq!(
        understood(InputEvent::MouseButton { button: 2, pressed: false }),
        Input::MouseButton { button: 2, pressed: false }
    );
    assert_eq!(
        understood(InputEvent::KeyPress { key: 170, pressed: true }),
        Input::KeyPress { key: 170, pressed: true }
    );
    assert_eq!(
        understood(InputEvent::Scroll { dx: -120, dy: 32767 }),
        Input::Scroll { dx: -120, dy: 32767 }
    );
    assert_eq!(
        understood(InputEvent::KeyVk { vk: 0x5B, scan: 0xE05B, pressed: false, extended: true }),
        Input::KeyVk { vk: 0x5B, scan: 0xE05B, pressed: false, extended: true }
    );
}

#[test]
fn large_picture_size_is_cut_to_two_bytes() {
    assert_eq!(
        understood(InputEvent::MouseMove { x: 0, y: 0, win_w: 0x1_0002, win_h: 0xFFFF }),
        Input::MouseMove { x: 0, y: 0, win_w: 2, win_h: 0xFFFF }
    );
}

#[test]
fn short_and_unknown_messages_are_passed_over() {
    for b in [vec![], vec![1; 12], vec![2, 0], vec![3; 5], vec![4; 4], vec![6; 8], vec![7; 8], vec![8; 7], vec![9; 20]] {
        assert!(matches!(handle_input(&b), InputAction::Nothing));
    }
}

#[test]
fn virtual_key_may_leave_out_extended() {
    match handle_input(&[8, 0, 0, 0, 0x41, 0, 30, 1]) {
        InputAction::Inject(i) => assert_eq!(
            i,
            Input::KeyVk { vk: 0x41, scan: 30, pressed: true, extended: false }
        ),
        other => panic!("{:?}", other),
    }
}

#[test]
fn ping_comes_back_as_pong() {
    let ping = ping_message(1_700_000_000_123);
    assert_eq!(ping[0], 6);
    match handle_input(&ping) {
        InputAction::Reply(m) => {
            assert_eq!(m[0], 0x12);
            assert_eq!(m[1..], ping[1..]);
            let mut codec = Codec::Vp9;
            match handle_agent_msg(&m, &mut codec, false, 1_700_000_000_150) {
                Reaction::RoundTrip(ms) => assert_eq!(ms, 27),
                other => panic!("{:?}", other),
            }
            match handle_agent_msg(&m, &mut codec, false, 0) {
                Reaction::RoundTrip(ms) => assert_eq!(ms, 0),
                other => panic!("{:?}", other),
            }
        }
        other => panic!("{:?}", other),
    }
}

#[test]
fn init_arrives_at_viewer() {
    let m = init_message(&frame(vec![], Codec::Jpeg, true));
    match parse_agent_msg(&m) {
        AgentMsg::Init { width, height, fps, codec } => {
            assert_eq!((width, height, fps, codec), (1920, 1080, 60, Codec::Jpeg));
        }
        other => panic!("{:?}", other),
    }
}

#[test]
fn init_may_leave_out_rate_and_codec() {
    match parse_agent_msg(&[0x10, 0, 0, 0, 1, 0, 0, 0, 2]) {
        AgentMsg::Init { width, height, fps, codec } => {
            assert_eq!((width, height, fps, codec), (1, 2, 60, Codec::Vp9));
        }
        other => panic!("{:?}", other),
    }
    match parse_agent_msg(&[0x10, 0, 0, 0, 1, 0, 0, 0, 2, 30, 5]) {
        AgentMsg::Init { fps, codec, .. } => assert_eq!((fps, codec), (30, Codec::Jpeg)),
        other => panic!("{:?}", other),
    }
}

#[test]
fn frame_arrives_at_viewer() {
    let m = frame_message(&frame(vec![1, 2, 3], Codec::Vp9, true));
    match parse_agent_msg(&m) {
        AgentMsg::Frame { is_key, data } => {
            assert!(is_key);
            assert_eq!(data, &[1, 2, 3]);
        }
        other => panic!("{:?}", other),
    }
    assert!(matches!(parse_agent_msg(&m[..8]), AgentMsg::CutOff));
    assert!(matches!(parse_agent_msg(&m[..5]), AgentMsg::Nothing));
    assert!(matches!(parse_agent_msg(&[]), AgentMsg::Nothing));
}

#[test]
fn codec_decides_what_is_done_with_frames() {
    let mut s = ViewerSession::new();
    let key = frame_message(&frame(vec![5], Codec::Vp9, true));
    assert!(matches!(s.on_message(&key, 0), Reaction::Nothing));
    let vp9 = init_message(&frame(vec![], Codec::Vp9, true));
    assert!(matches!(s.on_message(&vp9, 0), Reaction::MakeDecoder));
    s.decoder_made(false);
    assert!(matches!(s.on_message(&key, 0), Reaction::Nothing));
    s.decoder_made(true);
    match s.on_message(&key, 0) {
        Reaction::Decode(d) => assert_eq!(d, &[5]),
        other => panic!("{:?}", other),
    }
    let jpeg = init_message(&frame(vec![], Codec::Jpeg, true));
    assert!(matches!(s.on_message(&jpeg, 0), Reaction::DropDecoder));
    assert!(!s.has_decoder);
    assert!(matches!(s.on_message(&key, 0), Reaction::NotDecoded));
}

#[test]
fn jpeg_frame_is_shown_in_its_size() {
    let bgra: Vec<u8> = [10u8, 20, 200, 0].repeat(16 * 8);
    let file = encode_jpeg(&bgra, 16, 8).unwrap();
    let m = frame_message(&frame(file, Codec::Jpeg, true));
    let mut codec = Codec::Jpeg;
    match handle_agent_msg(&m, &mut codec, false, 0) {
        Reaction::Show(FrameBuffer { pixels, width, height }) => {
            assert_eq!((width, height, pixels.len()), (16, 8, 128));
            let p = pixels[40];
            assert!((p >> 16) > 180 && (p >> 8 & 255) < 50 && (p & 255) < 40);
        }
        other => panic!("{:?}", other),
    }
}

#[test]
fn cursor_type_arrives() {
    let mut codec = Codec::Vp9;
    assert!(matches!(handle_agent_msg(&[0x13, 8], &mut codec, true, 0), Reaction::Cursor(8)));
    assert!(matches!(handle_agent_msg(&[0x13], &mut codec, true, 0), Reaction::Nothing));
}

#[test]
fn cursors_are_known_by_handle() {
    let handles: Vec<isize> = (100..110).collect();
    assert_eq!(get_cursor_type(Some(100), &handles), 1);
    assert_eq!(get_cursor_type(Some(106), &handles), 7);
    assert_eq!(get_cursor_type(Some(109), &handles), 0);
    assert_eq!(get_cursor_type(Some(5), &handles), 0);
    assert_eq!(get_cursor_type(None, &handles), 0);
}

#[test]
fn first_matching_cursor_counts() {
    let handles: Vec<isize> = vec![7; 10];
    assert_eq!(get_cursor_type(Some(7), &handles), 1);
}

#[test]
fn viewer_shows_the_cursor_of_each_type() {
    for (id, ty) in cursor_candidates() {
        assert_eq!(cursor_type_to_idc(ty), id);
    }
    assert_eq!(cursor_type_to_idc(77), 32512);
}

const DESK: Desktop = Desktop {
    screen_w: 1920,
    screen_h: 1080,
    all: VirtualScreen { x: -1920, y: 0, width: 3840, height: 1080 },
};

#[test]
fn inputs_become_marked_events() {
    let gate = InjectGate::new();
    match inject(&gate, Input::MouseMove { x: 960, y: 540, win_w: 1920, win_h: 1080 }, DESK, 0) {
        Injection::Mouse(m) => {
            assert_eq!((m.dx, m.dy, m.flags), (32767, 32767, 0x8001));
            assert_eq!(m.extra_info, INPUT_MARK);
        }
        other => panic!("{:?}", other),
    }
    match inject(&gate, Input::MouseMoveGlobal { gx: 1919, gy: 0 }, DESK, 0) {
        Injection::Mouse(m) => assert_eq!((m.dx, m.dy, m.flags), (65535, 0, 0xC001)),
        other => panic!("{:?}", other),
    }
    match inject(&gate, Input::MouseButton { button: 2, pressed: true }, DESK, 0) {
        Injection::Mouse(m) => assert_eq!(m.flags, 0x0008),
        other => panic!("{:?}", other),
    }
    match inject(&gate, Input::Scroll { dx: 0, dy: -120 }, DESK, 0) {
        Injection::Wheels(w) => {
            assert_eq!(w.len(), 1);
            assert_eq!((w[0].mouse_data, w[0].flags), (-120i32 as u32, 0x0800));
        }
        other => panic!("{:?}", other),
    }
    match inject(&gate, Input::KeyPress { key: 19, pressed: false }, DESK, 30) {
        Injection::Key(k) => assert_eq!((k.vk, k.scan, k.flags), (0x41, 30, 2)),
        other => panic!("{:?}", other),
    }
    match inject(&gate, Input::KeyVk { vk: 0x15, scan: 1, pressed: true, extended: true }, DESK, 0) {
        Injection::Key(k) => assert_eq!((k.vk, k.scan, k.flags), (0x15, 1, 0)),
        other => panic!("{:?}", other),
    }
}

#[test]
fn nothing_is_injected_when_off() {
    let mut gate = InjectGate::new();
    vdesk::agent::services::input::set_no_inject(&mut gate, true);
    assert!(matches!(
        inject(&gate, Input::MouseButton { button: 0, pressed: true }, DESK, 0),
        Injection::Nothing
    ));
    match inject(&gate, Input::Scroll { dx: 1, dy: 1 }, DESK, 0) {
        Injection::Wheels(w) => assert!(w.is_empty()),
        other => panic!("{:?}", other),
    }
}

#[test]
fn unknown_button_is_not_injected() {
    let gate = InjectGate::new();
    assert!(matches!(
        inject(&gate, Input::MouseButton { button: 1, pressed: true }, DESK, 0),
        Injection::Nothing
    ));
}

fn sent(a: SessionAction) -> Vec<Vec<u8>> {
    match a {
        SessionAction::Send(m) => m.iter().map(|b| b.to_vec()).collect(),
        other => panic!("{:?}", other),
    }
}

#[test]
fn session_starts_with_its_first_frame() {
    let mut s = AgentSession::new();
    assert!(matches!(s.on_event(SessionEvent::Cursor(3)), SessionAction::Nothing));
    assert!(matches!(s.on_event(SessionEvent::Received(&[2, 0, 1])), SessionAction::Nothing));
    let f = frame(vec![1], Codec::Vp9, true);
    let first = sent(s.on_event(SessionEvent::Frame(&f)));
    assert_eq!(first.len(), 2);
    assert_eq!((first[0][0], first[1][0]), (0x10, 0x11));
    let second = sent(s.on_event(SessionEvent::Frame(&f)));
    assert_eq!(second.len(), 1);
    assert_eq!(second[0][0], 0x11);
    assert_eq!(sent(s.on_event(SessionEvent::Cursor(3))), vec![vec![0x13, 3]]);
    assert!(matches!(s.on_event(SessionEvent::Cursor(3)), SessionAction::Nothing));
    assert!(matches!(
        s.on_event(SessionEvent::Received(&[2, 0, 1])),
        SessionAction::Inject(Input::MouseButton { button: 0, pressed: true })
    ));
    assert_eq!(
        sent(s.on_event(SessionEvent::Received(&[6, 1, 2, 3, 4, 5, 6, 7, 8]))),
        vec![vec![0x12, 1, 2, 3, 4, 5, 6, 7, 8]]
    );
    assert!(matches!(s.on_event(SessionEvent::Broken), SessionAction::End));
}

#[test]
fn jpeg_frame_is_shown_as_decoded() {
    let bgra: Vec<u8> = (0..4 * 8 * 8).map(|i| (i * 5 % 256) as u8).collect();
    let file = encode_jpeg(&bgra, 8, 8).unwrap();
    let (w, h, pixels) = decode_jpeg(&file).unwrap();
    for is_key in [true, false] {
        for more in [vec![], vec![1, 2, 3]] {
            let mut m = frame_message(&frame(file.clone(), Codec::Jpeg, is_key)).to_vec();
            m.extend_from_slice(&more);
            let mut codec = Codec::Jpeg;
            match handle_agent_msg(&m, &mut codec, false, 0) {
                Reaction::Show(f) => {
                    assert_eq!((f.width, f.height), (w, h));
                    assert_eq!(f.pixels, pixels);
                }
                other => panic!("{:?}", other),
            }
        }
    }
    let m = frame_message(&frame(vec![1, 2, 3], Codec::Jpeg, true));
    let mut codec = Codec::Jpeg;
    assert!(matches!(handle_agent_msg(&m, &mut codec, false, 0), Reaction::NotDecoded));
}
