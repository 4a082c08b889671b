use vdesk::viewer::display::{
    cursor_type_to_idc, hook_proc, ht_code_for_pos, is_agent_injected, message_place, Around, Button,
    Effect, FrameBuffer, HookedKey, InputEvent, RawKey, RedrawStep, Title, ViewerApp, ViewerEvent,
    WindowEvent, KEY_ESCAPE, KEY_F11,
};
use vdesk::viewer::render::{blit_frame, draw_control_border, draw_scrollbars};

const HERE: Around = Around { injected: false, origin: Some((100, 50)) };

fn viewer() -> ViewerApp {
    let mut v = ViewerApp::new(true, false);
    v.window_made(800, 600);
    v
}

fn frame(width: u32, height: u32) -> ViewerEvent {
    ViewerEvent::Frame(FrameBuffer {
        pixels: (0..width * height).map(|i| i + 1).collect(),
        width,
        height,
    })
}

fn click(v: &mut ViewerApp, button: Button, pressed: bool) -> Vec<Effect> {
    v.window_event(WindowEvent::MouseInput { button, pressed }, HERE)
}

fn key(v: &mut ViewerApp, code: u32, pressed: bool) -> Vec<Effect> {
    v.window_event(WindowEvent::Key { code, pressed }, HERE)
}

fn sent(effects: &[Effect]) -> Vec<InputEvent> {
    effects
        .iter()
        .filter_map(|e| match e {
            Effect::Send(i) => Some(*i),
            _ => None,
        })
        .collect()
}

fn controlled() -> ViewerApp {
    let mut v = viewer();
    click(&mut v, Button::Left, true);
    click(&mut v, Button::Left, false);
    v
}

#[test]
fn nothing_is_sent_before_control() {
    let mut v = viewer();
    assert!(v.window_event(WindowEvent::CursorMoved { x: 400, y: 300 }, HERE).is_empty());
    assert!(key(&mut v, 19, true).is_empty());
    assert!(key(&mut v, KEY_ESCAPE, true).is_empty());
    assert!(click(&mut v, Button::Right, true).is_empty());
    assert_eq!(v.state.last_cursor, Some((400, 300)));
}

#[test]
fn click_starts_control_and_is_not_passed_on() {
    let mut v = viewer();
    v.window_event(WindowEvent::CursorMoved { x: 400, y: 300 }, HERE);
    let e = click(&mut v, Button::Left, true);
    assert!(v.state.control_active);
    let inputs = sent(&e);
    assert_eq!(inputs.len(), 9);
    assert_eq!(
        inputs[0],
        InputEvent::KeyVk { vk: 0xA0, scan: 0, pressed: false, extended: false }
    );
    assert_eq!(inputs[8], InputEvent::MouseMove { x: 400, y: 300, win_w: 800, win_h: 600 });
    assert!(e.contains(&Effect::ConfineCursor));
    assert!(e.contains(&Effect::SetTitle(Title::Controlling)));
    assert!(e.contains(&Effect::InstallKeyHook));
    assert!(click(&mut v, Button::Left, false).is_empty());
    let e = click(&mut v, Button::Left, true);
    assert_eq!(sent(&e), vec![InputEvent::MouseButton { button: 0, pressed: true }]);
}

#[test]
fn no_control_without_a_window() {
    let mut v = ViewerApp::new(true, false);
    assert!(click(&mut v, Button::Left, true).is_empty());
    assert!(!v.state.control_active);
}

#[test]
fn escape_ends_control_and_lets_go() {
    let mut v = controlled();
    click(&mut v, Button::Right, true);
    assert!(v.state.held.right);
    let e = key(&mut v, KEY_ESCAPE, true);
    let inputs = sent(&e);
    assert_eq!(inputs.len(), 9);
    assert_eq!(inputs[8], InputEvent::MouseButton { button: 2, pressed: false });
    assert!(e.contains(&Effect::RemoveKeyHook));
    assert!(e.contains(&Effect::FreeCursor));
    assert_eq!(e.last(), Some(&Effect::RequestRedraw));
    assert!(!v.state.control_active);
    assert!(!v.state.held.right);
    assert!(key(&mut v, KEY_ESCAPE, false).is_empty());
}

#[test]
fn f11_stays_local() {
    let mut v = viewer();
    assert_eq!(key(&mut v, KEY_F11, true), vec![Effect::ToggleFullscreen]);
    let mut v = controlled();
    assert_eq!(key(&mut v, KEY_F11, true), vec![Effect::ToggleFullscreen]);
    assert!(key(&mut v, KEY_F11, false).is_empty());
}

#[test]
fn keys_and_wheel_are_passed_on_under_control() {
    let mut v = controlled();
    assert_eq!(sent(&key(&mut v, 19, true)), vec![InputEvent::KeyPress { key: 19, pressed: true }]);
    let e = v.window_event(WindowEvent::MouseWheel { dx: 0, dy: 120 }, HERE);
    assert_eq!(sent(&e), vec![InputEvent::Scroll { dx: 0, dy: 120 }]);
    let e = v.window_event(WindowEvent::MouseWheel { dx: 0x1_0005, dy: -0x8001 }, HERE);
    assert_eq!(sent(&e), vec![InputEvent::Scroll { dx: 5, dy: 0x7FFF }]);
}

#[test]
fn buttons_are_tracked() {
    let mut v = controlled();
    for (b, n) in [(Button::Left, 0), (Button::Right, 2), (Button::Middle, 4)] {
        let e = click(&mut v, b, true);
        assert_eq!(sent(&e), vec![InputEvent::MouseButton { button: n, pressed: true }]);
    }
    assert!(click(&mut v, Button::Other, true).is_empty());
    click(&mut v, Button::Right, false);
    let h = v.state.held;
    assert_eq!((h.left, h.right, h.middle), (true, false, true));
    let e = v.window_event(WindowEvent::CloseRequested, HERE);
    let ups: Vec<InputEvent> = sent(&e)[8..].to_vec();
    assert_eq!(
        ups,
        vec![
            InputEvent::MouseButton { button: 0, pressed: false },
            InputEvent::MouseButton { button: 4, pressed: false },
        ]
    );
    assert_eq!(e.last(), Some(&Effect::Exit));
}

#[test]
fn injected_input_is_ignored() {
    let mut v = controlled();
    let before = v.state;
    let a = Around { injected: true, origin: None };
    assert!(v.window_event(WindowEvent::CursorMoved { x: 9, y: 9 }, a).is_empty());
    assert!(v.window_event(WindowEvent::Key { code: KEY_ESCAPE, pressed: true }, a).is_empty());
    assert!(v.window_event(WindowEvent::MouseWheel { dx: 1, dy: 1 }, a).is_empty());
    assert!(v
        .window_event(WindowEvent::MouseInput { button: Button::Left, pressed: true }, a)
        .is_empty());
    assert_eq!(v.state, before);
    assert!(is_agent_injected(0x5DEC_0001));
    assert!(!is_agent_injected(0));
}

#[test]
fn edge_is_local() {
    let mut v = controlled();
    let e = v.window_event(WindowEvent::CursorMoved { x: 799, y: 300 }, HERE);
    assert_eq!(e, vec![Effect::MirrorCursor]);
    assert!(v.state.at_edge);
    let e = click(&mut v, Button::Left, true);
    assert_eq!(e, vec![Effect::DragEdge { part: 11, x: 899, y: 350 }]);
    assert!(click(&mut v, Button::Right, true).is_empty());
    let e = v.window_event(WindowEvent::Resized { width: 0, height: 500 }, HERE);
    assert_eq!(e, vec![Effect::ConfineCursor, Effect::RequestRedraw]);
    assert!(!v.state.at_edge);
    assert_eq!(v.state.window_size, (1, 500));
}

#[test]
fn parts_of_the_edge() {
    let at = |x: i32, y: i32| ht_code_for_pos(x, y, 100, 100);
    assert_eq!(at(0, 0), Some(13));
    assert_eq!(at(99, 0), Some(14));
    assert_eq!(at(0, 99), Some(16));
    assert_eq!(at(99, 99), Some(17));
    assert_eq!(at(50, 11), Some(12));
    assert_eq!(at(50, 88), Some(15));
    assert_eq!(at(11, 50), Some(10));
    assert_eq!(at(88, 50), Some(11));
    assert_eq!(at(12, 12), None);
    assert_eq!(at(87, 87), None);
}

#[test]
fn place_in_a_window_message() {
    assert_eq!(message_place(5, 7), 7 << 16 | 5);
    assert_eq!(message_place(-1, -2), (-2i64 << 16) | 0xFFFF);
}

#[test]
fn pointer_is_placed_in_the_picture() {
    let mut v = controlled();
    v.user_event(frame(1000, 700));
    v.state.scroll_x = 200;
    v.state.scroll_y = 100;
    let e = v.window_event(WindowEvent::CursorMoved { x: 400, y: 300 }, HERE);
    assert_eq!(
        sent(&e),
        vec![InputEvent::MouseMove { x: 600, y: 400, win_w: 1000, win_h: 700 }]
    );
    v.user_event(frame(500, 350));
    let e = v.window_event(WindowEvent::CursorMoved { x: 400, y: 300 }, HERE);
    assert_eq!(
        sent(&e),
        vec![InputEvent::MouseMove { x: 499, y: 349, win_w: 500, win_h: 350 }]
    );
}

#[test]
fn pointer_is_placed_on_the_virtual_screen() {
    let mut v = ViewerApp::new(true, true);
    v.window_made(800, 600);
    click(&mut v, Button::Left, true);
    let e = v.window_event(WindowEvent::CursorMoved { x: 400, y: 300 }, HERE);
    assert_eq!(sent(&e), vec![InputEvent::MouseMoveGlobal { gx: 500, gy: 350 }]);
    let lost = Around { injected: false, origin: None };
    let e = v.window_event(WindowEvent::CursorMoved { x: 400, y: 300 }, lost);
    assert_eq!(sent(&e), vec![InputEvent::MouseMove { x: 400, y: 300, win_w: 800, win_h: 600 }]);
}

#[test]
fn wheel_pans_without_control() {
    let mut v = viewer();
    v.user_event(frame(900, 1000));
    let down = WindowEvent::MouseWheel { dx: 0, dy: -120 };
    assert_eq!(v.window_event(down, HERE), vec![Effect::RequestRedraw]);
    assert_eq!((v.state.scroll_x, v.state.scroll_y), (0, 80));
    for _ in 0..9 {
        v.window_event(down, HERE);
    }
    assert_eq!(v.state.scroll_y, 400);
    v.window_event(WindowEvent::MouseWheel { dx: -1, dy: 1 }, HERE);
    assert_eq!((v.state.scroll_x, v.state.scroll_y), (80, 320));
    v.window_event(WindowEvent::MouseWheel { dx: -1, dy: 0 }, HERE);
    assert_eq!(v.state.scroll_x, 100);
}

#[test]
fn hook_takes_all_but_local_keys() {
    let k = |vk: u32, extra: usize| HookedKey { vk, scan: 0x2_001E, flags: 1, extra };
    assert_eq!(
        hook_proc(0, 0x0100, k(0x41, 0)),
        Some(InputEvent::KeyVk { vk: 0x41, scan: 0x1E, pressed: true, extended: true })
    );
    assert_eq!(
        hook_proc(0, 0x0101, HookedKey { vk: 0x41, scan: 1, flags: 2, extra: 0 }),
        Some(InputEvent::KeyVk { vk: 0x41, scan: 1, pressed: false, extended: false })
    );
    assert!(matches!(
        hook_proc(0, 0x0104, k(0xA4, 0)),
        Some(InputEvent::KeyVk { pressed: true, .. })
    ));
    assert_eq!(hook_proc(0, 0x0100, k(0x1B, 0)), None);
    assert_eq!(hook_proc(0, 0x0100, k(0x7A, 0)), None);
    assert_eq!(hook_proc(0, 0x0100, k(0x41, 0x5DEC_0001)), None);
    assert_eq!(hook_proc(-1, 0x0100, k(0x41, 0)), None);
}

#[test]
fn unknown_cursor_is_an_arrow() {
    assert_eq!(cursor_type_to_idc(0), 32512);
    assert_eq!(cursor_type_to_idc(7), 32649);
    assert_eq!(cursor_type_to_idc(10), 32512);
}

#[test]
fn close_event_changes_nothing() {
    let mut v = viewer();
    assert!(v.user_event(ViewerEvent::Close).is_empty());
    assert!(v.current_frame.is_none());
    assert_eq!(v.user_event(frame(1, 1)), vec![Effect::RequestRedraw]);
    assert!(v.current_frame.is_some());
}

#[test]
fn redraw_goes_step_by_step() {
    let mut v = viewer();
    assert_eq!(v.begin_redraw(true), RedrawStep::Nothing);
    v.user_event(frame(2, 2));
    assert_eq!(v.begin_redraw(false), RedrawStep::Nothing);
    assert_eq!(v.begin_redraw(true), RedrawStep::Resize { width: 800, height: 600 });
    assert_eq!(v.surface_resized(false), RedrawStep::Nothing);
    assert_eq!(v.surface_resized(true), RedrawStep::Paint);
    assert_eq!(v.begin_redraw(true), RedrawStep::Paint);
    v.window_event(WindowEvent::Resized { width: 800, height: 600 }, HERE);
    assert_eq!(v.begin_redraw(true), RedrawStep::Resize { width: 800, height: 600 });
}

#[test]
fn small_picture_is_shown_in_the_middle() {
    let mut v = ViewerApp::new(true, false);
    v.window_made(5, 4);
    v.user_event(frame(2, 2));
    v.fit_scroll();
    let mut buf = vec![9u32; 20];
    v.paint(&mut buf);
    let mut want = vec![0u32; 20];
    want[6] = 1;
    want[7] = 2;
    want[11] = 3;
    want[12] = 4;
    assert_eq!(buf, want);
}

#[test]
fn large_picture_is_scrolled() {
    let mut v = ViewerApp::new(true, false);
    v.window_made(2, 3);
    v.user_event(frame(2, 5));
    v.state.scroll_y = 99;
    v.fit_scroll();
    assert_eq!(v.state.scroll_y, 2);
    let mut buf = vec![0u32; 6];
    v.paint(&mut buf);
    assert_eq!(buf, vec![0xAAAAAA; 6]);
}

#[test]
fn picture_is_copied_with_offset_and_scroll() {
    let src: Vec<u32> = (1..=12).collect();
    let mut dst = vec![99u32; 7];
    blit_frame(&src, 4, 3, &mut dst, 3, 2, 2, 1, 0, 0);
    assert_eq!(dst, vec![7, 8, 0, 11, 12, 0, 99]);
    let mut same = vec![5u32; 4];
    blit_frame(&[], 0, 3, &mut same, 2, 2, 0, 0, 0, 0);
    assert_eq!(same, vec![5; 4]);
}

#[test]
fn scroll_bars_show_the_visible_part() {
    let (w, h) = (40u32, 100u32);
    let mut buf = vec![0u32; 4000];
    draw_scrollbars(&mut buf, w, h, 40, 200, 0, 100);
    let column: Vec<u32> = (0..100).map(|y| buf[y * 40 + 39]).collect();
    assert_eq!(column[..50], vec![0x333333; 50][..]);
    assert_eq!(column[50..], vec![0xAAAAAA; 50][..]);
    assert_eq!(buf[32], 0x333333);
    assert_eq!(buf[31], 0);
}

#[test]
fn two_scroll_bars_leave_the_corner() {
    let mut buf = vec![0u32; 10_000];
    draw_scrollbars(&mut buf, 100, 100, 1000, 1000, 0, 0);
    assert_eq!(buf[95 * 100 + 95], 0);
    assert_eq!(buf[95 * 100], 0xAAAAAA);
    assert_eq!(buf[95 * 100 + 19], 0xAAAAAA);
    assert_eq!(buf[95 * 100 + 20], 0x333333);
    assert_eq!(buf[95 * 100 + 91], 0x333333);
    assert_eq!(buf[91 * 100 + 99], 0x333333);
}

#[test]
fn border_is_four_wide() {
    let mut buf = vec![1u32; 101];
    draw_control_border(&mut buf, 10, 10);
    for y in 0..10usize {
        for x in 0..10usize {
            let inside = (4..6).contains(&x) && (4..6).contains(&y);
            assert_eq!(buf[y * 10 + x], if inside { 1 } else { 0x22CC22 });
        }
    }
    assert_eq!(buf[100], 1);
    let mut thin = vec![1u32; 3];
    draw_control_border(&mut thin, 3, 1);
    assert_eq!(thin, vec![1; 3]);
}

#[test]
fn border_shows_control() {
    let mut v = ViewerApp::new(false, false);
    v.window_made(30, 30);
    click(&mut v, Button::Left, true);
    assert!(v.state.control_active);
    v.user_event(frame(30, 30));
    let mut buf = vec![0u32; 900];
    v.paint(&mut buf);
    assert_eq!(buf[0], 0x22CC22);
    assert_eq!(buf[15 * 30 + 15], 15 * 30 + 16);
}

#[test]
fn korean_keys_are_sent_under_control() {
    let v = controlled();
    for (key, vk) in [(RawKey::Hangul, 0x15), (RawKey::Hanja, 0x19)] {
        for pressed in [true, false] {
            assert_eq!(
                v.device_event(key, pressed),
                vec![Effect::Send(InputEvent::KeyVk { vk, scan: 0, pressed, extended: false })]
            );
            assert!(viewer().device_event(key, pressed).is_empty());
        }
    }
    assert!(v.device_event(RawKey::Other, true).is_empty());
}
