//! What reaches the remote machine from the viewer's window.

use crate::viewer::display;
use crate::viewer::display::{
    Around, Button, Effect, Held, HookedKey, InputEvent, RawKey, Size, Title, ViewState, WindowEvent,
};
use vstd::prelude::*;

verus! {

/// A place that is twelve pixels away from every side of the window is not at its edge.
pub open spec fn inside(s: ViewState, x: int, y: int) -> bool {
    &&& s.window_size.0 <= i32::MAX
    &&& s.window_size.1 <= i32::MAX
    &&& 12 <= x < s.window_size.0 - 12
    &&& 12 <= y < s.window_size.1 - 12
}

/// The pixel of a picture side that is shown so far from the beginning of the window, or the last
/// one where the picture ends before.
pub open spec fn shown_at(shown: int, place: int, scroll: int, side: int) -> bool {
    &&& place + scroll < side ==> shown == place + scroll
    &&& place + scroll >= side ==> shown == side - 1
}

/// Under control a move of the cursor sends the pixel of the picture that the cursor is on, together
/// with the size of the picture; of the window, before there is a picture.
pub proof fn pointer_is_passed_on(
    s: ViewState,
    frame: Option<Size>,
    x: i32,
    y: i32,
    w: u32,
    h: u32,
    a: Around,
)
    requires
        s.control_active,
        s.has_input,
        !a.injected,
        !s.mouse_global || a.origin is None || !s.has_window,
        inside(s, x as int, y as int),
        frame == Some((w, h)) || (frame is None && s.window_size == (w, h)),
        1 <= w <= i32::MAX,
        1 <= h <= i32::MAX,
    ensures
        ({
            let e = WindowEvent::CursorMoved { x, y };
            let es = s.effects(frame, e, a);
            &&& es.len() == 2
            &&& es[0] matches Effect::Send(InputEvent::MouseMove { x: px, y: py, win_w, win_h })
            &&& shown_at(px as int, x as int, s.scroll_x as int, w as int)
            &&& shown_at(py as int, y as int, s.scroll_y as int, h as int)
            &&& win_w == w
            &&& win_h == h
            &&& es[1] == Effect::MirrorCursor
            &&& s.after(frame, e, a) == (ViewState {
                last_cursor: Some((x, y)),
                at_edge: false,
                ..s
            })
        }),
{
}

/// The pointer that is sent is the pixel of the picture nearest to the cursor, wherever the cursor is.
pub proof fn nearest_pixel_is_sent(
    s: ViewState,
    frame: Option<Size>,
    a: Around,
    x: int,
    y: int,
    w: u32,
    h: u32,
)
    requires
        s.has_input,
        !s.mouse_global || a.origin is None || !s.has_window,
        frame == Some((w, h)) || (frame is None && s.window_size == (w, h)),
        1 <= w <= i32::MAX,
        1 <= h <= i32::MAX,
    ensures
        ({
            let es = s.pointer_move(frame, a, x, y);
            let (fx, fy) = (x + s.scroll_x, y + s.scroll_y);
            &&& es.len() == 1
            &&& es[0] matches Effect::Send(InputEvent::MouseMove { x: px, y: py, win_w, win_h })
            &&& win_w == w && win_h == h
            &&& 0 <= px < w && 0 <= py < h
            &&& fx <= 0 ==> px == 0
            &&& 0 <= fx < w ==> px == fx
            &&& fx >= w ==> px == w - 1
            &&& fy <= 0 ==> py == 0
            &&& 0 <= fy < h ==> py == fy
            &&& fy >= h ==> py == h - 1
        }),
{
}

/// A pointer that is sent by its place on the virtual screen stands as far from the window's corner
/// as the cursor.
pub proof fn global_pointer_is_passed_on(
    s: ViewState,
    frame: Option<Size>,
    x: i32,
    y: i32,
    left: i32,
    top: i32,
)
    requires
        s.control_active,
        s.has_input,
        s.has_window,
        s.mouse_global,
        inside(s, x as int, y as int),
        i32::MIN <= left + x <= i32::MAX,
        i32::MIN <= top + y <= i32::MAX,
    ensures
        ({
            let a = Around { injected: false, origin: Some((left, top)) };
            let es = s.effects(frame, WindowEvent::CursorMoved { x, y }, a);
            &&& es.len() == 2
            &&& es[0] matches Effect::Send(InputEvent::MouseMoveGlobal { gx, gy })
            &&& gx - left == x
            &&& gy - top == y
            &&& es[1] == Effect::MirrorCursor
        }),
{
}

/// At the edge of the window a move of the cursor sends nothing, and the left button drags the edge,
/// from where the cursor is on the virtual screen.
pub proof fn edge_is_dragged(s: ViewState, frame: Option<Size>, x: i32, y: i32, left: i32, top: i32)
    requires
        s.control_active,
        s.has_window,
        s.window_size.0 <= i32::MAX,
        s.window_size.1 <= i32::MAX,
        !inside(s, x as int, y as int),
        i32::MIN <= left + x <= i32::MAX,
        i32::MIN <= top + y <= i32::MAX,
    ensures
        ({
            let a = Around { injected: false, origin: Some((left, top)) };
            let e = WindowEvent::CursorMoved { x, y };
            let there = s.after(frame, e, a);
            let es = there.effects(
                frame,
                WindowEvent::MouseInput { button: Button::Left, pressed: true },
                a,
            );
            &&& s.effects(frame, e, a) == seq![Effect::MirrorCursor]
            &&& there == (ViewState { last_cursor: Some((x, y)), at_edge: true, ..s })
            &&& there.after(
                frame,
                WindowEvent::MouseInput { button: Button::Left, pressed: true },
                a,
            ) == (ViewState { entry_click: false, ..there })
            &&& es.len() == 1
            &&& es[0] matches Effect::DragEdge { part, x: gx, y: gy }
            &&& display::edge_part(
                x as int,
                y as int,
                s.window_size.0 as int,
                s.window_size.1 as int,
            ) == Some(part)
            &&& gx - left == x
            &&& gy - top == y
        }),
{
}

/// The parts of the edge have the hit-test numbers of the system: 10 left, 11 right, 12 top, 13 and
/// 14 the upper corners, 15 bottom, 16 and 17 the lower corners. The edge is twelve pixels wide.
pub proof fn edge_has_eight_parts(x: int, y: int, w: int, h: int)
    requires
        24 <= w <= i32::MAX,
        24 <= h <= i32::MAX,
    ensures
        ({
            let part = display::edge_part(x, y, w, h);
            &&& x < 12 && 12 <= y < h - 12 <==> part == Some(10usize)
            &&& x >= w - 12 && 12 <= y < h - 12 <==> part == Some(11usize)
            &&& y < 12 && 12 <= x < w - 12 <==> part == Some(12usize)
            &&& y < 12 && x < 12 <==> part == Some(13usize)
            &&& y < 12 && x >= w - 12 <==> part == Some(14usize)
            &&& y >= h - 12 && 12 <= x < w - 12 <==> part == Some(15usize)
            &&& y >= h - 12 && x < 12 <==> part == Some(16usize)
            &&& y >= h - 12 && x >= w - 12 <==> part == Some(17usize)
            &&& 12 <= x < w - 12 && 12 <= y < h - 12 <==> part is None
        }),
{
}

/// Under control, away from the edge, the left, right and middle buttons are sent as 0, 2 and 4, and
/// the viewer remembers which of them are down. No other button is sent.
pub proof fn buttons_are_passed_on(s: ViewState, frame: Option<Size>, pressed: bool, a: Around)
    requires
        s.control_active,
        s.has_input,
        !s.at_edge,
        !s.entry_click || pressed,
        !a.injected,
    ensures
        ({
            let left = WindowEvent::MouseInput { button: Button::Left, pressed };
            let right = WindowEvent::MouseInput { button: Button::Right, pressed };
            let middle = WindowEvent::MouseInput { button: Button::Middle, pressed };
            let other = WindowEvent::MouseInput { button: Button::Other, pressed };
            &&& s.effects(frame, left, a) == seq![
                Effect::Send(InputEvent::MouseButton { button: 0, pressed }),
            ]
            &&& s.effects(frame, right, a) == seq![
                Effect::Send(InputEvent::MouseButton { button: 2, pressed }),
            ]
            &&& s.effects(frame, middle, a) == seq![
                Effect::Send(InputEvent::MouseButton { button: 4, pressed }),
            ]
            &&& s.effects(frame, other, a).len() == 0
            &&& s.after(frame, left, a) == (ViewState {
                held: Held { left: pressed, ..s.held },
                entry_click: false,
                ..s
            })
            &&& s.after(frame, right, a) == (ViewState {
                held: Held { right: pressed, ..s.held },
                ..s
            })
            &&& s.after(frame, middle, a) == (ViewState {
                held: Held { middle: pressed, ..s.held },
                ..s
            })
            &&& s.after(frame, other, a) == s
        }),
{
}

/// The release that ends the click by which the control was taken is kept back, once.
pub proof fn entry_click_is_kept_back(s: ViewState, frame: Option<Size>, a: Around)
    requires
        s.control_active,
        s.entry_click,
        !a.injected,
    ensures
        ({
            let up = WindowEvent::MouseInput { button: Button::Left, pressed: false };
            &&& s.effects(frame, up, a).len() == 0
            &&& s.after(frame, up, a) == (ViewState { entry_click: false, ..s })
        }),
{
}

/// Under control a turn of the wheel is sent as it is, where it is a number of sixteen bits, and else
/// by its low sixteen bits; and the picture stays where it is.
pub proof fn wheel_is_passed_on(s: ViewState, frame: Option<Size>, dx: i32, dy: i32, a: Around)
    requires
        s.control_active,
        s.has_input,
        !a.injected,
    ensures
        ({
            let e = WindowEvent::MouseWheel { dx, dy };
            let es = s.effects(frame, e, a);
            &&& es.len() == 1
            &&& es[0] matches Effect::Send(InputEvent::Scroll { dx: right, dy: up })
            &&& -0x8000 <= dx < 0x8000 ==> right == dx
            &&& -0x8000 <= dy < 0x8000 ==> up == dy
            &&& (dx - right) % 0x1_0000 == 0
            &&& (dy - up) % 0x1_0000 == 0
            &&& s.after(frame, e, a) == s
        }),
{
}

/// The picture after a turn of the wheel: eighty pixels against the turn, as far as the picture goes
/// beyond the window.
pub open spec fn panned(before: int, after: int, turn: int, frame: int, win: int) -> bool {
    let end = if frame > win {
        frame - win
    } else {
        0
    };
    &&& turn > 0 ==> after == before - 80 || (after == 0 && before < 80) || (after == end && before
        - 80 > end)
    &&& turn < 0 ==> after == before + 80 || (after == end && before + 80 > end)
    &&& turn == 0 ==> after == before || (after == end && before > end)
    &&& 0 <= after <= end
}

/// Without control a turn of the wheel moves the picture in the window. Before there is a picture
/// nothing is scrolled.
pub proof fn wheel_moves_the_picture(
    s: ViewState,
    w: u32,
    h: u32,
    dx: i32,
    dy: i32,
    a: Around,
)
    requires
        !s.control_active,
        s.has_window,
        !a.injected,
    ensures
        ({
            let e = WindowEvent::MouseWheel { dx, dy };
            let t = s.after(Some((w, h)), e, a);
            &&& s.effects(Some((w, h)), e, a) == seq![Effect::RequestRedraw]
            &&& panned(
                s.scroll_x as int,
                t.scroll_x as int,
                dx as int,
                w as int,
                s.window_size.0 as int,
            )
            &&& panned(
                s.scroll_y as int,
                t.scroll_y as int,
                dy as int,
                h as int,
                s.window_size.1 as int,
            )
            &&& t == (ViewState { scroll_x: t.scroll_x, scroll_y: t.scroll_y, ..s })
        }),
        s.after(None, WindowEvent::MouseWheel { dx, dy }, a) == (ViewState {
            scroll_x: 0,
            scroll_y: 0,
            ..s
        }),
{
}

/// Under control every key is sent by its code when it goes down and when it comes up. The two that
/// the viewer keeps are F11, key 169, and the press of Escape, key 114.
pub proof fn keys_are_passed_on(s: ViewState, frame: Option<Size>, code: u32, pressed: bool, a: Around)
    requires
        s.control_active,
        s.has_input,
        !a.injected,
        code != 169,
        code != 114 || !pressed,
    ensures
        s.effects(frame, WindowEvent::Key { code, pressed }, a) == seq![
            Effect::Send(InputEvent::KeyPress { key: code, pressed }),
        ],
        s.after(frame, WindowEvent::Key { code, pressed }, a) == s,
{
}

/// F11 switches between the window and the full screen, and Escape leaves the control.
pub proof fn viewer_keeps_two_keys(s: ViewState, frame: Option<Size>, a: Around)
    requires
        s.has_window,
        !a.injected,
    ensures
        s.effects(frame, WindowEvent::Key { code: 169, pressed: true }, a) == seq![
            Effect::ToggleFullscreen,
        ],
        s.effects(frame, WindowEvent::Key { code: 169, pressed: false }, a).len() == 0,
        s.after(frame, WindowEvent::Key { code: 169, pressed: true }, a) == s,
        s.control_active ==> !s.after(
            frame,
            WindowEvent::Key { code: 114, pressed: true },
            a,
        ).control_active,
{
}

/// The key hook takes every key from the local programs but Escape, virtual key 0x1B, F11, virtual
/// key 0x7A, and those with the mark of an agent; and it sends the virtual key with its scan code,
/// its extended bit, and whether it goes down, as the messages 0x100 and 0x104 tell. Of the scan code
/// the low sixteen bits are sent.
pub proof fn hooked_keys_are_passed_on(code: i32, message: usize, key: HookedKey)
    ensures
        display::hook_takes(code, key) <==> code == 0 && key.extra != 0x5DEC_0001usize && key.vk
            != 0x1B && key.vk != 0x7A,
        ({
            &&& display::hooked_input(message, key) matches InputEvent::KeyVk {
                vk,
                scan,
                pressed,
                extended,
            }
            &&& vk == key.vk
            &&& scan == key.scan % 0x1_0000
            &&& pressed <==> message == 0x100 || message == 0x104
            &&& extended <==> key.flags % 2 == 1
        }),
{
}

/// Under control the keys of Korean input are sent as the virtual keys 0x15 and 0x19; no other key of
/// which the keyboard itself tells is sent.
pub proof fn korean_keys_are_passed_on(s: ViewState, pressed: bool)
    requires
        s.control_active,
        s.has_input,
    ensures
        s.on_raw_key(RawKey::Hangul, pressed) == seq![
            Effect::Send(InputEvent::KeyVk { vk: 0x15, scan: 0, pressed, extended: false }),
        ],
        s.on_raw_key(RawKey::Hanja, pressed) == seq![
            Effect::Send(InputEvent::KeyVk { vk: 0x19, scan: 0, pressed, extended: false }),
        ],
        s.on_raw_key(RawKey::Other, pressed).len() == 0,
{
}

/// The release of a key stands among the effects.
pub open spec fn lets_go_of(es: Seq<Effect>, vk: u32, extended: bool) -> bool {
    exists|i: int|
        0 <= i < es.len() && #[trigger] es[i] == Effect::Send(
            InputEvent::KeyVk { vk, scan: 0, pressed: false, extended },
        )
}

/// The release of a button stands among the effects.
pub open spec fn lets_button_go(es: Seq<Effect>, button: u32) -> bool {
    exists|i: int|
        0 <= i < es.len() && #[trigger] es[i] == Effect::Send(
            InputEvent::MouseButton { button, pressed: false },
        )
}

proof fn lemma_prefix(a: Seq<Effect>, b: Seq<Effect>, vk: u32, extended: bool, button: u32)
    ensures
        lets_go_of(a, vk, extended) ==> lets_go_of(a + b, vk, extended),
        lets_button_go(a, button) ==> lets_button_go(a + b, button),
        lets_button_go(b, button) ==> lets_button_go(a + b, button),
{
    if lets_go_of(a, vk, extended) {
        let i = choose|i: int|
            0 <= i < a.len() && #[trigger] a[i] == Effect::Send(
                InputEvent::KeyVk { vk, scan: 0, pressed: false, extended },
            );
        assert((a + b)[i] == a[i]);
    }
    if lets_button_go(a, button) {
        let i = choose|i: int|
            0 <= i < a.len() && #[trigger] a[i] == Effect::Send(
                InputEvent::MouseButton { button, pressed: false },
            );
        assert((a + b)[i] == a[i]);
    }
    if lets_button_go(b, button) {
        let i = choose|i: int|
            0 <= i < b.len() && #[trigger] b[i] == Effect::Send(
                InputEvent::MouseButton { button, pressed: false },
            );
        assert((a + b)[a.len() + i] == b[i]);
    }
}

/// The keys that change what other keys mean: shift, control, alt and the system key, each left and
/// right, by their virtual keys.
pub open spec fn modifiers_let_go(es: Seq<Effect>) -> bool {
    &&& lets_go_of(es, 0xA0, false)
    &&& lets_go_of(es, 0xA1, false)
    &&& lets_go_of(es, 0xA2, false)
    &&& lets_go_of(es, 0xA3, true)
    &&& lets_go_of(es, 0xA4, false)
    &&& lets_go_of(es, 0xA5, true)
    &&& lets_go_of(es, 0x5B, true)
    &&& lets_go_of(es, 0x5C, true)
}

proof fn lemma_release(s: ViewState)
    requires
        s.has_input,
    ensures
        modifiers_let_go(s.release_all()),
        s.held.left ==> lets_button_go(s.release_all(), 0),
        s.held.right ==> lets_button_go(s.release_all(), 2),
        s.held.middle ==> lets_button_go(s.release_all(), 4),
{
    let m = display::modifiers_up();
    let es = s.release_all();
    assert forall|i: int| 0 <= i < m.len() implies es[i] == m[i] by {}
    assert(es[0] == m[0] && es[1] == m[1] && es[2] == m[2] && es[3] == m[3]);
    assert(es[4] == m[4] && es[5] == m[5] && es[6] == m[6] && es[7] == m[7]);
    if s.held.left {
        assert(es[8] == Effect::Send(InputEvent::MouseButton { button: 0, pressed: false }));
    }
    let r: int = if s.held.left {
        9
    } else {
        8
    };
    if s.held.right {
        assert(es[r] == Effect::Send(InputEvent::MouseButton { button: 2, pressed: false }));
    }
    if s.held.middle {
        assert(es[es.len() - 1] == Effect::Send(
            InputEvent::MouseButton { button: 4, pressed: false },
        ));
    }
}

/// A click into the window takes the control: every key that could be stuck and every button that is
/// down is let go of, the cursor is confined to the window and shown, the title tells of the control,
/// and the key hook is installed; then the pointer is sent.
pub proof fn click_takes_control(s: ViewState, frame: Option<Size>, a: Around)
    requires
        !s.control_active,
        s.has_window,
        s.has_input,
        !a.injected,
    ensures
        ({
            let e = WindowEvent::MouseInput { button: Button::Left, pressed: true };
            let es = s.effects(frame, e, a);
            let t = s.after(frame, e, a);
            &&& modifiers_let_go(es)
            &&& s.held.left ==> lets_button_go(es, 0)
            &&& s.held.right ==> lets_button_go(es, 2)
            &&& s.held.middle ==> lets_button_go(es, 4)
            &&& es.contains(Effect::ConfineCursor)
            &&& es.contains(Effect::ShowCursor)
            &&& es.contains(Effect::MirrorCursor)
            &&& es.contains(Effect::SetTitle(Title::Controlling))
            &&& es.contains(Effect::InstallKeyHook)
            &&& s.last_cursor matches Some((x, y)) ==> es.last() == s.pointer_move(
                frame,
                a,
                x as int,
                y as int,
            ).last() && s.pointer_move(frame, a, x as int, y as int).len() == 1
            &&& t == (ViewState {
                control_active: true,
                entry_click: true,
                at_edge: false,
                held: Held { left: false, right: false, middle: false },
                ..s
            })
        }),
{
    let e = WindowEvent::MouseInput { button: Button::Left, pressed: true };
    let es = s.effects(frame, e, a);
    let rel = s.release_all();
    let mid = seq![
        Effect::ConfineCursor,
        Effect::ShowCursor,
        Effect::MirrorCursor,
        Effect::SetTitle(Title::Controlling),
        Effect::InstallKeyHook,
    ];
    let n: int = rel.len() as int;
    let rest = es.subrange(n, es.len() as int);
    assert(es == rel + rest);
    lemma_release(s);
    lemma_tail(rel, rest);
    assert(es[n] == mid[0]);
    assert(es[n + 1] == mid[1]);
    assert(es[n + 2] == mid[2]);
    assert(es[n + 3] == mid[3]);
    assert(es[n + 4] == mid[4]);
}

proof fn lemma_tail(a: Seq<Effect>, b: Seq<Effect>)
    ensures
        modifiers_let_go(a) ==> modifiers_let_go(a + b),
        lets_button_go(a, 0) ==> lets_button_go(a + b, 0),
        lets_button_go(a, 2) ==> lets_button_go(a + b, 2),
        lets_button_go(a, 4) ==> lets_button_go(a + b, 4),
{
    lemma_prefix(a, b, 0xA0, false, 0);
    lemma_prefix(a, b, 0xA1, false, 2);
    lemma_prefix(a, b, 0xA2, false, 4);
    lemma_prefix(a, b, 0xA3, true, 0);
    lemma_prefix(a, b, 0xA4, false, 0);
    lemma_prefix(a, b, 0xA5, true, 0);
    lemma_prefix(a, b, 0x5B, true, 0);
    lemma_prefix(a, b, 0x5C, true, 0);
}

/// Escape gives the control back, and so does closing the window: every key that could be stuck and
/// every button that is down is let go of, the key hook is removed, the cursor is freed and gets its
/// own shape back, the title asks for a click, and the window is drawn anew.
pub proof fn control_is_given_back(s: ViewState, frame: Option<Size>, e: WindowEvent, a: Around)
    requires
        s.control_active,
        s.has_window,
        s.has_input,
        !a.injected,
        e == (WindowEvent::Key { code: 114, pressed: true }) || e is CloseRequested,
    ensures
        ({
            let es = s.effects(frame, e, a);
            let t = s.after(frame, e, a);
            &&& modifiers_let_go(es)
            &&& s.held.left ==> lets_button_go(es, 0)
            &&& s.held.right ==> lets_button_go(es, 2)
            &&& s.held.middle ==> lets_button_go(es, 4)
            &&& es.contains(Effect::RemoveKeyHook)
            &&& es.contains(Effect::FreeCursor)
            &&& es.contains(Effect::DefaultCursor)
            &&& es.contains(Effect::SetTitle(Title::ClickToControl))
            &&& es.contains(Effect::RequestRedraw)
            &&& e is CloseRequested <==> es.last() == Effect::Exit
            &&& t == (ViewState {
                control_active: false,
                entry_click: false,
                at_edge: false,
                held: Held { left: false, right: false, middle: false },
                ..s
            })
        }),
{
    let es = s.effects(frame, e, a);
    let rel = s.release_all();
    let mid = seq![
        Effect::RemoveKeyHook,
        Effect::FreeCursor,
        Effect::DefaultCursor,
        Effect::SetTitle(Title::ClickToControl),
        Effect::RequestRedraw,
    ];
    let n: int = rel.len() as int;
    let rest = es.subrange(n, es.len() as int);
    assert(es == rel + rest);
    lemma_release(s);
    lemma_tail(rel, rest);
    assert(es[n] == mid[0]);
    assert(es[n + 1] == mid[1]);
    assert(es[n + 2] == mid[2]);
    assert(es[n + 3] == mid[3]);
    assert(es[n + 4] == mid[4]);
}

/// Closing the window without control ends the viewer, and does nothing else.
pub proof fn closing_ends_the_viewer(s: ViewState, frame: Option<Size>, a: Around)
    requires
        !s.control_active,
    ensures
        s.effects(frame, WindowEvent::CloseRequested, a) == seq![Effect::Exit],
        s.after(frame, WindowEvent::CloseRequested, a) == s,
{
}

/// Another size of the window is taken note of, with at least one pixel a side; the surface has to
/// get it anew, the window is drawn anew, and under control the cursor is confined anew.
pub proof fn window_size_is_followed(
    s: ViewState,
    frame: Option<Size>,
    width: u32,
    height: u32,
    a: Around,
)
    requires
        s.has_window,
    ensures
        ({
            let e = WindowEvent::Resized { width, height };
            let t = s.after(frame, e, a);
            &&& width > 0 ==> t.window_size.0 == width
            &&& width == 0 ==> t.window_size.0 == 1
            &&& height > 0 ==> t.window_size.1 == height
            &&& height == 0 ==> t.window_size.1 == 1
            &&& t.surface_size != t.window_size
            &&& t.at_edge <==> s.at_edge && !s.control_active
            &&& t == (ViewState {
                window_size: t.window_size,
                surface_size: t.surface_size,
                at_edge: t.at_edge,
                ..s
            })
            &&& s.control_active ==> s.effects(frame, e, a) == seq![
                Effect::ConfineCursor,
                Effect::RequestRedraw,
            ]
            &&& !s.control_active ==> s.effects(frame, e, a) == seq![Effect::RequestRedraw]
        }),
{
}

/// Every event of a window of a usual size is taken: one no side of which, and no place or picture in
/// which, goes beyond sixteen million.
pub proof fn usual_events_are_taken(s: ViewState, frame: Option<Size>, e: WindowEvent, a: Around)
    requires
        s.wf(),
        s.window_size.0 <= 0x100_0000,
        s.window_size.1 <= 0x100_0000,
        s.scroll_x <= 0x100_0000,
        s.scroll_y <= 0x100_0000,
        frame matches Some((w, h)) ==> 1 <= w <= 0x100_0000 && 1 <= h <= 0x100_0000,
        a.origin matches Some((x, y)) ==> -0x100_0000 <= x <= 0x100_0000 && -0x100_0000 <= y
            <= 0x100_0000,
        s.last_cursor matches Some((x, y)) ==> -0x100_0000 <= x <= 0x100_0000 && -0x100_0000 <= y
            <= 0x100_0000,
        e matches WindowEvent::CursorMoved { x, y } ==> -0x100_0000 <= x <= 0x100_0000
            && -0x100_0000 <= y <= 0x100_0000,
    ensures
        s.admits(frame, e, a),
{
}

/// The cursors of the system by their numbers: the arrow, the text bar, the four double arrows, the
/// four-way arrow, the hand, the hourglass and the crossed circle.
pub proof fn cursors_are_those_of_the_system(ty: u8)
    ensures
        display::idc_of(1) == 32513,
        display::idc_of(2) == 32644,
        display::idc_of(3) == 32645,
        display::idc_of(4) == 32642,
        display::idc_of(5) == 32643,
        display::idc_of(6) == 32646,
        display::idc_of(7) == 32649,
        display::idc_of(8) == 32514,
        display::idc_of(9) == 32648,
        ty == 0 || ty > 9 <==> display::idc_of(ty) == 32512,
{
}

/// Where the system does not tell where the window stands, a drag of its edge starts at the cursor's
/// place in the window.
pub proof fn edge_is_dragged_without_a_corner(s: ViewState, frame: Option<Size>, x: i32, y: i32)
    requires
        s.control_active,
        s.has_window,
        s.at_edge,
        s.last_cursor == Some((x, y)),
        s.window_size.0 <= i32::MAX,
        s.window_size.1 <= i32::MAX,
        !inside(s, x as int, y as int),
    ensures
        ({
            let a = Around { injected: false, origin: None };
            let es = s.effects(
                frame,
                WindowEvent::MouseInput { button: Button::Left, pressed: true },
                a,
            );
            &&& es.len() == 1
            &&& es[0] matches Effect::DragEdge { part, x: gx, y: gy }
            &&& gx == x
            &&& gy == y
        }),
{
}

/// Without control a move of the cursor is only remembered, and no key or button does anything, but
/// for F11 and the press of the left button.
pub proof fn window_is_at_rest_without_control(
    s: ViewState,
    frame: Option<Size>,
    x: i32,
    y: i32,
    button: Button,
    pressed: bool,
    code: u32,
    a: Around,
)
    requires
        !s.control_active,
        !a.injected,
    ensures
        s.effects(frame, WindowEvent::CursorMoved { x, y }, a).len() == 0,
        s.after(frame, WindowEvent::CursorMoved { x, y }, a) == (ViewState {
            last_cursor: Some((x, y)),
            ..s
        }),
        button != Button::Left || !pressed ==> {
            &&& s.effects(frame, WindowEvent::MouseInput { button, pressed }, a).len() == 0
            &&& s.after(frame, WindowEvent::MouseInput { button, pressed }, a) == s
        },
        code != 169 ==> s.effects(frame, WindowEvent::Key { code, pressed }, a).len() == 0,
        s.after(frame, WindowEvent::Key { code, pressed }, a) == s,
{
}

/// Where there is no agent to send inputs to, nothing is sent, whatever happens.
pub proof fn nothing_is_sent_without_an_agent(
    s: ViewState,
    frame: Option<Size>,
    e: WindowEvent,
    a: Around,
    key: RawKey,
    pressed: bool,
    i: int,
)
    requires
        !s.has_input,
        0 <= i < s.effects(frame, e, a).len(),
    ensures
        !(s.effects(frame, e, a)[i] is Send),
        s.on_raw_key(key, pressed).len() == 0,
{
}

/// Where there is no window, a click takes no control and does nothing.
pub proof fn no_control_without_a_window(s: ViewState, frame: Option<Size>, a: Around)
    requires
        !s.control_active,
        !s.has_window,
        !a.injected,
    ensures
        ({
            let e = WindowEvent::MouseInput { button: Button::Left, pressed: true };
            &&& s.effects(frame, e, a).len() == 0
            &&& s.after(frame, e, a) == (ViewState { entry_click: false, ..s })
        }),
{
}

} // verus!
