//! What holds of the viewer's window whatever happens to it.

use crate::agent::services::input::INPUT_MARK;
use crate::viewer::display;
use crate::viewer::display::{
    Around, Button, Effect, FrameBuffer, Held, HookedKey, InputEvent, Size, ViewState, WindowEvent,
    KEY_ESCAPE, KEY_F11, VK_ESCAPE, VK_F11,
};
use crate::viewer::render;
use vstd::prelude::*;

verus! {

/// Nothing is sent to the agent.
pub open spec fn quiet(es: Seq<Effect>) -> bool {
    forall|i: int| 0 <= i < es.len() ==> !(#[trigger] es[i] is Send)
}

/// Nothing is sent to the agent but the release of keys and buttons.
pub open spec fn only_releases(es: Seq<Effect>) -> bool {
    forall|i: int|
        0 <= i < es.len() ==> match #[trigger] es[i] {
            Effect::Send(InputEvent::KeyVk { pressed, .. }) => !pressed,
            Effect::Send(InputEvent::MouseButton { pressed, .. }) => !pressed,
            Effect::Send(_) => false,
            _ => true,
        }
}

/// Without control nothing is sent: an event sends something only where the remote machine is
/// controlled before it or after it.
pub proof fn nothing_is_sent_without_control(
    s: ViewState,
    frame: Option<Size>,
    e: WindowEvent,
    a: Around,
)
    requires
        !s.control_active,
        !s.after(frame, e, a).control_active,
    ensures
        quiet(s.effects(frame, e, a)),
{
}

/// What an agent on this machine injects comes back to the window without any effect.
pub proof fn injected_input_has_no_effect(
    s: ViewState,
    frame: Option<Size>,
    e: WindowEvent,
    a: Around,
)
    requires
        a.injected,
        e is CursorMoved || e is MouseInput || e is MouseWheel || e is Key,
    ensures
        s.after(frame, e, a) == s,
        s.effects(frame, e, a).len() == 0,
{
}

/// The key hook leaves the keys that an agent injects, Escape and F11 to the local programs.
pub proof fn hook_lets_local_keys_through(code: i32, key: HookedKey)
    requires
        key.extra == INPUT_MARK || key.vk == VK_ESCAPE || key.vk == VK_F11,
    ensures
        !display::hook_takes(code, key),
{
}

/// F11 stays local: it is never sent, and the state stays as it is.
pub proof fn f11_stays_local(s: ViewState, frame: Option<Size>, pressed: bool, a: Around)
    ensures
        quiet(s.effects(frame, (WindowEvent::Key { code: KEY_F11, pressed }), a)),
        s.after(frame, (WindowEvent::Key { code: KEY_F11, pressed }), a) == s,
{
}

/// Escape ends the control and is itself not sent; what is sent lets go of keys and buttons.
pub proof fn escape_ends_control(s: ViewState, frame: Option<Size>, a: Around)
    requires
        s.has_window,
        !a.injected,
    ensures
        ({
            let e = WindowEvent::Key { code: KEY_ESCAPE, pressed: true };
            &&& !s.after(frame, e, a).control_active
            &&& s.control_active ==> only_releases(s.effects(frame, e, a))
        }),
{
    assert(only_releases(s.release_all()));
    assert(only_releases(s.deactivation()));
}

/// Only Escape and the closing of the window end the control.
pub proof fn only_escape_or_closing_ends_control(
    s: ViewState,
    frame: Option<Size>,
    e: WindowEvent,
    a: Around,
)
    requires
        s.control_active,
        !s.after(frame, e, a).control_active,
    ensures
        e == WindowEvent::CloseRequested || e == (WindowEvent::Key {
            code: KEY_ESCAPE,
            pressed: true,
        }),
{
}

/// Only a click with the left button starts the control.
pub proof fn only_a_click_starts_control(
    s: ViewState,
    frame: Option<Size>,
    e: WindowEvent,
    a: Around,
)
    requires
        !s.control_active,
        s.after(frame, e, a).control_active,
    ensures
        e == (WindowEvent::MouseInput { button: Button::Left, pressed: true }),
        !a.injected,
{
}

/// The click that starts the control is not passed on: neither its press, after which only keys
/// and buttons are let go of and the pointer is placed, nor its release.
pub proof fn click_that_starts_control_is_not_passed_on(
    s: ViewState,
    frame: Option<Size>,
    a: Around,
)
    requires
        !s.control_active,
        s.has_window,
        !a.injected,
    ensures
        ({
            let press = WindowEvent::MouseInput { button: Button::Left, pressed: true };
            let release = WindowEvent::MouseInput { button: Button::Left, pressed: false };
            let t = s.after(frame, press, a);
            &&& t.control_active
            &&& forall|i: int|
                0 <= i < s.effects(frame, press, a).len() ==> match #[trigger] s.effects(
                    frame,
                    press,
                    a,
                )[i] {
                    Effect::Send(InputEvent::MouseButton { pressed, .. }) => !pressed,
                    Effect::Send(InputEvent::KeyVk { pressed, .. }) => !pressed,
                    Effect::Send(InputEvent::KeyPress { .. }) => false,
                    Effect::Send(InputEvent::Scroll { .. }) => false,
                    _ => true,
                }
            &&& t.effects(frame, release, a).len() == 0
            &&& !t.after(frame, release, a).entry_click
        }),
{
    assert(only_releases(s.release_all()));
    match s.last_cursor {
        Some((x, y)) => {
            let moved = s.pointer_move(frame, a, x as int, y as int);
            assert(forall|i: int|
                0 <= i < moved.len() ==> (#[trigger] moved[i] matches Effect::Send(input) && (
                input is MouseMove || input is MouseMoveGlobal)));
        },
        None => {},
    }
}

/// At the edge of the window neither the pointer nor a button is passed on.
pub proof fn edge_is_local(s: ViewState, frame: Option<Size>, e: WindowEvent, a: Around)
    requires
        s.control_active,
        e matches WindowEvent::CursorMoved { x, y } && s.edge_at(x as int, y as int) is Some
            || e is MouseInput && s.at_edge,
    ensures
        quiet(s.effects(frame, e, a)),
{
}

/// The buttons that the agent holds down after it received what was sent.
pub open spec fn held_by_agent(h: Held, es: Seq<Effect>) -> Held
    decreases es.len(),
{
    if es.len() == 0 {
        h
    } else {
        let before = held_by_agent(h, es.drop_last());
        match es.last() {
            Effect::Send(InputEvent::MouseButton { button, pressed }) => if button == 0 {
                before.with(Button::Left, pressed)
            } else if button == 2 {
                before.with(Button::Right, pressed)
            } else {
                before.with(Button::Middle, pressed)
            },
            _ => before,
        }
    }
}

proof fn lemma_held_concat(h: Held, a: Seq<Effect>, b: Seq<Effect>)
    ensures
        held_by_agent(h, a + b) == held_by_agent(held_by_agent(h, a), b),
    decreases b.len(),
{
    if b.len() == 0 {
        assert(a + b =~= a);
    } else {
        lemma_held_concat(h, a, b.drop_last());
        assert((a + b).drop_last() =~= a + b.drop_last());
    }
}

/// Effects without a button leave the agent's buttons as they are.
proof fn lemma_held_same(h: Held, es: Seq<Effect>)
    requires
        forall|i: int|
            0 <= i < es.len() ==> !(#[trigger] es[i] matches Effect::Send(input)
                && input is MouseButton),
    ensures
        held_by_agent(h, es) == h,
    decreases es.len(),
{
    if es.len() > 0 {
        assert forall|i: int| 0 <= i < es.drop_last().len() implies !(#[trigger] es.drop_last()[i]
            matches Effect::Send(input) && input is MouseButton) by {
            assert(es.drop_last()[i] == es[i]);
        }
        lemma_held_same(h, es.drop_last());
        assert(!(es[es.len() - 1] matches Effect::Send(input) && input is MouseButton));
    }
}

proof fn lemma_held_one(h: Held, e: Effect)
    ensures
        held_by_agent(h, seq![e]) == match e {
            Effect::Send(InputEvent::MouseButton { button, pressed }) => if button == 0 {
                h.with(Button::Left, pressed)
            } else if button == 2 {
                h.with(Button::Right, pressed)
            } else {
                h.with(Button::Middle, pressed)
            },
            _ => h,
        },
{
    assert(seq![e].drop_last() =~= Seq::<Effect>::empty());
    assert(held_by_agent(h, seq![e].drop_last()) == h);
}

proof fn lemma_button_up(h: Held, held: bool, button: u32)
    ensures
        held_by_agent(h, display::button_up(held, button)) == if held {
            if button == 0 {
                h.with(Button::Left, false)
            } else if button == 2 {
                h.with(Button::Right, false)
            } else {
                h.with(Button::Middle, false)
            }
        } else {
            h
        },
{
    lemma_held_one(h, Effect::Send(InputEvent::MouseButton { button, pressed: false }));
}

proof fn lemma_release_all(s: ViewState)
    ensures
        held_by_agent(s.held, s.release_all()) == s.released().held,
{
    if s.has_input {
        let m = display::modifiers_up();
        let l = display::button_up(s.held.left, 0);
        let r = display::button_up(s.held.right, 2);
        let d = display::button_up(s.held.middle, 4);
        lemma_held_same(s.held, m);
        lemma_held_concat(s.held, m, l);
        lemma_held_concat(s.held, m + l, r);
        lemma_held_concat(s.held, m + l + r, d);
        let h1 = held_by_agent(s.held, m + l);
        let h2 = held_by_agent(s.held, m + l + r);
        lemma_button_up(s.held, s.held.left, 0);
        lemma_button_up(h1, s.held.right, 2);
        lemma_button_up(h2, s.held.middle, 4);
    }
}

/// The viewer knows which buttons the agent holds down: after every event they are those that the
/// agent holds once it received what was sent.
pub proof fn viewer_knows_held_buttons(
    s: ViewState,
    frame: Option<Size>,
    e: WindowEvent,
    a: Around,
)
    ensures
        s.after(frame, e, a).held == held_by_agent(s.held, s.effects(frame, e, a)),
{
    if !ViewState::ignores(e, a) {
        lemma_release_all(s);
        let h = s.released().held;
        let ends = seq![
            Effect::RemoveKeyHook,
            Effect::FreeCursor,
            Effect::DefaultCursor,
            Effect::SetTitle(display::Title::ClickToControl),
            Effect::RequestRedraw,
        ];
        lemma_held_same(h, ends);
        lemma_held_concat(s.held, s.release_all(), ends);
        match e {
            WindowEvent::CloseRequested => {
                lemma_held_one(s.held, Effect::Exit);
                assert(s.deactivation().push(Effect::Exit) =~= s.deactivation() + seq![
                    Effect::Exit,
                ]);
                lemma_held_concat(s.held, s.deactivation(), seq![Effect::Exit]);
                lemma_held_one(s.deactivated().held, Effect::Exit);
            },
            WindowEvent::MouseInput { button, pressed } => {
                if s.starts_control(button, pressed) {
                    if s.has_window {
                        let starts = seq![
                            Effect::ConfineCursor,
                            Effect::ShowCursor,
                            Effect::MirrorCursor,
                            Effect::SetTitle(display::Title::Controlling),
                            Effect::InstallKeyHook,
                        ];
                        let moved = match s.last_cursor {
                            Some((x, y)) => s.pointer_move(frame, a, x as int, y as int),
                            None => seq![],
                        };
                        lemma_held_same(h, starts);
                        lemma_held_same(h, moved);
                        lemma_held_concat(s.held, s.release_all(), starts);
                        lemma_held_concat(s.held, s.release_all() + starts, moved);
                    }
                } else if s.passes_button(button, pressed) && !s.drags_edge(button, pressed) {
                    lemma_held_one(
                        s.held,
                        Effect::Send(
                            InputEvent::MouseButton {
                                button: display::button_number(button)->0,
                                pressed,
                            },
                        ),
                    );
                } else {
                    lemma_held_same(s.held, s.effects(frame, e, a));
                }
            },
            WindowEvent::Key { code, pressed } => {
                if !s.leaves(code, pressed) || code == KEY_F11 {
                    lemma_held_same(s.held, s.effects(frame, e, a));
                }
            },
            _ => {
                lemma_held_same(s.held, s.effects(frame, e, a));
            },
        }
    }
}

/// Control never starts or ends with a button held down by the agent, and each time every modifier
/// key is let go of first.
pub proof fn control_starts_and_ends_clean(
    s: ViewState,
    frame: Option<Size>,
    e: WindowEvent,
    a: Around,
)
    requires
        s.has_input,
        s.control_active != s.after(frame, e, a).control_active,
    ensures
        s.after(frame, e, a).held == Held::none(),
        s.effects(frame, e, a).len() >= display::modifiers_up().len(),
        s.effects(frame, e, a).take(display::modifiers_up().len() as int)
            == display::modifiers_up(),
{
    let m = display::modifiers_up();
    assert(s.release_all().take(m.len() as int) =~= m);
    assert(s.effects(frame, e, a).take(m.len() as int) =~= m);
}

/// The pointer that is sent lies in the picture.
pub proof fn pointer_lies_in_picture(
    s: ViewState,
    frame: Option<Size>,
    a: Around,
    x: int,
    y: int,
    i: int,
)
    requires
        s.can_point(frame, a, x, y),
        0 <= i < s.pointer_move(frame, a, x, y).len(),
    ensures
        s.pointer_move(frame, a, x, y)[i] matches Effect::Send(
            InputEvent::MouseMove { x: px, y: py, win_w, win_h },
        ) ==> 0 <= px < win_w && 0 <= py < win_h,
{
}

/// The wheel never scrolls the picture beyond its end.
pub proof fn wheel_stays_in_picture(s: ViewState, frame: Option<Size>, dx: i32, dy: i32, a: Around)
    requires
        !s.control_active,
        !a.injected,
        s.can_pan(frame, dx as int, dy as int),
    ensures
        ({
            let t = s.after(frame, (WindowEvent::MouseWheel { dx, dy }), a);
            t.scroll_x <= s.room(frame).0 && t.scroll_y <= s.room(frame).1
        }),
{
}

/// A picture that fits stands in the window whole, each pixel once, in the middle of the window.
pub proof fn fitting_picture_is_shown_whole(
    s: ViewState,
    frame: FrameBuffer,
    buf: Seq<u32>,
    x: int,
    y: int,
)
    requires
        frame.wf(),
        !s.control_active,
        s.scroll_x == 0,
        s.scroll_y == 0,
        frame.width <= s.window_size.0,
        frame.height <= s.window_size.1,
        s.window_size.0 * s.window_size.1 <= buf.len(),
        0 <= x < frame.width,
        0 <= y < frame.height,
    ensures
        ({
            let w = s.window_size.0 as int;
            let left = display::margin(frame.width as int, w);
            let top = display::margin(frame.height as int, s.window_size.1 as int);
            display::painted(s, frame, buf)[(top + y) * w + left + x] == frame.pixels@[y
                * frame.width + x]
        }),
{
    let w = s.window_size.0 as int;
    let h = s.window_size.1 as int;
    let left = display::margin(frame.width as int, w);
    let top = display::margin(frame.height as int, h);
    crate::grid::lemma_cell(w, top + y, left + x);
    crate::grid::lemma_cell_bound(w, h, top + y, left + x);
    let k = (top + y) * w + (left + x);
    assert(render::blitted(
        frame.pixels@,
        frame.width as int,
        frame.height as int,
        buf,
        w,
        h,
        0,
        0,
        left,
        top,
    )[k] == frame.pixels@[y * frame.width + x]);
}

} // verus!
