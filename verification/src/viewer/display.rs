//! The viewer's window: what each event does to its state, and what is sent to the agent.
//!
//! A click into the window starts the control of the remote machine; the click itself is not
//! passed on. The cursor is then confined to the window, and a border is shown. Escape ends the
//! control; the loss of the focus does not. F11 toggles full screen and stays local.

use crate::agent::services::input::{INPUT_MARK, VK_HANGUL, VK_HANJA};
use crate::num;
use crate::viewer::render;
use crate::wire;
use vstd::prelude::*;

verus! {

/// A picture, one `0x00RRGGBB` number a pixel.
#[derive(Debug)]
pub struct FrameBuffer {
    pub pixels: Vec<u32>,
    pub width: u32,
    pub height: u32,
}

impl FrameBuffer {
    /// There is a number for each pixel.
    pub open spec fn wf(self) -> bool {
        self.pixels@.len() == self.width * self.height
    }
}

/// An input for the agent.
#[derive(Clone, Copy, Debug, PartialEq, Eq, Structural)]
pub enum InputEvent {
    /// The pointer in the picture, and the size of the picture.
    MouseMove { x: i32, y: i32, win_w: u32, win_h: u32 },
    /// The pointer on the virtual screen.
    MouseMoveGlobal { gx: i32, gy: i32 },
    /// A mouse button: 0 left, 2 right, 4 middle.
    MouseButton { button: u32, pressed: bool },
    /// A physical key.
    KeyPress { key: u32, pressed: bool },
    /// The mouse wheel; one notch is 120.
    Scroll { dx: i16, dy: i16 },
    /// A virtual key.
    KeyVk { vk: u32, scan: u16, pressed: bool, extended: bool },
}

/// What reaches the window from the session.
#[derive(Debug)]
pub enum ViewerEvent {
    Frame(FrameBuffer),
    Close,
}

/// A mouse button.
#[derive(Clone, Copy, Debug, PartialEq, Eq, Structural)]
pub enum Button {
    Left,
    Right,
    Middle,
    Other,
}

/// What happens to the window.
#[derive(Clone, Copy, Debug, PartialEq, Eq, Structural)]
pub enum WindowEvent {
    CloseRequested,
    Resized { width: u32, height: u32 },
    CursorMoved { x: i32, y: i32 },
    MouseInput { button: Button, pressed: bool },
    MouseWheel { dx: i32, dy: i32 },
    Key { code: u32, pressed: bool },
}

/// A key as the keyboard itself tells of it.
#[derive(Clone, Copy, Debug, PartialEq, Eq, Structural)]
pub enum RawKey {
    /// The key that switches between Korean and Latin letters.
    Hangul,
    /// The key that turns Korean words into Chinese characters.
    Hanja,
    Other,
}

/// What is known around an event.
#[derive(Clone, Copy, Debug, PartialEq, Eq)]
pub struct Around {
    /// The event was injected by an agent on this machine.
    pub injected: bool,
    /// Where the inner window stands on the virtual screen, if the system tells.
    pub origin: Option<(i32, i32)>,
}

/// The text in the window's title bar.
#[derive(Clone, Copy, Debug, PartialEq, Eq, Structural)]
pub enum Title {
    /// A click starts the control.
    ClickToControl,
    /// Escape ends the control.
    Controlling,
}

/// What is done because of an event.
#[derive(Clone, Copy, Debug, PartialEq, Eq, Structural)]
pub enum Effect {
    /// Sends an input to the agent.
    Send(InputEvent),
    ConfineCursor,
    FreeCursor,
    ShowCursor,
    /// Gives the cursor the shape that it has on the remote machine.
    MirrorCursor,
    DefaultCursor,
    SetTitle(Title),
    InstallKeyHook,
    RemoveKeyHook,
    RequestRedraw,
    ToggleFullscreen,
    /// Hands a drag of the window's edge to the system: the part of the edge, and the cursor on
    /// the virtual screen.
    DragEdge { part: usize, x: i32, y: i32 },
    Exit,
}

/// The code of the F11 key.
pub const KEY_F11: u32 = 169;

/// The code of the Escape key.
pub const KEY_ESCAPE: u32 = 114;

/// How near to the window's edge the cursor is at the edge.
pub const EDGE: i32 = 12;

/// How far a turn of the wheel moves the picture.
pub const SCROLL_STEP: i32 = 80;

/// The mouse buttons that the agent holds down.
#[derive(Clone, Copy, Debug, PartialEq, Eq, Structural)]
pub struct Held {
    pub left: bool,
    pub right: bool,
    pub middle: bool,
}

impl Held {
    /// No button.
    pub open spec fn none() -> Held {
        Held { left: false, right: false, middle: false }
    }

    /// The buttons after one was pressed or released.
    pub open spec fn with(self, button: Button, pressed: bool) -> Held {
        match button {
            Button::Left => Held { left: pressed, ..self },
            Button::Right => Held { right: pressed, ..self },
            Button::Middle => Held { middle: pressed, ..self },
            Button::Other => self,
        }
    }

    fn change(&mut self, button: Button, pressed: bool)
        ensures
            *final(self) == old(self).with(button, pressed),
    {
        match button {
            Button::Left => {
                self.left = pressed;
            },
            Button::Right => {
                self.right = pressed;
            },
            Button::Middle => {
                self.middle = pressed;
            },
            Button::Other => {},
        }
    }
}

/// The number of a button in a message; none for a button that is not passed on.
pub open spec fn button_number(button: Button) -> Option<u32> {
    match button {
        Button::Left => Some(0),
        Button::Right => Some(2),
        Button::Middle => Some(4),
        Button::Other => None,
    }
}

/// The hit-test number of the part of the window's edge that a position is at. The sides are
/// taken as signed numbers.
pub open spec fn edge_part(x: int, y: int, w: int, h: int) -> Option<usize> {
    let left = x < EDGE;
    let right = x >= wire::signed32(w) - EDGE;
    let top = y < EDGE;
    let bottom = y >= wire::signed32(h) - EDGE;
    if top && left {
        Some(13)
    } else if top && right {
        Some(14)
    } else if bottom && left {
        Some(16)
    } else if bottom && right {
        Some(17)
    } else if top {
        Some(12)
    } else if bottom {
        Some(15)
    } else if left {
        Some(10)
    } else if right {
        Some(11)
    } else {
        None
    }
}

/// The place where the edge of a side begins is an `i32`.
pub open spec fn measurable(side: u32) -> bool {
    wire::signed32(side as int) - EDGE >= i32::MIN
}

fn to_signed(n: u32) -> (v: i32)
    ensures
        v == wire::signed32(n as int),
{
    if n < 0x8000_0000 {
        n as i32
    } else {
        (n as i64 - 0x1_0000_0000) as i32
    }
}

/// Finds the part of the window's edge that a position is at.
pub fn ht_code_for_pos(x: i32, y: i32, win_w: u32, win_h: u32) -> (part: Option<usize>)
    requires
        measurable(win_w),
        measurable(win_h),
    ensures
        part == edge_part(x as int, y as int, win_w as int, win_h as int),
{
    let at_left: bool = x < EDGE;
    let at_right: bool = x >= to_signed(win_w) - EDGE;
    let at_top: bool = y < EDGE;
    let at_bottom: bool = y >= to_signed(win_h) - EDGE;
    match (at_top, at_bottom, at_left, at_right) {
        (true, _, true, _) => Some(13),
        (true, _, _, true) => Some(14),
        (_, true, true, _) => Some(16),
        (_, true, _, true) => Some(17),
        (true, _, _, _) => Some(12),
        (_, true, _, _) => Some(15),
        (_, _, true, _) => Some(10),
        (_, _, _, true) => Some(11),
        _ => None,
    }
}

/// Gives the place of the cursor as a window message carries it: the row above the low sixteen
/// bits, the column in them.
pub fn message_place(x: i32, y: i32) -> (n: i64)
    ensures
        n == y * 0x1_0000 + wire::wrap16(x as int),
{
    let r: i32 = x % 0x1_0000;
    let low: i32 = if r < 0 {
        r + 0x1_0000
    } else {
        r
    };
    y as i64 * 0x1_0000 + low as i64
}

/// The number of the system's cursor of a type; the arrow for an unknown one.
pub open spec fn idc_of(ty: u8) -> usize {
    match ty {
        1 => 32513,
        2 => 32644,
        3 => 32645,
        4 => 32642,
        5 => 32643,
        6 => 32646,
        7 => 32649,
        8 => 32514,
        9 => 32648,
        _ => 32512,
    }
}

/// Gives the number of the system's cursor of a type.
pub fn cursor_type_to_idc(ty: u8) -> (id: usize)
    ensures
        id == idc_of(ty),
{
    match ty {
        1 => 32513,
        2 => 32644,
        3 => 32645,
        4 => 32642,
        5 => 32643,
        6 => 32646,
        7 => 32649,
        8 => 32514,
        9 => 32648,
        _ => 32512,
    }
}

/// The viewer shows the cursor that the agent sees: the type of each cursor that the agent tells
/// apart stands for that cursor.
pub proof fn cursors_agree(i: int)
    requires
        0 <= i < crate::agent::session::known_cursors().len(),
    ensures
        idc_of(crate::agent::session::known_cursors()[i].1)
            == crate::agent::session::known_cursors()[i].0,
{
}

/// Tells whether an input was injected by an agent on this machine, by the mark that it carries.
pub fn is_agent_injected(extra_info: usize) -> (b: bool)
    ensures
        b == (extra_info == INPUT_MARK),
{
    extra_info == INPUT_MARK
}

/// `HC_ACTION`: the key hook is told of a key.
pub const HC_ACTION: i32 = 0;

/// `WM_KEYDOWN`.
pub const WM_KEYDOWN: usize = 0x0100;

/// `WM_SYSKEYDOWN`.
pub const WM_SYSKEYDOWN: usize = 0x0104;

/// `VK_ESCAPE`.
pub const VK_ESCAPE: u32 = 0x1B;

/// `VK_F11`.
pub const VK_F11: u32 = 0x7A;

/// A key as the key hook is told of it.
#[derive(Clone, Copy, Debug, PartialEq, Eq, Structural)]
pub struct HookedKey {
    pub vk: u32,
    pub scan: u32,
    pub flags: u32,
    pub extra: usize,
}

/// The key hook keeps the key from the local programs and sends it to the agent.
pub open spec fn hook_takes(code: i32, key: HookedKey) -> bool {
    code == HC_ACTION && key.extra != INPUT_MARK && key.vk != VK_ESCAPE && key.vk != VK_F11
}

/// The input that the key hook sends.
pub open spec fn hooked_input(message: usize, key: HookedKey) -> InputEvent {
    InputEvent::KeyVk {
        vk: key.vk,
        scan: wire::wrap16(key.scan as int) as u16,
        pressed: message == WM_KEYDOWN || message == WM_SYSKEYDOWN,
        extended: key.flags % 2 == 1,
    }
}

/// Decides what the key hook does with a key: the input to send where it keeps the key from the
/// local programs, or nothing where it lets the key through. Escape, F11 and the keys that an
/// agent injects are let through.
pub fn hook_proc(code: i32, message: usize, key: HookedKey) -> (r: Option<InputEvent>)
    ensures
        r == (if hook_takes(code, key) {
            Some(hooked_input(message, key))
        } else {
            None
        }),
{
    if code == HC_ACTION && key.extra != INPUT_MARK && key.vk != VK_ESCAPE && key.vk != VK_F11 {
        Some(
            InputEvent::KeyVk {
                vk: key.vk,
                scan: (key.scan % 0x1_0000) as u16,
                pressed: message == WM_KEYDOWN || message == WM_SYSKEYDOWN,
                extended: key.flags % 2 == 1,
            },
        )
    } else {
        None
    }
}

/// The nearest number to `v` from 0 to `max`.
pub open spec fn bounded(v: int, max: int) -> int {
    num::clamped(v, 0, max)
}

/// How far the wheel moves the picture: a step against the turn.
pub open spec fn pan_step(turn: int) -> int {
    if turn > 0 {
        SCROLL_STEP as int
    } else if turn < 0 {
        -SCROLL_STEP
    } else {
        0
    }
}

/// How far a picture side can be scrolled in a window side.
pub open spec fn scroll_room(frame: int, win: int) -> int {
    if frame > win {
        frame - win
    } else {
        0
    }
}

/// The release of a modifier key.
pub open spec fn modifier_up(vk: u32, extended: bool) -> Effect {
    Effect::Send(InputEvent::KeyVk { vk, scan: 0, pressed: false, extended })
}

/// The release of every modifier key: shift, control, alt and the system key, left and right.
pub open spec fn modifiers_up() -> Seq<Effect> {
    seq![
        modifier_up(0xA0, false),
        modifier_up(0xA1, false),
        modifier_up(0xA2, false),
        modifier_up(0xA3, true),
        modifier_up(0xA4, false),
        modifier_up(0xA5, true),
        modifier_up(0x5B, true),
        modifier_up(0x5C, true),
    ]
}

/// The release of a button, if it is held.
pub open spec fn button_up(held: bool, button: u32) -> Seq<Effect> {
    if held {
        seq![Effect::Send(InputEvent::MouseButton { button, pressed: false })]
    } else {
        seq![]
    }
}

/// One effect, if it takes place.
pub open spec fn only_if(cond: bool, e: Effect) -> Seq<Effect> {
    if cond {
        seq![e]
    } else {
        seq![]
    }
}

fn push_if(out: &mut Vec<Effect>, cond: bool, e: Effect)
    ensures
        final(out)@ == old(out)@ + only_if(cond, e),
{
    if cond {
        out.push(e);
    }
}

/// The state of the window.
#[derive(Clone, Copy, Debug, PartialEq, Eq)]
pub struct ViewState {
    /// The window is there.
    pub has_window: bool,
    /// There is an agent to send inputs to.
    pub has_input: bool,
    pub window_size: (u32, u32),
    /// The size that was last given to the surface.
    pub surface_size: (u32, u32),
    /// The remote machine is controlled.
    pub control_active: bool,
    /// The click that started the control is not over yet.
    pub entry_click: bool,
    /// Where the cursor was last seen in the window.
    pub last_cursor: Option<(i32, i32)>,
    /// The pointer is sent by its place on the virtual screen.
    pub mouse_global: bool,
    /// The pixel of the picture in the upper left corner of the window.
    pub scroll_x: u32,
    pub scroll_y: u32,
    pub held: Held,
    /// The cursor is at the edge of the window, where inputs are not passed on.
    pub at_edge: bool,
}

/// The size of a picture.
pub type Size = (u32, u32);

impl ViewState {
    /// The window has a size, and the picture is scrolled by signed numbers.
    pub open spec fn wf(self) -> bool {
        &&& 1 <= self.window_size.0
        &&& 1 <= self.window_size.1
        &&& self.scroll_x <= i32::MAX
        &&& self.scroll_y <= i32::MAX
    }

    /// The size that pointer places refer to: that of the picture, or of the window before there
    /// is a picture.
    pub open spec fn picture(self, frame: Option<Size>) -> Size {
        match frame {
            Some(size) => size,
            None => self.window_size,
        }
    }

    /// The pointer is sent by its place on the virtual screen.
    pub open spec fn sends_global(self, a: Around) -> bool {
        self.mouse_global && self.has_window && a.origin is Some
    }

    /// The numbers of a pointer message stay in range.
    pub open spec fn can_point(self, frame: Option<Size>, a: Around, x: int, y: int) -> bool {
        self.has_input ==> if self.sends_global(a) {
            &&& i32::MIN <= ViewState::corner(a).0 + x <= i32::MAX
            &&& i32::MIN <= ViewState::corner(a).1 + y <= i32::MAX
        } else {
            &&& 1 <= self.picture(frame).0 <= i32::MAX
            &&& 1 <= self.picture(frame).1 <= i32::MAX
            &&& x + self.scroll_x <= i32::MAX
            &&& y + self.scroll_y <= i32::MAX
        }
    }

    /// What a move of the pointer sends.
    pub open spec fn pointer_move(self, frame: Option<Size>, a: Around, x: int, y: int) -> Seq<
        Effect,
    > {
        if !self.has_input {
            seq![]
        } else if self.sends_global(a) {
            seq![
                Effect::Send(
                    InputEvent::MouseMoveGlobal {
                        gx: (ViewState::corner(a).0 + x) as i32,
                        gy: (ViewState::corner(a).1 + y) as i32,
                    },
                ),
            ]
        } else {
            let (w, h) = self.picture(frame);
            seq![
                Effect::Send(
                    InputEvent::MouseMove {
                        x: bounded(x + self.scroll_x, w - 1) as i32,
                        y: bounded(y + self.scroll_y, h - 1) as i32,
                        win_w: w,
                        win_h: h,
                    },
                ),
            ]
        }
    }

    /// What lets go of every key and button that the agent may hold down.
    pub open spec fn release_all(self) -> Seq<Effect> {
        if self.has_input {
            modifiers_up() + button_up(self.held.left, 0) + button_up(self.held.right, 2)
                + button_up(self.held.middle, 4)
        } else {
            seq![]
        }
    }

    /// The state once every key and button was let go of.
    pub open spec fn released(self) -> ViewState {
        if self.has_input {
            ViewState { held: Held::none(), ..self }
        } else {
            self
        }
    }

    /// What the start of the control does.
    pub open spec fn activation(self, frame: Option<Size>, a: Around) -> Seq<Effect> {
        if self.has_window {
            self.release_all() + seq![
                Effect::ConfineCursor,
                Effect::ShowCursor,
                Effect::MirrorCursor,
                Effect::SetTitle(Title::Controlling),
                Effect::InstallKeyHook,
            ] + match self.last_cursor {
                Some((x, y)) => self.pointer_move(frame, a, x as int, y as int),
                None => seq![],
            }
        } else {
            seq![]
        }
    }

    /// The state under control.
    pub open spec fn activated(self) -> ViewState {
        if self.has_window {
            ViewState { at_edge: false, control_active: true, ..self.released() }
        } else {
            self
        }
    }

    /// What the end of the control does.
    pub open spec fn deactivation(self) -> Seq<Effect> {
        if self.has_window {
            self.release_all() + seq![
                Effect::RemoveKeyHook,
                Effect::FreeCursor,
                Effect::DefaultCursor,
                Effect::SetTitle(Title::ClickToControl),
                Effect::RequestRedraw,
            ]
        } else {
            seq![]
        }
    }

    /// The state without control.
    pub open spec fn deactivated(self) -> ViewState {
        if self.has_window {
            ViewState {
                at_edge: false,
                control_active: false,
                entry_click: false,
                ..self.released()
            }
        } else {
            self
        }
    }

    /// The part of the window's edge that the cursor is at.
    pub open spec fn edge_at(self, x: int, y: int) -> Option<usize> {
        edge_part(x, y, self.window_size.0 as int, self.window_size.1 as int)
    }

    /// Where the inner window stands, or the origin of the virtual screen.
    pub open spec fn corner(a: Around) -> (i32, i32) {
        match a.origin {
            Some(o) => o,
            None => (0, 0),
        }
    }

    /// The drag of the window's edge that a click there starts.
    pub open spec fn edge_drag(self, a: Around) -> Seq<Effect> {
        match self.last_cursor {
            Some((x, y)) => match self.edge_at(x as int, y as int) {
                Some(part) if self.has_window => seq![
                    Effect::DragEdge {
                        part,
                        x: (ViewState::corner(a).0 + x) as i32,
                        y: (ViewState::corner(a).1 + y) as i32,
                    },
                ],
                _ => seq![],
            },
            None => seq![],
        }
    }

    /// The window's edge can be measured.
    pub open spec fn has_edge(self) -> bool {
        measurable(self.window_size.0) && measurable(self.window_size.1)
    }

    /// A mouse button drags the window's edge.
    pub open spec fn drags_edge(self, button: Button, pressed: bool) -> bool {
        self.control_active && self.at_edge && button == Button::Left && pressed
    }

    /// A mouse button starts the control.
    pub open spec fn starts_control(self, button: Button, pressed: bool) -> bool {
        !self.control_active && button == Button::Left && pressed
    }

    /// A mouse button ends the click that started the control.
    pub open spec fn ends_entry_click(self, button: Button, pressed: bool) -> bool {
        self.control_active && self.entry_click && button == Button::Left && !pressed
    }

    /// A mouse button is passed on.
    pub open spec fn passes_button(self, button: Button, pressed: bool) -> bool {
        self.control_active && !self.ends_entry_click(button, pressed) && !self.at_edge
            && self.has_input && button != Button::Other
    }

    /// What a mouse button does.
    pub open spec fn on_button(self, frame: Option<Size>, a: Around, button: Button, pressed: bool) -> Seq<
        Effect,
    > {
        if self.starts_control(button, pressed) {
            self.activation(frame, a)
        } else if self.drags_edge(button, pressed) {
            self.edge_drag(a)
        } else if self.passes_button(button, pressed) {
            seq![
                Effect::Send(
                    InputEvent::MouseButton { button: button_number(button)->0, pressed },
                ),
            ]
        } else {
            seq![]
        }
    }

    /// The state after a mouse button.
    pub open spec fn after_button(self, button: Button, pressed: bool) -> ViewState {
        if self.starts_control(button, pressed) {
            ViewState { entry_click: self.has_window, ..self.activated() }
        } else {
            ViewState {
                entry_click: self.entry_click && !(self.control_active && button == Button::Left),
                held: if self.passes_button(button, pressed) {
                    self.held.with(button, pressed)
                } else {
                    self.held
                },
                ..self
            }
        }
    }

    /// What the wheel does.
    pub open spec fn on_wheel(self, dx: int, dy: int) -> Seq<Effect> {
        if self.control_active {
            only_if(
                self.has_input,
                Effect::Send(
                    InputEvent::Scroll {
                        dx: wire::signed16(wire::wrap16(dx)) as i16,
                        dy: wire::signed16(wire::wrap16(dy)) as i16,
                    },
                ),
            )
        } else {
            only_if(self.has_window, Effect::RequestRedraw)
        }
    }

    /// How far the picture can be scrolled.
    pub open spec fn room(self, frame: Option<Size>) -> (int, int) {
        match frame {
            Some((w, h)) => (
                scroll_room(w as int, self.window_size.0 as int),
                scroll_room(h as int, self.window_size.1 as int),
            ),
            None => (0, 0),
        }
    }

    /// The picture can be scrolled without a number getting out of range.
    pub open spec fn can_pan(self, frame: Option<Size>, dx: int, dy: int) -> bool {
        &&& self.room(frame).0 <= i32::MAX
        &&& self.room(frame).1 <= i32::MAX
        &&& self.scroll_x - pan_step(dx) <= i32::MAX
        &&& self.scroll_y - pan_step(dy) <= i32::MAX
    }

    /// The state after a turn of the wheel.
    pub open spec fn after_wheel(self, frame: Option<Size>, dx: int, dy: int) -> ViewState {
        if self.control_active {
            self
        } else {
            ViewState {
                scroll_x: bounded(self.scroll_x - pan_step(dx), self.room(frame).0) as u32,
                scroll_y: bounded(self.scroll_y - pan_step(dy), self.room(frame).1) as u32,
                ..self
            }
        }
    }

    /// Escape ends the control.
    pub open spec fn leaves(self, code: u32, pressed: bool) -> bool {
        code == KEY_ESCAPE && pressed && self.control_active
    }

    /// What a key does.
    pub open spec fn on_key(self, code: u32, pressed: bool) -> Seq<Effect> {
        if code == KEY_F11 {
            only_if(pressed && self.has_window, Effect::ToggleFullscreen)
        } else if self.leaves(code, pressed) {
            self.deactivation()
        } else {
            only_if(
                self.control_active && self.has_input,
                Effect::Send(InputEvent::KeyPress { key: code, pressed }),
            )
        }
    }

    /// What a key does of which the keyboard itself tells: those of Korean input are sent as virtual
    /// keys while the remote machine is controlled.
    pub open spec fn on_raw_key(self, key: RawKey, pressed: bool) -> Seq<Effect> {
        let sends = self.control_active && self.has_input;
        match key {
            RawKey::Hangul => only_if(
                sends,
                Effect::Send(
                    InputEvent::KeyVk { vk: VK_HANGUL, scan: 0, pressed, extended: false },
                ),
            ),
            RawKey::Hanja => only_if(
                sends,
                Effect::Send(
                    InputEvent::KeyVk { vk: VK_HANJA, scan: 0, pressed, extended: false },
                ),
            ),
            RawKey::Other => seq![],
        }
    }

    /// The state after a key.
    pub open spec fn after_key(self, code: u32, pressed: bool) -> ViewState {
        if self.leaves(code, pressed) {
            self.deactivated()
        } else {
            self
        }
    }

    /// The state after a move of the cursor.
    pub open spec fn after_move(self, x: i32, y: i32) -> ViewState {
        ViewState {
            last_cursor: Some((x, y)),
            at_edge: if self.control_active {
                self.edge_at(x as int, y as int) is Some
            } else {
                self.at_edge
            },
            ..self
        }
    }

    /// What a move of the cursor does.
    pub open spec fn on_move(self, frame: Option<Size>, a: Around, x: int, y: int) -> Seq<Effect> {
        if !self.control_active {
            seq![]
        } else if self.edge_at(x, y) is Some {
            seq![Effect::MirrorCursor]
        } else {
            self.pointer_move(frame, a, x, y).push(Effect::MirrorCursor)
        }
    }

    /// The state after the window got another size.
    pub open spec fn after_resize(self, width: u32, height: u32) -> ViewState {
        ViewState {
            window_size: (
                if width == 0 {
                    1
                } else {
                    width
                },
                if height == 0 {
                    1
                } else {
                    height
                },
            ),
            surface_size: (0, 0),
            at_edge: self.at_edge && !self.control_active,
            ..self
        }
    }

    /// What another size of the window does.
    pub open spec fn on_resize(self) -> Seq<Effect> {
        only_if(self.control_active && self.has_window, Effect::ConfineCursor) + only_if(
            self.has_window,
            Effect::RequestRedraw,
        )
    }

    /// The event is passed over, because an agent on this machine injected it.
    pub open spec fn ignores(e: WindowEvent, a: Around) -> bool {
        a.injected && (e is CursorMoved || e is MouseInput || e is MouseWheel || e is Key)
    }

    /// No number gets out of range because of the event.
    pub open spec fn admits(self, frame: Option<Size>, e: WindowEvent, a: Around) -> bool {
        ViewState::ignores(e, a) || match e {
            WindowEvent::CursorMoved { x, y } => self.control_active ==> {
                &&& self.has_edge()
                &&& self.edge_at(x as int, y as int) is None ==> self.can_point(
                    frame,
                    a,
                    x as int,
                    y as int,
                )
            },
            WindowEvent::MouseInput { button, pressed } => match self.last_cursor {
                Some((x, y)) => {
                    &&& self.starts_control(button, pressed) && self.has_window ==> self.can_point(
                        frame,
                        a,
                        x as int,
                        y as int,
                    )
                    &&& self.drags_edge(button, pressed) && self.has_window ==> {
                        &&& self.has_edge()
                        &&& self.edge_at(x as int, y as int) is Some ==> {
                            &&& i32::MIN <= ViewState::corner(a).0 + x <= i32::MAX
                            &&& i32::MIN <= ViewState::corner(a).1 + y <= i32::MAX
                        }
                    }
                },
                None => true,
            },
            WindowEvent::MouseWheel { dx, dy } => !self.control_active ==> self.can_pan(
                frame,
                dx as int,
                dy as int,
            ),
            _ => true,
        }
    }

    /// The state after an event.
    pub open spec fn after(self, frame: Option<Size>, e: WindowEvent, a: Around) -> ViewState {
        if ViewState::ignores(e, a) {
            self
        } else {
            match e {
                WindowEvent::CloseRequested => if self.control_active {
                    self.deactivated()
                } else {
                    self
                },
                WindowEvent::Resized { width, height } => self.after_resize(width, height),
                WindowEvent::CursorMoved { x, y } => self.after_move(x, y),
                WindowEvent::MouseInput { button, pressed } => self.after_button(button, pressed),
                WindowEvent::MouseWheel { dx, dy } => self.after_wheel(frame, dx as int, dy as int),
                WindowEvent::Key { code, pressed } => self.after_key(code, pressed),
            }
        }
    }

    /// What an event does.
    pub open spec fn effects(self, frame: Option<Size>, e: WindowEvent, a: Around) -> Seq<Effect> {
        if ViewState::ignores(e, a) {
            seq![]
        } else {
            match e {
                WindowEvent::CloseRequested => if self.control_active {
                    self.deactivation().push(Effect::Exit)
                } else {
                    seq![Effect::Exit]
                },
                WindowEvent::Resized { .. } => self.on_resize(),
                WindowEvent::CursorMoved { x, y } => self.on_move(frame, a, x as int, y as int),
                WindowEvent::MouseInput { button, pressed } => self.on_button(
                    frame,
                    a,
                    button,
                    pressed,
                ),
                WindowEvent::MouseWheel { dx, dy } => self.on_wheel(dx as int, dy as int),
                WindowEvent::Key { code, pressed } => self.on_key(code, pressed),
            }
        }
    }

    /// Makes the state before there is a window.
    pub fn new(has_input: bool, mouse_global: bool) -> (s: ViewState)
        ensures
            s == (ViewState {
                has_window: false,
                has_input,
                window_size: (1280, 720),
                surface_size: (0, 0),
                control_active: false,
                entry_click: false,
                last_cursor: None,
                mouse_global,
                scroll_x: 0,
                scroll_y: 0,
                held: Held::none(),
                at_edge: false,
            }),
            s.wf(),
    {
        ViewState {
            has_window: false,
            has_input,
            window_size: (1280, 720),
            surface_size: (0, 0),
            control_active: false,
            entry_click: false,
            last_cursor: None,
            mouse_global,
            scroll_x: 0,
            scroll_y: 0,
            held: Held { left: false, right: false, middle: false },
            at_edge: false,
        }
    }

    fn send_pointer_move(
        &self,
        frame: Option<Size>,
        a: Around,
        x: i32,
        y: i32,
        out: &mut Vec<Effect>,
    )
        requires
            self.wf(),
            self.can_point(frame, a, x as int, y as int),
        ensures
            final(out)@ == old(out)@ + self.pointer_move(frame, a, x as int, y as int),
    {
        if !self.has_input {
            return ;
        }
        if self.mouse_global && self.has_window {
            if let Some(origin) = a.origin {
                out.push(
                    Effect::Send(
                        InputEvent::MouseMoveGlobal { gx: origin.0 + x, gy: origin.1 + y },
                    ),
                );
                return ;
            }
        }
        let (w, h) = match frame {
            Some(size) => size,
            None => self.window_size,
        };
        let fx: i32 = clamp(x + self.scroll_x as i32, w as i32 - 1);
        let fy: i32 = clamp(y + self.scroll_y as i32, h as i32 - 1);
        out.push(Effect::Send(InputEvent::MouseMove { x: fx, y: fy, win_w: w, win_h: h }));
    }

    fn release_all_inputs(&mut self, out: &mut Vec<Effect>)
        ensures
            *final(self) == old(self).released(),
            final(out)@ == old(out)@ + old(self).release_all(),
    {
        if !self.has_input {
            return ;
        }
        let ghost start = out@;
        push_modifier_up(out, 0xA0, false);
        push_modifier_up(out, 0xA1, false);
        push_modifier_up(out, 0xA2, false);
        push_modifier_up(out, 0xA3, true);
        push_modifier_up(out, 0xA4, false);
        push_modifier_up(out, 0xA5, true);
        push_modifier_up(out, 0x5B, true);
        push_modifier_up(out, 0x5C, true);
        assert(out@ =~= start + modifiers_up());
        push_button_up(out, self.held.left, 0);
        push_button_up(out, self.held.right, 2);
        push_button_up(out, self.held.middle, 4);
        assert(out@ =~= start + old(self).release_all());
        self.held = Held { left: false, right: false, middle: false };
    }

    #[verifier::rlimit(30)]
    fn activate_control_mode(&mut self, frame: Option<Size>, a: Around, out: &mut Vec<Effect>)
        requires
            old(self).wf(),
            old(self).has_window ==> match old(self).last_cursor {
                Some((x, y)) => old(self).can_point(frame, a, x as int, y as int),
                None => true,
            },
        ensures
            *final(self) == old(self).activated(),
            final(out)@ == old(out)@ + old(self).activation(frame, a),
    {
        if !self.has_window {
            return ;
        }
        let ghost start = out@;
        self.release_all_inputs(out);
        self.at_edge = false;
        out.push(Effect::ConfineCursor);
        out.push(Effect::ShowCursor);
        out.push(Effect::MirrorCursor);
        out.push(Effect::SetTitle(Title::Controlling));
        self.control_active = true;
        out.push(Effect::InstallKeyHook);
        if let Some((x, y)) = self.last_cursor {
            self.send_pointer_move(frame, a, x, y, out);
        }
        assert(out@ =~= start + old(self).activation(frame, a));
    }

    fn deactivate_control_mode(&mut self, out: &mut Vec<Effect>)
        ensures
            *final(self) == old(self).deactivated(),
            final(out)@ == old(out)@ + old(self).deactivation(),
    {
        if !self.has_window {
            return ;
        }
        let ghost start = out@;
        self.release_all_inputs(out);
        out.push(Effect::RemoveKeyHook);
        out.push(Effect::FreeCursor);
        out.push(Effect::DefaultCursor);
        out.push(Effect::SetTitle(Title::ClickToControl));
        self.control_active = false;
        self.entry_click = false;
        self.at_edge = false;
        out.push(Effect::RequestRedraw);
        assert(out@ =~= start + old(self).deactivation());
    }

    fn mouse_input(
        &mut self,
        frame: Option<Size>,
        a: Around,
        button: Button,
        pressed: bool,
        out: &mut Vec<Effect>,
    )
        requires
            old(self).wf(),
            !a.injected,
            old(self).admits(frame, (WindowEvent::MouseInput { button, pressed }), a),
            old(out)@.len() == 0,
        ensures
            *final(self) == old(self).after_button(button, pressed),
            final(out)@ == old(self).on_button(frame, a, button, pressed),
    {
        if !self.control_active && button == Button::Left && pressed {
            self.activate_control_mode(frame, a, out);
            self.entry_click = self.control_active;
            assert(out@ =~= old(self).on_button(frame, a, button, pressed));
            return ;
        }
        if !self.control_active {
            assert(out@ =~= old(self).on_button(frame, a, button, pressed));
            return ;
        }
        let ends: bool = self.entry_click && button == Button::Left && !pressed;
        if button == Button::Left {
            self.entry_click = false;
        }
        if ends {
            assert(out@ =~= old(self).on_button(frame, a, button, pressed));
            return ;
        }
        if self.at_edge {
            if button == Button::Left && pressed {
                let (win_w, win_h) = self.window_size;
                if let Some((cx, cy)) = self.last_cursor {
                    if self.has_window {
                        if let Some(part) = ht_code_for_pos(cx, cy, win_w, win_h) {
                            let corner: (i32, i32) = match a.origin {
                                Some(o) => o,
                                None => (0, 0),
                            };
                            out.push(
                                Effect::DragEdge { part, x: corner.0 + cx, y: corner.1 + cy },
                            );
                        }
                    }
                }
            }
            assert(out@ =~= old(self).on_button(frame, a, button, pressed));
            return ;
        }
        if self.has_input {
            let number: u32 = match button {
                Button::Left => 0,
                Button::Right => 2,
                Button::Middle => 4,
                Button::Other => {
                    assert(out@ =~= old(self).on_button(frame, a, button, pressed));
                    return ;
                },
            };
            self.held.change(button, pressed);
            out.push(Effect::Send(InputEvent::MouseButton { button: number, pressed }));
        }
        assert(out@ =~= old(self).on_button(frame, a, button, pressed));
    }

    fn mouse_wheel(&mut self, frame: Option<Size>, dx: i32, dy: i32, out: &mut Vec<Effect>)
        requires
            old(self).wf(),
            !old(self).control_active ==> old(self).can_pan(frame, dx as int, dy as int),
        ensures
            *final(self) == old(self).after_wheel(frame, dx as int, dy as int),
            final(out)@ == old(out)@ + old(self).on_wheel(dx as int, dy as int),
            final(self).wf(),
    {
        if self.control_active {
            push_if(
                out,
                self.has_input,
                Effect::Send(InputEvent::Scroll { dx: low_short(dx), dy: low_short(dy) }),
            );
        } else {
            let (room_x, room_y): (u32, u32) = match frame {
                Some((w, h)) => (
                    w.saturating_sub(self.window_size.0),
                    h.saturating_sub(self.window_size.1),
                ),
                None => (0, 0),
            };
            self.scroll_x = clamp(self.scroll_x as i32 - step_of(dx), room_x as i32) as u32;
            self.scroll_y = clamp(self.scroll_y as i32 - step_of(dy), room_y as i32) as u32;
            push_if(out, self.has_window, Effect::RequestRedraw);
        }
    }

    fn keyboard_input(&mut self, code: u32, pressed: bool, out: &mut Vec<Effect>)
        ensures
            *final(self) == old(self).after_key(code, pressed),
            final(out)@ == old(out)@ + old(self).on_key(code, pressed),
    {
        if code == KEY_F11 {
            push_if(out, pressed && self.has_window, Effect::ToggleFullscreen);
        } else if code == KEY_ESCAPE && pressed && self.control_active {
            self.deactivate_control_mode(out);
        } else {
            push_if(
                out,
                self.control_active && self.has_input,
                Effect::Send(InputEvent::KeyPress { key: code, pressed }),
            );
        }
    }

    fn points_in_range(&self, frame: Option<Size>, a: Around, x: i32, y: i32) -> (b: bool)
        requires
            self.wf(),
        ensures
            b == self.can_point(frame, a, x as int, y as int),
    {
        if !self.has_input {
            return true;
        }
        if self.mouse_global && self.has_window {
            if let Some(o) = a.origin {
                return fits(o.0 as i64 + x as i64) && fits(o.1 as i64 + y as i64);
            }
        }
        let (w, h) = match frame {
            Some(size) => size,
            None => self.window_size,
        };
        1 <= w && w <= 0x7FFF_FFFF && 1 <= h && h <= 0x7FFF_FFFF && x as i64 + self.scroll_x as i64
            <= 0x7FFF_FFFF && y as i64 + self.scroll_y as i64 <= 0x7FFF_FFFF
    }

    fn edge_in_range(&self) -> (b: bool)
        ensures
            b == self.has_edge(),
    {
        to_signed(self.window_size.0) >= -0x7FFF_FFF4 && to_signed(self.window_size.1)
            >= -0x7FFF_FFF4
    }

    fn button_in_range(&self, frame: Option<Size>, button: Button, pressed: bool, a: Around) -> (b:
        bool)
        requires
            self.wf(),
            !a.injected,
        ensures
            b == self.admits(frame, (WindowEvent::MouseInput { button, pressed }), a),
    {
        if let Some((x, y)) = self.last_cursor {
            if self.has_window && button == Button::Left && pressed {
                if !self.control_active {
                    return self.points_in_range(frame, a, x, y);
                }
                if self.at_edge {
                    if !self.edge_in_range() {
                        return false;
                    }
                    let corner: (i32, i32) = match a.origin {
                        Some(o) => o,
                        None => (0, 0),
                    };
                    return ht_code_for_pos(x, y, self.window_size.0, self.window_size.1).is_none()
                        || (fits(corner.0 as i64 + x as i64) && fits(corner.1 as i64 + y as i64));
                }
            }
        }
        true
    }

    fn wheel_in_range(&self, frame: Option<Size>, dx: i32, dy: i32) -> (b: bool)
        requires
            self.wf(),
        ensures
            b == self.can_pan(frame, dx as int, dy as int),
    {
        let (room_x, room_y): (u32, u32) = match frame {
            Some((w, h)) => (
                w.saturating_sub(self.window_size.0),
                h.saturating_sub(self.window_size.1),
            ),
            None => (0, 0),
        };
        room_x <= 0x7FFF_FFFF && room_y <= 0x7FFF_FFFF && self.scroll_x as i64 - step_of(dx) as i64
            <= 0x7FFF_FFFF && self.scroll_y as i64 - step_of(dy) as i64 <= 0x7FFF_FFFF
    }

    /// Tells whether no number gets out of range because of the event.
    pub fn takes(&self, frame: Option<Size>, event: WindowEvent, a: Around) -> (b: bool)
        requires
            self.wf(),
        ensures
            b == self.admits(frame, event, a),
    {
        if a.injected {
            return true;
        }
        match event {
            WindowEvent::CursorMoved { x, y } => {
                if !self.control_active {
                    return true;
                }
                if !self.edge_in_range() {
                    return false;
                }
                ht_code_for_pos(x, y, self.window_size.0, self.window_size.1).is_some()
                    || self.points_in_range(frame, a, x, y)
            },
            WindowEvent::MouseInput { button, pressed } => {
                self.button_in_range(frame, button, pressed, a)
            },
            WindowEvent::MouseWheel { dx, dy } => {
                self.control_active || self.wheel_in_range(frame, dx, dy)
            },
            _ => true,
        }
    }

    /// Takes an event of the window and tells what is to be done, in order.
    pub fn window_event(&mut self, frame: Option<Size>, event: WindowEvent, a: Around) -> (out: Vec<
        Effect,
    >)
        requires
            old(self).wf(),
            old(self).admits(frame, event, a),
        ensures
            final(self).wf(),
            *final(self) == old(self).after(frame, event, a),
            out@ == old(self).effects(frame, event, a),
    {
        let mut out: Vec<Effect> = Vec::new();
        match event {
            WindowEvent::CloseRequested => {
                if self.control_active {
                    self.deactivate_control_mode(&mut out);
                }
                out.push(Effect::Exit);
            },
            WindowEvent::Resized { width, height } => {
                self.window_size = (at_least_one(width), at_least_one(height));
                self.surface_size = (0, 0);
                if self.control_active {
                    self.at_edge = false;
                }
                push_if(&mut out, self.control_active && self.has_window, Effect::ConfineCursor);
                push_if(&mut out, self.has_window, Effect::RequestRedraw);
            },
            WindowEvent::CursorMoved { x, y } => {
                if !a.injected {
                    self.last_cursor = Some((x, y));
                    let (win_w, win_h) = self.window_size;
                    if self.control_active {
                        self.at_edge = ht_code_for_pos(x, y, win_w, win_h).is_some();
                        if !self.at_edge {
                            self.send_pointer_move(frame, a, x, y, &mut out);
                        }
                        out.push(Effect::MirrorCursor);
                    }
                }
            },
            WindowEvent::MouseInput { button, pressed } => {
                if !a.injected {
                    self.mouse_input(frame, a, button, pressed, &mut out);
                }
            },
            WindowEvent::MouseWheel { dx, dy } => {
                if !a.injected {
                    self.mouse_wheel(frame, dx, dy, &mut out);
                }
            },
            WindowEvent::Key { code, pressed } => {
                if !a.injected {
                    self.keyboard_input(code, pressed, &mut out);
                }
            },
        }
        assert(out@ =~= old(self).effects(frame, event, a));
        out
    }
}

/// What the next step of a redraw is.
#[derive(Clone, Copy, Debug, PartialEq, Eq, Structural)]
pub enum RedrawStep {
    /// There is nothing to draw, or nothing to draw on.
    Nothing,
    /// The surface gets another size first.
    Resize { width: u32, height: u32 },
    /// The picture is painted.
    Paint,
}

/// Where a picture side begins in a longer window side: half of the rest before it.
pub open spec fn margin(frame: int, win: int) -> int {
    if frame < win {
        (win - frame) / 2
    } else {
        0
    }
}

/// The window with its picture: the pixels at their own size, in the middle where they leave room,
/// the scroll bars, and the border under control.
pub open spec fn painted(s: ViewState, frame: FrameBuffer, buf: Seq<u32>) -> Seq<u32> {
    let (w, h) = (s.window_size.0 as int, s.window_size.1 as int);
    let (fw, fh) = (frame.width as int, frame.height as int);
    let (sx, sy) = (s.scroll_x as int, s.scroll_y as int);
    let picture = render::blitted(
        frame.pixels@,
        fw,
        fh,
        buf,
        w,
        h,
        sx,
        sy,
        margin(fw, w),
        margin(fh, h),
    );
    let bars = render::with_scrollbars(picture, w, h, fw, fh, sx, sy);
    if s.control_active {
        render::with_border(bars, w, h)
    } else {
        bars
    }
}

/// The viewer: the state of its window and the picture that was last received.
#[derive(Debug)]
pub struct ViewerApp {
    pub state: ViewState,
    pub current_frame: Option<FrameBuffer>,
}

impl ViewerApp {
    /// The state is sound, and the picture has all its pixels.
    pub open spec fn wf(self) -> bool {
        &&& self.state.wf()
        &&& self.current_frame matches Some(f) ==> f.wf()
    }

    /// The size of the picture.
    pub open spec fn size(self) -> Option<Size> {
        match self.current_frame {
            Some(f) => Some((f.width, f.height)),
            None => None,
        }
    }

    /// The picture is not scrolled beyond its end.
    pub open spec fn scroll_fits(self) -> bool {
        self.state.scroll_x <= self.state.room(self.size()).0 && self.state.scroll_y
            <= self.state.room(self.size()).1
    }

    /// Makes the viewer, before it has a window or a picture.
    pub fn new(has_input: bool, mouse_global: bool) -> (v: ViewerApp)
        ensures
            v.wf(),
            v.current_frame is None,
            v.state == (ViewState {
                has_window: false,
                has_input,
                window_size: (1280, 720),
                surface_size: (0, 0),
                control_active: false,
                entry_click: false,
                last_cursor: None,
                mouse_global,
                scroll_x: 0,
                scroll_y: 0,
                held: Held::none(),
                at_edge: false,
            }),
    {
        ViewerApp { state: ViewState::new(has_input, mouse_global), current_frame: None }
    }

    fn frame_size(&self) -> (size: Option<Size>)
        ensures
            size == self.size(),
    {
        match &self.current_frame {
            Some(f) => Some((f.width, f.height)),
            None => None,
        }
    }

    /// Tells whether no number gets out of range because of the event.
    pub fn takes(&self, event: WindowEvent, a: Around) -> (b: bool)
        requires
            self.wf(),
        ensures
            b == self.state.admits(self.size(), event, a),
    {
        self.state.takes(self.frame_size(), event, a)
    }

    /// Takes note of the window and its size.
    pub fn window_made(&mut self, width: u32, height: u32)
        requires
            old(self).wf(),
        ensures
            final(self).wf(),
            final(self).current_frame == old(self).current_frame,
            final(self).state == (ViewState {
                has_window: true,
                window_size: (
                    if width == 0 {
                        1
                    } else {
                        width
                    },
                    if height == 0 {
                        1
                    } else {
                        height
                    },
                ),
                ..old(self).state
            }),
    {
        self.state.has_window = true;
        self.state.window_size = (at_least_one(width), at_least_one(height));
    }

    /// Takes an event of the window and tells what is to be done, in order.
    pub fn window_event(&mut self, event: WindowEvent, a: Around) -> (out: Vec<Effect>)
        requires
            old(self).wf(),
            old(self).state.admits(old(self).size(), event, a),
        ensures
            final(self).wf(),
            final(self).current_frame == old(self).current_frame,
            final(self).state == old(self).state.after(old(self).size(), event, a),
            out@ == old(self).state.effects(old(self).size(), event, a),
    {
        let size: Option<Size> = self.frame_size();
        self.state.window_event(size, event, a)
    }

    /// Takes a key of which the keyboard itself tells, and tells what is to be done.
    pub fn device_event(&self, key: RawKey, pressed: bool) -> (out: Vec<Effect>)
        ensures
            out@ == self.state.on_raw_key(key, pressed),
    {
        let mut out: Vec<Effect> = Vec::new();
        let vk: u32 = match key {
            RawKey::Hangul => VK_HANGUL,
            RawKey::Hanja => VK_HANJA,
            RawKey::Other => return out,
        };
        push_if(
            &mut out,
            self.state.control_active && self.state.has_input,
            Effect::Send(InputEvent::KeyVk { vk, scan: 0, pressed, extended: false }),
        );
        out
    }

    /// Takes what the session sends to the window: a picture replaces the one before.
    pub fn user_event(&mut self, event: ViewerEvent) -> (out: Vec<Effect>)
        requires
            old(self).wf(),
            event matches ViewerEvent::Frame(f) ==> f.wf(),
        ensures
            final(self).wf(),
            final(self).state == old(self).state,
            match event {
                ViewerEvent::Frame(f) => {
                    &&& final(self).current_frame == Some(f)
                    &&& out@ == only_if(old(self).state.has_window, Effect::RequestRedraw)
                },
                ViewerEvent::Close => {
                    &&& final(self).current_frame == old(self).current_frame
                    &&& out@.len() == 0
                },
            },
    {
        let mut out: Vec<Effect> = Vec::new();
        match event {
            ViewerEvent::Frame(f) => {
                self.current_frame = Some(f);
                push_if(&mut out, self.state.has_window, Effect::RequestRedraw);
            },
            ViewerEvent::Close => {},
        }
        out
    }

    /// Begins a redraw: the surface is given the window's size where it has another one.
    pub fn begin_redraw(&self, has_surface: bool) -> (step: RedrawStep)
        requires
            self.wf(),
        ensures
            step == (if !has_surface || self.current_frame is None {
                RedrawStep::Nothing
            } else if self.state.surface_size != self.state.window_size {
                RedrawStep::Resize {
                    width: self.state.window_size.0,
                    height: self.state.window_size.1,
                }
            } else {
                RedrawStep::Paint
            }),
    {
        if !has_surface || self.current_frame.is_none() {
            return RedrawStep::Nothing;
        }
        let (win_w, win_h) = self.state.window_size;
        if self.state.surface_size.0 != win_w || self.state.surface_size.1 != win_h {
            RedrawStep::Resize { width: win_w, height: win_h }
        } else {
            RedrawStep::Paint
        }
    }

    /// Takes note of whether the surface got the window's size, and tells the next step.
    pub fn surface_resized(&mut self, ok: bool) -> (step: RedrawStep)
        requires
            old(self).wf(),
        ensures
            final(self).wf(),
            final(self).current_frame == old(self).current_frame,
            ok ==> step == RedrawStep::Paint && final(self).state == (ViewState {
                surface_size: old(self).state.window_size,
                ..old(self).state
            }),
            !ok ==> step == RedrawStep::Nothing && final(self).state == old(self).state,
    {
        if ok {
            self.state.surface_size = self.state.window_size;
            RedrawStep::Paint
        } else {
            RedrawStep::Nothing
        }
    }

    /// Scrolls the picture back where it would be scrolled beyond its end.
    pub fn fit_scroll(&mut self)
        requires
            old(self).wf(),
            old(self).current_frame is Some,
        ensures
            final(self).wf(),
            final(self).scroll_fits(),
            final(self).current_frame == old(self).current_frame,
            final(self).state == (ViewState {
                scroll_x: bounded(
                    old(self).state.scroll_x as int,
                    old(self).state.room(old(self).size()).0,
                ) as u32,
                scroll_y: bounded(
                    old(self).state.scroll_y as int,
                    old(self).state.room(old(self).size()).1,
                ) as u32,
                ..old(self).state
            }),
    {
        if let Some((w, h)) = self.frame_size() {
            let room_x: u32 = w.saturating_sub(self.state.window_size.0);
            let room_y: u32 = h.saturating_sub(self.state.window_size.1);
            if self.state.scroll_x > room_x {
                self.state.scroll_x = room_x;
            }
            if self.state.scroll_y > room_y {
                self.state.scroll_y = room_y;
            }
        }
    }

    /// Paints the window.
    pub fn paint(&self, buf: &mut [u32])
        requires
            self.wf(),
            self.current_frame is Some,
            self.scroll_fits(),
            self.state.window_size.0 * self.state.window_size.1 <= old(buf)@.len(),
            self.state.window_size.0 * self.state.window_size.1 <= u32::MAX,
        ensures
            final(buf)@ == painted(self.state, self.current_frame->0, old(buf)@),
    {
        if let Some(frame) = &self.current_frame {
            let (win_w, win_h) = self.state.window_size;
            let off_x: u32 = if frame.width < win_w {
                (win_w - frame.width) / 2
            } else {
                0
            };
            let off_y: u32 = if frame.height < win_h {
                (win_h - frame.height) / 2
            } else {
                0
            };
            render::blit_frame(
                frame.pixels.as_slice(),
                frame.width,
                frame.height,
                buf,
                win_w,
                win_h,
                self.state.scroll_x,
                self.state.scroll_y,
                off_x,
                off_y,
            );
            if frame.width > win_w || frame.height > win_h {
                render::draw_scrollbars(
                    buf,
                    win_w,
                    win_h,
                    frame.width,
                    frame.height,
                    self.state.scroll_x,
                    self.state.scroll_y,
                );
            }
            if self.state.control_active {
                render::draw_control_border(buf, win_w, win_h);
            }
        }
    }
}

fn fits(n: i64) -> (b: bool)
    ensures
        b == (i32::MIN <= n <= i32::MAX),
{
    -0x8000_0000 <= n && n <= 0x7FFF_FFFF
}

fn clamp(v: i32, max: i32) -> (r: i32)
    requires
        0 <= max,
    ensures
        r == bounded(v as int, max as int),
{
    if v < 0 {
        0
    } else if v > max {
        max
    } else {
        v
    }
}

fn at_least_one(n: u32) -> (r: u32)
    ensures
        r == if n == 0 {
            1
        } else {
            n
        },
{
    if n == 0 {
        1
    } else {
        n
    }
}

fn step_of(turn: i32) -> (s: i32)
    ensures
        s == pan_step(turn as int),
{
    if turn > 0 {
        SCROLL_STEP
    } else if turn < 0 {
        -SCROLL_STEP
    } else {
        0
    }
}

fn low_short(v: i32) -> (s: i16)
    ensures
        s == wire::signed16(wire::wrap16(v as int)),
{
    let r: i32 = v % 0x1_0000;
    let u: i32 = if r < 0 {
        r + 0x1_0000
    } else {
        r
    };
    if u < 0x8000 {
        u as i16
    } else {
        (u - 0x1_0000) as i16
    }
}

fn push_modifier_up(out: &mut Vec<Effect>, vk: u32, extended: bool)
    ensures
        final(out)@ == old(out)@.push(modifier_up(vk, extended)),
{
    out.push(Effect::Send(InputEvent::KeyVk { vk, scan: 0, pressed: false, extended }));
}

fn push_button_up(out: &mut Vec<Effect>, held: bool, button: u32)
    ensures
        final(out)@ == old(out)@ + button_up(held, button),
{
    if held {
        out.push(Effect::Send(InputEvent::MouseButton { button, pressed: false }));
    }
}

} // verus!
