//! Input injection: what is handed to the system for each event that the viewer sent.
//!
//! Injection can be switched off, for an agent and a viewer on one machine: the injected pointer
//! would come back to the viewer as movement of its own.

use crate::num;
use crate::wire;
use vstd::prelude::*;

verus! {

/// The mark on every injected event. A viewer on the same machine knows by it that the event is
/// the agent's own and drops it.
pub const INPUT_MARK: usize = 0x5DEC_0001;

pub const MOUSE_LEFT_DOWN: u32 = 0x0002;

pub const MOUSE_LEFT_UP: u32 = 0x0004;

pub const MOUSE_RIGHT_DOWN: u32 = 0x0008;

pub const MOUSE_RIGHT_UP: u32 = 0x0010;

pub const MOUSE_MIDDLE_DOWN: u32 = 0x0020;

pub const MOUSE_MIDDLE_UP: u32 = 0x0040;

pub const MOUSE_WHEEL: u32 = 0x0800;

pub const MOUSE_HWHEEL: u32 = 0x1000;

/// `MOUSEEVENTF_MOVE | MOUSEEVENTF_ABSOLUTE`.
pub const MOUSE_MOVE_SCREEN: u32 = 0x8001;

/// `MOUSEEVENTF_MOVE | MOUSEEVENTF_ABSOLUTE | MOUSEEVENTF_VIRTUALDESK`.
pub const MOUSE_MOVE_DESKTOP: u32 = 0xC001;

/// `KEYEVENTF_EXTENDEDKEY`.
pub const KEY_EXTENDED: u32 = 0x0001;

/// `KEYEVENTF_KEYUP`.
pub const KEY_UP: u32 = 0x0002;

/// The key that switches between Korean and Latin letters.
pub const VK_HANGUL: u32 = 0x15;

/// The key that switches to Chinese characters.
pub const VK_HANJA: u32 = 0x19;

/// A mouse event for the system.
#[derive(Clone, Copy, Debug, PartialEq, Eq, Structural)]
pub struct MouseInput {
    pub dx: i32,
    pub dy: i32,
    pub mouse_data: u32,
    pub flags: u32,
    pub extra_info: usize,
}

/// A keyboard event for the system.
#[derive(Clone, Copy, Debug, PartialEq, Eq, Structural)]
pub struct KeyInput {
    pub vk: u16,
    pub scan: u16,
    pub flags: u32,
    pub extra_info: usize,
}

/// Whether injection is switched off.
#[derive(Clone, Copy, Debug, PartialEq, Eq, Structural)]
pub struct InjectGate {
    pub no_inject: bool,
}

/// The rectangle that all monitors make up together.
#[derive(Clone, Copy, Debug, PartialEq, Eq, Structural)]
pub struct VirtualScreen {
    pub x: i32,
    pub y: i32,
    pub width: i32,
    pub height: i32,
}

impl InjectGate {
    /// Injection is on at first.
    pub fn new() -> (g: InjectGate)
        ensures
            !g.no_inject,
    {
        InjectGate { no_inject: false }
    }
}

/// Switches injection off (`true`) or on.
pub fn set_no_inject(gate: &mut InjectGate, v: bool)
    ensures
        final(gate).no_inject == v,
{
    gate.no_inject = v;
}

/// The viewer's coordinate `v` in a picture `win` wide, on a screen `screen` wide.
pub open spec fn screen_coord(v: int, screen: int, win: int) -> int {
    num::clamped(v * screen / win, 0, screen - 1)
}

/// A screen coordinate in the system's absolute units, where 65535 stands for the whole width.
pub open spec fn absolute_coord(s: int, screen: int) -> int {
    s * 65535 / screen
}

/// The numbers on the way from the viewer's coordinate to the system's all fit in an `i32`.
pub open spec fn coord_fits(v: int, screen: int, win: int) -> bool {
    &&& screen >= 1
    &&& i32::MIN <= v * screen <= i32::MAX
    &&& screen_coord(v, screen, win) * 65535 <= i32::MAX
}

fn scale_coord(v: i32, screen: i32, win: i32) -> (a: i32)
    requires
        win > 0,
        coord_fits(v as int, screen as int, win as int),
    ensures
        a == absolute_coord(screen_coord(v as int, screen as int, win as int), screen as int),
        0 <= a,
{
    let s: i32 = if v < 0 {
        proof {
            assert(v * screen / (win as int) < 0) by (nonlinear_arith)
                requires
                    v < 0,
                    screen >= 1,
                    win > 0,
            ;
        }
        0
    } else {
        proof {
            assert(0 <= v * screen) by (nonlinear_arith)
                requires
                    0 <= v,
                    screen >= 1,
            ;
            assert(0 <= v * screen / (win as int) <= v * screen) by (nonlinear_arith)
                requires
                    0 <= v * screen,
                    win > 0,
            ;
        }
        let q: i32 = v * screen / win;
        if q > screen - 1 {
            screen - 1
        } else {
            q
        }
    };
    proof {
        assert(0 <= s * 65535 / (screen as int) <= s * 65535) by (nonlinear_arith)
            requires
                0 <= s,
                screen >= 1,
        ;
    }
    s * 65535 / screen
}

/// Tells whether the numbers on the way from the viewer's coordinate to the system's fit.
pub fn fits_screen(v: i32, screen: i32, win: i32) -> (b: bool)
    requires
        win > 0,
    ensures
        b == coord_fits(v as int, screen as int, win as int),
{
    if screen < 1 {
        return false;
    }
    proof {
        assert(-0x8000_0000 * 0x7fff_ffff <= v * screen <= 0x7fff_ffff * 0x7fff_ffff)
            by (nonlinear_arith)
            requires
                -0x8000_0000 <= v <= 0x7fff_ffff,
                1 <= screen <= 0x7fff_ffff,
        ;
    }
    let p: i64 = v as i64 * screen as i64;
    if p < -0x8000_0000 || p > 0x7fff_ffff {
        return false;
    }
    if p < 0 {
        proof {
            assert(v * screen / (win as int) < 0) by (nonlinear_arith)
                requires
                    v * screen < 0,
                    win > 0,
            ;
        }
        return true;
    }
    proof {
        assert(0 <= v * screen / (win as int) <= v * screen) by (nonlinear_arith)
            requires
                0 <= v * screen,
                win > 0,
        ;
    }
    let q: i64 = p / win as i64;
    let s: i64 = if q > screen as i64 - 1 {
        screen as i64 - 1
    } else {
        q
    };
    s * 65535 <= 0x7fff_ffff
}

/// The event that moves the pointer to where the viewer shows it; none in an empty picture.
pub open spec fn screen_move(
    gate: InjectGate,
    vx: i32,
    vy: i32,
    win_w: i32,
    win_h: i32,
    screen_w: i32,
    screen_h: i32,
) -> Option<MouseInput> {
    if gate.no_inject || win_w <= 0 || win_h <= 0 {
        None
    } else {
        Some(
            MouseInput {
                dx: absolute_coord(
                    screen_coord(vx as int, screen_w as int, win_w as int),
                    screen_w as int,
                ) as i32,
                dy: absolute_coord(
                    screen_coord(vy as int, screen_h as int, win_h as int),
                    screen_h as int,
                ) as i32,
                mouse_data: 0,
                flags: MOUSE_MOVE_SCREEN,
                extra_info: INPUT_MARK,
            },
        )
    }
}

/// Moves the pointer to where the viewer shows it: `vx`, `vy` in a picture of `win_w` by `win_h`,
/// on a screen of `screen_w` by `screen_h`.
pub fn inject_mouse_move(
    gate: &InjectGate,
    vx: i32,
    vy: i32,
    win_w: i32,
    win_h: i32,
    screen_w: i32,
    screen_h: i32,
) -> (r: Option<MouseInput>)
    requires
        !gate.no_inject && win_w > 0 && win_h > 0 ==> coord_fits(
            vx as int,
            screen_w as int,
            win_w as int,
        ) && coord_fits(vy as int, screen_h as int, win_h as int),
    ensures
        r == screen_move(*gate, vx, vy, win_w, win_h, screen_w, screen_h),
{
    if gate.no_inject || win_w <= 0 || win_h <= 0 {
        return None;
    }
    Some(
        MouseInput {
            dx: scale_coord(vx, screen_w, win_w),
            dy: scale_coord(vy, screen_h, win_h),
            mouse_data: 0,
            flags: MOUSE_MOVE_SCREEN,
            extra_info: INPUT_MARK,
        },
    )
}

/// A side of the virtual screen that the system reports as empty counts as one pixel.
pub open spec fn extent(side: int) -> int {
    if side < 1 {
        1
    } else {
        side
    }
}

/// The last coordinate of a side that begins at `origin`, as far as an `i32` reaches.
pub open spec fn last_coord(origin: int, side: int) -> int {
    if origin + extent(side) > i32::MAX {
        i32::MAX - 1
    } else {
        origin + extent(side) - 1
    }
}

/// A coordinate on the virtual screen in the system's absolute units, where 65535 stands for the
/// last coordinate of the side.
pub open spec fn desktop_coord(g: int, origin: int, side: int) -> int {
    if extent(side) > 1 {
        (num::clamped(g, origin, last_coord(origin, side)) - origin) * 65535 / (extent(side) - 1)
    } else {
        0
    }
}

fn scale_desktop(g: i32, origin: i32, side: i32) -> (a: i32)
    requires
        origin < i32::MAX,
    ensures
        a == desktop_coord(g as int, origin as int, side as int),
        0 <= a <= 65535,
{
    let e: i64 = if side < 1 {
        1
    } else {
        side as i64
    };
    let first: i64 = origin as i64;
    let last: i64 = if first + e > 0x7fff_ffff {
        0x7fff_fffe
    } else {
        first + e - 1
    };
    let v: i64 = g as i64;
    let r: i64 = if v < first {
        first
    } else if v > last {
        last
    } else {
        v
    };
    if e > 1 {
        let d: i64 = r - first;
        proof {
            assert(0 <= d * 65535 / (e - 1) <= 65535) by (nonlinear_arith)
                requires
                    0 <= d <= e - 1,
                    e > 1,
            ;
        }
        (d * 65535 / (e - 1)) as i32
    } else {
        0
    }
}

/// The event that moves the pointer to a point of the virtual screen.
pub open spec fn desktop_move(gate: InjectGate, gx: i32, gy: i32, screen: VirtualScreen) -> Option<
    MouseInput,
> {
    if gate.no_inject {
        None
    } else {
        Some(
            MouseInput {
                dx: desktop_coord(gx as int, screen.x as int, screen.width as int) as i32,
                dy: desktop_coord(gy as int, screen.y as int, screen.height as int) as i32,
                mouse_data: 0,
                flags: MOUSE_MOVE_DESKTOP,
                extra_info: INPUT_MARK,
            },
        )
    }
}

/// Moves the pointer to a point of the virtual screen.
pub fn inject_mouse_move_global(gate: &InjectGate, gx: i32, gy: i32, screen: VirtualScreen) -> (r:
    Option<MouseInput>)
    requires
        !gate.no_inject ==> screen.x < i32::MAX && screen.y < i32::MAX,
    ensures
        r == desktop_move(*gate, gx, gy, screen),
{
    if gate.no_inject {
        return None;
    }
    Some(
        MouseInput {
            dx: scale_desktop(gx, screen.x, screen.width),
            dy: scale_desktop(gy, screen.y, screen.height),
            mouse_data: 0,
            flags: MOUSE_MOVE_DESKTOP,
            extra_info: INPUT_MARK,
        },
    )
}

/// The flag for a button (0 left, 2 right, 4 middle) that goes down or up.
pub open spec fn button_flag(button: u8, pressed: bool) -> Option<u32> {
    if button == 0 {
        Some(if pressed { MOUSE_LEFT_DOWN } else { MOUSE_LEFT_UP })
    } else if button == 2 {
        Some(if pressed { MOUSE_RIGHT_DOWN } else { MOUSE_RIGHT_UP })
    } else if button == 4 {
        Some(if pressed { MOUSE_MIDDLE_DOWN } else { MOUSE_MIDDLE_UP })
    } else {
        None
    }
}

/// The event of a mouse button; none for an unknown button.
pub open spec fn button_event(gate: InjectGate, button: u8, pressed: bool) -> Option<MouseInput> {
    match button_flag(button, pressed) {
        Some(flags) if !gate.no_inject => Some(
            MouseInput { dx: 0, dy: 0, mouse_data: 0, flags, extra_info: INPUT_MARK },
        ),
        _ => None,
    }
}

/// Presses or releases a mouse button; unknown buttons do nothing.
pub fn inject_mouse_button(gate: &InjectGate, button: u8, pressed: bool) -> (r: Option<MouseInput>)
    ensures
        r == button_event(*gate, button, pressed),
{
    if gate.no_inject {
        return None;
    }
    let flags: u32 = match (button, pressed) {
        (0, true) => MOUSE_LEFT_DOWN,
        (0, false) => MOUSE_LEFT_UP,
        (2, true) => MOUSE_RIGHT_DOWN,
        (2, false) => MOUSE_RIGHT_UP,
        (4, true) => MOUSE_MIDDLE_DOWN,
        (4, false) => MOUSE_MIDDLE_UP,
        _ => {
            return None;
        },
    };
    Some(MouseInput { dx: 0, dy: 0, mouse_data: 0, flags, extra_info: INPUT_MARK })
}

/// A turn of one wheel by `amount`, sign and all.
pub open spec fn wheel(amount: i16, flags: u32) -> MouseInput {
    MouseInput {
        dx: 0,
        dy: 0,
        mouse_data: wire::wrap32(amount as int) as u32,
        flags,
        extra_info: INPUT_MARK,
    }
}

/// A turn of one wheel, or no event where it stands still.
pub open spec fn wheel_turn(amount: i16, flags: u32) -> Seq<MouseInput> {
    if amount == 0 {
        Seq::empty()
    } else {
        seq![wheel(amount, flags)]
    }
}

fn turn(amount: i16, flags: u32) -> (m: MouseInput)
    ensures
        m == wheel(amount, flags),
{
    let mouse_data: u32 = if amount >= 0 {
        amount as u32
    } else {
        (amount as i64 + 0x1_0000_0000) as u32
    };
    MouseInput { dx: 0, dy: 0, mouse_data, flags, extra_info: INPUT_MARK }
}

/// The events of the wheels: the vertical one first, then the horizontal one.
pub open spec fn wheel_events(gate: InjectGate, dx: i16, dy: i16) -> Seq<MouseInput> {
    if gate.no_inject {
        Seq::empty()
    } else {
        wheel_turn(dy, MOUSE_WHEEL) + wheel_turn(dx, MOUSE_HWHEEL)
    }
}

/// Turns the wheels: the vertical one first (`dy > 0` is up), then the horizontal one.
pub fn inject_scroll(gate: &InjectGate, dx: i16, dy: i16) -> (r: Vec<MouseInput>)
    ensures
        r@ == wheel_events(*gate, dx, dy),
{
    let mut out: Vec<MouseInput> = Vec::new();
    if gate.no_inject {
        return out;
    }
    if dy != 0 {
        out.push(turn(dy, MOUSE_WHEEL));
    }
    if dx != 0 {
        out.push(turn(dx, MOUSE_HWHEEL));
    }
    assert(out@ =~= wheel_turn(dy, MOUSE_WHEEL) + wheel_turn(dx, MOUSE_HWHEEL));
    out
}

/// The flags of a key event.
pub open spec fn key_flags(pressed: bool, extended: bool) -> u32 {
    if pressed {
        if extended {
            KEY_EXTENDED
        } else {
            0
        }
    } else {
        if extended {
            0x0003
        } else {
            KEY_UP
        }
    }
}

fn flags_of(pressed: bool, extended: bool) -> (f: u32)
    ensures
        f == key_flags(pressed, extended),
{
    let up: u32 = if pressed {
        0
    } else {
        KEY_UP
    };
    if extended {
        up + KEY_EXTENDED
    } else {
        up
    }
}

/// The input method switches only where its keys come without the flag for extended keys, though
/// Korean keyboards send them as extended ones.
pub open spec fn is_ime_toggle(vk: u32) -> bool {
    vk == VK_HANGUL || vk == VK_HANJA
}

/// The event of the key with a virtual key code.
pub open spec fn vk_event(
    gate: InjectGate,
    vk: u32,
    scan: u16,
    pressed: bool,
    extended: bool,
) -> Option<KeyInput> {
    if gate.no_inject {
        None
    } else {
        Some(
            KeyInput {
                vk: wire::wrap16(vk as int) as u16,
                scan,
                flags: key_flags(pressed, extended && !is_ime_toggle(vk)),
                extra_info: INPUT_MARK,
            },
        )
    }
}

/// Presses or releases the key with a virtual key code and a scan code.
pub fn inject_key_vk(gate: &InjectGate, vk: u32, scan: u16, pressed: bool, extended: bool) -> (r:
    Option<KeyInput>)
    ensures
        r == vk_event(*gate, vk, scan, pressed, extended),
{
    if gate.no_inject {
        return None;
    }
    let ime_toggle: bool = vk == VK_HANGUL || vk == VK_HANJA;
    Some(
        KeyInput {
            vk: (vk % 0x1_0000) as u16,
            scan,
            flags: flags_of(pressed, extended && !ime_toggle),
            extra_info: INPUT_MARK,
        },
    )
}

/// The keys that the system knows by the flag for extended keys: arrows, Insert, Delete, Home,
/// End, PageUp, PageDown, the right Alt and Control keys, and Divide and Enter of the keypad.
pub open spec fn is_extended(code: u32) -> bool {
    ||| 79 <= code <= 82
    ||| code == 72
    ||| code == 73
    ||| 75 <= code <= 78
    ||| code == 51
    ||| code == 56
    ||| code == 100
    ||| code == 101
}

/// The event of the key with a winit key code; none for a key without a virtual key code.
pub open spec fn key_event(gate: InjectGate, code: u32, pressed: bool, scan: u16) -> Option<
    KeyInput,
> {
    if gate.no_inject || vk_of(code) == 0 {
        None
    } else {
        Some(
            KeyInput {
                vk: vk_of(code) as u16,
                scan,
                flags: key_flags(pressed, is_extended(code)),
                extra_info: INPUT_MARK,
            },
        )
    }
}

/// Presses or releases the key with a winit key code. `scan` is the scan code that the system has
/// for the key's virtual key code. Keys without a virtual key code do nothing.
pub fn inject_key(gate: &InjectGate, code: u32, pressed: bool, scan: u16) -> (r: Option<KeyInput>)
    ensures
        r == key_event(*gate, code, pressed, scan),
{
    if gate.no_inject {
        return None;
    }
    let vk: u32 = winit_keycode_to_vk(code);
    if vk == 0 {
        return None;
    }
    let extended: bool = matches!(
        code,
        79 | 80 | 81 | 82 | 72 | 73 | 75 | 76 | 77 | 78 | 51 | 56 | 100 | 101
    );
    Some(
        KeyInput { vk: vk as u16, scan, flags: flags_of(pressed, extended), extra_info: INPUT_MARK },
    )
}

/// The virtual key code of a winit key code: the digits, letters, keypad digits and function keys
/// follow one another in both numberings, the other keys are listed. 0 stands for none.
pub open spec fn vk_of(code: u32) -> u32 {
    match code {
        0 => 0xC0, // Backquote
        1 => 0xDC, // Backslash
        2 => 0xDB, // BracketLeft
        3 => 0xDD, // BracketRight
        4 => 0xBC, // Comma
        15 => 0xBB, // Equal
        45 => 0xBD, // Minus
        46 => 0xBE, // Period
        47 => 0xDE, // Quote
        48 => 0xBA, // Semicolon
        49 => 0xBF, // Slash
        50 => 0xA4, // AltLeft
        51 => 0xA5, // AltRight
        52 => 0x08, // Backspace
        53 => 0x14, // CapsLock
        54 => 0x5D, // ContextMenu
        55 => 0xA2, // ControlLeft
        56 => 0xA3, // ControlRight
        57 => 0x0D, // Enter
        58 => 0x5B, // SuperLeft
        59 => 0x5C, // SuperRight
        60 => 0xA0, // ShiftLeft
        61 => 0xA1, // ShiftRight
        62 => 0x20, // Space
        63 => 0x09, // Tab
        72 => 0x2E, // Delete
        73 => 0x23, // End
        74 => 0x2F, // Help
        75 => 0x24, // Home
        76 => 0x2D, // Insert
        77 => 0x22, // PageDown
        78 => 0x21, // PageUp
        79 => 0x28, // ArrowDown
        80 => 0x25, // ArrowLeft
        81 => 0x27, // ArrowRight
        82 => 0x26, // ArrowUp
        83 => 0x90, // NumLock
        94 => 0x6B, // NumpadAdd
        99 => 0x6E, // NumpadDecimal
        100 => 0x6F, // NumpadDivide
        101 => 0x0D, // NumpadEnter
        109 => 0x6A, // NumpadMultiply
        113 => 0x6D, // NumpadSubtract
        114 => 0x1B, // Escape
        117 => 0x2C, // PrintScreen
        118 => 0x91, // ScrollLock
        119 => 0x13, // Pause
        120 => 0xA6,
        121 => 0xAB,
        122 => 0xA7,
        123 => 0xAC,
        124 => 0xA8,
        125 => 0xAA,
        126 => 0xA9,
        128 => 0xB6,
        129 => 0xB7,
        130 => 0xB4,
        131 => 0xB3,
        132 => 0xB5,
        133 => 0xB2,
        134 => 0xB0,
        135 => 0xB1,
        137 => 0x5F,
        138 => 0xAE,
        139 => 0xAD,
        140 => 0xAF,
        _ => if 5 <= code <= 14 {
            (0x30 + (code - 5)) as u32
        } else if 19 <= code <= 44 {
            (0x41 + (code - 19)) as u32
        } else if 84 <= code <= 93 {
            (0x60 + (code - 84)) as u32
        } else if 159 <= code <= 182 {
            (0x70 + (code - 159)) as u32
        } else {
            0
        },
    }
}

/// Finds the virtual key code of a winit key code; 0 where there is none.
pub fn winit_keycode_to_vk(code: u32) -> (vk: u32)
    ensures
        vk == vk_of(code),
        vk <= 0xFF,
{
    match code {
        0 => 0xC0,
        1 => 0xDC,
        2 => 0xDB,
        3 => 0xDD,
        4 => 0xBC,
        5 => 0x30,
        6 => 0x31,
        7 => 0x32,
        8 => 0x33,
        9 => 0x34,
        10 => 0x35,
        11 => 0x36,
        12 => 0x37,
        13 => 0x38,
        14 => 0x39,
        15 => 0xBB,
        19 => 0x41,
        20 => 0x42,
        21 => 0x43,
        22 => 0x44,
        23 => 0x45,
        24 => 0x46,
        25 => 0x47,
        26 => 0x48,
        27 => 0x49,
        28 => 0x4A,
        29 => 0x4B,
        30 => 0x4C,
        31 => 0x4D,
        32 => 0x4E,
        33 => 0x4F,
        34 => 0x50,
        35 => 0x51,
        36 => 0x52,
        37 => 0x53,
        38 => 0x54,
        39 => 0x55,
        40 => 0x56,
        41 => 0x57,
        42 => 0x58,
        43 => 0x59,
        44 => 0x5A,
        45 => 0xBD,
        46 => 0xBE,
        47 => 0xDE,
        48 => 0xBA,
        49 => 0xBF,
        50 => 0xA4,
        51 => 0xA5,
        52 => 0x08,
        53 => 0x14,
        54 => 0x5D,
        55 => 0xA2,
        56 => 0xA3,
        57 => 0x0D,
        58 => 0x5B,
        59 => 0x5C,
        60 => 0xA0,
        61 => 0xA1,
        62 => 0x20,
        63 => 0x09,
        72 => 0x2E,
        73 => 0x23,
        74 => 0x2F,
        75 => 0x24,
        76 => 0x2D,
        77 => 0x22,
        78 => 0x21,
        79 => 0x28,
        80 => 0x25,
        81 => 0x27,
        82 => 0x26,
        83 => 0x90,
        84 => 0x60,
        85 => 0x61,
        86 => 0x62,
        87 => 0x63,
        88 => 0x64,
        89 => 0x65,
        90 => 0x66,
        91 => 0x67,
        92 => 0x68,
        93 => 0x69,
        94 => 0x6B,
        99 => 0x6E,
        100 => 0x6F,
        101 => 0x0D,
        109 => 0x6A,
        113 => 0x6D,
        114 => 0x1B,
        117 => 0x2C,
        118 => 0x91,
        119 => 0x13,
        120 => 0xA6,
        121 => 0xAB,
        122 => 0xA7,
        123 => 0xAC,
        124 => 0xA8,
        125 => 0xAA,
        126 => 0xA9,
        128 => 0xB6,
        129 => 0xB7,
        130 => 0xB4,
        131 => 0xB3,
        132 => 0xB5,
        133 => 0xB2,
        134 => 0xB0,
        135 => 0xB1,
        137 => 0x5F,
        138 => 0xAE,
        139 => 0xAD,
        140 => 0xAF,
        159 => 0x70,
        160 => 0x71,
        161 => 0x72,
        162 => 0x73,
        163 => 0x74,
        164 => 0x75,
        165 => 0x76,
        166 => 0x77,
        167 => 0x78,
        168 => 0x79,
        169 => 0x7A,
        170 => 0x7B,
        171 => 0x7C,
        172 => 0x7D,
        173 => 0x7E,
        174 => 0x7F,
        175 => 0x80,
        176 => 0x81,
        177 => 0x82,
        178 => 0x83,
        179 => 0x84,
        180 => 0x85,
        181 => 0x86,
        182 => 0x87,
        _ => 0,
    }
}

/// Where the viewer's picture is as large as the screen, the pointer goes exactly where the viewer
/// shows it.
pub proof fn pointer_is_exact(v: int, side: int)
    requires
        0 <= v < side,
    ensures
        screen_coord(v, side, side) == v,
{
    assert(v * side / side == v) by (nonlinear_arith)
        requires
            0 < side,
    ;
}

/// The pointer stays on the screen, whatever the viewer sends.
pub proof fn pointer_stays_on_screen(v: int, screen: int, win: int)
    requires
        screen >= 1,
        win >= 1,
    ensures
        0 <= screen_coord(v, screen, win) < screen,
        0 <= absolute_coord(screen_coord(v, screen, win), screen) < 65535,
{
    let s = screen_coord(v, screen, win);
    assert(0 <= s * 65535 / screen && s * 65535 / screen < 65535) by (nonlinear_arith)
        requires
            0 <= s < screen,
    ;
}

/// No two keys are injected alike: the virtual key code and the flag for extended keys tell every
/// key that has a code from every other.
pub proof fn keys_are_told_apart(a: u32, b: u32)
    requires
        vk_of(a) != 0,
        vk_of(a) == vk_of(b),
        is_extended(a) == is_extended(b),
    ensures
        a == b,
{
}

} // verus!
