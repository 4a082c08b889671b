//! What an input of the viewer does on the agent's machine.
//!
//! The constants are the keys of the keyboard by the codes that the viewer sends for them, and the
//! virtual keys of the system by its names for them.

use crate::agent::services::input;
use crate::agent::services::input::{InjectGate, KeyInput, VirtualScreen};
use vstd::prelude::*;

verus! {

pub const KEY_BACKQUOTE: u32 = 0;

pub const KEY_BACKSLASH: u32 = 1;

pub const KEY_BRACKET_LEFT: u32 = 2;

pub const KEY_BRACKET_RIGHT: u32 = 3;

pub const KEY_COMMA: u32 = 4;

pub const KEY_EQUAL: u32 = 15;

pub const KEY_MINUS: u32 = 45;

pub const KEY_PERIOD: u32 = 46;

pub const KEY_QUOTE: u32 = 47;

pub const KEY_SEMICOLON: u32 = 48;

pub const KEY_SLASH: u32 = 49;

pub const KEY_ALT_LEFT: u32 = 50;

pub const KEY_ALT_RIGHT: u32 = 51;

pub const KEY_BACKSPACE: u32 = 52;

pub const KEY_CAPS_LOCK: u32 = 53;

pub const KEY_CONTEXT_MENU: u32 = 54;

pub const KEY_CONTROL_LEFT: u32 = 55;

pub const KEY_CONTROL_RIGHT: u32 = 56;

pub const KEY_ENTER: u32 = 57;

pub const KEY_SUPER_LEFT: u32 = 58;

pub const KEY_SUPER_RIGHT: u32 = 59;

pub const KEY_SHIFT_LEFT: u32 = 60;

pub const KEY_SHIFT_RIGHT: u32 = 61;

pub const KEY_SPACE: u32 = 62;

pub const KEY_TAB: u32 = 63;

pub const KEY_DELETE: u32 = 72;

pub const KEY_END: u32 = 73;

pub const KEY_HELP: u32 = 74;

pub const KEY_HOME: u32 = 75;

pub const KEY_INSERT: u32 = 76;

pub const KEY_PAGE_DOWN: u32 = 77;

pub const KEY_PAGE_UP: u32 = 78;

pub const KEY_ARROW_DOWN: u32 = 79;

pub const KEY_ARROW_LEFT: u32 = 80;

pub const KEY_ARROW_RIGHT: u32 = 81;

pub const KEY_ARROW_UP: u32 = 82;

pub const KEY_NUM_LOCK: u32 = 83;

pub const KEY_NUMPAD_ADD: u32 = 94;

pub const KEY_NUMPAD_DECIMAL: u32 = 99;

pub const KEY_NUMPAD_DIVIDE: u32 = 100;

pub const KEY_NUMPAD_ENTER: u32 = 101;

pub const KEY_NUMPAD_MULTIPLY: u32 = 109;

pub const KEY_NUMPAD_SUBTRACT: u32 = 113;

pub const KEY_ESCAPE: u32 = 114;

pub const KEY_PRINT_SCREEN: u32 = 117;

pub const KEY_SCROLL_LOCK: u32 = 118;

pub const KEY_PAUSE: u32 = 119;

pub const KEY_BROWSER_BACK: u32 = 120;

pub const KEY_BROWSER_FAVORITES: u32 = 121;

pub const KEY_BROWSER_FORWARD: u32 = 122;

pub const KEY_BROWSER_HOME: u32 = 123;

pub const KEY_BROWSER_REFRESH: u32 = 124;

pub const KEY_BROWSER_SEARCH: u32 = 125;

pub const KEY_BROWSER_STOP: u32 = 126;

pub const KEY_LAUNCH_APP1: u32 = 128;

pub const KEY_LAUNCH_APP2: u32 = 129;

pub const KEY_LAUNCH_MAIL: u32 = 130;

pub const KEY_MEDIA_PLAY_PAUSE: u32 = 131;

pub const KEY_MEDIA_SELECT: u32 = 132;

pub const KEY_MEDIA_STOP: u32 = 133;

pub const KEY_MEDIA_TRACK_NEXT: u32 = 134;

pub const KEY_MEDIA_TRACK_PREVIOUS: u32 = 135;

pub const KEY_SLEEP: u32 = 137;

pub const KEY_VOLUME_DOWN: u32 = 138;

pub const KEY_VOLUME_MUTE: u32 = 139;

pub const KEY_VOLUME_UP: u32 = 140;

pub const KEY_DIGIT_0: u32 = 5;

pub const KEY_A: u32 = 19;

pub const KEY_NUMPAD_0: u32 = 84;

pub const KEY_F1: u32 = 159;

pub const VK_OEM_3: u32 = 0xC0;

pub const VK_OEM_5: u32 = 0xDC;

pub const VK_OEM_4: u32 = 0xDB;

pub const VK_OEM_6: u32 = 0xDD;

pub const VK_OEM_COMMA: u32 = 0xBC;

pub const VK_OEM_PLUS: u32 = 0xBB;

pub const VK_OEM_MINUS: u32 = 0xBD;

pub const VK_OEM_PERIOD: u32 = 0xBE;

pub const VK_OEM_7: u32 = 0xDE;

pub const VK_OEM_1: u32 = 0xBA;

pub const VK_OEM_2: u32 = 0xBF;

pub const VK_LMENU: u32 = 0xA4;

pub const VK_RMENU: u32 = 0xA5;

pub const VK_BACK: u32 = 0x08;

pub const VK_CAPITAL: u32 = 0x14;

pub const VK_APPS: u32 = 0x5D;

pub const VK_LCONTROL: u32 = 0xA2;

pub const VK_RCONTROL: u32 = 0xA3;

pub const VK_RETURN: u32 = 0x0D;

pub const VK_LWIN: u32 = 0x5B;

pub const VK_RWIN: u32 = 0x5C;

pub const VK_LSHIFT: u32 = 0xA0;

pub const VK_RSHIFT: u32 = 0xA1;

pub const VK_SPACE: u32 = 0x20;

pub const VK_TAB: u32 = 0x09;

pub const VK_DELETE: u32 = 0x2E;

pub const VK_END: u32 = 0x23;

pub const VK_HELP: u32 = 0x2F;

pub const VK_HOME: u32 = 0x24;

pub const VK_INSERT: u32 = 0x2D;

pub const VK_NEXT: u32 = 0x22;

pub const VK_PRIOR: u32 = 0x21;

pub const VK_DOWN: u32 = 0x28;

pub const VK_LEFT: u32 = 0x25;

pub const VK_RIGHT: u32 = 0x27;

pub const VK_UP: u32 = 0x26;

pub const VK_NUMLOCK: u32 = 0x90;

pub const VK_ADD: u32 = 0x6B;

pub const VK_DECIMAL: u32 = 0x6E;

pub const VK_DIVIDE: u32 = 0x6F;

pub const VK_MULTIPLY: u32 = 0x6A;

pub const VK_SUBTRACT: u32 = 0x6D;

pub const VK_ESCAPE: u32 = 0x1B;

pub const VK_SNAPSHOT: u32 = 0x2C;

pub const VK_SCROLL: u32 = 0x91;

pub const VK_PAUSE: u32 = 0x13;

pub const VK_BROWSER_BACK: u32 = 0xA6;

pub const VK_BROWSER_FAVORITES: u32 = 0xAB;

pub const VK_BROWSER_FORWARD: u32 = 0xA7;

pub const VK_BROWSER_HOME: u32 = 0xAC;

pub const VK_BROWSER_REFRESH: u32 = 0xA8;

pub const VK_BROWSER_SEARCH: u32 = 0xAA;

pub const VK_BROWSER_STOP: u32 = 0xA9;

pub const VK_LAUNCH_APP1: u32 = 0xB6;

pub const VK_LAUNCH_APP2: u32 = 0xB7;

pub const VK_LAUNCH_MAIL: u32 = 0xB4;

pub const VK_MEDIA_PLAY_PAUSE: u32 = 0xB3;

pub const VK_LAUNCH_MEDIA_SELECT: u32 = 0xB5;

pub const VK_MEDIA_STOP: u32 = 0xB2;

pub const VK_MEDIA_NEXT_TRACK: u32 = 0xB0;

pub const VK_MEDIA_PREV_TRACK: u32 = 0xB1;

pub const VK_SLEEP: u32 = 0x5F;

pub const VK_VOLUME_DOWN: u32 = 0xAE;

pub const VK_VOLUME_MUTE: u32 = 0xAD;

pub const VK_VOLUME_UP: u32 = 0xAF;

pub const VK_0: u32 = 0x30;

pub const VK_A: u32 = 0x41;

pub const VK_NUMPAD0: u32 = 0x60;

pub const VK_F1: u32 = 0x70;

/// The event that a key gives where injection is on: that of a virtual key, with the system's scan
/// code, the flag 1 for an extended key, the flag 2 for a release, and the agent's mark.
pub open spec fn gives(code: u32, vk: u32, extended: bool) -> bool {
    forall|pressed: bool, scan: u16|
        #[trigger] input::key_event(InjectGate { no_inject: false }, code, pressed, scan) == Some(
            KeyInput {
                vk: vk as u16,
                scan,
                flags: ((if extended {
                    1int
                } else {
                    0int
                }) + (if pressed {
                    0int
                } else {
                    2int
                })) as u32,
                extra_info: 0x5DEC_0001,
            },
        )
}

/// Each key of the keyboard presses and releases the virtual key of its name. The keys that the
/// system knows by the flag for extended keys have it, and no others.
pub proof fn keys_are_those_of_their_names()
    ensures
        gives(KEY_BACKQUOTE, VK_OEM_3, false),
        gives(KEY_BACKSLASH, VK_OEM_5, false),
        gives(KEY_BRACKET_LEFT, VK_OEM_4, false),
        gives(KEY_BRACKET_RIGHT, VK_OEM_6, false),
        gives(KEY_COMMA, VK_OEM_COMMA, false),
        gives(KEY_EQUAL, VK_OEM_PLUS, false),
        gives(KEY_MINUS, VK_OEM_MINUS, false),
        gives(KEY_PERIOD, VK_OEM_PERIOD, false),
        gives(KEY_QUOTE, VK_OEM_7, false),
        gives(KEY_SEMICOLON, VK_OEM_1, false),
        gives(KEY_SLASH, VK_OEM_2, false),
        gives(KEY_ALT_LEFT, VK_LMENU, false),
        gives(KEY_ALT_RIGHT, VK_RMENU, true),
        gives(KEY_BACKSPACE, VK_BACK, false),
        gives(KEY_CAPS_LOCK, VK_CAPITAL, false),
        gives(KEY_CONTEXT_MENU, VK_APPS, false),
        gives(KEY_CONTROL_LEFT, VK_LCONTROL, false),
        gives(KEY_CONTROL_RIGHT, VK_RCONTROL, true),
        gives(KEY_ENTER, VK_RETURN, false),
        gives(KEY_SUPER_LEFT, VK_LWIN, false),
        gives(KEY_SUPER_RIGHT, VK_RWIN, false),
        gives(KEY_SHIFT_LEFT, VK_LSHIFT, false),
        gives(KEY_SHIFT_RIGHT, VK_RSHIFT, false),
        gives(KEY_SPACE, VK_SPACE, false),
        gives(KEY_TAB, VK_TAB, false),
        gives(KEY_DELETE, VK_DELETE, true),
        gives(KEY_END, VK_END, true),
        gives(KEY_HELP, VK_HELP, false),
        gives(KEY_HOME, VK_HOME, true),
        gives(KEY_INSERT, VK_INSERT, true),
        gives(KEY_PAGE_DOWN, VK_NEXT, true),
        gives(KEY_PAGE_UP, VK_PRIOR, true),
        gives(KEY_ARROW_DOWN, VK_DOWN, true),
        gives(KEY_ARROW_LEFT, VK_LEFT, true),
        gives(KEY_ARROW_RIGHT, VK_RIGHT, true),
        gives(KEY_ARROW_UP, VK_UP, true),
        gives(KEY_NUM_LOCK, VK_NUMLOCK, false),
        gives(KEY_NUMPAD_ADD, VK_ADD, false),
        gives(KEY_NUMPAD_DECIMAL, VK_DECIMAL, false),
        gives(KEY_NUMPAD_DIVIDE, VK_DIVIDE, true),
        gives(KEY_NUMPAD_ENTER, VK_RETURN, true),
        gives(KEY_NUMPAD_MULTIPLY, VK_MULTIPLY, false),
        gives(KEY_NUMPAD_SUBTRACT, VK_SUBTRACT, false),
        gives(KEY_ESCAPE, VK_ESCAPE, false),
        gives(KEY_PRINT_SCREEN, VK_SNAPSHOT, false),
        gives(KEY_SCROLL_LOCK, VK_SCROLL, false),
        gives(KEY_PAUSE, VK_PAUSE, false),
        gives(KEY_BROWSER_BACK, VK_BROWSER_BACK, false),
        gives(KEY_BROWSER_FAVORITES, VK_BROWSER_FAVORITES, false),
        gives(KEY_BROWSER_FORWARD, VK_BROWSER_FORWARD, false),
        gives(KEY_BROWSER_HOME, VK_BROWSER_HOME, false),
        gives(KEY_BROWSER_REFRESH, VK_BROWSER_REFRESH, false),
        gives(KEY_BROWSER_SEARCH, VK_BROWSER_SEARCH, false),
        gives(KEY_BROWSER_STOP, VK_BROWSER_STOP, false),
        gives(KEY_LAUNCH_APP1, VK_LAUNCH_APP1, false),
        gives(KEY_LAUNCH_APP2, VK_LAUNCH_APP2, false),
        gives(KEY_LAUNCH_MAIL, VK_LAUNCH_MAIL, false),
        gives(KEY_MEDIA_PLAY_PAUSE, VK_MEDIA_PLAY_PAUSE, false),
        gives(KEY_MEDIA_SELECT, VK_LAUNCH_MEDIA_SELECT, false),
        gives(KEY_MEDIA_STOP, VK_MEDIA_STOP, false),
        gives(KEY_MEDIA_TRACK_NEXT, VK_MEDIA_NEXT_TRACK, false),
        gives(KEY_MEDIA_TRACK_PREVIOUS, VK_MEDIA_PREV_TRACK, false),
        gives(KEY_SLEEP, VK_SLEEP, false),
        gives(KEY_VOLUME_DOWN, VK_VOLUME_DOWN, false),
        gives(KEY_VOLUME_MUTE, VK_VOLUME_MUTE, false),
        gives(KEY_VOLUME_UP, VK_VOLUME_UP, false),
{
}

/// The digits, the letters, the digits of the keypad and the function keys follow one another in both
/// numberings: the virtual key of a digit or a letter is its character.
pub proof fn rows_of_keys_are_in_order(i: u32)
    ensures
        i < 10 ==> gives((KEY_DIGIT_0 + i) as u32, (VK_0 + i) as u32, false),
        i < 26 ==> gives((KEY_A + i) as u32, (VK_A + i) as u32, false),
        i < 10 ==> gives((KEY_NUMPAD_0 + i) as u32, (VK_NUMPAD0 + i) as u32, false),
        i < 24 ==> gives((KEY_F1 + i) as u32, (VK_F1 + i) as u32, false),
{
}

/// A key that is none of these does nothing, and neither does any key where injection is off.
pub proof fn other_keys_do_nothing(gate: InjectGate, code: u32, pressed: bool, scan: u16)
    ensures
        gate.no_inject ==> input::key_event(gate, code, pressed, scan) is None,

        16 <= code <= 18 || 64 <= code <= 71 || 95 <= code <= 98 || 102 <= code <= 108 || 110 <= code
            <= 112 || code == 115 || code == 116 || code == 127 || code == 136 || 141 <= code <= 158
            || code >= 183 ==> input::key_event(gate, code, pressed, scan) is None,
{
}

/// A key that the viewer names by its virtual key is pressed or released as it is, with its own scan
/// code. It is extended where the viewer says so, except for the two keys of Korean input. The system
/// takes the low sixteen bits of a virtual key.
pub proof fn virtual_keys_are_passed_on(vk: u32, scan: u16, pressed: bool, extended: bool)
    ensures
        input::vk_event(InjectGate { no_inject: true }, vk, scan, pressed, extended) is None,
        input::vk_event(InjectGate { no_inject: false }, vk, scan, pressed, extended) == Some(
            KeyInput {
                vk: (vk % 0x1_0000) as u16,
                scan,
                flags: ((if extended && vk != 0x15 && vk != 0x19 {
                    1int
                } else {
                    0int
                }) + (if pressed {
                    0int
                } else {
                    2int
                })) as u32,
                extra_info: 0x5DEC_0001,
            },
        ),
{
}

/// `place` is a pointer's place on a side of the screen, out of `screen` pixels, that the viewer shows
/// `win` pixels long with the pointer at `v`: the pixel at the same share of the side, rounded down,
/// or the nearest one where the pointer is outside.
pub open spec fn at_same_share(place: int, v: int, screen: int, win: int) -> bool {
    if v < 0 {
        place == 0
    } else if v >= win {
        place == screen - 1
    } else {
        place * win <= v * screen < (place + 1) * win
    }
}

proof fn lemma_share(place: int, v: int, screen: int, win: int)
    requires
        0 < win,
        0 < screen,
        at_same_share(place, v, screen, win),
    ensures
        place == input::screen_coord(v, screen, win),
{
    if v < 0 {
        assert(v * screen / win < 0) by (nonlinear_arith)
            requires
                v < 0,
                0 < screen,
                0 < win,
        ;
    } else if v >= win {
        assert(v * screen / win >= screen) by (nonlinear_arith)
            requires
                v >= win,
                0 < screen,
                0 < win,
        ;
    } else {
        assert(v * screen / win == place) by (nonlinear_arith)
            requires
                place * win <= v * screen < (place + 1) * win,
                0 < win,
        ;
        assert(0 <= place < screen) by (nonlinear_arith)
            requires
                place * win <= v * screen < (place + 1) * win,
                0 <= v < win,
                0 < screen,
        ;
    }
}

/// The pointer goes to where the viewer shows it: to the same share of each side of the screen, in
/// the units of the system, in which 65535 stand for a whole side. `px` and `py` are its place.
pub proof fn pointer_goes_where_it_is_shown(
    vx: i32,
    vy: i32,
    win_w: i32,
    win_h: i32,
    screen_w: i32,
    screen_h: i32,
    px: int,
    py: int,
)
    requires
        win_w > 0,
        win_h > 0,
        1 <= screen_w,
        1 <= screen_h,
        at_same_share(px, vx as int, screen_w as int, win_w as int),
        at_same_share(py, vy as int, screen_h as int, win_h as int),
    ensures
        ({
            let gate = InjectGate { no_inject: false };
            let m = input::screen_move(gate, vx, vy, win_w, win_h, screen_w, screen_h);
            &&& m matches Some(e)
            &&& e.dx * screen_w <= px * 65535 < (e.dx + 1) * screen_w
            &&& e.dy * screen_h <= py * 65535 < (e.dy + 1) * screen_h
            &&& e.flags == 0x8001
            &&& e.mouse_data == 0
            &&& e.extra_info == 0x5DEC_0001
        }),
{
    lemma_share(px, vx as int, screen_w as int, win_w as int);
    lemma_share(py, vy as int, screen_h as int, win_h as int);
    lemma_units(px, screen_w as int);
    lemma_units(py, screen_h as int);
    input::pointer_stays_on_screen(vx as int, screen_w as int, win_w as int);
    input::pointer_stays_on_screen(vy as int, screen_h as int, win_h as int);
}

proof fn lemma_units(place: int, screen: int)
    requires
        0 < screen,
    ensures
        input::absolute_coord(place, screen) * screen <= place * 65535 < (input::absolute_coord(
            place,
            screen,
        ) + 1) * screen,
{
    let n = place * 65535;
    assert((n / screen) * screen <= n < (n / screen + 1) * screen) by (nonlinear_arith)
        requires
            0 < screen,
    ;
}

/// A pointer that the viewer names by its place on the virtual screen goes there, in the units of the
/// system, in which 0 stands for the first pixel of a side and 65535 for the last.
pub proof fn global_pointer_goes_where_it_is(gx: i32, gy: i32, screen: VirtualScreen)
    requires
        2 <= screen.width,
        2 <= screen.height,
        screen.x + screen.width <= i32::MAX,
        screen.y + screen.height <= i32::MAX,
    ensures
        ({
            let m = input::desktop_move(InjectGate { no_inject: false }, gx, gy, screen);
            let (right, bottom) = (screen.x + screen.width - 1, screen.y + screen.height - 1);
            &&& m matches Some(e)
            &&& gx <= screen.x ==> e.dx == 0
            &&& gx >= right ==> e.dx == 65535
            &&& screen.x <= gx <= right ==> e.dx * (screen.width - 1) <= (gx - screen.x) * 65535
                < (e.dx + 1) * (screen.width - 1)
            &&& gy <= screen.y ==> e.dy == 0
            &&& gy >= bottom ==> e.dy == 65535
            &&& screen.y <= gy <= bottom ==> e.dy * (screen.height - 1) <= (gy - screen.y) * 65535
                < (e.dy + 1) * (screen.height - 1)
            &&& e.flags == 0xC001
            &&& e.mouse_data == 0
            &&& e.extra_info == 0x5DEC_0001
        }),
{
    lemma_desktop(gx as int, screen.x as int, screen.width as int);
    lemma_desktop(gy as int, screen.y as int, screen.height as int);
}

proof fn lemma_desktop(g: int, origin: int, side: int)
    requires
        2 <= side,
        origin + side <= i32::MAX,
    ensures
        ({
            let d = input::desktop_coord(g, origin, side);
            let last = origin + side - 1;
            &&& 0 <= d <= 65535
            &&& g <= origin ==> d == 0
            &&& g >= last ==> d == 65535
            &&& origin <= g <= last ==> d * (side - 1) <= (g - origin) * 65535 < (d + 1) * (side - 1)
        }),
{
    let last = origin + side - 1;
    let r = if g < origin {
        origin
    } else if g > last {
        last
    } else {
        g
    };
    let n = (r - origin) * 65535;
    let d = n / (side - 1);
    let m = side - 1;
    let k = r - origin;
    assert(d * m <= n < (d + 1) * m && 0 <= d <= 65535) by (nonlinear_arith)
        requires
            d == n / m,
            0 < m,
            0 <= k <= m,
            n == k * 65535,
    ;
    assert(k == 0 ==> d == 0) by (nonlinear_arith)
        requires
            d == n / m,
            0 < m,
            n == k * 65535,
    ;
    assert(k == m ==> d == 65535) by (nonlinear_arith)
        requires
            d == n / m,
            0 < m,
            n == k * 65535,
    ;
}

/// The buttons 0, 2 and 4 are the left, the right and the middle one: the system's flags for them are
/// 2, 8 and 32 for a press, and twice as much for a release. Other buttons do nothing.
pub proof fn buttons_are_pushed(button: u8, pressed: bool)
    ensures
        ({
            let on = InjectGate { no_inject: false };
            let off = InjectGate { no_inject: true };
            let down = if pressed {
                1int
            } else {
                2int
            };
            &&& input::button_event(off, button, pressed) is None
            &&& match input::button_event(on, button, pressed) {
                Some(m) => {
                    &&& button == 0 && m.flags == 2 * down || button == 2 && m.flags == 8 * down
                        || button == 4 && m.flags == 32 * down
                    &&& m.dx == 0
                    &&& m.dy == 0
                    &&& m.mouse_data == 0
                    &&& m.extra_info == 0x5DEC_0001
                },
                None => button != 0 && button != 2 && button != 4,
            }
        }),
{
}

/// The wheels are turned by the amounts that the viewer sends, signs and all: first the upright one,
/// then the level one, and neither where it stands still. The sign is that of a number of 32 bits.
pub proof fn wheels_are_turned(dx: i16, dy: i16)
    ensures
        ({
            let es = input::wheel_events(InjectGate { no_inject: false }, dx, dy);
            let up = if dy == 0 {
                0int
            } else {
                1
            };
            let across = if dx == 0 {
                0int
            } else {
                1
            };
            &&& input::wheel_events(InjectGate { no_inject: true }, dx, dy).len() == 0
            &&& es.len() == up + across
            &&& dy != 0 ==> es[0].flags == 0x0800 && es[0].mouse_data == if dy < 0 {
                dy + 0x1_0000_0000
            } else {
                dy as int
            }
            &&& dx != 0 ==> es[up].flags == 0x1000 && es[up].mouse_data == if dx < 0 {
                dx + 0x1_0000_0000
            } else {
                dx as int
            }
            &&& forall|i: int|
                0 <= i < es.len() ==> (#[trigger] es[i]).extra_info == 0x5DEC_0001 && es[i].dx == 0
                    && es[i].dy == 0
        }),
{
}

/// The pointer stays where injection is off, and where the picture is empty.
pub proof fn pointer_stays_without_a_picture(
    gate: InjectGate,
    vx: i32,
    vy: i32,
    win_w: i32,
    win_h: i32,
    screen_w: i32,
    screen_h: i32,
    screen: VirtualScreen,
)
    ensures
        gate.no_inject || win_w <= 0 || win_h <= 0 <==> input::screen_move(
            gate,
            vx,
            vy,
            win_w,
            win_h,
            screen_w,
            screen_h,
        ) is None,
        gate.no_inject <==> input::desktop_move(gate, vx, vy, screen) is None,
{
}

/// On a side of the virtual screen that has one pixel, or none, the pointer is at its start.
pub proof fn narrow_side_has_one_place(gx: i32, gy: i32, screen: VirtualScreen)
    requires
        screen.width <= 1,
        screen.height <= 1,
    ensures
        ({
            let m = input::desktop_move(InjectGate { no_inject: false }, gx, gy, screen);
            m matches Some(e) && e.dx == 0 && e.dy == 0
        }),
{
}

/// Where a side of the virtual screen would reach beyond the numbers of the system, its pixels are
/// counted up to the last but one of these numbers, and the pointer stays there when it is sent
/// further.
pub proof fn pointer_stays_among_the_numbers(gx: i32, origin: i32, side: i32)
    requires
        2 <= side,
        origin < i32::MAX,
        origin + side > i32::MAX,
    ensures
        ({
            let d = input::desktop_coord(gx as int, origin as int, side as int);
            let last = 0x7FFF_FFFE;
            let place = if gx < origin {
                origin as int
            } else if gx > last {
                last
            } else {
                gx as int
            };
            d * (side - 1) <= (place - origin) * 65535 < (d + 1) * (side - 1)
        }),
{
    let last = 0x7FFF_FFFEint;
    let place = if gx < origin {
        origin as int
    } else if gx > last {
        last
    } else {
        gx as int
    };
    let n = (place - origin) * 65535;
    let m = side - 1;
    assert((n / m) * m <= n < (n / m + 1) * m) by (nonlinear_arith)
        requires
            0 < m,
    ;
}

} // verus!
