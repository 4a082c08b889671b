//! What the painted window shows, place by place.

use crate::grid;
use crate::viewer::display;
use crate::viewer::display::{Effect, FrameBuffer, InputEvent, ViewState};
use crate::viewer::render;
use vstd::prelude::*;

verus! {

/// `start` is where a side of length `side` begins that stands in the middle of a window side: as
/// much room is before it as behind it, or one pixel less. A side that does not fit begins at the
/// window's edge.
pub open spec fn in_the_middle(start: int, side: int, win: int) -> bool {
    if side < win {
        win - side - 1 <= 2 * start <= win - side
    } else {
        start == 0
    }
}

proof fn lemma_margin(start: int, side: int, win: int)
    requires
        in_the_middle(start, side, win),
    ensures
        start == display::margin(side, win),
{
}

/// The window shows the picture at its own size. One that fits stands in the middle with black
/// around it; of a larger one the part is shown that begins at the scrolled place. The scroll bars
/// take the last eight columns and rows where they are needed, and the border the outer four pixels
/// under control.
pub proof fn picture_stands_in_its_place(
    s: ViewState,
    frame: FrameBuffer,
    buf: Seq<u32>,
    x: int,
    y: int,
    left: int,
    top: int,
)
    requires
        frame.width > 0,
        frame.height > 0,
        s.window_size.0 * s.window_size.1 <= buf.len(),
        0 <= x < s.window_size.0,
        0 <= y < s.window_size.1,
        in_the_middle(left, frame.width as int, s.window_size.0 as int),
        in_the_middle(top, frame.height as int, s.window_size.1 as int),
        frame.height > s.window_size.1 ==> x < s.window_size.0 - 8,
        frame.width > s.window_size.0 ==> y < s.window_size.1 - 8,
        s.control_active ==> 4 <= x < s.window_size.0 - 4 && 4 <= y < s.window_size.1 - 4,
    ensures
        ({
            let (px, py) = (x - left + s.scroll_x, y - top + s.scroll_y);
            let shows = left <= x && px < frame.width && top <= y && py < frame.height;
            &&& display::painted(s, frame, buf).len() == buf.len()
            &&& shows ==> display::painted(s, frame, buf)[y * s.window_size.0 + x]
                == frame.pixels@[py * frame.width + px]
            &&& !shows ==> display::painted(s, frame, buf)[y * s.window_size.0 + x] == 0
        }),
{
    let (w, h) = (s.window_size.0 as int, s.window_size.1 as int);
    let k = y * w + x;
    lemma_margin(left, frame.width as int, w);
    lemma_margin(top, frame.height as int, h);
    grid::lemma_cell(w, y, x);
    grid::lemma_cell_bound(w, h, y, x);
    assert(k % w == x && k / w == y && k < w * h && k < buf.len());
}

/// The part of a large picture that is seen moves with the scrolled place: without control, and where
/// the picture is at least as large as the window and not scrolled beyond its end, the window shows
/// in column `x` of row `y` the pixel that stands as far right of and below the scrolled place.
pub proof fn picture_is_panned(
    s: ViewState,
    frame: FrameBuffer,
    buf: Seq<u32>,
    x: int,
    y: int,
)
    requires
        !s.control_active,
        s.window_size.0 <= frame.width,
        s.window_size.1 <= frame.height,
        s.scroll_x <= frame.width - s.window_size.0,
        s.scroll_y <= frame.height - s.window_size.1,
        s.window_size.0 * s.window_size.1 <= buf.len(),
        0 <= x < s.window_size.0,
        0 <= y < s.window_size.1,
        frame.height > s.window_size.1 ==> x < s.window_size.0 - 8,
        frame.width > s.window_size.0 ==> y < s.window_size.1 - 8,
    ensures
        display::painted(s, frame, buf)[y * s.window_size.0 + x] == frame.pixels@[(y + s.scroll_y)
            * frame.width + (x + s.scroll_x)],
{
    picture_stands_in_its_place(s, frame, buf, x, y, 0, 0);
}

/// What is clicked is what is seen: under control, where the picture is at least as large as the
/// window, the pixel that the window shows at a place is the one that a move of the pointer to that
/// place names to the agent.
pub proof fn pointer_names_what_is_seen(
    s: ViewState,
    frame: FrameBuffer,
    buf: Seq<u32>,
    a: display::Around,
    x: int,
    y: int,
)
    requires
        s.control_active,
        s.has_input,
        !s.mouse_global,
        s.window_size.0 <= frame.width <= i32::MAX,
        s.window_size.1 <= frame.height <= i32::MAX,
        s.scroll_x <= frame.width - s.window_size.0,
        s.scroll_y <= frame.height - s.window_size.1,
        s.window_size.0 * s.window_size.1 <= buf.len(),
        12 <= x < s.window_size.0 - 12,
        12 <= y < s.window_size.1 - 12,
    ensures
        ({
            let sent = s.pointer_move(Some((frame.width, frame.height)), a, x, y);
            &&& sent.len() == 1
            &&& sent[0] matches Effect::Send(InputEvent::MouseMove { x: px, y: py, win_w, win_h })
            &&& win_w == frame.width
            &&& win_h == frame.height
            &&& display::painted(s, frame, buf)[y * s.window_size.0 + x] == frame.pixels@[py * win_w
                + px]
        }),
{
    picture_stands_in_its_place(s, frame, buf, x, y, 0, 0);
}

/// The border is painted under control, in its green, over the outer four pixels of the window on
/// each side, and the rest of the window is as without control.
pub proof fn border_shows_control(s: ViewState, frame: FrameBuffer, buf: Seq<u32>, x: int, y: int)
    requires
        s.control_active,
        8 <= s.window_size.0,
        8 <= s.window_size.1,
        s.window_size.0 * s.window_size.1 <= buf.len(),
        0 <= x < s.window_size.0,
        0 <= y < s.window_size.1,
    ensures
        ({
            let w = s.window_size.0;
            let h = s.window_size.1;
            let k = y * w + x;
            let outer = x < 4 || y < 4 || x >= w - 4 || y >= h - 4;
            let free = ViewState { control_active: false, ..s };
            &&& outer ==> display::painted(s, frame, buf)[k] == 0x22CC22
            &&& !outer ==> display::painted(s, frame, buf)[k] == display::painted(free, frame, buf)[k]
        }),
{
    let (w, h) = (s.window_size.0 as int, s.window_size.1 as int);
    grid::lemma_cell(w, y, x);
    grid::lemma_cell_bound(w, h, y, x);
}

/// `thumb` pixels of a bar of `track` stand for the part of a side that is seen, `win` of `side`:
/// its share of the bar, rounded down, but at least twenty pixels, and no more than the bar has.
pub open spec fn stands_for(thumb: int, track: int, win: int, side: int) -> bool {
    &&& 0 <= thumb <= track
    &&& track > 20 ==> thumb < track
    &&& thumb < track && thumb > 20 ==> thumb * side <= track * win < (thumb + 1) * side
    &&& thumb < 20 ==> thumb == track
    &&& thumb == 20 && thumb < track ==> track * win < 21 * side
    &&& track * win < 21 * side ==> thumb <= 20
}

proof fn lemma_thumb(track: int, win: int, side: int)
    requires
        0 <= track <= win,
        win < side,
    ensures
        stands_for(render::thumb_len(track, win, side), track, win, side),
{
    let n = track * win;
    let share = n / side;
    assert(0 <= n) by (nonlinear_arith)
        requires
            n == track * win,
            0 <= track,
            0 <= win,
    ;
    assert(share * side <= n < (share + 1) * side && 0 <= share) by (nonlinear_arith)
        requires
            share == n / side,
            0 <= n,
            0 < side,
    ;
    assert(0 < track ==> share < track) by (nonlinear_arith)
        requires
            share * side <= n,
            n == track * win,
            win < side,
            0 <= win,
    ;
    assert(n < 21 * side ==> share <= 20) by (nonlinear_arith)
        requires
            share * side <= n,
            0 < side,
    ;
    assert(share <= 20 ==> n < 21 * side) by (nonlinear_arith)
        requires
            n < (share + 1) * side,
            0 < side,
    ;
}

/// The bar along the right side tells what is seen of a picture that is higher than the window: it
/// takes the last eight columns, down to the bottom or to the other bar. Its thumb has the share of
/// the bar that the window has of the picture, and stands as far down the bar as the picture is
/// scrolled.
pub proof fn upright_bar_tells_what_is_seen(
    s: ViewState,
    frame: FrameBuffer,
    buf: Seq<u32>,
    x: int,
    y: int,
) -> (r: (int, int))
    requires
        !s.control_active,
        frame.width > 0,
        8 <= s.window_size.0,
        8 <= s.window_size.1 < frame.height,
        s.scroll_y <= frame.height - s.window_size.1,
        s.window_size.0 * s.window_size.1 <= buf.len(),
        s.window_size.0 - 8 <= x < s.window_size.0,
        0 <= y < s.window_size.1,
        frame.width > s.window_size.0 ==> y < s.window_size.1 - 8,
    ensures
        ({
            let (thumb, pos) = r;
            let h = s.window_size.1 as int;
            let track = if frame.width > s.window_size.0 {
                h - 8
            } else {
                h
            };
            let hidden = frame.height - h;
            let px = display::painted(s, frame, buf)[y * s.window_size.0 + x];
            &&& stands_for(thumb, track, h, frame.height as int)
            &&& pos * hidden <= s.scroll_y * (track - thumb) < (pos + 1) * hidden
            &&& px == if pos <= y < pos + thumb {
                0xAAAAAAu32
            } else {
                0x333333u32
            }
        }),
{
    let (w, h) = (s.window_size.0 as int, s.window_size.1 as int);
    grid::lemma_cell(w, y, x);
    grid::lemma_cell_bound(w, h, y, x);
    let track = render::track_len(h, frame.width > s.window_size.0);
    lemma_thumb(track, h, frame.height as int);
    let thumb = render::thumb_len(track, h, frame.height as int);
    let pos = render::thumb_pos(s.scroll_y as int, track, thumb, h, frame.height as int);
    lemma_quotient(s.scroll_y * (track - thumb), frame.height - h);
    (thumb, pos)
}

proof fn lemma_quotient(n: int, d: int)
    requires
        0 < d,
    ensures
        (n / d) * d <= n < (n / d + 1) * d,
{
    assert((n / d) * d <= n < (n / d + 1) * d) by (nonlinear_arith)
        requires
            0 < d,
    ;
}

/// The bar along the bottom tells what is seen of a picture that is wider than the window: it takes
/// the last eight rows, across to the right side or to the other bar. Its thumb has the share of the
/// bar that the window has of the picture, and stands as far along the bar as the picture is
/// scrolled.
pub proof fn level_bar_tells_what_is_seen(
    s: ViewState,
    frame: FrameBuffer,
    buf: Seq<u32>,
    x: int,
    y: int,
) -> (r: (int, int))
    requires
        !s.control_active,
        frame.height > 0,
        8 <= s.window_size.1,
        8 <= s.window_size.0 < frame.width,
        s.scroll_x <= frame.width - s.window_size.0,
        s.window_size.0 * s.window_size.1 <= buf.len(),
        0 <= x < s.window_size.0,
        s.window_size.1 - 8 <= y < s.window_size.1,
        frame.height > s.window_size.1 ==> x < s.window_size.0 - 8,
    ensures
        ({
            let (thumb, pos) = r;
            let w = s.window_size.0 as int;
            let track = if frame.height > s.window_size.1 {
                w - 8
            } else {
                w
            };
            let hidden = frame.width - w;
            let px = display::painted(s, frame, buf)[y * w + x];
            &&& stands_for(thumb, track, w, frame.width as int)
            &&& pos * hidden <= s.scroll_x * (track - thumb) < (pos + 1) * hidden
            &&& px == if pos <= x < pos + thumb {
                0xAAAAAAu32
            } else {
                0x333333u32
            }
        }),
{
    let (w, h) = (s.window_size.0 as int, s.window_size.1 as int);
    grid::lemma_cell(w, y, x);
    grid::lemma_cell_bound(w, h, y, x);
    let track = render::track_len(w, frame.height > s.window_size.1);
    lemma_thumb(track, w, frame.width as int);
    let thumb = render::thumb_len(track, w, frame.width as int);
    let pos = render::thumb_pos(s.scroll_x as int, track, thumb, w, frame.width as int);
    lemma_quotient(s.scroll_x * (track - thumb), frame.width - w);
    (thumb, pos)
}

/// Nothing is painted behind the window's own pixels.
pub proof fn only_the_window_is_painted(s: ViewState, frame: FrameBuffer, buf: Seq<u32>, k: int)
    requires
        s.wf(),
        s.scroll_x <= frame.width,
        s.scroll_y <= frame.height,
        frame.height > s.window_size.1 ==> s.scroll_y <= frame.height - s.window_size.1,
        frame.width > s.window_size.0 ==> s.scroll_x <= frame.width - s.window_size.0,
        s.window_size.0 * s.window_size.1 <= k < buf.len(),
    ensures
        display::painted(s, frame, buf)[k] == buf[k],
{
    let (w, h) = (s.window_size.0 as int, s.window_size.1 as int);
    grid::lemma_number(w, k);
    assert(k / w >= h) by (nonlinear_arith)
        requires
            k == (k / w) * w + k % w,
            k % w < w,
            w * h <= k,
            0 < w,
    ;
    if frame.height > s.window_size.1 {
        render::thumb_stays_on_bar(
            s.window_size.1,
            frame.height,
            frame.width > s.window_size.0,
            s.scroll_y,
        );
    }
    if frame.width > s.window_size.0 {
        render::thumb_stays_on_bar(
            s.window_size.0,
            frame.width,
            frame.height > s.window_size.1,
            s.scroll_x,
        );
    }
}

/// A picture is copied pixel by pixel: the place (`off_x`, `off_y`) of the window gets the pixel
/// (`scroll_x`, `scroll_y`), the places to the right of it and below it the pixels to the right and
/// below, and every place that the picture does not reach is black. Behind the window, and where there
/// is no picture, nothing changes.
pub proof fn picture_is_copied(
    src: Seq<u32>,
    src_w: int,
    src_h: int,
    dst: Seq<u32>,
    dst_w: int,
    dst_h: int,
    scroll_x: int,
    scroll_y: int,
    off_x: int,
    off_y: int,
    x: int,
    y: int,
    k: int,
)
    requires
        dst_w * dst_h <= dst.len(),
        0 <= x < dst_w,
        0 <= y < dst_h,
    ensures
        ({
            let out = render::blitted(
                src,
                src_w,
                src_h,
                dst,
                dst_w,
                dst_h,
                scroll_x,
                scroll_y,
                off_x,
                off_y,
            );
            let (dx, dy) = (x - off_x, y - off_y);
            let there = 0 <= dx < src_w - scroll_x && 0 <= dy < src_h - scroll_y;
            &&& out.len() == dst.len()
            &&& src_w == 0 || src_h == 0 ==> out == dst
            &&& src_w != 0 && src_h != 0 ==> {
                &&& there ==> out[y * dst_w + x] == src[(scroll_y + dy) * src_w + (scroll_x + dx)]
                &&& !there ==> out[y * dst_w + x] == 0
                &&& dst_w * dst_h <= k < dst.len() ==> out[k] == dst[k]
            }
        }),
{
    grid::lemma_cell(dst_w, y, x);
    grid::lemma_cell_bound(dst_w, dst_h, y, x);
}

/// The border follows the sides of the window, four pixels wide, or half of the shorter side in a
/// small window. Every other pixel stays as it was.
pub proof fn border_follows_the_sides(buf: Seq<u32>, w: int, h: int, x: int, y: int, t: int)
    requires
        w * h <= buf.len(),
        0 <= x < w,
        0 <= y < h,
        t <= 4,
        2 * t <= w,
        2 * t <= h,
        t == 4 || w < 2 * t + 2 || h < 2 * t + 2,
    ensures
        ({
            let out = render::with_border(buf, w, h);
            let outer = x < t || y < t || w - x <= t || h - y <= t;
            &&& out.len() == buf.len()
            &&& outer ==> out[y * w + x] == 0x22CC22
            &&& !outer ==> out[y * w + x] == buf[y * w + x]
        }),
{
    grid::lemma_cell(w, y, x);
    grid::lemma_cell_bound(w, h, y, x);
}

/// A rectangle is filled from its left and upper side up to, but not with, its right and lower side,
/// and every other pixel stays as it was.
pub proof fn rectangle_is_filled(
    buf: Seq<u32>,
    w: int,
    h: int,
    x0: int,
    x1: int,
    y0: int,
    y1: int,
    color: u32,
    x: int,
    y: int,
)
    requires
        w * h <= buf.len(),
        0 <= x < w,
        0 <= y < h,
    ensures
        ({
            let out = render::filled(buf, w, x0, x1, y0, y1, color);
            let within = x0 <= x < x1 && y0 <= y < y1;
            &&& out.len() == buf.len()
            &&& within ==> out[y * w + x] == color
            &&& !within ==> out[y * w + x] == buf[y * w + x]
        }),
{
    grid::lemma_cell(w, y, x);
    grid::lemma_cell_bound(w, h, y, x);
}

} // verus!
