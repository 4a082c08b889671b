//! Painting of the viewer's window: the remote picture at its own size, scroll bars where it does
//! not fit, and a border while the remote machine is controlled.

use crate::grid;
use vstd::prelude::*;

verus! {

/// The width of a scroll bar.
pub const BAR: u32 = 8;

/// The colour of the part of a scroll bar that shows what is visible.
pub const THUMB_COLOR: u32 = 0x00AA_AAAA;

/// The colour of the rest of a scroll bar.
pub const TRACK_COLOR: u32 = 0x0033_3333;

/// The least length of a thumb.
pub const THUMB_MIN: u32 = 20;

/// The colour of the border.
pub const BORDER_COLOR: u32 = 0x0022_CC22;

/// The width of the border.
pub const BORDER: u32 = 4;

/// The colour of the window at column `x` of row `y`: that of the picture, whose upper left corner
/// stands at (`off_x`, `off_y`) and shows its pixel (`scroll_x`, `scroll_y`); black beside it.
pub open spec fn blit_px(
    src: Seq<u32>,
    src_w: int,
    src_h: int,
    scroll_x: int,
    scroll_y: int,
    off_x: int,
    off_y: int,
    x: int,
    y: int,
) -> u32 {
    let fx = x - off_x + scroll_x;
    let fy = y - off_y + scroll_y;
    if off_x <= x && fx < src_w && off_y <= y && fy < src_h {
        src[fy * src_w + fx]
    } else {
        0
    }
}

/// The window after the picture was copied into it. An empty picture leaves it as it was.
pub open spec fn blitted(
    src: Seq<u32>,
    src_w: int,
    src_h: int,
    dst: Seq<u32>,
    dst_w: int,
    dst_h: int,
    scroll_x: int,
    scroll_y: int,
    off_x: int,
    off_y: int,
) -> Seq<u32> {
    if src_w == 0 || src_h == 0 {
        dst
    } else {
        Seq::new(
            dst.len(),
            |k: int|
                if k < dst_w * dst_h {
                    blit_px(
                        src,
                        src_w,
                        src_h,
                        scroll_x,
                        scroll_y,
                        off_x,
                        off_y,
                        k % dst_w,
                        k / dst_w,
                    )
                } else {
                    dst[k]
                },
        )
    }
}

/// How many rows of the window the picture can cover.
pub open spec fn rows_shown(src_h: int, dst_h: int, off_y: int) -> int {
    if dst_h - off_y < src_h {
        dst_h - off_y
    } else {
        src_h
    }
}

/// Copies the picture into the window, pixel by pixel.
pub fn blit_frame(
    src: &[u32],
    src_w: u32,
    src_h: u32,
    dst: &mut [u32],
    dst_w: u32,
    dst_h: u32,
    scroll_x: u32,
    scroll_y: u32,
    off_x: u32,
    off_y: u32,
)
    requires
        src_w * src_h <= src.len(),
        dst_w * dst_h <= old(dst)@.len(),
        scroll_x <= src_w,
        off_y + src_h <= u32::MAX,
        rows_shown(src_h as int, dst_h as int, off_y as int) + scroll_y <= u32::MAX,
    ensures
        final(dst)@ == blitted(
            src@,
            src_w as int,
            src_h as int,
            old(dst)@,
            dst_w as int,
            dst_h as int,
            scroll_x as int,
            scroll_y as int,
            off_x as int,
            off_y as int,
        ),
{
    if src_w == 0 || src_h == 0 {
        return ;
    }
    let ghost start = dst@;
    let ghost want = blitted(
        src@,
        src_w as int,
        src_h as int,
        start,
        dst_w as int,
        dst_h as int,
        scroll_x as int,
        scroll_y as int,
        off_x as int,
        off_y as int,
    );
    let mut k: usize = 0;
    let mut y: u32 = 0;
    while y < dst_h
        invariant
            y <= dst_h,
            k == y * dst_w,
            0 < src_w,
            0 < src_h,
            src_w * src_h <= src.len(),
            dst_w * dst_h <= dst@.len(),
            dst@.len() == start.len(),
            scroll_x <= src_w,
            want == blitted(
                src@,
                src_w as int,
                src_h as int,
                start,
                dst_w as int,
                dst_h as int,
                scroll_x as int,
                scroll_y as int,
                off_x as int,
                off_y as int,
            ),
            forall|j: int| 0 <= j < k ==> dst@[j] == want[j],
            forall|j: int| k <= j < dst@.len() ==> dst@[j] == start[j],
        decreases dst_h - y,
    {
        let mut x: u32 = 0;
        while x < dst_w
            invariant
                x <= dst_w,
                y < dst_h,
                k == y * dst_w + x,
                0 < src_w,
                0 < src_h,
                src_w * src_h <= src.len(),
                dst_w * dst_h <= dst@.len(),
                dst@.len() == start.len(),
                scroll_x <= src_w,
                want == blitted(
                    src@,
                    src_w as int,
                    src_h as int,
                    start,
                    dst_w as int,
                    dst_h as int,
                    scroll_x as int,
                    scroll_y as int,
                    off_x as int,
                    off_y as int,
                ),
                forall|j: int| 0 <= j < k ==> dst@[j] == want[j],
                forall|j: int| k <= j < dst@.len() ==> dst@[j] == start[j],
            decreases dst_w - x,
        {
            proof {
                grid::lemma_cell(dst_w as int, y as int, x as int);
                grid::lemma_cell_bound(dst_w as int, dst_h as int, y as int, x as int);
            }
            let mut px: u32 = 0;
            if off_x <= x && off_y <= y {
                let fx: u64 = (x - off_x) as u64 + scroll_x as u64;
                let fy: u64 = (y - off_y) as u64 + scroll_y as u64;
                if fx < src_w as u64 && fy < src_h as u64 {
                    proof {
                        grid::lemma_cell_bound(src_w as int, src_h as int, fy as int, fx as int);
                        assert(0 <= fy * src_w <= fy * src_w + fx);
                    }
                    px = src[fy as usize * src_w as usize + fx as usize];
                }
            }
            dst[k] = px;
            k = k + 1;
            x = x + 1;
        }
        assert((y + 1) * dst_w == y * dst_w + dst_w) by (nonlinear_arith);
        y = y + 1;
    }
    assert(k == dst_w * dst_h) by (nonlinear_arith)
        requires
            k == dst_h * dst_w,
    ;
    assert(dst@ =~= want);
}

/// The window with the columns `x0..x1` of the rows `y0..y1` in one colour.
pub open spec fn filled(
    buf: Seq<u32>,
    w: int,
    x0: int,
    x1: int,
    y0: int,
    y1: int,
    color: u32,
) -> Seq<u32> {
    Seq::new(
        buf.len(),
        |k: int|
            if x0 <= k % w < x1 && y0 <= k / w && k / w < y1 {
                color
            } else {
                buf[k]
            },
    )
}

fn fill_rect(buf: &mut [u32], w: u32, x0: u32, x1: u32, y0: u32, y1: u32, color: u32)
    requires
        x1 <= w,
    ensures
        final(buf)@ == filled(
            old(buf)@,
            w as int,
            x0 as int,
            x1 as int,
            y0 as int,
            y1 as int,
            color,
        ),
{
    let ghost start = buf@;
    let ghost wi = w as int;
    if w == 0 {
        assert forall|k: int| 0 <= k < start.len() implies start[k] == filled(
            start,
            wi,
            x0 as int,
            x1 as int,
            y0 as int,
            y1 as int,
            color,
        )[k] by {}
        assert(buf@ =~= filled(start, wi, x0 as int, x1 as int, y0 as int, y1 as int, color));
        return ;
    }
    let mut y: u32 = y0;
    while y < y1
        invariant
            y0 <= y,
            y <= y1 || y == y0,
            x1 <= w,
            0 < w,
            wi == w,
            buf@.len() == start.len(),
            forall|k: int|
                0 <= k < start.len() ==> #[trigger] buf@[k] == if grid::passed(
                    wi,
                    k,
                    x0 as int,
                    x1 as int,
                    y0 as int,
                    y as int,
                    0,
                ) {
                    color
                } else {
                    start[k]
                },
        decreases y1 - y,
    {
        let mut x: u32 = x0;
        while x < x1
            invariant
                x0 <= x,
                x <= x1 || x == x0,
                y0 <= y < y1,
                x1 <= w,
                0 < w,
                wi == w,
                buf@.len() == start.len(),
                forall|k: int|
                    0 <= k < start.len() ==> #[trigger] buf@[k] == if grid::passed(
                        wi,
                        k,
                        x0 as int,
                        x1 as int,
                        y0 as int,
                        y as int,
                        x as int,
                    ) {
                        color
                    } else {
                        start[k]
                    },
            decreases x1 - x,
        {
            assert(0 <= y * w <= 0xFFFF_FFFF * 0xFFFF_FFFF) by (nonlinear_arith)
                requires
                    0 <= y <= 0xFFFF_FFFF,
                    0 <= w <= 0xFFFF_FFFF,
            ;
            let k: u64 = y as u64 * w as u64 + x as u64;
            proof {
                grid::lemma_cell(wi, y as int, x as int);
                assert forall|j: int| 0 <= j < start.len() && j != k implies grid::passed(
                    wi,
                    j,
                    x0 as int,
                    x1 as int,
                    y0 as int,
                    y as int,
                    x + 1,
                ) == grid::passed(
                    wi,
                    j,
                    x0 as int,
                    x1 as int,
                    y0 as int,
                    y as int,
                    x as int,
                ) by {
                    grid::lemma_number(wi, j);
                }
            }
            if k < buf.len() as u64 {
                buf[k as usize] = color;
            }
            x = x + 1;
        }
        proof {
            assert forall|k: int| 0 <= k < start.len() implies grid::passed(
                wi,
                k,
                x0 as int,
                x1 as int,
                y0 as int,
                y + 1,
                0,
            ) == grid::passed(
                wi,
                k,
                x0 as int,
                x1 as int,
                y0 as int,
                y as int,
                x as int,
            ) by {
                grid::lemma_number(wi, k);
            }
        }
        y = y + 1;
    }
    proof {
        assert forall|k: int| 0 <= k < start.len() implies buf@[k] == filled(
            start,
            wi,
            x0 as int,
            x1 as int,
            y0 as int,
            y1 as int,
            color,
        )[k] by {
            grid::lemma_number(wi, k);
        }
        assert(buf@ =~= filled(start, wi, x0 as int, x1 as int, y0 as int, y1 as int, color));
    }
}

/// The length of a scroll bar in a window side of length `win`: it ends where the other bar
/// stands.
pub open spec fn track_len(win: int, other: bool) -> int {
    if !other {
        win
    } else if win < BAR {
        0
    } else {
        win - BAR
    }
}

/// The length of the thumb: its share of the bar is the window's of the picture, at least
/// `THUMB_MIN`, and no longer than the bar.
pub open spec fn thumb_len(track: int, win: int, frame: int) -> int {
    let share = track * win / frame;
    let at_least = if share < THUMB_MIN {
        THUMB_MIN as int
    } else {
        share
    };
    if at_least > track {
        track
    } else {
        at_least
    }
}

/// Where the thumb begins: at the start of the bar where nothing is scrolled, at its end where all
/// is.
pub open spec fn thumb_pos(scroll: int, track: int, thumb: int, win: int, frame: int) -> int {
    scroll * (track - thumb) / (frame - win)
}

/// Where the bar along the far side begins.
pub open spec fn bar_pos(win: int) -> int {
    if win < BAR {
        0
    } else {
        win - BAR
    }
}

/// The window with the upright scroll bar, where one is needed.
pub open spec fn with_upright_bar(
    buf: Seq<u32>,
    win_w: int,
    win_h: int,
    frame_w: int,
    frame_h: int,
    scroll_y: int,
) -> Seq<u32> {
    if frame_h > win_h {
        let track = track_len(win_h, frame_w > win_w);
        let thumb = thumb_len(track, win_h, frame_h);
        let pos = thumb_pos(scroll_y, track, thumb, win_h, frame_h);
        let x = bar_pos(win_w);
        filled(
            filled(buf, win_w, x, win_w, 0, track, TRACK_COLOR),
            win_w,
            x,
            win_w,
            pos,
            pos + thumb,
            THUMB_COLOR,
        )
    } else {
        buf
    }
}

/// The window with the level scroll bar, where one is needed.
pub open spec fn with_level_bar(
    buf: Seq<u32>,
    win_w: int,
    win_h: int,
    frame_w: int,
    frame_h: int,
    scroll_x: int,
) -> Seq<u32> {
    if frame_w > win_w {
        let track = track_len(win_w, frame_h > win_h);
        let thumb = thumb_len(track, win_w, frame_w);
        let pos = thumb_pos(scroll_x, track, thumb, win_w, frame_w);
        let y = bar_pos(win_h);
        filled(
            filled(buf, win_w, 0, track, y, win_h, TRACK_COLOR),
            win_w,
            pos,
            pos + thumb,
            y,
            win_h,
            THUMB_COLOR,
        )
    } else {
        buf
    }
}

/// The window with its scroll bars.
pub open spec fn with_scrollbars(
    buf: Seq<u32>,
    win_w: int,
    win_h: int,
    frame_w: int,
    frame_h: int,
    scroll_x: int,
    scroll_y: int,
) -> Seq<u32> {
    with_level_bar(
        with_upright_bar(buf, win_w, win_h, frame_w, frame_h, scroll_y),
        win_w,
        win_h,
        frame_w,
        frame_h,
        scroll_x,
    )
}

/// The thumb lies on the bar: it is no longer than the bar, and ends on it wherever the picture is
/// scrolled to.
pub proof fn thumb_stays_on_bar(win: u32, frame: u32, other: bool, scroll: u32)
    requires
        win < frame,
        scroll <= frame - win,
    ensures
        ({
            let track = track_len(win as int, other);
            let thumb = thumb_len(track, win as int, frame as int);
            let pos = thumb_pos(scroll as int, track, thumb, win as int, frame as int);
            0 <= thumb <= track <= win && 0 <= pos <= track - thumb
        }),
{
    let track = track_len(win as int, other);
    assert(0 <= track * win / (frame as int) <= track) by (nonlinear_arith)
        requires
            0 <= track,
            0 <= win < frame,
    ;
    let thumb = thumb_len(track, win as int, frame as int);
    let room = track - thumb;
    let max = frame - win;
    assert(0 <= scroll * room / max <= room) by (nonlinear_arith)
        requires
            0 <= scroll <= max,
            0 <= room,
            0 < max,
    ;
}

/// At the ends of the picture the thumb stands at the ends of its bar.
pub proof fn thumb_reaches_both_ends(win: u32, frame: u32, other: bool)
    requires
        win < frame,
    ensures
        ({
            let track = track_len(win as int, other);
            let thumb = thumb_len(track, win as int, frame as int);
            &&& thumb_pos(0, track, thumb, win as int, frame as int) == 0
            &&& thumb_pos(frame - win, track, thumb, win as int, frame as int) + thumb == track
        }),
{
    let track = track_len(win as int, other);
    let thumb = thumb_len(track, win as int, frame as int);
    let room = track - thumb;
    let max = frame - win;
    assert(0 * room / max == 0 && max * room / max == room) by (nonlinear_arith)
        requires
            0 < max,
    ;
}

/// The measures of a scroll bar: its length, and the place and length of its thumb.
fn bar_measures(win: u32, frame: u32, other: bool, scroll: u32) -> (m: (u32, u32, u32))
    requires
        win < frame,
        scroll <= frame - win,
    ensures
        m.0 == track_len(win as int, other),
        m.2 == thumb_len(m.0 as int, win as int, frame as int),
        m.1 == thumb_pos(scroll as int, m.0 as int, m.2 as int, win as int, frame as int),
        m.0 <= win,
        m.1 + m.2 <= m.0,
{
    proof {
        thumb_stays_on_bar(win, frame, other, scroll);
    }
    let track: u32 = if !other {
        win
    } else if win < BAR {
        0
    } else {
        win - BAR
    };
    assert(0 <= track * win <= 0xFFFF_FFFF * 0xFFFF_FFFF && 0 <= track * win / (frame as int)
        <= track) by (nonlinear_arith)
        requires
            0 <= track <= 0xFFFF_FFFF,
            0 <= win <= 0xFFFF_FFFF,
            win < frame,
    ;
    let share: u32 = (track as u64 * win as u64 / frame as u64) as u32;
    let at_least: u32 = if share < THUMB_MIN {
        THUMB_MIN
    } else {
        share
    };
    let thumb: u32 = if at_least > track {
        track
    } else {
        at_least
    };
    let room: u32 = track - thumb;
    assert(0 <= scroll * room <= 0xFFFF_FFFF * 0xFFFF_FFFF) by (nonlinear_arith)
        requires
            0 <= scroll <= 0xFFFF_FFFF,
            0 <= room <= 0xFFFF_FFFF,
    ;
    let pos: u32 = (scroll as u64 * room as u64 / (frame - win) as u64) as u32;
    (track, pos, thumb)
}

fn bar_start(win: u32) -> (p: u32)
    ensures
        p == bar_pos(win as int),
        p <= win,
{
    if win < BAR {
        0
    } else {
        win - BAR
    }
}

/// Paints the scroll bars: along the right side where the picture is higher than the window, along
/// the bottom where it is wider.
pub fn draw_scrollbars(
    buf: &mut [u32],
    win_w: u32,
    win_h: u32,
    frame_w: u32,
    frame_h: u32,
    scroll_x: u32,
    scroll_y: u32,
)
    requires
        win_w * win_h <= u32::MAX,
        frame_h > win_h ==> scroll_y <= frame_h - win_h,
        frame_w > win_w ==> scroll_x <= frame_w - win_w,
    ensures
        final(buf)@ == with_scrollbars(
            old(buf)@,
            win_w as int,
            win_h as int,
            frame_w as int,
            frame_h as int,
            scroll_x as int,
            scroll_y as int,
        ),
{
    let need_h: bool = frame_w > win_w;
    let need_v: bool = frame_h > win_h;
    if need_v {
        let (track, pos, thumb) = bar_measures(win_h, frame_h, need_h, scroll_y);
        let x: u32 = bar_start(win_w);
        fill_rect(buf, win_w, x, win_w, 0, track, TRACK_COLOR);
        fill_rect(buf, win_w, x, win_w, pos, pos + thumb, THUMB_COLOR);
    }
    if need_h {
        let (track, pos, thumb) = bar_measures(win_w, frame_w, need_v, scroll_x);
        let y: u32 = bar_start(win_h);
        fill_rect(buf, win_w, 0, track, y, win_h, TRACK_COLOR);
        fill_rect(buf, win_w, pos, pos + thumb, y, win_h, THUMB_COLOR);
    }
}

/// The width of the border in a window of `w` by `h` pixels: no more than half of either side.
pub open spec fn border_width(w: int, h: int) -> int {
    let t = if h / 2 < BORDER {
        h / 2
    } else {
        BORDER as int
    };
    if w / 2 < t {
        w / 2
    } else {
        t
    }
}

/// The pixel at column `x` of row `y` belongs to the border.
pub open spec fn on_border(w: int, h: int, x: int, y: int) -> bool {
    let t = border_width(w, h);
    y < t || y >= h - t || x < t || x >= w - t
}

/// The window with the border.
pub open spec fn with_border(buf: Seq<u32>, w: int, h: int) -> Seq<u32> {
    Seq::new(
        buf.len(),
        |k: int|
            if k < w * h && on_border(w, h, k % w, k / w) {
                BORDER_COLOR
            } else {
                buf[k]
            },
    )
}

/// Paints the border.
pub fn draw_control_border(buf: &mut [u32], w: u32, h: u32)
    requires
        w * h <= old(buf)@.len(),
        w * h <= u32::MAX,
    ensures
        final(buf)@ == with_border(old(buf)@, w as int, h as int),
{
    let ghost start = buf@;
    let ghost wi = w as int;
    let ghost hi = h as int;
    let half: u32 = if h / 2 < BORDER {
        h / 2
    } else {
        BORDER
    };
    let thick: u32 = if w / 2 < half {
        w / 2
    } else {
        half
    };
    fill_rect(buf, w, 0, w, 0, thick, BORDER_COLOR);
    fill_rect(buf, w, 0, w, h - thick, h, BORDER_COLOR);
    fill_rect(buf, w, 0, thick, 0, h, BORDER_COLOR);
    fill_rect(buf, w, w - thick, w, 0, h, BORDER_COLOR);
    proof {
        assert forall|k: int| 0 <= k < start.len() implies buf@[k] == with_border(
            start,
            wi,
            hi,
        )[k] by {
            if w == 0 {
                assert(w * h == 0) by (nonlinear_arith)
                    requires
                        w == 0,
                ;
            } else {
                grid::lemma_number(wi, k);
                if k < w * h {
                    grid::lemma_row_bound(wi, hi, k);
                } else {
                    assert(k / wi >= hi) by (nonlinear_arith)
                        requires
                            k >= wi * hi,
                            0 < wi,
                    ;
                }
            }
        }
        assert(buf@ =~= with_border(start, wi, hi));
    }
}

} // verus!
