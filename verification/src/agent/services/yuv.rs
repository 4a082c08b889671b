//! Conversion of BGRA pictures to I420.
//!
//! An I420 picture of `w` by `h` pixels is the luma plane (`w * h` bytes), then the blue and the
//! red chroma plane (`w / 2` by `h / 2` bytes each). The coefficients are those of BT.601 in
//! fixed point with eight fractional bits:
//!
//! ```text
//! Y  = ( 66 R + 129 G +  25 B + 128 >> 8) +  16
//! Cb = (-38 R -  74 G + 112 B + 128 >> 8) + 128
//! Cr = (112 R -  94 G -  18 B + 128 >> 8) + 128
//! ```

use crate::agent::services::capture_dxgi::DirtyRect;
use crate::grid;
use crate::num;
use vstd::prelude::*;

verus! {

/// The luma of a colour.
pub open spec fn luma_of(r: int, g: int, b: int) -> int {
    num::clamped((66 * r + 129 * g + 25 * b + 128) / 256 + 16, 16, 235)
}

/// The blue chroma of a colour.
pub open spec fn cb_of(r: int, g: int, b: int) -> int {
    num::clamped((-38 * r - 74 * g + 112 * b + 128) / 256 + 128, 16, 240)
}

/// The red chroma of a colour.
pub open spec fn cr_of(r: int, g: int, b: int) -> int {
    num::clamped((112 * r - 94 * g - 18 * b + 128) / 256 + 128, 16, 240)
}

/// The luma of pixel number `p` of a BGRA picture.
pub open spec fn luma_px(bgra: Seq<u8>, p: int) -> u8 {
    luma_of(bgra[4 * p + 2] as int, bgra[4 * p + 1] as int, bgra[4 * p] as int) as u8
}

/// The blue chroma of pixel number `p` of a BGRA picture.
pub open spec fn cb_px(bgra: Seq<u8>, p: int) -> u8 {
    cb_of(bgra[4 * p + 2] as int, bgra[4 * p + 1] as int, bgra[4 * p] as int) as u8
}

/// The red chroma of pixel number `p` of a BGRA picture.
pub open spec fn cr_px(bgra: Seq<u8>, p: int) -> u8 {
    cr_of(bgra[4 * p + 2] as int, bgra[4 * p + 1] as int, bgra[4 * p] as int) as u8
}

/// The picture sizes that split into 2 by 2 blocks, or hold no pixel at all.
pub open spec fn even_size(w: int, h: int) -> bool {
    w == 0 || h == 0 || (w % 2 == 0 && h % 2 == 0)
}

/// The number of bytes of one chroma plane.
pub open spec fn chroma_len(w: int, h: int) -> int {
    (w / 2) * (h / 2)
}

/// The number of bytes of an I420 picture.
pub open spec fn i420_len(w: int, h: int) -> int {
    w * h + 2 * chroma_len(w, h)
}

/// The number of the upper left pixel of chroma block number `j`.
pub open spec fn block_px(w: int, j: int) -> int {
    2 * (j / (w / 2)) * w + 2 * (j % (w / 2))
}

/// Byte number `k` of the I420 picture made from a BGRA picture.
pub open spec fn i420_byte(bgra: Seq<u8>, w: int, h: int, k: int) -> u8 {
    if k < w * h {
        luma_px(bgra, k)
    } else if k < w * h + chroma_len(w, h) {
        cb_px(bgra, block_px(w, k - w * h))
    } else {
        cr_px(bgra, block_px(w, k - w * h - chroma_len(w, h)))
    }
}

/// The I420 picture made from a BGRA picture.
pub open spec fn i420_picture(bgra: Seq<u8>, w: int, h: int) -> Seq<u8> {
    Seq::new(i420_len(w, h) as nat, |k: int| i420_byte(bgra, w, h, k))
}

/// The rectangle holds the pixel in column `col` of row `row`.
pub open spec fn covers_px(r: DirtyRect, row: int, col: int) -> bool {
    r.left <= col < r.right && r.top <= row < r.bottom
}

/// The rectangle, widened to block boundaries, holds the block in column `bx` of block row `by`.
pub open spec fn covers_block(r: DirtyRect, by: int, bx: int) -> bool {
    r.left <= 2 * bx + 1 && 2 * bx < r.right && r.top <= 2 * by + 1 && 2 * by < r.bottom
}

/// Byte number `k` of an I420 picture shows something of the rectangle.
pub open spec fn covers_byte(r: DirtyRect, w: int, h: int, k: int) -> bool {
    let n = chroma_len(w, h);
    if k < w * h {
        covers_px(r, k / w, k % w)
    } else if k < w * h + n {
        covers_block(r, (k - w * h) / (w / 2), (k - w * h) % (w / 2))
    } else if k < w * h + 2 * n {
        covers_block(r, (k - w * h - n) / (w / 2), (k - w * h - n) % (w / 2))
    } else {
        false
    }
}

/// Byte number `k` of an I420 picture shows something of one of the rectangles.
pub open spec fn dirty_byte(rects: Seq<DirtyRect>, w: int, h: int, k: int) -> bool {
    exists|i: int| 0 <= i < rects.len() && covers_byte(#[trigger] rects[i], w, h, k)
}

/// `old` filled up with zeros to at least `n` bytes.
pub open spec fn padded(old: Seq<u8>, n: int) -> Seq<u8> {
    if old.len() >= n {
        old
    } else {
        old + Seq::new((n - old.len()) as nat, |i: int| 0u8)
    }
}

/// The picture `old` with the bytes that show something of the rectangles made anew.
pub open spec fn i420_update(
    bgra: Seq<u8>,
    w: int,
    h: int,
    old: Seq<u8>,
    rects: Seq<DirtyRect>,
) -> Seq<u8> {
    let base = padded(old, i420_len(w, h));
    Seq::new(
        base.len(),
        |k: int|
            if dirty_byte(rects, w, h, k) {
                i420_byte(bgra, w, h, k)
            } else {
                base[k]
            },
    )
}

/// In a picture of even size, the upper left pixel of a block is a pixel of the picture.
proof fn lemma_block_px(w: int, h: int, by: int, bx: int)
    requires
        w % 2 == 0,
        h % 2 == 0,
        0 <= by < h / 2,
        0 <= bx < w / 2,
    ensures
        block_px(w, by * (w / 2) + bx) == 2 * by * w + 2 * bx,
        0 <= 2 * by * w + 2 * bx < w * h,
{
    grid::lemma_cell(w / 2, by, bx);
    grid::lemma_cell_bound(w, h, 2 * by, 2 * bx);
}

fn luma(r: u8, g: u8, b: u8) -> (y: u8)
    ensures
        y == luma_of(r as int, g as int, b as int),
{
    let v: i32 = (66 * r as i32 + 129 * g as i32 + 25 * b as i32 + 128) / 256 + 16;
    if v > 235 {
        235
    } else {
        v as u8
    }
}

fn chroma_blue(r: u8, g: u8, b: u8) -> (u: u8)
    ensures
        u == cb_of(r as int, g as int, b as int),
{
    let v: i32 = (112 * b as i32 + 32896 - 38 * r as i32 - 74 * g as i32) / 256;
    if v < 16 {
        16
    } else if v > 240 {
        240
    } else {
        v as u8
    }
}

fn chroma_red(r: u8, g: u8, b: u8) -> (v: u8)
    ensures
        v == cr_of(r as int, g as int, b as int),
{
    let v: i32 = (112 * r as i32 + 32896 - 94 * g as i32 - 18 * b as i32) / 256;
    if v < 16 {
        16
    } else if v > 240 {
        240
    } else {
        v as u8
    }
}

/// A chroma plane of the I420 picture made from a BGRA picture.
spec fn chroma_plane(bgra: Seq<u8>, w: int, h: int, blue: bool) -> Seq<u8> {
    Seq::new(
        chroma_len(w, h) as nat,
        |j: int|
            if blue {
                cb_px(bgra, block_px(w, j))
            } else {
                cr_px(bgra, block_px(w, j))
            },
    )
}

fn push_chroma(bgra: &[u8], w: usize, h: usize, out: &mut Vec<u8>, blue: bool)
    requires
        w % 2 == 0,
        h % 2 == 0,
        4 * (w * h) <= bgra.len(),
    ensures
        final(out)@ == old(out)@ + chroma_plane(bgra@, w as int, h as int, blue),
{
    let ghost plane = chroma_plane(bgra@, w as int, h as int, blue);
    let ghost start = out@;
    let bw: usize = w / 2;
    let bh: usize = h / 2;
    proof {
        assert(0 * bw == 0);
        assert(bh * bw == bw * bh) by (nonlinear_arith);
        assert(0 <= bw * bh) by (nonlinear_arith);
    }
    let mut by: usize = 0;
    while by < bh
        invariant
            by <= bh,
            bw == w / 2,
            bh == h / 2,
            w % 2 == 0,
            h % 2 == 0,
            4 * (w * h) <= bgra.len(),
            plane == chroma_plane(bgra@, w as int, h as int, blue),
            plane.len() == bw * bh,
            0 <= by * bw <= bw * bh,
            out@ == start + plane.take(by * bw),
        decreases bh - by,
    {
        let mut bx: usize = 0;
        proof {
            assert((by + 1) * bw == by * bw + bw) by (nonlinear_arith);
            assert((by + 1) * bw <= bw * bh) by (nonlinear_arith)
                requires
                    by + 1 <= bh,
            ;
        }
        while bx < bw
            invariant
                bx <= bw,
                by < bh,
                bw == w / 2,
                bh == h / 2,
                w % 2 == 0,
                h % 2 == 0,
                4 * (w * h) <= bgra.len(),
                plane == chroma_plane(bgra@, w as int, h as int, blue),
                plane.len() == bw * bh,
                0 <= by * bw,
                by * bw + bw <= bw * bh,
                out@ == start + plane.take(by * bw + bx),
            decreases bw - bx,
        {
            proof {
                lemma_block_px(w as int, h as int, by as int, bx as int);
                assert(2 * by * w <= w * h) by (nonlinear_arith)
                    requires
                        2 * by <= h,
                ;
            }
            let p: usize = 2 * by * w + 2 * bx;
            let r: u8 = bgra[4 * p + 2];
            let g: u8 = bgra[4 * p + 1];
            let b: u8 = bgra[4 * p];
            let v: u8 = if blue {
                chroma_blue(r, g, b)
            } else {
                chroma_red(r, g, b)
            };
            out.push(v);
            assert(v == plane[by * bw + bx]);
            bx = bx + 1;
            assert(plane.take(by * bw + bx) =~= plane.take(by * bw + bx - 1).push(v));
        }
        by = by + 1;
    }
    assert(plane.take(bw * bh) =~= plane);
}

/// Converts a whole BGRA picture (blue in byte 0, green in 1, red in 2 of each pixel) to I420.
///
/// Each chroma sample is that of the upper left pixel of its 2 by 2 block.
pub fn bgra_to_i420(bgra: &[u8], w: usize, h: usize, out: &mut Vec<u8>)
    requires
        even_size(w as int, h as int),
        4 * (w * h) <= bgra.len(),
    ensures
        final(out)@ == i420_picture(bgra@, w as int, h as int),
{
    out.clear();
    if w == 0 || h == 0 {
        assert(w * h == 0) by (nonlinear_arith)
            requires
                w == 0 || h == 0,
        ;
        assert((w as int / 2) * (h as int / 2) == 0) by (nonlinear_arith)
            requires
                w == 0 || h == 0,
        ;
        assert(out@ =~= i420_picture(bgra@, w as int, h as int));
        return ;
    }
    let y_size: usize = w * h;
    let mut p: usize = 0;
    while p < y_size
        invariant
            p <= y_size,
            4 * y_size <= bgra.len(),
            out@ == Seq::new(p as nat, |k: int| luma_px(bgra@, k)),
        decreases y_size - p,
    {
        out.push(luma(bgra[4 * p + 2], bgra[4 * p + 1], bgra[4 * p]));
        p = p + 1;
    }
    let ghost planes = out@;
    push_chroma(bgra, w, h, out, true);
    push_chroma(bgra, w, h, out, false);
    proof {
        let n = chroma_len(w as int, h as int) as nat;
        assert(n >= 0) by (nonlinear_arith)
            requires
                n == (w as int / 2) * (h as int / 2),
        ;
    }
    assert(out@ =~= i420_picture(bgra@, w as int, h as int));
}

fn convert_rect_luma(bgra: &[u8], w: usize, h: usize, out: &mut Vec<u8>, rect: DirtyRect)
    requires
        0 < w,
        4 * (w * h) <= bgra.len(),
        w * h <= old(out)@.len(),
    ensures
        final(out)@.len() == old(out)@.len(),
        forall|k: int|
            0 <= k < final(out)@.len() ==> #[trigger] final(out)@[k] == if k < w * h && covers_px(
                rect,
                k / w as int,
                k % w as int,
            ) {
                luma_px(bgra@, k)
            } else {
                old(out)@[k]
            },
{
    let ghost start = out@;
    let x0: usize = rect.left as usize;
    let x1: usize = if rect.right as usize <= w {
        rect.right as usize
    } else {
        w
    };
    let y0: usize = rect.top as usize;
    let y1: usize = if rect.bottom as usize <= h {
        rect.bottom as usize
    } else {
        h
    };
    let mut row: usize = y0;
    while row < y1
        invariant
            0 < w,
            x1 <= w,
            y1 <= h,
            y0 <= row,
            row <= y0 || row <= y1,
            4 * (w * h) <= bgra.len(),
            w * h <= start.len(),
            out@.len() == start.len(),
            forall|k: int|
                0 <= k < start.len() ==> #[trigger] out@[k] == if k < w * h && crate::grid::passed(
                    w as int,
                    k,
                    x0 as int,
                    x1 as int,
                    y0 as int,
                    row as int,
                    0,
                ) {
                    luma_px(bgra@, k)
                } else {
                    start[k]
                },
        decreases y1 - row,
    {
        let mut col: usize = x0;
        while col < x1
            invariant
                0 < w,
                x1 <= w,
                y1 <= h,
                y0 <= row < y1,
                x0 <= col,
                col <= x0 || col <= x1,
                4 * (w * h) <= bgra.len(),
                w * h <= start.len(),
                out@.len() == start.len(),
                forall|k: int|
                    0 <= k < start.len() ==> #[trigger] out@[k] == if k < w * h && crate::grid::passed(
                        w as int,
                        k,
                        x0 as int,
                        x1 as int,
                        y0 as int,
                        row as int,
                        col as int,
                    ) {
                        luma_px(bgra@, k)
                    } else {
                        start[k]
                    },
            decreases x1 - col,
        {
            proof {
                grid::lemma_cell(w as int, row as int, col as int);
                grid::lemma_cell_bound(w as int, h as int, row as int, col as int);
                assert(row * w <= w * h) by (nonlinear_arith)
                    requires
                        row <= h,
                ;
            }
            let p: usize = row * w + col;
            let ghost before = out@;
            out[p] = luma(bgra[4 * p + 2], bgra[4 * p + 1], bgra[4 * p]);
            proof {
                assert forall|k: int| 0 <= k < start.len() implies #[trigger] out@[k] == if k < w
                    * h && crate::grid::passed(
                    w as int,
                    k,
                    x0 as int,
                    x1 as int,
                    y0 as int,
                    row as int,
                    col + 1,
                ) {
                    luma_px(bgra@, k)
                } else {
                    start[k]
                } by {
                    grid::lemma_number(w as int, k);
                    if k != p {
                        assert(out@[k] == before[k]);
                    }
                }
            }
            col = col + 1;
        }
        row = row + 1;
    }
    proof {
        assert forall|k: int| 0 <= k < out@.len() implies #[trigger] out@[k] == if k < w * h
            && covers_px(rect, k / w as int, k % w as int) {
            luma_px(bgra@, k)
        } else {
            start[k]
        } by {
            grid::lemma_number(w as int, k);
            if k < w * h {
                grid::lemma_row_bound(w as int, h as int, k);
            }
        }
    }
}

/// Byte number `k` when the blocks before column `bx` of block row `by` are made anew.
spec fn chroma_goal(
    bgra: Seq<u8>,
    w: int,
    h: int,
    start: Seq<u8>,
    bx0: int,
    bx1: int,
    by0: int,
    by: int,
    bx: int,
    k: int,
) -> u8 {
    let n = chroma_len(w, h);
    let in_blue = w * h <= k < w * h + n && crate::grid::passed(w / 2, k - w * h, bx0, bx1, by0, by, bx);
    let in_red = w * h + n <= k < w * h + 2 * n && crate::grid::passed(
        w / 2,
        k - w * h - n,
        bx0,
        bx1,
        by0,
        by,
        bx,
    );
    if in_blue || in_red {
        i420_byte(bgra, w, h, k)
    } else {
        start[k]
    }
}

spec fn chroma_state(
    bgra: Seq<u8>,
    w: int,
    h: int,
    start: Seq<u8>,
    out: Seq<u8>,
    bx0: int,
    bx1: int,
    by0: int,
    by: int,
    bx: int,
) -> bool {
    forall|k: int|
        0 <= k < start.len() ==> #[trigger] out[k] == chroma_goal(
            bgra,
            w,
            h,
            start,
            bx0,
            bx1,
            by0,
            by,
            bx,
            k,
        )
}

/// The two chroma planes begin at `y_size` and at `y_size + n`, and hold `n` bytes each.
fn convert_rect_chroma(bgra: &[u8], w: usize, h: usize, out: &mut Vec<u8>, rect: DirtyRect)
    requires
        0 < w,
        0 < h,
        w % 2 == 0,
        h % 2 == 0,
        4 * (w * h) <= bgra.len(),
        i420_len(w as int, h as int) <= old(out)@.len(),
    ensures
        final(out)@.len() == old(out)@.len(),
        forall|k: int|
            0 <= k < final(out)@.len() ==> #[trigger] final(out)@[k] == if w * h <= k
                && covers_byte(rect, w as int, h as int, k) {
                i420_byte(bgra@, w as int, h as int, k)
            } else {
                old(out)@[k]
            },
{
    let ghost start = out@;
    let ghost wi = w as int;
    let ghost hi = h as int;
    let bw: usize = w / 2;
    let bh: usize = h / 2;
    let y_size: usize = w * h;
    proof {
        assert(0 <= bw * bh <= w * h) by (nonlinear_arith)
            requires
                bw == w / 2,
                bh == h / 2,
        ;
    }
    let n: usize = bw * bh;
    let bx0: usize = rect.left as usize / 2;
    let bx1: usize = if rect.right as usize <= w {
        (rect.right as usize + 1) / 2
    } else {
        bw
    };
    let by0: usize = rect.top as usize / 2;
    let by1: usize = if rect.bottom as usize <= h {
        (rect.bottom as usize + 1) / 2
    } else {
        bh
    };
    let mut by: usize = by0;
    while by < by1
        invariant
            0 < bw,
            bw == w / 2,
            bh == h / 2,
            w % 2 == 0,
            h % 2 == 0,
            y_size == w * h,
            n == bw * bh,
            n == chroma_len(w as int, h as int),
            bx1 <= bw,
            by1 <= bh,
            by0 <= by,
            by <= by0 || by <= by1,
            4 * (w * h) <= bgra.len(),
            y_size + 2 * n <= out.len(),
            out@.len() == start.len(),
            chroma_state(bgra@, wi, hi, start, out@, bx0 as int, bx1 as int, by0 as int, by as int, 0),
            wi == w,
            hi == h,
        decreases by1 - by,
    {
        let mut bx: usize = bx0;
        while bx < bx1
            invariant
                0 < bw,
                bw == w / 2,
                bh == h / 2,
                w % 2 == 0,
                h % 2 == 0,
                y_size == w * h,
                n == bw * bh,
                n == chroma_len(w as int, h as int),
                bx1 <= bw,
                by1 <= bh,
                by0 <= by < by1,
                bx0 <= bx,
                bx <= bx0 || bx <= bx1,
                4 * (w * h) <= bgra.len(),
                y_size + 2 * n <= out.len(),
                out@.len() == start.len(),
                chroma_state(bgra@, wi, hi, start, out@, bx0 as int, bx1 as int, by0 as int, by as int, bx as int),
                wi == w,
                hi == h,
            decreases bx1 - bx,
        {
            proof {
                lemma_block_px(wi, hi, by as int, bx as int);
                grid::lemma_cell(bw as int, by as int, bx as int);
                grid::lemma_cell_bound(bw as int, bh as int, by as int, bx as int);
                assert(2 * by * w <= w * h) by (nonlinear_arith)
                    requires
                        2 * by <= h,
                ;
                assert(0 <= by * bw) by (nonlinear_arith);
            }
            let p: usize = 2 * by * w + 2 * bx;
            let j: usize = by * bw + bx;
            let r: u8 = bgra[4 * p + 2];
            let g: u8 = bgra[4 * p + 1];
            let b: u8 = bgra[4 * p];
            let ghost before = out@;
            out[y_size + j] = chroma_blue(r, g, b);
            out[y_size + n + j] = chroma_red(r, g, b);
            proof {
                assert forall|k: int| 0 <= k < start.len() implies #[trigger] out@[k]
                    == chroma_goal(bgra@, wi, hi, start, bx0 as int, bx1 as int, by0 as int, by as int, bx + 1, k) by {
                    assert(before[k] == chroma_goal(bgra@, wi, hi, start, bx0 as int, bx1 as int, by0 as int, by as int, bx as int, k));
                    if y_size <= k < y_size + n {
                        grid::lemma_number(bw as int, k - y_size);
                    } else if y_size + n <= k < y_size + 2 * n {
                        grid::lemma_number(bw as int, k - y_size - n);
                    }
                }
            }
            bx = bx + 1;
        }
        proof {
            assert forall|k: int| 0 <= k < start.len() implies #[trigger] out@[k] == chroma_goal(
                bgra@, wi, hi, start, bx0 as int, bx1 as int, by0 as int, by + 1, 0, k) by {
                assert(out@[k] == chroma_goal(bgra@, wi, hi, start, bx0 as int, bx1 as int, by0 as int, by as int, bx as int, k));
                if y_size <= k < y_size + n {
                    grid::lemma_number(bw as int, k - y_size);
                } else if y_size + n <= k < y_size + 2 * n {
                    grid::lemma_number(bw as int, k - y_size - n);
                }
            }
        }
        by = by + 1;
    }
    proof {
        assert forall|k: int| 0 <= k < out@.len() implies #[trigger] out@[k] == if w * h <= k
            && covers_byte(rect, wi, hi, k) {
            i420_byte(bgra@, wi, hi, k)
        } else {
            start[k]
        } by {
            assert(out@[k] == chroma_goal(bgra@, wi, hi, start, bx0 as int, bx1 as int, by0 as int, by as int, 0, k));
            if y_size <= k < y_size + n {
                grid::lemma_number(bw as int, k - y_size);
                grid::lemma_row_bound(bw as int, bh as int, k - y_size);
            } else if y_size + n <= k < y_size + 2 * n {
                grid::lemma_number(bw as int, k - y_size - n);
                grid::lemma_row_bound(bw as int, bh as int, k - y_size - n);
            }
        }
    }
}

/// Converts the changed regions of a BGRA picture into the I420 picture of the frame before.
///
/// Chroma samples stand for 2 by 2 blocks, so each rectangle is widened to block boundaries for
/// them. A buffer that is too short is filled up with zeros first.
pub fn bgra_to_i420_rects(bgra: &[u8], w: usize, h: usize, out: &mut Vec<u8>, rects: &[DirtyRect])
    requires
        even_size(w as int, h as int),
        4 * (w * h) <= bgra.len(),
    ensures
        final(out)@ == i420_update(bgra@, w as int, h as int, old(out)@, rects@),
{
    let ghost wi = w as int;
    let ghost hi = h as int;
    proof {
        assert(0 <= chroma_len(wi, hi) <= w * h && 2 * chroma_len(wi, hi) <= w * h)
            by (nonlinear_arith)
            requires
                chroma_len(wi, hi) == (w as int / 2) * (h as int / 2),
        ;
        assert(0 <= w * h) by (nonlinear_arith);
        if w == 0 || h == 0 {
            assert(w * h == 0) by (nonlinear_arith)
                requires
                    w == 0 || h == 0,
            ;
        }
    }
    let total: usize = w * h + (w / 2) * (h / 2) * 2;
    if out.len() < total {
        out.resize(total, 0);
    }
    let ghost base = out@;
    assert(base =~= padded(old(out)@, i420_len(wi, hi)));
    if w == 0 || h == 0 {
        assert(out@ =~= i420_update(bgra@, wi, hi, old(out)@, rects@));
        return ;
    }
    let mut i: usize = 0;
    while i < rects.len()
        invariant
            i <= rects.len(),
            0 < w,
            0 < h,
            w % 2 == 0,
            h % 2 == 0,
            wi == w,
            hi == h,
            4 * (w * h) <= bgra.len(),
            i420_len(wi, hi) <= base.len(),
            out@.len() == base.len(),
            forall|k: int|
                0 <= k < base.len() ==> #[trigger] out@[k] == if dirty_byte(
                    rects@.take(i as int),
                    wi,
                    hi,
                    k,
                ) {
                    i420_byte(bgra@, wi, hi, k)
                } else {
                    base[k]
                },
        decreases rects.len() - i,
    {
        let ghost before = out@;
        let rect: DirtyRect = rects[i];
        proof {
            assert(chroma_len(wi, hi) >= 0) by (nonlinear_arith)
                requires
                    chroma_len(wi, hi) == (wi / 2) * (hi / 2),
                    wi >= 0,
                    hi >= 0,
            ;
        }
        convert_rect_luma(bgra, w, h, out, rect);
        let ghost mid = out@;
        convert_rect_chroma(bgra, w, h, out, rect);
        proof {
            let done = rects@.take(i as int);
            let next = rects@.take(i + 1);
            assert forall|k: int| 0 <= k < base.len() implies #[trigger] out@[k] == if dirty_byte(
                next,
                wi,
                hi,
                k,
            ) {
                i420_byte(bgra@, wi, hi, k)
            } else {
                base[k]
            } by {
                assert(mid[k] == if k < w * h && covers_px(rect, k / w as int, k % w as int) {
                    luma_px(bgra@, k)
                } else {
                    before[k]
                });
                if dirty_byte(done, wi, hi, k) {
                    let m = choose|m: int|
                        0 <= m < done.len() && covers_byte(#[trigger] done[m], wi, hi, k);
                    assert(next[m] == done[m]);
                    assert(dirty_byte(next, wi, hi, k));
                }
                if covers_byte(rect, wi, hi, k) {
                    assert(next[i as int] == rect);
                    assert(dirty_byte(next, wi, hi, k));
                }
                if dirty_byte(next, wi, hi, k) {
                    let m = choose|m: int|
                        0 <= m < next.len() && covers_byte(#[trigger] next[m], wi, hi, k);
                    if m < i {
                        assert(done[m] == next[m]);
                        assert(dirty_byte(done, wi, hi, k));
                    }
                }
            }
        }
        i = i + 1;
    }
    assert(rects@.take(rects@.len() as int) =~= rects@);
    assert(out@ =~= i420_update(bgra@, wi, hi, old(out)@, rects@));
}

/// The samples are those of BT.601 for every colour, rounded to the nearest number, and the bounds
/// of the samples never cut them: `256` times what the luma is above 16, and the chroma above 128,
/// is no further than rounding from the weighted sum of red, green and blue.
pub proof fn samples_are_bt601(r: u8, g: u8, b: u8)
    ensures
        ({
            let y = luma_of(r as int, g as int, b as int);
            let sum = 66 * r + 129 * g + 25 * b;
            16 <= y <= 235 && -128 <= sum - 256 * (y - 16) < 128
        }),
        ({
            let cb = cb_of(r as int, g as int, b as int);
            let sum = 112 * b - 38 * r - 74 * g;
            16 <= cb <= 240 && -128 <= sum - 256 * (cb - 128) < 128
        }),
        ({
            let cr = cr_of(r as int, g as int, b as int);
            let sum = 112 * r - 94 * g - 18 * b;
            16 <= cr <= 240 && -128 <= sum - 256 * (cr - 128) < 128
        }),
{
}

/// The luma plane holds the luma of each pixel at its place, row by row: blue, green and red of the
/// pixel stand in this order in four bytes of the screen.
pub proof fn luma_is_that_of_its_pixel(bgra: Seq<u8>, w: int, h: int, row: int, col: int)
    requires
        0 <= row < h,
        0 <= col < w,
    ensures
        ({
            let p = 4 * (row * w + col);
            let y = i420_picture(bgra, w, h)[row * w + col];
            let sum = 66 * bgra[p + 2] + 129 * bgra[p + 1] + 25 * bgra[p];
            -128 <= sum - 256 * (y - 16) < 128
        }),
{
    grid::lemma_cell_bound(w, h, row, col);
    let n = row * w + col;
    lemma_chroma_len(w, h);
    samples_are_bt601(bgra[4 * n + 2], bgra[4 * n + 1], bgra[4 * n]);
}

/// The two chroma planes follow the luma plane, the blue one first. Each holds a sample for each
/// block of two by two pixels, row by row: that of the block's upper left pixel.
pub proof fn chroma_is_that_of_its_block(bgra: Seq<u8>, w: int, h: int, by: int, bx: int)
    requires
        w % 2 == 0,
        h % 2 == 0,
        0 <= by && 2 * by < h,
        0 <= bx && 2 * bx < w,
    ensures
        ({
            let p = 4 * (2 * by * w + 2 * bx);
            let n = (w / 2) * (h / 2);
            let j = by * (w / 2) + bx;
            let i420 = i420_picture(bgra, w, h);
            let blue = 112 * bgra[p] - 74 * bgra[p + 1] - 38 * bgra[p + 2];
            let red = 112 * bgra[p + 2] - 94 * bgra[p + 1] - 18 * bgra[p];
            &&& i420.len() == w * h + 2 * n
            &&& 0 <= j < n
            &&& -128 <= blue - 256 * (i420[w * h + j] - 128) < 128
            &&& -128 <= red - 256 * (i420[w * h + n + j] - 128) < 128
        }),
{
    lemma_block_px(w, h, by, bx);
    lemma_chroma_len(w, h);
    grid::lemma_cell_bound(w / 2, h / 2, by, bx);
    grid::lemma_cell_bound(w, h, 0, 0);
    let p = 2 * by * w + 2 * bx;
    samples_are_bt601(bgra[4 * p + 2], bgra[4 * p + 1], bgra[4 * p]);
}

proof fn lemma_chroma_len(w: int, h: int)
    requires
        0 <= w,
        0 <= h,
    ensures
        0 <= chroma_len(w, h),
        0 <= w * h,
{
    assert(0 <= (w / 2) * (h / 2) && 0 <= w * h) by (nonlinear_arith)
        requires
            0 <= w,
            0 <= h,
    ;
}

/// What changed inside the rectangles is sent, and nothing of what was sent before is lost: where
/// two pictures agree on every blue, green and red byte outside the rectangles, left and top sides
/// included and right and bottom sides not, bringing the conversion of the first up to date gives
/// that of the second.
pub proof fn changed_regions_are_enough(
    before: Seq<u8>,
    after: Seq<u8>,
    w: int,
    h: int,
    rects: Seq<DirtyRect>,
)
    requires
        0 <= w,
        0 <= h,
        w == 0 || h == 0 || (w % 2 == 0 && h % 2 == 0),
        forall|k: int|
            0 <= k < 4 * (w * h) && k % 4 != 3 ==> {
                ||| #[trigger] before[k] == after[k]
                ||| exists|i: int|
                    0 <= i < rects.len() && (#[trigger] rects[i]).left <= k / 4 % w < rects[i].right
                        && rects[i].top <= k / 4 / w < rects[i].bottom
            },
    ensures
        i420_update(after, w, h, i420_picture(before, w, h), rects) == i420_picture(after, w, h),
{
    assert forall|row: int, col: int| 0 <= row < h && 0 <= col < w implies #[trigger] same_pixel(
        before,
        after,
        row * w + col,
    ) || covered_px(rects, row, col) by {
        let p = row * w + col;
        grid::lemma_cell(w, row, col);
        grid::lemma_cell_bound(w, h, row, col);
        if !same_pixel(before, after, p) {
            let k = if before[4 * p] != after[4 * p] {
                4 * p
            } else if before[4 * p + 1] != after[4 * p + 1] {
                4 * p + 1
            } else {
                4 * p + 2
            };
            assert(before[k] != after[k]);
            assert(k / 4 == p);
            let i = choose|i: int|
                0 <= i < rects.len() && (#[trigger] rects[i]).left <= k / 4 % w < rects[i].right
                    && rects[i].top <= k / 4 / w < rects[i].bottom;
            assert(covers_px(rects[i], row, col));
        }
    }
    update_equals_conversion(before, after, w, h, rects);
}

/// Every luma sample lies in 16..=235 and every chroma sample in 16..=240.
pub proof fn samples_in_range(bgra: Seq<u8>, w: int, h: int, k: int)
    requires
        0 <= w,
        0 <= h,
        0 <= k < i420_len(w, h),
    ensures
        k < w * h ==> 16 <= i420_picture(bgra, w, h)[k] <= 235,
        k >= w * h ==> 16 <= i420_picture(bgra, w, h)[k] <= 240,
{
}

/// The two pictures agree on every pixel that no rectangle holds.
pub open spec fn same_outside(a: Seq<u8>, b: Seq<u8>, w: int, h: int, rects: Seq<DirtyRect>) -> bool {
    forall|row: int, col: int|
        0 <= row < h && 0 <= col < w ==> #[trigger] same_pixel(a, b, row * w + col) || covered_px(
            rects,
            row,
            col,
        )
}

/// Blue, green and red of pixel number `p` are the same in both pictures.
pub open spec fn same_pixel(a: Seq<u8>, b: Seq<u8>, p: int) -> bool {
    a[4 * p] == b[4 * p] && a[4 * p + 1] == b[4 * p + 1] && a[4 * p + 2] == b[4 * p + 2]
}

/// One of the rectangles holds the pixel.
pub open spec fn covered_px(rects: Seq<DirtyRect>, row: int, col: int) -> bool {
    exists|i: int| 0 <= i < rects.len() && covers_px(#[trigger] rects[i], row, col)
}

/// Converting only the changed regions is as good as converting the whole picture: where `old` is
/// the conversion of a picture that differs from the new one only inside the rectangles, the
/// update gives the conversion of the new one.
pub proof fn update_equals_conversion(
    before: Seq<u8>,
    after: Seq<u8>,
    w: int,
    h: int,
    rects: Seq<DirtyRect>,
)
    requires
        0 <= w,
        0 <= h,
        even_size(w, h),
        same_outside(before, after, w, h, rects),
    ensures
        i420_update(after, w, h, i420_picture(before, w, h), rects) == i420_picture(after, w, h),
{
    let old = i420_picture(before, w, h);
    let new = i420_update(after, w, h, old, rects);
    let n = chroma_len(w, h);
    assert(0 <= n && 0 <= w * h) by (nonlinear_arith)
        requires
            n == (w / 2) * (h / 2),
            0 <= w,
            0 <= h,
    ;
    if w == 0 || h == 0 {
        assert(w * h == 0 && n == 0) by (nonlinear_arith)
            requires
                w == 0 || h == 0,
                n == (w / 2) * (h / 2),
        ;
    }
    assert forall|k: int| 0 <= k < old.len() && !dirty_byte(rects, w, h, k) implies i420_byte(
        before,
        w,
        h,
        k,
    ) == i420_byte(after, w, h, k) by {
        if k < w * h {
            grid::lemma_number(w, k);
            grid::lemma_row_bound(w, h, k);
            let row = k / w;
            let col = k % w;
            assert(same_pixel(before, after, row * w + col) || covered_px(rects, row, col));
            if covered_px(rects, row, col) {
                let i = choose|i: int|
                    0 <= i < rects.len() && covers_px(#[trigger] rects[i], row, col);
                assert(covers_byte(rects[i], w, h, k));
            }
        } else {
            let j = if k < w * h + n {
                k - w * h
            } else {
                k - w * h - n
            };
            assert((w / 2) * (h / 2) == n);
            if w / 2 == 0 {
                assert(n == 0) by (nonlinear_arith)
                    requires
                        w / 2 == 0,
                        n == (w / 2) * (h / 2),
                ;
            }
            grid::lemma_number(w / 2, j);
            grid::lemma_row_bound(w / 2, h / 2, j);
            let by = j / (w / 2);
            let bx = j % (w / 2);
            lemma_block_px(w, h, by, bx);
            assert(same_pixel(before, after, (2 * by) * w + 2 * bx) || covered_px(
                rects,
                2 * by,
                2 * bx,
            ));
            if covered_px(rects, 2 * by, 2 * bx) {
                let i = choose|i: int|
                    0 <= i < rects.len() && covers_px(#[trigger] rects[i], 2 * by, 2 * bx);
                assert(covers_byte(rects[i], w, h, k));
            }
        }
    }
    assert(new =~= i420_picture(after, w, h));
}

/// With one rectangle over the whole screen the update is the whole conversion, whatever the
/// buffer held.
pub proof fn full_update_is_conversion(bgra: Seq<u8>, w: u32, h: u32, old: Seq<u8>)
    requires
        even_size(w as int, h as int),
        old.len() <= i420_len(w as int, h as int),
    ensures
        i420_update(
            bgra,
            w as int,
            h as int,
            old,
            seq![DirtyRect { left: 0, top: 0, right: w, bottom: h }],
        ) == i420_picture(bgra, w as int, h as int),
{
    let full = DirtyRect { left: 0, top: 0, right: w, bottom: h };
    let rects = seq![full];
    let wi = w as int;
    let hi = h as int;
    let n = chroma_len(wi, hi);
    assert(0 <= n && 0 <= wi * hi) by (nonlinear_arith)
        requires
            n == (wi / 2) * (hi / 2),
            0 <= wi,
            0 <= hi,
    ;
    if w == 0 || h == 0 {
        assert(wi * hi == 0 && n == 0) by (nonlinear_arith)
            requires
                wi == 0 || hi == 0,
                n == (wi / 2) * (hi / 2),
        ;
    }
    assert forall|k: int| 0 <= k < i420_len(wi, hi) implies dirty_byte(rects, wi, hi, k) by {
        if k < wi * hi {
            grid::lemma_number(wi, k);
            grid::lemma_row_bound(wi, hi, k);
        } else {
            let j = if k < wi * hi + n {
                k - wi * hi
            } else {
                k - wi * hi - n
            };
            grid::lemma_number(wi / 2, j);
            grid::lemma_row_bound(wi / 2, hi / 2, j);
        }
        assert(covers_byte(rects[0], wi, hi, k));
    }
    assert(i420_update(bgra, wi, hi, old, rects) =~= i420_picture(bgra, wi, hi));
}

/// No rectangle holds a pixel from row `top` up to `bottom` and from column `left` up to `right`.
pub open spec fn untouched(
    rects: Seq<DirtyRect>,
    top: int,
    bottom: int,
    left: int,
    right: int,
) -> bool {
    forall|i: int|
        0 <= i < rects.len() ==> {
            let r = #[trigger] rects[i];
            r.right <= left || right <= r.left || r.bottom <= top || bottom <= r.top
        }
}

/// Converting the changed regions leaves the luma of every pixel outside of them as it was, and the
/// chroma of every block none of whose four pixels is in one.
pub proof fn other_samples_are_kept(
    bgra: Seq<u8>,
    w: int,
    h: int,
    old: Seq<u8>,
    rects: Seq<DirtyRect>,
    row: int,
    col: int,
    by: int,
    bx: int,
)
    requires
        0 < w,
        0 < h,
        w % 2 == 0,
        h % 2 == 0,
        old.len() == i420_len(w, h),
        0 <= row < h,
        0 <= col < w,
        0 <= by < h / 2,
        0 <= bx < w / 2,
    ensures
        ({
            let new = i420_update(bgra, w, h, old, rects);
            let n = (w / 2) * (h / 2);
            let j = by * (w / 2) + bx;
            &&& new.len() == w * h + 2 * n
            &&& untouched(rects, row, row + 1, col, col + 1) ==> new[row * w + col] == old[row * w
                + col]
            &&& untouched(rects, 2 * by, 2 * by + 2, 2 * bx, 2 * bx + 2) ==> {
                &&& new[w * h + j] == old[w * h + j]
                &&& new[w * h + n + j] == old[w * h + n + j]
            }
        }),
{
    let n = (w / 2) * (h / 2);
    let j = by * (w / 2) + bx;
    let k = row * w + col;
    grid::lemma_cell(w, row, col);
    grid::lemma_cell_bound(w, h, row, col);
    grid::lemma_cell(w / 2, by, bx);
    grid::lemma_cell_bound(w / 2, h / 2, by, bx);
    if untouched(rects, row, row + 1, col, col + 1) {
        assert forall|i: int| 0 <= i < rects.len() implies !covers_byte(
            #[trigger] rects[i],
            w,
            h,
            k,
        ) by {}
    }
    if untouched(rects, 2 * by, 2 * by + 2, 2 * bx, 2 * bx + 2) {
        assert forall|i: int| 0 <= i < rects.len() implies !covers_byte(
            #[trigger] rects[i],
            w,
            h,
            w * h + j,
        ) && !covers_byte(rects[i], w, h, w * h + n + j) by {}
    }
}

/// Converting the changed regions makes the luma of every pixel in them anew, and the chroma of every
/// block that has one of its four pixels in one, whatever the buffer held before.
pub proof fn touched_samples_are_made_anew(
    bgra: Seq<u8>,
    w: int,
    h: int,
    old: Seq<u8>,
    rects: Seq<DirtyRect>,
    i: int,
    row: int,
    col: int,
)
    requires
        0 < w,
        0 < h,
        w % 2 == 0,
        h % 2 == 0,
        0 <= row < h,
        0 <= col < w,
        0 <= i < rects.len(),
        rects[i].left <= col < rects[i].right,
        rects[i].top <= row < rects[i].bottom,
    ensures
        ({
            let new = i420_update(bgra, w, h, old, rects);
            let full = i420_picture(bgra, w, h);
            let n = (w / 2) * (h / 2);
            let j = (row / 2) * (w / 2) + col / 2;
            &&& new[row * w + col] == full[row * w + col]
            &&& new[w * h + j] == full[w * h + j]
            &&& new[w * h + n + j] == full[w * h + n + j]
        }),
{
    let n = (w / 2) * (h / 2);
    let (by, bx) = (row / 2, col / 2);
    let j = by * (w / 2) + bx;
    grid::lemma_cell(w, row, col);
    grid::lemma_cell_bound(w, h, row, col);
    grid::lemma_cell(w / 2, by, bx);
    grid::lemma_cell_bound(w / 2, h / 2, by, bx);
    assert(covers_byte(rects[i], w, h, row * w + col));
    assert(covers_byte(rects[i], w, h, w * h + j));
    assert(covers_byte(rects[i], w, h, w * h + n + j));
}

/// A buffer that is too short for the picture is filled up with zeros; what stands behind the picture
/// in one that is too long stays.
pub proof fn buffer_gets_the_length_of_the_picture(
    bgra: Seq<u8>,
    w: int,
    h: int,
    old: Seq<u8>,
    rects: Seq<DirtyRect>,
    k: int,
)
    requires
        0 <= w,
        0 <= h,
        0 <= k,
    ensures
        ({
            let new = i420_update(bgra, w, h, old, rects);
            let full = w * h + 2 * ((w / 2) * (h / 2));
            &&& old.len() >= full ==> new.len() == old.len()
            &&& old.len() < full ==> new.len() == full
            &&& rects.len() == 0 && old.len() <= k < full ==> new[k] == 0
            &&& full <= k < old.len() ==> new[k] == old[k]
        }),
{
    let full = w * h + 2 * ((w / 2) * (h / 2));
    if full <= k < old.len() {
        assert(!dirty_byte(rects, w, h, k)) by {
            assert(0 <= (w / 2) * (h / 2)) by (nonlinear_arith)
                requires
                    0 <= w,
                    0 <= h,
            ;
        }
    }
}

} // verus!
