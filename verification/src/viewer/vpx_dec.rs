//! What follows the decoding of a VP9 frame: its outcome, and the pixels of the picture.

use crate::agent::services::yuv;
use crate::grid;
use crate::num;
use crate::viewer::decoder;
use vstd::prelude::*;

verus! {

/// What a call of the decoder gave.
#[derive(Clone, Copy, Debug, PartialEq, Eq, Structural)]
pub enum DecodeOutcome {
    Failed,
    /// No picture is ready yet.
    NoPicture,
    Picture,
}

/// Sorts the result of a call of the decoder.
pub fn decode_outcome(ret: i32) -> (o: DecodeOutcome)
    ensures
        o == (if ret == -1 {
            DecodeOutcome::Failed
        } else if ret == 1 {
            DecodeOutcome::NoPicture
        } else {
            DecodeOutcome::Picture
        }),
{
    if ret == -1 {
        DecodeOutcome::Failed
    } else if ret == 1 {
        DecodeOutcome::NoPicture
    } else {
        DecodeOutcome::Picture
    }
}

/// The red part of a colour, from its luma and the second chroma sample less 128.
pub open spec fn red_of(y: int, v: int) -> int {
    num::clamped(y + 359 * v / 256, 0, 255)
}

/// The green part of a colour, from its luma and the chroma samples less 128.
pub open spec fn green_of(y: int, u: int, v: int) -> int {
    num::clamped(y - 88 * u / 256 - 183 * v / 256, 0, 255)
}

/// The blue part of a colour, from its luma and the first chroma sample less 128.
pub open spec fn blue_of(y: int, u: int) -> int {
    num::clamped(y + 454 * u / 256, 0, 255)
}

/// The pixel of a luma sample and its chroma samples.
pub open spec fn pixel_of(y: u8, u: u8, v: u8) -> u32 {
    decoder::xrgb(
        red_of(y as int, v - 128) as u8,
        green_of(y as int, u - 128, v - 128) as u8,
        blue_of(y as int, u - 128) as u8,
    )
}

/// The planes hold the samples of every pixel.
pub open spec fn planes_ok(
    w: int,
    h: int,
    y: Seq<u8>,
    u: Seq<u8>,
    v: Seq<u8>,
    stride_y: int,
    stride_u: int,
    stride_v: int,
) -> bool {
    w > 0 && h > 0 ==> {
        &&& (h - 1) * stride_y + w <= y.len()
        &&& ((h - 1) / 2) * stride_u + (w - 1) / 2 < u.len()
        &&& ((h - 1) / 2) * stride_v + (w - 1) / 2 < v.len()
    }
}

/// The pixels of an I420 picture, row by row. A chroma sample serves a block of two by two pixels.
pub open spec fn xrgb_picture(
    w: int,
    h: int,
    y: Seq<u8>,
    u: Seq<u8>,
    v: Seq<u8>,
    stride_y: int,
    stride_u: int,
    stride_v: int,
) -> Seq<u32> {
    Seq::new(
        (w * h) as nat,
        |k: int|
            pixel_of(
                y[(k / w) * stride_y + k % w],
                u[(k / w / 2) * stride_u + k % w / 2],
                v[(k / w / 2) * stride_v + k % w / 2],
            ),
    )
}

/// `n / 256`, rounded down.
fn shift8(n: i32) -> (q: i32)
    requires
        -1_000_000 <= n <= 1_000_000,
    ensures
        q == n as int / 256,
{
    if n >= 0 {
        n / 256
    } else {
        -((255 - n) / 256)
    }
}

fn clamp_byte(n: i32) -> (b: u32)
    ensures
        b == num::clamped(n as int, 0, 255),
{
    if n < 0 {
        0
    } else if n > 255 {
        255
    } else {
        n as u32
    }
}

fn pixel(y: u8, u: u8, v: u8) -> (p: u32)
    ensures
        p == pixel_of(y, u, v),
{
    let luma: i32 = y as i32;
    let cb: i32 = u as i32 - 128;
    let cr: i32 = v as i32 - 128;
    let r: u32 = clamp_byte(luma + shift8(359 * cr));
    let g: u32 = clamp_byte(luma - shift8(88 * cb) - shift8(183 * cr));
    let b: u32 = clamp_byte(luma + shift8(454 * cb));
    r * 0x1_0000 + g * 0x100 + b
}

/// A sample stands in its plane where the last one of the last row does.
proof fn lemma_in_plane(row: int, last_row: int, col: int, last_col: int, stride: int, len: int)
    requires
        0 <= row <= last_row,
        0 <= col <= last_col,
        0 <= stride,
        last_row * stride + last_col < len,
    ensures
        0 <= row * stride,
        row * stride + col < len,
{
    assert(0 <= row * stride <= last_row * stride) by (nonlinear_arith)
        requires
            0 <= row <= last_row,
            0 <= stride,
    ;
}

/// Turns an I420 picture into pixels.
pub fn i420_to_xrgb(
    w: u32,
    h: u32,
    y_data: &[u8],
    u_data: &[u8],
    v_data: &[u8],
    stride_y: usize,
    stride_u: usize,
    stride_v: usize,
) -> (pixels: Vec<u32>)
    requires
        planes_ok(
            w as int,
            h as int,
            y_data@,
            u_data@,
            v_data@,
            stride_y as int,
            stride_u as int,
            stride_v as int,
        ),
    ensures
        pixels@ == xrgb_picture(
            w as int,
            h as int,
            y_data@,
            u_data@,
            v_data@,
            stride_y as int,
            stride_u as int,
            stride_v as int,
        ),
{
    let mut pixels: Vec<u32> = Vec::new();
    let ghost want = xrgb_picture(
        w as int,
        h as int,
        y_data@,
        u_data@,
        v_data@,
        stride_y as int,
        stride_u as int,
        stride_v as int,
    );
    assert(0 <= w * h) by (nonlinear_arith);
    assert(pixels@ =~= want.take(0));
    let mut row: u32 = 0;
    while row < h
        invariant
            row <= h,
            0 <= w * h,
            planes_ok(
                w as int,
                h as int,
                y_data@,
                u_data@,
                v_data@,
                stride_y as int,
                stride_u as int,
                stride_v as int,
            ),
            want == xrgb_picture(
                w as int,
                h as int,
                y_data@,
                u_data@,
                v_data@,
                stride_y as int,
                stride_u as int,
                stride_v as int,
            ),
            0 <= row * w <= want.len(),
            pixels@ == want.take(row * w),
        decreases h - row,
    {
        let mut col: u32 = 0;
        while col < w
            invariant
                row < h,
                col <= w,
                0 <= w * h,
                planes_ok(
                    w as int,
                    h as int,
                    y_data@,
                    u_data@,
                    v_data@,
                    stride_y as int,
                    stride_u as int,
                    stride_v as int,
                ),
                want == xrgb_picture(
                    w as int,
                    h as int,
                    y_data@,
                    u_data@,
                    v_data@,
                    stride_y as int,
                    stride_u as int,
                    stride_v as int,
                ),
                0 <= row * w + col <= want.len(),
                pixels@ == want.take(row * w + col),
            decreases w - col,
        {
            proof {
                let (wi, hi) = (w as int, h as int);
                grid::lemma_cell(wi, row as int, col as int);
                grid::lemma_cell_bound(wi, hi, row as int, col as int);
                lemma_in_plane(
                    row as int,
                    hi - 1,
                    col as int,
                    wi - 1,
                    stride_y as int,
                    y_data.len() as int,
                );
                lemma_in_plane(
                    row as int / 2,
                    (hi - 1) / 2,
                    col as int / 2,
                    (wi - 1) / 2,
                    stride_u as int,
                    u_data.len() as int,
                );
                lemma_in_plane(
                    row as int / 2,
                    (hi - 1) / 2,
                    col as int / 2,
                    (wi - 1) / 2,
                    stride_v as int,
                    v_data.len() as int,
                );
            }
            let half: usize = (row / 2) as usize;
            let c: usize = col as usize / 2;
            let y: u8 = y_data[row as usize * stride_y + col as usize];
            let u: u8 = u_data[half * stride_u + c];
            let v: u8 = v_data[half * stride_v + c];
            pixels.push(pixel(y, u, v));
            assert(pixels@ =~= want.take(row * w + col + 1));
            col = col + 1;
        }
        assert((row + 1) * w == row * w + w) by (nonlinear_arith);
        row = row + 1;
    }
    assert(h * w == w * h) by (nonlinear_arith);
    assert(want.take(want.len() as int) =~= want);
    pixels
}

/// The parts of a pixel are those of its samples by the coefficients of BT.601 at full range, with
/// eight fractional bits: `359 / 256` of the second chroma sample in the red, `454 / 256` of the
/// first in the blue, and less `88 / 256` and `183 / 256` of them (`a` and `b`, rounded down) in the
/// green. A part is cut off only where it leaves the range of a byte.
pub proof fn pixel_is_bt601(y: u8, u: u8, v: u8, a: int, b: int)
    requires
        256 * a <= 88 * (u - 128) < 256 * a + 256,
        256 * b <= 183 * (v - 128) < 256 * b + 256,
    ensures
        ({
            let p = pixel_of(y, u, v) as int;
            let red = p / 0x1_0000;
            let green = p / 0x100 % 0x100;
            let blue = p % 0x100;
            &&& 0 <= red <= 255
            &&& red > 0 ==> 256 * (red - y) <= 359 * (v - 128)
            &&& red < 255 ==> 359 * (v - 128) < 256 * (red - y) + 256
            &&& green > 0 ==> green <= y - a - b
            &&& green < 255 ==> green >= y - a - b
            &&& blue > 0 ==> 256 * (blue - y) <= 454 * (u - 128)
            &&& blue < 255 ==> 454 * (u - 128) < 256 * (blue - y) + 256
        }),
{
    let (yi, cb, cr) = (y as int, u - 128, v - 128);
    let r = red_of(yi, cr);
    let g = green_of(yi, cb, cr);
    let bl = blue_of(yi, cb);
    lemma_parts(r as u8, g as u8, bl as u8);
    lemma_red(yi, cr);
    lemma_blue(yi, cb);
    lemma_green(yi, cb, cr, a, b);
}

proof fn lemma_parts(r: u8, g: u8, b: u8)
    ensures
        decoder::xrgb(r, g, b) as int / 0x1_0000 == r,
        decoder::xrgb(r, g, b) as int / 0x100 % 0x100 == g,
        decoder::xrgb(r, g, b) as int % 0x100 == b,
{
}

proof fn lemma_red(y: int, v: int)
    requires
        0 <= y <= 255,
    ensures
        0 <= red_of(y, v) <= 255,
        red_of(y, v) > 0 ==> 256 * (red_of(y, v) - y) <= 359 * v,
        red_of(y, v) < 255 ==> 359 * v < 256 * (red_of(y, v) - y) + 256,
{
}

proof fn lemma_blue(y: int, u: int)
    requires
        0 <= y <= 255,
    ensures
        0 <= blue_of(y, u) <= 255,
        blue_of(y, u) > 0 ==> 256 * (blue_of(y, u) - y) <= 454 * u,
        blue_of(y, u) < 255 ==> 454 * u < 256 * (blue_of(y, u) - y) + 256,
{
}

proof fn lemma_green(y: int, u: int, v: int, a: int, b: int)
    requires
        256 * a <= 88 * u < 256 * a + 256,
        256 * b <= 183 * v < 256 * b + 256,
    ensures
        0 <= green_of(y, u, v) <= 255,
        green_of(y, u, v) > 0 ==> green_of(y, u, v) <= y - a - b,
        green_of(y, u, v) < 255 ==> green_of(y, u, v) >= y - a - b,
{
    assert(a == 88 * u / 256);
    assert(b == 183 * v / 256);
}

/// Each sample reaches its own place: the pixel in column `col` of row `row` has the luma sample of
/// that place, and the chroma samples of the block of two by two pixels that it lies in, which is
/// column `bc` of block row `br`.
pub proof fn samples_reach_their_place(
    w: int,
    h: int,
    y: Seq<u8>,
    u: Seq<u8>,
    v: Seq<u8>,
    stride_y: int,
    stride_u: int,
    stride_v: int,
    row: int,
    col: int,
    br: int,
    bc: int,
)
    requires
        0 <= row < h,
        0 <= col < w,
        2 * br <= row < 2 * br + 2,
        2 * bc <= col < 2 * bc + 2,
    ensures
        xrgb_picture(w, h, y, u, v, stride_y, stride_u, stride_v).len() == w * h,
        xrgb_picture(w, h, y, u, v, stride_y, stride_u, stride_v)[row * w + col] == pixel_of(
            y[row * stride_y + col],
            u[br * stride_u + bc],
            v[br * stride_v + bc],
        ),
{
    grid::lemma_cell(w, row, col);
    grid::lemma_cell_bound(w, h, row, col);
    assert(row / 2 == br && col / 2 == bc);
}

/// A chroma sample colours its block and nothing else: in two pictures that differ in the samples of
/// the block in column `bc` of block row `br` alone, every pixel outside that block is the same.
pub proof fn chroma_stays_in_its_block(
    w: int,
    h: int,
    y: Seq<u8>,
    u: Seq<u8>,
    v: Seq<u8>,
    stride_y: int,
    stride_u: int,
    stride_v: int,
    br: int,
    bc: int,
    cb: u8,
    cr: u8,
    row: int,
    col: int,
)
    requires
        planes_ok(w, h, y, u, v, stride_y, stride_u, stride_v),
        0 <= row < h,
        0 <= col < w,
        0 <= br && 2 * br < h,
        0 <= bc && 2 * bc < w,
        w <= 2 * stride_u,
        w <= 2 * stride_v,
        !(2 * br <= row < 2 * br + 2 && 2 * bc <= col < 2 * bc + 2),
    ensures
        xrgb_picture(
            w,
            h,
            y,
            u.update(br * stride_u + bc, cb),
            v.update(br * stride_v + bc, cr),
            stride_y,
            stride_u,
            stride_v,
        )[row * w + col] == xrgb_picture(w, h, y, u, v, stride_y, stride_u, stride_v)[row * w
            + col],
{
    let (r, c) = (row / 2, col / 2);
    samples_reach_their_place(w, h, y, u, v, stride_y, stride_u, stride_v, row, col, r, c);
    let u2 = u.update(br * stride_u + bc, cb);
    let v2 = v.update(br * stride_v + bc, cr);
    samples_reach_their_place(w, h, y, u2, v2, stride_y, stride_u, stride_v, row, col, r, c);
    lemma_places_differ(stride_u, r, c, br, bc);
    lemma_places_differ(stride_v, r, c, br, bc);
    lemma_in_plane(r, (h - 1) / 2, c, (w - 1) / 2, stride_u, u.len() as int);
    lemma_in_plane(r, (h - 1) / 2, c, (w - 1) / 2, stride_v, v.len() as int);
    lemma_in_plane(br, (h - 1) / 2, bc, (w - 1) / 2, stride_u, u.len() as int);
    lemma_in_plane(br, (h - 1) / 2, bc, (w - 1) / 2, stride_v, v.len() as int);
}

proof fn lemma_places_differ(stride: int, r: int, c: int, br: int, bc: int)
    requires
        0 <= r,
        0 <= br,
        0 <= c < stride,
        0 <= bc < stride,
        r != br || c != bc,
    ensures
        r * stride + c != br * stride + bc,
{
    grid::lemma_cell(stride, r, c);
    grid::lemma_cell(stride, br, bc);
}

/// The screen comes through: where the I420 picture that the agent makes of a screen is shown, each
/// pixel has the luma of its own place on the screen, and the chroma of the upper left pixel of the
/// block of two by two pixels that it lies in.
pub proof fn screen_comes_through(
    bgra: Seq<u8>,
    w: int,
    h: int,
    row: int,
    col: int,
    br: int,
    bc: int,
)
    requires
        w % 2 == 0,
        h % 2 == 0,
        0 <= row < h,
        0 <= col < w,
        2 * br <= row < 2 * br + 2,
        2 * bc <= col < 2 * bc + 2,
    ensures
        ({
            let i420 = yuv::i420_picture(bgra, w, h);
            let n = (w / 2) * (h / 2);
            xrgb_picture(
                w,
                h,
                i420.take(w * h),
                i420.subrange(w * h, w * h + n),
                i420.skip(w * h + n),
                w,
                w / 2,
                w / 2,
            )[row * w + col] == pixel_of(
                yuv::luma_px(bgra, row * w + col),
                yuv::cb_px(bgra, 2 * br * w + 2 * bc),
                yuv::cr_px(bgra, 2 * br * w + 2 * bc),
            )
        }),
{
    let i420 = yuv::i420_picture(bgra, w, h);
    let n = (w / 2) * (h / 2);
    let (y, u, v) = (i420.take(w * h), i420.subrange(w * h, w * h + n), i420.skip(w * h + n));
    samples_reach_their_place(w, h, y, u, v, w, w / 2, w / 2, row, col, br, bc);
    grid::lemma_cell_bound(w, h, row, col);
    grid::lemma_cell_bound(w / 2, h / 2, br, bc);
    grid::lemma_cell(w / 2, br, bc);
    let j = br * (w / 2) + bc;
    assert(yuv::block_px(w, j) == 2 * br * w + 2 * bc);
    assert(i420.len() == w * h + 2 * n);
    assert(y[row * w + col] == yuv::luma_px(bgra, row * w + col));
    assert(u[j] == i420[w * h + j]);
    assert(v[j] == i420[w * h + n + j]);
}

/// Without colour each part of a pixel is its luma.
pub proof fn neutral_chroma_is_grey(y: u8)
    ensures
        pixel_of(y, 128, 128) == decoder::xrgb(y, y, y),
{
}

/// Planes are taken that have all their rows: as many bytes from one row to the next as a row has, or
/// more, and for the chroma half as many rows and columns as there are pixels, rounded up.
pub proof fn whole_planes_are_taken(
    w: int,
    h: int,
    y: Seq<u8>,
    u: Seq<u8>,
    v: Seq<u8>,
    stride_y: int,
    stride_u: int,
    stride_v: int,
)
    requires
        0 < w,
        0 < h,
        w <= stride_y,
        (w + 1) / 2 <= stride_u,
        (w + 1) / 2 <= stride_v,
        y.len() >= stride_y * h,
        u.len() >= stride_u * ((h + 1) / 2),
        v.len() >= stride_v * ((h + 1) / 2),
    ensures
        planes_ok(w, h, y, u, v, stride_y, stride_u, stride_v),
{
    let half = (h + 1) / 2;
    assert((h - 1) / 2 == half - 1);
    assert((h - 1) * stride_y == stride_y * h - stride_y) by (nonlinear_arith);
    assert((half - 1) * stride_u == stride_u * half - stride_u) by (nonlinear_arith);
    assert((half - 1) * stride_v == stride_v * half - stride_v) by (nonlinear_arith);
}

} // verus!
