//! Decoding of JPEG frames.

use crate::jpeg_frame;
use crate::outside::jpeg;
use vstd::prelude::*;

verus! {

/// The data is not a JPEG picture that can be decoded.
#[derive(Clone, Copy, Debug, PartialEq, Eq, Structural)]
pub struct NotDecoded {
}

/// The number `0x00RRGGBB` of a colour.
pub open spec fn xrgb(r: u8, g: u8, b: u8) -> u32 {
    (r * 0x1_0000 + g * 0x100 + b) as u32
}

/// The pixels of a picture that is given in three bytes a pixel. Bytes that make no whole pixel
/// are left out.
pub open spec fn xrgb_of(rgb: Seq<u8>) -> Seq<u32> {
    Seq::new(
        (rgb.len() / 3) as nat,
        |i: int| xrgb(rgb[3 * i], rgb[3 * i + 1], rgb[3 * i + 2]),
    )
}

/// Packs each three bytes into a pixel.
pub fn pack_rgb(rgb: &[u8]) -> (pixels: Vec<u32>)
    ensures
        pixels@ == xrgb_of(rgb@),
{
    let mut pixels: Vec<u32> = Vec::new();
    let count: usize = rgb.len() / 3;
    let mut i: usize = 0;
    while i < count
        invariant
            i <= count,
            count == rgb.len() / 3,
            pixels@ == xrgb_of(rgb@).take(i as int),
        decreases count - i,
    {
        pixels.push(
            rgb[3 * i] as u32 * 0x1_0000 + rgb[3 * i + 1] as u32 * 0x100 + rgb[3 * i + 2] as u32,
        );
        i = i + 1;
        assert(pixels@ =~= xrgb_of(rgb@).take(i as int));
    }
    assert(xrgb_of(rgb@).take(count as int) =~= xrgb_of(rgb@));
    pixels
}

/// The picture that a JPEG file shows, where it can be given to the decoder and the decoder makes
/// one of it: its width, its height and its pixels.
pub open spec fn shown(file: Seq<u8>) -> Option<(u32, u32, Seq<u32>)> {
    match jpeg::jpeg_picture(file) {
        Some((w, h, rgb)) => if jpeg_frame::can_be_decoded(file) {
            Some((w, h, xrgb_of(rgb)))
        } else {
            None
        },
        None => None,
    }
}

/// Decodes a JPEG picture: its width, its height and its pixels.
///
/// The headers are read first: a file is refused that could take the decoder out of the range of
/// its numbers.
pub fn decode_jpeg(jpeg_bytes: &[u8]) -> (r: Result<(u32, u32, Vec<u32>), NotDecoded>)
    ensures
        r is Err <==> shown(jpeg_bytes@) is None,
        r matches Ok((w, h, pixels)) ==> {
            &&& shown(jpeg_bytes@) == Some((w, h, pixels@))
            &&& jpeg_frame::size_of(jpeg_bytes@) == (w as int, h as int)
            &&& jpeg::jpeg_sized(w, h)
            &&& pixels@.len() == w * h
        },
{
    if !jpeg_frame::fits(jpeg_bytes) {
        return Err(NotDecoded {  });
    }
    let decoded: Option<(u32, u32, Vec<u8>)> = match jpeg::decode_rgb(jpeg_bytes) {
        Err(_) => None,
        Ok(picture) => Some(picture),
    };
    picture_of(decoded)
}

/// What decoding gives for each outcome of the decoder: the size and the packed pixels of a picture
/// in three bytes a pixel, and `NotDecoded` where it gave no picture.
pub fn picture_of(decoded: Option<(u32, u32, Vec<u8>)>) -> (r: Result<
    (u32, u32, Vec<u32>),
    NotDecoded,
>)
    ensures
        r is Err <==> decoded is None,
        r matches Ok((w, h, pixels)) ==> {
            &&& decoded matches Some((dw, dh, rgb))
            &&& (w, h) == (dw, dh)
            &&& pixels@ == xrgb_of(rgb@)
        },
{
    match decoded {
        None => Err(NotDecoded {  }),
        Some((w, h, rgb)) => Ok((w, h, pack_rgb(rgb.as_slice()))),
    }
}

} // verus!
