//! JPEG files through the `image` crate.

use crate::jpeg_frame;
use image::codecs::jpeg::JpegEncoder;
use image::{ImageBuffer, Rgb};
use vstd::prelude::*;

verus! {

/// `image::ImageError`.
#[verifier::external_type_specification]
#[verifier::external_body]
pub struct ExImageError(image::ImageError);

/// The JPEG file that `JpegEncoder::encode_image` writes for a picture of `w` by `h` pixels, three
/// bytes a pixel, at a quality.
pub uninterp spec fn jpeg_file(rgb: Seq<u8>, w: u32, h: u32, quality: u8) -> Seq<u8>;

/// The picture that `image::load_from_memory_with_format` makes of a JPEG file: the width, the
/// height and the colours, three bytes a pixel.
pub uninterp spec fn jpeg_picture(file: Seq<u8>) -> Option<(u32, u32, Seq<u8>)>;

/// The sizes that a JPEG file can have.
pub open spec fn jpeg_sized(w: u32, h: u32) -> bool {
    1 <= w <= 65535 && 1 <= h <= 65535
}

/// The first number that `JpegEncoder` writes in a table of quantisers, for a number of the standard
/// table and a quality: at a quality of 50 it is that number.
pub open spec fn first_quantiser(standard: int, quality: u8) -> int {
    let level = if quality < 1 {
        1int
    } else if quality > 100 {
        100int
    } else {
        quality as int
    };
    let percent = if level < 50 {
        5000int / level
    } else {
        200 - 2 * level
    };
    let scaled = (standard * percent + 50) / 100;
    if scaled < 1 {
        1
    } else if scaled > 255 {
        255
    } else {
        scaled
    }
}

/// `ImageBuffer::from_raw`, and `JpegEncoder::encode_image` into a fresh vector.
///
/// The buffer is refused (`None`) where it is too short for the picture, or where the bytes of a
/// row cannot be counted in a `usize`. Encoding then fails only for a size that JPEG does not have;
/// otherwise it gives one file for one picture and quality, with a picture of that size in the plain
/// layout and the standard tables: those of the quantisers, scaled by the quality, begin with 16
/// and 17.
#[verifier::external_body]
pub(crate) fn encode_rgb(rgb: Vec<u8>, w: u32, h: u32, quality: u8) -> (r: Option<
    Result<Vec<u8>, image::ImageError>,
>)
    ensures
        r is None <==> 3 * w > usize::MAX || 3 * (w * h) > rgb@.len(),
        r matches Some(encoded) ==> (encoded is Ok <==> jpeg_sized(w, h)),
        r matches Some(Ok(file)) ==> {
            &&& file@ == jpeg_file(rgb@, w, h, quality)
            &&& jpeg_frame::is_plain(
                file@,
                w as int,
                h as int,
                first_quantiser(16, quality),
                first_quantiser(17, quality),
            )
        },
{
    let img = ImageBuffer::<Rgb<u8>, Vec<u8>>::from_raw(w, h, rgb)?;
    let mut out = Vec::new();
    let done = JpegEncoder::new_with_quality(&mut out, quality).encode_image(&img);
    Some(done.map(|_| out))
}

/// `image::load_from_memory_with_format` for JPEG, and `DynamicImage::into_rgb8`.
///
/// It gives one picture, or none, for one file: the decoder works on integers, alike with and
/// without vector instructions, and its limits are fixed numbers. The picture has the size in the
/// file's frame header, three bytes a pixel. On a file that the condition leaves out the decoder may
/// panic: it multiplies coefficients in an `i32`, counts blocks in a `u16` and bytes between markers
/// in an `i32`, and takes its rows out of buffers that are made for common layouts.
#[verifier::external_body]
pub(crate) fn decode_rgb(file: &[u8]) -> (r: Result<(u32, u32, Vec<u8>), image::ImageError>)
    requires
        jpeg_frame::can_be_decoded(file@),
    ensures
        r is Err <==> jpeg_picture(file@) is None,
        r matches Ok((w, h, rgb)) ==> {
            &&& jpeg_picture(file@) == Some((w, h, rgb@))
            &&& jpeg_frame::size_of(file@) == (w as int, h as int)
            &&& jpeg_sized(w, h)
            &&& rgb@.len() == 3 * (w * h)
        },
{
    let img = image::load_from_memory_with_format(file, image::ImageFormat::Jpeg)?.into_rgb8();
    let (w, h) = img.dimensions();
    Ok((w, h, img.into_raw()))
}

} // verus!
