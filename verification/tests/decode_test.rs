use image::codecs::jpeg::JpegEncoder;
use image::{ImageBuffer, Luma};
use vdesk::agent::services::video::encode_jpeg;
use vdesk::viewer::decoder::{decode_jpeg, pack_rgb, picture_of, NotDecoded};
use vdesk::viewer::vpx_dec::{decode_outcome, i420_to_xrgb, DecodeOutcome};

#[test]
fn three_bytes_make_a_pixel() {
    assert_eq!(pack_rgb(&[1, 2, 3, 0xFF, 0, 0x80, 9]), vec![0x010203, 0xFF0080]);
}

#[test]
fn outcomes_of_the_jpeg_decoder() {
    let rgb = vec![1, 2, 3, 0xFF, 0, 0x80];
    assert_eq!(picture_of(Some((2, 1, rgb))), Ok((2, 1, vec![0x010203, 0xFF0080])));
    assert_eq!(picture_of(None), Err(NotDecoded {}));
}

#[test]
fn jpeg_is_decoded_to_its_size() {
    let bgra: Vec<u8> = [255u8, 255, 255, 0].repeat(24);
    let file = encode_jpeg(&bgra, 6, 4).unwrap();
    let (w, h, pixels) = decode_jpeg(&file).unwrap();
    assert_eq!((w, h), (6, 4));
    assert_eq!(pixels, vec![0xFFFFFF; 24]);
}

#[test]
fn other_data_is_not_decoded() {
    assert_eq!(decode_jpeg(&[]).unwrap_err(), NotDecoded {});
    assert_eq!(decode_jpeg(&[0xFF, 0xD8, 0, 0]).unwrap_err(), NotDecoded {});
}

#[test]
fn outcomes_of_the_decoder() {
    assert_eq!(decode_outcome(-1), DecodeOutcome::Failed);
    assert_eq!(decode_outcome(1), DecodeOutcome::NoPicture);
    assert_eq!(decode_outcome(0), DecodeOutcome::Picture);
    assert_eq!(decode_outcome(2), DecodeOutcome::Picture);
}

#[test]
fn i420_pixels() {
    let y = [128, 100, 255, 81];
    assert_eq!(i420_to_xrgb(1, 1, &y, &[128], &[128], 1, 1, 1), vec![0x808080]);
    assert_eq!(i420_to_xrgb(1, 1, &y[1..], &[90], &[200], 1, 1, 1), vec![0xC83F20]);
    assert_eq!(i420_to_xrgb(1, 1, &y[2..], &[255], &[255], 1, 1, 1), vec![0xFF7AFF]);
    assert_eq!(i420_to_xrgb(1, 1, &y[3..], &[91], &[240], 1, 1, 1), vec![0xEE0E0F]);
    assert_eq!(i420_to_xrgb(1, 1, &[0], &[0], &[0], 1, 1, 1), vec![0x008800]);
}

#[test]
fn i420_rows_have_strides_and_blocks() {
    let y = [10, 20, 99, 30, 40, 99, 50, 60];
    let grey = |n: u32| n * 0x010101;
    let u = [128, 99, 128];
    let out = i420_to_xrgb(2, 3, &y, &u, &u, 3, 2, 2);
    assert_eq!(out, vec![grey(10), grey(20), grey(30), grey(40), grey(50), grey(60)]);
    assert!(i420_to_xrgb(0, 3, &[], &[], &[], 0, 0, 0).is_empty());
}

fn grey_file(w: u32, h: u32, level: u8) -> Vec<u8> {
    let mut out = Vec::new();
    let picture = ImageBuffer::from_pixel(w, h, Luma([level]));
    JpegEncoder::new_with_quality(&mut out, 100).encode_image(&picture).unwrap();
    out
}

#[test]
fn grey_jpeg_is_decoded_to_grey_pixels() {
    let (w, h, pixels) = decode_jpeg(&grey_file(5, 3, 0x40)).unwrap();
    assert_eq!((w, h), (5, 3));
    assert_eq!(pixels, vec![0x404040; 15]);
}

#[test]
fn long_sides_are_decoded() {
    let (w, h, pixels) = decode_jpeg(&grey_file(65535, 1, 0x80)).unwrap();
    assert_eq!((w, h, pixels.len()), (65535, 1, 65535));
    let (w, h, _) = decode_jpeg(&grey_file(1, 65535, 0x80)).unwrap();
    assert_eq!((w, h), (1, 65535));
}

#[test]
fn long_sides_in_colour_are_decoded() {
    let file = encode_jpeg(&[0u8; 4 * 65535], 65535, 1).unwrap();
    let (w, h, pixels) = decode_jpeg(&file).unwrap();
    assert_eq!((w, h), (65535, 1));
    assert_eq!(pixels, vec![0; 65535]);
}

#[test]
fn one_file_gives_one_picture() {
    let bgra: Vec<u8> = (0..4 * 16 * 16).map(|i| (i * 7 % 251) as u8).collect();
    let file = encode_jpeg(&bgra, 16, 16).unwrap();
    assert_eq!(decode_jpeg(&file), decode_jpeg(&file.clone()));
    assert_ne!(decode_jpeg(&file).unwrap().2, vec![0; 256]);
}
