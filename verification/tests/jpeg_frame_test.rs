use vdesk::agent::services::video::encode_jpeg;
use vdesk::jpeg_frame::fits;
use vdesk::viewer::decoder::{decode_jpeg, NotDecoded};

fn segment(code: u8, data: &[u8]) -> Vec<u8> {
    let len = data.len() + 2;
    let mut out = vec![0xFF, code, (len / 256) as u8, (len % 256) as u8];
    out.extend_from_slice(data);
    out
}

/// The headers of a file: the frame's code, the size, the blocks of the components in a unit, the
/// first quantiser, the largest category and the components of the scan.
fn headers(code: u8, w: u16, h: u16, units: &[u8], q: u16, category: u8, scanned: u8) -> Vec<u8> {
    let mut out = vec![0xFF, 0xD8];
    let mut quantisers = vec![0x10];
    for i in 0..64 {
        let n = if i == 0 { q } else { 1 };
        quantisers.extend_from_slice(&n.to_be_bytes());
    }
    out.extend(segment(0xDB, &quantisers));
    let mut frame = vec![8];
    frame.extend_from_slice(&h.to_be_bytes());
    frame.extend_from_slice(&w.to_be_bytes());
    frame.push(units.len() as u8);
    for (i, unit) in units.iter().enumerate() {
        frame.extend_from_slice(&[i as u8 + 1, *unit, 0]);
    }
    out.extend(segment(code, &frame));
    let mut codes = vec![0];
    codes.extend_from_slice(&[0, 2, 0, 0, 0, 0, 0, 0, 0, 0, 0, 0, 0, 0, 0, 0]);
    codes.extend_from_slice(&[0, category]);
    out.extend(segment(0xC4, &codes));
    let mut scan = vec![scanned];
    for i in 0..scanned {
        scan.extend_from_slice(&[i + 1, 0]);
    }
    scan.extend_from_slice(&[0, 63, 0]);
    out.extend(segment(0xDA, &scan));
    out
}

fn colour(w: u16, h: u16, q: u16, category: u8) -> Vec<u8> {
    headers(0xC0, w, h, &[0x11, 0x11, 0x11], q, category, 3)
}

#[test]
fn coefficients_are_bounded_by_the_headers() {
    // Two blocks: 2 * 32767 * 32768 + 1028 is the most that fits.
    assert!(fits(&headers(0xC0, 16, 8, &[0x11], 32768, 15, 1)));
    assert!(!fits(&headers(0xC0, 16, 8, &[0x11], 32769, 15, 1)));
    assert!(!fits(&headers(0xC0, 16, 8, &[0x11], 65535, 15, 1)));
    assert!(fits(&headers(0xC0, 8, 8, &[0x11], 65535, 15, 1)));
    assert!(fits(&headers(0xC2, 16, 8, &[0x11], 65535, 15, 1)));
    assert_eq!(
        decode_jpeg(&headers(0xC0, 16, 8, &[0x11], 65535, 15, 1)).unwrap_err(),
        NotDecoded {}
    );
}

#[test]
fn screens_are_within_the_bound() {
    assert!(fits(&colour(3840, 2160, 7, 11)));
    assert!(fits(&colour(65535, 144, 7, 11)));
    assert!(!fits(&colour(65535, 152, 7, 11)));
    assert!(fits(&colour(65535, 152, 6, 11)));
    assert!(fits(&colour(7680, 4320, 7, 9)));
}

#[test]
fn later_scans_and_tables_count() {
    let mut file = colour(3840, 2160, 7, 11);
    file.extend_from_slice(&[1, 2, 3]);
    assert!(fits(&file));
    let mut again = file.clone();
    again.extend(segment(0xDA, &[1, 1, 0, 0, 63, 0]));
    assert!(!fits(&again));
    let mut other = file.clone();
    other.extend(segment(0xC4, &[0, 1, 0, 0, 0, 0, 0, 0, 0, 0, 0, 0, 0, 0, 0, 0, 0, 12]));
    assert!(!fits(&other));
    let mut whatever = file.clone();
    whatever.extend_from_slice(&[0xFF, 0xDA, 9, 9, 9, 0xFF, 0xC4, 0, 30, 9, 9, 9]);
    assert!(fits(&whatever));
}

#[test]
fn sides_of_a_stretched_grey_picture_are_bounded() {
    assert!(fits(&headers(0xC0, 65535, 8, &[0x11], 1, 11, 1)));
    assert!(fits(&headers(0xC0, 65528, 8, &[0x22], 1, 11, 1)));
    assert!(!fits(&headers(0xC0, 65529, 8, &[0x22], 1, 11, 1)));
    assert!(!fits(&headers(0xC0, 8, 65529, &[0x21], 1, 11, 1)));
    assert!(fits(&headers(0xC2, 65529, 8, &[0x22], 1, 11, 1)));
}

#[test]
fn usual_layouts_fit() {
    for first in [0x11, 0x21, 0x12, 0x22, 0x41, 0x42, 0x24, 0x44] {
        for code in [0xC0, 0xC1, 0xC2] {
            for scanned in [1, 3] {
                let units = [first, 0x11, 0x11];
                assert!(fits(&headers(code, 640, 480, &units, 8, 11, scanned)), "{:x}", first);
            }
        }
    }
    assert!(fits(&headers(0xC0, 640, 480, &[0x22, 0x11, 0x11, 0x22], 8, 11, 4)));
    assert!(fits(&headers(0xC2, 640, 480, &[0x22, 0x11, 0x11, 0x22], 8, 11, 4)));
}

#[test]
fn rows_need_room() {
    assert!(fits(&headers(0xC0, 32, 24, &[0x11, 0x21, 0x11], 8, 11, 3)));
    assert!(!fits(&headers(0xC0, 32, 24, &[0x11, 0x21, 0x11], 8, 11, 1)));
    assert!(!fits(&headers(0xC2, 32, 24, &[0x11, 0x22, 0x22], 8, 11, 3)));
    assert!(!fits(&headers(0xC0, 32, 24, &[0x44, 0x11, 0x22], 8, 11, 3)));
}

#[test]
fn colours_must_match_the_components() {
    let adobe = |t: u8| segment(0xEE, &[0x41, 0x64, 0x6F, 0x62, 0x65, 0, 100, 0, 0, 0, 0, t]);
    let with = |mut file: Vec<u8>, t: u8| {
        file.extend(adobe(t));
        file
    };
    let four = || headers(0xC2, 32, 24, &[0x22, 0x11, 0x11, 0x22], 8, 11, 4);
    assert!(fits(&with(four(), 0)));
    assert!(fits(&with(four(), 2)));
    assert!(!fits(&with(four(), 1)));
    assert!(fits(&with(headers(0xC2, 32, 24, &[0x11], 8, 11, 1), 1)));
    assert!(!fits(&with(headers(0xC2, 32, 24, &[0x11], 8, 11, 1), 2)));
    assert!(fits(&with(headers(0xC0, 32, 24, &[0x11], 8, 11, 1), 2)));
}

#[test]
fn broken_headers_do_not_fit() {
    let whole = colour(32, 24, 8, 11);
    for n in 0..whole.len() - 9 {
        assert!(!fits(&whole[..n]), "{}", n);
    }
    assert!(fits(&whole));
    assert!(!fits(&whole[1..]));
    assert!(!fits(&colour(0, 24, 8, 11)));
    assert!(!fits(&headers(0xC0, 32, 24, &[0x31], 8, 11, 1)));
    assert!(!fits(&headers(0xC0, 32, 24, &[0x15], 8, 11, 1)));
    assert!(!fits(&headers(0xC0, 32, 24, &[], 8, 11, 1)));
}

#[test]
fn encoded_pictures_fit() {
    for (w, h) in [(1, 1), (8, 8), (640, 480), (1920, 16)] {
        let bgra: Vec<u8> = (0..4 * w * h).map(|i| (i * 31 % 253) as u8).collect();
        let mut file = encode_jpeg(&bgra, w as u32, h as u32).unwrap();
        assert!(fits(&file));
        file.extend_from_slice(&[0xFF, 0xD8, 0xFF, 0xE0, 1, 2, 3]);
        assert!(fits(&file));
        let (dw, dh, pixels) = decode_jpeg(&file).unwrap();
        assert_eq!((dw, dh, pixels.len()), (w as u32, h as u32, w * h));
    }
}
