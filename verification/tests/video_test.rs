use vdesk::agent::services::capture_dxgi::DirtyRect;
use vdesk::agent::services::video::{
    after_attempt, bitrate_kbps, encode_frame_dxgi, encode_frame_gdi, encode_jpeg, fnv_sample, pace,
    CaptureLoop, CaptureMode, Codec, EncodeError, Handover, Prepared, Round, Startup, VideoFrame,
    DXGI_RETRY_NANOS, FRAME_INTERVAL_NANOS, TARGET_FPS,
};
use vdesk::agent::services::vpx_enc::{created, encode_outcome, CreateError};

#[test]
fn fnv_of_sampled_bytes() {
    assert_eq!(fnv_sample(&[]), 0xcbf29ce484222325);
    assert_eq!(fnv_sample(b"a"), 0xaf63dc4c8601ec8c);
    let mut v = vec![1u8; 256];
    v.push(2);
    assert_eq!(fnv_sample(&v), 0x082f2407b4e8902a);
    v[255] = 77;
    assert_eq!(fnv_sample(&v), 0x082f2407b4e8902a);
}

#[test]
fn frame_interval_is_a_sixtieth() {
    assert_eq!(FRAME_INTERVAL_NANOS, 1_000_000 / TARGET_FPS * 1000);
    assert_eq!(pace(0), 16_666_000);
    assert_eq!(pace(16_665_999), 1);
    assert_eq!(pace(16_666_000), 0);
    assert_eq!(pace(u64::MAX), 0);
}

#[test]
fn codec_numbers() {
    assert_eq!(Codec::Jpeg.code(), 0);
    assert_eq!(Codec::Vp9.code(), 1);
    assert_eq!(VideoFrame::new(vec![], 2, 2, Codec::Vp9, true).fps, 60);
}

#[test]
fn jpeg_of_a_picture() {
    let bgra = vec![128u8; 4 * 8 * 8];
    let file = encode_jpeg(&bgra, 8, 8).unwrap();
    assert_eq!(&file[..2], &[0xFF, 0xD8]);
    assert_ne!(file, bgra);
    assert_eq!(encode_jpeg(&bgra, 8, 8).unwrap(), file);
}

#[test]
fn jpeg_needs_enough_pixels() {
    assert_eq!(encode_jpeg(&[0; 4 * 4 - 1], 2, 2), Err(EncodeError::TooFewPixels));
    assert!(encode_jpeg(&[0; 4 * 4 + 3], 2, 2).is_ok());
}

#[test]
fn jpeg_has_no_empty_or_huge_picture() {
    assert_eq!(encode_jpeg(&[], 0, 7), Err(EncodeError::NotEncoded));
    assert_eq!(encode_jpeg(&vec![0; 4 * 65536], 65536, 1), Err(EncodeError::NotEncoded));
}

#[test]
fn frame_is_prepared_for_vp9() {
    let bgra = vec![0u8; 4 * 4];
    let mut i420 = Vec::new();
    assert!(matches!(
        encode_frame_dxgi(&bgra, true, &[], 2, 2, &mut i420, true),
        Prepared::ForVp9
    ));
    assert_eq!(i420, vec![16, 16, 16, 16, 128, 128]);
    let white = vec![255u8; 4 * 4];
    let rect = DirtyRect { left: 0, top: 0, right: 1, bottom: 1 };
    assert!(matches!(
        encode_frame_dxgi(&white, false, &[rect], 2, 2, &mut i420, true),
        Prepared::ForVp9
    ));
    assert_eq!(i420, vec![235, 16, 16, 16, 128, 128]);
    assert!(matches!(encode_frame_gdi(&white, 2, 2, &mut i420, true), Prepared::ForVp9));
    assert_eq!(i420, vec![235, 235, 235, 235, 128, 128]);
}

#[test]
fn frame_falls_back_to_jpeg() {
    let bgra = vec![0u8; 4 * 4];
    let mut i420 = vec![7];
    match encode_frame_dxgi(&bgra, false, &[], 2, 2, &mut i420, false) {
        Prepared::Encoded(d, codec, is_key) => {
            assert_eq!(&d[..2], &[0xFF, 0xD8]);
            assert_eq!(codec, Codec::Jpeg);
            assert!(is_key);
        }
        other => panic!("{:?}", other),
    }
    assert!(matches!(encode_frame_gdi(&bgra, 3, 2, &mut i420, false), Prepared::Nothing));
    assert_eq!(i420, vec![7]);
}

#[test]
fn bitrate_setting() {
    assert_eq!(bitrate_kbps(None), 8000);
    assert_eq!(bitrate_kbps(Some("2500")), 2500);
    assert_eq!(bitrate_kbps(Some("fast")), 8000);
    assert_eq!(bitrate_kbps(Some("4294967296")), 8000);
}

#[test]
fn start_tries_three_times() {
    assert_eq!(after_attempt(1, true), Startup::Start(CaptureMode::Dxgi));
    assert_eq!(after_attempt(1, false), Startup::TryAgain(200));
    assert_eq!(after_attempt(2, false), Startup::TryAgain(200));
    assert_eq!(after_attempt(3, false), Startup::Start(CaptureMode::Gdi));
}

fn capture(r: Round) -> bool {
    match r {
        Round::Capture { force_key } => force_key,
        other => panic!("{:?}", other),
    }
}

#[test]
fn first_frame_and_every_six_hundredth_is_key() {
    let mut s = CaptureLoop::new(CaptureMode::Dxgi, 0);
    for n in 0..1201u64 {
        assert_eq!(capture(s.begin_round(0)), n % 600 == 0);
        assert!(s.handed_over(Handover::Taken));
    }
}

#[test]
fn lost_frame_is_made_good() {
    let mut s = CaptureLoop::new(CaptureMode::Dxgi, 0);
    s.handed_over(Handover::Taken);
    assert!(!capture(s.begin_round(0)));
    assert!(s.handed_over(Handover::QueueFull));
    assert_eq!(s.drop_count, 1);
    assert!(capture(s.begin_round(0)));
    assert!(s.handed_over(Handover::Taken));
    assert_eq!(s.drop_count, 0);
    assert!(!capture(s.begin_round(0)));
}

#[test]
fn closed_queue_stops_the_loop() {
    let mut s = CaptureLoop::new(CaptureMode::Dxgi, 0);
    assert!(!s.handed_over(Handover::Closed));
    assert_eq!(s.frames, 0);
}

#[test]
fn fifth_failure_tears_down() {
    let mut s = CaptureLoop::new(CaptureMode::Dxgi, 0);
    for _ in 0..4 {
        assert!(!s.dxgi_failed());
    }
    assert!(s.dxgi_failed());
    assert_eq!(s.fail_streak, 0);
    s.reset_done(true, 9);
    assert_eq!(s.mode, CaptureMode::Dxgi);
    s.frames = 1;
    assert!(capture(s.begin_round(9)));
}

#[test]
fn a_good_capture_ends_the_streak() {
    let mut s = CaptureLoop::new(CaptureMode::Dxgi, 0);
    for _ in 0..4 {
        s.dxgi_failed();
    }
    s.dxgi_unchanged();
    assert!(!s.dxgi_failed());
    for _ in 0..3 {
        s.dxgi_failed();
    }
    assert!(s.dxgi_frame(&[1], false, false, false));
    assert_eq!(s.fail_streak, 0);
}

#[test]
fn gdi_mode_tries_dxgi_every_thirty_seconds() {
    let mut s = CaptureLoop::new(CaptureMode::Dxgi, 0);
    s.frames = 1;
    for _ in 0..5 {
        s.dxgi_failed();
    }
    s.reset_done(false, 1000);
    assert_eq!(s.mode, CaptureMode::Gdi);
    assert!(capture(s.begin_round(1000 + DXGI_RETRY_NANOS - 1)));
    assert_eq!(s.begin_round(1000 + DXGI_RETRY_NANOS), Round::TryDxgi);
    assert_eq!(s.dxgi_tried(false), Some(false));
    assert!(!capture(s.begin_round(1001 + DXGI_RETRY_NANOS)));
    assert_eq!(s.begin_round(1000 + 2 * DXGI_RETRY_NANOS), Round::TryDxgi);
    assert_eq!(s.dxgi_tried(true), None);
    assert_eq!(s.mode, CaptureMode::Dxgi);
    assert!(capture(s.begin_round(u64::MAX)));
}

#[test]
fn still_picture_is_sent_once() {
    let mut s = CaptureLoop::new(CaptureMode::Dxgi, 0);
    let a = vec![1u8; 600];
    assert!(s.dxgi_frame(&a, true, true, false));
    assert!(!s.dxgi_frame(&a, true, true, false));
    assert!(s.dxgi_frame(&a, true, true, true));
    assert!(s.dxgi_frame(&a, true, false, false));
    assert!(s.dxgi_frame(&a, false, true, false));
    let mut g = CaptureLoop::new(CaptureMode::Gdi, 0);
    assert!(g.gdi_frame(&a, false));
    assert!(!g.gdi_frame(&a, false));
    assert!(g.gdi_frame(&a, true));
    let b = vec![2u8; 600];
    assert!(g.gdi_frame(&b, false));
}

#[test]
fn encoder_is_made_or_not() {
    assert_eq!(created(false, 3), Ok(()));
    assert_eq!(created(true, 1), Err(CreateError::OutOfMemory));
    assert_eq!(created(true, 2), Err(CreateError::NoConfig));
    assert_eq!(created(true, 3), Err(CreateError::NoCodec));
    assert_eq!(created(true, 4), Err(CreateError::NoImage));
    assert_eq!(created(true, 0), Err(CreateError::Unknown));
}

#[test]
fn encoder_gives_data_or_not() {
    assert_eq!(encode_outcome(-3, false, 10, 1), Err(-3));
    assert_eq!(encode_outcome(0, true, 10, 1), Ok(None));
    assert_eq!(encode_outcome(0, false, 0, 1), Ok(None));
    assert_eq!(encode_outcome(0, false, 10, 1), Ok(Some(true)));
    assert_eq!(encode_outcome(0, false, 10, 0), Ok(Some(false)));
}
