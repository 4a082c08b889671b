use vdesk::agent::services::capture_dxgi::{
    classify_acquire, Acquired, CopyPlan, DirtyRect, DxgiCapture, RawRect, ACCESS_LOST, WAIT_TIMEOUT,
};
use vdesk::agent::services::capture_gdi::{GdiCapture, NoScreen};
use vdesk::agent::services::yuv::{bgra_to_i420, bgra_to_i420_rects};

fn raw(left: i32, top: i32, right: i32, bottom: i32) -> RawRect {
    RawRect { left, top, right, bottom }
}

#[test]
fn outcome_of_acquire() {
    assert_eq!(classify_acquire(WAIT_TIMEOUT, 5), Acquired::Timeout);
    assert_eq!(classify_acquire(ACCESS_LOST, 5), Acquired::AccessLost);
    assert_eq!(classify_acquire(-1, 5), Acquired::Failed(-1));
    assert_eq!(classify_acquire(0, 0), Acquired::Unchanged);
    assert_eq!(classify_acquire(0, 5), Acquired::Changed);
    assert_eq!(WAIT_TIMEOUT as u32, 0x887A_0027);
    assert_eq!(ACCESS_LOST as u32, 0x887A_0026);
}

#[test]
fn first_frame_is_copied_whole() {
    let c = DxgiCapture::new(4, 4);
    assert!(matches!(c.plan_copy(&[raw(0, 0, 1, 1)]), CopyPlan::Full));
}

#[test]
fn few_changes_are_copied_alone() {
    let mut c = DxgiCapture::new(4, 4);
    let mapped: Vec<u8> = (0..80).collect();
    c.capture(CopyPlan::Full, false, &mapped, 20);
    assert_eq!(c.frame().bgra[..16], mapped[..16]);
    assert_eq!(c.frame().bgra[16..32], mapped[20..36]);
    assert!(c.frame().is_full_frame);
    assert!(matches!(c.plan_copy(&[]), CopyPlan::Full));
    assert!(matches!(c.plan_copy(&[raw(0, 0, 4, 2)]), CopyPlan::Full));
    match c.plan_copy(&[raw(0, 0, 3, 2), raw(3, 3, 4, 4)]) {
        CopyPlan::Regions(r) => {
            assert_eq!(r.len(), 2);
            assert_eq!(r[1], DirtyRect { left: 3, top: 3, right: 4, bottom: 4 });
        }
        other => panic!("{:?}", other),
    }
}

#[test]
fn rectangles_out_of_order_have_no_area() {
    let mut c = DxgiCapture::new(4, 4);
    c.capture(CopyPlan::Full, false, &[0; 64], 16);
    assert!(matches!(c.plan_copy(&[raw(4, 4, 0, 0)]), CopyPlan::Regions(_)));
}

#[test]
fn region_copy_leaves_the_rest() {
    let mut c = DxgiCapture::new(4, 2);
    c.capture(CopyPlan::Full, false, &[1; 32], 16);
    let r = DirtyRect { left: 1, top: 0, right: 3, bottom: 1 };
    c.capture(CopyPlan::Regions(vec![r]), true, &[2; 32], 16);
    let f = c.frame();
    assert!(!f.is_full_frame && f.has_dirty_rects);
    assert_eq!(f.dirty_rects, &[r]);
    let mut want = vec![1u8; 32];
    for b in want[4..12].iter_mut() {
        *b = 2;
    }
    assert_eq!(f.bgra, &want[..]);
}

#[test]
fn gdi_needs_a_screen() {
    assert_eq!(GdiCapture::new(2, 3).unwrap().buf.len(), 24);
    assert_eq!(GdiCapture::new(0, 3).unwrap_err(), NoScreen { width: 0, height: 3 });
    assert_eq!(GdiCapture::new(2, 0).unwrap_err(), NoScreen { width: 2, height: 0 });
}

fn picture(colors: &[(u8, u8, u8)]) -> Vec<u8> {
    colors.iter().flat_map(|&(r, g, b)| [b, g, r, 0]).collect()
}

#[test]
fn i420_of_known_colours() {
    let mut out = Vec::new();
    let p = picture(&[(0, 0, 0), (255, 255, 255), (255, 0, 0), (0, 0, 255)]);
    bgra_to_i420(&p, 2, 2, &mut out);
    assert_eq!(out, vec![16, 235, 82, 41, 128, 128]);
    let q = picture(&[(255, 0, 0), (0, 0, 0), (0, 0, 0), (0, 0, 0)]);
    bgra_to_i420(&q, 2, 2, &mut out);
    assert_eq!(out, vec![82, 16, 16, 16, 90, 240]);
    let r = picture(&[(10, 20, 30); 4]);
    bgra_to_i420(&r, 2, 2, &mut out);
    assert_eq!(out, vec![32, 32, 32, 32, 134, 123]);
}

#[test]
fn updating_changed_regions_equals_converting_all() {
    let old = picture(&[(9, 9, 9); 16]);
    let mut new = old.clone();
    for p in [5usize, 6, 9, 10] {
        new[4 * p] = 200;
        new[4 * p + 1] = 3;
    }
    let mut updated = Vec::new();
    bgra_to_i420(&old, 4, 4, &mut updated);
    let rect = DirtyRect { left: 1, top: 1, right: 3, bottom: 3 };
    bgra_to_i420_rects(&new, 4, 4, &mut updated, &[rect]);
    let mut whole = Vec::new();
    bgra_to_i420(&new, 4, 4, &mut whole);
    assert_eq!(updated, whole);
}

#[test]
fn update_of_nothing_yet_is_padded() {
    let p = picture(&[(255, 255, 255); 4]);
    let mut out = Vec::new();
    bgra_to_i420_rects(&p, 2, 2, &mut out, &[]);
    assert_eq!(out, vec![0; 6]);
    let all = DirtyRect { left: 0, top: 0, right: 2, bottom: 2 };
    bgra_to_i420_rects(&p, 2, 2, &mut out, &[all]);
    assert_eq!(out, vec![235, 235, 235, 235, 128, 128]);
}
