use vdesk::agent::services::capture_dxgi::{CopyPlan, DirtyRect, DxgiCapture, RawRect};
use vdesk::agent::services::input::{fits_screen, InjectGate, VirtualScreen};
use vdesk::agent::services::video::is_convertible;
use vdesk::agent::session::{injectable, Desktop, Input};
use vdesk::viewer::display::{Around, Button, FrameBuffer, ViewerApp, ViewerEvent, WindowEvent};

#[test]
fn screen_coordinates_in_range() {
    assert!(fits_screen(1919, 1920, 1920));
    assert!(fits_screen(-5, 1920, 1920));
    assert!(!fits_screen(i32::MAX, 1920, 1920));
    assert!(!fits_screen(40_000, 40_000, 40_000));
    assert!(!fits_screen(1, 0, 1));
}

#[test]
fn inputs_in_range() {
    let desk = |x: i32| Desktop {
        screen_w: 1920,
        screen_h: 1080,
        all: VirtualScreen { x, y: 0, width: 1, height: 1 },
    };
    let mut gate = InjectGate::new();
    let far = Input::MouseMove { x: i32::MAX, y: 0, win_w: 10, win_h: 10 };
    assert!(!injectable(&gate, far, desk(0)));
    assert!(injectable(&gate, Input::MouseMove { x: 5, y: 5, win_w: 10, win_h: 10 }, desk(0)));
    assert!(injectable(&gate, Input::MouseMove { x: i32::MAX, y: 0, win_w: 0, win_h: 10 }, desk(0)));
    assert!(!injectable(&gate, Input::MouseMoveGlobal { gx: 0, gy: 0 }, desk(i32::MAX)));
    assert!(injectable(&gate, Input::Scroll { dx: 1, dy: 1 }, desk(0)));
    gate.no_inject = true;
    assert!(injectable(&gate, far, desk(0)));
}

#[test]
fn pictures_to_convert() {
    assert!(is_convertible(&[0; 16], 2, 2));
    assert!(!is_convertible(&[0; 15], 2, 2));
    assert!(!is_convertible(&[0; 100], 3, 2));
    assert!(is_convertible(&[], 0, 3));
}

#[test]
fn regions_to_measure_and_copy() {
    let c = DxgiCapture::new(4, 4);
    let raw = |left: i32, right: i32| RawRect { left, top: 0, right, bottom: 2 };
    assert!(c.can_plan(&[raw(0, 4), raw(9, 3)]));
    assert!(!c.can_plan(&[raw(i32::MIN, i32::MAX)]));
    let huge = RawRect { left: 0, top: 0, right: i32::MAX, bottom: i32::MAX };
    assert!(!c.can_plan(&[huge, huge]));
    assert!(c.can_copy(&CopyPlan::Full));
    let region = |left: u32, right: u32| DirtyRect { left, top: 0, right, bottom: 2 };
    assert!(c.can_copy(&CopyPlan::Regions(vec![region(0, 4), region(4, 9)])));
    assert!(!c.can_copy(&CopyPlan::Regions(vec![region(3, 2)])));
    assert!(!c.can_copy(&CopyPlan::Regions(vec![region(5, 9)])));
}

#[test]
fn events_in_range() {
    let here = Around { injected: false, origin: Some((10, 10)) };
    let mut v = ViewerApp::new(true, true);
    v.window_made(800, 600);
    let far = WindowEvent::CursorMoved { x: i32::MAX, y: 300 };
    assert!(v.takes(far, here));
    v.window_event(WindowEvent::CursorMoved { x: 400, y: 300 }, here);
    let press = WindowEvent::MouseInput { button: Button::Left, pressed: true };
    assert!(v.takes(press, here));
    v.window_event(press, here);
    assert!(v.takes(WindowEvent::CursorMoved { x: 400, y: 300 }, here));
    let edge = Around { injected: false, origin: Some((i32::MAX, 0)) };
    assert!(!v.takes(WindowEvent::CursorMoved { x: 400, y: 300 }, edge));
    v.window_event(far, here);
    assert!(v.state.at_edge);
    assert!(!v.takes(press, here));
    assert!(v.takes(press, Around { injected: true, origin: None }));
    assert!(v.takes(WindowEvent::CloseRequested, here));
}

#[test]
fn empty_picture_has_no_place_for_the_pointer() {
    let here = Around { injected: false, origin: None };
    let mut v = ViewerApp::new(true, false);
    v.window_made(800, 600);
    v.window_event(WindowEvent::MouseInput { button: Button::Left, pressed: true }, here);
    v.user_event(ViewerEvent::Frame(FrameBuffer { pixels: vec![], width: 0, height: 0 }));
    assert!(!v.takes(WindowEvent::CursorMoved { x: 400, y: 300 }, here));
    let mut w = ViewerApp::new(true, false);
    w.state.scroll_y = i32::MAX as u32;
    assert!(!w.takes(WindowEvent::MouseWheel { dx: 0, dy: -1 }, here));
    assert!(w.takes(WindowEvent::MouseWheel { dx: 0, dy: 1 }, here));
}
