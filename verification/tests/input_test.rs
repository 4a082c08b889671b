use vdesk::agent::services::input::{
    inject_key, inject_key_vk, inject_mouse_button, inject_mouse_move, inject_mouse_move_global,
    inject_scroll, set_no_inject, winit_keycode_to_vk, InjectGate, VirtualScreen, INPUT_MARK,
};

const SCREEN: VirtualScreen = VirtualScreen { x: 0, y: 0, width: 101, height: 1 };

#[test]
fn pointer_is_scaled_to_the_screen() {
    let g = InjectGate::new();
    let m = inject_mouse_move(&g, 50, 25, 100, 100, 200, 400).unwrap();
    assert_eq!((m.dx, m.dy), (100 * 65535 / 200, 100 * 65535 / 400));
    assert_eq!((m.flags, m.extra_info), (0x8001, INPUT_MARK));
}

#[test]
fn pointer_is_kept_on_the_screen() {
    let g = InjectGate::new();
    let m = inject_mouse_move(&g, -7, 500, 100, 100, 100, 100).unwrap();
    assert_eq!((m.dx, m.dy), (0, 99 * 65535 / 100));
    assert!(inject_mouse_move(&g, 1, 1, 0, 100, 100, 100).is_none());
}

#[test]
fn pointer_goes_to_the_virtual_screen() {
    let g = InjectGate::new();
    let m = inject_mouse_move_global(&g, 50, 9, SCREEN).unwrap();
    assert_eq!((m.dx, m.dy, m.flags), (50 * 65535 / 100, 0, 0xC001));
    let far = inject_mouse_move_global(&g, 5000, 0, SCREEN).unwrap();
    assert_eq!(far.dx, 65535);
}

#[test]
fn buttons_have_flags() {
    let g = InjectGate::new();
    for (b, p, f) in [(0, true, 2), (0, false, 4), (2, true, 8), (2, false, 16), (4, true, 32), (4, false, 64)] {
        assert_eq!(inject_mouse_button(&g, b, p).unwrap().flags, f);
    }
    assert!(inject_mouse_button(&g, 3, true).is_none());
}

#[test]
fn wheels_turn_one_after_the_other() {
    let g = InjectGate::new();
    let w = inject_scroll(&g, 240, -120);
    assert_eq!((w[0].flags, w[0].mouse_data), (0x0800, 0xFFFF_FF88));
    assert_eq!((w[1].flags, w[1].mouse_data), (0x1000, 240));
    assert!(inject_scroll(&g, 0, 0).is_empty());
}

#[test]
fn keys_have_virtual_codes() {
    for (code, vk) in [(19, 0x41), (44, 0x5A), (114, 0x1B), (169, 0x7A), (170, 0x7B)] {
        assert_eq!(winit_keycode_to_vk(code), vk);
    }
    assert_eq!(winit_keycode_to_vk(9999), 0);
}

#[test]
fn keys_are_injected_with_flags() {
    let g = InjectGate::new();
    let k = inject_key(&g, 79, true, 0x50).unwrap();
    assert_eq!((k.flags, k.scan, k.extra_info), (1, 0x50, INPUT_MARK));
    assert_eq!(inject_key(&g, 19, false, 1).unwrap().flags, 2);
    assert!(inject_key(&g, 9999, true, 1).is_none());
    assert_eq!(inject_key_vk(&g, 0xA3, 2, false, true).unwrap().flags, 3);
    assert_eq!(inject_key_vk(&g, 0x19, 2, true, true).unwrap().flags, 0);
}

#[test]
fn gate_keeps_everything_back() {
    let mut g = InjectGate::new();
    set_no_inject(&mut g, true);
    assert!(inject_mouse_move(&g, 1, 1, 9, 9, 9, 9).is_none());
    assert!(inject_mouse_move_global(&g, 1, 1, SCREEN).is_none());
    assert!(inject_mouse_button(&g, 0, true).is_none());
    assert!(inject_scroll(&g, 1, 1).is_empty());
    assert!(inject_key(&g, 19, true, 1).is_none());
    assert!(inject_key_vk(&g, 65, 1, true, false).is_none());
    set_no_inject(&mut g, false);
    assert!(inject_key(&g, 19, true, 1).is_some());
}

#[test]
fn no_two_keys_are_injected_alike() {
    let g = InjectGate::new();
    let mut seen: Vec<(u16, u32)> = Vec::new();
    for code in 0..300 {
        if let Some(k) = inject_key(&g, code, true, 0) {
            assert!(!seen.contains(&(k.vk, k.flags)));
            seen.push((k.vk, k.flags));
        }
    }
}
