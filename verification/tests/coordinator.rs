use tiny_dfr::backlight::{BacklightManager, LidState};
use tiny_dfr::config::{ButtonConfig, Config};
use tiny_dfr::coordinator::{Coordinator, InputEvent, TouchKind, KEY_FN};
use tiny_dfr::layer::{DirtyRect, FunctionLayer, KeyEvent, TOUCH_UNITS};
use tiny_dfr::pixel_shift::PixelShiftManager;

const BAR: u64 = 7;

fn text_button(text: &str, action: u16, stretch: usize) -> ButtonConfig {
    ButtonConfig {
        icon: None,
        text: Some(text.to_string()),
        theme: None,
        action,
        stretch: Some(stretch),
    }
}

fn settings(shift: bool, lock: bool) -> Config {
    Config {
        show_button_outlines: true,
        enable_pixel_shift: shift,
        font_template: String::from(":bold"),
        adaptive_brightness: false,
        active_brightness: 128,
        fn_toggle_layers: lock,
    }
}

fn layers() -> Vec<FunctionLayer> {
    vec![
        FunctionLayer::with_config(vec![
            text_button("A", 30, 1),
            text_button("B", 48, 2),
            text_button("C", 46, 1),
        ])
        .unwrap(),
        FunctionLayer::with_config(vec![text_button("F1", 59, 1), text_button("F2", 60, 1)])
            .unwrap(),
    ]
}

fn coordinator(shift: bool, lock: bool) -> Coordinator {
    let mut c = Coordinator::new(
        settings(shift, lock),
        layers(),
        2008,
        60,
        BacklightManager::new(0, 128, 255, 128),
        PixelShiftManager::with_offsets(0, 11, 0),
    );
    let added = InputEvent::DeviceAdded { device: BAR, name: String::from("Mac Touch Bar") };
    assert_eq!(c.handle_event(&added, 0), None);
    assert_eq!(c.digitizer, Some(BAR));
    c
}

fn touch(kind: TouchKind) -> InputEvent {
    InputEvent::Touch { device: BAR, kind }
}

fn down_at(slot: u32, x: i32, y: i32) -> TouchKind {
    TouchKind::Down { slot, x: x * TOUCH_UNITS, y: y * TOUCH_UNITS }
}

fn motion_to(slot: u32, x: i32, y: i32) -> TouchKind {
    TouchKind::Motion { slot, x: x * TOUCH_UNITS, y: y * TOUCH_UNITS }
}

fn key(code: u32, pressed: bool) -> InputEvent {
    InputEvent::Key { code, pressed }
}

#[test]
fn tap_sends_key_down_then_key_up() {
    let mut c = coordinator(false, false);
    let mut sent = Vec::new();
    sent.extend(c.handle_event(&touch(down_at(0, 700, 30)), 1));
    assert_eq!(c.touches.get(&0), Some(&(0, 1)));
    for x in [506, 900, 1502, 1000] {
        sent.extend(c.handle_event(&touch(motion_to(0, x, 20)), 2));
    }
    sent.extend(c.handle_event(&touch(TouchKind::Up { slot: 0 }), 3));
    assert_eq!(
        sent,
        vec![KeyEvent { code: 48, pressed: true }, KeyEvent { code: 48, pressed: false }]
    );
    assert!(c.touches.is_empty());
    assert!(!c.layers[0].buttons[1].1.active);
    assert!(c.layers[0].buttons[1].1.changed);
}

#[test]
fn down_outside_every_button_is_not_tracked() {
    let mut c = coordinator(false, false);
    assert_eq!(c.handle_event(&touch(down_at(3, 500, 30)), 1), None);
    assert_eq!(c.handle_event(&touch(down_at(4, 700, 2)), 1), None);
    assert!(c.touches.is_empty());
    assert_eq!(c.handle_event(&touch(motion_to(3, 700, 30)), 2), None);
    assert_eq!(c.handle_event(&touch(TouchKind::Up { slot: 3 }), 3), None);
    assert!(c.layers[0].buttons.iter().all(|b| !b.1.active && !b.1.changed));
}

#[test]
fn dragging_off_releases_and_dragging_back_presses_again() {
    let mut c = coordinator(false, false);
    let down = c.handle_event(&touch(down_at(1, 100, 30)), 1);
    assert_eq!(down, Some(KeyEvent { code: 30, pressed: true }));
    let off = c.handle_event(&touch(motion_to(1, 700, 30)), 2);
    assert_eq!(off, Some(KeyEvent { code: 30, pressed: false }));
    assert!(!c.layers[0].buttons[1].1.active);
    let back = c.handle_event(&touch(motion_to(1, 200, 30)), 3);
    assert_eq!(back, Some(KeyEvent { code: 30, pressed: true }));
    let up = c.handle_event(&touch(TouchKind::Up { slot: 1 }), 4);
    assert_eq!(up, Some(KeyEvent { code: 30, pressed: false }));
    assert_eq!(c.handle_event(&touch(TouchKind::Up { slot: 1 }), 5), None);
}

#[test]
fn second_contact_on_a_held_button_sends_nothing() {
    let mut c = coordinator(false, false);
    let first = c.handle_event(&touch(down_at(0, 700, 30)), 1);
    assert_eq!(first, Some(KeyEvent { code: 48, pressed: true }));
    assert_eq!(c.handle_event(&touch(down_at(1, 800, 30)), 1), None);
    assert_eq!(c.touches.len(), 2);
}

#[test]
fn touches_of_other_devices_are_ignored() {
    let mut c = coordinator(false, false);
    let other = InputEvent::Touch { device: 9, kind: down_at(0, 700, 30) };
    assert_eq!(c.handle_event(&other, 1), None);
    assert!(c.touches.is_empty());
    assert_eq!(c.backlight.last_active, 1);
}

#[test]
fn device_without_the_name_is_no_digitizer() {
    let mut c = Coordinator::new(
        settings(false, false),
        layers(),
        2008,
        60,
        BacklightManager::new(0, 128, 255, 128),
        PixelShiftManager::with_offsets(0, 11, 0),
    );
    for name in ["Touch Bar", "Apple Keyboard", " Touch Ba", ""] {
        let added = InputEvent::DeviceAdded { device: 3, name: String::from(name) };
        assert_eq!(c.handle_event(&added, 5), None);
        assert_eq!(c.digitizer, None);
    }
    assert_eq!(c.backlight.last_active, 0);
    let added = InputEvent::DeviceAdded { device: 4, name: String::from("x Touch Bar y") };
    c.handle_event(&added, 5);
    assert_eq!(c.digitizer, Some(4));
    let added = InputEvent::DeviceAdded { device: 5, name: String::from("mouse") };
    c.handle_event(&added, 5);
    assert_eq!(c.digitizer, Some(4));
}

#[test]
fn touches_are_ignored_while_the_strip_is_dark() {
    let mut c = coordinator(false, false);
    assert_eq!(c.update_backlight(60_000, 0), Some(0));
    assert_eq!(c.handle_event(&touch(down_at(0, 700, 30)), 60_001), None);
    assert!(c.touches.is_empty());
    assert_eq!(c.backlight.last_active, 60_001);
    assert_eq!(c.update_backlight(60_002, 0), Some(128));
    let down = c.handle_event(&touch(down_at(0, 700, 30)), 60_003);
    assert_eq!(down, Some(KeyEvent { code: 48, pressed: true }));
}

#[test]
fn layer_key_shows_the_second_layer_while_held() {
    let mut c = coordinator(false, false);
    c.begin_frame(0);
    assert!(!c.needs_complete_redraw);
    assert_eq!(c.handle_event(&key(30, true), 1), None);
    assert_eq!((c.active_layer, c.needs_complete_redraw), (0, false));
    assert_eq!(c.handle_event(&key(KEY_FN as u32, true), 2), None);
    assert_eq!((c.active_layer, c.needs_complete_redraw), (1, true));
    assert_eq!(c.shown_layer(), 1);
    c.begin_frame(3);
    c.handle_event(&key(KEY_FN as u32, true), 4);
    assert_eq!((c.active_layer, c.needs_complete_redraw), (1, false));
    let down = c.handle_event(&touch(down_at(0, 100, 30)), 5);
    assert_eq!(down, Some(KeyEvent { code: 59, pressed: true }));
    c.handle_event(&key(0x1d0, false), 6);
    assert_eq!((c.active_layer, c.needs_complete_redraw), (0, true));
    assert!(!c.swapped);
    let up = c.handle_event(&touch(TouchKind::Up { slot: 0 }), 7);
    assert_eq!(up, Some(KeyEvent { code: 59, pressed: false }));
}

#[test]
fn layer_key_code_is_read_in_sixteen_bits() {
    let mut c = coordinator(false, false);
    c.handle_event(&key(0x1_01d0, true), 1);
    assert_eq!(c.active_layer, 1);
    c.handle_event(&key(0x1d1, false), 2);
    assert_eq!(c.active_layer, 1);
}

#[test]
fn locking_layer_key_swaps_layers_when_no_touch_came() {
    let mut c = coordinator(false, true);
    c.handle_event(&key(0x1d0, true), 1);
    assert!(c.waiting_for_touch_event);
    c.handle_event(&key(0x1d0, false), 2);
    assert!(c.swapped);
    assert_eq!((c.active_layer, c.shown_layer()), (0, 1));
    let down = c.handle_event(&touch(down_at(0, 100, 30)), 3);
    assert_eq!(down, Some(KeyEvent { code: 59, pressed: true }));
    assert_eq!(c.touches.get(&0), Some(&(1, 0)));

    let mut c = coordinator(false, true);
    c.handle_event(&key(0x1d0, true), 1);
    c.handle_event(&touch(down_at(0, 100, 30)), 2);
    assert!(!c.waiting_for_touch_event);
    c.handle_event(&key(0x1d0, false), 3);
    assert!(!c.swapped);
    assert_eq!(c.shown_layer(), 0);
}

#[test]
fn reload_resets_the_layer_and_forgets_touches() {
    let mut c = coordinator(false, false);
    c.begin_frame(0);
    c.handle_event(&key(0x1d0, true), 1);
    c.begin_frame(2);
    let down = c.handle_event(&touch(down_at(0, 1500, 30)), 3);
    assert_eq!(down, Some(KeyEvent { code: 60, pressed: true }));
    let one = vec![
        FunctionLayer::with_config(vec![text_button("X", 45, 1)]).unwrap(),
        FunctionLayer::with_config(vec![text_button("Y", 21, 1)]).unwrap(),
    ];
    let mut cfg = settings(false, false);
    cfg.active_brightness = 200;
    c.reload(cfg, one);
    assert_eq!(c.active_layer, 0);
    assert!(!c.swapped);
    assert!(c.needs_complete_redraw);
    assert!(c.touches.is_empty());
    assert_eq!(c.backlight.active_brightness, 200);
    assert_eq!(c.backlight.lookup_table[509], 201);
    assert_eq!(c.handle_event(&touch(motion_to(0, 1500, 30)), 4), None);
    assert_eq!(c.handle_event(&touch(TouchKind::Up { slot: 0 }), 5), None);
    assert!(!c.layers[0].buttons[0].1.active);
    let frame = c.begin_frame(6);
    let plan = frame.plan.unwrap();
    assert!(plan.clear);
    assert_eq!(plan.buttons.len(), 1);
}

#[test]
fn first_frame_is_complete_and_the_next_is_empty() {
    let mut c = coordinator(false, false);
    let frame = c.begin_frame(0);
    assert_eq!(frame.timeout_ms, 10_000);
    let plan = frame.plan.unwrap();
    assert!(plan.clear);
    assert_eq!(plan.buttons.len(), 3);
    assert_eq!(plan.regions, vec![DirtyRect { top: 0, left: 0, bottom: 60, right: 2008 }]);
    let frame = c.begin_frame(100);
    assert!(frame.plan.is_none());
    assert_eq!(frame.timeout_ms, 10_000);
}

#[test]
fn pressed_button_is_repainted_alone() {
    let mut c = coordinator(false, false);
    c.begin_frame(0);
    c.handle_event(&touch(down_at(0, 700, 30)), 1);
    let plan = c.begin_frame(2).plan.unwrap();
    assert!(!plan.clear);
    assert_eq!(plan.buttons.len(), 1);
    assert_eq!(plan.buttons[0].index, 1);
    assert_eq!(plan.regions, vec![DirtyRect { top: 1, left: 506, bottom: 59, right: 1502 }]);
    assert!(c.begin_frame(3).plan.is_none());
}

#[test]
fn pixel_shift_step_forces_a_frame_and_shortens_the_wait() {
    let mut c = coordinator(true, false);
    let frame = c.begin_frame(0);
    assert_eq!(frame.timeout_ms, 10_000);
    assert!(frame.plan.unwrap().clear);
    assert!(c.begin_frame(9_999).plan.is_none());
    let frame = c.begin_frame(10_000);
    assert_eq!(frame.timeout_ms, 200);
    let plan = frame.plan.unwrap();
    assert!(plan.clear);
    // 11 px of progress is the middle of the sweep; the reserve shifts by 11 px.
    assert_eq!(plan.buttons[0].left, 220);
    assert_eq!(plan.y_shift, 20);
    let frame = c.begin_frame(10_100);
    assert_eq!(frame.timeout_ms, 10_000);
    assert!(frame.plan.is_none());
    let frame = c.begin_frame(10_200);
    assert_eq!(frame.timeout_ms, 200);
    assert_eq!(frame.plan.unwrap().buttons[0].left, 221);
}

#[test]
fn lid_and_idle_time_set_the_brightness() {
    let mut c = coordinator(false, false);
    assert_eq!(c.update_backlight(45_000, 0), Some(1));
    assert_eq!(c.update_backlight(45_001, 0), None);
    assert_eq!(c.handle_event(&InputEvent::Pointer, 50_000), None);
    assert_eq!(c.update_backlight(50_001, 0), Some(128));
    c.handle_event(&InputEvent::Lid(LidState::Closed), 50_002);
    assert_eq!(c.update_backlight(50_003, 0), Some(0));
    c.handle_event(&InputEvent::Gesture, 50_004);
    assert_eq!(c.update_backlight(50_005, 0), None);
    c.handle_event(&InputEvent::Lid(LidState::Open), 200_000);
    assert_eq!(c.update_backlight(200_001, 0), Some(128));
    c.handle_event(&InputEvent::Other, 300_000);
    assert_eq!(c.update_backlight(300_000, 0), Some(0));
}

#[test]
fn adaptive_mode_follows_the_display() {
    let mut c = coordinator(false, false);
    c.cfg.adaptive_brightness = true;
    c.backlight.set_active_brightness(200);
    assert_eq!(c.update_backlight(1, 509), Some(201));
    assert_eq!(c.update_backlight(2, 0), Some(1));
}

#[test]
fn contact_that_missed_every_button_stays_ignored() {
    let mut c = coordinator(false, false);
    c.handle_event(&touch(down_at(0, 100, 30)), 1);
    c.begin_frame(2);
    for (x, y) in [(500, 30), (700, 58), (-4, 30), (3000, 30)] {
        assert_eq!(c.handle_event(&touch(down_at(5, x, y)), 3), None);
        for (qx, qy) in [(700, 30), (100, 30), (1600, 30), (x, y)] {
            let moved = c.handle_event(&touch(motion_to(5, qx, qy)), 4);
            assert_eq!(moved, None);
        }
        assert_eq!(c.handle_event(&touch(TouchKind::Up { slot: 5 }), 5), None);
        assert_eq!(c.touches.len(), 1);
        assert_eq!(c.touches.get(&0), Some(&(0, 0)));
        let held: Vec<bool> = c.layers[0].buttons.iter().map(|b| b.1.active).collect();
        assert_eq!(held, vec![true, false, false]);
        assert!(c.layers[0].buttons.iter().all(|b| !b.1.changed));
    }
}
