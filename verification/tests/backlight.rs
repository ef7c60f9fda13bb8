use tiny_dfr::backlight::{
    display_to_touchbar, Activity, BacklightManager, LidState, BRIGHTNESS_DIM_TIMEOUT,
    BRIGHTNESS_OFF_TIMEOUT, DIMMED_BRIGHTNESS, LOOKUP_TABLE_SIZE, MAX_DISPLAY_BRIGHTNESS,
};

fn curve(display: u32, active: u32) -> u32 {
    let root = (display as f64 / 509.0).sqrt() * active as f64;
    let level = root.round() as i64 + 1;
    level.clamp(1, 255) as u32
}

#[test]
fn timeouts_are_three_and_six_poll_intervals() {
    assert_eq!(BRIGHTNESS_DIM_TIMEOUT, 30_000);
    assert_eq!(BRIGHTNESS_OFF_TIMEOUT, 60_000);
    assert_eq!(DIMMED_BRIGHTNESS, 1);
}

#[test]
fn adaptive_level_at_full_display_brightness() {
    assert_eq!(display_to_touchbar(509, 200), 201);
    let mut m = BacklightManager::new(0, 0, 255, 200);
    assert_eq!(m.update_backlight(10, true, 509), Some(201));
    assert_eq!(m.current_bl(), 201);
}

#[test]
fn curve_never_reads_zero_and_never_exceeds_the_cap() {
    assert_eq!(display_to_touchbar(0, 200), 1);
    assert_eq!(display_to_touchbar(0, 0), 1);
    assert_eq!(display_to_touchbar(509, 0), 1);
    assert_eq!(display_to_touchbar(509, 255), 255);
    assert_eq!(display_to_touchbar(509, 254), 255);
    assert_eq!(display_to_touchbar(509, 253), 254);
    assert_eq!(display_to_touchbar(509, u32::MAX), 255);
    assert_eq!(display_to_touchbar(1, u32::MAX), 255);
}

#[test]
fn curve_rounds_the_square_root() {
    // sqrt(127 / 509) * 200 = 99.90..., sqrt(128 / 509) * 200 = 100.29...
    assert_eq!(display_to_touchbar(127, 200), 101);
    assert_eq!(display_to_touchbar(128, 200), 101);
    // sqrt(1 / 509) * 200 = 8.86...
    assert_eq!(display_to_touchbar(1, 200), 10);
    // sqrt(2 / 509) * 8 = 0.501..., sqrt(1 / 509) * 8 = 0.35...
    assert_eq!(display_to_touchbar(2, 8), 2);
    assert_eq!(display_to_touchbar(1, 8), 1);
}

#[test]
fn lookup_table_is_the_curve() {
    for active in [0u32, 1, 8, 100, 200, 254, 255, 300] {
        let table = BacklightManager::generate_lookup_table(active);
        assert_eq!(table.len(), LOOKUP_TABLE_SIZE);
        assert_eq!(table.len(), MAX_DISPLAY_BRIGHTNESS as usize + 1);
        for display in 0..=MAX_DISPLAY_BRIGHTNESS {
            assert_eq!(table[display as usize], curve(display, active));
            assert_eq!(table[display as usize], display_to_touchbar(display, active));
        }
    }
}

#[test]
fn closed_lid_is_dark_whatever_the_idle_time() {
    for idle in [0u64, 10, 29_999, 30_000, 45_000, 60_000, 1_000_000] {
        let mut m = BacklightManager::new(0, 77, 255, 200);
        m.process_event(Activity::Lid(LidState::Closed), 0);
        assert_eq!(m.update_backlight(idle, true, 509), Some(0));
        assert_eq!(m.current_bl(), 0);
        let mut m = BacklightManager::new(0, 77, 255, 200);
        m.process_event(Activity::Lid(LidState::Closed), 0);
        assert_eq!(m.update_backlight(idle, false, 0), Some(0));
    }
}

#[test]
fn idle_between_the_timeouts_dims() {
    let mut m = BacklightManager::new(0, 200, 255, 200);
    assert_eq!(m.update_backlight(45_000, false, 0), Some(DIMMED_BRIGHTNESS));
    assert_eq!(m.current_bl(), 1);
    let mut m = BacklightManager::new(0, 200, 255, 200);
    assert_eq!(m.update_backlight(30_000, true, 300), Some(1));
    let mut m = BacklightManager::new(0, 200, 255, 200);
    assert_eq!(m.update_backlight(59_999, true, 300), Some(1));
}

#[test]
fn idle_past_the_off_timeout_is_dark() {
    let mut m = BacklightManager::new(0, 200, 255, 200);
    assert_eq!(m.update_backlight(60_000, false, 0), Some(0));
    assert_eq!(m.current_bl(), 0);
}

#[test]
fn active_strip_has_the_fixed_level_in_fixed_mode() {
    let mut m = BacklightManager::new(0, 0, 255, 128);
    assert_eq!(m.update_backlight(29_999, false, 509), Some(128));
}

#[test]
fn level_is_cut_to_the_device_maximum() {
    let mut m = BacklightManager::new(0, 0, 100, 200);
    assert_eq!(m.update_backlight(0, false, 0), Some(100));
    let mut m = BacklightManager::new(0, 0, 100, 200);
    assert_eq!(m.update_backlight(0, true, 509), Some(100));
    let mut m = BacklightManager::new(0, 5, 0, 200);
    assert_eq!(m.update_backlight(45_000, false, 0), Some(0));
}

#[test]
fn unchanged_brightness_is_not_written_again() {
    let mut m = BacklightManager::new(0, 0, 255, 200);
    assert_eq!(m.update_backlight(1, false, 0), Some(200));
    assert_eq!(m.update_backlight(2, false, 0), None);
    assert_eq!(m.update_backlight(29_999, false, 0), None);
    assert_eq!(m.update_backlight(30_000, false, 0), Some(1));
    assert_eq!(m.update_backlight(30_001, false, 0), None);
}

#[test]
fn input_events_stamp_activity() {
    for event in [Activity::Keyboard, Activity::Pointer, Activity::Gesture, Activity::Touch] {
        let mut m = BacklightManager::new(0, 0, 255, 200);
        m.process_event(event, 40_000);
        assert_eq!(m.last_active, 40_000);
        assert_eq!(m.lid_state, LidState::Open);
        assert_eq!(m.update_backlight(45_000, false, 0), Some(200));
    }
    let mut m = BacklightManager::new(0, 0, 255, 200);
    m.process_event(Activity::Other, 40_000);
    assert_eq!(m.last_active, 0);
}

#[test]
fn lid_events_set_the_lid_and_opening_stamps_activity() {
    let mut m = BacklightManager::new(0, 0, 255, 200);
    m.process_event(Activity::Lid(LidState::Closed), 500);
    assert_eq!(m.lid_state, LidState::Closed);
    assert_eq!(m.last_active, 0);
    m.process_event(Activity::Lid(LidState::Open), 90_000);
    assert_eq!(m.lid_state, LidState::Open);
    assert_eq!(m.last_active, 90_000);
    assert_eq!(m.update_backlight(90_001, false, 0), Some(200));
}

#[test]
fn new_active_level_rebuilds_the_curve() {
    let mut m = BacklightManager::new(0, 0, 255, 200);
    m.set_active_brightness(100);
    assert_eq!(m.active_brightness, 100);
    assert_eq!(m.lookup_table[509], 101);
    assert_eq!(m.update_backlight(0, true, 509), Some(101));
}

#[test]
fn lit_strip_is_never_dark_in_adaptive_mode() {
    for active in [0u32, 1, 200] {
        for display in [0u32, 1, 254, 509] {
            for idle in [0u64, 29_999, 30_000, 59_999] {
                let mut m = BacklightManager::new(0, 0, 255, active);
                assert!(m.update_backlight(idle, true, display).unwrap() >= 1);
            }
        }
    }
}
