use tiny_dfr::pixel_shift::{
    wait_for_state, PixelShiftManager, ShiftState, ANIMATION_INTERVAL_MS, INTERVAL_MS,
    PIXEL_SHIFT_HEIGHT_PX, PIXEL_SHIFT_WIDTH_PX, PROLONGED_INTERVAL_MS, SUBPIXEL_STEPS,
};

fn run_until_pixel_step(m: &mut PixelShiftManager, now: &mut u64) {
    let before = m.pixel_progress;
    while m.pixel_progress == before {
        *now += wait_for_state(m.state) as u64;
        let (changed, _) = m.update(*now);
        assert!(changed);
    }
}

#[test]
fn wait_times_per_state() {
    assert_eq!(wait_for_state(ShiftState::ShiftingSubpixel), 200);
    assert_eq!(wait_for_state(ShiftState::Normal), 10_000);
    assert_eq!(wait_for_state(ShiftState::WaitingAtEnd), 50_000);
    assert_eq!(ANIMATION_INTERVAL_MS, 200);
    assert_eq!(INTERVAL_MS, 10_000);
    assert_eq!(PROLONGED_INTERVAL_MS, 50_000);
}

#[test]
fn new_starts_at_rest_inside_the_sweep() {
    for _ in 0..200 {
        let m = PixelShiftManager::new(1234);
        assert!(m.pixel_progress < PIXEL_SHIFT_WIDTH_PX);
        assert!(m.y_constant < 2 * PIXEL_SHIFT_HEIGHT_PX);
        assert_eq!(m.state, ShiftState::Normal);
        assert_eq!(m.subpixel_progress, 0);
        assert_eq!(m.direction, 1);
        assert_eq!(m.last_active, 1234);
    }
}

#[test]
fn update_before_the_interval_changes_nothing() {
    let mut m = PixelShiftManager::with_offsets(0, 5, 3);
    assert_eq!(m.update(9_999), (false, i32::MAX));
    assert_eq!(m.state, ShiftState::Normal);
    assert_eq!(m.last_active, 0);
    assert_eq!(m.pixel_progress, 5);
}

#[test]
fn update_with_a_clock_that_ran_backwards_changes_nothing() {
    let mut m = PixelShiftManager::with_offsets(50_000, 5, 3);
    assert_eq!(m.update(10), (false, i32::MAX));
    assert_eq!(m.last_active, 50_000);
}

#[test]
fn normal_turns_into_shifting_when_due() {
    let mut m = PixelShiftManager::with_offsets(0, 5, 3);
    assert_eq!(m.update(10_000), (true, 200));
    assert_eq!(m.state, ShiftState::ShiftingSubpixel);
    assert_eq!(m.last_active, 10_000);
    assert_eq!(m.pixel_progress, 5);
    assert_eq!(m.subpixel_progress, 0);
}

#[test]
fn twenty_ticks_make_one_pixel() {
    let mut m = PixelShiftManager::with_offsets(0, 5, 3);
    let mut now = 10_000;
    assert_eq!(m.update(now), (true, 200));
    for tick in 1..20 {
        now += 200;
        assert_eq!(m.update(now), (true, 200));
        assert_eq!(m.subpixel_progress, tick);
        assert_eq!(m.pixel_progress, 5);
        assert_eq!(m.state, ShiftState::ShiftingSubpixel);
    }
    now += 200;
    assert_eq!(m.update(now), (true, 10_000));
    assert_eq!(m.pixel_progress, 6);
    assert_eq!(m.subpixel_progress, 0);
    assert_eq!(m.state, ShiftState::Normal);
    assert_eq!(m.direction, 1);
}

#[test]
fn the_sweep_turns_round_at_the_right_end() {
    let mut m = PixelShiftManager::with_offsets(0, PIXEL_SHIFT_WIDTH_PX - 1, 0);
    let mut now = 0;
    run_until_pixel_step(&mut m, &mut now);
    assert_eq!(m.pixel_progress, PIXEL_SHIFT_WIDTH_PX);
    assert_eq!(m.state, ShiftState::WaitingAtEnd);
    assert_eq!(m.direction, -1);
    assert_eq!(m.update(now + 49_999), (false, i32::MAX));
    assert_eq!(m.update(now + 50_000), (true, 10_000));
    assert_eq!(m.state, ShiftState::Normal);
    now += 50_000;
    run_until_pixel_step(&mut m, &mut now);
    assert_eq!(m.pixel_progress, PIXEL_SHIFT_WIDTH_PX - 1);
    assert_eq!(m.direction, -1);
}

#[test]
fn the_sweep_turns_round_at_the_left_end() {
    let mut m = PixelShiftManager {
        last_active: 0,
        y_constant: 0,
        pixel_progress: 1,
        subpixel_progress: 0,
        direction: -1,
        state: ShiftState::Normal,
    };
    let mut now = 0;
    run_until_pixel_step(&mut m, &mut now);
    assert_eq!(m.pixel_progress, 0);
    assert_eq!(m.state, ShiftState::WaitingAtEnd);
    assert_eq!(m.direction, 1);
}

#[test]
fn progress_and_offset_stay_in_range_over_a_long_run() {
    let mut m = PixelShiftManager::with_offsets(0, 7, 5);
    let mut now = 0;
    let half = (PIXEL_SHIFT_WIDTH_PX / 2) as i32 * SUBPIXEL_STEPS as i32;
    let half_y = (PIXEL_SHIFT_HEIGHT_PX / 2) as i32 * SUBPIXEL_STEPS as i32;
    let mut seen_left = false;
    let mut seen_right = false;
    for _ in 0..5_000 {
        now += wait_for_state(m.state) as u64;
        m.update(now);
        assert!(m.pixel_progress <= PIXEL_SHIFT_WIDTH_PX);
        let (x, y) = m.get();
        assert!(-half <= x && x <= half);
        assert!(-half_y <= y && y <= half_y);
        seen_left |= x == -half;
        seen_right |= x == half;
    }
    assert!(seen_left && seen_right);
}

#[test]
fn get_centres_the_sweep() {
    let m = PixelShiftManager::with_offsets(0, 11, 0);
    // x: 11 px of 22 is the middle; y: 220 ticks mod 160 = 60, less 40.
    assert_eq!(m.get(), (0, 20));
    let m = PixelShiftManager::with_offsets(0, 0, 0);
    assert_eq!(m.get(), (-220, -40));
    let m = PixelShiftManager::with_offsets(0, 5, 0);
    // y: 100 ticks is past the bound of 80 and is reflected to 60.
    assert_eq!(m.get(), (-120, 20));
}

#[test]
fn get_counts_subpixel_ticks() {
    let m = PixelShiftManager {
        last_active: 0,
        y_constant: 7,
        pixel_progress: 21,
        subpixel_progress: 19,
        direction: 1,
        state: ShiftState::ShiftingSubpixel,
    };
    // x: 21 * 20 + 19 - 220; y: (439 + 140) mod 160 = 99 -> 61, less 40.
    assert_eq!(m.get(), (219, 21));
}

#[test]
fn no_transition_moves_more_than_one_tick() {
    let mut m = PixelShiftManager::with_offsets(0, 20, 1);
    let mut now = 0;
    let (mut x, _) = m.get();
    for _ in 0..3_000 {
        now += wait_for_state(m.state) as u64;
        assert!(m.update(now).0);
        let (next, _) = m.get();
        assert!((next - x).abs() <= 1);
        if m.state != ShiftState::ShiftingSubpixel {
            assert_eq!(m.subpixel_progress, 0);
        }
        x = next;
    }
}
