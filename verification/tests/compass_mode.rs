use cyrene_compass::compass::compass_direction;
use cyrene_compass::gesture::{
    set_config, should_hijack, CompassState, KeyHookEvent, TickAction, BASE_DEAD_ZONE_SQ, LLKHF_INJECTED,
    LLKHF_UP, VK_TAB,
};
use cyrene_compass::geometry::WorkArea;

/// The dead-zone radius used by these tests, in physical pixels.
const DEAD_PX: f64 = 42.0;

/// The dead zone as `compass_direction` takes it: the squared radius, rounded up.
fn dead(px: f64) -> u64 {
    if px > 0.0 {
        (px * px).ceil() as u64
    } else {
        0
    }
}

#[test]
fn dead_zone_returns_none() {
    let d = dead(DEAD_PX);
    assert_eq!(compass_direction(10, 10, -1, d), -1);
    assert_eq!(compass_direction(41, 0, -1, d), -1);
    assert_eq!(compass_direction(-25, -25, -1, d), -1);
}

#[test]
fn all_eight_directions() {
    let d = dead(DEAD_PX);
    assert_eq!(compass_direction(0, -60, -1, d), 0);
    assert_eq!(compass_direction(45, -45, -1, d), 1);
    assert_eq!(compass_direction(60, 0, -1, d), 2);
    assert_eq!(compass_direction(45, 45, -1, d), 3);
    assert_eq!(compass_direction(0, 60, -1, d), 4);
    assert_eq!(compass_direction(-45, 45, -1, d), 5);
    assert_eq!(compass_direction(-60, 0, -1, d), 6);
    assert_eq!(compass_direction(-45, -45, -1, d), 7);
}

#[test]
fn keeps_current_until_clearly_in_neighbor() {
    let d = dead(DEAD_PX);
    assert_eq!(compass_direction(34, -93, 0, d), 0);
    assert_eq!(compass_direction(48, -90, 0, d), 1);
}

#[test]
fn hysteresis_wraps_across_zero() {
    let d = dead(DEAD_PX);
    assert_eq!(compass_direction(-30, -84, 7, d), 0);
    assert_eq!(compass_direction(-50, -87, 7, d), 7);
}

#[test]
fn returning_to_origin_cancels() {
    let d = dead(DEAD_PX);
    assert_eq!(compass_direction(60, 60, 3, d), 3);
    assert_eq!(compass_direction(5, 5, 3, d), -1);
}

#[test]
fn hijack_applies_only_to_real_tab_without_system_modifiers() {
    assert!(should_hijack(true, false, false));
    assert!(!should_hijack(false, false, false));
    assert!(!should_hijack(true, true, false));
    assert!(!should_hijack(true, false, true));
}

#[test]
fn dead_zone_boundary_is_exclusive() {
    // 42 px away is outside a 42 px dead zone, 41.99 is inside.
    assert_eq!(compass_direction(42, 0, -1, BASE_DEAD_ZONE_SQ), 2);
    assert_eq!(compass_direction(0, 0, -1, 0), 2);
    assert_eq!(compass_direction(0, 0, -1, 1), -1);
}

#[test]
fn sector_boundaries_follow_22_5_degrees() {
    // tan(22.5°) ≈ 0.41421: (41, -100) is just inside "up", (42, -100) just outside.
    assert_eq!(compass_direction(41, -100, -1, 0), 0);
    assert_eq!(compass_direction(42, -100, -1, 0), 1);
    assert_eq!(compass_direction(-41, -100, -1, 0), 0);
    assert_eq!(compass_direction(-42, -100, -1, 0), 7);
    assert_eq!(compass_direction(100, 41, -1, 0), 2);
    assert_eq!(compass_direction(100, 42, -1, 0), 3);
    assert_eq!(compass_direction(i32::MIN, i32::MIN, 5, 0), 7);
    assert_eq!(compass_direction(i32::MAX, i32::MAX, 0, 0), 3);
}

fn tab(up: bool, injected: bool) -> KeyHookEvent {
    let mut flags = 0;
    if up {
        flags |= LLKHF_UP;
    }
    if injected {
        flags |= LLKHF_INJECTED;
    }
    KeyHookEvent { code: 0, vk_code: VK_TAB, flags, system_tab_blocked: false }
}

const MS: u64 = 1_000_000;

#[test]
fn set_config_clamps_hold_time() {
    let mut s = CompassState::new();
    set_config(&mut s, false, 10, true);
    assert_eq!((s.enabled, s.hold_ms, s.hijack), (false, 300, true));
    set_config(&mut s, true, 99_999, false);
    assert_eq!((s.enabled, s.hold_ms, s.hijack), (true, 3000, false));
    set_config(&mut s, true, 1200, false);
    assert_eq!(s.hold_ms, 1200);
}

#[test]
fn hijacked_tap_is_replayed_once() {
    let mut s = CompassState::new();
    set_config(&mut s, true, 1000, true);
    let down = s.handle_tab_hook(tab(false, false), 5 * MS);
    assert!(down.swallow && !down.relay_tab);
    assert_eq!(s.tab_down, Some(5 * MS));
    let up = s.handle_tab_hook(tab(true, false), 6 * MS);
    assert!(up.swallow && up.relay_tab);
    // Our own replay is injected: it passes and changes nothing.
    let replay = s.handle_tab_hook(tab(false, true), 7 * MS);
    assert!(!replay.swallow && !replay.relay_tab);
    // A second release without a press is not replayed.
    let stray = s.handle_tab_hook(tab(true, false), 8 * MS);
    assert!(stray.swallow && !stray.relay_tab);
}

#[test]
fn long_press_opens_tracks_and_releases() {
    let mut s = CompassState::new();
    let down = s.handle_tab_hook(tab(false, false), 0);
    assert!(!down.swallow);
    assert_eq!(s.controller_tick(999 * MS, false), TickAction::Idle);
    assert_eq!(s.controller_tick(1000 * MS, false), TickAction::Activate);
    let monitor = WorkArea { left: 0, top: 0, right: 1920, bottom: 1080 };
    let layout = s.activate(1000 * MS, monitor, BASE_DEAD_ZONE_SQ);
    assert_eq!((layout.x, layout.y, layout.width, layout.height), (0, 0, 1920, 1080));
    assert_eq!((s.origin_x, s.origin_y, s.active, s.current_dir), (960, 540, true, -1));
    assert_eq!(s.controller_tick(1012 * MS, true), TickAction::TrackCursor);
    assert_eq!(s.track_cursor(960, 400), Some(0));
    assert_eq!(s.track_cursor(960, 390), None);
    assert_eq!(s.track_cursor(1100, 540), Some(2));
    // Repeated presses while open are swallowed; the release ends it.
    let repeat = s.handle_tab_hook(tab(false, false), 1100 * MS);
    assert!(repeat.swallow && repeat.released.is_none());
    let release = s.handle_tab_hook(tab(true, false), 1200 * MS);
    assert!(release.swallow);
    assert_eq!(release.released, Some(2));
    assert!(!s.active && s.current_dir == -1);
    assert_eq!(s.closing_at, Some(1370 * MS));
    assert_eq!(s.controller_tick(1369 * MS, false), TickAction::Idle);
    assert_eq!(s.controller_tick(1370 * MS, false), TickAction::HideOverlay);
    assert_eq!(s.closing_at, None);
}

#[test]
fn missed_release_is_forgotten_and_invisible_overlay_resets() {
    let mut s = CompassState::new();
    s.handle_tab_hook(tab(false, false), 0);
    s.tab_held = false;
    assert_eq!(s.controller_tick(10 * MS, false), TickAction::Idle);
    assert_eq!(s.tab_down, None);

    let mut s = CompassState::new();
    s.handle_tab_hook(tab(false, false), 0);
    assert_eq!(s.controller_tick(1000 * MS, false), TickAction::Activate);
    s.activate(1000 * MS, WorkArea { left: -1920, top: 0, right: 0, bottom: 1080 }, 4000);
    assert_eq!((s.origin_x, s.origin_y), (-960, 540));
    assert_eq!(s.controller_tick(1500 * MS, false), TickAction::TrackCursor);
    assert_eq!(s.controller_tick(1501 * MS, false), TickAction::Reset);
    assert!(!s.active && s.tab_down.is_none());
}

#[test]
fn releasing_while_open_reports_from_tick() {
    let mut s = CompassState::new();
    s.handle_tab_hook(tab(false, false), 0);
    s.controller_tick(1000 * MS, true);
    s.activate(1000 * MS, WorkArea { left: 0, top: 0, right: 100, bottom: 100 }, 0);
    s.track_cursor(50, 0);
    s.tab_held = false;
    assert_eq!(s.controller_tick(1010 * MS, true), TickAction::Released(0));
    assert!(!s.active);
}

#[test]
fn disabled_gesture_does_nothing() {
    let mut s = CompassState::new();
    set_config(&mut s, false, 300, false);
    s.handle_tab_hook(tab(false, false), 0);
    assert_eq!(s.controller_tick(5000 * MS, false), TickAction::Idle);
    let other = KeyHookEvent { code: 0, vk_code: 0x41, flags: 0, system_tab_blocked: false };
    let d = s.handle_tab_hook(other, 1);
    assert!(!d.swallow && !d.relay_tab);
    let negative = KeyHookEvent { code: -1, vk_code: VK_TAB, flags: 0, system_tab_blocked: false };
    assert!(!s.handle_tab_hook(negative, 1).swallow);
}

#[test]
fn system_shortcuts_are_never_swallowed() {
    let mut s = CompassState::new();
    set_config(&mut s, true, 1000, true);
    let mut ev = tab(false, false);
    ev.system_tab_blocked = true;
    let d = s.handle_tab_hook(ev, 0);
    assert!(!d.swallow && !d.relay_tab);
    // Holding Tab with hijacking on still opens the compass.
    let down = s.handle_tab_hook(tab(false, false), 10 * MS);
    assert!(down.swallow);
    assert_eq!(s.controller_tick(1010 * MS, false), TickAction::Activate);
}

#[test]
fn releasing_in_the_dead_zone_cancels() {
    let mut s = CompassState::new();
    s.handle_tab_hook(tab(false, false), 0);
    s.controller_tick(1000 * MS, true);
    s.activate(1000 * MS, WorkArea { left: 0, top: 0, right: 1920, bottom: 1080 }, BASE_DEAD_ZONE_SQ);
    assert_eq!(s.track_cursor(1200, 540), Some(2));
    assert_eq!(s.track_cursor(970, 545), Some(-1));
    let release = s.handle_tab_hook(tab(true, false), 1100 * MS);
    assert_eq!(release.released, Some(-1));
}

#[test]
fn selection_depends_only_on_the_position() {
    for current in -1..=7i8 {
        assert_eq!(compass_direction(48, -90, current, BASE_DEAD_ZONE_SQ), 1);
        assert_eq!(compass_direction(-30, -84, current, BASE_DEAD_ZONE_SQ), 0);
        assert_eq!(compass_direction(-50, -87, current, BASE_DEAD_ZONE_SQ), 7);
        assert_eq!(compass_direction(3, 3, current, BASE_DEAD_ZONE_SQ), -1);
    }
}
