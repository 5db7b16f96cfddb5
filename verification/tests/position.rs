use cyrene_compass::geometry::{
    clamp_target, default_mode_size, mode_layout, mode_target, restore_target, window_center, window_rect,
    WorkArea,
};

const PRIMARY: WorkArea = WorkArea { left: 0, top: 0, right: 1920, bottom: 1040 };
const DISPLAY: WorkArea = WorkArea { left: 0, top: 0, right: 1920, bottom: 1080 };

#[test]
fn keeps_a_valid_position() {
    let result = restore_target(100, 200, 88, 88, Some(PRIMARY), PRIMARY);
    assert_eq!((result.x, result.y, result.reset), (100, 200, false));
}

#[test]
fn centers_a_position_outside_every_screen() {
    let result = restore_target(4000, 3000, 88, 88, None, PRIMARY);
    assert_eq!((result.x, result.y, result.reset), (916, 476, true));
}

#[test]
fn centers_a_position_overlapping_the_taskbar() {
    let result = restore_target(100, 1000, 88, 88, Some(PRIMARY), PRIMARY);
    assert_eq!((result.x, result.y, result.reset), (916, 476, true));
}

#[test]
fn accepts_a_valid_negative_coordinate_monitor() {
    let secondary = WorkArea { left: -1280, top: 0, right: 0, bottom: 984 };
    let result = restore_target(-1200, 100, 88, 88, Some(secondary), PRIMARY);
    assert_eq!((result.x, result.y, result.reset), (-1200, 100, false));
}

#[test]
fn clamps_dragged_windows_inside_the_work_area() {
    let left = clamp_target(-40, 100, 88, 88, PRIMARY);
    let bottom = clamp_target(1900, 1030, 88, 88, PRIMARY);
    assert_eq!((left.x, left.y), (0, 100));
    assert_eq!((bottom.x, bottom.y), (1832, 952));
}

#[test]
fn allows_dragging_over_the_taskbar_area() {
    let target = clamp_target(1900, 1060, 88, 88, DISPLAY);
    assert_eq!((target.x, target.y), (1832, 992));
}

#[test]
fn extreme_coordinates_do_not_overflow() {
    let result = restore_target(i32::MAX, i32::MIN, u32::MAX, u32::MAX, None, PRIMARY);
    assert_eq!((result.x, result.y, result.reset), (0, 0, true));
}

#[test]
fn oversized_windows_are_aligned_with_the_work_area() {
    let result = clamp_target(500, 500, 3000, 2000, PRIMARY);
    assert_eq!((result.x, result.y, result.reset), (0, 0, false));
    let again = clamp_target(result.x, result.y, 3000, 2000, PRIMARY);
    assert_eq!((again.x, again.y), (0, 0));
}

#[test]
fn window_rect_saturates() {
    let r = window_rect(10, 20, 88, 88);
    assert_eq!((r.left, r.top, r.right, r.bottom), (10, 20, 98, 108));
    let big = window_rect(i32::MAX - 5, -10, u32::MAX, 5);
    assert_eq!((big.right, big.bottom), (i32::MAX, -5));
}

#[test]
fn window_center_saturates() {
    assert_eq!(window_center(100, 200, 88, 89), (144, 244));
    assert_eq!(window_center(i32::MAX, 0, u32::MAX, 0), (i32::MAX, 0));
}

#[test]
fn mode_change_remembers_and_returns_to_the_ball() {
    assert_eq!(default_mode_size("compass"), (560, 630));
    assert_eq!(default_mode_size("settings"), (1460, 760));
    assert_eq!(default_mode_size("ball"), (88, 88));

    // The 88 px ball at (101, 200) opens the compass: its centre (145, 244) is kept.
    let open = mode_target("compass", 88, 88, 101, 200, None);
    assert_eq!(open.recorded_anchor, Some((145, 244)));
    assert!(!open.clear_anchor_after && open.no_activate && !open.focus);
    assert_eq!((open.center2_x, open.center2_y), (290, 488));
    let layout = mode_layout(560, 630, open.center2_x, open.center2_y, DISPLAY);
    assert_eq!((layout.x, layout.y, layout.width, layout.height), (0, 0, 560, 630));

    // Back to the ball: centred on the remembered centre, which is then forgotten.
    let back = mode_target("ball", 560, 630, 0, 0, open.recorded_anchor);
    assert!(back.clear_anchor_after);
    assert_eq!((back.center2_x, back.center2_y), (290, 488));
    assert_eq!((back.probe_x, back.probe_y), (145, 244));
    let ball = mode_layout(88, 88, back.center2_x, back.center2_y, DISPLAY);
    assert_eq!((ball.x, ball.y, ball.width, ball.height), (101, 200, 88, 88));

    // The settings page takes the focus and is limited to the work area.
    let settings = mode_target("settings", 560, 630, 680, 225, Some((145, 244)));
    assert!(settings.focus && !settings.no_activate);
    assert_eq!(settings.recorded_anchor, Some((145, 244)));
    let wide = mode_layout(2920, 1520, settings.center2_x, settings.center2_y, PRIMARY);
    assert_eq!((wide.x, wide.y, wide.width, wide.height), (0, 0, 1920, 1040));
}

#[test]
fn half_pixel_centres_round_away_from_zero() {
    // Centre of a 89 px window at x = -100 is -55.5, rounded to -56.
    let t = mode_target("compass", 89, 89, -100, -100, None);
    assert_eq!(t.recorded_anchor, Some((-56, -56)));
    let t = mode_target("compass", 89, 89, 100, 100, None);
    assert_eq!(t.recorded_anchor, Some((145, 145)));
}

#[test]
fn a_reset_position_is_kept_on_the_next_start() {
    let reset = restore_target(-5000, 7, 88, 88, None, PRIMARY);
    assert!(reset.reset);
    let next = restore_target(reset.x, reset.y, 88, 88, Some(PRIMARY), PRIMARY);
    assert_eq!((next.x, next.y, next.reset), (reset.x, reset.y, false));
    let inside = clamp_target(300, 400, 88, 88, PRIMARY);
    assert_eq!((inside.x, inside.y, inside.reset), (300, 400, false));
}
