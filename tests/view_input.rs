use mandelbrot::fixed::ONE;
use mandelbrot::view::{
    PlanePoint, PointerPos,
    iteration_step, window_resized, Screen, ViewState, DEFAULT_CENTER_X, DEFAULT_ITERATIONS,
    DEFAULT_SCALE, MIN_ITERATIONS,
};

fn moved_view() -> ViewState {
    ViewState {
        center_x: 3 * ONE,
        center_y: -5 * ONE,
        start_x: ONE / 2,
        start_y: -ONE / 3,
        scale: 17 * ONE,
        aspect: 2 * ONE,
        iterations: 500,
    }
}

#[test]
fn fresh_view_has_defaults() {
    let v = ViewState::new();
    assert_eq!(v.center_x, -6710886);
    assert_eq!(v.center_x, DEFAULT_CENTER_X);
    assert_eq!(v.center_y, 0);
    assert_eq!((v.start_x, v.start_y), (0, 0));
    assert_eq!(v.scale, DEFAULT_SCALE);
    assert_eq!(v.aspect, ONE);
    assert_eq!(v.iterations, 64);
}

#[test]
fn reset_view_restores_center_scale_and_iterations() {
    let mut v = moved_view();
    v.reset_view();
    assert_eq!(v.center_x, DEFAULT_CENTER_X);
    assert_eq!(v.center_y, 0);
    assert_eq!(v.scale, 6710886);
    assert_eq!(v.iterations, DEFAULT_ITERATIONS);
    assert_eq!((v.start_x, v.start_y), (ONE / 2, -ONE / 3));
    assert_eq!(v.aspect, 2 * ONE);
}

#[test]
fn reset_start_zeroes_only_the_start_point() {
    let mut v = moved_view();
    v.reset_start();
    let mut expected = moved_view();
    expected.start_x = 0;
    expected.start_y = 0;
    assert_eq!(v, expected);
}

#[test]
fn iteration_step_follows_the_threshold() {
    assert_eq!(iteration_step(0), 0);
    assert_eq!(iteration_step(ONE / 100), 0);
    assert_eq!(iteration_step(-ONE / 100), 0);
    assert_eq!(iteration_step(ONE), 1);
    assert_eq!(iteration_step(-ONE), -1);
    assert_eq!(iteration_step(838861), 1);
    assert_eq!(iteration_step(838860), 0);
}

#[test]
fn iterations_never_fall_below_two() {
    let mut v = ViewState::new();
    v.iterations = 3;
    v.change_iterations(-ONE);
    assert_eq!(v.iterations, 2);
    v.change_iterations(-ONE);
    assert_eq!(v.iterations, MIN_ITERATIONS);
    v.change_iterations(-5 * ONE);
    assert_eq!(v.iterations, 2);
    v.change_iterations(ONE);
    assert_eq!(v.iterations, 3);
}

#[test]
fn small_horizontal_scroll_keeps_iterations() {
    let mut v = ViewState::new();
    v.change_iterations(ONE / 50);
    assert_eq!(v.iterations, 64);
    v.iterations = i32::MAX;
    v.change_iterations(ONE);
    assert_eq!(v.iterations, i32::MAX);
}

#[test]
fn drag_moves_center_against_the_motion() {
    let mut v = ViewState::new();
    // 10 pixels on a 100 pixel high viewport at zoom 0.4 is a quarter unit.
    assert!(v.drag(10 * ONE, -30 * ONE, 100 * ONE));
    assert_eq!(v.center_x, DEFAULT_CENTER_X - 4194304);
    assert_eq!(v.center_y, 12582912);
    assert_eq!(v.scale, DEFAULT_SCALE);
}

#[test]
fn drag_and_opposite_drag_cancel() {
    let mut v = moved_view();
    assert!(v.drag(123456789, -987654, 777 * ONE));
    assert_ne!(v, moved_view());
    assert!(v.drag(-123456789, 987654, 777 * ONE));
    assert_eq!(v, moved_view());
}

#[test]
fn drag_on_empty_viewport_does_nothing() {
    let mut v = moved_view();
    assert!(!v.drag(ONE, ONE, 0));
    assert_eq!(v, moved_view());
    assert!(!v.drag_start(ONE, ONE, -ONE));
    assert_eq!(v, moved_view());
}

#[test]
fn drag_past_the_representable_range_does_nothing() {
    let mut v = moved_view();
    v.scale = 1;
    let before = v;
    assert!(!v.drag(i64::MAX, 0, 1));
    assert_eq!(v, before);
}

#[test]
fn drag_start_moves_a_quarter_as_fast() {
    let mut v = ViewState::new();
    assert!(v.drag_start(10 * ONE, -30 * ONE, 100 * ONE));
    assert_eq!((v.start_x, v.start_y), (-419430, 1258291));
    assert_eq!(v.center_x, DEFAULT_CENTER_X);
}

#[test]
fn drag_start_and_opposite_drag_cancel() {
    let mut v = moved_view();
    assert!(v.drag_start(-5555555, 31, 480 * ONE));
    assert!(v.drag_start(5555555, -31, 480 * ONE));
    assert_eq!(v, moved_view());
}

#[test]
fn zoom_scales_and_moves_toward_pointer() {
    let mut v = ViewState::new();
    assert!(v.zoom(ONE, ONE / 2, -ONE / 4));
    assert_eq!(v.scale, 7046430);
    assert_eq!(v.center_x, -6186598);
    assert_eq!(v.center_y, 262144);
    assert_eq!(v.iterations, 64);
}

#[test]
fn zoom_at_center_keeps_center() {
    let mut v = ViewState::new();
    assert!(v.zoom(-3 * ONE, 0, 0));
    assert_eq!(v.center_x, DEFAULT_CENTER_X);
    assert_eq!(v.center_y, 0);
    assert!(v.scale < DEFAULT_SCALE);
}

#[test]
fn zoom_that_would_flip_the_scale_is_refused() {
    let mut v = moved_view();
    assert!(!v.zoom(-20 * ONE, 0, 0));
    assert!(!v.zoom(-40 * ONE, ONE, ONE));
    assert_eq!(v, moved_view());
}

#[test]
fn zoom_in_then_out_returns_scale_nearly() {
    let mut v = ViewState::new();
    // 1 + 0.05 * 2 = 1.1, then 1 - 0.05 * 2 = 0.9: the product is 0.99.
    assert!(v.zoom(2 * ONE, 0, 0));
    assert!(v.zoom(-2 * ONE, 0, 0));
    let expected = DEFAULT_SCALE as f64 * 0.99;
    assert!((v.scale as f64 - expected).abs() <= 2.0);
}

#[test]
fn resize_sets_screen_and_aspect() {
    let mut v = ViewState::new();
    let mut s = Screen::new();
    assert!(window_resized(&mut v, &mut s, 1920 * ONE, 1080 * ONE));
    assert_eq!((s.width, s.height), (1920 * ONE, 1080 * ONE));
    assert_eq!(s.aspect, 29826161);
    assert_eq!(v.aspect, 29826161);
    assert_eq!(v.scale, DEFAULT_SCALE);
}

#[test]
fn resize_to_nothing_is_ignored() {
    let mut v = ViewState::new();
    let mut s = Screen::new();
    assert!(!window_resized(&mut v, &mut s, 1920 * ONE, 0));
    assert_eq!(s, Screen::new());
    assert_eq!(v, ViewState::new());
}

#[test]
fn pointer_position_is_relative_to_height() {
    let mut v = ViewState::new();
    let mut s = Screen::new();
    assert!(window_resized(&mut v, &mut s, 1920 * ONE, 1080 * ONE));
    let p = s.pointer_position(1440 * ONE, 270 * ONE).unwrap();
    assert_eq!((p.x, p.y), (14913080, -ONE / 2));
    let c = s.pointer_position(960 * ONE, 540 * ONE).unwrap();
    assert_eq!((c.x, c.y), (0, 0));
    let corner = s.pointer_position(0, 0).unwrap();
    assert_eq!(corner.y, -ONE);
}

#[test]
fn resize_to_zero_width_is_taken() {
    let mut v = ViewState::new();
    let mut s = Screen::new();
    assert!(window_resized(&mut v, &mut s, 0, 1080 * ONE));
    assert_eq!(s, Screen { width: 0, height: 1080 * ONE, aspect: 0 });
    assert_eq!(v.aspect, 0);
    let p = s.pointer_position(0, 540 * ONE).unwrap();
    assert_eq!((p.x, p.y), (0, 0));
    assert!(!window_resized(&mut v, &mut s, -ONE, 1080 * ONE));
    assert_eq!(s.width, 0);
}

#[test]
fn point_at_maps_viewport_to_plane() {
    let v = ViewState::new();
    let centre = v.point_at(PointerPos { x: 0, y: 0 }).unwrap();
    assert_eq!(centre, PlanePoint { re: DEFAULT_CENTER_X, im: 0 });
    let q = v.point_at(PointerPos { x: ONE / 2, y: -ONE / 4 }).unwrap();
    assert_eq!(q, PlanePoint { re: 3774874, im: 5242880 });
    // The left edge of a square viewport at zoom 0.4 lies 1.25 left of the centre.
    let left = v.point_at(PointerPos { x: -ONE, y: 0 }).unwrap();
    assert_eq!(left.re, -27682407);
    let mut far = v;
    far.scale = 1;
    far.center_x = i64::MAX;
    assert_eq!(far.point_at(PointerPos { x: ONE, y: 0 }), None);
}

#[test]
fn escape_time_at_uses_the_iteration_cap() {
    let mut v = ViewState::new();
    let origin = PlanePoint { re: 0, im: 0 };
    assert_eq!(v.escape_time_at(origin), None);
    let one = PlanePoint { re: ONE, im: 0 };
    assert_eq!(v.escape_time_at(one), Some(3));
    v.iterations = 2;
    assert_eq!(v.escape_time_at(one), None);
    let far = v.point_at(PointerPos { x: 0, y: 0 }).unwrap();
    assert_eq!(v.escape_time_at(PlanePoint { re: far.re, im: 3 * ONE }), Some(1));
}
