use gcode_frame_gen::preview::data::PreviewData;
use gcode_frame_gen::preview::input::PreviewInput;
use gcode_frame_gen::preview::viewport::{Viewport, MAX_ZOOM, MIN_ZOOM};

/// Units as millionths.
fn u(value: f64) -> i64 {
    (value * 1_000_000.0).round() as i64
}

#[test]
fn zoom_and_pan_are_bounded_and_resettable() {
    let mut viewport = Viewport::default();
    viewport.zoom_by(1);
    viewport.pan_by(u(12.0), u(-8.0));
    assert_eq!(viewport.zoom, u(1.25));
    assert_eq!((viewport.pan_x, viewport.pan_y), (u(12.0), u(-8.0)));
    viewport.reset();
    assert_eq!(viewport.zoom, u(1.0));
    assert_eq!((viewport.pan_x, viewport.pan_y), (0, 0));
}

#[test]
fn panning_uses_pointer_delta() {
    let mut input = PreviewInput::default();
    let mut viewport = Viewport::default();
    input.begin_pan(u(10.0), u(15.0));
    input.pan_to(&mut viewport, u(16.0), u(11.0));

    assert_eq!((viewport.pan_x, viewport.pan_y), (u(6.0), u(-4.0)));
}

#[test]
fn moving_without_a_pan_start_only_records_the_pointer() {
    let mut input = PreviewInput::new();
    let mut viewport = Viewport::default();
    input.pan_to(&mut viewport, u(16.0), u(11.0));
    assert_eq!((viewport.pan_x, viewport.pan_y), (0, 0));
    input.pan_to(&mut viewport, u(20.0), u(10.0));
    assert_eq!((viewport.pan_x, viewport.pan_y), (u(4.0), u(-1.0)));
}

#[test]
fn pan_steps_add_up_to_the_whole_pointer_movement() {
    let mut input = PreviewInput::new();
    let mut stepped = Viewport::default();
    input.begin_pan(u(1.0), u(2.0));
    input.pan_to(&mut stepped, u(5.0), u(-3.0));
    input.pan_to(&mut stepped, u(-7.5), u(9.25));

    let mut once = Viewport::default();
    let mut direct = PreviewInput::new();
    direct.begin_pan(u(1.0), u(2.0));
    direct.pan_to(&mut once, u(-7.5), u(9.25));

    assert_eq!((stepped.pan_x, stepped.pan_y), (once.pan_x, once.pan_y));
    assert_eq!((stepped.pan_x, stepped.pan_y), (u(-8.5), u(7.25)));
}

#[test]
fn zoom_stays_within_its_limits() {
    let mut viewport = Viewport::default();
    for _ in 0..40 {
        viewport.zoom_by(1);
    }
    assert_eq!(viewport.zoom, MAX_ZOOM);
    for _ in 0..80 {
        viewport.zoom_by(-1);
    }
    assert_eq!(viewport.zoom, MIN_ZOOM);
    viewport.zoom_by(0);
    assert_eq!(viewport.zoom, MIN_ZOOM);
}

#[test]
fn zooming_out_scales_by_four_fifths() {
    let mut viewport = Viewport::default();
    viewport.zoom_by(-1);
    assert_eq!(viewport.zoom, u(0.8));
    viewport.zoom_by(1);
    assert_eq!(viewport.zoom, u(1.0));
}

#[test]
fn world_bounds_hold_board_frame_and_material() {
    let data = PreviewData::from_bounds_with_material(
        u(-50.0),
        u(-10.0),
        u(5.0),
        u(40.0),
        u(-60.0),
        u(-5.0),
        u(2.0),
        u(45.0),
        u(100.0),
        u(30.0),
        u(0.0),
        u(0.0),
    );
    assert!(data.has_data);
    assert_eq!(data.world_bounds(), (u(-100.0), u(0.0), u(0.0), u(45.0)));
}

#[test]
fn negative_material_sizes_count_as_empty() {
    let data = PreviewData::from_bounds_with_material(
        u(0.0),
        u(10.0),
        u(0.0),
        u(10.0),
        u(0.0),
        u(10.0),
        u(0.0),
        u(10.0),
        u(-5.0),
        u(-5.0),
        u(20.0),
        u(20.0),
    );
    assert_eq!(data.material_width, 0);
    assert_eq!(data.material_height, 0);
    assert_eq!(data.world_bounds(), (u(0.0), u(20.0), u(0.0), u(20.0)));
    assert!(!PreviewData::default().has_data);
}
