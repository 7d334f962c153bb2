use gcode_frame_gen::domain::frame::{BoardBounds, FrameGeometry};
use gcode_frame_gen::domain::settings::Settings;
use gcode_frame_gen::preview::layers::scene_layers;
use gcode_frame_gen::preview::scene::{PreviewScene, PreviewSceneSnapshot};

/// Millimetres as millionths.
fn mm(value: f64) -> i64 {
    (value * 1_000_000.0).round() as i64
}

fn scene() -> PreviewSceneSnapshot {
    PreviewSceneSnapshot {
        board_bounds: Some(BoardBounds {
            x_min: mm(-30.0),
            x_max: mm(-10.0),
            y_min: mm(5.0),
            y_max: mm(15.0),
        }),
        frame_geometry: Some(FrameGeometry {
            left: mm(-34.0),
            right: mm(-10.0),
            bottom: mm(5.0),
            top: mm(19.0),
        }),
        toolpath: vec![(mm(-30.0), mm(5.0)), (mm(-10.0), mm(15.0))],
        rapid_path: vec![(mm(0.0), mm(0.0))],
    }
}

#[test]
fn scene_without_geometry_has_no_layers() {
    let settings = Settings::default();
    assert!(scene_layers(&PreviewSceneSnapshot::default(), &settings).is_none());
    let mut partial = scene();
    partial.frame_geometry = None;
    assert!(scene_layers(&partial, &settings).is_none());
}

#[test]
fn layers_follow_the_local_origin_but_the_material_does_not() {
    let settings = Settings {
        offset_x: mm(2.0),
        offset_y: mm(2.0),
        local_offset_enabled: true,
        local_offset_x: mm(1.0),
        local_offset_y: mm(-1.0),
        material_width: mm(100.0),
        material_height: mm(50.0),
        material_offset_x: 0,
        material_offset_y: 0,
        material_edge_margin_x: mm(5.0),
        material_edge_margin_y: mm(-2.0),
        tool_diameter: mm(2.0),
        tab_width: mm(3.0),
        minimum_tabs: 3,
        maximum_tab_gap: mm(20.0),
        ..Settings::default()
    };
    let layers = scene_layers(&scene(), &settings).expect("layers");
    assert_eq!(layers.toolpath, vec![(mm(-29.0), mm(4.0)), (mm(-9.0), mm(14.0))]);
    assert_eq!(layers.rapid_path, vec![(mm(1.0), mm(-1.0))]);
    assert_eq!(layers.material[0], (mm(-100.0), 0));
    assert_eq!(layers.material[2], (0, mm(50.0)));
    assert_eq!(layers.safe_area[0], (mm(-95.0), 0));
    assert_eq!(layers.safe_area[2], (mm(-5.0), mm(50.0)));
    let expanded = layers.expanded.expect("reference frame");
    assert_eq!(expanded[0], (mm(-31.0), mm(2.0)));
    assert_eq!(expanded[2], (mm(-7.0), mm(16.0)));
    assert_eq!(layers.outline[0], (mm(-33.0), mm(4.0)));
    assert_eq!(layers.outline[2], (mm(-9.0), mm(18.0)));
    assert_eq!(layers.tabs.len(), 3);
    for ((x0, y0), (x1, y1)) in &layers.tabs {
        assert_eq!(*y0, mm(18.0));
        assert_eq!(*y1, mm(18.0));
        assert_eq!(x1 - x0, mm(3.0));
        assert!(*x0 >= mm(-32.0) && *x1 <= mm(-10.0));
    }
}

#[test]
fn snapshots_copy_the_scene() {
    let empty = PreviewScene::default().snapshot();
    assert!(empty.board_bounds.is_none() && empty.toolpath.is_empty());
    let mut live = PreviewScene::new();
    let expected = scene();
    live.board_bounds = expected.board_bounds;
    live.frame_geometry = expected.frame_geometry;
    live.toolpath = expected.toolpath.clone();
    live.rapid_path = expected.rapid_path.clone();
    let snapshot = live.snapshot();
    live.toolpath.clear();
    assert_eq!(snapshot.toolpath, expected.toolpath);
    assert_eq!(snapshot.rapid_path, expected.rapid_path);
    assert_eq!(snapshot.frame_geometry.map(|f| f.top), Some(mm(19.0)));
}
