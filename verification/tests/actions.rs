use gcode_frame_gen::actions::export_actions::{material_fit, suggested_file_name, MaterialFit};
use gcode_frame_gen::actions::file_actions::{apply_source, SourceError};
use gcode_frame_gen::actions::preview_actions::{geometry_paths, measurement_data};
use gcode_frame_gen::domain::frame::{BoardBounds, FrameGeometry};
use gcode_frame_gen::domain::settings::Settings;

/// Millimetres as millionths.
fn mm(value: f64) -> i64 {
    (value * 1_000_000.0).round() as i64
}

#[test]
fn applying_a_source_reads_board_frame_and_cutting_values() {
    let mut settings = Settings {
        offset_x: mm(2.0),
        offset_y: mm(3.0),
        ..Settings::default()
    };
    let content = "M3 S12000\nG0 X-5 Y1\nG1 Z-0.5 F150\nG1 X-20 Y2\nX-10.5 Y12.25\nG0 Z5\nM5\nM30";
    let applied = apply_source(content, &mut settings).expect("source applies");

    assert_eq!(applied.bounds.x_min, mm(-20.0));
    assert_eq!(applied.bounds.x_max, mm(-10.5));
    assert_eq!(applied.bounds.y_min, mm(2.0));
    assert_eq!(applied.bounds.y_max, mm(12.25));
    assert_eq!(applied.frame.left, mm(-24.0));
    assert_eq!(applied.frame.right, mm(-10.5));
    assert_eq!(applied.frame.bottom, mm(2.0));
    assert_eq!(applied.frame.top, mm(18.25));
    assert_eq!(applied.home, Some((mm(-10.5), mm(12.25))));
    assert_eq!(applied.toolpath, vec![(mm(-20.0), mm(2.0)), (mm(-10.5), mm(12.25))]);
    assert_eq!(applied.rapid_path, vec![(mm(-5.0), mm(1.0))]);
    assert_eq!(applied.board_width, "9.500 mm");
    assert_eq!(applied.board_height, "10.250 mm");
    assert_eq!(applied.x_min, "-20.000");
    assert_eq!(applied.y_max, "12.250");
    assert_eq!(applied.frame_width, "13.500 mm");
    assert_eq!(applied.frame_height, "16.250 mm");
    assert_eq!(settings.spindle_speed, mm(12000.0));
    assert_eq!(settings.feed_rate, mm(150.0));
    assert_eq!(settings.cut_depth, mm(0.5));
    assert_eq!(settings.step_depth, mm(0.5));
}

#[test]
fn a_source_without_cutting_moves_is_refused() {
    let mut settings = Settings::default();
    let before = settings.cut_depth;
    let result = apply_source("G0 X1 Y1\nG1 Z-0.7\nM30", &mut settings);
    let error = result.expect_err("no cutting path");
    assert_eq!(error, SourceError::NoCuttingPath);
    assert_eq!(
        error.message(),
        "В исходном G-code не найдена корректная траектория G1."
    );
    assert_eq!(SourceError::FrameUnavailable.message(), "Не удалось вычислить рамку.");
    assert_eq!(settings.cut_depth, before);
}

#[test]
fn suggested_names_follow_the_source() {
    assert_eq!(suggested_file_name(Some("board")), "board_frame.tap");
    assert_eq!(suggested_file_name(None), "frame.tap");
}

#[test]
fn frames_are_checked_against_the_sheet_and_its_margins() {
    let settings = Settings {
        material_width: mm(100.0),
        material_height: mm(80.0),
        material_offset_x: mm(0.0),
        material_offset_y: mm(0.0),
        material_edge_margin_x: mm(5.0),
        material_edge_margin_y: mm(5.0),
        ..Settings::default()
    };
    let inside = FrameGeometry { left: mm(-90.0), right: mm(-10.0), bottom: mm(10.0), top: mm(70.0) };
    assert_eq!(material_fit(&inside, &settings), MaterialFit::Inside);
    let near = FrameGeometry { left: mm(-98.0), right: mm(-10.0), bottom: mm(10.0), top: mm(70.0) };
    assert_eq!(material_fit(&near, &settings), MaterialFit::NearEdge);
    let outside = FrameGeometry { left: mm(-90.0), right: mm(1.0), bottom: mm(10.0), top: mm(70.0) };
    assert_eq!(material_fit(&outside, &settings), MaterialFit::Outside);

    let shifted = Settings {
        local_offset_enabled: true,
        local_offset_x: mm(20.0),
        ..settings.clone()
    };
    assert_eq!(material_fit(&inside, &shifted), MaterialFit::Outside);
    let no_margins = Settings {
        material_edge_margin_x: mm(-1.0),
        material_edge_margin_y: 0,
        ..settings
    };
    assert_eq!(material_fit(&near, &no_margins), MaterialFit::Inside);
}

#[test]
fn snapping_outlines_cover_board_frames_and_material() {
    let bounds = BoardBounds { x_min: mm(-30.0), x_max: mm(-10.0), y_min: mm(5.0), y_max: mm(15.0) };
    let frame = FrameGeometry { left: mm(-34.0), right: mm(-10.0), bottom: mm(5.0), top: mm(19.0) };
    let settings = Settings {
        offset_x: mm(2.0),
        offset_y: mm(2.0),
        material_width: mm(100.0),
        material_height: mm(50.0),
        material_offset_x: mm(1.0),
        material_offset_y: mm(-1.0),
        local_offset_enabled: true,
        local_offset_x: mm(1.0),
        local_offset_y: mm(-1.0),
        ..Settings::default()
    };
    let paths = geometry_paths(&bounds, &frame, &settings);
    assert_eq!(paths.len(), 4);
    assert_eq!(paths[0][0], (mm(-30.0), mm(5.0)));
    assert_eq!(paths[1][2], (mm(-10.0), mm(19.0)));
    assert_eq!(paths[2][0], (mm(-32.0), mm(3.0)));
    assert_eq!(paths[2][2], (mm(-8.0), mm(17.0)));
    assert_eq!(paths[3][0], (mm(-100.0), mm(0.0)));
    assert_eq!(paths[3][2], (mm(0.0), mm(50.0)));
    assert!(paths.iter().all(|p| p.len() == 5 && p[0] == p[4]));

    let empty = geometry_paths(&BoardBounds::new(), &frame, &settings);
    assert_eq!(empty.len(), 3);
}

#[test]
fn measured_scene_widens_the_frame_and_follows_the_local_origin() {
    let bounds = BoardBounds { x_min: mm(-30.0), x_max: mm(-10.0), y_min: mm(5.0), y_max: mm(15.0) };
    let frame = FrameGeometry { left: mm(-34.0), right: mm(-10.0), bottom: mm(5.0), top: mm(19.0) };
    let settings = Settings {
        offset_x: mm(2.0),
        offset_y: mm(2.0),
        material_width: mm(-1.0),
        local_offset_enabled: true,
        local_offset_x: mm(1.0),
        local_offset_y: mm(-1.0),
        ..Settings::default()
    };
    let data = measurement_data(&bounds, &frame, &settings);
    assert_eq!(data.board_x_min, mm(-29.0));
    assert_eq!(data.board_y_max, mm(14.0));
    assert_eq!(data.frame_left, mm(-33.0));
    assert_eq!(data.frame_right, mm(-7.0));
    assert_eq!(data.frame_bottom, mm(2.0));
    assert_eq!(data.frame_top, mm(18.0));
    assert_eq!(data.material_width, 0);
    assert!(data.has_data);
}

#[test]
fn applying_the_same_source_twice_changes_nothing_more() {
    let mut settings = Settings::default();
    let content = "M3 S9000\nG1 Z-0.3 F200\nG1 X-5 Y1\nZ-0.6\nX-2 Y4\nZ-0.65\nX-5 Y1";
    let first = apply_source(content, &mut settings).expect("applies");
    let after_first = settings.clone();
    let second = apply_source(content, &mut settings).expect("applies again");
    assert_eq!(settings.cut_depth, after_first.cut_depth);
    assert_eq!(settings.step_depth, after_first.step_depth);
    assert_eq!(settings.feed_rate, after_first.feed_rate);
    assert_eq!(settings.spindle_speed, after_first.spindle_speed);
    assert_eq!(settings.cut_depth, mm(0.65));
    assert_eq!(settings.step_depth, mm(0.05));
    assert_eq!(first.frame_width, second.frame_width);
    assert_eq!(first.toolpath, second.toolpath);
}
