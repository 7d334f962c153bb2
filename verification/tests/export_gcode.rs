use gcode_frame_gen::domain::frame::{BoardBounds, FrameGeometry};
use gcode_frame_gen::domain::settings::Settings;
use gcode_frame_gen::export::gcode::generate_frame_gcode;

/// Millimetres as millionths.
fn mm(value: f64) -> i64 {
    (value * 1_000_000.0).round() as i64
}

#[test]
fn export_contains_all_depth_passes_and_rounded_corner_points() {
    let frame = FrameGeometry {
        left: mm(0.0),
        right: mm(20.0),
        bottom: mm(0.0),
        top: mm(10.0),
    };
    let settings = Settings {
        cut_depth: mm(1.0),
        step_depth: mm(0.4),
        tool_diameter: mm(2.0),
        tab_width: mm(3.0),
        minimum_tabs: 3,
        maximum_tab_gap: mm(20.0),
        ..Settings::default()
    };
    let gcode = generate_frame_gcode(
        &BoardBounds::default(),
        &frame,
        &settings,
        Some((mm(-5.0), mm(5.0))),
    );

    assert!(gcode.contains("G1 Z-0.400 F120"));
    assert!(gcode.contains("G1 Z-0.800\n"));
    assert!(gcode.contains("G1 Z-1.000\n"));
    assert!(gcode.contains("X19.966 Y0.741"));
    assert!(gcode.contains("G0 X-5.000 Y5.000\nM5"));
    assert_eq!(gcode.matches("G0 Z2\n").count(), 9);
    assert_eq!(gcode.matches("Z0\n").count(), 9);
    assert!(!gcode.contains("G1 X"));
}

#[test]
fn export_translates_local_program_when_local_zero_is_enabled() {
    let frame = FrameGeometry {
        left: mm(0.0),
        right: mm(10.0),
        bottom: mm(0.0),
        top: mm(5.0),
    };
    let settings = Settings {
        local_offset_enabled: true,
        local_offset_x: mm(25.0),
        local_offset_y: mm(30.0),
        tool_diameter: mm(0.0),
        cut_depth: mm(1.0),
        step_depth: mm(1.0),
        ..Settings::default()
    };
    let gcode = generate_frame_gcode(
        &BoardBounds::default(),
        &frame,
        &settings,
        Some((mm(1.0), mm(2.0))),
    );
    assert!(gcode.contains("G0 X25.000 Y30.000"));
    assert!(gcode.contains("X35.000 Y30.000"));
    assert!(gcode.contains("G0 X26.000 Y32.000"));
}

#[test]
fn scored_tabs_are_cut_only_during_the_first_half_of_depth() {
    let frame = FrameGeometry {
        left: mm(0.0),
        right: mm(20.0),
        bottom: mm(0.0),
        top: mm(10.0),
    };
    let settings = Settings {
        score_tabs: true,
        tool_diameter: mm(0.0),
        cut_depth: mm(1.0),
        step_depth: mm(0.5),
        tab_width: mm(3.0),
        minimum_tabs: 3,
        ..Settings::default()
    };
    let gcode = generate_frame_gcode(&BoardBounds::default(), &frame, &settings, None);
    // Tabs are skipped only on the full-depth pass: 3 holding tabs, one lift each.
    assert_eq!(gcode.matches("G0 Z2\n").count(), 3);
}

#[test]
fn zero_depth_ends_right_after_the_start_move() {
    let frame = FrameGeometry {
        left: 0,
        right: mm(10.0),
        bottom: 0,
        top: mm(5.0),
    };
    let settings = Settings {
        tool_diameter: 0,
        cut_depth: 0,
        spindle_speed: mm(800.9),
        ..Settings::default()
    };
    let gcode = generate_frame_gcode(&BoardBounds::default(), &frame, &settings, None);
    assert_eq!(
        gcode,
        "G21 G17 G90\nM3 S800\n\nG0 Z5\nG0 X0.000 Y0.000\n\nG0 Z5\nM5\nM30\n"
    );
}

#[test]
fn rectangle_program_without_tabs_or_rounding() {
    let frame = FrameGeometry {
        left: mm(-1.0),
        right: mm(1.0),
        bottom: mm(0.0),
        top: mm(1.0),
    };
    let settings = Settings {
        tool_diameter: 0,
        cut_depth: mm(0.3),
        step_depth: mm(0.2),
        tab_width: 0,
        feed_rate: mm(99.5),
        spindle_speed: mm(1000.0),
        ..Settings::default()
    };
    let gcode = generate_frame_gcode(&BoardBounds::default(), &frame, &settings, None);
    assert_eq!(
        gcode,
        "G21 G17 G90\nM3 S1000\n\nG0 Z5\nG0 X-1.000 Y0.000\n\n\
         G1 Z-0.200 F99\nX1.000 Y0.000\nX1.000 Y1.000\nX-1.000 Y1.000\nX-1.000 Y0.000\n\n\
         G1 Z-0.300\nX1.000 Y0.000\nX1.000 Y1.000\nX-1.000 Y1.000\nX-1.000 Y0.000\n\n\
         G0 Z5\nM5\nM30\n"
    );
}

#[test]
fn passes_step_down_and_stop_at_the_cut_depth() {
    let frame = FrameGeometry {
        left: 0,
        right: mm(10.0),
        bottom: 0,
        top: mm(5.0),
    };
    let settings = Settings {
        tool_diameter: 0,
        cut_depth: mm(-1.0),
        step_depth: mm(0.3),
        tab_width: 0,
        ..Settings::default()
    };
    let gcode = generate_frame_gcode(&BoardBounds::default(), &frame, &settings, None);
    let plunges: Vec<&str> = gcode.lines().filter(|l| l.starts_with("G1 Z-")).collect();
    assert_eq!(
        plunges,
        vec!["G1 Z-0.300 F120", "G1 Z-0.600", "G1 Z-0.900", "G1 Z-1.000"]
    );
}

#[test]
fn rounded_outline_ends_where_it_starts() {
    let frame = FrameGeometry {
        left: mm(0.0),
        right: mm(20.0),
        bottom: mm(0.0),
        top: mm(10.0),
    };
    let settings = Settings {
        cut_depth: mm(0.5),
        step_depth: mm(0.5),
        tool_diameter: mm(2.0),
        tab_width: 0,
        ..Settings::default()
    };
    let gcode = generate_frame_gcode(&BoardBounds::default(), &frame, &settings, None);
    assert!(gcode.contains("G0 X1.000 Y0.000\n"));
    let pass: Vec<&str> = gcode
        .split("G1 Z-0.500 F120\n")
        .nth(1)
        .unwrap()
        .split("\n\n")
        .next()
        .unwrap()
        .lines()
        .collect();
    assert_eq!(pass.len(), 28);
    assert_eq!(*pass.last().unwrap(), "X1.000 Y0.000");
    assert_eq!(pass[0], "X19.000 Y0.000");
}

#[test]
fn programs_raise_the_tool_before_they_end() {
    let frame = FrameGeometry {
        left: mm(-12.0),
        right: mm(3.0),
        bottom: mm(1.0),
        top: mm(9.0),
    };
    for (cut, home) in [(mm(0.8), Some((mm(-5.0), mm(5.0)))), (0, None), (mm(0.4), None)] {
        let settings = Settings {
            cut_depth: cut,
            step_depth: mm(0.4),
            ..Settings::default()
        };
        let gcode = generate_frame_gcode(&BoardBounds::default(), &frame, &settings, home);
        assert!(gcode.starts_with("G21 G17 G90\n"));
        assert!(gcode.ends_with("M5\nM30\n"));
        let raise = gcode.rfind("G0 Z5\n").expect("raise");
        assert!(!gcode[raise + 6..].contains('Z'));
    }
}

#[test]
fn zero_depth_still_returns_to_the_parking_position() {
    let frame = FrameGeometry {
        left: 0,
        right: mm(10.0),
        bottom: 0,
        top: mm(5.0),
    };
    let settings = Settings {
        tool_diameter: 0,
        cut_depth: mm(1.0),
        step_depth: 0,
        spindle_speed: mm(800.0),
        local_offset_enabled: true,
        local_offset_x: mm(1.0),
        local_offset_y: mm(2.0),
        ..Settings::default()
    };
    let gcode = generate_frame_gcode(
        &BoardBounds::default(),
        &frame,
        &settings,
        Some((mm(-5.0), mm(5.0))),
    );
    assert_eq!(
        gcode,
        "G21 G17 G90\nM3 S800\n\nG0 Z5\nG0 X1.000 Y2.000\n\nG0 Z5\nG0 X-4.000 Y7.000\nM5\nM30\n"
    );
}
