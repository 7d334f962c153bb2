use gcode_frame_gen::domain::frame::{top_tab_intervals, BoardBounds, FrameGeometry};
use gcode_frame_gen::domain::gcode::{
    apply_source_cutting_parameters, parse_gcode_bounds, parse_gcode_home_position,
    parse_gcode_rapid_path, parse_gcode_toolpath, strip_comments,
};
use gcode_frame_gen::domain::settings::Settings;

/// Millimetres as millionths.
fn mm(value: f64) -> i64 {
    (value * 1_000_000.0).round() as i64
}

#[test]
fn frame_test_parse_simple_gcode() {
    let gcode = "G0 X0 Y0\nG1 X10 Y5\nG1 X20 Y10";
    let bounds = parse_gcode_bounds(gcode);

    assert!((bounds.x_min - mm(10.0)).abs() < mm(0.001));
    assert!((bounds.x_max - mm(20.0)).abs() < mm(0.001));
    assert!((bounds.y_min - mm(5.0)).abs() < mm(0.001));
    assert!((bounds.y_max - mm(10.0)).abs() < mm(0.001));
}

#[test]
fn parses_contiguous_gcode_words() {
    let bounds = parse_gcode_bounds("G0X-5Y0\nG1X10.5Y20");
    assert_eq!(bounds.x_min, mm(10.5));
    assert_eq!(bounds.x_max, mm(10.5));
    assert_eq!(bounds.y_max, mm(20.0));
}

#[test]
fn parses_modal_coordinates_and_inline_comments() {
    let gcode = "g0 x0 y0 ; start\nG1 X10\nY5 (move only y)\nG1 X-2";
    let bounds = parse_gcode_bounds(gcode);

    assert_eq!(bounds.x_min, mm(-2.0));
    assert_eq!(bounds.x_max, mm(10.0));
    assert_eq!(bounds.y_min, mm(0.0));
    assert_eq!(bounds.y_max, mm(5.0));
}

#[test]
fn frame_expands_board_bounds_by_offsets_and_margin() {
    let bounds = BoardBounds {
        x_min: mm(-5.0),
        x_max: mm(15.0),
        y_min: mm(2.0),
        y_max: mm(12.0),
    };
    let settings = Settings {
        offset_x: mm(1.0),
        offset_y: mm(2.0),
        tool_diameter: mm(2.0),
        ..Settings::default()
    };
    let frame = FrameGeometry::calculate(&bounds, &settings).expect("valid bounds");

    assert_eq!(frame.left, mm(-7.0));
    assert_eq!(frame.right, mm(15.0));
    assert_eq!(frame.bottom, mm(2.0));
    assert_eq!(frame.top, mm(16.0));
}

#[test]
fn finds_the_source_parking_position() {
    assert_eq!(
        parse_gcode_home_position("G0 X-10 Y2\nG0 Z5\nX-5Y5\nM5\nM30"),
        Some((mm(-5.0), mm(5.0)))
    );
}

#[test]
fn top_tabs_keep_gaps_within_configured_limit() {
    let frame = FrameGeometry {
        left: mm(0.0),
        right: mm(100.0),
        bottom: mm(0.0),
        top: mm(40.0),
    };
    let settings = Settings {
        tab_width: mm(3.0),
        minimum_tabs: 3,
        maximum_tab_gap: mm(20.0),
        ..Settings::default()
    };
    let tabs = top_tab_intervals(&frame, mm(1.0), &settings);
    assert_eq!(tabs.len(), 4);
    assert!((tabs[0].0 - mm(1.0)) < mm(20.0));
    assert!((mm(99.0) - tabs.last().expect("tab").1) < mm(20.0));
}

#[test]
fn reads_cutting_values_from_source_program() {
    let mut settings = Settings::default();
    apply_source_cutting_parameters("M3 S12000\nG1 Z-0.4 F150\nZ-0.8\nZ-1.2", &mut settings);
    assert_eq!(settings.spindle_speed, mm(12000.0));
    assert_eq!(settings.feed_rate, mm(150.0));
    assert_eq!(settings.cut_depth, mm(1.2));
    assert!((settings.step_depth - mm(0.4)).abs() < mm(0.000_001));
}

#[test]
fn strips_semicolon_and_parenthesized_comments() {
    assert_eq!(strip_comments("G1 X1 (note) Y2 ; rest"), "G1 X1  Y2 ");
    assert_eq!(strip_comments("(only a comment)"), "");
    assert_eq!(strip_comments("X1 ; (not) a comment"), "X1 ");
}

#[test]
fn toolpath_follows_modal_cutting_moves() {
    let path = parse_gcode_toolpath("G0 X0 Y0\nG1 X1 Y1\nX2\nG0 X5\nY6\nG1 Y7\n");
    assert_eq!(
        path,
        vec![(mm(1.0), mm(1.0)), (mm(2.0), mm(1.0)), (mm(5.0), mm(7.0))]
    );
}

#[test]
fn rapid_path_follows_rapid_moves() {
    let path = parse_gcode_rapid_path("G0 X0 Y0\nG1 X1 Y1\nG0 X-5 Y5\nM5");
    assert_eq!(path, vec![(0, 0), (mm(-5.0), mm(5.0))]);
}

#[test]
fn bounds_are_empty_without_cutting_moves() {
    let bounds = parse_gcode_bounds("G0 X1 Y1\nG0 X2 Y2\n");
    assert!(!bounds.is_valid());
    assert_eq!(bounds.x_min, i64::MAX);
    assert_eq!(bounds.x_max, i64::MIN);
    assert!(FrameGeometry::calculate(&bounds, &Settings::default()).is_none());
}

#[test]
fn decimals_beyond_six_places_round_half_away_from_zero() {
    let path = parse_gcode_toolpath("G1 X0.0000005 Y-0.0000005\nG1 X1.2345674 Y+.5");
    assert_eq!(path, vec![(1, -1), (1_234_567, 500_000)]);
}

#[test]
fn words_that_are_not_numbers_are_ignored() {
    let path = parse_gcode_toolpath("G1 X1 Y- \nG1 X. Y2\nG1 X3 Y4\r\n");
    // `Y-` and `X.` are no numbers; X keeps its earlier value.
    assert_eq!(path, vec![(mm(1.0), mm(2.0)), (mm(3.0), mm(4.0))]);
}

#[test]
fn home_needs_both_coordinates() {
    assert_eq!(parse_gcode_home_position("G0 X1\nM30\nY2"), None);
}

#[test]
fn single_depth_is_also_the_step() {
    let mut settings = Settings::default();
    apply_source_cutting_parameters("G1 Z-1.6\nG1 X1 Y1\nG0 Z-5\n", &mut settings);
    assert_eq!(settings.cut_depth, mm(1.6));
    assert_eq!(settings.step_depth, mm(1.6));
}

#[test]
fn step_is_the_smallest_distance_between_neighbouring_depths() {
    let mut settings = Settings::default();
    apply_source_cutting_parameters("G1 Z-0.5\nZ-1.5\nZ-1.0\nZ-0.5\nZ-1.8", &mut settings);
    assert_eq!(settings.cut_depth, mm(1.8));
    assert_eq!(settings.step_depth, mm(0.3));
}

#[test]
fn values_absent_from_the_program_are_kept() {
    let mut settings = Settings::default();
    let before = settings.clone();
    apply_source_cutting_parameters("G0 X1 Y1\nS0\nF100\n", &mut settings);
    assert_eq!(settings.spindle_speed, before.spindle_speed);
    assert_eq!(settings.feed_rate, before.feed_rate);
    assert_eq!(settings.cut_depth, before.cut_depth);
    assert_eq!(settings.step_depth, before.step_depth);
}

#[test]
fn expanded_frame_is_symmetric() {
    let bounds = BoardBounds {
        x_min: mm(-5.0),
        x_max: mm(15.0),
        y_min: mm(2.0),
        y_max: mm(12.0),
    };
    let settings = Settings {
        offset_x: mm(1.0),
        offset_y: mm(-2.0),
        ..Settings::default()
    };
    let frame = FrameGeometry::expanded(&bounds, &settings).expect("valid bounds");
    assert_eq!((frame.left, frame.right), (mm(-6.0), mm(16.0)));
    assert_eq!((frame.bottom, frame.top), (mm(2.0), mm(12.0)));
    assert_eq!(frame.width(), mm(22.0));
    assert_eq!(frame.height(), mm(10.0));
}

#[test]
fn tabs_are_capped_by_the_edge_length() {
    let frame = FrameGeometry {
        left: 0,
        right: mm(10.0),
        bottom: 0,
        top: mm(5.0),
    };
    let settings = Settings {
        tab_width: mm(4.0),
        minimum_tabs: 5,
        maximum_tab_gap: mm(1.0),
        ..Settings::default()
    };
    let tabs = top_tab_intervals(&frame, 0, &settings);
    // The free length 2 mm is shared by three gaps of 0.666666 or 0.666667 mm.
    assert_eq!(tabs, vec![(666_666, 4_666_666), (5_333_333, 9_333_333)]);
}

#[test]
fn board_bounds_update_and_size() {
    let mut bounds = BoardBounds::new();
    assert!(!bounds.is_valid());
    bounds.update(mm(3.0), mm(-1.0));
    bounds.update(mm(-2.0), mm(4.0));
    assert!(bounds.is_valid());
    assert_eq!(bounds.width(), mm(5.0));
    assert_eq!(bounds.height(), mm(5.0));
    assert_eq!(BoardBounds::default().x_max, 0);
}

#[test]
fn stripping_comments_twice_changes_nothing() {
    for line in [
        "G1 X1 (a (nested) note) Y2 ; tail",
        "G0 X5) Y(3",
        "(only a comment",
        "M3 S1000",
    ] {
        let once = strip_comments(line);
        assert!(!once.contains(';') && !once.contains('(') && !once.contains(')'));
        assert_eq!(strip_comments(&once), once);
    }
}

#[test]
fn frame_corners_close_the_loop() {
    let frame = FrameGeometry {
        left: mm(-3.0),
        right: mm(4.0),
        bottom: mm(1.0),
        top: mm(2.5),
    };
    assert_eq!(
        frame.corners(),
        vec![
            (mm(-3.0), mm(1.0)),
            (mm(4.0), mm(1.0)),
            (mm(4.0), mm(2.5)),
            (mm(-3.0), mm(2.5)),
            (mm(-3.0), mm(1.0)),
        ]
    );
}

#[test]
fn tab_gaps_spread_the_remainder_and_stay_within_the_limit() {
    let frame = FrameGeometry {
        left: 0,
        right: mm(111.999999),
        bottom: 0,
        top: mm(10.0),
    };
    let settings = Settings {
        tab_width: mm(3.0),
        minimum_tabs: 3,
        maximum_tab_gap: mm(20.0),
        ..Settings::default()
    };
    let tabs = top_tab_intervals(&frame, 0, &settings);
    assert_eq!(tabs.len(), 4);
    let mut gaps = vec![tabs[0].0 - frame.left];
    for pair in tabs.windows(2) {
        gaps.push(pair[1].0 - pair[0].1);
    }
    gaps.push(frame.right - tabs[tabs.len() - 1].1);
    assert!(gaps.iter().all(|&g| g <= mm(20.0)));
    let smallest = *gaps.iter().min().unwrap();
    let largest = *gaps.iter().max().unwrap();
    assert!(largest - smallest <= 1);
    assert!(tabs.iter().all(|&(a, b)| b - a == mm(3.0)));
}

#[test]
fn stripping_keeps_a_subsequence_and_leaves_clean_lines_alone() {
    assert_eq!(strip_comments("G1 X2 Y-3.5 F100"), "G1 X2 Y-3.5 F100");
    let line = "G1 (feed) X2 ; rest";
    let stripped = strip_comments(line);
    let mut rest = line.chars();
    assert!(stripped.chars().all(|c| rest.any(|d| d == c)));
}
