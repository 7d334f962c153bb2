use gcode_frame_gen::actions::tool_offset_calculator::{format_value, update_results};
use gcode_frame_gen::domain::tool_offset_calculator::{ToolOffsetInputs, REFERENCE_OFFSET_MM};

/// Millimetres as millionths.
fn mm(value: f64) -> i64 {
    (value * 1_000_000.0).round() as i64
}

#[test]
fn calculates_gerber_and_application_offsets() {
    let results = ToolOffsetInputs {
        indicator_x: mm(20.0),
        indicator_y: mm(30.0),
        clamp_x: mm(4.0),
        clamp_y: mm(5.0),
        safety_x: mm(2.0),
        safety_y: mm(3.0),
    }
    .calculate();

    assert_eq!(results.material_offset_x, mm(20.0));
    assert_eq!(results.material_offset_y, mm(30.0));
    assert!((results.material_edge_margin_x - mm(9.064)).abs() < mm(0.000_001));
    assert!((results.material_edge_margin_y - mm(11.064)).abs() < mm(0.000_001));
    assert!((results.program_zero_x - mm(29.064)).abs() < mm(0.000_001));
    assert!((results.program_zero_y - mm(41.064)).abs() < mm(0.000_001));
    assert_eq!(results.program_home_x, REFERENCE_OFFSET_MM);
    assert_eq!(results.program_home_y, REFERENCE_OFFSET_MM);
}

#[test]
fn default_measurements_give_the_reference_offset() {
    let results = ToolOffsetInputs::default().calculate();
    assert_eq!(results.material_offset_x, 0);
    assert_eq!(results.material_edge_margin_x, REFERENCE_OFFSET_MM);
    assert_eq!(results.program_zero_y, REFERENCE_OFFSET_MM);
}

#[test]
fn values_are_shown_with_six_decimals() {
    assert_eq!(format_value(mm(29.064)), "29.064000");
    assert_eq!(format_value(0), "0.000000");
    assert_eq!(format_value(-1_500_001), "-1.500001");
    assert_eq!(format_value(7), "0.000007");
    assert_eq!(format_value(-7), "-0.000007");
}

#[test]
fn calculator_texts_follow_the_results() {
    let texts = update_results(ToolOffsetInputs {
        indicator_x: mm(20.0),
        indicator_y: mm(30.0),
        clamp_x: mm(4.0),
        clamp_y: mm(5.0),
        safety_x: mm(2.0),
        safety_y: mm(3.0),
    });
    assert_eq!(texts.program_zero_x, "29.064000");
    assert_eq!(texts.program_zero_y, "41.064000");
    assert_eq!(texts.program_home_x, "3.064000");
    assert_eq!(texts.program_home_y, "3.064000");
    assert_eq!(texts.material_offset_x, "20.000000");
    assert_eq!(texts.material_offset_y, "30.000000");
    assert_eq!(texts.material_edge_margin_x, "9.064000");
    assert_eq!(texts.material_edge_margin_y, "11.064000");
}
