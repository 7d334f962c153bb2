//! The offset calculator window's results as text.
use vstd::prelude::*;

use crate::domain::tool_offset_calculator::{ToolOffsetInputs, ToolOffsetResults};
use crate::number::{fixed6_text, push_fixed6};

verus! {

/// The eight results of the offset calculator, as shown.
#[derive(Debug, Clone)]
pub struct ToolOffsetTexts {
    pub program_zero_x: String,
    pub program_zero_y: String,
    pub program_home_x: String,
    pub program_home_y: String,
    pub material_offset_x: String,
    pub material_offset_y: String,
    pub material_edge_margin_x: String,
    pub material_edge_margin_y: String,
}

/// A value in millimetres with six decimals.
pub fn format_value(value: i64) -> (s: String)
    ensures
        s@ == fixed6_text(value as int),
{
    let mut s = String::new();
    push_fixed6(&mut s, value);
    s
}

/// The texts of the calculator's results for the given measurements.
pub open spec fn results_texts(r: ToolOffsetResults, t: ToolOffsetTexts) -> bool {
    &&& t.program_zero_x@ == fixed6_text(r.program_zero_x as int)
    &&& t.program_zero_y@ == fixed6_text(r.program_zero_y as int)
    &&& t.program_home_x@ == fixed6_text(r.program_home_x as int)
    &&& t.program_home_y@ == fixed6_text(r.program_home_y as int)
    &&& t.material_offset_x@ == fixed6_text(r.material_offset_x as int)
    &&& t.material_offset_y@ == fixed6_text(r.material_offset_y as int)
    &&& t.material_edge_margin_x@ == fixed6_text(r.material_edge_margin_x as int)
    &&& t.material_edge_margin_y@ == fixed6_text(r.material_edge_margin_y as int)
}

/// Computes the results for the window's measurements and writes them with
/// six decimals; the window shows them.
pub fn update_results(inputs: ToolOffsetInputs) -> (t: ToolOffsetTexts)
    requires
        inputs.in_range(),
    ensures
        results_texts(inputs.results(), t),
{
    let results = inputs.calculate();
    ToolOffsetTexts {
        program_zero_x: format_value(results.program_zero_x),
        program_zero_y: format_value(results.program_zero_y),
        program_home_x: format_value(results.program_home_x),
        program_home_y: format_value(results.program_home_y),
        material_offset_x: format_value(results.material_offset_x),
        material_offset_y: format_value(results.material_offset_y),
        material_edge_margin_x: format_value(results.material_edge_margin_x),
        material_edge_margin_y: format_value(results.material_edge_margin_y),
    }
}

} // verus!
