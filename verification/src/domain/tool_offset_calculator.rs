//! Offsets between the machine reference point, the material and the
//! program origin, from dial indicator and clamp measurements.
use vstd::prelude::*;

use crate::number::in_range;

verus! {

/// Fixed distance between the machine reference point and the Gerber2Gcode
/// origin: 3.064 mm.
pub const REFERENCE_OFFSET_MM: i64 = 3_064_000;

/// Measured values (millionths of a millimetre).
#[derive(Debug, Clone, Copy)]
pub struct ToolOffsetInputs {
    pub indicator_x: i64,
    pub indicator_y: i64,
    pub clamp_x: i64,
    pub clamp_y: i64,
    pub safety_x: i64,
    pub safety_y: i64,
}

/// Derived offsets (millionths of a millimetre).
#[derive(Debug, Clone, Copy, PartialEq, Eq)]
pub struct ToolOffsetResults {
    pub program_zero_x: i64,
    pub program_zero_y: i64,
    pub program_home_x: i64,
    pub program_home_y: i64,
    pub material_offset_x: i64,
    pub material_offset_y: i64,
    pub material_edge_margin_x: i64,
    pub material_edge_margin_y: i64,
}

impl Default for ToolOffsetInputs {
    fn default() -> (s: Self)
        ensures
            s == (ToolOffsetInputs {
                indicator_x: 0,
                indicator_y: 0,
                clamp_x: 0,
                clamp_y: 0,
                safety_x: 0,
                safety_y: 0,
            }),
    {
        Self { indicator_x: 0, indicator_y: 0, clamp_x: 0, clamp_y: 0, safety_x: 0, safety_y: 0 }
    }
}

impl ToolOffsetInputs {
    /// Every measurement is in range.
    pub open spec fn in_range(self) -> bool {
        in_range(self.indicator_x as int) && in_range(self.indicator_y as int) && in_range(
            self.clamp_x as int,
        ) && in_range(self.clamp_y as int) && in_range(self.safety_x as int) && in_range(
            self.safety_y as int,
        )
    }

    /// The material offset is the indicator reading; the edge margin is the
    /// clamp width plus the safety distance plus the reference offset; the
    /// program zero is their sum; the program home is the reference offset.
    pub open spec fn results(self) -> ToolOffsetResults {
        let margin_x = self.clamp_x + self.safety_x + REFERENCE_OFFSET_MM;
        let margin_y = self.clamp_y + self.safety_y + REFERENCE_OFFSET_MM;
        ToolOffsetResults {
            program_zero_x: (self.indicator_x + margin_x) as i64,
            program_zero_y: (self.indicator_y + margin_y) as i64,
            program_home_x: REFERENCE_OFFSET_MM,
            program_home_y: REFERENCE_OFFSET_MM,
            material_offset_x: self.indicator_x,
            material_offset_y: self.indicator_y,
            material_edge_margin_x: margin_x as i64,
            material_edge_margin_y: margin_y as i64,
        }
    }

    /// The offsets derived from the measurements.
    pub fn calculate(self) -> (r: ToolOffsetResults)
        requires
            self.in_range(),
        ensures
            r == self.results(),
    {
        let material_offset_x = self.indicator_x;
        let material_offset_y = self.indicator_y;
        let material_edge_margin_x = self.clamp_x + self.safety_x + REFERENCE_OFFSET_MM;
        let material_edge_margin_y = self.clamp_y + self.safety_y + REFERENCE_OFFSET_MM;
        ToolOffsetResults {
            program_zero_x: material_offset_x + material_edge_margin_x,
            program_zero_y: material_offset_y + material_edge_margin_y,
            program_home_x: REFERENCE_OFFSET_MM,
            program_home_y: REFERENCE_OFFSET_MM,
            material_offset_x,
            material_offset_y,
            material_edge_margin_x,
            material_edge_margin_y,
        }
    }
}

} // verus!
