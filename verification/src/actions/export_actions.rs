//! What the export action decides before it asks the user or writes a file:
//! whether the frame fits the material sheet, and the suggested file name.
use vstd::prelude::*;

use crate::domain::frame::{at_least_zero, FrameGeometry};
use crate::domain::settings::Settings;
use crate::export::gcode::shift_of;
use crate::number::in_range;
use crate::text::push_str;

verus! {

broadcast use vstd::string::group_string_axioms;

/// Where the (translated) frame lies on the material sheet.
#[derive(Debug, Clone, Copy, PartialEq, Eq)]
pub enum MaterialFit {
    /// Inside the sheet and clear of the edge margins.
    Inside,
    /// Inside the sheet but within an edge margin: the user confirms.
    NearEdge,
    /// Beyond the sheet: the user confirms.
    Outside,
}

/// The sheet lies left of and above its offset point; negative sizes and
/// margins count as zero.
pub open spec fn material_fit_of(f: FrameGeometry, s: Settings) -> MaterialFit {
    let (sx, sy) = shift_of(s);
    let (left, right, bottom, top) = (f.left + sx, f.right + sx, f.bottom + sy, f.top + sy);
    let material_left = s.material_offset_x - at_least_zero(s.material_width as int);
    let material_right = s.material_offset_x as int;
    let material_bottom = s.material_offset_y as int;
    let material_top = s.material_offset_y + at_least_zero(s.material_height as int);
    let margin_x = at_least_zero(s.material_edge_margin_x as int);
    let margin_y = at_least_zero(s.material_edge_margin_y as int);
    if left < material_left || bottom < material_bottom || right > material_right || top
        > material_top {
        MaterialFit::Outside
    } else if left < material_left + margin_x || right > material_right - margin_x || bottom
        < material_bottom + margin_y || top > material_top - margin_y {
        MaterialFit::NearEdge
    } else {
        MaterialFit::Inside
    }
}

/// The material values of the settings are in range.
pub open spec fn material_in_range(s: Settings) -> bool {
    &&& in_range(s.local_offset_x as int) && in_range(s.local_offset_y as int)
    &&& in_range(s.material_width as int) && in_range(s.material_height as int)
    &&& in_range(s.material_offset_x as int) && in_range(s.material_offset_y as int)
    &&& in_range(s.material_edge_margin_x as int) && in_range(s.material_edge_margin_y as int)
}

fn at_least_zero_value(v: i64) -> (r: i128)
    ensures
        r == at_least_zero(v as int),
{
    if v < 0 {
        0
    } else {
        v as i128
    }
}

/// Checks the frame, translated by the local origin when it is enabled,
/// against the material sheet and its edge margins.
pub fn material_fit(frame: &FrameGeometry, settings: &Settings) -> (r: MaterialFit)
    requires
        frame.in_range(),
        material_in_range(*settings),
    ensures
        r == material_fit_of(*frame, *settings),
{
    let (sx, sy) = if settings.local_offset_enabled {
        (settings.local_offset_x as i128, settings.local_offset_y as i128)
    } else {
        (0i128, 0i128)
    };
    let left = frame.left as i128 + sx;
    let right = frame.right as i128 + sx;
    let bottom = frame.bottom as i128 + sy;
    let top = frame.top as i128 + sy;
    let material_left = settings.material_offset_x as i128 - at_least_zero_value(
        settings.material_width,
    );
    let material_right = settings.material_offset_x as i128;
    let material_bottom = settings.material_offset_y as i128;
    let material_top = settings.material_offset_y as i128 + at_least_zero_value(
        settings.material_height,
    );
    let margin_x = at_least_zero_value(settings.material_edge_margin_x);
    let margin_y = at_least_zero_value(settings.material_edge_margin_y);
    if left < material_left || bottom < material_bottom || right > material_right || top
        > material_top {
        MaterialFit::Outside
    } else if left < material_left + margin_x || right > material_right - margin_x || bottom
        < material_bottom + margin_y || top > material_top - margin_y {
        MaterialFit::NearEdge
    } else {
        MaterialFit::Inside
    }
}

/// The suggested name of the exported program: the source file's stem
/// followed by `_frame.tap`, or `frame.tap` without a source name.
pub open spec fn suggested_name(stem: Option<Seq<char>>) -> Seq<char> {
    match stem {
        Some(t) => t + "_frame.tap"@,
        None => "frame.tap"@,
    }
}

/// The suggested name of the exported program.
pub fn suggested_file_name(stem: Option<&str>) -> (name: String)
    ensures
        name@ == suggested_name(
            match stem {
                Some(t) => Some(t@),
                None => None,
            },
        ),
{
    match stem {
        Some(t) => {
            let mut name = String::new();
            push_str(&mut name, t);
            push_str(&mut name, "_frame.tap");
            name
        },
        None => "frame.tap".to_owned(),
    }
}

/// A frame clear of the margins is also on the sheet, and one that leaves
/// the sheet is not clear of the margins: the three verdicts are ordered.
pub proof fn law_fit_verdicts_are_ordered(f: FrameGeometry, s: Settings)
    ensures
        ({
            let (sx, sy) = shift_of(s);
            let material_left = s.material_offset_x - at_least_zero(s.material_width as int);
            let material_top = s.material_offset_y + at_least_zero(s.material_height as int);
            &&& material_fit_of(f, s) == MaterialFit::Inside ==> material_left
                <= f.left + sx && f.right + sx <= s.material_offset_x && s.material_offset_y
                <= f.bottom + sy && f.top + sy <= material_top
            &&& material_fit_of(f, s) != MaterialFit::Outside <==> (material_left <= f.left + sx
                && f.right + sx <= s.material_offset_x && s.material_offset_y <= f.bottom + sy
                && f.top + sy <= material_top)
            &&& (s.material_edge_margin_x <= 0 && s.material_edge_margin_y <= 0) ==> material_fit_of(
                f,
                s,
            ) != MaterialFit::NearEdge
        }),
{
}

/// A frame judged `Inside` stays clear of all four edge margins of the
/// sheet; a frame on the sheet that reaches into any margin, the upper and
/// lower ones included, is judged `NearEdge`.
pub proof fn law_inside_means_clear_of_every_margin(f: FrameGeometry, s: Settings)
    ensures
        ({
            let (sx, sy) = shift_of(s);
            let mx = if s.material_edge_margin_x < 0 {
                0
            } else {
                s.material_edge_margin_x as int
            };
            let my = if s.material_edge_margin_y < 0 {
                0
            } else {
                s.material_edge_margin_y as int
            };
            let w = if s.material_width < 0 {
                0
            } else {
                s.material_width as int
            };
            let h = if s.material_height < 0 {
                0
            } else {
                s.material_height as int
            };
            let on_sheet = s.material_offset_x - w <= f.left + sx && f.right + sx
                <= s.material_offset_x && s.material_offset_y <= f.bottom + sy && f.top + sy
                <= s.material_offset_y + h;
            let clear = s.material_offset_x - w + mx <= f.left + sx && f.right + sx
                <= s.material_offset_x - mx && s.material_offset_y + my <= f.bottom + sy && f.top
                + sy <= s.material_offset_y + h - my;
            &&& material_fit_of(f, s) == MaterialFit::Inside <==> on_sheet && clear
            &&& material_fit_of(f, s) == MaterialFit::NearEdge <==> on_sheet && !clear
            &&& material_fit_of(f, s) == MaterialFit::Outside <==> !on_sheet
        }),
{
}

} // verus!
