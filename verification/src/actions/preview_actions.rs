//! What the preview's pointer tools measure against: the outlines a cursor
//! snaps to and the extent of the measured scene, in world coordinates.
use vstd::prelude::*;

use crate::actions::export_actions::material_in_range;
use crate::domain::frame::{at_least_zero, BoardBounds, FrameGeometry};
use crate::domain::gcode::point_view;
use crate::domain::settings::Settings;
use crate::export::gcode::shift_of;
use crate::number::in_range;
use crate::preview::data::{max2, min2, PreviewData};

verus! {

/// The closed outline of a rectangle, counter-clockwise from its lower left corner.
pub open spec fn rectangle(left: int, right: int, bottom: int, top: int) -> Seq<(int, int)> {
    seq![(left, bottom), (right, bottom), (right, top), (left, top), (left, bottom)]
}

/// The outlines a cursor snaps to: the board, the frame, the symmetric
/// reference frame when there is one, and the material sheet moved back by
/// the local origin.
pub open spec fn geometry_outlines(b: BoardBounds, f: FrameGeometry, s: Settings) -> Seq<
    Seq<(int, int)>,
> {
    let (sx, sy) = shift_of(s);
    let base = seq![
        rectangle(b.x_min as int, b.x_max as int, b.y_min as int, b.y_max as int),
        rectangle(f.left as int, f.right as int, f.bottom as int, f.top as int),
    ];
    let with_reference = match FrameGeometry::spec_expanded(b, s) {
        Some(e) => base.push(rectangle(e.left as int, e.right as int, e.bottom as int, e.top as int)),
        None => base,
    };
    with_reference.push(
        rectangle(
            s.material_offset_x - s.material_width - sx,
            s.material_offset_x - sx,
            s.material_offset_y - sy,
            s.material_offset_y + s.material_height - sy,
        ),
    )
}

fn rectangle_path(left: i64, right: i64, bottom: i64, top: i64) -> (p: Vec<(i64, i64)>)
    ensures
        p@.map_values(|q: (i64, i64)| point_view(q)) == rectangle(
            left as int,
            right as int,
            bottom as int,
            top as int,
        ),
{
    let p = vec![(left, bottom), (right, bottom), (right, top), (left, top), (left, bottom)];
    assert(p@.map_values(|q: (i64, i64)| point_view(q)) =~= rectangle(
        left as int,
        right as int,
        bottom as int,
        top as int,
    ));
    p
}

/// The outlines a cursor snaps to (see `geometry_outlines`).
pub fn geometry_paths(bounds: &BoardBounds, frame: &FrameGeometry, settings: &Settings) -> (paths:
    Vec<Vec<(i64, i64)>>)
    requires
        bounds.valid() ==> bounds.in_range(),
        in_range(settings.offset_x as int),
        in_range(settings.offset_y as int),
        material_in_range(*settings),
    ensures
        paths@.len() == geometry_outlines(*bounds, *frame, *settings).len(),
        forall|i: int|
            0 <= i < paths@.len() ==> (#[trigger] paths@[i])@.map_values(
                |q: (i64, i64)| point_view(q),
            ) == geometry_outlines(*bounds, *frame, *settings)[i],
{
    let (sx, sy) = settings.local_offset();
    let mut paths: Vec<Vec<(i64, i64)>> = Vec::new();
    paths.push(rectangle_path(bounds.x_min, bounds.x_max, bounds.y_min, bounds.y_max));
    paths.push(rectangle_path(frame.left, frame.right, frame.bottom, frame.top));
    if let Some(expanded) = FrameGeometry::expanded(bounds, settings) {
        paths.push(rectangle_path(expanded.left, expanded.right, expanded.bottom, expanded.top));
    }
    paths.push(
        rectangle_path(
            settings.material_offset_x - settings.material_width - sx,
            settings.material_offset_x - sx,
            settings.material_offset_y - sy,
            settings.material_offset_y + settings.material_height - sy,
        ),
    );
    let ghost outlines = geometry_outlines(*bounds, *frame, *settings);
    assert(paths@.len() == outlines.len());
    assert forall|i: int| 0 <= i < paths@.len() implies (#[trigger] paths@[i])@.map_values(
        |q: (i64, i64)| point_view(q),
    ) == outlines[i] by {}
    paths
}

/// The measured scene: board and frame (widened to the reference frame
/// when there is one), both moved by the local origin, and the material.
pub open spec fn measured_scene(b: BoardBounds, f: FrameGeometry, s: Settings) -> PreviewData {
    let (sx, sy) = shift_of(s);
    let (left, right, bottom, top) = match FrameGeometry::spec_expanded(b, s) {
        Some(e) => (
            min2(f.left as int, e.left as int),
            max2(f.right as int, e.right as int),
            min2(f.bottom as int, e.bottom as int),
            max2(f.top as int, e.top as int),
        ),
        None => (f.left as int, f.right as int, f.bottom as int, f.top as int),
    };
    PreviewData {
        board_x_min: (b.x_min + sx) as i64,
        board_x_max: (b.x_max + sx) as i64,
        board_y_min: (b.y_min + sy) as i64,
        board_y_max: (b.y_max + sy) as i64,
        frame_left: (left + sx) as i64,
        frame_right: (right + sx) as i64,
        frame_bottom: (bottom + sy) as i64,
        frame_top: (top + sy) as i64,
        material_width: at_least_zero(s.material_width as int) as i64,
        material_height: at_least_zero(s.material_height as int) as i64,
        material_offset_x: s.material_offset_x,
        material_offset_y: s.material_offset_y,
        has_data: true,
    }
}

/// The measured scene (see `measured_scene`), from which the cursor's
/// screen position is mapped to world coordinates.
pub fn measurement_data(bounds: &BoardBounds, frame: &FrameGeometry, settings: &Settings) -> (d:
    PreviewData)
    requires
        bounds.in_range(),
        frame.in_range(),
        in_range(settings.offset_x as int),
        in_range(settings.offset_y as int),
        material_in_range(*settings),
    ensures
        d == measured_scene(*bounds, *frame, *settings),
{
    let (sx, sy) = settings.local_offset();
    let (left, right, bottom, top) = match FrameGeometry::expanded(bounds, settings) {
        Some(e) => (
            if frame.left <= e.left {
                frame.left
            } else {
                e.left
            },
            if frame.right >= e.right {
                frame.right
            } else {
                e.right
            },
            if frame.bottom <= e.bottom {
                frame.bottom
            } else {
                e.bottom
            },
            if frame.top >= e.top {
                frame.top
            } else {
                e.top
            },
        ),
        None => (frame.left, frame.right, frame.bottom, frame.top),
    };
    PreviewData::from_bounds_with_material(
        bounds.x_min + sx,
        bounds.x_max + sx,
        bounds.y_min + sy,
        bounds.y_max + sy,
        left + sx,
        right + sx,
        bottom + sy,
        top + sy,
        settings.material_width,
        settings.material_height,
        settings.material_offset_x,
        settings.material_offset_y,
    )
}

} // verus!
