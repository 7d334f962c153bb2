//! The world-space shapes a preview draws for one frame. Both backends draw
//! the same layers; they differ only in how they map and rasterize them.
use vstd::prelude::*;

use crate::actions::export_actions::material_in_range;
use crate::actions::preview_actions::rectangle;
use crate::domain::frame::{
    at_least_zero, edge_left, edge_right, tab_intervals, top_tab_intervals, FrameGeometry,
};
use crate::domain::gcode::point_view;
use crate::domain::settings::Settings;
use crate::export::gcode::{corner_radius, corner_radius_value, shift_of};
use crate::number::in_range;
use crate::preview::scene::PreviewSceneSnapshot;

verus! {

/// Shapes in displayed coordinates (millionths): paths and frames moved by
/// the local origin when it is enabled, the material as configured.
#[derive(Debug, Clone)]
pub struct SceneLayers {
    /// The source's cutting path.
    pub toolpath: Vec<(i64, i64)>,
    /// The source's rapid moves.
    pub rapid_path: Vec<(i64, i64)>,
    /// The material sheet's outline.
    pub material: Vec<(i64, i64)>,
    /// The sheet less its edge margins; the band between the two is hatched.
    pub safe_area: Vec<(i64, i64)>,
    /// The symmetric reference frame's outline, when there is one.
    pub expanded: Option<Vec<(i64, i64)>>,
    /// The frame's outline.
    pub outline: Vec<(i64, i64)>,
    /// The holding tabs, as segments on the frame's upper edge.
    pub tabs: Vec<((i64, i64), (i64, i64))>,
}

/// A path moved by `(dx, dy)`.
pub open spec fn moved(path: Seq<(int, int)>, dx: int, dy: int) -> Seq<(int, int)> {
    Seq::new(path.len(), |i: int| (path[i].0 + dx, path[i].1 + dy))
}

/// The material sheet: left of and above its offset point.
pub open spec fn material_outline(s: Settings) -> Seq<(int, int)> {
    rectangle(
        s.material_offset_x - s.material_width,
        s.material_offset_x as int,
        s.material_offset_y as int,
        s.material_offset_y + s.material_height,
    )
}

/// The sheet less its edge margins (negative margins count as zero).
pub open spec fn safe_outline(s: Settings) -> Seq<(int, int)> {
    let mx = at_least_zero(s.material_edge_margin_x as int);
    let my = at_least_zero(s.material_edge_margin_y as int);
    rectangle(
        s.material_offset_x - s.material_width + mx,
        s.material_offset_x - mx,
        s.material_offset_y + my,
        s.material_offset_y + s.material_height - my,
    )
}

/// The holding tabs of the exported program, as segments on the upper edge
/// moved by `(dx, dy)`.
pub open spec fn tab_segments(f: FrameGeometry, s: Settings, dx: int, dy: int) -> Seq<
    ((int, int), (int, int)),
> {
    let ts = tab_intervals(f, corner_radius(f, s), s);
    Seq::new(ts.len(), |i: int| ((ts[i].0 + dx, f.top + dy), (ts[i].1 + dx, f.top + dy)))
}

/// The values a scene needs in range to be laid out.
pub open spec fn scene_in_range(scene: PreviewSceneSnapshot, s: Settings) -> bool {
    &&& scene.board_bounds matches Some(b) ==> b.in_range()
    &&& scene.frame_geometry matches Some(f) ==> f.in_range()
    &&& forall|i: int|
        0 <= i < scene.toolpath@.len() ==> in_range((#[trigger] scene.toolpath@[i]).0 as int)
            && in_range(scene.toolpath@[i].1 as int)
    &&& forall|i: int|
        0 <= i < scene.rapid_path@.len() ==> in_range((#[trigger] scene.rapid_path@[i]).0 as int)
            && in_range(scene.rapid_path@[i].1 as int)
    &&& in_range(s.offset_x as int) && in_range(s.offset_y as int)
    &&& in_range(s.tab_width as int) && in_range(s.maximum_tab_gap as int)
    &&& material_in_range(s)
}

/// A path of plain values.
pub open spec fn path_view(p: Seq<(i64, i64)>) -> Seq<(int, int)> {
    p.map_values(|q: (i64, i64)| point_view(q))
}

/// `layers` are the layers of a scene with board `b` and frame `f`.
pub open spec fn lays_out(
    scene: PreviewSceneSnapshot,
    f: FrameGeometry,
    s: Settings,
    layers: SceneLayers,
) -> bool {
    let (sx, sy) = shift_of(s);
    let b = scene.board_bounds->0;
    &&& path_view(layers.toolpath@) == moved(path_view(scene.toolpath@), sx, sy)
    &&& path_view(layers.rapid_path@) == moved(path_view(scene.rapid_path@), sx, sy)
    &&& path_view(layers.material@) == material_outline(s)
    &&& path_view(layers.safe_area@) == safe_outline(s)
    &&& match FrameGeometry::spec_expanded(b, s) {
        Some(e) => layers.expanded matches Some(p) && path_view(p@) == rectangle(
            e.left + sx,
            e.right + sx,
            e.bottom + sy,
            e.top + sy,
        ),
        None => layers.expanded is None,
    }
    &&& path_view(layers.outline@) == rectangle(f.left + sx, f.right + sx, f.bottom + sy, f.top + sy)
    &&& layers.tabs@.len() == tab_segments(f, s, sx, sy).len()
    &&& forall|i: int|
        0 <= i < layers.tabs@.len() ==> (point_view((#[trigger] layers.tabs@[i]).0), point_view(
            layers.tabs@[i].1,
        )) == tab_segments(f, s, sx, sy)[i]
}

fn moved_path(path: &Vec<(i64, i64)>, dx: i64, dy: i64) -> (r: Vec<(i64, i64)>)
    requires
        in_range(dx as int),
        in_range(dy as int),
        forall|i: int|
            0 <= i < path@.len() ==> in_range((#[trigger] path@[i]).0 as int) && in_range(
                path@[i].1 as int,
            ),
    ensures
        path_view(r@) == moved(path_view(path@), dx as int, dy as int),
{
    let mut r: Vec<(i64, i64)> = Vec::new();
    let mut i: usize = 0;
    while i < path.len()
        invariant
            i <= path@.len(),
            in_range(dx as int),
            in_range(dy as int),
            forall|k: int|
                0 <= k < path@.len() ==> in_range((#[trigger] path@[k]).0 as int) && in_range(
                    path@[k].1 as int,
                ),
            r@.len() == i,
            forall|k: int|
                0 <= k < i ==> (#[trigger] r@[k]).0 == path@[k].0 + dx && r@[k].1 == path@[k].1
                    + dy,
        decreases path@.len() - i,
    {
        let (x, y) = path[i];
        r.push((x + dx, y + dy));
        i = i + 1;
    }
    assert(path_view(r@) =~= moved(path_view(path@), dx as int, dy as int));
    r
}

fn rectangle_points(left: i64, right: i64, bottom: i64, top: i64) -> (p: Vec<(i64, i64)>)
    ensures
        path_view(p@) == rectangle(left as int, right as int, bottom as int, top as int),
{
    let p = vec![(left, bottom), (right, bottom), (right, top), (left, top), (left, bottom)];
    assert(path_view(p@) =~= rectangle(left as int, right as int, bottom as int, top as int));
    p
}

/// Lays out the layers of a scene; a scene without a board or a frame has
/// none (the preview then shows only its background).
pub fn scene_layers(scene: &PreviewSceneSnapshot, settings: &Settings) -> (r: Option<SceneLayers>)
    requires
        scene_in_range(*scene, *settings),
    ensures
        r is Some <==> scene.board_bounds is Some && scene.frame_geometry is Some,
        r matches Some(layers) ==> lays_out(*scene, scene.frame_geometry->0, *settings, layers),
{
    let bounds = match &scene.board_bounds {
        Some(b) => *b,
        None => {
            return None;
        },
    };
    let frame = match &scene.frame_geometry {
        Some(f) => *f,
        None => {
            return None;
        },
    };
    let (sx, sy) = settings.local_offset();
    let toolpath = moved_path(&scene.toolpath, sx, sy);
    let rapid_path = moved_path(&scene.rapid_path, sx, sy);
    let material = rectangle_points(
        settings.material_offset_x - settings.material_width,
        settings.material_offset_x,
        settings.material_offset_y,
        settings.material_offset_y + settings.material_height,
    );
    let mx = if settings.material_edge_margin_x < 0 {
        0
    } else {
        settings.material_edge_margin_x
    };
    let my = if settings.material_edge_margin_y < 0 {
        0
    } else {
        settings.material_edge_margin_y
    };
    let safe_area = rectangle_points(
        settings.material_offset_x - settings.material_width + mx,
        settings.material_offset_x - mx,
        settings.material_offset_y + my,
        settings.material_offset_y + settings.material_height - my,
    );
    let expanded = match FrameGeometry::expanded(&bounds, settings) {
        Some(e) => Some(rectangle_points(e.left + sx, e.right + sx, e.bottom + sy, e.top + sy)),
        None => None,
    };
    let outline = rectangle_points(
        frame.left + sx,
        frame.right + sx,
        frame.bottom + sy,
        frame.top + sy,
    );
    let radius = corner_radius_value(&frame, settings);
    let intervals = top_tab_intervals(&frame, radius, settings);
    let ghost segments = tab_segments(frame, *settings, sx as int, sy as int);
    let mut tabs: Vec<((i64, i64), (i64, i64))> = Vec::new();
    let mut i: usize = 0;
    while i < intervals.len()
        invariant
            i <= intervals@.len(),
            intervals@.len() == segments.len(),
            frame.in_range(),
            in_range(sx as int),
            in_range(sy as int),
            0 <= radius <= 1_000_000,
            forall|k: int|
                0 <= k < intervals@.len() ==> edge_left(frame, radius as int) <= (
                #[trigger] intervals@[k]).0 <= intervals@[k].1 <= edge_right(frame, radius as int),
            forall|k: int|
                0 <= k < intervals@.len() ==> ((#[trigger] intervals@[k]).0 + sx, frame.top + sy)
                    == segments[k].0 && (intervals@[k].1 + sx, frame.top + sy) == segments[k].1,
            tabs@.len() == i,
            forall|k: int|
                0 <= k < i ==> (point_view((#[trigger] tabs@[k]).0), point_view(tabs@[k].1))
                    == segments[k],
        decreases intervals@.len() - i,
    {
        let (left, right) = intervals[i];
        tabs.push(((left + sx, frame.top + sy), (right + sx, frame.top + sy)));
        i = i + 1;
    }
    Some(SceneLayers { toolpath, rapid_path, material, safe_area, expanded, outline, tabs })
}

/// The safe area is the sheet inset on every side, left and right by the X
/// edge margin and top and bottom by the Y edge margin (negative margins
/// count as zero).
pub proof fn law_safe_area_is_the_inset_sheet(s: Settings)
    ensures
        ({
            let mx = if s.material_edge_margin_x < 0 {
                0
            } else {
                s.material_edge_margin_x as int
            };
            let my = if s.material_edge_margin_y < 0 {
                0
            } else {
                s.material_edge_margin_y as int
            };
            let sheet = material_outline(s);
            let safe = safe_outline(s);
            &&& sheet.len() == 5 && safe.len() == 5
            &&& sheet[0] == (s.material_offset_x - s.material_width, s.material_offset_y as int)
            &&& sheet[2] == (s.material_offset_x as int, s.material_offset_y + s.material_height)
            &&& safe[0] == (sheet[0].0 + mx, sheet[0].1 + my)
            &&& safe[1] == (sheet[2].0 - mx, sheet[0].1 + my)
            &&& safe[2] == (sheet[2].0 - mx, sheet[2].1 - my)
            &&& safe[3] == (sheet[0].0 + mx, sheet[2].1 - my)
            &&& safe[4] == safe[0]
        }),
{
}

} // verus!
