//! The G-code program that cuts the frame: a rounded rectangle followed in
//! depth passes, with holding tabs on the upper edge.
use vstd::prelude::*;

use crate::domain::frame::{
    at_least_zero, frame_range, tab_intervals, top_tab_intervals, BoardBounds, FrameGeometry,
};
use crate::domain::gcode::point_view;
use crate::domain::settings::Settings;
use crate::number::{
    fixed3_text, in_range, int_text, lemma_fixed3_text_chars, lemma_nat_text_digits, nat_text,
    push_fixed3, push_whole, whole_part, MAX_MAGNITUDE,
};
use crate::text::push_str;

verus! {

broadcast use vstd::string::group_string_axioms;

/// Millionths of a millimetre in one millimetre.
pub const MILLIMETRE: i64 = 1_000_000;

/// Arc segments per rounded corner (15 degrees each).
pub const CORNER_SEGMENTS: i64 = 6;

/// Cosines of 0, 15, ..., 90 degrees, scaled by 10^18.
pub open spec fn quarter_cos(m: int) -> int {
    if m == 0 {
        1_000_000_000_000_000_000
    } else if m == 1 {
        965_925_826_289_068_287
    } else if m == 2 {
        866_025_403_784_438_647
    } else if m == 3 {
        707_106_781_186_547_524
    } else if m == 4 {
        500_000_000_000_000_000
    } else if m == 5 {
        258_819_045_102_520_762
    } else {
        0
    }
}

/// The cosine of `15 * k` degrees, scaled by 10^18.
pub open spec fn cos15(k: int) -> int {
    let m = k % 24;
    if m <= 6 {
        quarter_cos(m)
    } else if m <= 12 {
        -quarter_cos(12 - m)
    } else if m <= 18 {
        -quarter_cos(m - 12)
    } else {
        quarter_cos(24 - m)
    }
}

/// The sine of `15 * k` degrees, scaled by 10^18.
pub open spec fn sin15(k: int) -> int {
    cos15(k - 6)
}

/// A product scaled by 10^18, rounded to the nearest unit, halves away from zero.
pub open spec fn unscale(p: int) -> int {
    if p >= 0 {
        (p + 500_000_000_000_000_000) / 1_000_000_000_000_000_000
    } else {
        -((-p + 500_000_000_000_000_000) / 1_000_000_000_000_000_000)
    }
}

/// The points of a quarter arc around `(cx, cy)` with radius `r`, from angle
/// `15 * start` degrees (exclusive) in six steps of 15 degrees.
pub open spec fn corner_arc(cx: int, cy: int, r: int, start: int) -> Seq<(int, int)> {
    Seq::new(
        6,
        |s: int| (cx + unscale(r * cos15(start + s + 1)), cy + unscale(r * sin15(start + s + 1))),
    )
}

/// The closed outline of the frame with corners rounded to radius `r`,
/// starting on the lower edge and running counter-clockwise.
pub open spec fn rounded_path(f: FrameGeometry, r: int) -> Seq<(int, int)> {
    let (l, rt, b, t) = (f.left as int, f.right as int, f.bottom as int, f.top as int);
    if r == 0 {
        seq![(l, b), (rt, b), (rt, t), (l, t), (l, b)]
    } else {
        seq![(l + r, b), (rt - r, b)] + corner_arc(rt - r, b + r, r, -6) + seq![(rt, t - r)]
            + corner_arc(rt - r, t - r, r, 0) + seq![(l + r, t)] + corner_arc(l + r, t - r, r, 6)
            + seq![(l, b + r)] + corner_arc(l + r, b + r, r, 12)
    }
}

/// The corner radius: half the tool diameter, at most 1 mm and a quarter of
/// the frame's width and height, and not negative.
pub open spec fn corner_radius(f: FrameGeometry, s: Settings) -> int {
    let half = at_least_zero(s.tool_diameter as int) / 2;
    let width = abs(f.right - f.left);
    let height = at_least_zero(f.top - f.bottom);
    let m1 = if half < MILLIMETRE {
        half
    } else {
        MILLIMETRE as int
    };
    let m2 = if m1 < width / 4 {
        m1
    } else {
        width / 4
    };
    if m2 < height / 4 {
        m2
    } else {
        height / 4
    }
}

/// A move to `(x, y)`: `X<x> Y<y>` with three decimals.
pub open spec fn move_text(x: int, y: int) -> Seq<char> {
    "X"@ + fixed3_text(x) + " Y"@ + fixed3_text(y) + "\n"@
}

/// A plunge to `depth` below the surface.
pub open spec fn plunge_text(depth: int) -> Seq<char> {
    "G1 Z-"@ + fixed3_text(depth) + "\n"@
}

/// Crossing the tabs in `ts`, in order, along the upper edge at height `y`,
/// starting at `from`; the text so far and where the tool stands.
pub open spec fn tabs_text(
    from: int,
    ts: Seq<(int, int)>,
    reverse: bool,
    y: int,
    depth: int,
    sx: int,
    sy: int,
) -> (Seq<char>, int)
    decreases ts.len(),
{
    if ts.len() == 0 {
        (Seq::empty(), from)
    } else {
        let (text, cursor) = tabs_text(from, ts.drop_last(), reverse, y, depth, sx, sy);
        let (entry, exit) = if reverse {
            (ts.last().1, ts.last().0)
        } else {
            (ts.last().0, ts.last().1)
        };
        let approach = if entry != cursor {
            move_text(entry + sx, y + sy)
        } else {
            Seq::empty()
        };
        (text + approach + "G0 Z2\n"@ + move_text(exit + sx, y + sy) + "Z0\n"@ + plunge_text(
            depth,
        ), exit)
    }
}

/// The upper edge from `from` to `to` at height `y`: over each tab the tool
/// lifts above the board, crosses it, returns to the surface and plunges
/// back to the pass depth.
pub open spec fn top_edge_text(
    from: int,
    to: int,
    y: int,
    depth: int,
    tabs: Seq<(int, int)>,
    sx: int,
    sy: int,
) -> Seq<char> {
    let reverse = to < from;
    let ordered = if reverse {
        tabs.reverse()
    } else {
        tabs
    };
    let (text, cursor) = tabs_text(from, ordered, reverse, y, depth, sx, sy);
    text + if to != cursor {
        move_text(to + sx, y + sy)
    } else {
        Seq::empty()
    }
}

/// What the program needs to know to cut the frame.
pub struct Job {
    pub path: Seq<(int, int)>,
    pub top: int,
    pub tabs: Seq<(int, int)>,
    pub cut: int,
    pub score_tabs: bool,
    pub sx: int,
    pub sy: int,
}

/// One segment of the outline in a pass at `depth`.
pub open spec fn segment_text(job: Job, from: (int, int), to: (int, int), depth: int) -> Seq<
    char,
> {
    if from.1 == job.top && to.1 == job.top {
        if job.score_tabs && 2 * depth <= job.cut {
            move_text(to.0 + job.sx, to.1 + job.sy)
        } else {
            top_edge_text(from.0, to.0, job.top, depth, job.tabs, job.sx, job.sy)
        }
    } else {
        move_text(to.0 + job.sx, to.1 + job.sy)
    }
}

/// The first `k` segments of the outline in a pass at `depth`.
pub open spec fn segments_text(job: Job, k: int, depth: int) -> Seq<char>
    decreases k,
{
    if k <= 0 {
        Seq::empty()
    } else {
        segments_text(job, k - 1, depth) + segment_text(
            job,
            job.path[k - 1],
            job.path[k],
            depth,
        )
    }
}

/// The depth of pass `p` (from 1): `p` steps, at most the cut depth.
pub open spec fn pass_depth(p: int, step: int, cut: int) -> int {
    if p * step < cut {
        p * step
    } else {
        cut
    }
}

/// Pass `p` (from 1): the plunge (with the feed rate on the first pass),
/// the outline, and a blank line.
pub open spec fn pass_text(job: Job, p: int, step: int, feed: int) -> Seq<char> {
    let depth = pass_depth(p, step, job.cut);
    pass_plunge_text(p, depth, feed) + segments_text(job, job.path.len() - 1, depth) + "\n"@
}

/// The plunge of pass `p`: the first pass also sets the feed rate.
pub open spec fn pass_plunge_text(p: int, depth: int, feed: int) -> Seq<char> {
    if p == 1 {
        "G1 Z-"@ + fixed3_text(depth) + " F"@ + int_text(whole_part(feed)) + "\n"@
    } else {
        plunge_text(depth)
    }
}

/// The first `n` passes.
pub open spec fn passes_text(job: Job, n: int, step: int, feed: int) -> Seq<char>
    decreases n,
{
    if n <= 0 {
        Seq::empty()
    } else {
        passes_text(job, n - 1, step, feed) + pass_text(job, n, step, feed)
    }
}

/// Absolute value.
pub open spec fn abs(v: int) -> int {
    if v < 0 {
        -v
    } else {
        v
    }
}

/// The local translation of the settings.
pub open spec fn shift_of(s: Settings) -> (int, int) {
    if s.local_offset_enabled {
        (s.local_offset_x as int, s.local_offset_y as int)
    } else {
        (0, 0)
    }
}

/// The program that cuts the frame.
///
/// A header selects millimetres, the XY plane and absolute coordinates and
/// starts the spindle; the tool moves rapidly to the start of the rounded
/// outline at a safe height; then, unless the cut or step depth is zero,
/// it follows the outline once per depth pass (`ceil(cut / step)` passes),
/// crossing the holding tabs on the upper edge (only in the lower half of
/// the depth when tabs are scored); finally, whatever the depths, it
/// retracts, returns to the source program's parking position if there is
/// one (the position is preserved on export), stops the spindle and ends. Every position is translated by the local origin when it is enabled.
pub open spec fn frame_gcode(f: FrameGeometry, s: Settings, home: Option<(int, int)>) -> Seq<
    char,
> {
    let (sx, sy) = shift_of(s);
    let r = corner_radius(f, s);
    let path = rounded_path(f, r);
    let job = Job {
        path,
        top: f.top as int,
        tabs: tab_intervals(f, r, s),
        cut: abs(s.cut_depth as int),
        score_tabs: s.score_tabs,
        sx,
        sy,
    };
    let step = abs(s.step_depth as int);
    let start = start_text(path[0].0 + sx, path[0].1 + sy);
    let passes = if job.cut == 0 || step == 0 {
        Seq::empty()
    } else {
        passes_text(job, (job.cut + step - 1) / step, step, s.feed_rate as int)
    };
    header_text(s) + start + passes + ending_text(home, sx, sy)
}

/// Millimetres, the XY plane, absolute coordinates, and the spindle started.
pub open spec fn header_text(s: Settings) -> Seq<char> {
    "G21 G17 G90\n"@ + "M3 S"@ + int_text(whole_part(s.spindle_speed as int)) + "\n"@ + "\n"@
}

/// A rapid move to the start of the outline at a safe height.
pub open spec fn start_text(x: int, y: int) -> Seq<char> {
    "G0 Z5\n"@ + "G0 X"@ + fixed3_text(x) + " Y"@ + fixed3_text(y) + "\n"@ + "\n"@
}

/// Retract, return to the parking position if any, stop the spindle, end.
pub open spec fn ending_text(home: Option<(int, int)>, sx: int, sy: int) -> Seq<char> {
    let park = match home {
        Some(h) => "G0 X"@ + fixed3_text(h.0 + sx) + " Y"@ + fixed3_text(h.1 + sy) + "\n"@,
        None => Seq::empty(),
    };
    "G0 Z5\n"@ + park + "M5\n"@ + "M30\n"@
}

fn quarter_cos_value(m: i128) -> (c: i128)
    requires
        0 <= m <= 6,
    ensures
        c == quarter_cos(m as int),
{
    if m == 0 {
        1_000_000_000_000_000_000
    } else if m == 1 {
        965_925_826_289_068_287
    } else if m == 2 {
        866_025_403_784_438_647
    } else if m == 3 {
        707_106_781_186_547_524
    } else if m == 4 {
        500_000_000_000_000_000
    } else if m == 5 {
        258_819_045_102_520_762
    } else {
        0
    }
}

fn cos15_value(k: i128) -> (c: i128)
    requires
        -100 <= k <= 100,
    ensures
        c == cos15(k as int),
        -1_000_000_000_000_000_000 <= c <= 1_000_000_000_000_000_000,
{
    let m = if k >= 0 {
        k % 24
    } else {
        let r = (-k) % 24;
        if r == 0 {
            0
        } else {
            24 - r
        }
    };
    assert(m == k as int % 24);
    if m <= 6 {
        quarter_cos_value(m)
    } else if m <= 12 {
        -quarter_cos_value(12 - m)
    } else if m <= 18 {
        -quarter_cos_value(m - 12)
    } else {
        quarter_cos_value(24 - m)
    }
}

fn unscale_value(p: i128) -> (r: i128)
    requires
        -1_000_000_000_000_000_000_000_000 <= p <= 1_000_000_000_000_000_000_000_000,
    ensures
        r == unscale(p as int),
{
    if p >= 0 {
        (p + 500_000_000_000_000_000) / 1_000_000_000_000_000_000
    } else {
        -((-p + 500_000_000_000_000_000) / 1_000_000_000_000_000_000)
    }
}

proof fn lemma_unscale_bound(r: int, c: int)
    requires
        0 <= r <= 1_000_000,
        -1_000_000_000_000_000_000 <= c <= 1_000_000_000_000_000_000,
    ensures
        -r <= unscale(r * c) <= r,
{
    assert(-r * 1_000_000_000_000_000_000 <= r * c <= r * 1_000_000_000_000_000_000)
        by (nonlinear_arith)
        requires
            0 <= r,
            -1_000_000_000_000_000_000 <= c <= 1_000_000_000_000_000_000,
    ;
    let p = r * c;
    if p >= 0 {
        assert((p + 500_000_000_000_000_000) / 1_000_000_000_000_000_000 <= r) by (nonlinear_arith)
            requires
                0 <= p <= r * 1_000_000_000_000_000_000,
                0 <= r,
        ;
    } else {
        assert((-p + 500_000_000_000_000_000) / 1_000_000_000_000_000_000 <= r) by (nonlinear_arith)
            requires
                0 < -p <= r * 1_000_000_000_000_000_000,
                0 <= r,
        ;
    }
}

proof fn lemma_cos15_bound(k: int)
    ensures
        -1_000_000_000_000_000_000 <= cos15(k) <= 1_000_000_000_000_000_000,
{
}

/// Every point of the rounded outline of an in-range frame stays within
/// twice the corner radius of the in-range coordinates.
pub proof fn lemma_rounded_path_bounds(f: FrameGeometry, r: int)
    requires
        0 <= r <= MILLIMETRE,
        f.in_range(),
    ensures
        rounded_path(f, r).len() >= 2,
        forall|i: int|
            0 <= i < rounded_path(f, r).len() ==> -3 * MAX_MAGNITUDE - 2 * r <= (
            #[trigger] rounded_path(f, r)[i]).0 <= 3 * MAX_MAGNITUDE + 2 * r && -3 * MAX_MAGNITUDE
                - 2 * r <= rounded_path(f, r)[i].1 <= 3 * MAX_MAGNITUDE + 2 * r,
{
    assert forall|cx: int, cy: int, st: int, j: int| 0 <= j < 6 implies cx - r <= (
    #[trigger] corner_arc(cx, cy, r, st)[j]).0 <= cx + r && cy - r <= corner_arc(cx, cy, r, st)[j].1
        <= cy + r by {
        lemma_cos15_bound(st + j + 1);
        lemma_cos15_bound(st + j + 1 - 6);
        lemma_unscale_bound(r, cos15(st + j + 1));
        lemma_unscale_bound(r, sin15(st + j + 1));
    }
    let p = rounded_path(f, r);
    if r != 0 {
        let (l, rt, b, t) = (f.left as int, f.right as int, f.bottom as int, f.top as int);
        let a1 = corner_arc(rt - r, b + r, r, -6);
        let a2 = corner_arc(rt - r, t - r, r, 0);
        let a3 = corner_arc(l + r, t - r, r, 6);
        let a4 = corner_arc(l + r, b + r, r, 12);
        assert forall|i: int| 0 <= i < p.len() implies -3 * MAX_MAGNITUDE - 2 * r <= (
        #[trigger] p[i]).0 <= 3 * MAX_MAGNITUDE + 2 * r && -3 * MAX_MAGNITUDE - 2 * r <= p[i].1
            <= 3 * MAX_MAGNITUDE + 2 * r by {
            if 2 <= i < 8 {
                assert(p[i] == a1[i - 2]);
            } else if 9 <= i < 15 {
                assert(p[i] == a2[i - 9]);
            } else if 16 <= i < 22 {
                assert(p[i] == a3[i - 16]);
            } else if 23 <= i < 29 {
                assert(p[i] == a4[i - 23]);
            }
        }
    }
}

/// The point at `15 * k` degrees on the circle around `(cx, cy)` of radius `r`.
fn arc_point(cx: i64, cy: i64, r: i64, k: i64) -> (p: (i64, i64))
    requires
        -12 <= k <= 24,
        0 < r <= MILLIMETRE,
        -4 * MAX_MAGNITUDE <= cx <= 4 * MAX_MAGNITUDE,
        -4 * MAX_MAGNITUDE <= cy <= 4 * MAX_MAGNITUDE,
    ensures
        p.0 == cx + unscale(r * cos15(k as int)),
        p.1 == cy + unscale(r * sin15(k as int)),
{
    let c = cos15_value(k as i128);
    let sn = cos15_value(k as i128 - 6);
    let rr = r as i128;
    assert(-1_000_000_000_000_000_000_000_000 <= rr * c <= 1_000_000_000_000_000_000_000_000)
        by (nonlinear_arith)
        requires
            0 < rr <= 1_000_000,
            -1_000_000_000_000_000_000 <= c <= 1_000_000_000_000_000_000,
    ;
    assert(-1_000_000_000_000_000_000_000_000 <= rr * sn <= 1_000_000_000_000_000_000_000_000)
        by (nonlinear_arith)
        requires
            0 < rr <= 1_000_000,
            -1_000_000_000_000_000_000 <= sn <= 1_000_000_000_000_000_000,
    ;
    let dx = unscale_value(rr * c);
    let dy = unscale_value(rr * sn);
    proof {
        lemma_unscale_bound(r as int, c as int);
        lemma_unscale_bound(r as int, sn as int);
    }
    ((cx as i128 + dx) as i64, (cy as i128 + dy) as i64)
}

/// Appends the six points of a quarter arc (see `corner_arc`).
fn append_arc(path: &mut Vec<(i64, i64)>, cx: i64, cy: i64, r: i64, start: i64)
    requires
        -12 <= start <= 12,
        0 < r <= MILLIMETRE,
        -4 * MAX_MAGNITUDE <= cx <= 4 * MAX_MAGNITUDE,
        -4 * MAX_MAGNITUDE <= cy <= 4 * MAX_MAGNITUDE,
    ensures
        final(path)@.map_values(|p: (i64, i64)| point_view(p)) == old(
            path,
        )@.map_values(|p: (i64, i64)| point_view(p)) + corner_arc(
            cx as int,
            cy as int,
            r as int,
            start as int,
        ),
{
    let ghost before = path@.map_values(|p: (i64, i64)| point_view(p));
    let ghost arc = corner_arc(cx as int, cy as int, r as int, start as int);
    let mut s: i64 = 0;
    while s < 6
        invariant
            0 <= s <= 6,
            -12 <= start <= 12,
            0 < r <= MILLIMETRE,
            -4 * MAX_MAGNITUDE <= cx <= 4 * MAX_MAGNITUDE,
            -4 * MAX_MAGNITUDE <= cy <= 4 * MAX_MAGNITUDE,
            arc == corner_arc(cx as int, cy as int, r as int, start as int),
            path@.map_values(|p: (i64, i64)| point_view(p)) == before + arc.take(s as int),
        decreases 6 - s,
    {
        let point = arc_point(cx, cy, r, start + s + 1);
        let ghost old_path = path@;
        path.push(point);
        proof {
            let f = |p: (i64, i64)| point_view(p);
            let k = start + s + 1;
            assert(arc[s as int] == (cx + unscale(r * cos15(k)), cy + unscale(r * sin15(k))));
            assert(point.0 == cx + unscale(r * cos15(k)));
            assert(arc[s as int] == (point.0 as int, point.1 as int));
            assert(path@.map_values(f) =~= old_path.map_values(f).push(
                (point.0 as int, point.1 as int),
            ));
            assert(arc.take(s + 1) =~= arc.take(s as int).push(arc[s as int]));
        }
        s = s + 1;
    }
    assert(arc.take(6) =~= arc);
}

/// The closed outline of the frame with rounded corners (see `rounded_path`).
fn rounded_rectangle_path(frame: &FrameGeometry, radius: i64) -> (path: Vec<(i64, i64)>)
    requires
        frame.in_range(),
        0 <= radius <= MILLIMETRE,
    ensures
        path@.map_values(|p: (i64, i64)| point_view(p)) == rounded_path(
            *frame,
            radius as int,
        ),
{
    let ghost f = |p: (i64, i64)| point_view(p);
    if radius == 0 {
        let path = vec![
            (frame.left, frame.bottom),
            (frame.right, frame.bottom),
            (frame.right, frame.top),
            (frame.left, frame.top),
            (frame.left, frame.bottom),
        ];
        assert(path@.map_values(f) =~= rounded_path(*frame, 0));
        return path;
    }
    let l = frame.left;
    let rt = frame.right;
    let b = frame.bottom;
    let t = frame.top;
    let r = radius;
    let ghost (li, ri, bi, ti, rr) = (l as int, rt as int, b as int, t as int, r as int);
    let mut path: Vec<(i64, i64)> = Vec::new();
    path.push((l + r, b));
    path.push((rt - r, b));
    assert(path@.map_values(f) =~= seq![(li + rr, bi), (ri - rr, bi)]);
    append_arc(&mut path, rt - r, b + r, r, -6);
    let ghost p1 = path@.map_values(f);
    path.push((rt, t - r));
    assert(path@.map_values(f) =~= p1.push((ri, ti - rr)));
    append_arc(&mut path, rt - r, t - r, r, 0);
    let ghost p2 = path@.map_values(f);
    path.push((l + r, t));
    assert(path@.map_values(f) =~= p2.push((li + rr, ti)));
    append_arc(&mut path, l + r, t - r, r, 6);
    let ghost p3 = path@.map_values(f);
    path.push((l, b + r));
    assert(path@.map_values(f) =~= p3.push((li, bi + rr)));
    append_arc(&mut path, l + r, b + r, r, 12);
    assert(path@.map_values(f) =~= rounded_path(*frame, r as int));
    path
}

/// The job of exec values.
pub open spec fn job_of(
    path: Seq<(i64, i64)>,
    top: i64,
    tabs: Seq<(i64, i64)>,
    cut: i64,
    score_tabs: bool,
    sx: i64,
    sy: i64,
) -> Job {
    Job {
        path: path.map_values(|p: (i64, i64)| point_view(p)),
        top: top as int,
        tabs: tabs.map_values(|p: (i64, i64)| point_view(p)),
        cut: cut as int,
        score_tabs,
        sx: sx as int,
        sy: sy as int,
    }
}

/// Appends a move to `(x + sx, y + sy)`.
fn push_move(out: &mut String, x: i64, y: i64, sx: i64, sy: i64)
    requires
        -3 * MAX_MAGNITUDE - 4 * MILLIMETRE <= x <= 3 * MAX_MAGNITUDE + 4 * MILLIMETRE,
        -3 * MAX_MAGNITUDE - 4 * MILLIMETRE <= y <= 3 * MAX_MAGNITUDE + 4 * MILLIMETRE,
        in_range(sx as int),
        in_range(sy as int),
    ensures
        final(out)@ == old(out)@ + move_text(x + sx, y + sy),
{
    let ghost before = out@;
    push_str(out, "X");
    push_fixed3(out, x + sx);
    push_str(out, " Y");
    push_fixed3(out, y + sy);
    push_str(out, "\n");
    assert(out@ =~= before + move_text(x + sx, y + sy));
}

/// Appends a plunge to `depth`.
fn push_plunge(out: &mut String, depth: i64)
    ensures
        final(out)@ == old(out)@ + plunge_text(depth as int),
{
    let ghost before = out@;
    push_str(out, "G1 Z-");
    push_fixed3(out, depth);
    push_str(out, "\n");
    assert(out@ =~= before + plunge_text(depth as int));
}

proof fn lemma_reverse_index(s: Seq<(int, int)>, i: int)
    requires
        0 <= i < s.len(),
    ensures
        s.reverse()[i] == s[s.len() - 1 - i],
{
}

/// The text of crossing one tab from `cursor`: approach the entry unless
/// the tool stands there, lift, cross to the exit, return and plunge.
pub open spec fn crossing_text(
    cursor: int,
    entry: int,
    exit: int,
    y: int,
    depth: int,
    sx: int,
    sy: int,
) -> Seq<char> {
    (if entry != cursor {
        move_text(entry + sx, y + sy)
    } else {
        Seq::empty()
    }) + "G0 Z2\n"@ + move_text(exit + sx, y + sy) + "Z0\n"@ + plunge_text(depth)
}

fn push_crossing(
    gcode: &mut String,
    cursor: i64,
    entry: i64,
    exit: i64,
    y: i64,
    depth: i64,
    sx: i64,
    sy: i64,
)
    requires
        -3 * MAX_MAGNITUDE - 4 * MILLIMETRE <= entry <= 3 * MAX_MAGNITUDE + 4 * MILLIMETRE,
        -3 * MAX_MAGNITUDE - 4 * MILLIMETRE <= exit <= 3 * MAX_MAGNITUDE + 4 * MILLIMETRE,
        -3 * MAX_MAGNITUDE - 4 * MILLIMETRE <= y <= 3 * MAX_MAGNITUDE + 4 * MILLIMETRE,
        in_range(sx as int),
        in_range(sy as int),
    ensures
        final(gcode)@ == old(gcode)@ + crossing_text(
            cursor as int,
            entry as int,
            exit as int,
            y as int,
            depth as int,
            sx as int,
            sy as int,
        ),
{
    let ghost before = gcode@;
    if entry != cursor {
        push_move(gcode, entry, y, sx, sy);
    }
    push_str(gcode, "G0 Z2\n");
    push_move(gcode, exit, y, sx, sy);
    push_str(gcode, "Z0\n");
    push_plunge(gcode, depth);
    assert(gcode@ =~= before + crossing_text(
        cursor as int,
        entry as int,
        exit as int,
        y as int,
        depth as int,
        sx as int,
        sy as int,
    ));
}

proof fn lemma_tabs_text_step(
    from: int,
    ts: Seq<(int, int)>,
    i: int,
    reverse: bool,
    y: int,
    depth: int,
    sx: int,
    sy: int,
)
    requires
        0 <= i < ts.len(),
    ensures
        ({
            let prev = tabs_text(from, ts.take(i), reverse, y, depth, sx, sy);
            let (entry, exit) = if reverse {
                (ts[i].1, ts[i].0)
            } else {
                (ts[i].0, ts[i].1)
            };
            tabs_text(from, ts.take(i + 1), reverse, y, depth, sx, sy) == (prev.0 + crossing_text(
                prev.1,
                entry,
                exit,
                y,
                depth,
                sx,
                sy,
            ), exit)
        }),
{
    assert(ts.take(i + 1).drop_last() =~= ts.take(i));
    assert(ts.take(i + 1).last() == ts[i]);
    let prev = tabs_text(from, ts.take(i), reverse, y, depth, sx, sy);
    let (entry, exit) = if reverse {
        (ts[i].1, ts[i].0)
    } else {
        (ts[i].0, ts[i].1)
    };
    let approach = if entry != prev.1 {
        move_text(entry + sx, y + sy)
    } else {
        Seq::empty()
    };
    assert(prev.0 + approach + "G0 Z2\n"@ + move_text(exit + sx, y + sy) + "Z0\n"@ + plunge_text(
        depth,
    ) =~= prev.0 + crossing_text(prev.1, entry, exit, y, depth, sx, sy));
}

/// Appends the upper edge from `from_x` to `to_x` at height `y`, crossing
/// the tabs (see `top_edge_text`).
fn append_top_edge_with_tabs(
    gcode: &mut String,
    from_x: i64,
    to_x: i64,
    y: i64,
    depth: i64,
    tabs: &Vec<(i64, i64)>,
    shift_x: i64,
    shift_y: i64,
)
    requires
        -3 * MAX_MAGNITUDE - 4 * MILLIMETRE <= from_x <= 3 * MAX_MAGNITUDE + 4 * MILLIMETRE,
        -3 * MAX_MAGNITUDE - 4 * MILLIMETRE <= to_x <= 3 * MAX_MAGNITUDE + 4 * MILLIMETRE,
        -3 * MAX_MAGNITUDE - 4 * MILLIMETRE <= y <= 3 * MAX_MAGNITUDE + 4 * MILLIMETRE,
        forall|i: int|
            0 <= i < tabs@.len() ==> -3 * MAX_MAGNITUDE - 4 * MILLIMETRE <= (#[trigger] tabs@[i]).0
                <= 3 * MAX_MAGNITUDE + 4 * MILLIMETRE && -3 * MAX_MAGNITUDE - 4 * MILLIMETRE
                <= tabs@[i].1 <= 3 * MAX_MAGNITUDE + 4 * MILLIMETRE,
        in_range(shift_x as int),
        in_range(shift_y as int),
    ensures
        final(gcode)@ == old(gcode)@ + top_edge_text(
            from_x as int,
            to_x as int,
            y as int,
            depth as int,
            tabs@.map_values(|p: (i64, i64)| point_view(p)),
            shift_x as int,
            shift_y as int,
        ),
{
    let ghost before = gcode@;
    let ghost tv = tabs@.map_values(|p: (i64, i64)| point_view(p));
    let reverse = to_x < from_x;
    let ghost ordered = if reverse {
        tv.reverse()
    } else {
        tv
    };
    let n = tabs.len();
    let mut cursor_x = from_x;
    let mut i: usize = 0;
    while i < n
        invariant
            i <= n == tabs@.len() == ordered.len(),
            tv == tabs@.map_values(|p: (i64, i64)| point_view(p)),
            ordered == if reverse {
                tv.reverse()
            } else {
                tv
            },
            forall|j: int|
                0 <= j < tabs@.len() ==> -3 * MAX_MAGNITUDE - 4 * MILLIMETRE <= (
                #[trigger] tabs@[j]).0 <= 3 * MAX_MAGNITUDE + 4 * MILLIMETRE && -3 * MAX_MAGNITUDE
                    - 4 * MILLIMETRE <= tabs@[j].1 <= 3 * MAX_MAGNITUDE + 4 * MILLIMETRE,
            -3 * MAX_MAGNITUDE - 4 * MILLIMETRE <= y <= 3 * MAX_MAGNITUDE + 4 * MILLIMETRE,
            in_range(shift_x as int),
            in_range(shift_y as int),
            gcode@ == before + tabs_text(
                from_x as int,
                ordered.take(i as int),
                reverse,
                y as int,
                depth as int,
                shift_x as int,
                shift_y as int,
            ).0,
            cursor_x == tabs_text(
                from_x as int,
                ordered.take(i as int),
                reverse,
                y as int,
                depth as int,
                shift_x as int,
                shift_y as int,
            ).1,
        decreases n - i,
    {
        let (left, right) = if reverse {
            tabs[n - 1 - i]
        } else {
            tabs[i]
        };
        proof {
            if reverse {
                lemma_reverse_index(tv, i as int);
                assert(tv[n - 1 - i] == point_view(tabs@[n - 1 - i]));
            } else {
                assert(tv[i as int] == point_view(tabs@[i as int]));
            }
            assert(ordered[i as int] == (left as int, right as int));
            lemma_tabs_text_step(
                from_x as int,
                ordered,
                i as int,
                reverse,
                y as int,
                depth as int,
                shift_x as int,
                shift_y as int,
            );
        }
        let (entry, exit) = if reverse {
            (right, left)
        } else {
            (left, right)
        };
        push_crossing(gcode, cursor_x, entry, exit, y, depth, shift_x, shift_y);
        cursor_x = exit;
        i = i + 1;
    }
    proof {
        assert(ordered.take(n as int) =~= ordered);
    }
    let ghost mid = gcode@;
    if to_x != cursor_x {
        push_move(gcode, to_x, y, shift_x, shift_y);
    }
    assert(gcode@ =~= before + top_edge_text(
        from_x as int,
        to_x as int,
        y as int,
        depth as int,
        tv,
        shift_x as int,
        shift_y as int,
    ));
}

/// Bounds on what a pass reads.
pub open spec fn pass_inputs_ok(path: Seq<(i64, i64)>, tabs: Seq<(i64, i64)>, top: i64) -> bool {
    &&& path.len() >= 1
    &&& forall|i: int|
        0 <= i < path.len() ==> -3 * MAX_MAGNITUDE - 4 * MILLIMETRE <= (#[trigger] path[i]).0 <= 3
            * MAX_MAGNITUDE + 4 * MILLIMETRE && -3 * MAX_MAGNITUDE - 4 * MILLIMETRE <= path[i].1 <= 3
            * MAX_MAGNITUDE + 4 * MILLIMETRE
    &&& forall|i: int|
        0 <= i < tabs.len() ==> -3 * MAX_MAGNITUDE - 4 * MILLIMETRE <= (#[trigger] tabs[i]).0 <= 3
            * MAX_MAGNITUDE + 4 * MILLIMETRE && -3 * MAX_MAGNITUDE - 4 * MILLIMETRE <= tabs[i].1 <= 3
            * MAX_MAGNITUDE + 4 * MILLIMETRE
    &&& -3 * MAX_MAGNITUDE - 4 * MILLIMETRE <= top <= 3 * MAX_MAGNITUDE + 4 * MILLIMETRE
}

/// Appends the outline of one pass at `depth`.
fn push_segments(
    gcode: &mut String,
    path: &Vec<(i64, i64)>,
    tabs: &Vec<(i64, i64)>,
    top: i64,
    cut: i64,
    score_tabs: bool,
    depth: i64,
    sx: i64,
    sy: i64,
)
    requires
        pass_inputs_ok(path@, tabs@, top),
        in_range(sx as int),
        in_range(sy as int),
        0 <= depth <= MAX_MAGNITUDE,
        0 <= cut <= MAX_MAGNITUDE,
    ensures
        final(gcode)@ == old(gcode)@ + segments_text(
            job_of(path@, top, tabs@, cut, score_tabs, sx, sy),
            path@.len() - 1,
            depth as int,
        ),
{
    let ghost job = job_of(path@, top, tabs@, cut, score_tabs, sx, sy);
    let ghost before = gcode@;
    let mut k: usize = 0;
    let last = path.len() - 1;
    while k < last
        invariant
            k <= last,
            last == path@.len() - 1,
            job == job_of(path@, top, tabs@, cut, score_tabs, sx, sy),
            pass_inputs_ok(path@, tabs@, top),
            in_range(sx as int),
            in_range(sy as int),
            0 <= depth <= MAX_MAGNITUDE,
            0 <= cut <= MAX_MAGNITUDE,
            gcode@ == before + segments_text(job, k as int, depth as int),
        decreases path@.len() - k,
    {
        let (from_x, from_y) = path[k];
        let (to_x, to_y) = path[k + 1];
        proof {
            assert(job.path[k as int] == (from_x as int, from_y as int));
            assert(job.path[k + 1] == (to_x as int, to_y as int));
        }
        let ghost mid = gcode@;
        if from_y == top && to_y == top {
            if score_tabs && 2 * (depth as i128) <= cut as i128 {
                push_move(gcode, to_x, to_y, sx, sy);
            } else {
                append_top_edge_with_tabs(gcode, from_x, to_x, top, depth, tabs, sx, sy);
            }
        } else {
            push_move(gcode, to_x, to_y, sx, sy);
        }
        proof {
            assert(gcode@ == mid + segment_text(
                job,
                job.path[k as int],
                job.path[k + 1],
                depth as int,
            ));
            assert(segments_text(job, k + 1, depth as int) == segments_text(job, k as int, depth as int)
                + segment_text(job, job.path[k as int], job.path[k + 1], depth as int));
            assert(gcode@ =~= before + segments_text(job, k + 1, depth as int));
        }
        k = k + 1;
    }
}

fn push_pass_plunge(gcode: &mut String, p: i64, depth: i64, feed: i64)
    ensures
        final(gcode)@ == old(gcode)@ + pass_plunge_text(p as int, depth as int, feed as int),
{
    let ghost before = gcode@;
    if p == 1 {
        push_str(gcode, "G1 Z-");
        push_fixed3(gcode, depth);
        push_str(gcode, " F");
        push_whole(gcode, feed);
        push_str(gcode, "\n");
        assert(gcode@ =~= before + pass_plunge_text(p as int, depth as int, feed as int));
    } else {
        push_plunge(gcode, depth);
    }
}

/// Appends pass `p`.
fn push_pass(
    gcode: &mut String,
    path: &Vec<(i64, i64)>,
    tabs: &Vec<(i64, i64)>,
    top: i64,
    cut: i64,
    score_tabs: bool,
    p: i64,
    step: i64,
    feed: i64,
    sx: i64,
    sy: i64,
)
    requires
        pass_inputs_ok(path@, tabs@, top),
        in_range(sx as int),
        in_range(sy as int),
        1 <= p <= MAX_MAGNITUDE,
        0 < step <= MAX_MAGNITUDE,
        0 < cut <= MAX_MAGNITUDE,
    ensures
        final(gcode)@ == old(gcode)@ + pass_text(
            job_of(path@, top, tabs@, cut, score_tabs, sx, sy),
            p as int,
            step as int,
            feed as int,
        ),
{
    let ghost before = gcode@;
    assert(p as i128 * step as i128 <= 1_000_000_000_000_000_000_000_000_000_000_000_000)
        by (nonlinear_arith)
        requires
            1 <= p <= MAX_MAGNITUDE,
            0 < step <= MAX_MAGNITUDE,
    ;
    let product: i128 = p as i128 * step as i128;
    let depth: i64 = if product < cut as i128 {
        product as i64
    } else {
        cut
    };
    assert(depth == pass_depth(p as int, step as int, cut as int));
    push_pass_plunge(gcode, p, depth, feed);
    let ghost mid = gcode@;
    push_segments(gcode, path, tabs, top, cut, score_tabs, depth, sx, sy);
    let ghost mid2 = gcode@;
    push_str(gcode, "\n");
    let ghost job = job_of(path@, top, tabs@, cut, score_tabs, sx, sy);
    assert(mid2 == before + pass_plunge_text(p as int, depth as int, feed as int) + segments_text(
        job,
        job.path.len() - 1,
        depth as int,
    ));
    assert(gcode@ =~= before + pass_text(job, p as int, step as int, feed as int));
}

/// The corner radius of the frame (see `corner_radius`).
pub(crate) fn corner_radius_value(frame: &FrameGeometry, settings: &Settings) -> (r: i64)
    requires
        frame.in_range(),
    ensures
        r == corner_radius(*frame, *settings),
        0 <= r <= MILLIMETRE,
{
    let half: i64 = if settings.tool_diameter < 0 {
        0
    } else {
        settings.tool_diameter / 2
    };
    let width: i64 = if frame.right >= frame.left {
        frame.right - frame.left
    } else {
        frame.left - frame.right
    };
    let height: i64 = if frame.top < frame.bottom {
        0
    } else {
        frame.top - frame.bottom
    };
    let m1 = if half < MILLIMETRE {
        half
    } else {
        MILLIMETRE
    };
    let m2 = if m1 < width / 4 {
        m1
    } else {
        width / 4
    };
    if m2 < height / 4 {
        m2
    } else {
        height / 4
    }
}

fn push_header(gcode: &mut String, settings: &Settings)
    ensures
        final(gcode)@ == old(gcode)@ + header_text(*settings),
{
    let ghost before = gcode@;
    push_str(gcode, "G21 G17 G90\n");
    push_str(gcode, "M3 S");
    push_whole(gcode, settings.spindle_speed);
    push_str(gcode, "\n");
    push_str(gcode, "\n");
    assert(gcode@ =~= before + header_text(*settings));
}

fn push_start(gcode: &mut String, x: i64, y: i64)
    ensures
        final(gcode)@ == old(gcode)@ + start_text(x as int, y as int),
{
    let ghost before = gcode@;
    push_str(gcode, "G0 Z5\n");
    push_str(gcode, "G0 X");
    push_fixed3(gcode, x);
    push_str(gcode, " Y");
    push_fixed3(gcode, y);
    push_str(gcode, "\n");
    push_str(gcode, "\n");
    assert(gcode@ =~= before + start_text(x as int, y as int));
}

fn push_ending(gcode: &mut String, home: Option<(i64, i64)>, sx: i64, sy: i64)
    requires
        home matches Some(h) ==> in_range(h.0 as int) && in_range(h.1 as int),
        in_range(sx as int),
        in_range(sy as int),
    ensures
        final(gcode)@ == old(gcode)@ + ending_text(
            match home {
                Some(h) => Some(point_view(h)),
                None => None,
            },
            sx as int,
            sy as int,
        ),
{
    let ghost before = gcode@;
    push_str(gcode, "G0 Z5\n");
    if let Some((home_x, home_y)) = home {
        push_str(gcode, "G0 X");
        push_fixed3(gcode, home_x + sx);
        push_str(gcode, " Y");
        push_fixed3(gcode, home_y + sy);
        push_str(gcode, "\n");
    }
    push_str(gcode, "M5\n");
    push_str(gcode, "M30\n");
    assert(gcode@ =~= before + ending_text(
        match home {
            Some(h) => Some(point_view(h)),
            None => None,
        },
        sx as int,
        sy as int,
    ));
}

/// Appends the depth passes.
fn push_passes(
    gcode: &mut String,
    path: &Vec<(i64, i64)>,
    tabs: &Vec<(i64, i64)>,
    top: i64,
    cut: i64,
    score_tabs: bool,
    step: i64,
    feed: i64,
    sx: i64,
    sy: i64,
)
    requires
        pass_inputs_ok(path@, tabs@, top),
        in_range(sx as int),
        in_range(sy as int),
        0 < step <= MAX_MAGNITUDE,
        0 < cut <= MAX_MAGNITUDE,
    ensures
        final(gcode)@ == old(gcode)@ + passes_text(
            job_of(path@, top, tabs@, cut, score_tabs, sx, sy),
            (cut + step - 1) / step as int,
            step as int,
            feed as int,
        ),
{
    let ghost job = job_of(path@, top, tabs@, cut, score_tabs, sx, sy);
    let passes: i64 = (cut + step - 1) / step;
    assert(passes <= MAX_MAGNITUDE) by (nonlinear_arith)
        requires
            passes as int == (cut + step - 1) as int / step as int,
            0 < cut <= MAX_MAGNITUDE,
            0 < step,
    ;
    let ghost prefix = gcode@;
    let mut p: i64 = 1;
    while p <= passes
        invariant
            1 <= p <= passes + 1,
            passes <= MAX_MAGNITUDE,
            0 < step <= MAX_MAGNITUDE,
            0 < cut <= MAX_MAGNITUDE,
            pass_inputs_ok(path@, tabs@, top),
            in_range(sx as int),
            in_range(sy as int),
            job == job_of(path@, top, tabs@, cut, score_tabs, sx, sy),
            gcode@ == prefix + passes_text(job, p - 1, step as int, feed as int),
        decreases passes + 1 - p,
    {
        push_pass(gcode, path, tabs, top, cut, score_tabs, p, step, feed, sx, sy);
        assert(gcode@ =~= prefix + passes_text(job, p as int, step as int, feed as int));
        p = p + 1;
    }
}

/// Generate G-code for the frame cutting operation (see `frame_gcode`).
pub fn generate_frame_gcode(
    _bounds: &BoardBounds,
    frame: &FrameGeometry,
    settings: &Settings,
    source_home: Option<(i64, i64)>,
) -> (gcode: String)
    requires
        frame.in_range(),
        in_range(settings.local_offset_x as int),
        in_range(settings.local_offset_y as int),
        in_range(settings.cut_depth as int),
        in_range(settings.step_depth as int),
        in_range(settings.tab_width as int),
        in_range(settings.maximum_tab_gap as int),
        source_home matches Some(h) ==> in_range(h.0 as int) && in_range(h.1 as int),
    ensures
        gcode@ == frame_gcode(
            *frame,
            *settings,
            match source_home {
                Some(h) => Some(point_view(h)),
                None => None,
            },
        ),
{
    let mut gcode = String::new();
    let (shift_x, shift_y) = settings.local_offset();
    push_header(&mut gcode, settings);
    let radius = corner_radius_value(frame, settings);
    let path = rounded_rectangle_path(frame, radius);
    let tabs = top_tab_intervals(frame, radius, settings);
    proof {
        lemma_rounded_path_bounds(*frame, radius as int);
        let pv = path@.map_values(|p: (i64, i64)| point_view(p));
        assert forall|i: int| 0 <= i < path@.len() implies -3 * MAX_MAGNITUDE - 4 * MILLIMETRE <= (
        #[trigger] path@[i]).0 <= 3 * MAX_MAGNITUDE + 4 * MILLIMETRE && -3 * MAX_MAGNITUDE - 4
            * MILLIMETRE <= path@[i].1 <= 3 * MAX_MAGNITUDE + 4 * MILLIMETRE by {
            assert(pv[i] == point_view(path@[i]));
        }
        assert(pass_inputs_ok(path@, tabs@, frame.top));
    }
    let (start_x, start_y) = path[0];
    proof {
        assert(path@.map_values(|p: (i64, i64)| point_view(p))[0] == point_view(path@[0]));
    }
    push_start(&mut gcode, start_x + shift_x, start_y + shift_y);
    let cut: i64 = if settings.cut_depth < 0 {
        -settings.cut_depth
    } else {
        settings.cut_depth
    };
    let step: i64 = if settings.step_depth < 0 {
        -settings.step_depth
    } else {
        settings.step_depth
    };
    let ghost home = match source_home {
        Some(h) => Some(point_view(h)),
        None => None,
    };
    let ghost job = job_of(path@, frame.top, tabs@, cut, settings.score_tabs, shift_x, shift_y);
    proof {
        assert(job.path == rounded_path(*frame, corner_radius(*frame, *settings)));
        assert(job.tabs =~= tab_intervals(*frame, corner_radius(*frame, *settings), *settings));
    }
    if cut == 0 || step == 0 {
        push_ending(&mut gcode, source_home, shift_x, shift_y);
        assert(gcode@ =~= frame_gcode(*frame, *settings, home));
        return gcode;
    }
    push_passes(
        &mut gcode,
        &path,
        &tabs,
        frame.top,
        cut,
        settings.score_tabs,
        step,
        settings.feed_rate,
        shift_x,
        shift_y,
    );
    push_ending(&mut gcode, source_home, shift_x, shift_y);
    assert(gcode@ =~= frame_gcode(*frame, *settings, home));
    gcode
}

/// Why a program could not be saved.
#[derive(Debug)]
pub enum ExportError {
    WriteError(String),
}

impl ExportError {
    /// The text shown for the error.
    pub open spec fn spec_message(&self) -> Seq<char> {
        match self {
            ExportError::WriteError(cause) => "Failed to write G-code file: "@ + cause@,
        }
    }

    /// The text shown for the error.
    pub fn message(&self) -> (m: String)
        ensures
            m@ == self.spec_message(),
    {
        let mut m = String::new();
        match self {
            ExportError::WriteError(cause) => {
                push_str(&mut m, "Failed to write G-code file: ");
                push_str(&mut m, cause.as_str());
            },
        }
        m
    }
}

/// The depth passes reach the cut depth exactly on the last of the
/// `ceil(cut / step)` passes: every earlier pass goes one step deeper than
/// the one before it and stays above the cut depth, and no pass goes below it.
pub proof fn law_passes_reach_the_cut_depth(cut: int, step: int)
    requires
        cut > 0,
        step > 0,
    ensures
        ({
            let n = (cut + step - 1) / step;
            &&& n >= 1
            &&& pass_depth(n, step, cut) == cut
            &&& forall|p: int| 1 <= p < n ==> #[trigger] pass_depth(p, step, cut) == p * step
                && p * step < cut
            &&& forall|p: int, q: int|
                1 <= p < q <= n ==> #[trigger] pass_depth(p, step, cut) < #[trigger] pass_depth(
                    q,
                    step,
                    cut,
                )
            &&& forall|p: int| 1 <= p <= n ==> 0 < #[trigger] pass_depth(p, step, cut) <= cut
        }),
{
    let n = (cut + step - 1) / step;
    let r = (cut + step - 1) % step;
    vstd::arithmetic::div_mod::lemma_fundamental_div_mod(cut + step - 1, step);
    assert(step * n == n * step) by (nonlinear_arith);
    assert((n - 1) * step == n * step - step) by (nonlinear_arith);
    assert(0 <= r < step);
    assert(n * step >= cut);
    assert((n - 1) * step < cut);
    assert(n >= 1) by (nonlinear_arith)
        requires
            n * step >= cut,
            cut > 0,
            step > 0,
    ;
    assert forall|p: int| 1 <= p <= n implies 0 < #[trigger] pass_depth(p, step, cut) <= cut
        && (p < n ==> pass_depth(p, step, cut) == p * step && p * step < cut) by {
        vstd::arithmetic::mul::lemma_mul_strict_inequality(0, p, step);
        if p < n {
            vstd::arithmetic::mul::lemma_mul_inequality(p, n - 1, step);
        }
    }
    assert forall|p: int, q: int| 1 <= p < q <= n implies #[trigger] pass_depth(p, step, cut)
        < #[trigger] pass_depth(q, step, cut) by {
        vstd::arithmetic::mul::lemma_mul_strict_inequality(p, q, step);
        vstd::arithmetic::mul::lemma_mul_inequality(p, n - 1, step);
    }
}

/// The corner radius is never negative and never more than one millimetre,
/// half the tool diameter, or a quarter of the frame's width or height.
pub proof fn law_corner_radius_bounds(f: FrameGeometry, s: Settings)
    ensures
        0 <= corner_radius(f, s) <= MILLIMETRE,
        corner_radius(f, s) <= at_least_zero(s.tool_diameter as int) / 2,
        corner_radius(f, s) <= abs(f.right - f.left) / 4,
        corner_radius(f, s) <= at_least_zero(f.top - f.bottom) / 4,
{
}

/// The rounded outline is closed: it ends where it starts, on the lower
/// edge, one corner radius right of the left side.
pub proof fn law_outline_is_closed(f: FrameGeometry, r: int)
    requires
        r >= 0,
    ensures
        rounded_path(f, r).len() >= 5,
        rounded_path(f, r)[0] == rounded_path(f, r).last(),
        rounded_path(f, r)[0] == (f.left + r, f.bottom as int),
{
    let p = rounded_path(f, r);
    if r != 0 {
        let (l, b, t) = (f.left as int, f.bottom as int, f.top as int);
        let a4 = corner_arc(l + r, b + r, r, 12);
        assert(p.len() == 29);
        assert(p.last() == a4[5]);
        assert(cos15(18) == 0);
        assert(sin15(18) == -1_000_000_000_000_000_000);
        assert(r * 0 == 0) by (nonlinear_arith);
        assert(unscale(r * -1_000_000_000_000_000_000) == -r) by (nonlinear_arith)
            requires
                r > 0,
        ;
    }
}

proof fn lemma_bracketed(g: Seq<char>, head: Seq<char>, mid: Seq<char>, park: Seq<char>)
    requires
        head.len() >= 12,
        head.take(12) == "G21 G17 G90\n"@,
        g == head + mid + ("G0 Z5\n"@ + park + "M5\n"@ + "M30\n"@),
        forall|i: int| 0 <= i < park.len() ==> #[trigger] park[i] != 'Z',
    ensures
        g.len() >= 12,
        g.take(12) == "G21 G17 G90\n"@,
        g.subrange(g.len() - 7, g.len() as int) == "M5\nM30\n"@,
        exists|k: int|
            0 <= k <= g.len() - 13 && #[trigger] g.subrange(k, k + 6) == "G0 Z5\n"@ && forall|
                j: int,
            |
                k + 6 <= j < g.len() ==> #[trigger] g[j] != 'Z',
{
    reveal_strlit("G0 Z5\n");
    reveal_strlit("M5\n");
    reveal_strlit("M30\n");
    reveal_strlit("M5\nM30\n");
    let end = "G0 Z5\n"@ + park + "M5\n"@ + "M30\n"@;
    let before = head + mid;
    let n = g.len() as int;
    let k = before.len() as int;
    let m = end.len() as int;
    assert(m == 13 + park.len());
    assert(g.take(12) =~= head.take(12));
    assert(g.subrange(n - 7, n) =~= "M5\nM30\n"@);
    assert(g.subrange(k, k + 6) =~= "G0 Z5\n"@);
    let rest = park + "M5\n"@ + "M30\n"@;
    assert forall|j: int| k + 6 <= j < n implies #[trigger] g[j] != 'Z' by {
        assert(g[j] == rest[j - k - 6]);
        if j - k - 6 < park.len() {
            assert(rest[j - k - 6] == park[j - k - 6]);
        } else if j - k - 6 < park.len() + 3 {
            assert(rest[j - k - 6] == "M5\n"@[j - k - 6 - park.len()]);
        } else {
            assert(rest[j - k - 6] == "M30\n"@[j - k - 9 - park.len()]);
        }
    }
}

/// The parking move names no `Z`.
proof fn lemma_park_has_no_z(x: int, y: int)
    ensures
        forall|i: int|
            0 <= i < ("G0 X"@ + fixed3_text(x) + " Y"@ + fixed3_text(y) + "\n"@).len() ==> #[trigger] (
            "G0 X"@ + fixed3_text(x) + " Y"@ + fixed3_text(y) + "\n"@)[i] != 'Z',
{
    reveal_strlit("G0 X");
    reveal_strlit(" Y");
    reveal_strlit("\n");
    let a = fixed3_text(x);
    let b = fixed3_text(y);
    let park = "G0 X"@ + a + " Y"@ + b + "\n"@;
    lemma_fixed3_text_chars(x);
    lemma_fixed3_text_chars(y);
    assert forall|i: int| 0 <= i < park.len() implies #[trigger] park[i] != 'Z' by {
        if i < 4 {
            assert(park[i] == "G0 X"@[i]);
        } else if i < 4 + a.len() {
            assert(park[i] == a[i - 4]);
        } else if i < 6 + a.len() {
            assert(park[i] == " Y"@[i - 4 - a.len()]);
        } else if i < 6 + a.len() + b.len() {
            assert(park[i] == b[i - 6 - a.len()]);
        } else {
            assert(park[i] == "\n"@[i - 6 - a.len() - b.len()]);
        }
    }
}

#[verifier::rlimit(40)]
proof fn lemma_frame_gcode_parts(f: FrameGeometry, s: Settings, home: Option<(int, int)>) -> (r: (
    Seq<char>,
    Seq<char>,
))
    ensures
        frame_gcode(f, s, home) == header_text(s) + r.0 + ("G0 Z5\n"@ + r.1 + "M5\n"@
            + "M30\n"@),
        forall|i: int| 0 <= i < r.1.len() ==> #[trigger] r.1[i] != 'Z',
{
    reveal_strlit("G0 Z5\n");
    reveal_strlit("M5\n");
    reveal_strlit("M30\n");
    let (sx, sy) = shift_of(s);
    let r = corner_radius(f, s);
    let path = rounded_path(f, r);
    let start = start_text(path[0].0 + sx, path[0].1 + sy);
    let cut = abs(s.cut_depth as int);
    let step = abs(s.step_depth as int);
    let job = Job {
        path,
        top: f.top as int,
        tabs: tab_intervals(f, r, s),
        cut,
        score_tabs: s.score_tabs,
        sx,
        sy,
    };
    let passes = if cut == 0 || step == 0 {
        Seq::empty()
    } else {
        passes_text(job, (cut + step - 1) / step, step, s.feed_rate as int)
    };
    let park = match home {
        Some(h) => "G0 X"@ + fixed3_text(h.0 + sx) + " Y"@ + fixed3_text(h.1 + sy) + "\n"@,
        None => Seq::empty(),
    };
    assert(frame_gcode(f, s, home) =~= header_text(s) + (start + passes) + ("G0 Z5\n"@ + park
        + "M5\n"@ + "M30\n"@));
    if let Some(h) = home {
        lemma_park_has_no_z(h.0 + sx, h.1 + sy);
    }
    (start + passes, park)
}

/// Every program starts by selecting millimetres, the XY plane and absolute
/// coordinates, and ends by stopping the spindle and the program; before
/// that the tool is raised to the safe height, and no `Z` word follows.
pub proof fn law_program_starts_and_ends_safely(
    f: FrameGeometry,
    s: Settings,
    home: Option<(int, int)>,
)
    ensures
        ({
            let g = frame_gcode(f, s, home);
            let n = g.len() as int;
            &&& n >= 12
            &&& g.take(12) == "G21 G17 G90\n"@
            &&& g.subrange(n - 7, n) == "M5\nM30\n"@
            &&& exists|k: int|
                0 <= k <= n - 13 && #[trigger] g.subrange(k, k + 6) == "G0 Z5\n"@ && forall|
                    j: int,
                |
                    k + 6 <= j < n ==> #[trigger] g[j] != 'Z'
        }),
{
    reveal_strlit("G21 G17 G90\n");
    let head = header_text(s);
    assert(head.take(12) =~= "G21 G17 G90\n"@);
    let (mid, park) = lemma_frame_gcode_parts(f, s, home);
    lemma_bracketed(frame_gcode(f, s, home), head, mid, park);
}

/// The `Z` at position `i` of a pass's text is `Z2` (lifting over a tab),
/// `Z0` (back at the surface) or `Z-<depth>` (the pass depth, with three
/// decimals), ended by a line end or a space.
pub open spec fn z_word_ok(t: Seq<char>, i: int, depth: int) -> bool {
    let f = fixed3_text(depth);
    ||| i + 3 <= t.len() && (t.subrange(i + 1, i + 3) == seq!['2', '\n'] || t.subrange(
        i + 1,
        i + 3,
    ) == seq!['0', '\n'])
    ||| i + 3 + f.len() <= t.len() && t.subrange(i + 1, i + 2 + f.len()) == seq!['-'] + f && (t[i
        + 2 + f.len()] == '\n' || t[i + 2 + f.len()] == ' ')
}

/// Every `Z` word of the text moves to `Z2`, `Z0` or down to `depth`, never
/// below it.
pub open spec fn z_words_at(t: Seq<char>, depth: int) -> bool {
    forall|i: int| 0 <= i < t.len() && #[trigger] t[i] == 'Z' ==> z_word_ok(t, i, depth)
}

proof fn lemma_z_concat(a: Seq<char>, b: Seq<char>, d: int)
    requires
        z_words_at(a, d),
        z_words_at(b, d),
    ensures
        z_words_at(a + b, d),
{
    let t = a + b;
    let f = fixed3_text(d);
    assert forall|i: int| 0 <= i < t.len() && #[trigger] t[i] == 'Z' implies z_word_ok(t, i, d) by {
        if i < a.len() {
            assert(a[i] == 'Z');
            assert(z_word_ok(a, i, d));
            if i + 3 <= a.len() {
                assert(t.subrange(i + 1, i + 3) =~= a.subrange(i + 1, i + 3));
            }
            if i + 3 + f.len() <= a.len() {
                assert(t.subrange(i + 1, i + 2 + f.len()) =~= a.subrange(i + 1, i + 2 + f.len()));
                assert(t[i + 2 + f.len()] == a[i + 2 + f.len()]);
            }
        } else {
            let k = i - a.len();
            assert(b[k] == 'Z');
            assert(z_word_ok(b, k, d));
            if k + 3 <= b.len() {
                assert(t.subrange(i + 1, i + 3) =~= b.subrange(k + 1, k + 3));
            }
            if k + 3 + f.len() <= b.len() {
                assert(t.subrange(i + 1, i + 2 + f.len()) =~= b.subrange(k + 1, k + 2 + f.len()));
                assert(t[i + 2 + f.len()] == b[k + 2 + f.len()]);
            }
        }
    }
}

proof fn lemma_no_z(t: Seq<char>, d: int)
    requires
        forall|i: int| 0 <= i < t.len() ==> #[trigger] t[i] != 'Z',
    ensures
        z_words_at(t, d),
{
}

proof fn lemma_fixed3_no_z(v: int)
    ensures
        forall|i: int| 0 <= i < fixed3_text(v).len() ==> #[trigger] fixed3_text(v)[i] != 'Z',
{
    lemma_fixed3_text_chars(v);
    assert forall|i: int| 0 <= i < fixed3_text(v).len() implies #[trigger] fixed3_text(v)[i]
        != 'Z' by {
        assert('0' <= fixed3_text(v)[i] <= '9' || fixed3_text(v)[i] == '-' || fixed3_text(v)[i]
            == '.');
    }
}

proof fn lemma_move_z(x: int, y: int, d: int)
    ensures
        z_words_at(move_text(x, y), d),
{
    reveal_strlit("X");
    reveal_strlit(" Y");
    reveal_strlit("\n");
    let a = fixed3_text(x);
    let b = fixed3_text(y);
    lemma_fixed3_no_z(x);
    lemma_fixed3_no_z(y);
    let t = move_text(x, y);
    assert forall|i: int| 0 <= i < t.len() implies #[trigger] t[i] != 'Z' by {
        if i < 1 {
        } else if i < 1 + a.len() {
            assert(t[i] == a[i - 1]);
        } else if i < 3 + a.len() {
            assert(t[i] == " Y"@[i - 1 - a.len()]);
        } else if i < 3 + a.len() + b.len() {
            assert(t[i] == b[i - 3 - a.len()]);
        }
    }
    lemma_no_z(t, d);
}

proof fn lemma_lift_z(d: int)
    ensures
        z_words_at("G0 Z2\n"@, d),
        z_words_at("Z0\n"@, d),
{
    reveal_strlit("G0 Z2\n");
    reveal_strlit("Z0\n");
    let a = "G0 Z2\n"@;
    assert(a =~= seq!['G', '0', ' ', 'Z', '2', '\n']);
    assert(a.subrange(4, 6) =~= seq!['2', '\n']);
    let b = "Z0\n"@;
    assert(b =~= seq!['Z', '0', '\n']);
    assert(b.subrange(1, 3) =~= seq!['0', '\n']);
}

/// A plunge, optionally followed by a feed word `F<k>`.
proof fn lemma_plunge_z(d: int, tail: Seq<char>)
    requires
        tail.len() > 0,
        tail[0] == '\n' || tail[0] == ' ',
        forall|i: int| 0 <= i < tail.len() ==> #[trigger] tail[i] != 'Z',
    ensures
        z_words_at("G1 Z-"@ + fixed3_text(d) + tail, d),
{
    reveal_strlit("G1 Z-");
    let f = fixed3_text(d);
    lemma_fixed3_no_z(d);
    let t = "G1 Z-"@ + f + tail;
    assert("G1 Z-"@ =~= seq!['G', '1', ' ', 'Z', '-']);
    assert forall|i: int| 0 <= i < t.len() && #[trigger] t[i] == 'Z' implies z_word_ok(t, i, d) by {
        if i < 5 {
            assert(i == 3);
            assert(t.subrange(4, 5 + f.len() as int) =~= seq!['-'] + f);
            assert(t[5 + f.len() as int] == tail[0]);
        } else if i < 5 + f.len() {
            assert(t[i] == f[i - 5]);
        } else {
            assert(t[i] == tail[i - 5 - f.len()]);
        }
    }
}

proof fn lemma_tabs_z(
    from: int,
    ts: Seq<(int, int)>,
    reverse: bool,
    y: int,
    depth: int,
    sx: int,
    sy: int,
)
    ensures
        z_words_at(tabs_text(from, ts, reverse, y, depth, sx, sy).0, depth),
    decreases ts.len(),
{
    if ts.len() > 0 {
        lemma_tabs_z(from, ts.drop_last(), reverse, y, depth, sx, sy);
        let (text, cursor) = tabs_text(from, ts.drop_last(), reverse, y, depth, sx, sy);
        let (entry, exit) = if reverse {
            (ts.last().1, ts.last().0)
        } else {
            (ts.last().0, ts.last().1)
        };
        let approach = if entry != cursor {
            move_text(entry + sx, y + sy)
        } else {
            Seq::empty()
        };
        lemma_move_z(entry + sx, y + sy, depth);
        lemma_no_z(Seq::<char>::empty(), depth);
        lemma_move_z(exit + sx, y + sy, depth);
        lemma_lift_z(depth);
        reveal_strlit("\n");
        lemma_plunge_z(depth, "\n"@);
        assert(plunge_text(depth) == "G1 Z-"@ + fixed3_text(depth) + "\n"@);
        lemma_z_concat(text, approach, depth);
        lemma_z_concat(text + approach, "G0 Z2\n"@, depth);
        lemma_z_concat(text + approach + "G0 Z2\n"@, move_text(exit + sx, y + sy), depth);
        lemma_z_concat(
            text + approach + "G0 Z2\n"@ + move_text(exit + sx, y + sy),
            "Z0\n"@,
            depth,
        );
        lemma_z_concat(
            text + approach + "G0 Z2\n"@ + move_text(exit + sx, y + sy) + "Z0\n"@,
            plunge_text(depth),
            depth,
        );
    }
}

proof fn lemma_segments_z(job: Job, k: int, depth: int)
    ensures
        z_words_at(segments_text(job, k, depth), depth),
    decreases k,
{
    if k <= 0 {
        lemma_no_z(Seq::<char>::empty(), depth);
    } else {
        lemma_segments_z(job, k - 1, depth);
        let from = job.path[k - 1];
        let to = job.path[k];
        lemma_move_z(to.0 + job.sx, to.1 + job.sy, depth);
        if from.1 == job.top && to.1 == job.top && !(job.score_tabs && 2 * depth <= job.cut) {
            let reverse = to.0 < from.0;
            let ordered = if reverse {
                job.tabs.reverse()
            } else {
                job.tabs
            };
            lemma_tabs_z(from.0, ordered, reverse, job.top, depth, job.sx, job.sy);
            let (text, cursor) = tabs_text(from.0, ordered, reverse, job.top, depth, job.sx, job.sy);
            lemma_no_z(Seq::<char>::empty(), depth);
            lemma_z_concat(
                text,
                if to.0 != cursor {
                    move_text(to.0 + job.sx, job.top + job.sy)
                } else {
                    Seq::empty()
                },
                depth,
            );
            lemma_move_z(to.0 + job.sx, job.top + job.sy, depth);
        }
        lemma_z_concat(
            segments_text(job, k - 1, depth),
            segment_text(job, from, to, depth),
            depth,
        );
    }
}

/// Within a depth pass every `Z` word stays at that pass's depth: the
/// plunge that starts the pass goes to `min(p * step, cut)`, and every tab
/// crossing lifts to `Z2`, returns to `Z0` and plunges back to the same
/// depth, never deeper.
pub proof fn law_pass_stays_at_its_depth(job: Job, p: int, step: int, feed: int)
    ensures
        z_words_at(pass_text(job, p, step, feed), pass_depth(p, step, job.cut)),
        pass_depth(p, step, job.cut) == if p * step < job.cut {
            p * step
        } else {
            job.cut
        },
{
    let depth = pass_depth(p, step, job.cut);
    reveal_strlit("\n");
    reveal_strlit(" F");
    let feed_text = int_text(whole_part(feed));
    let w = whole_part(feed);
    if w < 0 {
        lemma_nat_text_digits((-w) as nat);
    } else {
        lemma_nat_text_digits(w as nat);
    }
    assert forall|i: int| 0 <= i < feed_text.len() implies #[trigger] feed_text[i] != 'Z' by {
        if w < 0 && i > 0 {
            assert(feed_text[i] == nat_text((-w) as nat)[i - 1]);
        }
    }
    let tail = " F"@ + feed_text + "\n"@;
    assert(" F"@ =~= seq![' ', 'F']);
    assert forall|i: int| 0 <= i < tail.len() implies #[trigger] tail[i] != 'Z' by {
        if i >= 2 && i < 2 + feed_text.len() {
            assert(tail[i] == feed_text[i - 2]);
        }
    }
    lemma_plunge_z(depth, tail);
    lemma_plunge_z(depth, "\n"@);
    assert(pass_plunge_text(p, depth, feed) == "G1 Z-"@ + fixed3_text(depth) + if p == 1 {
        tail
    } else {
        "\n"@
    });
    lemma_segments_z(job, job.path.len() - 1, depth);
    lemma_no_z("\n"@, depth);
    lemma_z_concat(
        pass_plunge_text(p, depth, feed),
        segments_text(job, job.path.len() - 1, depth),
        depth,
    );
    lemma_z_concat(
        pass_plunge_text(p, depth, feed) + segments_text(job, job.path.len() - 1, depth),
        "\n"@,
        depth,
    );
}

} // verus!
