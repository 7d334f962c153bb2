//! Board bounds, the generated frame around them, and the holding tabs on
//! the frame's upper edge. Coordinates are millionths of a millimetre.
use vstd::prelude::*;

use crate::domain::settings::Settings;
use crate::number::{in_range, MAX_MAGNITUDE};


verus! {

/// Board dimensions extracted from G-code file.
///
/// An empty bounds value (no point recorded) holds `i64::MAX` as its minima
/// and `i64::MIN` as its maxima; these stand for the infinities of a
/// floating-point bounds value.
#[derive(Debug, Clone, Copy)]
pub struct BoardBounds {
    pub x_min: i64,
    pub x_max: i64,
    pub y_min: i64,
    pub y_max: i64,
}

/// A coordinate that is neither of the two sentinels.
pub open spec fn finite(v: i64) -> bool {
    i64::MIN < v && v < i64::MAX
}

/// A coordinate of a frame computed from in-range bounds and offsets.
pub open spec fn frame_range(v: int) -> bool {
    -3 * MAX_MAGNITUDE <= v <= 3 * MAX_MAGNITUDE
}

/// Larger of a value and zero.
pub open spec fn at_least_zero(v: int) -> int {
    if v < 0 {
        0
    } else {
        v
    }
}

impl BoardBounds {
    /// Bounds with no point recorded.
    pub open spec fn empty() -> BoardBounds {
        BoardBounds { x_min: i64::MAX, x_max: i64::MIN, y_min: i64::MAX, y_max: i64::MIN }
    }

    /// The bounds grown to include a point.
    pub open spec fn with_point(self, x: i64, y: i64) -> BoardBounds {
        BoardBounds {
            x_min: if x < self.x_min {
                x
            } else {
                self.x_min
            },
            x_max: if x > self.x_max {
                x
            } else {
                self.x_max
            },
            y_min: if y < self.y_min {
                y
            } else {
                self.y_min
            },
            y_max: if y > self.y_max {
                y
            } else {
                self.y_max
            },
        }
    }

    /// Some point was recorded: no field holds a sentinel.
    pub open spec fn valid(self) -> bool {
        finite(self.x_min) && finite(self.x_max) && finite(self.y_min) && finite(self.y_max)
    }

    /// All four fields are in range.
    pub open spec fn in_range(self) -> bool {
        in_range(self.x_min as int) && in_range(self.x_max as int) && in_range(self.y_min as int)
            && in_range(self.y_max as int)
    }

    /// Bounds that hold no point yet.
    pub fn new() -> (b: Self)
        ensures
            b == BoardBounds::empty(),
    {
        Self { x_min: i64::MAX, x_max: i64::MIN, y_min: i64::MAX, y_max: i64::MIN }
    }

    /// Update bounds with a new point.
    pub fn update(&mut self, x: i64, y: i64)
        ensures
            *final(self) == old(self).with_point(x, y),
    {
        if x < self.x_min {
            self.x_min = x;
        }
        if x > self.x_max {
            self.x_max = x;
        }
        if y < self.y_min {
            self.y_min = y;
        }
        if y > self.y_max {
            self.y_max = y;
        }
    }

    /// Check if any points were recorded.
    pub fn is_valid(&self) -> (b: bool)
        ensures
            b == self.valid(),
    {
        i64::MIN < self.x_min && self.x_min < i64::MAX && i64::MIN < self.x_max && self.x_max
            < i64::MAX && i64::MIN < self.y_min && self.y_min < i64::MAX && i64::MIN < self.y_max
            && self.y_max < i64::MAX
    }

    /// Calculate board width.
    pub fn width(&self) -> (w: i64)
        requires
            self.in_range(),
        ensures
            w == if self.x_max >= self.x_min {
                self.x_max - self.x_min
            } else {
                self.x_min - self.x_max
            },
    {
        if self.x_max >= self.x_min {
            self.x_max - self.x_min
        } else {
            self.x_min - self.x_max
        }
    }

    /// Calculate board height.
    pub fn height(&self) -> (h: i64)
        requires
            self.in_range(),
        ensures
            h == self.y_max - self.y_min,
    {
        self.y_max - self.y_min
    }
}

impl Default for BoardBounds {
    fn default() -> (b: Self)
        ensures
            b == (BoardBounds { x_min: 0, x_max: 0, y_min: 0, y_max: 0 }),
    {
        Self { x_min: 0, x_max: 0, y_min: 0, y_max: 0 }
    }
}

/// The bounds of a sequence of points, recorded in order from empty bounds.
pub open spec fn bounds_of(points: Seq<(int, int)>) -> BoardBounds
    decreases points.len(),
{
    if points.len() == 0 {
        BoardBounds::empty()
    } else {
        bounds_of(points.drop_last()).with_point(
            points.last().0 as i64,
            points.last().1 as i64,
        )
    }
}

/// Frame geometry calculated from board bounds and settings.
#[derive(Debug, Clone, Copy)]
pub struct FrameGeometry {
    pub left: i64,
    pub right: i64,
    pub bottom: i64,
    pub top: i64,
}

impl FrameGeometry {
    /// The symmetric reference frame: the (non-negative) offsets are applied
    /// on all sides of valid bounds.
    pub open spec fn spec_expanded(bounds: BoardBounds, settings: Settings) -> Option<
        FrameGeometry,
    > {
        if !bounds.valid() {
            None
        } else {
            let ox = at_least_zero(settings.offset_x as int);
            let oy = at_least_zero(settings.offset_y as int);
            Some(
                FrameGeometry {
                    left: (bounds.x_min - ox) as i64,
                    right: (bounds.x_max + ox) as i64,
                    bottom: (bounds.y_min - oy) as i64,
                    top: (bounds.y_max + oy) as i64,
                },
            )
        }
    }

    /// The generated frame: the right-bottom corner of valid bounds stays
    /// fixed, and the frame grows by twice the (non-negative) offsets to the
    /// left and upward, matching the size of the symmetric reference frame.
    pub open spec fn spec_calculate(bounds: BoardBounds, settings: Settings) -> Option<
        FrameGeometry,
    > {
        if !bounds.valid() {
            None
        } else {
            Some(
                FrameGeometry {
                    left: (bounds.x_min - 2 * at_least_zero(settings.offset_x as int)) as i64,
                    right: bounds.x_max,
                    bottom: bounds.y_min,
                    top: (bounds.y_max + 2 * at_least_zero(settings.offset_y as int)) as i64,
                },
            )
        }
    }

    /// All four sides are coordinates of a frame.
    pub open spec fn in_range(self) -> bool {
        frame_range(self.left as int) && frame_range(self.right as int) && frame_range(
            self.bottom as int,
        ) && frame_range(self.top as int)
    }

    /// Symmetric reference frame: offsets are applied around all board sides.
    pub fn expanded(bounds: &BoardBounds, settings: &Settings) -> (r: Option<Self>)
        requires
            bounds.valid() ==> bounds.in_range(),
            in_range(settings.offset_x as int),
            in_range(settings.offset_y as int),
        ensures
            r == FrameGeometry::spec_expanded(*bounds, *settings),
            r matches Some(f) ==> f.in_range(),
    {
        if !bounds.is_valid() {
            return None;
        }
        let offset_x = if settings.offset_x < 0 {
            0
        } else {
            settings.offset_x
        };
        let offset_y = if settings.offset_y < 0 {
            0
        } else {
            settings.offset_y
        };
        Some(
            Self {
                left: bounds.x_min - offset_x,
                right: bounds.x_max + offset_x,
                bottom: bounds.y_min - offset_y,
                top: bounds.y_max + offset_y,
            },
        )
    }

    /// Calculate frame geometry based on board bounds and settings.
    pub fn calculate(bounds: &BoardBounds, settings: &Settings) -> (r: Option<Self>)
        requires
            bounds.valid() ==> bounds.in_range(),
            in_range(settings.offset_x as int),
            in_range(settings.offset_y as int),
        ensures
            r == FrameGeometry::spec_calculate(*bounds, *settings),
            r matches Some(f) ==> f.in_range(),
    {
        if !bounds.is_valid() {
            return None;
        }
        let offset_x = if settings.offset_x < 0 {
            0
        } else {
            settings.offset_x
        };
        let offset_y = if settings.offset_y < 0 {
            0
        } else {
            settings.offset_y
        };
        Some(
            Self {
                left: bounds.x_min - 2 * offset_x,
                right: bounds.x_max,
                bottom: bounds.y_min,
                top: bounds.y_max + 2 * offset_y,
            },
        )
    }

    /// Get frame width.
    pub fn width(&self) -> (w: i64)
        requires
            self.in_range(),
        ensures
            w == if self.right >= self.left {
                self.right - self.left
            } else {
                self.left - self.right
            },
    {
        if self.right >= self.left {
            self.right - self.left
        } else {
            self.left - self.right
        }
    }

    /// Get frame height.
    pub fn height(&self) -> (h: i64)
        requires
            self.in_range(),
        ensures
            h == self.top - self.bottom,
    {
        self.top - self.bottom
    }

    /// The corners in drawing order, closing the loop: lower left, lower
    /// right, upper right, upper left, lower left.
    pub fn corners(&self) -> (c: Vec<(i64, i64)>)
        ensures
            c@ == seq![
                (self.left, self.bottom),
                (self.right, self.bottom),
                (self.right, self.top),
                (self.left, self.top),
                (self.left, self.bottom),
            ],
    {
        let c = vec![
            (self.left, self.bottom),
            (self.right, self.bottom),
            (self.right, self.top),
            (self.left, self.top),
            (self.left, self.bottom),
        ];
        assert(c@ =~= seq![
            (self.left, self.bottom),
            (self.right, self.bottom),
            (self.right, self.top),
            (self.left, self.top),
            (self.left, self.bottom),
        ]);
        c
    }
}

/// The free distance at each end and between tabs stays within `max_gap`
/// when `count` tabs of width `tab` are spread over `usable`.
pub open spec fn gaps_fit(usable: int, tab: int, max_gap: int, count: int) -> bool {
    usable - count * tab <= max_gap * (count + 1)
}

/// The straight part of the upper edge: from `left + r` to `right - r` for
/// the non-negative corner radius `r`.
pub open spec fn edge_left(frame: FrameGeometry, corner_radius: int) -> int {
    frame.left + at_least_zero(corner_radius)
}

/// Where the straight part of the upper edge ends.
pub open spec fn edge_right(frame: FrameGeometry, corner_radius: int) -> int {
    frame.right - at_least_zero(corner_radius)
}

/// The tab width: the configured width, not negative and at most the
/// length of the straight edge.
pub open spec fn tab_width_on(usable: int, settings: Settings) -> int {
    let w = at_least_zero(settings.tab_width as int);
    if w < usable {
        w
    } else {
        usable
    }
}

/// The first tab count from `max(minimum_tabs, 3)` on whose gaps fit.
pub open spec fn needed_tabs(usable: int, tab: int, max_gap: int, minimum: int) -> int
    recommends
        tab > 0,
        max_gap >= 0,
{
    let start = if minimum < 3 {
        3
    } else {
        minimum
    };
    if usable - max_gap <= 0 {
        start
    } else {
        let c = (usable - max_gap + tab + max_gap - 1) / (tab + max_gap);
        if c < start {
            start
        } else {
            c
        }
    }
}

/// The tab count: the needed count, but no more tabs than fit on the edge.
pub open spec fn tab_count(usable: int, tab: int, max_gap: int, minimum: int) -> int {
    let n = needed_tabs(usable, tab, max_gap, minimum);
    let cap = usable / tab;
    if n < cap {
        n
    } else {
        cap
    }
}

/// The holding tabs on the frame's upper edge, left to right.
pub open spec fn tab_intervals(
    frame: FrameGeometry,
    corner_radius: int,
    settings: Settings,
) -> Seq<(int, int)> {
    let left = edge_left(frame, corner_radius);
    let usable = edge_right(frame, corner_radius) - left;
    let tab = tab_width_on(usable, settings);
    if usable <= 0 || tab <= 0 {
        Seq::empty()
    } else {
        let max_gap = at_least_zero(settings.maximum_tab_gap as int);
        let count = tab_count(usable, tab, max_gap, settings.minimum_tabs as int);
        let free = usable - count * tab;
        Seq::new(
            count as nat,
            |i: int|
                (
                    left + spread(free, count, i + 1) + tab * i,
                    left + spread(free, count, i + 1) + tab * i + tab,
                ),
        )
    }
}

/// Where the `k`-th of `count + 1` equal shares of `free` ends, rounded
/// down: the free length is spread so that no two gaps differ by more than
/// one millionth.
pub open spec fn spread(free: int, count: int, k: int) -> int {
    free * k / (count + 1)
}

/// Neighbouring shares differ from the exact share `free / (count + 1)` by
/// less than one: each gap is the share rounded down or up.
pub proof fn lemma_spread_step(free: int, count: int, k: int)
    requires
        free >= 0,
        count >= 1,
        0 <= k <= count,
    ensures
        free / (count + 1) <= spread(free, count, k + 1) - spread(free, count, k) <= free / (count
            + 1) + 1,
        spread(free, count, 0) == 0,
        spread(free, count, count + 1) == free,
        0 <= spread(free, count, k) <= free,
{
    let d = count + 1;
    let x = spread(free, count, k);
    let y = spread(free, count, k + 1);
    let fl = free / d;
    assert(x * d <= free * k < x * d + d) by (nonlinear_arith)
        requires
            x == free * k / d,
            d > 0,
    ;
    assert(y * d <= free * (k + 1) < y * d + d) by (nonlinear_arith)
        requires
            y == free * (k + 1) / d,
            d > 0,
    ;
    assert(fl * d <= free < fl * d + d) by (nonlinear_arith)
        requires
            fl == free / d,
            d > 0,
    ;
    assert(free * (k + 1) == free * k + free) by (nonlinear_arith);
    assert(fl <= y - x <= fl + 1) by (nonlinear_arith)
        requires
            x * d <= free * k < x * d + d,
            y * d <= free * k + free < y * d + d,
            fl * d <= free < fl * d + d,
            d > 0,
    ;
    assert(free * 0 == 0);
    assert(spread(free, count, 0) == 0);
    vstd::arithmetic::div_mod::lemma_div_multiples_vanish(free, d);
    assert(free * (count + 1) == d * free) by (nonlinear_arith)
        requires
            d == count + 1,
    ;
    assert(spread(free, count, count + 1) == free);
    assert(0 <= x <= free) by (nonlinear_arith)
        requires
            x * d <= free * k < x * d + d,
            0 <= k < d,
            free >= 0,
            d > 0,
    ;
}

/// `needed_tabs` is the least count from `max(minimum, 3)` on whose gaps fit.
pub proof fn lemma_needed_tabs_least(usable: int, tab: int, max_gap: int, minimum: int)
    requires
        tab > 0,
        max_gap >= 0,
    ensures
        ({
            let n = needed_tabs(usable, tab, max_gap, minimum);
            let start = if minimum < 3 {
                3
            } else {
                minimum
            };
            &&& n >= start
            &&& gaps_fit(usable, tab, max_gap, n)
            &&& forall|c: int| start <= c < n ==> !#[trigger] gaps_fit(usable, tab, max_gap, c)
        }),
{
    let n = needed_tabs(usable, tab, max_gap, minimum);
    let d = tab + max_gap;
    let a = usable - max_gap;
    if a > 0 {
        let c = (a + d - 1) / d;
        assert(c * d >= a && (c - 1) * d < a) by (nonlinear_arith)
            requires
                d > 0,
                a > 0,
                c == (a + d - 1) / d,
        ;
        assert(n * d >= a) by (nonlinear_arith)
            requires
                n >= c,
                c * d >= a,
                d > 0,
        ;
        assert forall|k: int| k < c implies !#[trigger] gaps_fit(usable, tab, max_gap, k) by {
            assert(k * d < a) by (nonlinear_arith)
                requires
                    k < c,
                    (c - 1) * d < a,
                    d > 0,
            ;
            assert(usable - k * tab > max_gap * (k + 1)) by (nonlinear_arith)
                requires
                    k * d < a,
                    d == tab + max_gap,
                    a == usable - max_gap,
            ;
        }
        assert(gaps_fit(usable, tab, max_gap, n)) by (nonlinear_arith)
            requires
                n * d >= a,
                d == tab + max_gap,
                a == usable - max_gap,
        ;
    } else {
        assert(gaps_fit(usable, tab, max_gap, n)) by (nonlinear_arith)
            requires
                a <= 0,
                a == usable - max_gap,
                n >= 3,
                tab > 0,
                max_gap >= 0,
        ;
    }
}

/// Uncut intervals along the straight part of the generated frame's upper edge.
/// Each pair is ordered from left to right and represents one holding tab.
pub fn top_tab_intervals(frame: &FrameGeometry, corner_radius: i64, settings: &Settings) -> (r:
    Vec<(i64, i64)>)
    requires
        frame.in_range(),
        in_range(corner_radius as int),
        in_range(settings.tab_width as int),
        in_range(settings.maximum_tab_gap as int),
    ensures
        r@.len() == tab_intervals(*frame, corner_radius as int, *settings).len(),
        forall|i: int|
            0 <= i < r@.len() ==> (#[trigger] r@[i]).0 as int == tab_intervals(
                *frame,
                corner_radius as int,
                *settings,
            )[i].0 && r@[i].1 as int == tab_intervals(*frame, corner_radius as int, *settings)[i].1,
        forall|i: int|
            0 <= i < r@.len() ==> edge_left(*frame, corner_radius as int) <= (#[trigger] r@[i]).0
                <= r@[i].1 <= edge_right(*frame, corner_radius as int),
{
    let radius: i128 = if corner_radius < 0 {
        0
    } else {
        corner_radius as i128
    };
    let left: i128 = frame.left as i128 + radius;
    let right: i128 = frame.right as i128 - radius;
    let usable: i128 = right - left;
    let configured: i128 = if settings.tab_width < 0 {
        0
    } else {
        settings.tab_width as i128
    };
    let tab: i128 = if configured < usable {
        configured
    } else {
        usable
    };
    let ghost spec_tabs = tab_intervals(*frame, corner_radius as int, *settings);
    if usable <= 0 || tab <= 0 {
        return Vec::new();
    }
    let max_gap: i128 = if settings.maximum_tab_gap < 0 {
        0
    } else {
        settings.maximum_tab_gap as i128
    };
    let start: i128 = if settings.minimum_tabs < 3 {
        3
    } else {
        settings.minimum_tabs as i128
    };
    let needed: i128 = if usable - max_gap <= 0 {
        start
    } else {
        let c = (usable - max_gap + tab + max_gap - 1) / (tab + max_gap);
        if c < start {
            start
        } else {
            c
        }
    };
    let cap: i128 = usable / tab;
    let count: i128 = if needed < cap {
        needed
    } else {
        cap
    };
    assert(count == tab_count(usable as int, tab as int, max_gap as int, settings.minimum_tabs as int));
    assert(count * tab <= usable) by (nonlinear_arith)
        requires
            count <= cap,
            cap == usable / tab,
            tab > 0,
            usable > 0,
    ;
    assert(count >= 1) by (nonlinear_arith)
        requires
            cap == usable / tab,
            tab <= usable,
            tab > 0,
            needed >= 3,
            count == if needed < cap { needed } else { cap },
    ;
    let free: i128 = usable - count * tab;
    assert(free >= 0);
    let mut tabs: Vec<(i64, i64)> = Vec::new();
    let mut index: i128 = 0;
    while index < count
        invariant
            0 <= index <= count,
            count == spec_tabs.len(),
            count * tab <= usable,
            count >= 1,
            free == usable - count * tab,
            tab > 0,
            usable == right - left,
            frame_range(left as int - at_least_zero(corner_radius as int)),
            in_range(at_least_zero(corner_radius as int)),
            left == edge_left(*frame, corner_radius as int),
            usable == edge_right(*frame, corner_radius as int) - edge_left(*frame, corner_radius as int),
            tab == tab_width_on(usable as int, *settings),
            spec_tabs == tab_intervals(*frame, corner_radius as int, *settings),
            count == tab_count(usable as int, tab as int, at_least_zero(settings.maximum_tab_gap as int), settings.minimum_tabs as int),
            tabs@.len() == index,
            forall|i: int|
                0 <= i < index ==> (#[trigger] tabs@[i]).0 as int == spec_tabs[i].0 && tabs@[i].1 as int
                    == spec_tabs[i].1,
            forall|i: int|
                0 <= i < index ==> left <= (#[trigger] tabs@[i]).0 <= tabs@[i].1 <= right,
            frame.in_range(),
        decreases count - index,
    {
        proof {
            lemma_spread_step(free as int, count as int, index as int + 1);
        }
        assert(free * (index + 1) <= usable * count) by (nonlinear_arith)
            requires
                0 <= free <= usable,
                0 <= index < count,
        ;
        assert(usable * count <= 6_000_000_000_000_000_000 * 6_000_000_000_000_000_000) by (nonlinear_arith)
            requires
                0 < usable <= 6_000_000_000_000_000_000,
                0 < count <= usable,
        ;
        assert(count <= usable) by (nonlinear_arith)
            requires
                count * tab <= usable,
                tab > 0,
                count >= 1,
        ;
        assert(tab * index + tab <= tab * count) by (nonlinear_arith)
            requires
                0 <= index < count,
                tab > 0,
        ;
        assert(tab * index >= 0) by (nonlinear_arith)
            requires
                0 <= index,
                tab > 0,
        ;
        let share: i128 = free * (index + 1) / (count + 1);
        assert(share == spread(free as int, count as int, index + 1));
        assert(0 <= share <= free);
        assert(left + share + tab * index + tab <= right);
        let begin: i128 = left + share + tab * index;
        let finish: i128 = begin + tab;
        tabs.push((begin as i64, finish as i64));
        index = index + 1;
    }
    tabs
}

/// The bounds of some in-range points are valid exactly when there is a
/// point; then they are the smallest rectangle holding every point: each
/// point lies within them and each side touches a point.
pub proof fn law_bounds_of_points(points: Seq<(int, int)>)
    requires
        forall|i: int|
            0 <= i < points.len() ==> in_range((#[trigger] points[i]).0) && in_range(points[i].1),
    ensures
        bounds_of(points).valid() <==> points.len() > 0,
        points.len() == 0 ==> bounds_of(points) == BoardBounds::empty(),
        points.len() > 0 ==> bounds_of(points).in_range(),
        forall|i: int|
            0 <= i < points.len() ==> bounds_of(points).x_min <= (#[trigger] points[i]).0
                <= bounds_of(points).x_max && bounds_of(points).y_min <= points[i].1
                <= bounds_of(points).y_max,
        points.len() > 0 ==> exists|i: int|
            0 <= i < points.len() && (#[trigger] points[i]).0 == bounds_of(points).x_min,
        points.len() > 0 ==> exists|i: int|
            0 <= i < points.len() && (#[trigger] points[i]).0 == bounds_of(points).x_max,
        points.len() > 0 ==> exists|i: int|
            0 <= i < points.len() && (#[trigger] points[i]).1 == bounds_of(points).y_min,
        points.len() > 0 ==> exists|i: int|
            0 <= i < points.len() && (#[trigger] points[i]).1 == bounds_of(points).y_max,
    decreases points.len(),
{
    if points.len() > 0 {
        let rest = points.drop_last();
        assert forall|i: int|
            0 <= i < rest.len() implies in_range((#[trigger] rest[i]).0) && in_range(rest[i].1) by {
            assert(rest[i] == points[i]);
        }
        law_bounds_of_points(rest);
        let b = bounds_of(rest);
        let last = points.last();
        let n = points.len() - 1;
        assert(points[n] == last);
        assert forall|i: int| 0 <= i < points.len() implies bounds_of(points).x_min <= (
        #[trigger] points[i]).0 <= bounds_of(points).x_max && bounds_of(points).y_min <= points[i].1
            <= bounds_of(points).y_max by {
            if i < n {
                assert(points[i] == rest[i]);
            }
        }
        if rest.len() > 0 {
            let i0 = choose|i: int| 0 <= i < rest.len() && (#[trigger] rest[i]).0 == b.x_min;
            let i1 = choose|i: int| 0 <= i < rest.len() && (#[trigger] rest[i]).0 == b.x_max;
            let i2 = choose|i: int| 0 <= i < rest.len() && (#[trigger] rest[i]).1 == b.y_min;
            let i3 = choose|i: int| 0 <= i < rest.len() && (#[trigger] rest[i]).1 == b.y_max;
            assert(points[i0] == rest[i0]);
            assert(points[i1] == rest[i1]);
            assert(points[i2] == rest[i2]);
            assert(points[i3] == rest[i3]);
        }
    }
}

/// The generated frame keeps the board's right and bottom edges and has the
/// width and height of the symmetric reference frame.
pub proof fn law_frame_keeps_corner_and_reference_size(bounds: BoardBounds, settings: Settings)
    requires
        bounds.valid() ==> bounds.in_range(),
        in_range(settings.offset_x as int),
        in_range(settings.offset_y as int),
    ensures
        FrameGeometry::spec_calculate(bounds, settings) is Some <==> bounds.valid(),
        FrameGeometry::spec_expanded(bounds, settings) is Some <==> bounds.valid(),
        bounds.valid() ==> ({
            let f = FrameGeometry::spec_calculate(bounds, settings)->0;
            let e = FrameGeometry::spec_expanded(bounds, settings)->0;
            &&& f.right == bounds.x_max && f.bottom == bounds.y_min
            &&& f.right - f.left == e.right - e.left
            &&& f.top - f.bottom == e.top - e.bottom
            &&& f.left <= bounds.x_min && bounds.y_max <= f.top
        }),
{
}

/// The holding tabs: their number is the least count from
/// `max(minimum_tabs, 3)` on whose free gaps all fit within the maximum gap,
/// unless fewer fit on the edge; the tabs are `tab` wide, ordered left to
/// right without overlapping, and lie on the straight part of the upper
/// edge; the free length is spread evenly, every gap (before the first tab,
/// between tabs and after the last) being the exact share rounded down or
/// up; and when the count was not limited by the edge, every gap is at most
/// the maximum gap.
pub proof fn law_tab_layout(frame: FrameGeometry, corner_radius: int, settings: Settings)
    ensures
        ({
            let ts = tab_intervals(frame, corner_radius, settings);
            let left = edge_left(frame, corner_radius);
            let right = edge_right(frame, corner_radius);
            let usable = right - left;
            let tab = tab_width_on(usable, settings);
            let max_gap = at_least_zero(settings.maximum_tab_gap as int);
            let n = ts.len() as int;
            &&& (usable <= 0 || tab <= 0) ==> n == 0
            &&& (usable > 0 && tab > 0) ==> {
                let needed = needed_tabs(usable, tab, max_gap, settings.minimum_tabs as int);
                let share = (usable - n * tab) / (n + 1);
                &&& n >= 1
                &&& n == if needed < usable / tab {
                    needed
                } else {
                    usable / tab
                }
                &&& forall|i: int| 0 <= i < n ==> (#[trigger] ts[i]).1 - ts[i].0 == tab
                &&& forall|i: int| 0 <= i < n ==> left <= (#[trigger] ts[i]).0 && ts[i].1 <= right
                &&& forall|k: int|
                    0 <= k <= n ==> share <= #[trigger] tab_gap(ts, left, right, k) <= share + 1
                &&& needed <= usable / tab ==> forall|k: int|
                    0 <= k <= n ==> #[trigger] tab_gap(ts, left, right, k) <= max_gap
            }
        }),
{
    let ts = tab_intervals(frame, corner_radius, settings);
    let left = edge_left(frame, corner_radius);
    let right = edge_right(frame, corner_radius);
    let usable = right - left;
    let tab = tab_width_on(usable, settings);
    let max_gap = at_least_zero(settings.maximum_tab_gap as int);
    if usable > 0 && tab > 0 {
        let n = ts.len() as int;
        let needed = needed_tabs(usable, tab, max_gap, settings.minimum_tabs as int);
        let cap = usable / tab;
        lemma_needed_tabs_least(usable, tab, max_gap, settings.minimum_tabs as int);
        assert(n == if needed < cap {
            needed
        } else {
            cap
        });
        assert(cap >= 1 && cap * tab <= usable) by (nonlinear_arith)
            requires
                cap == usable / tab,
                0 < tab <= usable,
        ;
        assert(n >= 1 && n * tab <= usable) by (nonlinear_arith)
            requires
                n == if needed < cap {
                    needed
                } else {
                    cap
                },
                needed >= 3,
                cap >= 1,
                cap * tab <= usable,
                tab > 0,
        ;
        let free = usable - n * tab;
        let share = free / (n + 1);
        assert forall|k: int| 0 <= k <= n implies share <= #[trigger] tab_gap(ts, left, right, k)
            <= share + 1 && tab_gap(ts, left, right, k) == spread(free, n, k + 1) - spread(
            free,
            n,
            k,
        ) by {
            lemma_spread_step(free, n, k);
            if k == 0 {
                assert(ts[0].0 == left + spread(free, n, 1) + tab * 0);
            } else if k < n {
                assert(ts[k].0 == left + spread(free, n, k + 1) + tab * k);
                assert(ts[k - 1].1 == left + spread(free, n, k) + tab * (k - 1) + tab);
                assert(tab * k == tab * (k - 1) + tab) by (nonlinear_arith);
            } else {
                assert(ts[n - 1].1 == left + spread(free, n, n) + tab * (n - 1) + tab);
                assert(tab * (n - 1) + tab == n * tab) by (nonlinear_arith);
            }
        }
        assert forall|i: int| 0 <= i < n implies left <= (#[trigger] ts[i]).0 && ts[i].1 <= right by {
            lemma_spread_step(free, n, i + 1);
            assert(ts[i].0 == left + spread(free, n, i + 1) + tab * i);
            assert(tab * i >= 0 && tab * i + tab <= n * tab) by (nonlinear_arith)
                requires
                    0 <= i < n,
                    tab > 0,
            ;
        }
        if needed <= cap {
            assert(n == needed);
            assert(gaps_fit(usable, tab, max_gap, n));
            assert(share <= max_gap - 1 || (share <= max_gap && free <= share * (n + 1))) by (
            nonlinear_arith)
                requires
                    free <= max_gap * (n + 1),
                    share == free / (n + 1),
                    n >= 1,
                    free >= 0,
            ;
            assert forall|k: int| 0 <= k <= n implies #[trigger] tab_gap(ts, left, right, k)
                <= max_gap by {
                lemma_spread_step(free, n, k);
                if share == max_gap && free <= share * (n + 1) {
                    lemma_spread_exact(free, n, k);
                }
            }
        }
    }
}

/// The free distance before tab `k`, or after the last tab when `k` is the
/// tab count.
pub open spec fn tab_gap(ts: Seq<(int, int)>, left: int, right: int, k: int) -> int {
    if k == 0 {
        ts[0].0 - left
    } else if k < ts.len() {
        ts[k].0 - ts[k - 1].1
    } else {
        right - ts[ts.len() - 1].1
    }
}

/// When the free length divides evenly, every share is exact.
proof fn lemma_spread_exact(free: int, count: int, k: int)
    requires
        free >= 0,
        count >= 1,
        0 <= k <= count,
        free <= (free / (count + 1)) * (count + 1),
    ensures
        spread(free, count, k + 1) - spread(free, count, k) == free / (count + 1),
{
    let d = count + 1;
    let fl = free / d;
    assert(free == fl * d) by (nonlinear_arith)
        requires
            fl == free / d,
            free <= fl * d,
            d > 0,
    ;
    assert(free * k == d * (fl * k)) by (nonlinear_arith)
        requires
            free == fl * d,
    ;
    assert(free * (k + 1) == d * (fl * (k + 1))) by (nonlinear_arith)
        requires
            free == fl * d,
    ;
    vstd::arithmetic::div_mod::lemma_div_multiples_vanish(fl * k, d);
    vstd::arithmetic::div_mod::lemma_div_multiples_vanish(fl * (k + 1), d);
    assert(fl * (k + 1) == fl * k + fl) by (nonlinear_arith);
}

} // verus!
