//! Camera state shared by the UI interaction layer and the renderer.
use vstd::prelude::*;

verus! {

/// Smallest zoom, 0.1 (millionths).
pub const MIN_ZOOM: i64 = 100_000;

/// Largest zoom, 20 (millionths).
pub const MAX_ZOOM: i64 = 20_000_000;

/// Zoom factor (millionths) and pan offset (millionths of a pixel).
#[derive(Debug, Clone, Copy)]
pub struct Viewport {
    pub zoom: i64,
    pub pan_x: i64,
    pub pan_y: i64,
}

impl Default for Viewport {
    fn default() -> (v: Self)
        ensures
            v == (Viewport { zoom: 1_000_000, pan_x: 0, pan_y: 0 }),
    {
        Self { zoom: 1_000_000, pan_x: 0, pan_y: 0 }
    }
}

/// The zoom after one step: times 1.25 inward (positive direction), times
/// 0.8 outward (rounded down to a millionth), kept within 0.1 to 20.
pub open spec fn zoomed(zoom: int, direction: int) -> int {
    let scaled = if direction > 0 {
        zoom * 5 / 4
    } else {
        zoom * 4 / 5
    };
    if scaled < MIN_ZOOM {
        MIN_ZOOM as int
    } else if scaled > MAX_ZOOM {
        MAX_ZOOM as int
    } else {
        scaled
    }
}

/// The view moved by `(dx, dy)`, the zoom unchanged.
pub open spec fn panned(v: Viewport, dx: int, dy: int) -> Viewport {
    Viewport { zoom: v.zoom, pan_x: (v.pan_x + dx) as i64, pan_y: (v.pan_y + dy) as i64 }
}

impl Viewport {
    /// Zooms one step in (positive direction) or out.
    pub fn zoom_by(&mut self, direction: i32)
        ensures
            final(self).zoom == zoomed(old(self).zoom as int, direction as int),
            final(self).pan_x == old(self).pan_x,
            final(self).pan_y == old(self).pan_y,
    {
        let zoom = self.zoom as i128;
        let scaled: i128 = if direction > 0 {
            zoom * 5 / 4
        } else {
            zoom * 4 / 5
        };
        self.zoom = if scaled < MIN_ZOOM as i128 {
            MIN_ZOOM
        } else if scaled > MAX_ZOOM as i128 {
            MAX_ZOOM
        } else {
            scaled as i64
        };
    }

    /// Moves the view by a screen distance.
    pub fn pan_by(&mut self, delta_x: i64, delta_y: i64)
        requires
            i64::MIN <= old(self).pan_x + delta_x <= i64::MAX,
            i64::MIN <= old(self).pan_y + delta_y <= i64::MAX,
        ensures
            *final(self) == panned(*old(self), delta_x as int, delta_y as int),
    {
        self.pan_x = self.pan_x + delta_x;
        self.pan_y = self.pan_y + delta_y;
    }

    /// Back to zoom 1 and no pan.
    pub fn reset(&mut self)
        ensures
            *final(self) == (Viewport { zoom: 1_000_000, pan_x: 0, pan_y: 0 }),
    {
        *self = Self::default();
    }
}

/// Zooming keeps the zoom within its bounds.
pub proof fn law_zoom_is_bounded(zoom: int, direction: int)
    ensures
        MIN_ZOOM <= zoomed(zoom, direction) <= MAX_ZOOM,
{
}

/// Panning in two steps moves the view as far as panning in one: the pan
/// follows the pointer from where it started to where it is now.
pub proof fn law_pan_steps_add_up(v: Viewport, a: (int, int), b: (int, int), c: (int, int))
    requires
        i64::MIN <= v.pan_x + (b.0 - a.0) <= i64::MAX,
        i64::MIN <= v.pan_y + (b.1 - a.1) <= i64::MAX,
        i64::MIN <= v.pan_x + (c.0 - a.0) <= i64::MAX,
        i64::MIN <= v.pan_y + (c.1 - a.1) <= i64::MAX,
    ensures
        panned(panned(v, b.0 - a.0, b.1 - a.1), c.0 - b.0, c.1 - b.1) == panned(
            v,
            c.0 - a.0,
            c.1 - a.1,
        ),
{
}

} // verus!
