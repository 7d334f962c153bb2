//! Pointer interaction state for the preview canvas.
use vstd::prelude::*;

use crate::number::in_range;
use crate::preview::viewport::{panned, Viewport};

verus! {

/// The last pointer position of a pan, in millionths of a pixel.
#[derive(Debug, Clone, Copy, Default)]
pub struct PreviewInput {
    last_pointer: Option<(i64, i64)>,
}

impl PreviewInput {
    /// The pointer position that the next pan step moves from.
    pub closed spec fn last_pointer(self) -> Option<(i64, i64)> {
        self.last_pointer
    }

    /// No pan in progress.
    pub fn new() -> (input: Self)
        ensures
            input.last_pointer() is None,
    {
        Self { last_pointer: None }
    }

    /// Starts a pan at the pointer.
    pub fn begin_pan(&mut self, x: i64, y: i64)
        ensures
            final(self).last_pointer() == Some((x, y)),
    {
        self.last_pointer = Some((x, y));
    }

    /// Moves the view by the pointer's movement since the last position,
    /// then remembers the new position.
    pub fn pan_to(&mut self, viewport: &mut Viewport, x: i64, y: i64)
        requires
            in_range(x as int),
            in_range(y as int),
            in_range(old(viewport).pan_x as int),
            in_range(old(viewport).pan_y as int),
            old(self).last_pointer() matches Some(p) ==> in_range(p.0 as int) && in_range(
                p.1 as int,
            ),
        ensures
            final(self).last_pointer() == Some((x, y)),
            *final(viewport) == match old(self).last_pointer() {
                Some(p) => panned(*old(viewport), x - p.0, y - p.1),
                None => *old(viewport),
            },
    {
        if let Some((previous_x, previous_y)) = self.last_pointer {
            viewport.pan_by(x - previous_x, y - previous_y);
        }
        self.last_pointer = Some((x, y));
    }
}

} // verus!
