//! Preview data for rendering board and frame: what the view must contain.
use vstd::prelude::*;

use crate::domain::frame::at_least_zero;
use crate::number::in_range;

verus! {

/// Board, frame and material extents in world coordinates (millionths of a
/// millimetre).
#[derive(Debug, Clone, Copy)]
pub struct PreviewData {
    /// Board bounds (the PCB outline)
    pub board_x_min: i64,
    pub board_x_max: i64,
    pub board_y_min: i64,
    pub board_y_max: i64,
    /// Frame bounds
    pub frame_left: i64,
    pub frame_right: i64,
    pub frame_bottom: i64,
    pub frame_top: i64,
    pub material_width: i64,
    pub material_height: i64,
    pub material_offset_x: i64,
    pub material_offset_y: i64,
    /// Whether we have valid data to display
    pub has_data: bool,
}

impl Default for PreviewData {
    fn default() -> (d: Self)
        ensures
            d == (PreviewData {
                board_x_min: 0,
                board_x_max: 0,
                board_y_min: 0,
                board_y_max: 0,
                frame_left: 0,
                frame_right: 0,
                frame_bottom: 0,
                frame_top: 0,
                material_width: 0,
                material_height: 0,
                material_offset_x: 0,
                material_offset_y: 0,
                has_data: false,
            }),
    {
        Self {
            board_x_min: 0,
            board_x_max: 0,
            board_y_min: 0,
            board_y_max: 0,
            frame_left: 0,
            frame_right: 0,
            frame_bottom: 0,
            frame_top: 0,
            material_width: 0,
            material_height: 0,
            material_offset_x: 0,
            material_offset_y: 0,
            has_data: false,
        }
    }
}

/// The smaller of two values.
pub open spec fn min2(a: int, b: int) -> int {
    if a <= b {
        a
    } else {
        b
    }
}

/// The larger of two values.
pub open spec fn max2(a: int, b: int) -> int {
    if a >= b {
        a
    } else {
        b
    }
}

impl PreviewData {
    /// The material sheet lies left of and above its offset point.
    pub open spec fn spec_world_bounds(self) -> (int, int, int, int) {
        (
            min2(
                min2(self.board_x_min as int, self.frame_left as int),
                self.material_offset_x - self.material_width,
            ),
            max2(max2(self.board_x_max as int, self.frame_right as int), self.material_offset_x as int),
            min2(min2(self.board_y_min as int, self.frame_bottom as int), self.material_offset_y as int),
            max2(
                max2(self.board_y_max as int, self.frame_top as int),
                self.material_offset_y + self.material_height,
            ),
        )
    }

    /// The preview extents of a board, a frame and the material; negative
    /// material sizes count as zero.
    #[allow(clippy::too_many_arguments)]
    pub fn from_bounds_with_material(
        board_x_min: i64,
        board_x_max: i64,
        board_y_min: i64,
        board_y_max: i64,
        frame_left: i64,
        frame_right: i64,
        frame_bottom: i64,
        frame_top: i64,
        material_width: i64,
        material_height: i64,
        material_offset_x: i64,
        material_offset_y: i64,
    ) -> (d: Self)
        ensures
            d == (PreviewData {
                board_x_min,
                board_x_max,
                board_y_min,
                board_y_max,
                frame_left,
                frame_right,
                frame_bottom,
                frame_top,
                material_width: at_least_zero(material_width as int) as i64,
                material_height: at_least_zero(material_height as int) as i64,
                material_offset_x,
                material_offset_y,
                has_data: true,
            }),
    {
        Self {
            board_x_min,
            board_x_max,
            board_y_min,
            board_y_max,
            frame_left,
            frame_right,
            frame_bottom,
            frame_top,
            material_width: if material_width < 0 {
                0
            } else {
                material_width
            },
            material_height: if material_height < 0 {
                0
            } else {
                material_height
            },
            material_offset_x,
            material_offset_y,
            has_data: true,
        }
    }

    /// The smallest rectangle that holds board, frame and material:
    /// `(min_x, max_x, min_y, max_y)`.
    pub fn world_bounds(&self) -> (r: (i64, i64, i64, i64))
        requires
            in_range(self.material_width as int),
            in_range(self.material_height as int),
            in_range(self.material_offset_x as int),
            in_range(self.material_offset_y as int),
        ensures
            (r.0 as int, r.1 as int, r.2 as int, r.3 as int) == self.spec_world_bounds(),
    {
        let material_left = self.material_offset_x - self.material_width;
        let material_top = self.material_offset_y + self.material_height;
        let min_x = if self.board_x_min <= self.frame_left {
            self.board_x_min
        } else {
            self.frame_left
        };
        let min_x = if min_x <= material_left {
            min_x
        } else {
            material_left
        };
        let max_x = if self.board_x_max >= self.frame_right {
            self.board_x_max
        } else {
            self.frame_right
        };
        let max_x = if max_x >= self.material_offset_x {
            max_x
        } else {
            self.material_offset_x
        };
        let min_y = if self.board_y_min <= self.frame_bottom {
            self.board_y_min
        } else {
            self.frame_bottom
        };
        let min_y = if min_y <= self.material_offset_y {
            min_y
        } else {
            self.material_offset_y
        };
        let max_y = if self.board_y_max >= self.frame_top {
            self.board_y_max
        } else {
            self.frame_top
        };
        let max_y = if max_y >= material_top {
            max_y
        } else {
            material_top
        };
        (min_x, max_x, min_y, max_y)
    }
}

/// The world bounds hold the board, the frame and the material sheet.
pub proof fn law_world_bounds_contain_everything(d: PreviewData)
    ensures
        ({
            let (min_x, max_x, min_y, max_y) = d.spec_world_bounds();
            &&& min_x <= d.board_x_min && d.board_x_max <= max_x
            &&& min_x <= d.frame_left && d.frame_right <= max_x
            &&& min_x <= d.material_offset_x - d.material_width && d.material_offset_x <= max_x
            &&& min_y <= d.board_y_min && d.board_y_max <= max_y
            &&& min_y <= d.frame_bottom && d.frame_top <= max_y
            &&& min_y <= d.material_offset_y && d.material_offset_y + d.material_height <= max_y
        }),
{
}

} // verus!
