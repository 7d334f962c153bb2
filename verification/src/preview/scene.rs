//! The world-coordinate geometry the preview displays, and the immutable
//! snapshot a renderer receives for one frame.
use vstd::prelude::*;

use crate::domain::frame::{BoardBounds, FrameGeometry};

verus! {

/// Immutable world-coordinate data consumed by a preview renderer for one frame.
#[derive(Debug, Clone, Default)]
pub struct PreviewSceneSnapshot {
    pub board_bounds: Option<BoardBounds>,
    pub frame_geometry: Option<FrameGeometry>,
    pub toolpath: Vec<(i64, i64)>,
    pub rapid_path: Vec<(i64, i64)>,
}

/// World-coordinate geometry displayed by the preview. It holds no camera
/// state: pan and zoom belong to `Viewport`; this is the source of truth for
/// the previewed objects.
#[derive(Debug)]
pub struct PreviewScene {
    pub board_bounds: Option<BoardBounds>,
    pub frame_geometry: Option<FrameGeometry>,
    pub toolpath: Vec<(i64, i64)>,
    pub rapid_path: Vec<(i64, i64)>,
}

fn copy_path(path: &Vec<(i64, i64)>) -> (r: Vec<(i64, i64)>)
    ensures
        r@ == path@,
{
    let mut r: Vec<(i64, i64)> = Vec::new();
    let mut i: usize = 0;
    while i < path.len()
        invariant
            i <= path@.len(),
            r@ == path@.take(i as int),
        decreases path@.len() - i,
    {
        r.push(path[i]);
        i = i + 1;
        assert(r@ =~= path@.take(i as int));
    }
    assert(path@.take(i as int) =~= path@);
    r
}

impl PreviewScene {
    /// An empty scene: no board, no frame, no paths.
    pub fn new() -> (scene: Self)
        ensures
            scene.board_bounds is None,
            scene.frame_geometry is None,
            scene.toolpath@.len() == 0,
            scene.rapid_path@.len() == 0,
    {
        Self { board_bounds: None, frame_geometry: None, toolpath: Vec::new(), rapid_path: Vec::new() }
    }

    /// Captures the scene without exposing its storage to a renderer.
    pub fn snapshot(&self) -> (s: PreviewSceneSnapshot)
        ensures
            s.board_bounds == self.board_bounds,
            s.frame_geometry == self.frame_geometry,
            s.toolpath@ == self.toolpath@,
            s.rapid_path@ == self.rapid_path@,
    {
        PreviewSceneSnapshot {
            board_bounds: self.board_bounds,
            frame_geometry: self.frame_geometry,
            toolpath: copy_path(&self.toolpath),
            rapid_path: copy_path(&self.rapid_path),
        }
    }
}

impl Default for PreviewScene {
    fn default() -> (scene: Self)
        ensures
            scene.board_bounds is None,
            scene.frame_geometry is None,
            scene.toolpath@.len() == 0,
            scene.rapid_path@.len() == 0,
    {
        Self::new()
    }
}

} // verus!
