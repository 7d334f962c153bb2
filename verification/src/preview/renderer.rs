//! Which preview backend draws the scene.
use vstd::prelude::*;

verus! {

/// The preview backend chosen at start-up from the settings: the OpenGL
/// renderer, or the CPU rasterizer that is the dependable fallback.
#[derive(Debug, Clone, Copy, PartialEq, Eq)]
pub enum PreviewRendererBackend {
    OpenGl,
    Software,
}

impl PreviewRendererBackend {
    /// The OpenGL backend when the setting asks for it, else the CPU one.
    pub fn from_settings(use_opengl_renderer: bool) -> (b: Self)
        ensures
            b == if use_opengl_renderer {
                PreviewRendererBackend::OpenGl
            } else {
                PreviewRendererBackend::Software
            },
    {
        if use_opengl_renderer {
            PreviewRendererBackend::OpenGl
        } else {
            PreviewRendererBackend::Software
        }
    }
}

impl Default for PreviewRendererBackend {
    fn default() -> (b: Self)
        ensures
            b == PreviewRendererBackend::OpenGl,
    {
        Self::from_settings(true)
    }
}

} // verus!
