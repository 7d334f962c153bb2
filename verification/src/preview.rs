//! Preview support: colours, camera state, pointer panning and the scene's
//! world bounds.
pub mod color;
pub mod data;
pub mod input;
pub mod layers;
pub mod opengl_renderer;
pub mod renderer;
pub mod scene;
pub mod software_renderer;
pub mod viewport;
