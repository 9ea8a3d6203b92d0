pub mod chunk_mesh;
pub mod chunk_renderer;
pub mod gl_wrapper;
pub mod hud;
pub mod frustum;
