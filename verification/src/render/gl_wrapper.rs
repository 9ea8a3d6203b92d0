//! The graphics device as the renderer sees it: setup and texture handles.

use vstd::prelude::*;

verus! {

/// An error reported by the graphics backend.
pub enum GraphicsError {
    /// The backend refused the request.
    Backend,
}

/// The texture handle given out for every texture.
pub const DEFAULT_TEXTURE: u32 = 0;

/// Graphics wrapper: the safe face of the graphics device.
pub struct GlWrapper {}

impl GlWrapper {
    /// Creates the wrapper; this always succeeds.
    pub fn new() -> (r: Result<Self, GraphicsError>)
        ensures
            r is Ok,
    {
        Ok(GlWrapper {})
    }

    /// Prepares the device; this always succeeds.
    pub fn init(&mut self) -> (r: Result<(), GraphicsError>)
        ensures
            r is Ok,
            *final(self) == *old(self),
    {
        Ok(())
    }

    /// Creates a texture and returns its handle, which is always the
    /// default handle.
    pub fn create_texture(&mut self) -> (r: Result<u32, GraphicsError>)
        ensures
            r == Ok::<u32, GraphicsError>(DEFAULT_TEXTURE),
            *final(self) == *old(self),
    {
        Ok(DEFAULT_TEXTURE)
    }
}

} // verus!
