use vstd::prelude::*;

verus! {

/// The display sink the interpreter loop hands the framebuffer to: an
/// injected collaborator, never a process-wide singleton, so an
/// in-memory implementation can stand in for a real surface.
pub trait Display {
    fn new() -> Self where Self: Sized;

    /// Present the current pixel contents, row-major.
    fn update(&mut self, buffer: &mut Vec<bool>);

    /// Width and height of the surface in pixels.
    fn get_size(&self) -> (usize, usize);

    /// Whether the surface is still open; drives loop termination.
    fn is_open(&self) -> bool;
}

} // verus!
