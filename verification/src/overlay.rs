//! The overlay's frame decisions: which output surfaces get a new buffer.
use vstd::prelude::*;

verus! {

/// The shared-memory buffer drawn for one output: ARGB, four bytes per pixel.
#[derive(Clone, Copy, Debug, PartialEq, Eq, Structural)]
pub struct SurfaceBuffer {
    pub width: u32,
    pub height: u32,
    pub stride: u32,
}

/// The buffer to draw for an output surface: none until the compositor has
/// configured it with a non-empty size.
pub fn surface_buffer(configured: bool, width: u32, height: u32) -> (b: Option<SurfaceBuffer>)
    requires
        configured && width > 0 && height > 0 ==> width * 4 <= u32::MAX,
    ensures
        b == if !configured || width == 0 || height == 0 {
            None
        } else {
            Some(SurfaceBuffer { width, height, stride: (width * 4) as u32 })
        },
{
    if !configured || width == 0 || height == 0 {
        None
    } else {
        Some(SurfaceBuffer { width, height, stride: width * 4 })
    }
}

} // verus!
