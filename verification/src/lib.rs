pub mod cpu;
pub mod frontend;
pub mod laws;
pub mod semantics;

use vstd::prelude::*;

verus! {

/// Width of the monochrome framebuffer in pixels.
pub const DISPLAY_WIDTH: usize = 64;
/// Height of the monochrome framebuffer in pixels.
pub const DISPLAY_HEIGHT: usize = 32;
/// Size of the addressable memory in bytes.
pub const MEMORY_SIZE: usize = 4096;

} // verus!
