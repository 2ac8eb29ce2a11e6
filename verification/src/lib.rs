//! A verified virtual machine for the classic 8-bit "chip" architecture:
//! 4096 bytes of memory, 16 byte registers, a 64x32 monochrome framebuffer,
//! a 16-frame call stack and two countdown timers.

pub mod decode;
pub mod laws;
pub mod machine;
pub mod model;
mod rng;

use vstd::prelude::*;

verus! {

/// Width of the framebuffer in pixels.
pub const FB_WIDTH: usize = 64;

/// Height of the framebuffer in pixels.
pub const FB_HEIGHT: usize = 32;

/// Number of addressable bytes of memory.
pub const MEM_SIZE: usize = 4096;

/// Address at which a program image is loaded.
pub const PROGRAM_START: usize = 512;

} // verus!
