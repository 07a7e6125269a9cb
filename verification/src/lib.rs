//! A verified interpreter for a small historical 8-bit virtual
//! machine: fixed-size memory with a preloaded glyph table, sixteen
//! registers, an index register, a call stack, two countdown timers, a
//! 64x32 monochrome framebuffer and a sixteen-key keypad, advanced one
//! instruction at a time. Every instruction's effect, and the two
//! fatal conditions (an unknown instruction word and a return from an
//! empty call stack), are stated in the contracts over a mathematical
//! view of the machine and proved.

pub mod chip8;
pub mod decode;
pub mod laws;
pub mod semantics;
mod rng;
pub mod state;

use vstd::prelude::*;

verus! {

/// Width of the framebuffer in pixels.
pub const SCREEN_WIDTH: usize = 64;

/// Height of the framebuffer in pixels.
pub const SCREEN_HEIGHT: usize = 32;

/// Total number of addressable memory bytes.
pub const MEM_SIZE: usize = 4092;

} // verus!
