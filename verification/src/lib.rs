use vstd::prelude::*;

pub mod decode;
pub mod laws;
pub mod machine;
pub mod model;
pub mod screen;

pub use crate::machine::Chip8;
pub use crate::model::PC;
pub use crate::model::StepError;

verus! {

/// Number of addressable bytes of machine memory.
pub const RAM_SIZE: usize = 4096;

/// Width of the frame buffer in pixels.
pub const CHIP8_WIDTH: usize = 64;

/// Height of the frame buffer in pixels.
pub const CHIP8_HEIGHT: usize = 32;

} // verus!
