//! A verified CHIP-8 interpreter core.
//!
//! The machine state (memory, registers, stack, framebuffer, timers, keys)
//! and the fetch-decode-execute cycle are modelled by spec functions over
//! mathematical sequences; the executable interpreter is proved to follow
//! that model exactly, instruction by instruction.

pub mod display;
pub mod draw;
pub mod cycle;
pub mod laws;
pub mod machine;
pub mod model;

pub use display::to_0rgb;
