//! A verified interpreter core for the CHIP-8 instruction set: memory, registers,
//! call stack, timers, key mask and a 64x32 monochrome framebuffer, advanced one
//! instruction at a time.
//!
//! `model` states what one instruction does to the machine, `ChipState` is proved
//! to do exactly that, and `laws` proves properties of the instruction set.

mod error;
pub mod laws;
mod machine;
pub mod model;

pub use error::Error;
pub use machine::ChipState;
