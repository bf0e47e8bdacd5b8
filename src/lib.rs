//! An interpreter for the CHIP-8 virtual machine: memory, registers, call
//! stack and a monochrome display, one fetched instruction per cycle.
pub mod chip8;
pub mod laws;
pub mod model;

pub use chip8::{to_nybbles, Chip8, DebugInfo};
