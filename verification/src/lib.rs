//! An interpreter core for the CHIP-8 virtual machine: 4096 bytes of memory,
//! sixteen 8-bit registers, a sixteen-level call stack, two timers, a 64x32
//! monochrome display and a sixteen-key pad, driven by two-byte opcodes.
//!
//! Every component has a mathematical view, and every operation states in its
//! contract how the views before and after relate.

pub mod cpu;
pub mod display;
pub mod emulator;
pub mod error;
pub mod input;
pub mod memory;
