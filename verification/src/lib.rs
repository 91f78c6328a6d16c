//! A verified interpreter core for an 8-bit virtual machine with a register
//! file, 4 KiB of byte-addressable memory, a bounded call stack, a 64x32
//! monochrome framebuffer and a single-key keypad, driven by an external
//! tick source.

pub mod cpu;
pub mod display;
pub mod font;
pub mod input;
pub mod interpreter;
pub mod memory;
pub mod utils;
