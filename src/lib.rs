//! An interpreter for the CHIP-8 virtual machine: machine state, the
//! fetch-decode-execute cycle, a monochrome framebuffer and a sixteen-key pad.

pub mod cpu;
pub mod display;
pub mod keypad;
pub mod laws;
