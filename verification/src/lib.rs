//! An interpreter for an 8-bit virtual machine with a fixed 35-opcode
//! instruction set, 4 KiB of memory, a 64x32 monochrome framebuffer, a
//! 16-key input pad and two countdown timers.
//!
//! The interpreter owns the whole machine state and exposes a single
//! advancing operation: execute one instruction. Rendering, audio and real
//! key polling are left to an external driver that consumes the values the
//! interpreter reports.

pub mod cpu;
pub mod laws;
pub mod opcode;
