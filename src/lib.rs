//! An interpreter core for a minimal 8-bit virtual machine with sixteen byte
//! registers, 4 KiB of memory, a sixteen-entry call stack, two countdown
//! timers, a sixteen-key keypad and a 64 by 32 one-bit display.

pub mod cpu;
pub mod decode;
pub mod laws;
