//! A Game Boy Advance emulator core: ARM7TDMI interpreter, memory bus with
//! DMA, timers and interrupts, flash save memory, and a scanline PPU.

use vstd::prelude::*;

pub mod args;
pub mod alu;
pub mod bios;
pub mod bits;
pub mod bus;
pub mod cartridge;
pub mod cli;
pub mod cpu;
pub mod cpu_arm;
pub mod cpu_thumb;
pub mod debug;
pub mod edu;
pub mod gba;
pub mod hle;
pub mod host;
pub mod ppu;
pub mod text;
pub mod web;

verus! {

/// Width of the LCD in pixels.
pub const SCREEN_WIDTH: usize = 240;

/// Height of the LCD in pixels.
pub const SCREEN_HEIGHT: usize = 160;

/// Number of CPU cycles in one video frame (228 lines of 1232 cycles).
pub const FRAME_CYCLES: u32 = 280_896;

} // verus!
