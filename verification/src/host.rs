//! Services the emulator core asks of its embedder.

use vstd::prelude::*;

verus! {

/// What the machine needs from outside the verified core: the BIOS routines
/// defined in floating point, and diagnostics output.
pub trait Host {
    /// BIOS ArcTan: the angle of tangent `x` (1.14 fixed point) in units of
    /// 1/65536 of a turn.
    fn arc_tan(&self, x: i16) -> i16;

    /// BIOS ArcTan2: the angle of vector (x, y) in units of 1/65536 of a turn.
    fn arc_tan2(&self, x: i16, y: i16) -> i16;

    /// BIOS BgAffineSet matrix (pa, pb, pc, pd) for 8.8 scales `sx`, `sy` and
    /// rotation `theta` in units of 1/65536 of a turn.
    fn affine_params(&self, sx: i16, sy: i16, theta: u16) -> (i16, i16, i16, i16);

    /// BIOS MidiKey2Freq: `base` divided by two to the power of
    /// `semitones / 12`.
    fn midi_key_to_freq(&self, base: u32, semitones: i32) -> u32;

    /// Called before each executed instruction when tracing is on.
    fn trace(&self, pc: u32, instr: u32, thumb: bool);

    /// Called when a frame did not finish within the step budget.
    fn frame_guard_tripped(&self, pc: u32);
}

} // verus!
