//! The machine for a browser canvas: frames as RGBA bytes and a key enum of
//! its own.

use vstd::prelude::*;
use vstd::std_specs::convert::FromSpecImpl;
use crate::gba::{Button, Gba, button_bit, frame_run};
use crate::host::Host;
use crate::debug::gba_summary;
use crate::{SCREEN_HEIGHT, SCREEN_WIDTH};

verus! {

/// The number of bytes of an RGBA frame.
pub const RGBA_FRAME_LEN: usize = 153_600;

pub struct WebGba {
    pub gba: Gba,
    pub rgba_framebuffer: Vec<u8>,
}

/// The keys as the page names them.
#[derive(Clone, Copy, PartialEq, Eq, Structural)]
pub enum WebButton {
    A,
    B,
    Select,
    Start,
    Right,
    Left,
    Up,
    Down,
    R,
    L,
}

pub open spec fn spec_button_of(button: WebButton) -> Button {
    match button {
        WebButton::A => Button::A,
        WebButton::B => Button::B,
        WebButton::Select => Button::Select,
        WebButton::Start => Button::Start,
        WebButton::Right => Button::Right,
        WebButton::Left => Button::Left,
        WebButton::Up => Button::Up,
        WebButton::Down => Button::Down,
        WebButton::R => Button::R,
        WebButton::L => Button::L,
    }
}

impl From<WebButton> for Button {
    fn from(button: WebButton) -> (r: Button) {
        match button {
            WebButton::A => Button::A,
            WebButton::B => Button::B,
            WebButton::Select => Button::Select,
            WebButton::Start => Button::Start,
            WebButton::Right => Button::Right,
            WebButton::Left => Button::Left,
            WebButton::Up => Button::Up,
            WebButton::Down => Button::Down,
            WebButton::R => Button::R,
            WebButton::L => Button::L,
        }
    }
}

impl FromSpecImpl<WebButton> for Button {
    open spec fn obeys_from_spec() -> bool {
        true
    }

    open spec fn from_spec(v: WebButton) -> Button {
        spec_button_of(v)
    }
}

/// Byte `i` of an RGBA image of the 0x00RRGGBB pixels `pixels`, over the
/// bytes `old` for those past the last converted pixel.
pub open spec fn rgba_byte(pixels: Seq<u32>, old: Seq<u8>, i: int) -> u8 {
    let p = i / 4;
    if p < pixels.len() && p < old.len() / 4 {
        let px = pixels[p];
        if i % 4 == 0 {
            ((px >> 16u32) & 0xff) as u8
        } else if i % 4 == 1 {
            ((px >> 8u32) & 0xff) as u8
        } else if i % 4 == 2 {
            (px & 0xff) as u8
        } else {
            0xffu8
        }
    } else {
        old[i]
    }
}

/// Converts pixels to opaque RGBA bytes, four per pixel, for as many pixels
/// as both sides hold.
pub fn write_rgba(framebuffer: &[u32], out: &mut [u8])
    ensures
        final(out)@.len() == old(out)@.len(),
        forall|i: int|
            0 <= i < old(out)@.len() ==> final(out)@[i] == rgba_byte(framebuffer@, old(out)@, i),
{
    let n = if framebuffer.len() < out.len() / 4 {
        framebuffer.len()
    } else {
        out.len() / 4
    };
    let ghost old_out = out@;
    let len = out.len();
    let mut p: usize = 0;
    while p < n
        invariant
            n <= framebuffer.len(),
            n <= old_out.len() / 4,
            n == (if framebuffer@.len() < old_out.len() / 4 {
                framebuffer@.len() as int
            } else {
                (old_out.len() / 4) as int
            }),
            p <= n,
            out@.len() == old_out.len(),
            len == old_out.len(),
            forall|i: int|
                0 <= i < out@.len() ==> out@[i] == (if i / 4 < p {
                    rgba_byte(framebuffer@, old_out, i)
                } else {
                    old_out[i]
                }),
        decreases n - p,
    {
        let px = framebuffer[p];
        proof {
            assert(4 * p + 3 < len) by (nonlinear_arith)
                requires
                    p < n,
                    n <= old_out.len() / 4,
                    out@.len() == old_out.len(),
                    len == old_out.len(),
            ;
        }
        out[4 * p] = ((px >> 16u32) & 0xff) as u8;
        out[4 * p + 1] = ((px >> 8u32) & 0xff) as u8;
        out[4 * p + 2] = (px & 0xff) as u8;
        out[4 * p + 3] = 0xff;
        proof {
            assert forall|i: int| 0 <= i < out@.len() implies out@[i] == (if i / 4 < p + 1 {
                rgba_byte(framebuffer@, old_out, i)
            } else {
                old_out[i]
            }) by {
                if i / 4 == p {
                    assert(i == 4 * p || i == 4 * p + 1 || i == 4 * p + 2 || i == 4 * p + 3);
                }
            }
        }
        p = p + 1;
    }
}

impl WebGba {
    pub open spec fn wf(&self) -> bool {
        self.gba.wf() && self.rgba_framebuffer@.len() == RGBA_FRAME_LEN
    }

    /// A machine with `rom` inserted, no save memory file and no tracing,
    /// with a black transparent canvas.
    pub fn new(rom: Vec<u8>) -> (w: WebGba)
        ensures
            w.wf(),
            w.gba.cpu@ == crate::cpu::spec_cpu_reset(false),
            w.gba.bus@ == crate::bus::power_on_bus(
                w.gba.bus@.rom,
                crate::cartridge::loaded_flash(None),
            ),
            w.gba.bus@.rom == (if rom@.len() == 0 {
                seq![0xffu8]
            } else {
                rom@
            }),
            forall|i: int| 0 <= i < RGBA_FRAME_LEN ==> w.rgba_framebuffer@[i] == 0,
    {
        WebGba {
            gba: Gba::new(rom, None, false),
            rgba_framebuffer: vec![0u8; SCREEN_WIDTH * SCREEN_HEIGHT * 4],
        }
    }

    /// Presses or releases `button`.
    pub fn set_button(&mut self, button: WebButton, pressed: bool)
        requires
            old(self).wf(),
        ensures
            final(self).wf(),
            final(self).gba.cpu@ == old(self).gba.cpu@,
            final(self).gba.bus@ == old(self).gba.bus@.set_button(
                button_bit(spec_button_of(button)),
                pressed,
            ),
            final(self).rgba_framebuffer@ == old(self).rgba_framebuffer@,
    {
        self.gba.set_button(Button::from(button), pressed);
    }

    /// Runs one frame and gives the frame as RGBA bytes.
    pub fn run_frame<H: Host>(&mut self, host: &H) -> (r: &[u8])
        requires
            old(self).wf(),
        ensures
            final(self).wf(),
            r@ == final(self).rgba_framebuffer@,
            frame_run(
                old(self).gba.cpu@,
                old(self).gba.bus@,
                final(self).gba.cpu@,
                final(self).gba.bus@,
            ),
            forall|i: int|
                0 <= i < RGBA_FRAME_LEN ==> r@[i] == rgba_byte(
                    final(self).gba.bus.ppu.frame@,
                    old(self).rgba_framebuffer@,
                    i,
                ),
    {
        self.gba.run_frame(host);
        write_rgba(self.gba.framebuffer(), self.rgba_framebuffer.as_mut_slice());
        self.rgba_framebuffer.as_slice()
    }

    /// The plain-text dump of the machine; see [`Gba::debug_summary`].
    pub fn debug_summary(&self) -> (s: String)
        requires
            self.wf(),
        ensures
            s@ == gba_summary(self.gba.cpu@, self.gba.bus@),
    {
        self.gba.debug_summary()
    }
}

} // verus!
