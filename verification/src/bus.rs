//! The system bus: memory map, I/O registers, interrupts, keypad, DMA and
//! timers.

use vstd::prelude::*;
use crate::bits::{le16, le32, lemma_u32_and_le, lemma_usize_and_le};
use crate::cartridge::{Flash, FlashView};
use crate::ppu::{
    Ppu,
    PpuView,
    LINE_CYCLES,
    HBLANK_START,
    VISIBLE_LINES,
    TOTAL_LINES,
    spec_set_dispstat_bit,
    spec_request_irq,
    spec_read16,
    spec_check_vcounter,
    FRAME_PIXELS,
};

verus! {

pub const EWRAM_SIZE: usize = 0x40000;
pub const IWRAM_SIZE: usize = 0x8000;
pub const PRAM_SIZE: usize = 0x400;
pub const VRAM_SIZE: usize = 0x18000;
pub const OAM_SIZE: usize = 0x400;
pub const IO_SIZE: usize = 0x400;

/// How many DMA transfers may be started from inside other DMA transfers
/// before further immediate starts are left pending.
pub const DMA_NEST_LIMIT: u32 = 8;

/// Capacity of the recent I/O write log.
pub const IO_LOG_LEN: usize = 64;

#[derive(Clone, Copy)]
pub struct Timer {
    pub counter: u16,
    pub reload: u16,
    pub control: u16,
    pub divider: u32,
}

#[derive(Clone, Copy)]
pub struct IoWrite {
    pub frame: u64,
    pub off: usize,
    pub size: usize,
    pub value: u32,
}

pub struct Bus {
    pub rom: Vec<u8>,
    pub ewram: Vec<u8>,
    pub iwram: Vec<u8>,
    pub pram: Vec<u8>,
    pub vram: Vec<u8>,
    pub oam: Vec<u8>,
    pub io: [u8; 0x400],
    pub ppu: Ppu,
    pub timers: [Timer; 4],
    pub dma_src: [u32; 4],
    pub dma_dst: [u32; 4],
    pub flash: Flash,
    pub frame: u64,
    pub io_log: Vec<IoWrite>,
}

/// The mathematical state of the bus.
pub ghost struct BusView {
    pub rom: Seq<u8>,
    pub ewram: Seq<u8>,
    pub iwram: Seq<u8>,
    pub pram: Seq<u8>,
    pub vram: Seq<u8>,
    pub oam: Seq<u8>,
    pub io: Seq<u8>,
    pub ppu: PpuView,
    pub timers: Seq<Timer>,
    pub dma_src: Seq<u32>,
    pub dma_dst: Seq<u32>,
    pub flash: FlashView,
    pub frame: u64,
    pub io_log: Seq<IoWrite>,
}

impl View for Bus {
    type V = BusView;

    open spec fn view(&self) -> BusView {
        BusView {
            rom: self.rom@,
            ewram: self.ewram@,
            iwram: self.iwram@,
            pram: self.pram@,
            vram: self.vram@,
            oam: self.oam@,
            io: self.io@,
            ppu: self.ppu@,
            timers: self.timers@,
            dma_src: self.dma_src@,
            dma_dst: self.dma_dst@,
            flash: self.flash@,
            frame: self.frame,
            io_log: self.io_log@,
        }
    }
}

/// Offset into VRAM of a bus address in the VRAM region (the upper 32 KiB
/// mirror folds back onto the object tiles).
pub open spec fn spec_vram_offset(addr: u32) -> int {
    let off = addr & 0x1ffff;
    if off >= VRAM_SIZE {
        0x10000 + (off & 0x7fff)
    } else {
        off as int
    }
}

/// Offset into a ROM image of `len` bytes (mirrored every `len` bytes).
pub open spec fn spec_rom_offset(addr: u32, len: nat) -> int {
    ((addr & 0x01ff_ffff) as int) % (len as int)
}

/// Whether the half-open byte ranges `[off, off+size)` and
/// `[target, target+target_size)` intersect.
pub open spec fn spec_overlaps(off: int, size: int, target: int, target_size: int) -> bool {
    off < target + target_size && target < off + size
}

/// The I/O byte array with a little-endian halfword stored at `off`.
pub open spec fn io_put16(io: Seq<u8>, off: int, value: u16) -> Seq<u8> {
    io.update(off, (value & 0xff) as u8).update(off + 1, (value >> 8u16) as u8)
}

pub open spec fn io16(io: Seq<u8>, off: int) -> u16 {
    le16(io[off], io[off + 1])
}

pub open spec fn io32(io: Seq<u8>, off: int) -> u32 {
    le32(io[off], io[off + 1], io[off + 2], io[off + 3])
}

pub open spec fn in_range(addr: u32, lo: u32, hi: u32) -> bool {
    lo <= addr <= hi
}

impl BusView {
    pub open spec fn wf(self) -> bool {
        &&& 1 <= self.rom.len() <= usize::MAX
        &&& self.ewram.len() == EWRAM_SIZE
        &&& self.iwram.len() == IWRAM_SIZE
        &&& self.pram.len() == PRAM_SIZE
        &&& self.vram.len() == VRAM_SIZE
        &&& self.oam.len() == OAM_SIZE
        &&& self.io.len() == IO_SIZE
        &&& self.ppu.wf()
        &&& self.timers.len() == 4
        &&& self.dma_src.len() == 4
        &&& self.dma_dst.len() == 4
        &&& self.flash.wf()
        &&& self.io_log.len() <= IO_LOG_LEN
    }

    /// Little-endian halfword of the I/O registers at `off`.
    pub open spec fn io16(self, off: int) -> u16 {
        io16(self.io, off)
    }

    pub open spec fn io32(self, off: int) -> u32 {
        io32(self.io, off)
    }

    /// The byte a CPU read of `addr` observes.
    pub open spec fn read8(self, addr: u32) -> u8 {
        if addr <= 0x3fff {
            0
        } else if in_range(addr, 0x0200_0000, 0x02ff_ffff) {
            self.ewram[(addr & 0x3ffff) as int]
        } else if in_range(addr, 0x0300_0000, 0x03ff_ffff) {
            self.iwram[(addr & 0x7fff) as int]
        } else if in_range(addr, 0x0400_0000, 0x04ff_ffff) {
            self.io[(addr & 0x3ff) as int]
        } else if in_range(addr, 0x0500_0000, 0x05ff_ffff) {
            self.pram[(addr & 0x3ff) as int]
        } else if in_range(addr, 0x0600_0000, 0x06ff_ffff) {
            self.vram[spec_vram_offset(addr)]
        } else if in_range(addr, 0x0700_0000, 0x07ff_ffff) {
            self.oam[(addr & 0x3ff) as int]
        } else if in_range(addr, 0x0800_0000, 0x0dff_ffff) {
            self.rom[spec_rom_offset(addr, self.rom.len())]
        } else if in_range(addr, 0x0e00_0000, 0x0eff_ffff) {
            self.flash.read(addr)
        } else {
            0
        }
    }

    /// The halfword a CPU read of `addr` observes (the low address bit is
    /// ignored).
    pub open spec fn read16(self, addr: u32) -> u16 {
        let a = addr & !1u32;
        le16(self.read8(a), self.read8((a + 1) as u32))
    }

    /// The word a CPU read of `addr` observes (the low two address bits are
    /// ignored).
    pub open spec fn read32(self, addr: u32) -> u32 {
        let a = addr & !3u32;
        le32(
            self.read8(a),
            self.read8((a + 1) as u32),
            self.read8((a + 2) as u32),
            self.read8((a + 3) as u32),
        )
    }

    /// The I/O registers after a raw byte store at offset `off`: the vertical
    /// counter and key input are read-only, and the interrupt request flags
    /// are cleared by writing ones.
    pub open spec fn write_io_raw8(self, off: int, value: u8) -> BusView {
        if off == 0x006 || off == 0x007 || off == 0x130 || off == 0x131 {
            self
        } else if off == 0x202 || off == 0x203 {
            let clear: u16 = if off == 0x202 {
                value as u16
            } else {
                ((value as u16) << 8u16) as u16
            };
            BusView { io: io_put16(self.io, 0x202, self.io16(0x202) & !clear), ..self }
        } else {
            BusView { io: self.io.update(off, value), ..self }
        }
    }

    /// The bus after a byte store that bypasses I/O side effects and the
    /// 16-bit bus of palette, VRAM and OAM.
    pub open spec fn write8_raw(self, addr: u32, value: u8) -> BusView {
        if in_range(addr, 0x0200_0000, 0x02ff_ffff) {
            BusView { ewram: self.ewram.update((addr & 0x3ffff) as int, value), ..self }
        } else if in_range(addr, 0x0300_0000, 0x03ff_ffff) {
            BusView { iwram: self.iwram.update((addr & 0x7fff) as int, value), ..self }
        } else if in_range(addr, 0x0400_0000, 0x04ff_ffff) {
            self.write_io_raw8((addr & 0x3ff) as int, value)
        } else if in_range(addr, 0x0500_0000, 0x05ff_ffff) {
            BusView { pram: self.pram.update((addr & 0x3ff) as int, value), ..self }
        } else if in_range(addr, 0x0600_0000, 0x06ff_ffff) {
            BusView { vram: self.vram.update(spec_vram_offset(addr), value), ..self }
        } else if in_range(addr, 0x0700_0000, 0x07ff_ffff) {
            BusView { oam: self.oam.update((addr & 0x3ff) as int, value), ..self }
        } else if in_range(addr, 0x0e00_0000, 0x0eff_ffff) {
            BusView { flash: self.flash.write(addr, value), ..self }
        } else {
            self
        }
    }

    /// Interrupt request flags with `flags` raised.
    pub open spec fn request_irq(self, flags: u16) -> BusView {
        BusView { io: io_put16(self.io, 0x202, self.io16(0x202) | flags), ..self }
    }

    /// Interrupts that are both enabled and requested, when the master enable
    /// is on.
    pub open spec fn irq_pending(self) -> u16 {
        if self.io16(0x208) & 1 == 0 {
            0
        } else {
            self.io16(0x200) & self.io16(0x202)
        }
    }

    /// KEYINPUT after pressing or releasing the key of bit `bit` (active low),
    /// without the key interrupt.
    pub open spec fn keys_after(self, bit: u16, pressed: bool) -> u16 {
        let keys = self.io16(0x130);
        let k = if pressed {
            keys & !(1u16 << bit)
        } else {
            keys | (1u16 << bit)
        };
        k & 0x03ff
    }

    /// Whether the key interrupt condition of KEYCNT holds for KEYINPUT `keys`.
    pub open spec fn key_irq_hit(self, keys: u16) -> bool {
        let keycnt = self.io16(0x132);
        let mask = keycnt & 0x03ff;
        let pressed_bits = (!keys) & 0x03ff;
        &&& keycnt & 0x4000 != 0
        &&& if keycnt & 0x8000 != 0 {
            pressed_bits & mask == mask
        } else {
            pressed_bits & mask != 0
        }
    }

    pub open spec fn set_button(self, bit: u16, pressed: bool) -> BusView {
        let keys = self.keys_after(bit, pressed);
        let b = BusView { io: io_put16(self.io, 0x130, keys), ..self };
        if b.key_irq_hit(keys) {
            b.request_irq(0x1000)
        } else {
            b
        }
    }
}

pub fn vram_offset(addr: u32) -> (r: usize)
    ensures
        r == spec_vram_offset(addr),
        r < VRAM_SIZE,
{
    proof {
        lemma_u32_and_le(addr, 0x1ffff);
        lemma_u32_and_le(addr & 0x1ffff, 0x7fff);
    }
    let mut off = (addr & 0x1ffff) as usize;
    if off >= VRAM_SIZE {
        off = 0x10000 + (off & 0x7fff);
        proof {
            lemma_usize_and_le((addr & 0x1ffff) as usize, 0x7fff);
        }
    }
    off
}

pub fn rom_offset(addr: u32, len: usize) -> (r: usize)
    requires
        len >= 1,
    ensures
        r == spec_rom_offset(addr, len as nat),
        r < len,
{
    ((addr & 0x01ff_ffff) as usize) % len
}

pub fn overlaps(off: usize, size: usize, target: usize, target_size: usize) -> (r: bool)
    requires
        off + size <= usize::MAX,
        target + target_size <= usize::MAX,
    ensures
        r == spec_overlaps(off as int, size as int, target as int, target_size as int),
{
    off < target + target_size && target < off + size
}

/// Stores `value` little-endian at `io[off..off + 2]`.
pub fn write_io_raw16(io: &mut [u8; 0x400], off: usize, value: u16)
    requires
        off + 1 < IO_SIZE,
    ensures
        final(io)@ == io_put16(old(io)@, off as int, value),
{
    io[off] = (value & 0xff) as u8;
    io[off + 1] = (value >> 8) as u8;
}

proof fn lemma_align_bounds(addr: u32)
    ensures
        addr & !1u32 <= 0xffff_fffe,
        addr & !3u32 <= 0xffff_fffc,
{
    assert(addr & !1u32 <= 0xffff_fffe && addr & !3u32 <= 0xffff_fffc) by (bit_vector);
}

impl Bus {
    pub open spec fn wf(&self) -> bool {
        self@.wf()
    }

    pub fn frame_count(&self) -> (r: u64)
        ensures
            r == self.frame,
    {
        self.frame
    }

    pub fn framebuffer(&self) -> (r: &[u32])
        ensures
            r@ == self.ppu.frame@,
    {
        self.ppu.frame.as_slice()
    }

    fn read_io8(&self, off: usize) -> (r: u8)
        requires
            self.wf(),
            off < IO_SIZE,
        ensures
            r == self@.io[off as int],
    {
        self.io[off]
    }

    pub(crate) fn read_io16(&self, off: usize) -> (r: u16)
        requires
            self.wf(),
            off + 1 < IO_SIZE,
        ensures
            r == self@.io16(off as int),
    {
        (self.read_io8(off) as u16) | ((self.read_io8(off + 1) as u16) << 8)
    }

    pub(crate) fn read_io32(&self, off: usize) -> (r: u32)
        requires
            self.wf(),
            off + 3 < IO_SIZE,
        ensures
            r == self@.io32(off as int),
    {
        (self.read_io8(off) as u32) | ((self.read_io8(off + 1) as u32) << 8) | ((self.read_io8(
            off + 2,
        ) as u32) << 16) | ((self.read_io8(off + 3) as u32) << 24)
    }

    pub fn read8(&self, addr: u32) -> (r: u8)
        requires
            self.wf(),
        ensures
            r == self@.read8(addr),
    {
        proof {
            lemma_u32_and_le(addr, 0x3ffff);
            lemma_u32_and_le(addr, 0x7fff);
            lemma_u32_and_le(addr, 0x3ff);
        }
        if addr <= 0x3fff {
            0
        } else if 0x0200_0000 <= addr && addr <= 0x02ff_ffff {
            self.ewram[(addr & 0x3ffff) as usize]
        } else if 0x0300_0000 <= addr && addr <= 0x03ff_ffff {
            self.iwram[(addr & 0x7fff) as usize]
        } else if 0x0400_0000 <= addr && addr <= 0x04ff_ffff {
            self.read_io8((addr & 0x3ff) as usize)
        } else if 0x0500_0000 <= addr && addr <= 0x05ff_ffff {
            self.pram[(addr & 0x3ff) as usize]
        } else if 0x0600_0000 <= addr && addr <= 0x06ff_ffff {
            self.vram[vram_offset(addr)]
        } else if 0x0700_0000 <= addr && addr <= 0x07ff_ffff {
            self.oam[(addr & 0x3ff) as usize]
        } else if 0x0800_0000 <= addr && addr <= 0x0dff_ffff {
            self.rom[rom_offset(addr, self.rom.len())]
        } else if 0x0e00_0000 <= addr && addr <= 0x0eff_ffff {
            self.flash.read(addr)
        } else {
            0
        }
    }

    pub fn read16(&self, addr: u32) -> (r: u16)
        requires
            self.wf(),
        ensures
            r == self@.read16(addr),
    {
        proof {
            lemma_align_bounds(addr);
        }
        let a = addr & !1u32;
        (self.read8(a) as u16) | ((self.read8(a + 1) as u16) << 8)
    }

    pub fn read32(&self, addr: u32) -> (r: u32)
        requires
            self.wf(),
        ensures
            r == self@.read32(addr),
    {
        proof {
            lemma_align_bounds(addr);
        }
        let a = addr & !3u32;
        (self.read8(a) as u32) | ((self.read8(a + 1) as u32) << 8) | ((self.read8(a + 2) as u32)
            << 16) | ((self.read8(a + 3) as u32) << 24)
    }

    fn write_io_raw8(&mut self, off: usize, value: u8)
        requires
            old(self).wf(),
            off < IO_SIZE,
        ensures
            store_frame(old(self)@, final(self)@),
            final(self).wf(),
            final(self)@ == old(self)@.write_io_raw8(off as int, value),
    {
        if off == 0x006 || off == 0x007 || off == 0x130 || off == 0x131 {
        } else if off == 0x202 || off == 0x203 {
            let clear: u16 = if off == 0x202 {
                value as u16
            } else {
                (value as u16) << 8
            };
            let now = self.read_io16(0x202) & !clear;
            write_io_raw16(&mut self.io, 0x202, now);
        } else {
            self.io[off] = value;
        }
    }

    pub fn write8_raw(&mut self, addr: u32, value: u8)
        requires
            old(self).wf(),
        ensures
            store_frame(old(self)@, final(self)@),
            final(self).wf(),
            final(self)@ == old(self)@.write8_raw(addr, value),
    {
        proof {
            lemma_u32_and_le(addr, 0x3ffff);
            lemma_u32_and_le(addr, 0x7fff);
            lemma_u32_and_le(addr, 0x3ff);
        }
        if 0x0200_0000 <= addr && addr <= 0x02ff_ffff {
            let off = (addr & 0x3ffff) as usize;
            self.ewram[off] = value;
        } else if 0x0300_0000 <= addr && addr <= 0x03ff_ffff {
            let off = (addr & 0x7fff) as usize;
            self.iwram[off] = value;
        } else if 0x0400_0000 <= addr && addr <= 0x04ff_ffff {
            self.write_io_raw8((addr & 0x3ff) as usize, value);
        } else if 0x0500_0000 <= addr && addr <= 0x05ff_ffff {
            let off = (addr & 0x3ff) as usize;
            self.pram[off] = value;
        } else if 0x0600_0000 <= addr && addr <= 0x06ff_ffff {
            let off = vram_offset(addr);
            self.vram[off] = value;
        } else if 0x0700_0000 <= addr && addr <= 0x07ff_ffff {
            let off = (addr & 0x3ff) as usize;
            self.oam[off] = value;
        } else if 0x0e00_0000 <= addr && addr <= 0x0eff_ffff {
            self.flash.write(addr, value);
        }
    }

    pub fn request_irq(&mut self, flags: u16)
        requires
            old(self).wf(),
        ensures
            store_frame(old(self)@, final(self)@),
            final(self).wf(),
            final(self)@ == old(self)@.request_irq(flags),
    {
        let iflag = self.read_io16(0x202) | flags;
        write_io_raw16(&mut self.io, 0x202, iflag);
    }

    pub fn irq_pending(&self) -> (r: u16)
        requires
            self.wf(),
        ensures
            r == self@.irq_pending(),
    {
        if self.read_io16(0x208) & 1 == 0 {
            return 0;
        }
        self.read_io16(0x200) & self.read_io16(0x202)
    }

    /// Whether any of `flags` is requested in IF.
    pub fn wait_ready(&self, flags: u16) -> (r: bool)
        requires
            self.wf(),
        ensures
            r == (self@.io16(0x202) & flags != 0),
    {
        self.read_io16(0x202) & flags != 0
    }

    /// Acknowledges the interrupts of `flags` in IF.
    pub fn clear_if(&mut self, flags: u16)
        requires
            old(self).wf(),
        ensures
            store_frame(old(self)@, final(self)@),
            final(self).wf(),
            final(self)@ == (BusView {
                io: io_put16(old(self)@.io, 0x202, old(self)@.io16(0x202) & !flags),
                ..old(self)@
            }),
    {
        let value = self.read_io16(0x202) & !flags;
        write_io_raw16(&mut self.io, 0x202, value);
    }

    /// The interrupt handler address the program stored at 0x03007ffc.
    pub fn irq_handler(&self) -> (r: u32)
        requires
            self.wf(),
        ensures
            r == self@.read32(0x0300_7ffc),
    {
        self.read32(0x0300_7ffc)
    }

    /// Writes the save chip out through `write` when it changed; see
    /// [`Flash::flush`].
    pub fn flush_save<E, F: FnOnce(&[u8]) -> Result<(), E>>(&mut self, write: F) -> (r: Result<(), E>)
        requires
            old(self).wf(),
            old(self).flash.dirty ==> forall|s: &[u8]| s@ == old(self).flash.data@ ==> call_requires(write, (s,)),
        ensures
            final(self).wf(),
            !old(self)@.flash.dirty ==> r is Ok && final(self)@ == old(self)@,
            old(self)@.flash.dirty ==> exists|s: &[u8]| s@ == old(self)@.flash.data && call_ensures(write, (s,), r),
            old(self)@.flash.dirty ==> final(self)@ == (BusView {
                flash: FlashView { dirty: r is Err, ..old(self)@.flash },
                ..old(self)@
            }),
    {
        self.flash.flush(write)
    }

    /// The same as [`Bus::flush_save`].
    pub fn flush_save_if_dirty<E, F: FnOnce(&[u8]) -> Result<(), E>>(&mut self, write: F) -> (r: Result<(), E>)
        requires
            old(self).wf(),
            old(self).flash.dirty ==> forall|s: &[u8]| s@ == old(self).flash.data@ ==> call_requires(write, (s,)),
        ensures
            final(self).wf(),
            !old(self)@.flash.dirty ==> r is Ok && final(self)@ == old(self)@,
            old(self)@.flash.dirty ==> exists|s: &[u8]| s@ == old(self)@.flash.data && call_ensures(write, (s,), r),
            old(self)@.flash.dirty ==> final(self)@ == (BusView {
                flash: FlashView { dirty: r is Err, ..old(self)@.flash },
                ..old(self)@
            }),
    {
        self.flash.flush_if_dirty(write)
    }

    /// Presses or releases the key of KEYINPUT bit `bit`, raising the keypad
    /// interrupt when KEYCNT asks for it.
    pub fn set_button(&mut self, bit: u16, pressed: bool)
        requires
            old(self).wf(),
            bit < 16,
        ensures
            final(self).wf(),
            final(self)@ == old(self)@.set_button(bit, pressed),
    {
        let mut keys = self.read_io16(0x130);
        if pressed {
            keys = keys & !(1u16 << bit);
        } else {
            keys = keys | (1u16 << bit);
        }
        write_io_raw16(&mut self.io, 0x130, keys & 0x03ff);
        let keycnt = self.read_io16(0x132);
        if keycnt & 0x4000 != 0 {
            let mask = keycnt & 0x03ff;
            let pressed_bits = (!(keys & 0x03ff)) & 0x03ff;
            let hit = if keycnt & 0x8000 != 0 {
                pressed_bits & mask == mask
            } else {
                pressed_bits & mask != 0
            };
            if hit {
                self.request_irq(0x1000);
            }
        }
    }
}


/// What no CPU or DMA store changes: the ROM, the frame counter and the PPU,
/// and no timer prescaler phase grows.
/// An I/O register byte at power-on: all keys released, the sound bias and
/// the wait-state control set, POSTFLG raised, everything else zero.
pub open spec fn power_on_io(off: int) -> u8 {
    if off == 0x130 {
        0xff
    } else if off == 0x131 {
        0x03
    } else if off == 0x204 {
        0x17
    } else if off == 0x205 {
        0x43
    } else if off == 0x300 {
        1
    } else {
        0
    }
}

/// The bus at power-on with cartridge `rom` and save chip `flash`: cleared
/// memories, power-on registers, idle timers and DMA, the beam at the start
/// of the first line, a black frame.
pub open spec fn power_on_bus(rom: Seq<u8>, flash: FlashView) -> BusView {
    BusView {
        rom,
        ewram: Seq::new(EWRAM_SIZE as nat, |i: int| 0u8),
        iwram: Seq::new(IWRAM_SIZE as nat, |i: int| 0u8),
        pram: Seq::new(PRAM_SIZE as nat, |i: int| 0u8),
        vram: Seq::new(VRAM_SIZE as nat, |i: int| 0u8),
        oam: Seq::new(OAM_SIZE as nat, |i: int| 0u8),
        io: Seq::new(IO_SIZE as nat, |i: int| power_on_io(i)),
        ppu: PpuView { frame: Seq::new(FRAME_PIXELS as nat, |i: int| 0u32), line: 0, line_cycles: 0 },
        timers: Seq::new(4, |i: int| Timer { counter: 0, reload: 0, control: 0, divider: 0 }),
        dma_src: Seq::new(4, |i: int| 0u32),
        dma_dst: Seq::new(4, |i: int| 0u32),
        flash,
        frame: 0,
        io_log: Seq::empty(),
    }
}

pub open spec fn store_frame(a: BusView, b: BusView) -> bool {
    &&& b.rom == a.rom
    &&& b.frame == a.frame
    &&& b.ppu == a.ppu
    &&& b.timers[0].divider <= a.timers[0].divider
    &&& b.timers[1].divider <= a.timers[1].divider
    &&& b.timers[2].divider <= a.timers[2].divider
    &&& b.timers[3].divider <= a.timers[3].divider
}

pub proof fn lemma_store_frame_trans(a: BusView, b: BusView, c: BusView)
    requires
        store_frame(a, b),
        store_frame(b, c),
    ensures
        store_frame(a, c),
{
}

/// Address increment of a DMA pointer for control mode `mode` and transfer
/// unit `unit` bytes: increment (also for increment-reload), decrement, fixed.
pub open spec fn spec_addr_step(mode: u16, unit: u32) -> i32 {
    if mode == 1 {
        -(unit as int) as i32
    } else if mode == 2 {
        0
    } else {
        unit as i32
    }
}

pub fn addr_step(mode: u16, unit: u32) -> (r: i32)
    requires
        unit <= 4,
    ensures
        r == spec_addr_step(mode, unit),
{
    match mode {
        1 => -(unit as i32),
        2 => 0,
        _ => unit as i32,
    }
}

pub open spec fn wrapping_add_signed(x: u32, y: i32) -> u32 {
    vstd::wrapping::u32_specs::wrapping_add_signed(x, y)
}

/// DMA address control: after each unit of `unit` bytes the pointer moves on
/// by the unit in mode 0 (increment) and 3 (increment, reload), back by it in
/// mode 1 (decrement), and stays where it is in mode 2 (fixed).
pub proof fn law_dma_address_modes(mode: u16, unit: u32, a: u32)
    requires
        unit == 2 || unit == 4,
        mode <= 3,
    ensures
        mode == 0 || mode == 3 ==> wrapping_add_signed(a, spec_addr_step(mode, unit))
            == vstd::wrapping::u32_specs::wrapping_add(a, unit),
        mode == 1 ==> wrapping_add_signed(a, spec_addr_step(mode, unit))
            == vstd::wrapping::u32_specs::wrapping_sub(a, unit),
        mode == 2 ==> wrapping_add_signed(a, spec_addr_step(mode, unit)) == a,
{
}

/// A DMA whose source is fixed reads every unit from its start address: the
/// source pointer is where it began after any number of units.
pub proof fn law_fixed_source_dma(
    b: BusView,
    src: u32,
    dst: u32,
    dst_step: i32,
    unit: u32,
    n: nat,
    fuel: nat,
)
    requires
        unit == 2 || unit == 4,
    ensures
        b.dma_run(src, dst, spec_addr_step(2, unit), dst_step, unit, n, fuel).1 == src,
    decreases n,
{
    lemma_unfold_dma_run(b, src, dst, spec_addr_step(2, unit), dst_step, unit, 0, fuel);
    if n > 0 {
        law_fixed_source_dma(b, src, dst, dst_step, unit, (n - 1) as nat, fuel);
        lemma_unfold_dma_run(b, src, dst, spec_addr_step(2, unit), dst_step, unit, (n - 1) as nat, fuel);
        law_dma_address_modes(2, unit, src);
    }
}

/// Whether a write of `size` bytes at I/O offset `off` is recorded in the log.
pub open spec fn io_write_logged(off: int) -> bool {
    off < 0x060 || (0x200 <= off <= 0x209)
}

/// DMA register block offset of channel `ch`.
pub open spec fn dma_base(ch: int) -> int {
    0xb0 + ch * 12
}

impl BusView {
    pub open spec fn log_io_write(self, off: int, size: int, value: u32) -> BusView {
        if !io_write_logged(off) {
            self
        } else {
            let log = if self.io_log.len() == IO_LOG_LEN {
                self.io_log.remove(0)
            } else {
                self.io_log
            };
            BusView {
                io_log: log.push(
                    IoWrite { frame: self.frame, off: off as usize, size: size as usize, value },
                ),
                ..self
            }
        }
    }

    /// A halfword store to an I/O register before its side effects: DISPSTAT's
    /// status bits and VCOUNT/KEYINPUT are read-only, IF is write-one-to-clear.
    pub open spec fn write_io16_no_after(self, off: int, value: u16) -> BusView {
        if off == 0x004 {
            let status = self.io16(0x004) & 0x0007;
            BusView { io: io_put16(self.io, 0x004, status | (value & !0x0007u16)), ..self }
        } else if off == 0x006 || off == 0x130 {
            self
        } else if off == 0x202 {
            BusView { io: io_put16(self.io, 0x202, self.io16(0x202) & !value), ..self }
        } else {
            BusView { io: io_put16(self.io, off, value), ..self }
        }
    }

    /// Timer `t` after a write of `size` bytes at I/O offset `off`: the reload
    /// register latches, and enabling the timer restarts it from the reload.
    pub open spec fn timer_update(self, off: int, size: int, t: int) -> BusView {
        let base = 0x100 + t * 4;
        let b1 = if spec_overlaps(off, size, base, 2) {
            BusView {
                timers: self.timers.update(t, Timer { reload: self.io16(base), ..self.timers[t] }),
                ..self
            }
        } else {
            self
        };
        if spec_overlaps(off, size, base + 2, 2) {
            let old_control = b1.timers[t].control;
            let new_control = b1.io16(base + 2);
            let tm = Timer { control: new_control, ..b1.timers[t] };
            if old_control & 0x80 == 0 && new_control & 0x80 != 0 {
                let tm2 = Timer { counter: tm.reload, divider: 0, ..tm };
                BusView {
                    timers: b1.timers.update(t, tm2),
                    io: io_put16(b1.io, base, tm2.counter),
                    ..b1
                }
            } else {
                BusView { timers: b1.timers.update(t, tm), ..b1 }
            }
        } else {
            b1
        }
    }

    pub open spec fn timer_updates(self, off: int, size: int, n: nat) -> BusView
        decreases n,
    {
        if n == 0 {
            self
        } else {
            self.timer_updates(off, size, (n - 1) as nat).timer_update(off, size, n - 1)
        }
    }

    /// DMA channel `ch` registers latched after a write at I/O offset `off`,
    /// and whether the write starts an immediate transfer.
    pub open spec fn dma_latch(self, off: int, size: int, ch: int) -> (BusView, bool) {
        let base = dma_base(ch);
        let b1 = if spec_overlaps(off, size, base, 4) {
            BusView { dma_src: self.dma_src.update(ch, self.io32(base)), ..self }
        } else {
            self
        };
        let b2 = if spec_overlaps(off, size, base + 4, 4) {
            BusView { dma_dst: b1.dma_dst.update(ch, b1.io32(base + 4)), ..b1 }
        } else {
            b1
        };
        if spec_overlaps(off, size, base + 10, 2) && b2.io16(base + 10) & 0x8000 != 0 {
            let b3 = BusView {
                dma_src: b2.dma_src.update(ch, b2.io32(base)),
                dma_dst: b2.dma_dst.update(ch, b2.io32(base + 4)),
                ..b2
            };
            (b3, (b2.io16(base + 10) >> 12u16) & 3 == 0)
        } else {
            (b2, false)
        }
    }

    /// DMA channel `ch` after a write at I/O offset `off`: source and
    /// destination latch, and setting the enable bit with immediate timing
    /// starts the transfer.
    #[verifier::opaque]
    pub open spec fn dma_update(self, off: int, size: int, ch: int, fuel: nat) -> BusView
        decreases fuel, 2nat, 0nat,
    {
        let (b3, start) = self.dma_latch(off, size, ch);
        if start && fuel > 0 {
            b3.run_dma_channel(ch, 0, (fuel - 1) as nat)
        } else {
            b3
        }
    }

    #[verifier::opaque]
    pub open spec fn dma_updates(self, off: int, size: int, n: nat, fuel: nat) -> BusView
        decreases fuel, 3nat, n,
    {
        if n == 0 {
            self
        } else {
            self.dma_updates(off, size, (n - 1) as nat, fuel).dma_update(off, size, n - 1, fuel)
        }
    }

    /// Side effects of a write of `size` bytes at I/O offset `off`.
    #[verifier::opaque]
    pub open spec fn after_io_write(self, off: int, size: int, fuel: nat) -> BusView
        decreases fuel, 4nat, 0nat,
    {
        self.timer_updates(off, size, 4).dma_updates(off, size, 4, fuel)
    }

    /// A byte store to the I/O region before its side effects.
    pub open spec fn io_store8(self, off: int, value: u8) -> BusView {
        self.log_io_write(off, 1, value as u32).write_io_raw8(off, value)
    }

    pub open spec fn io_store16(self, off: int, value: u16) -> BusView {
        self.log_io_write(off, 2, value as u32).write_io16_no_after(off, value)
    }

    pub open spec fn io_store32(self, off: int, value: u32) -> BusView {
        self.log_io_write(off, 4, value).write_io16_no_after(off, value as u16).write_io16_no_after(
            off + 2,
            (value >> 16u32) as u16,
        )
    }

    /// A halfword store outside the I/O registers.
    pub open spec fn mem_store16(self, a: u32, value: u16) -> BusView {
        self.write8_raw(a, (value & 0xff) as u8).write8_raw((a + 1) as u32, (value >> 8u16) as u8)
    }

    pub open spec fn mem_store32(self, a: u32, value: u32) -> BusView {
        self.write8_raw(a, (value & 0xff) as u8).write8_raw(
            (a + 1) as u32,
            ((value >> 8u32) & 0xff) as u8,
        ).write8_raw((a + 2) as u32, ((value >> 16u32) & 0xff) as u8).write8_raw(
            (a + 3) as u32,
            (value >> 24u32) as u8,
        )
    }

    /// The bus after a CPU byte store.
    #[verifier::opaque]
    pub open spec fn write8(self, addr: u32, value: u8, fuel: nat) -> BusView
        decreases fuel, 5nat, 0nat,
    {
        if in_range(addr, 0x0400_0000, 0x04ff_ffff) {
            let off = (addr & 0x3ff) as int;
            self.io_store8(off, value).after_io_write(off, 1, fuel)
        } else if in_range(addr, 0x0500_0000, 0x07ff_ffff) {
            let a = addr & !1u32;
            self.write8_raw(a, value).write8_raw((a + 1) as u32, value)
        } else {
            self.write8_raw(addr, value)
        }
    }

    /// The bus after a CPU halfword store.
    #[verifier::opaque]
    pub open spec fn write16(self, addr: u32, value: u16, fuel: nat) -> BusView
        decreases fuel, 5nat, 0nat,
    {
        let a = addr & !1u32;
        if in_range(a, 0x0400_0000, 0x0400_03ff) {
            let off = (a & 0x3ff) as int;
            self.io_store16(off, value).after_io_write(off, 2, fuel)
        } else {
            self.mem_store16(a, value)
        }
    }

    /// The bus after a CPU word store.
    #[verifier::opaque]
    pub open spec fn write32(self, addr: u32, value: u32, fuel: nat) -> BusView
        decreases fuel, 5nat, 0nat,
    {
        let a = addr & !3u32;
        if in_range(a, 0x0400_0000, 0x0400_03ff) {
            let off = (a & 0x3ff) as int;
            self.io_store32(off, value).after_io_write(off, 4, fuel)
        } else {
            self.mem_store32(a, value)
        }
    }

    /// One DMA unit of `unit` bytes from `src` to `dst`.
    pub open spec fn dma_unit_copy(self, src: u32, dst: u32, unit: u32, fuel: nat) -> BusView
        decreases fuel, 6nat, 0nat,
    {
        if unit == 4 {
            self.write32(dst, self.read32(src), fuel)
        } else {
            self.write16(dst, self.read16(src), fuel)
        }
    }

    /// `n` DMA transfer units of `unit` bytes from `src` to `dst`; returns the
    /// bus and the final pointers.
    #[verifier::opaque]
    pub open spec fn dma_run(
        self,
        src: u32,
        dst: u32,
        src_step: i32,
        dst_step: i32,
        unit: u32,
        n: nat,
        fuel: nat,
    ) -> (BusView, u32, u32)
        decreases fuel, 7nat, n,
    {
        if n == 0 {
            (self, src, dst)
        } else {
            let (b1, s1, d1) = self.dma_run(src, dst, src_step, dst_step, unit, (n - 1) as nat, fuel);
            (
                b1.dma_unit_copy(s1, d1, unit, fuel),
                wrapping_add_signed(s1, src_step),
                wrapping_add_signed(d1, dst_step),
            )
        }
    }

    /// Number of units a DMA channel moves for its count register value.
    pub open spec fn dma_count(self, ch: int, timing: u16) -> u32 {
        let count0 = self.io16(dma_base(ch) + 8) as u32;
        if timing == 3 && (ch == 1 || ch == 2) {
            4
        } else if count0 == 0 {
            if ch == 3 {
                0x1_0000
            } else {
                0x4000
            }
        } else {
            count0
        }
    }

    /// Transfer unit in bytes of DMA control value `control`.
    pub open spec fn dma_unit(control: u16, fifo: bool) -> u32 {
        if control & 0x400 != 0 || fifo {
            4
        } else {
            2
        }
    }

    /// Whether DMA channel `ch` is enabled with start timing `timing`.
    pub open spec fn dma_armed(self, ch: int, timing: u16) -> bool {
        let control = self.io16(dma_base(ch) + 10);
        control & 0x8000 != 0 && ((control >> 12u16) & 3) == timing
    }

    /// Source step, destination step and unit of channel `ch` for `timing`.
    pub open spec fn dma_steps(self, ch: int, timing: u16) -> (i32, i32, u32) {
        let control = self.io16(dma_base(ch) + 10);
        let fifo = timing == 3 && (ch == 1 || ch == 2);
        let unit = Self::dma_unit(control, fifo);
        (
            spec_addr_step((control >> 7u16) & 3, unit),
            if fifo {
                0
            } else {
                spec_addr_step((control >> 5u16) & 3, unit)
            },
            unit,
        )
    }

    /// Pointer bookkeeping and completion of DMA channel `ch` after its
    /// transfers ended at `src` and `dst`.
    pub open spec fn finish_dma(
        self,
        ch: int,
        control: u16,
        timing: u16,
        src: u32,
        dst: u32,
        dst_start: u32,
    ) -> BusView {
        let fifo = timing == 3 && (ch == 1 || ch == 2);
        let dst_mode = (control >> 5u16) & 3;
        let b2 = if control & 0x4000 != 0 {
            self.request_irq((1u16 << ((8 + ch) as u16)) as u16)
        } else {
            self
        };
        if control & 0x200 != 0 && timing != 0 {
            BusView {
                dma_src: b2.dma_src.update(ch, src),
                dma_dst: b2.dma_dst.update(
                    ch,
                    if fifo || dst_mode == 3 {
                        dst_start
                    } else {
                        dst
                    },
                ),
                ..b2
            }
        } else {
            BusView {
                io: io_put16(b2.io, dma_base(ch) + 10, control & !0x8000u16),
                dma_src: b2.dma_src.update(ch, src),
                dma_dst: b2.dma_dst.update(ch, dst),
                ..b2
            }
        }
    }

    /// DMA channel `ch` run once for start timing `timing` if it is enabled
    /// with that timing.
    #[verifier::opaque]
    pub open spec fn run_dma_channel(self, ch: int, timing: u16, fuel: nat) -> BusView
        decreases fuel, 8nat, 0nat,
    {
        if !self.dma_armed(ch, timing) {
            self
        } else {
            let (src_step, dst_step, unit) = self.dma_steps(ch, timing);
            let (b1, src, dst) = self.dma_run(
                self.dma_src[ch],
                self.dma_dst[ch],
                src_step,
                dst_step,
                unit,
                self.dma_count(ch, timing) as nat,
                fuel,
            );
            b1.finish_dma(
                ch,
                self.io16(dma_base(ch) + 10),
                timing,
                src,
                dst,
                self.dma_dst[ch],
            )
        }
    }
}

proof fn lemma_unfold_dma_update(b: BusView, off: int, size: int, ch: int, fuel: nat)
    ensures
        b.dma_update(off, size, ch, fuel) == (if b.dma_latch(off, size, ch).1 && fuel > 0 {
            b.dma_latch(off, size, ch).0.run_dma_channel(ch, 0, (fuel - 1) as nat)
        } else {
            b.dma_latch(off, size, ch).0
        }),
{
    reveal(BusView::dma_update);
    reveal(BusView::run_dma_channel);
}

proof fn lemma_unfold_dma_updates(b: BusView, off: int, size: int, n: nat, fuel: nat)
    ensures
        b.dma_updates(off, size, 0, fuel) == b,
        n > 0 ==> b.dma_updates(off, size, n, fuel) == b.dma_updates(
            off,
            size,
            (n - 1) as nat,
            fuel,
        ).dma_update(off, size, n - 1, fuel),
{
    reveal(BusView::dma_updates);
    reveal(BusView::dma_update);
}

proof fn lemma_unfold_after_io_write(b: BusView, off: int, size: int, fuel: nat)
    ensures
        b.after_io_write(off, size, fuel) == b.timer_updates(off, size, 4).dma_updates(
            off,
            size,
            4,
            fuel,
        ),
{
    reveal(BusView::after_io_write);
    reveal(BusView::dma_updates);
}

proof fn lemma_unfold_writes(b: BusView, addr: u32, v8: u8, v16: u16, v32: u32, fuel: nat)
    ensures
        b.write8(addr, v8, fuel) == (if in_range(addr, 0x0400_0000, 0x04ff_ffff) {
            b.io_store8((addr & 0x3ff) as int, v8).after_io_write((addr & 0x3ff) as int, 1, fuel)
        } else if in_range(addr, 0x0500_0000, 0x07ff_ffff) {
            b.write8_raw(addr & !1u32, v8).write8_raw(((addr & !1u32) + 1) as u32, v8)
        } else {
            b.write8_raw(addr, v8)
        }),
        b.write16(addr, v16, fuel) == (if in_range(addr & !1u32, 0x0400_0000, 0x0400_03ff) {
            b.io_store16(((addr & !1u32) & 0x3ff) as int, v16).after_io_write(
                ((addr & !1u32) & 0x3ff) as int,
                2,
                fuel,
            )
        } else {
            b.mem_store16(addr & !1u32, v16)
        }),
        b.write32(addr, v32, fuel) == (if in_range(addr & !3u32, 0x0400_0000, 0x0400_03ff) {
            b.io_store32(((addr & !3u32) & 0x3ff) as int, v32).after_io_write(
                ((addr & !3u32) & 0x3ff) as int,
                4,
                fuel,
            )
        } else {
            b.mem_store32(addr & !3u32, v32)
        }),
{
    reveal(BusView::write8);
    reveal(BusView::write16);
    reveal(BusView::write32);
    reveal(BusView::after_io_write);
}

proof fn lemma_unfold_dma_run(
    b: BusView,
    src: u32,
    dst: u32,
    src_step: i32,
    dst_step: i32,
    unit: u32,
    n: nat,
    fuel: nat,
)
    ensures
        b.dma_run(src, dst, src_step, dst_step, unit, 0, fuel) == (b, src, dst),
        ({
            let (b1, s1, d1) = b.dma_run(src, dst, src_step, dst_step, unit, n, fuel);
            b.dma_run(src, dst, src_step, dst_step, unit, n + 1, fuel) == (
                b1.dma_unit_copy(s1, d1, unit, fuel),
                wrapping_add_signed(s1, src_step),
                wrapping_add_signed(d1, dst_step),
            )
        }),
{
    reveal(BusView::dma_run);
    reveal(BusView::write32);
    reveal(BusView::write16);
}

proof fn lemma_unfold_unit_copy(b: BusView, src: u32, dst: u32, unit: u32, fuel: nat)
    ensures
        b.dma_unit_copy(src, dst, unit, fuel) == (if unit == 4 {
            b.write32(dst, b.read32(src), fuel)
        } else {
            b.write16(dst, b.read16(src), fuel)
        }),
{
    reveal(BusView::write32);
    reveal(BusView::write16);
}

proof fn lemma_unfold_run_dma_channel(b: BusView, ch: int, timing: u16, fuel: nat)
    ensures
        b.run_dma_channel(ch, timing, fuel) == (if !b.dma_armed(ch, timing) {
            b
        } else {
            let (src_step, dst_step, unit) = b.dma_steps(ch, timing);
            let (b1, src, dst) = b.dma_run(
                b.dma_src[ch],
                b.dma_dst[ch],
                src_step,
                dst_step,
                unit,
                b.dma_count(ch, timing) as nat,
                fuel,
            );
            b1.finish_dma(ch, b.io16(dma_base(ch) + 10), timing, src, dst, b.dma_dst[ch])
        }),
{
    reveal(BusView::run_dma_channel);
    reveal(BusView::dma_run);
}

pub proof fn lemma_io_put16_read(io: Seq<u8>, off: int, v: u16)
    requires
        0 <= off,
        off + 1 < io.len(),
    ensures
        io16(io_put16(io, off, v), off) == v,
{
    assert(((v & 0xff) as u8 as u16) | (((v >> 8u16) as u8 as u16) << 8u16) == v) by (bit_vector);
}

/// Work RAM keeps what the CPU stores: a halfword stored anywhere in EWRAM
/// or IWRAM (or their mirrors) reads back unchanged.
pub proof fn law_ram_halfword_read_back(b: BusView, addr: u32, v: u16, fuel: nat)
    requires
        b.wf(),
        0x0200_0000 <= addr <= 0x03ff_ffff,
    ensures
        b.write16(addr, v, fuel).read16(addr) == v,
{
    lemma_unfold_writes(b, addr, 0, v, 0, fuel);
    let a = addr & !1u32;
    assert(0x0200_0000 <= a <= 0x03ff_fffe && (a + 1) as u32 == a | 1 && ((a + 1) as u32) & !1u32 == a && (((a + 1) as u32) & 0x3ffff) == (a & 0x3ffff) + 1 && (((a + 1) as u32) & 0x7fff) == (a & 0x7fff) + 1 && (a & 0x3ffff) <= 0x3fffe && (a & 0x7fff) <= 0x7ffe) by (bit_vector)
        requires
            a == addr & !1u32,
            0x0200_0000 <= addr <= 0x03ff_ffff,
    ;
    assert(((v & 0xff) as u8 as u16) | (((v >> 8u16) as u8 as u16) << 8u16) == v) by (bit_vector);
}

/// Work RAM keeps what the CPU stores: a word stored anywhere in EWRAM or
/// IWRAM (or their mirrors) reads back unchanged.
pub proof fn law_ram_word_read_back(b: BusView, addr: u32, v: u32, fuel: nat)
    requires
        b.wf(),
        0x0200_0000 <= addr <= 0x03ff_ffff,
    ensures
        b.write32(addr, v, fuel).read32(addr) == v,
{
    lemma_unfold_writes(b, addr, 0, 0, v, fuel);
    let a = addr & !3u32;
    assert(0x0200_0000 <= a <= 0x03ff_fffc && ((a + 1) as u32) & 0x3ffff == (a & 0x3ffff) + 1 && ((a + 2) as u32) & 0x3ffff == (a & 0x3ffff) + 2 && ((a + 3) as u32) & 0x3ffff == (a & 0x3ffff) + 3 && ((a + 1) as u32) & 0x7fff
        == (a & 0x7fff) + 1 && ((a + 2) as u32) & 0x7fff == (a & 0x7fff) + 2 && ((a + 3) as u32) & 0x7fff == (a
        & 0x7fff) + 3 && (a & 0x3ffff) <= 0x3fffc && (a & 0x7fff) <= 0x7ffc) by (bit_vector)
        requires
            a == addr & !3u32,
            0x0200_0000 <= addr <= 0x03ff_ffff,
    ;
    lemma_word_bytes(v);
}

/// The little-endian word of RAM bytes `e` at offset `o`.
pub open spec fn ram_word(e: Seq<u8>, o: int) -> u32 {
    le32(e[o], e[o + 1], e[o + 2], e[o + 3])
}

/// RAM bytes `e` after storing word `v` at offset `o`.
pub open spec fn ram_store(e: Seq<u8>, o: int, v: u32) -> Seq<u8> {
    e.update(o, (v & 0xff) as u8).update(o + 1, ((v >> 8u32) & 0xff) as u8).update(
        o + 2,
        ((v >> 16u32) & 0xff) as u8,
    ).update(o + 3, (v >> 24u32) as u8)
}

/// Where the first image of IWRAM (`iw`) or of EWRAM starts.
pub open spec fn ram_base(iw: bool) -> u32 {
    if iw {
        0x0300_0000
    } else {
        0x0200_0000
    }
}

/// The size of IWRAM (`iw`) or of EWRAM.
pub open spec fn ram_size(iw: bool) -> int {
    if iw {
        IWRAM_SIZE as int
    } else {
        EWRAM_SIZE as int
    }
}

/// The bytes of IWRAM (`iw`) or of EWRAM.
pub open spec fn ram_of(b: BusView, iw: bool) -> Seq<u8> {
    if iw {
        b.iwram
    } else {
        b.ewram
    }
}

/// The bus with the bytes of IWRAM (`iw`) or of EWRAM replaced by `e`.
pub open spec fn with_ram(b: BusView, iw: bool, e: Seq<u8>) -> BusView {
    if iw {
        BusView { iwram: e, ..b }
    } else {
        BusView { ewram: e, ..b }
    }
}

/// Whether `a` is an aligned word address in the first image of IWRAM (`iw`)
/// or of EWRAM.
pub open spec fn ram_word_addr(iw: bool, a: u32) -> bool {
    &&& ram_base(iw) <= a
    &&& a + 4 <= ram_base(iw) + ram_size(iw)
    &&& a & 3 == 0
}

/// A word is its four bytes put back together.
proof fn lemma_word_bytes(v: u32)
    ensures
        ((v & 0xff) as u8 as u32) | ((((v >> 8u32) & 0xff) as u8 as u32) << 8u32) | ((((v
            >> 16u32) & 0xff) as u8 as u32) << 16u32) | (((v >> 24u32) as u8 as u32) << 24u32)
            == v,
{
    assert(((v & 0xff) as u8 as u32) | ((((v >> 8u32) & 0xff) as u8 as u32) << 8u32) | ((((v
        >> 16u32) & 0xff) as u8 as u32) << 16u32) | (((v >> 24u32) as u8 as u32) << 24u32) == v)
        by (bit_vector);
}

/// The bytes of an aligned word in the first image of a work RAM lie at
/// consecutive offsets from the image's start.
proof fn lemma_ram_addr(iw: bool, a: u32)
    requires
        ram_word_addr(iw, a),
    ensures
        a & !3u32 == a,
        iw ==> ((a + 1) as u32) & 0x7fff == (a - 0x0300_0000) + 1 && ((a + 2) as u32) & 0x7fff == (a
            - 0x0300_0000) + 2 && ((a + 3) as u32) & 0x7fff == (a - 0x0300_0000) + 3 && a & 0x7fff
            == a - 0x0300_0000,
        !iw ==> ((a + 1) as u32) & 0x3ffff == (a - 0x0200_0000) + 1 && ((a + 2) as u32) & 0x3ffff
            == (a - 0x0200_0000) + 2 && ((a + 3) as u32) & 0x3ffff == (a - 0x0200_0000) + 3 && a
            & 0x3ffff == a - 0x0200_0000,
{
    let e = 0x0200_0000 <= a <= 0x0203_fffc;
    let i = 0x0300_0000 <= a <= 0x0300_7ffc;
    assert(iw ==> i);
    assert(!iw ==> e);
    assert(a & !3u32 == a && (i ==> ((a + 1) as u32) & 0x7fff == (a - 0x0300_0000) + 1 && ((a + 2)
        as u32) & 0x7fff == (a - 0x0300_0000) + 2 && ((a + 3) as u32) & 0x7fff == (a - 0x0300_0000)
        + 3 && a & 0x7fff == a - 0x0300_0000) && (e ==> ((a + 1) as u32) & 0x3ffff == (a
        - 0x0200_0000) + 1 && ((a + 2) as u32) & 0x3ffff == (a - 0x0200_0000) + 2 && ((a + 3) as u32)
        & 0x3ffff == (a - 0x0200_0000) + 3 && a & 0x3ffff == a - 0x0200_0000)) by (bit_vector)
        requires
            i || e,
            a & 3 == 0,
            e == (0x0200_0000 <= a <= 0x0203_fffc),
            i == (0x0300_0000 <= a <= 0x0300_7ffc),
    ;
}

/// A word store to an aligned address in the first image of a work RAM
/// changes those four bytes of that RAM and nothing else, and they read back
/// as the word.
pub proof fn lemma_ram_store(b: BusView, iw: bool, a: u32, v: u32, fuel: nat)
    requires
        b.wf(),
        ram_word_addr(iw, a),
    ensures
        b.write32(a, v, fuel) == with_ram(b, iw, ram_store(ram_of(b, iw), a - ram_base(iw), v)),
        ram_word(ram_store(ram_of(b, iw), a - ram_base(iw), v), a - ram_base(iw)) == v,
{
    lemma_unfold_writes(b, a, 0, 0, v, fuel);
    lemma_ram_addr(iw, a);
    let o = a - ram_base(iw);
    if iw {
        assert(b.write32(a, v, fuel).iwram =~= ram_store(b.iwram, o, v));
    } else {
        assert(b.write32(a, v, fuel).ewram =~= ram_store(b.ewram, o, v));
    }
    lemma_word_bytes(v);
}

/// A word read from an aligned address in the first image of a work RAM is
/// the RAM word there.
pub proof fn lemma_ram_read(b: BusView, iw: bool, x: u32)
    requires
        ram_word_addr(iw, x),
    ensures
        b.read32(x) == ram_word(ram_of(b, iw), x - ram_base(iw)),
{
    lemma_ram_addr(iw, x);
}

/// The key input register cannot be written: a byte stored into it leaves
/// the keys as they were.
pub proof fn law_keyinput_read_only(b: BusView, addr: u32, v: u8)
    requires
        b.wf(),
        addr == 0x0400_0130 || addr == 0x0400_0131,
    ensures
        b.write8_raw(addr, v).io16(0x130) == b.io16(0x130),
{
    assert(addr & 0x3ff == 0x130 || addr & 0x3ff == 0x131) by (bit_vector)
        requires
            addr == 0x0400_0130 || addr == 0x0400_0131,
    ;
}

/// Interrupt flags are acknowledged by writing ones: a halfword written to
/// IF clears exactly the flags it has set.
pub proof fn law_if_write_one_to_clear(b: BusView, v: u16)
    requires
        b.wf(),
    ensures
        b.write_io16_no_after(0x202, v).io16(0x202) == b.io16(0x202) & !v,
{
    lemma_io_put16_read(b.io, 0x202, b.io16(0x202) & !v);
}

/// A pressed key reads as 0 in the active-low key input register and a
/// released one as 1; the other keys are unchanged.
pub proof fn law_button_bit(b: BusView, bit: u16, pressed: bool)
    requires
        b.wf(),
        bit < 10,
    ensures
        ({
            let keys = b.set_button(bit, pressed).io16(0x130);
            &&& (keys >> bit) & 1 == (if pressed {
                0u16
            } else {
                1u16
            })
            &&& forall|k: u16|
                k < 10 && k != bit ==> (#[trigger] (keys >> k)) & 1 == (b.io16(0x130) >> k) & 1
        }),
{
    let keys = b.keys_after(bit, pressed);
    let b1 = BusView { io: io_put16(b.io, 0x130, keys), ..b };
    lemma_io_put16_read(b.io, 0x130, keys);
    if b1.key_irq_hit(keys) {
        let flags = b1.io16(0x202) | 0x1000;
        assert(io16(io_put16(b1.io, 0x202, flags), 0x130) == io16(b1.io, 0x130));
    }
    let old_keys = b.io16(0x130);
    assert((keys >> bit) & 1 == (if pressed {
        0u16
    } else {
        1u16
    })) by (bit_vector)
        requires
            bit < 10,
            keys == (if pressed {
                old_keys & !(1u16 << bit)
            } else {
                old_keys | (1u16 << bit)
            }) & 0x03ff,
    ;
    assert forall|k: u16| k < 10 && k != bit implies (#[trigger] (keys >> k)) & 1 == (old_keys
        >> k) & 1 by {
        assert((keys >> k) & 1 == (old_keys >> k) & 1) by (bit_vector)
            requires
                bit < 10,
                k < 10,
                k != bit,
                keys == (if pressed {
                    old_keys & !(1u16 << bit)
                } else {
                    old_keys | (1u16 << bit)
                }) & 0x03ff,
        ;
    }
}

proof fn lemma_io_put16_same(io: Seq<u8>, off: int)
    requires
        0 <= off,
        off + 1 < io.len(),
    ensures
        io_put16(io, off, (io16(io, off) & 0x0007) | (io16(io, off) & !0x0007u16)) == io,
{
    let lo = io[off];
    let hi = io[off + 1];
    let v = le16(lo, hi);
    assert(((v & 0x0007) | (v & !0x0007u16)) == v && (v & 0xff) as u8 == lo && (v >> 8u16) as u8
        == hi) by (bit_vector)
        requires
            v == (lo as u16) | ((hi as u16) << 8u16),
    ;
    assert(io_put16(io, off, v) =~= io);
}

proof fn lemma_io_align(addr: u32)
    ensures
        0x0400_0000 <= (addr & !1u32) <= 0x0400_03ff ==> (addr & !1u32) & 0x3ff <= 0x3fe,
        0x0400_0000 <= (addr & !3u32) <= 0x0400_03ff ==> (addr & !3u32) & 0x3ff <= 0x3fc,
{
    assert(0x0400_0000 <= (addr & !1u32) <= 0x0400_03ff ==> (addr & !1u32) & 0x3ff <= 0x3fe)
        by (bit_vector);
    assert(0x0400_0000 <= (addr & !3u32) <= 0x0400_03ff ==> (addr & !3u32) & 0x3ff <= 0x3fc)
        by (bit_vector);
}

impl Bus {
    fn log_io_write(&mut self, off: usize, size: usize, value: u32)
        requires
            old(self).wf(),
        ensures
            store_frame(old(self)@, final(self)@),
            final(self).wf(),
            final(self)@ == old(self)@.log_io_write(off as int, size as int, value),
    {
        let interesting = off < 0x060 || (0x200 <= off && off <= 0x209);
        if !interesting {
            return;
        }
        if self.io_log.len() == IO_LOG_LEN {
            self.io_log.remove(0);
        }
        self.io_log.push(IoWrite { frame: self.frame, off, size, value });
    }

    fn write_io16_no_after(&mut self, off: usize, value: u16)
        requires
            old(self).wf(),
            off + 1 < IO_SIZE,
        ensures
            store_frame(old(self)@, final(self)@),
            final(self).wf(),
            final(self)@ == old(self)@.write_io16_no_after(off as int, value),
    {
        if off == 0x004 {
            let status = self.read_io16(0x004) & 0x0007;
            write_io_raw16(&mut self.io, 0x004, status | (value & !0x0007u16));
        } else if off == 0x006 || off == 0x130 {
        } else if off == 0x202 {
            let now = self.read_io16(0x202) & !value;
            write_io_raw16(&mut self.io, 0x202, now);
        } else {
            write_io_raw16(&mut self.io, off, value);
        }
    }

    fn write_io8(&mut self, off: usize, value: u8, fuel: u32)
        requires
            old(self).wf(),
            off < IO_SIZE,
        ensures
            store_frame(old(self)@, final(self)@),
            final(self).wf(),
            final(self)@ == old(self)@.io_store8(off as int, value).after_io_write(
                off as int,
                1,
                fuel as nat,
            ),
        decreases fuel, 5nat, 0nat,
    {
        self.log_io_write(off, 1, value as u32);
        self.write_io_raw8(off, value);
        self.after_io_write(off, 1, fuel);
    }

    fn timer_update(&mut self, off: usize, size: usize, t: usize)
        requires
            old(self).wf(),
            off < IO_SIZE,
            size <= 4,
            t < 4,
        ensures
            store_frame(old(self)@, final(self)@),
            final(self).wf(),
            final(self)@ == old(self)@.timer_update(off as int, size as int, t as int),
    {
        let base = 0x100 + t * 4;
        if overlaps(off, size, base, 2) {
            let mut tm = self.timers[t];
            tm.reload = self.read_io16(base);
            self.timers[t] = tm;
        }
        if overlaps(off, size, base + 2, 2) {
            let mut tm = self.timers[t];
            let old_control = tm.control;
            let new_control = self.read_io16(base + 2);
            tm.control = new_control;
            if old_control & 0x80 == 0 && new_control & 0x80 != 0 {
                tm.counter = tm.reload;
                tm.divider = 0;
                self.timers[t] = tm;
                write_io_raw16(&mut self.io, base, tm.counter);
            } else {
                self.timers[t] = tm;
            }
        }
        proof {
            assert(self@.timers =~= old(self)@.timer_update(off as int, size as int, t as int).timers);
        }
    }

    fn dma_latch(&mut self, off: usize, size: usize, ch: usize) -> (start: bool)
        requires
            old(self).wf(),
            off < IO_SIZE,
            size <= 4,
            ch < 4,
        ensures
            store_frame(old(self)@, final(self)@),
            final(self).wf(),
            (final(self)@, start) == old(self)@.dma_latch(off as int, size as int, ch as int),
    {
        let base = 0x0b0 + ch * 12;
        if overlaps(off, size, base, 4) {
            self.dma_src[ch] = self.read_io32(base);
        }
        if overlaps(off, size, base + 4, 4) {
            self.dma_dst[ch] = self.read_io32(base + 4);
        }
        if overlaps(off, size, base + 10, 2) && self.read_io16(base + 10) & 0x8000 != 0 {
            self.dma_src[ch] = self.read_io32(base);
            self.dma_dst[ch] = self.read_io32(base + 4);
            (self.read_io16(base + 10) >> 12) & 3 == 0
        } else {
            false
        }
    }

    fn dma_update(&mut self, off: usize, size: usize, ch: usize, fuel: u32)
        requires
            old(self).wf(),
            off < IO_SIZE,
            size <= 4,
            ch < 4,
        ensures
            store_frame(old(self)@, final(self)@),
            final(self).wf(),
            final(self)@ == old(self)@.dma_update(off as int, size as int, ch as int, fuel as nat),
        decreases fuel, 2nat, 0nat,
    {
        proof {
            lemma_unfold_dma_update(self@, off as int, size as int, ch as int, fuel as nat);
        }
        let ghost start = self@;
        let go = self.dma_latch(off, size, ch);
        if go && fuel > 0 {
            let ghost mid = self@;
            self.run_dma_channel(ch, 0, fuel - 1);
            proof {
                lemma_store_frame_trans(start, mid, self@);
            }
        }
    }

    fn after_io_write(&mut self, off: usize, size: usize, fuel: u32)
        requires
            old(self).wf(),
            off < IO_SIZE,
            size <= 4,
        ensures
            store_frame(old(self)@, final(self)@),
            final(self).wf(),
            final(self)@ == old(self)@.after_io_write(off as int, size as int, fuel as nat),
        decreases fuel, 4nat, 0nat,
    {
        let ghost start = self@;
        proof {
            lemma_unfold_after_io_write(start, off as int, size as int, fuel as nat);
        }
        if overlaps(off, size, 0x004, 2) {
            let status = self.read_io16(0x004) & 0x0007;
            let writable = self.read_io16(0x004) & !0x0007u16;
            proof {
                lemma_io_put16_same(self@.io, 4);
            }
            write_io_raw16(&mut self.io, 0x004, status | writable);
        }
        assert(self@ == start);
        let mut timer: usize = 0;
        while timer < 4
            invariant
                self.wf(),
                off < IO_SIZE,
                size <= 4,
                timer <= 4,
                self@ == start.timer_updates(off as int, size as int, timer as nat),
                store_frame(start, self@),
            decreases 4 - timer,
        {
            let ghost before = self@;
            self.timer_update(off, size, timer);
            proof {
                lemma_store_frame_trans(start, before, self@);
            }
            timer = timer + 1;
        }
        let ghost mid = self@;
        proof {
            lemma_unfold_dma_updates(mid, off as int, size as int, 0, fuel as nat);
        }
        let mut ch: usize = 0;
        while ch < 4
            invariant
                self.wf(),
                off < IO_SIZE,
                size <= 4,
                ch <= 4,
                store_frame(start, mid),
                store_frame(mid, self@),
                self@ == mid.dma_updates(off as int, size as int, ch as nat, fuel as nat),
            decreases 4 - ch,
        {
            let ghost before = self@;
            self.dma_update(off, size, ch, fuel);
            proof {
                lemma_unfold_dma_updates(mid, off as int, size as int, (ch + 1) as nat, fuel as nat);
                lemma_store_frame_trans(mid, before, self@);
            }
            ch = ch + 1;
        }
        proof {
            lemma_store_frame_trans(start, mid, self@);
        }
    }

    fn finish_dma(
        &mut self,
        ch: usize,
        control: u16,
        timing: u16,
        src: u32,
        dst: u32,
        dst_start: u32,
    )
        requires
            old(self).wf(),
            ch < 4,
        ensures
            store_frame(old(self)@, final(self)@),
            final(self).wf(),
            final(self)@ == old(self)@.finish_dma(ch as int, control, timing, src, dst, dst_start),
    {
        let base = 0x0b0 + ch * 12;
        let fifo_dma = timing == 3 && (ch == 1 || ch == 2);
        let dst_mode = (control >> 5) & 3;
        if control & 0x4000 != 0 {
            self.request_irq(1u16 << (8 + ch as u16));
        }
        let repeat = control & 0x200 != 0;
        if repeat && timing != 0 {
            if fifo_dma || dst_mode == 3 {
                self.dma_dst[ch] = dst_start;
            } else {
                self.dma_dst[ch] = dst;
            }
            self.dma_src[ch] = src;
        } else {
            let new_control = control & !0x8000u16;
            write_io_raw16(&mut self.io, base + 10, new_control);
            self.dma_src[ch] = src;
            self.dma_dst[ch] = dst;
        }
    }

    /// Moves `count` units of `unit` bytes, stepping the pointers after each.
    #[verifier::rlimit(40)]
    fn dma_transfers(
        &mut self,
        src_start: u32,
        dst_start: u32,
        src_step: i32,
        dst_step: i32,
        unit: u32,
        count: u32,
        fuel: u32,
    ) -> (r: (u32, u32))
        requires
            old(self).wf(),
            unit == 2 || unit == 4,
        ensures
            final(self).wf(),
            store_frame(old(self)@, final(self)@),
            (final(self)@, r.0, r.1) == old(self)@.dma_run(
                src_start,
                dst_start,
                src_step,
                dst_step,
                unit,
                count as nat,
                fuel as nat,
            ),
        decreases fuel, 7nat, count,
    {
        let ghost start = self@;
        proof {
            lemma_unfold_dma_run(start, src_start, dst_start, src_step, dst_step, unit, 0, fuel as nat);
        }
        let mut src = src_start;
        let mut dst = dst_start;
        let mut i: u32 = 0;
        while i < count
            invariant
                self.wf(),
                i <= count,
                unit == 2 || unit == 4,
                store_frame(start, self@),
                (self@, src, dst) == start.dma_run(
                    src_start,
                    dst_start,
                    src_step,
                    dst_step,
                    unit,
                    i as nat,
                    fuel as nat,
                ),
            decreases count - i,
        {
            let ghost before = self@;
            if unit == 4 {
                let value = self.read32(src);
                self.write32_fuel(dst, value, fuel);
            } else {
                let value = self.read16(src);
                self.write16_fuel(dst, value, fuel);
            }
            proof {
                lemma_unfold_dma_run(
                    start,
                    src_start,
                    dst_start,
                    src_step,
                    dst_step,
                    unit,
                    i as nat,
                    fuel as nat,
                );
                lemma_unfold_unit_copy(before, src, dst, unit, fuel as nat);
                lemma_store_frame_trans(start, before, self@);
            }
            src = src.wrapping_add_signed(src_step);
            dst = dst.wrapping_add_signed(dst_step);
            i = i + 1;
        }
        (src, dst)
    }

    fn run_dma_channel(&mut self, ch: usize, timing: u16, fuel: u32)
        requires
            old(self).wf(),
            ch < 4,
        ensures
            store_frame(old(self)@, final(self)@),
            final(self).wf(),
            final(self)@ == old(self)@.run_dma_channel(ch as int, timing, fuel as nat),
        decreases fuel, 8nat, 0nat,
    {
        let ghost start = self@;
        proof {
            lemma_unfold_run_dma_channel(start, ch as int, timing, fuel as nat);
        }
        let base = 0x0b0 + ch * 12;
        let control = self.read_io16(base + 10);
        if control & 0x8000 == 0 || ((control >> 12) & 3) != timing {
            return;
        }
        let src_start = self.dma_src[ch];
        let dst_start = self.dma_dst[ch];
        let mut count = self.read_io16(base + 8) as u32;
        if count == 0 {
            count = if ch == 3 {
                0x1_0000
            } else {
                0x4000
            };
        }
        let fifo_dma = timing == 3 && (ch == 1 || ch == 2);
        if fifo_dma {
            count = 4;
        }
        let unit: u32 = if control & 0x400 != 0 || fifo_dma {
            4
        } else {
            2
        };
        let src_step = addr_step((control >> 7) & 3, unit);
        let dst_step = if fifo_dma {
            0
        } else {
            addr_step((control >> 5) & 3, unit)
        };
        assert((src_step, dst_step, unit) == start.dma_steps(ch as int, timing));
        assert(count == start.dma_count(ch as int, timing));
        let (src, dst) = self.dma_transfers(src_start, dst_start, src_step, dst_step, unit, count, fuel);
        let ghost mid = self@;
        self.finish_dma(ch, control, timing, src, dst, dst_start);
        proof {
            lemma_store_frame_trans(start, mid, self@);
        }
    }

    /// Byte store as seen from the CPU, with a bound on DMA starts nested in
    /// the transfers it triggers.
    fn write8_fuel(&mut self, addr: u32, value: u8, fuel: u32)
        requires
            old(self).wf(),
        ensures
            store_frame(old(self)@, final(self)@),
            final(self).wf(),
            final(self)@ == old(self)@.write8(addr, value, fuel as nat),
        decreases fuel, 5nat, 0nat,
    {
        proof {
            lemma_unfold_writes(self@, addr, value, 0, 0, fuel as nat);
            lemma_u32_and_le(addr, 0x3ff);
            lemma_align_bounds(addr);
        }
        if 0x0400_0000 <= addr && addr <= 0x04ff_ffff {
            self.write_io8((addr & 0x3ff) as usize, value, fuel);
        } else if 0x0500_0000 <= addr && addr <= 0x07ff_ffff {
            self.write_narrow16(addr, value);
        } else {
            self.write8_raw(addr, value);
        }
    }

    /// A byte store to palette, VRAM or OAM writes the byte to both halves of
    /// the addressed halfword.
    fn write_narrow16(&mut self, addr: u32, value: u8)
        requires
            old(self).wf(),
        ensures
            store_frame(old(self)@, final(self)@),
            final(self).wf(),
            final(self)@ == old(self)@.write8_raw(addr & !1u32, value).write8_raw(
                ((addr & !1u32) + 1) as u32,
                value,
            ),
    {
        proof {
            lemma_align_bounds(addr);
        }
        let a = addr & !1u32;
        self.write8_raw(a, value);
        self.write8_raw(a + 1, value);
    }

    fn write16_fuel(&mut self, addr: u32, value: u16, fuel: u32)
        requires
            old(self).wf(),
        ensures
            store_frame(old(self)@, final(self)@),
            final(self).wf(),
            final(self)@ == old(self)@.write16(addr, value, fuel as nat),
        decreases fuel, 5nat, 0nat,
    {
        proof {
            lemma_unfold_writes(self@, addr, 0, value, 0, fuel as nat);
            lemma_align_bounds(addr);
        }
        let a = addr & !1u32;
        if 0x0400_0000 <= a && a <= 0x0400_03ff {
            proof {
                lemma_io_align(addr);
            }
            let off = (a & 0x3ff) as usize;
            self.log_io_write(off, 2, value as u32);
            self.write_io16_no_after(off, value);
            self.after_io_write(off, 2, fuel);
            return;
        }
        self.write8_raw(a, (value & 0xff) as u8);
        self.write8_raw(a + 1, (value >> 8u16) as u8);
    }

    fn write32_fuel(&mut self, addr: u32, value: u32, fuel: u32)
        requires
            old(self).wf(),
        ensures
            store_frame(old(self)@, final(self)@),
            final(self).wf(),
            final(self)@ == old(self)@.write32(addr, value, fuel as nat),
        decreases fuel, 5nat, 0nat,
    {
        proof {
            lemma_unfold_writes(self@, addr, 0, 0, value, fuel as nat);
            lemma_align_bounds(addr);
        }
        let a = addr & !3u32;
        if 0x0400_0000 <= a && a <= 0x0400_03ff {
            proof {
                lemma_io_align(addr);
            }
            let off = (a & 0x3ff) as usize;
            self.log_io_write(off, 4, value);
            self.write_io16_no_after(off, value as u16);
            self.write_io16_no_after(off + 2, (value >> 16u32) as u16);
            self.after_io_write(off, 4, fuel);
            return;
        }
        self.write8_raw(a, (value & 0xff) as u8);
        self.write8_raw(a + 1, ((value >> 8u32) & 0xff) as u8);
        self.write8_raw(a + 2, ((value >> 16u32) & 0xff) as u8);
        self.write8_raw(a + 3, (value >> 24u32) as u8);
    }

    /// CPU byte store, with all I/O side effects.
    pub fn write8(&mut self, addr: u32, value: u8)
        requires
            old(self).wf(),
        ensures
            store_frame(old(self)@, final(self)@),
            final(self).wf(),
            final(self)@ == old(self)@.write8(addr, value, DMA_NEST_LIMIT as nat),
    {
        self.write8_fuel(addr, value, DMA_NEST_LIMIT);
    }

    /// CPU halfword store, with all I/O side effects.
    pub fn write16(&mut self, addr: u32, value: u16)
        requires
            old(self).wf(),
        ensures
            store_frame(old(self)@, final(self)@),
            final(self).wf(),
            final(self)@ == old(self)@.write16(addr, value, DMA_NEST_LIMIT as nat),
    {
        self.write16_fuel(addr, value, DMA_NEST_LIMIT);
    }

    /// CPU word store, with all I/O side effects.
    pub fn write32(&mut self, addr: u32, value: u32)
        requires
            old(self).wf(),
        ensures
            store_frame(old(self)@, final(self)@),
            final(self).wf(),
            final(self)@ == old(self)@.write32(addr, value, DMA_NEST_LIMIT as nat),
    {
        self.write32_fuel(addr, value, DMA_NEST_LIMIT);
    }
}



/// The bus after sound-FIFO DMA channel `ch` ran, when it is armed for
/// FIFO timing and aims at `fifo`.
pub open spec fn fifo_channel(b: BusView, ch: int, fifo: u32) -> BusView {
    let base = 0x0b0 + ch * 12;
    let control = b.io16(base + 10);
    if control & 0x8000 != 0 && (control >> 12u16) & 3 == 3 && b.io32(base + 4) == fifo {
        b.run_dma_channel(ch, 3, DMA_NEST_LIMIT as nat)
    } else {
        b
    }
}

/// The bus after the sound FIFO of timer `timer` was fed: channels 1 then 2.
pub open spec fn fifo_dma(b: BusView, timer: int) -> BusView {
    let fifo: u32 = if timer == 0 {
        0x0400_00a0
    } else {
        0x0400_00a4
    };
    fifo_channel(fifo_channel(b, 1, fifo), 2, fifo)
}

/// The bus after timer `idx` counted once: below 0xffff it counts up;
/// at 0xffff it reloads, feeds the sound FIFOs (timers 0 and 1), raises its
/// interrupt when enabled, and clocks the next timer when that one
/// cascades. The counter register shows the new count.
pub open spec fn timer_tick(b: BusView, idx: nat) -> BusView
    decreases 4 - idx,
{
    if idx >= 4 {
        b
    } else {
        let t = b.timers[idx as int];
        let reg = 0x100 + idx as int * 4;
        if t.counter != 0xffff {
            let c = (t.counter + 1) as u16;
            BusView {
                timers: b.timers.update(idx as int, Timer { counter: c, ..t }),
                io: io_put16(b.io, reg, c),
                ..b
            }
        } else {
            let b1 = BusView { timers: b.timers.update(idx as int, Timer { counter: t.reload, ..t }), ..b };
            let b2 = if idx <= 1 {
                fifo_dma(b1, idx as int)
            } else {
                b1
            };
            let b3 = if b2.timers[idx as int].control & 0x40 != 0 {
                b2.request_irq(1u16 << ((3 + idx) as u16))
            } else {
                b2
            };
            let next = b3.timers[idx + 1int];
            let b4 = if idx < 3 && next.control & 0x80 != 0 && next.control & 4 != 0 {
                timer_tick(b3, idx + 1)
            } else {
                b3
            };
            BusView { io: io_put16(b4.io, reg, b4.timers[idx as int].counter), ..b4 }
        }
    }
}

/// Prescaler of timer control `control`, in cycles per count.
pub open spec fn prescaler(control: u16) -> u32 {
    let p = control & 3;
    if p == 0 {
        1
    } else if p == 1 {
        64
    } else if p == 2 {
        256
    } else {
        1024
    }
}

/// The bus after timer `idx` spent its accumulated cycles: one count per
/// whole prescaler period (at most `fuel` counts).
pub open spec fn timer_drain(b: BusView, idx: nat, p: u32, fuel: nat) -> BusView
    decreases fuel,
{
    let t = b.timers[idx as int];
    if fuel == 0 || t.divider < p {
        b
    } else {
        let b1 = BusView {
            timers: b.timers.update(idx as int, Timer { divider: (t.divider - p) as u32, ..t }),
            ..b
        };
        timer_drain(timer_tick(b1, idx), idx, p, (fuel - 1) as nat)
    }
}

/// The bus after the first `n` timers ran for `cycles` cycles: each running
/// timer that does not cascade adds the cycles to its prescaler phase and
/// counts as many times as whole periods fit.
pub open spec fn timers_run(b: BusView, cycles: u32, n: nat) -> BusView
    decreases n,
{
    if n == 0 {
        b
    } else {
        let b0 = timers_run(b, cycles, (n - 1) as nat);
        let idx = (n - 1) as nat;
        let t = b0.timers[idx as int];
        if t.control & 0x80 != 0 && t.control & 4 == 0 {
            let d = (t.divider + cycles) as u32;
            let b1 = BusView { timers: b0.timers.update(idx as int, Timer { divider: d, ..t }), ..b0 };
            timer_drain(b1, idx, prescaler(t.control), d as nat)
        } else {
            b0
        }
    }
}

/// The bus after every DMA channel, in order, ran for `timing`.
pub open spec fn dma_timing(b: BusView, timing: u16) -> BusView {
    let f = DMA_NEST_LIMIT as nat;
    b.run_dma_channel(0, timing, f).run_dma_channel(1, timing, f).run_dma_channel(2, timing, f).run_dma_channel(
        3,
        timing,
        f,
    )
}

/// The V-blank work: the V-blank interrupt enabled when the display status
/// asks for it, then V-blank DMA.
pub open spec fn vblank_work(b: BusView) -> BusView {
    let io = if b.io16(0x004) & 0x8 != 0 {
        io_put16(b.io, 0x200, b.io16(0x200) | 1)
    } else {
        b.io
    };
    dma_timing(BusView { io: io, ..b }, 1)
}

/// The bus after `cycles` cycles: timers, then the beam (rendering the
/// frame when V-blank begins), H-blank DMA, the V-blank work, and the frame
/// count.
pub open spec fn bus_step(b: BusView, cycles: u32) -> BusView {
    let b1 = timers_run(b, cycles, 4);
    let (line, lc, io2, hb, vb) = crate::ppu::spec_timing(
        b1.ppu.line,
        b1.ppu.line_cycles,
        b1.io,
        cycles,
        false,
        false,
    );
    let frame = if vb {
        crate::ppu::rendered_frame(io2, b1.vram, b1.pram, b1.oam)
    } else {
        b1.ppu.frame
    };
    let b2 = BusView { ppu: PpuView { frame: frame, line: line, line_cycles: lc }, io: io2, ..b1 };
    let b3 = if hb {
        dma_timing(b2, 2)
    } else {
        b2
    };
    if vb {
        let b4 = vblank_work(b3);
        BusView { frame: vstd::wrapping::u64_specs::wrapping_add(b4.frame, 1), ..b4 }
    } else {
        b3
    }
}

/// Whether every timer's prescaler phase is below the largest prescaler.
pub open spec fn timers_ok(b: BusView) -> bool {
    forall|i: int| 0 <= i < 4 ==> #[trigger] b.timers[i].divider < 1024
}

/// Beam line, position within the line, and whether V-blank began, after
/// `cycles` cycles from `line` and `lc`.
pub open spec fn beam_after(line: u16, lc: u32, cycles: u32) -> (u16, u32, bool) {
    let t = crate::ppu::spec_timing(line, lc, Seq::<u8>::empty(), cycles, false, false);
    (t.0, t.1, t.4)
}

/// The beam progression does not depend on the I/O registers.
pub proof fn lemma_beam_independent(
    line: u16,
    lc: u32,
    io1: Seq<u8>,
    io2: Seq<u8>,
    cycles: u32,
    hb: bool,
    vb: bool,
)
    ensures
        crate::ppu::spec_timing(line, lc, io1, cycles, hb, vb).0 == crate::ppu::spec_timing(
            line,
            lc,
            io2,
            cycles,
            hb,
            vb,
        ).0,
        crate::ppu::spec_timing(line, lc, io1, cycles, hb, vb).1 == crate::ppu::spec_timing(
            line,
            lc,
            io2,
            cycles,
            hb,
            vb,
        ).1,
        crate::ppu::spec_timing(line, lc, io1, cycles, hb, vb).4 == crate::ppu::spec_timing(
            line,
            lc,
            io2,
            cycles,
            hb,
            vb,
        ).4,
    decreases cycles,
{
    if cycles == 0 || lc >= LINE_CYCLES {
    } else if line < VISIBLE_LINES && lc < HBLANK_START && lc + cycles >= HBLANK_START {
        let used = (HBLANK_START - lc) as u32;
        let f = |io: Seq<u8>| {
            let io1 = spec_set_dispstat_bit(io, 1, true);
            if spec_read16(io1, 0x004) & 0x10 != 0 {
                spec_request_irq(io1, 2)
            } else {
                io1
            }
        };
        lemma_beam_independent(line, HBLANK_START, f(io1), f(io2), (cycles - used) as u32, true, vb);
    } else if lc + cycles >= LINE_CYCLES {
        let used = (LINE_CYCLES - lc) as u32;
        let next = (line + 1) as u16;
        let line2: u16 = if next == VISIBLE_LINES {
            next
        } else if next >= TOTAL_LINES {
            0
        } else {
            next
        };
        let vb2 = if next == VISIBLE_LINES {
            true
        } else {
            vb
        };
        let g = |io: Seq<u8>| {
            let i1 = spec_set_dispstat_bit(io, 1, false);
            let i2 = if next == VISIBLE_LINES {
                let io_a = spec_set_dispstat_bit(i1, 0, true);
                if spec_read16(io_a, 0x004) & 0x8 != 0 || spec_read16(io_a, 0x200) & 1 != 0 {
                    spec_request_irq(io_a, 1)
                } else {
                    io_a
                }
            } else if next >= TOTAL_LINES {
                spec_set_dispstat_bit(i1, 0, false)
            } else {
                i1
            };
            spec_check_vcounter(io_put16(i2, 0x006, line2), line2)
        };
        lemma_beam_independent(line2, 0, g(io1), g(io2), (cycles - used) as u32, hb, vb2);
    } else {
    }
}

impl Bus {
    /// The bus after power-on: work RAM, video memory and OAM cleared, all
    /// keys released, and an empty ROM replaced by a single 0xff byte.
    pub fn new(rom: Vec<u8>, flash: Flash) -> (b: Bus)
        requires
            flash.wf(),
        ensures
            b.wf(),
            timers_ok(b@),
            b@.rom == (if rom@.len() == 0 {
                seq![0xffu8]
            } else {
                rom@
            }),
            b@.flash == flash@,
            b@.frame == 0,
            b@.io16(0x130) == 0x03ff,
            b@.io16(0x204) == 0x4317,
            b@.io[0x300] == 1,
            forall|i: int| 0 <= i < EWRAM_SIZE ==> b@.ewram[i] == 0,
            forall|i: int| 0 <= i < IWRAM_SIZE ==> b@.iwram[i] == 0,
            forall|i: int| 0 <= i < VRAM_SIZE ==> b@.vram[i] == 0,
            forall|i: int| 0 <= i < PRAM_SIZE ==> b@.pram[i] == 0,
            forall|i: int| 0 <= i < OAM_SIZE ==> b@.oam[i] == 0,
            b@.io_log.len() == 0,
            b@ == power_on_bus(b@.rom, flash@),
    {
        let mut rom = rom;
        if rom.len() == 0 {
            rom.push(0xff);
        }
        let mut io = [0u8; 0x400];
        io[0x130] = 0xff;
        io[0x131] = 0x03;
        io[0x204] = 0x17;
        io[0x205] = 0x43;
        io[0x300] = 1;
        let t = Timer { counter: 0, reload: 0, control: 0, divider: 0 };
        let b = Bus {
            rom,
            ewram: vec![0u8; EWRAM_SIZE],
            iwram: vec![0u8; IWRAM_SIZE],
            pram: vec![0u8; PRAM_SIZE],
            vram: vec![0u8; VRAM_SIZE],
            oam: vec![0u8; OAM_SIZE],
            io,
            ppu: Ppu::new(),
            timers: [t, t, t, t],
            dma_src: [0u32; 4],
            dma_dst: [0u32; 4],
            flash,
            frame: 0,
            io_log: Vec::with_capacity(IO_LOG_LEN),
        };
        proof {
            assert(b@.io16(0x130) == 0x03ff && b@.io16(0x204) == 0x4317) by {
                assert(b@.io[0x130] == 0xff && b@.io[0x131] == 0x03 && b@.io[0x204] == 0x17
                    && b@.io[0x205] == 0x43);
                assert((0xffu8 as u16) | ((0x03u8 as u16) << 8u16) == 0x03ff && (0x17u8 as u16) | ((
                0x43u8 as u16) << 8u16) == 0x4317) by (bit_vector);
            }
            if rom@.len() == 0 {
                assert(b@.rom =~= seq![0xffu8]);
            }
            let p = power_on_bus(b@.rom, flash@);
            assert(b@.ewram =~= p.ewram);
            assert(b@.iwram =~= p.iwram);
            assert(b@.pram =~= p.pram);
            assert(b@.vram =~= p.vram);
            assert(b@.oam =~= p.oam);
            assert(b@.io =~= p.io);
            assert(b@.timers =~= p.timers);
            assert(b@.dma_src =~= p.dma_src);
            assert(b@.dma_dst =~= p.dma_dst);
            assert(b@.io_log =~= p.io_log);
            assert(b@.ppu == p.ppu);
            assert(b@ == p);
        }
        b
    }

    /// Runs every channel armed for `timing`.
    fn run_dma_timing(&mut self, timing: u16)
        requires
            old(self).wf(),
        ensures
            store_frame(old(self)@, final(self)@),
            final(self).wf(),
            final(self)@ == dma_timing(old(self)@, timing),
    {
        let ghost b0 = self@;
        self.run_dma_channel(0, timing, DMA_NEST_LIMIT);
        let ghost b1 = self@;
        self.run_dma_channel(1, timing, DMA_NEST_LIMIT);
        let ghost b2 = self@;
        self.run_dma_channel(2, timing, DMA_NEST_LIMIT);
        let ghost b3 = self@;
        self.run_dma_channel(3, timing, DMA_NEST_LIMIT);
        proof {
            lemma_store_frame_trans(b0, b1, b2);
            lemma_store_frame_trans(b0, b2, b3);
            lemma_store_frame_trans(b0, b3, self@);
        }
    }

    /// Feeds a sound FIFO after timer `timer` overflowed: channels 1 and 2
    /// armed for FIFO timing whose destination is that timer's FIFO run.
    fn run_fifo_dma(&mut self, timer: usize)
        requires
            old(self).wf(),
        ensures
            store_frame(old(self)@, final(self)@),
            final(self).wf(),
            final(self)@ == fifo_dma(old(self)@, timer as int),
    {
        let fifo: u32 = if timer == 0 {
            0x0400_00a0
        } else {
            0x0400_00a4
        };
        let ghost b0 = self@;
        let mut ch: usize = 1;
        while ch <= 2
            invariant
                1 <= ch <= 3,
                self.wf(),
                store_frame(b0, self@),
                fifo == (if timer == 0 {
                    0x0400_00a0u32
                } else {
                    0x0400_00a4u32
                }),
                ch == 1 ==> self@ == b0,
                ch == 2 ==> self@ == fifo_channel(b0, 1, fifo),
                ch == 3 ==> self@ == fifo_dma(b0, timer as int),
            decreases 3 - ch,
        {
            let base = 0x0b0 + ch * 12;
            let control = self.read_io16(base + 10);
            let dst = self.read_io32(base + 4);
            if control & 0x8000 != 0 && ((control >> 12) & 3) == 3 && dst == fifo {
                let ghost before = self@;
                self.run_dma_channel(ch, 3, DMA_NEST_LIMIT);
                proof {
                    lemma_store_frame_trans(b0, before, self@);
                }
            }
            ch = ch + 1;
        }
    }

    /// Counts timer `idx` up by one; on overflow it reloads, feeds the sound
    /// FIFOs, raises its interrupt and clocks a cascaded next timer.
    fn increment_timer(&mut self, idx: usize)
        requires
            old(self).wf(),
            idx < 4,
        ensures
            store_frame(old(self)@, final(self)@),
            final(self).wf(),
            final(self)@ == timer_tick(old(self)@, idx as nat),
        decreases 4 - idx,
    {
        let ghost b0 = self@;
        let tm = self.timers[idx];
        if tm.counter == 0xffff {
            let mut t2 = tm;
            t2.counter = t2.reload;
            self.timers[idx] = t2;
            let ghost b1 = self@;
            assert(b1.timers =~= b0.timers.update(idx as int, Timer { counter: tm.reload, ..tm }));
            if idx <= 1 {
                self.run_fifo_dma(idx);
            }
            let ghost b2 = self@;
            if self.timers[idx].control & 0x40 != 0 {
                self.request_irq(1u16 << (3 + idx as u16));
            }
            let ghost b3 = self@;
            if idx < 3 && self.timers[idx + 1].control & 0x80 != 0 && self.timers[idx + 1].control
                & 4 != 0 {
                self.increment_timer(idx + 1);
            }
            let ghost b4 = self@;
            let counter = self.timers[idx].counter;
            write_io_raw16(&mut self.io, 0x100 + idx * 4, counter);
            proof {
                lemma_store_frame_trans(b0, b1, b2);
                lemma_store_frame_trans(b0, b2, b3);
                lemma_store_frame_trans(b0, b3, b4);
            }
        } else {
            let mut t2 = tm;
            t2.counter = tm.counter + 1;
            self.timers[idx] = t2;
            write_io_raw16(&mut self.io, 0x100 + idx * 4, t2.counter);
            proof {
                assert(self@.timers =~= b0.timers.update(
                    idx as int,
                    Timer { counter: (b0.timers[idx as int].counter + 1) as u16, ..b0.timers[idx as int] },
                ));
            }
        }
    }

    /// Advances every running, free-running timer by `cycles` CPU cycles
    /// through its prescaler.
    fn step_timers(&mut self, cycles: u32)
        requires
            old(self).wf(),
            timers_ok(old(self)@),
            cycles <= u32::MAX - 1024,
        ensures
            final(self).wf(),
            timers_ok(final(self)@),
            final(self)@.rom == old(self)@.rom,
            final(self)@.ppu == old(self)@.ppu,
            final(self)@.frame == old(self)@.frame,
            final(self)@ == timers_run(old(self)@, cycles, 4),
    {
        let ghost b0 = self@;
        let mut idx: usize = 0;
        while idx < 4
            invariant
                idx <= 4,
                self.wf(),
                cycles <= u32::MAX - 1024,
                timers_ok(self@),
                self@.rom == b0.rom,
                self@.ppu == b0.ppu,
                self@.frame == b0.frame,
                self@ == timers_run(b0, cycles, idx as nat),
            decreases 4 - idx,
        {
            let control = self.timers[idx].control;
            if control & 0x80 != 0 && control & 4 == 0 {
                let prescaler: u32 = if control & 3 == 0 {
                    1
                } else if control & 3 == 1 {
                    64
                } else if control & 3 == 2 {
                    256
                } else {
                    1024
                };
                assert(prescaler == crate::bus::prescaler(control));
                let ghost bounded = self@;
                let mut tm = self.timers[idx];
                tm.divider = tm.divider + cycles;
                self.timers[idx] = tm;
                let ghost fuel0 = tm.divider as nat;
                let ghost mut fuel = fuel0;
                proof {
                    let t = bounded.timers[idx as int];
                    assert(self@.timers =~= bounded.timers.update(
                        idx as int,
                        Timer { divider: (t.divider + cycles) as u32, ..t },
                    ));
                }
                let ghost target = timer_drain(self@, idx as nat, prescaler, fuel0);
                assert(target == timers_run(b0, cycles, (idx + 1) as nat));
                while self.timers[idx].divider >= prescaler
                    invariant
                        idx < 4,
                        self.wf(),
                        1 <= prescaler <= 1024,
                        forall|j: int|
                            0 <= j < 4 && j != idx ==> #[trigger] self@.timers[j].divider
                                <= bounded.timers[j].divider,
                        timers_ok(bounded),
                        self@.rom == b0.rom,
                        self@.ppu == b0.ppu,
                        self@.frame == b0.frame,
                        self@.timers[idx as int].divider <= fuel,
                        timer_drain(self@, idx as nat, prescaler, fuel) == target,
                    decreases self@.timers[idx as int].divider,
                {
                    let ghost before = self@;
                    let mut tm = self.timers[idx];
                    tm.divider = tm.divider - prescaler;
                    self.timers[idx] = tm;
                    proof {
                        let t = before.timers[idx as int];
                        assert(self@.timers =~= before.timers.update(
                            idx as int,
                            Timer { divider: (t.divider - prescaler) as u32, ..t },
                        ));
                    }
                    self.increment_timer(idx);
                    proof {
                        fuel = (fuel - 1) as nat;
                    }
                }
            }
            idx = idx + 1;
        }
    }

    /// Advances timers and the PPU by `cycles`, running H-blank and V-blank
    /// DMA and counting finished frames.
    pub fn step(&mut self, cycles: u32)
        requires
            old(self).wf(),
            timers_ok(old(self)@),
            cycles <= u32::MAX - 2048,
        ensures
            final(self).wf(),
            timers_ok(final(self)@),
            final(self)@.rom == old(self)@.rom,
            ({
                let (line, lc, vblank) = beam_after(
                    old(self)@.ppu.line,
                    old(self)@.ppu.line_cycles,
                    cycles,
                );
                &&& final(self)@.ppu.line == line
                &&& final(self)@.ppu.line_cycles == lc
                &&& final(self)@.frame == if vblank {
                    vstd::wrapping::u64_specs::wrapping_add(old(self)@.frame, 1)
                } else {
                    old(self)@.frame
                }
            }),
            final(self)@ == bus_step(old(self)@, cycles),
    {
        self.step_timers(cycles);
        let ghost io_mid = self@.io;
        let ghost line0 = self.ppu.line;
        let ghost lc0 = self.ppu.line_cycles;
        let events = self.ppu.step(
            cycles,
            &mut self.io,
            self.vram.as_slice(),
            self.pram.as_slice(),
            self.oam.as_slice(),
        );
        proof {
            lemma_beam_independent(line0, lc0, io_mid, Seq::<u8>::empty(), cycles, false, false);
        }
        if events.hblank {
            self.run_dma_timing(2);
        }
        if events.vblank {
            if self.read_io16(0x004) & 0x8 != 0 {
                let ie = self.read_io16(0x200) | 1;
                write_io_raw16(&mut self.io, 0x200, ie);
            }
            self.run_dma_timing(1);
        }
        if events.frame {
            self.frame = self.frame.wrapping_add(1);
        }
    }
}

} // verus!
