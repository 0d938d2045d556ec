//! Scanline timing and frame rendering of the picture processing unit.

use vstd::prelude::*;
use crate::{SCREEN_WIDTH, SCREEN_HEIGHT};

verus! {

pub const LINE_CYCLES: u32 = 1_232;
pub const HBLANK_START: u32 = 960;
pub const VISIBLE_LINES: u16 = 160;
pub const TOTAL_LINES: u16 = 228;
pub const FRAME_PIXELS: usize = 38400;

/// What happened during one call of [`Ppu::step`].
pub struct PpuEvents {
    pub hblank: bool,
    pub vblank: bool,
    pub frame: bool,
}

/// Beam position and the finished frame, one 0x00RRGGBB word per pixel.
pub struct Ppu {
    pub frame: Vec<u32>,
    pub line: u16,
    pub line_cycles: u32,
}

pub ghost struct PpuView {
    pub frame: Seq<u32>,
    pub line: u16,
    pub line_cycles: u32,
}

impl View for Ppu {
    type V = PpuView;

    open spec fn view(&self) -> PpuView {
        PpuView { frame: self.frame@, line: self.line, line_cycles: self.line_cycles }
    }
}

impl PpuView {
    pub open spec fn wf(self) -> bool {
        &&& self.frame.len() == FRAME_PIXELS
        &&& self.line < TOTAL_LINES
        &&& self.line_cycles < LINE_CYCLES
    }
}

impl Ppu {
    pub fn new() -> (p: Ppu)
        ensures
            p@.wf(),
            p.line == 0,
            p.line_cycles == 0,
            forall|i: int| 0 <= i < FRAME_PIXELS ==> p.frame@[i] == 0,
            p@ == (PpuView { frame: Seq::new(FRAME_PIXELS as nat, |i: int| 0u32), line: 0, line_cycles: 0 }),
    {
        let p = Ppu { frame: vec![0u32; SCREEN_WIDTH * SCREEN_HEIGHT], line: 0, line_cycles: 0 };
        proof {
            assert(p.frame@ =~= Seq::new(FRAME_PIXELS as nat, |i: int| 0u32));
        }
        p
    }
}


/// A candidate pixel of one layer, with its compositing key.
#[derive(Clone, Copy)]
pub struct Pixel {
    pub color: u16,
    pub priority: u8,
    pub order: u8,
    pub mask: u16,
    pub semi: bool,
}

/// Which layers a window region shows and whether it allows blending.
#[derive(Clone, Copy)]
pub struct WindowMask {
    pub layers: u8,
    pub blend: bool,
}

pub open spec fn spec_read16(io: Seq<u8>, off: int) -> u16 {
    crate::bits::le16(io[off], io[off + 1])
}

pub open spec fn spec_read32(io: Seq<u8>, off: int) -> u32 {
    crate::bits::le32(io[off], io[off + 1], io[off + 2], io[off + 3])
}

/// Halfword of `mem` at `off`, or 0 when it does not fit.
pub open spec fn spec_read_mem16(mem: Seq<u8>, off: int) -> u16 {
    if off + 1 >= mem.len() {
        0
    } else {
        crate::bits::le16(mem[off], mem[off + 1])
    }
}

/// Byte of `mem` at `off`, or 0 outside it.
pub open spec fn spec_byte_at(mem: Seq<u8>, off: int) -> u8 {
    if 0 <= off < mem.len() {
        mem[off]
    } else {
        0
    }
}

/// 5-bit channel `c` widened to 8 bits by repeating its top bits.
pub open spec fn expand5(c: u32) -> u32 {
    (c << 3u32) | (c >> 2u32)
}

/// A BGR555 colour as 0x00RRGGBB.
pub open spec fn spec_bgr555_to_rgb(color: u16) -> u32 {
    let r = (color & 0x1f) as u32;
    let g = ((color >> 5u16) & 0x1f) as u32;
    let b = ((color >> 10u16) & 0x1f) as u32;
    (expand5(r) << 16u32) | (expand5(g) << 8u32) | expand5(b)
}

pub open spec fn ch_r(c: u16) -> u32 {
    (c & 0x1f) as u32
}

pub open spec fn ch_g(c: u16) -> u32 {
    ((c >> 5u16) & 0x1f) as u32
}

pub open spec fn ch_b(c: u16) -> u32 {
    ((c >> 10u16) & 0x1f) as u32
}

pub open spec fn pack555(r: u32, g: u32, b: u32) -> u16 {
    (r | (g << 5u32) | (b << 10u32)) as u16
}

pub open spec fn min31(v: int) -> int {
    if v > 31 {
        31
    } else {
        v
    }
}

/// Per-channel `(a * eva + b * evb) / 16`, saturated at 31.
pub open spec fn spec_alpha_blend(a: u16, b: u16, eva: u32, evb: u32) -> u16 {
    pack555(
        min31((ch_r(a) * eva + ch_r(b) * evb) / 16) as u32,
        min31((ch_g(a) * eva + ch_g(b) * evb) / 16) as u32,
        min31((ch_b(a) * eva + ch_b(b) * evb) / 16) as u32,
    )
}

/// Per-channel `c + (31 - c) * evy / 16`.
pub open spec fn spec_brighten(c: u16, evy: u32) -> u16 {
    pack555(
        (ch_r(c) + (31 - ch_r(c)) * evy / 16) as u32,
        (ch_g(c) + (31 - ch_g(c)) * evy / 16) as u32,
        (ch_b(c) + (31 - ch_b(c)) * evy / 16) as u32,
    )
}

/// Per-channel `c - c * evy / 16`.
pub open spec fn spec_darken(c: u16, evy: u32) -> u16 {
    pack555(
        (ch_r(c) - ch_r(c) * evy / 16) as u32,
        (ch_g(c) - ch_g(c) * evy / 16) as u32,
        (ch_b(c) - ch_b(c) * evy / 16) as u32,
    )
}

/// Width and height in pixels of an object of `shape` and `size`.
pub open spec fn spec_obj_size(shape: u16, size: u16) -> (usize, usize) {
    let s = shape & 3;
    let z = size & 3;
    if s == 0 {
        if z == 0 {
            (8, 8)
        } else if z == 1 {
            (16, 16)
        } else if z == 2 {
            (32, 32)
        } else {
            (64, 64)
        }
    } else if s == 1 {
        if z == 0 {
            (16, 8)
        } else if z == 1 {
            (32, 8)
        } else if z == 2 {
            (32, 16)
        } else {
            (64, 32)
        }
    } else if s == 2 {
        if z == 0 {
            (8, 16)
        } else if z == 1 {
            (8, 32)
        } else if z == 2 {
            (16, 32)
        } else {
            (32, 64)
        }
    } else {
        (8, 8)
    }
}

/// Object shapes: a square object (shape 0) is as wide as it is tall, a
/// horizontal one (shape 1) wider than tall and a vertical one (shape 2)
/// taller than wide, each side a power of two from 8 to 64; a vertical object
/// of a size is the horizontal one of that size turned on its side; and a
/// square object's side doubles with each size step, from 8.
pub proof fn law_obj_shapes(shape: u16, size: u16, other: u16)
    ensures
        ({
            let (w, h) = spec_obj_size(shape, size);
            &&& shape & 3 == 0 ==> w == h
            &&& shape & 3 == 1 ==> w > h
            &&& shape & 3 == 2 ==> w < h
            &&& (w == 8 || w == 16 || w == 32 || w == 64)
            &&& (h == 8 || h == 16 || h == 32 || h == 64)
            &&& shape & 3 == 1 && other & 3 == 2 ==> spec_obj_size(other, size) == (h, w)
            &&& shape & 3 == 0 && size & 3 == 0 ==> w == 8
        }),
{
    crate::bits::lemma_u16_and_le(shape, 3);
    crate::bits::lemma_u16_and_le(size, 3);
    crate::bits::lemma_u16_and_le(other, 3);
}

/// Each size step doubles a square object's side.
pub proof fn law_square_obj_growth(shape: u16, size: u16, next: u16)
    requires
        shape & 3 == 0,
        next & 3 == (size & 3) + 1,
    ensures
        spec_obj_size(shape, next).0 == 2 * spec_obj_size(shape, size).0,
{
    crate::bits::lemma_u16_and_le(size, 3);
    crate::bits::lemma_u16_and_le(next, 3);
}

pub open spec fn spec_signed_obj_x(raw: u16) -> i32 {
    if raw >= 256 {
        (raw - 512) as i32
    } else {
        raw as i32
    }
}

pub open spec fn spec_signed_obj_y(raw: u16) -> i32 {
    if raw >= 160 {
        (raw - 256) as i32
    } else {
        raw as i32
    }
}

pub open spec fn spec_in_window_range(value: int, start: int, end: int, limit: int) -> bool {
    let s = if start < limit {
        start
    } else {
        limit
    };
    let e = if end < limit {
        end
    } else {
        limit
    };
    s < e && value >= s && value < e
}

/// Compositing order: lower priority value first, then lower order.
pub open spec fn key_less(p: Pixel, q: Pixel) -> bool {
    p.priority < q.priority || (p.priority == q.priority && p.order < q.order)
}

fn key_lt(p: Pixel, q: Pixel) -> (r: bool)
    ensures
        r == key_less(p, q),
{
    p.priority < q.priority || (p.priority == q.priority && p.order < q.order)
}

pub fn bgr555_to_rgb(color: u16) -> (r: u32)
    ensures
        r == spec_bgr555_to_rgb(color),
        r <= 0x00ff_ffff,
{
    let r = (color & 0x1f) as u32;
    let g = ((color >> 5) & 0x1f) as u32;
    let b = ((color >> 10) & 0x1f) as u32;
    proof {
        crate::bits::lemma_u16_and_le(color, 0x1f);
        crate::bits::lemma_u16_and_le(color >> 5u16, 0x1f);
        crate::bits::lemma_u16_and_le(color >> 10u16, 0x1f);
        lemma_rgb_bound(r, g, b);
    }
    let r = (r << 3) | (r >> 2);
    let g = (g << 3) | (g >> 2);
    let b = (b << 3) | (b >> 2);
    (r << 16) | (g << 8) | b
}

proof fn lemma_rgb_bound(r: u32, g: u32, b: u32)
    requires
        r <= 31,
        g <= 31,
        b <= 31,
    ensures
        (expand5(r) << 16u32) | (expand5(g) << 8u32) | expand5(b) <= 0x00ff_ffff,
{
    assert((((r << 3u32) | (r >> 2u32)) << 16u32) | (((g << 3u32) | (g >> 2u32)) << 8u32) | ((b
        << 3u32) | (b >> 2u32)) <= 0x00ff_ffff) by (bit_vector)
        requires
            r <= 31,
            g <= 31,
            b <= 31,
    ;
}

proof fn lemma_channels(c: u16)
    ensures
        ch_r(c) <= 31,
        ch_g(c) <= 31,
        ch_b(c) <= 31,
{
    crate::bits::lemma_u16_and_le(c, 0x1f);
    crate::bits::lemma_u16_and_le(c >> 5u16, 0x1f);
    crate::bits::lemma_u16_and_le(c >> 10u16, 0x1f);
}

/// Full-strength brightening gives white and full-strength darkening gives
/// black; at strength zero both leave the colour (its 15 colour bits) as it
/// is, as does a blend that takes all of the first colour and none of the
/// second.
pub proof fn law_fade_extremes(c: u16, d: u16)
    ensures
        spec_brighten(c, 16) == 0x7fff,
        spec_darken(c, 16) == 0,
        spec_brighten(c, 0) == c & 0x7fff,
        spec_darken(c, 0) == c & 0x7fff,
        spec_alpha_blend(c, d, 16, 0) == c & 0x7fff,
{
    lemma_channels(c);
    lemma_channels(d);
    let r = ch_r(c);
    let g = ch_g(c);
    let b = ch_b(c);
    assert((r * 16 + ch_r(d) * 0) / 16 == r && (g * 16 + ch_g(d) * 0) / 16 == g && (b * 16 + ch_b(d)
        * 0) / 16 == b) by (nonlinear_arith)
        requires
            r <= 31,
            g <= 31,
            b <= 31,
    ;
    assert((31 - r) * 16 / 16 == 31 - r && (31 - g) * 16 / 16 == 31 - g && (31 - b) * 16 / 16
        == 31 - b && r * 16 / 16 == r && g * 16 / 16 == g && b * 16 / 16 == b && (31 - r) * 0 / 16
        == 0 && (31 - g) * 0 / 16 == 0 && (31 - b) * 0 / 16 == 0 && r * 0 / 16 == 0 && g * 0 / 16
        == 0 && b * 0 / 16 == 0) by (nonlinear_arith)
        requires
            r <= 31,
            g <= 31,
            b <= 31,
    ;
    assert(((31u32 | (31u32 << 5u32) | (31u32 << 10u32)) as u16) == 0x7fff) by (bit_vector);
    assert(((0u32 | (0u32 << 5u32) | (0u32 << 10u32)) as u16) == 0) by (bit_vector);
    assert(((r | (g << 5u32) | (b << 10u32)) as u16) == c & 0x7fff) by (bit_vector)
        requires
            r == (c & 0x1f) as u32,
            g == ((c >> 5u16) & 0x1f) as u32,
            b == ((c >> 10u16) & 0x1f) as u32,
    ;
}

pub fn alpha_blend(a: u16, b: u16, eva: u32, evb: u32) -> (r: u16)
    requires
        eva <= 16,
        evb <= 16,
    ensures
        r == spec_alpha_blend(a, b, eva, evb),
{
    proof {
        lemma_channels(a);
        lemma_channels(b);
    }
    let ar = (a & 0x1f) as u32;
    let ag = ((a >> 5) & 0x1f) as u32;
    let ab = ((a >> 10) & 0x1f) as u32;
    let br = (b & 0x1f) as u32;
    let bg = ((b >> 5) & 0x1f) as u32;
    let bb = ((b >> 10) & 0x1f) as u32;
    proof {
        assert(ar * eva <= 31 * 16) by (nonlinear_arith)
            requires
                ar <= 31,
                eva <= 16,
        ;
        assert(br * evb <= 31 * 16) by (nonlinear_arith)
            requires
                br <= 31,
                evb <= 16,
        ;
        assert(ag * eva <= 31 * 16) by (nonlinear_arith)
            requires
                ag <= 31,
                eva <= 16,
        ;
        assert(bg * evb <= 31 * 16) by (nonlinear_arith)
            requires
                bg <= 31,
                evb <= 16,
        ;
        assert(ab * eva <= 31 * 16) by (nonlinear_arith)
            requires
                ab <= 31,
                eva <= 16,
        ;
        assert(bb * evb <= 31 * 16) by (nonlinear_arith)
            requires
                bb <= 31,
                evb <= 16,
        ;
    }
    let r = min_u32((ar * eva + br * evb) / 16, 31);
    let g = min_u32((ag * eva + bg * evb) / 16, 31);
    let bl = min_u32((ab * eva + bb * evb) / 16, 31);
    (r | (g << 5) | (bl << 10)) as u16
}

fn min_u32(a: u32, b: u32) -> (r: u32)
    ensures
        r == if a < b {
            a
        } else {
            b
        },
{
    if a < b {
        a
    } else {
        b
    }
}

pub fn brighten(c: u16, evy: u32) -> (r: u16)
    requires
        evy <= 16,
    ensures
        r == spec_brighten(c, evy),
{
    proof {
        lemma_channels(c);
    }
    let r = (c & 0x1f) as u32;
    let g = ((c >> 5) & 0x1f) as u32;
    let b = ((c >> 10) & 0x1f) as u32;
    proof {
        assert((31 - r) * evy <= 31 * 16) by (nonlinear_arith)
            requires
                r <= 31,
                evy <= 16,
        ;
        assert((31 - g) * evy <= 31 * 16) by (nonlinear_arith)
            requires
                g <= 31,
                evy <= 16,
        ;
        assert((31 - b) * evy <= 31 * 16) by (nonlinear_arith)
            requires
                b <= 31,
                evy <= 16,
        ;
    }
    let r = r + (((31 - r) * evy) / 16);
    let g = g + (((31 - g) * evy) / 16);
    let b = b + (((31 - b) * evy) / 16);
    (r | (g << 5) | (b << 10)) as u16
}

pub fn darken(c: u16, evy: u32) -> (r: u16)
    requires
        evy <= 16,
    ensures
        r == spec_darken(c, evy),
{
    proof {
        lemma_channels(c);
    }
    let r = (c & 0x1f) as u32;
    let g = ((c >> 5) & 0x1f) as u32;
    let b = ((c >> 10) & 0x1f) as u32;
    proof {
        assert(r * evy / 16 <= r) by (nonlinear_arith)
            requires
                r <= 31,
                evy <= 16,
        ;
        assert(g * evy / 16 <= g) by (nonlinear_arith)
            requires
                g <= 31,
                evy <= 16,
        ;
        assert(b * evy / 16 <= b) by (nonlinear_arith)
            requires
                b <= 31,
                evy <= 16,
        ;
    }
    let r = r - ((r * evy) / 16);
    let g = g - ((g * evy) / 16);
    let b = b - ((b * evy) / 16);
    (r | (g << 5) | (b << 10)) as u16
}


pub fn read16(io: &[u8; 0x400], off: usize) -> (r: u16)
    requires
        off + 1 < 0x400,
    ensures
        r == spec_read16(io@, off as int),
{
    (io[off] as u16) | ((io[off + 1] as u16) << 8)
}

pub fn read32(io: &[u8; 0x400], off: usize) -> (r: u32)
    requires
        off + 3 < 0x400,
    ensures
        r == spec_read32(io@, off as int),
{
    (io[off] as u32) | ((io[off + 1] as u32) << 8) | ((io[off + 2] as u32) << 16) | ((io[off
        + 3] as u32) << 24)
}

pub fn write16(io: &mut [u8; 0x400], off: usize, value: u16)
    requires
        off + 1 < 0x400,
    ensures
        final(io)@ == crate::bus::io_put16(old(io)@, off as int, value),
{
    io[off] = (value & 0xff) as u8;
    io[off + 1] = (value >> 8) as u8;
}

pub fn read_mem16(mem: &[u8], off: usize) -> (r: u16)
    ensures
        r == spec_read_mem16(mem@, off as int),
{
    if off >= mem.len() || off + 1 >= mem.len() {
        return 0;
    }
    (mem[off] as u16) | ((mem[off + 1] as u16) << 8)
}

fn byte_at(mem: &[u8], off: usize) -> (r: u8)
    ensures
        r == spec_byte_at(mem@, off as int),
{
    if off < mem.len() {
        mem[off]
    } else {
        0
    }
}

/// DISPSTAT with status bit `bit` set or cleared.
pub open spec fn spec_set_dispstat_bit(io: Seq<u8>, bit: u16, on: bool) -> Seq<u8> {
    let value = spec_read16(io, 0x004);
    crate::bus::io_put16(
        io,
        0x004,
        if on {
            value | (1u16 << bit)
        } else {
            value & !(1u16 << bit)
        },
    )
}

pub open spec fn spec_request_irq(io: Seq<u8>, bit: u16) -> Seq<u8> {
    crate::bus::io_put16(io, 0x202, spec_read16(io, 0x202) | bit)
}

pub fn set_dispstat_bit(io: &mut [u8; 0x400], bit: u16, on: bool)
    requires
        bit < 16,
    ensures
        final(io)@ == spec_set_dispstat_bit(old(io)@, bit, on),
{
    let mut value = read16(io, 0x004);
    if on {
        value = value | (1u16 << bit);
    } else {
        value = value & !(1u16 << bit);
    }
    write16(io, 0x004, value);
}

pub fn request_irq(io: &mut [u8; 0x400], bit: u16)
    ensures
        final(io)@ == spec_request_irq(old(io)@, bit),
{
    let flags = read16(io, 0x202) | bit;
    write16(io, 0x202, flags);
}

/// The LYC comparison of DISPSTAT for scanline `line`, with its interrupt.
pub open spec fn spec_check_vcounter(io: Seq<u8>, line: u16) -> Seq<u8> {
    let dispstat = spec_read16(io, 0x004);
    let match_now = line == dispstat >> 8u16;
    let io1 = spec_set_dispstat_bit(io, 2, match_now);
    if match_now && dispstat & 0x20 != 0 {
        spec_request_irq(io1, 4)
    } else {
        io1
    }
}

/// Beam timing after `cycles` more cycles from scanline `line` and position
/// `lc`: the new line, position and I/O registers, and whether H-blank and
/// V-blank began.
pub open spec fn spec_timing(
    line: u16,
    lc: u32,
    io: Seq<u8>,
    cycles: u32,
    hblank: bool,
    vblank: bool,
) -> (u16, u32, Seq<u8>, bool, bool)
    decreases cycles,
{
    if cycles == 0 || lc >= LINE_CYCLES {
        (line, lc, io, hblank, vblank)
    } else if line < VISIBLE_LINES && lc < HBLANK_START && lc + cycles >= HBLANK_START {
        let used = (HBLANK_START - lc) as u32;
        let io1 = spec_set_dispstat_bit(io, 1, true);
        let io2 = if spec_read16(io1, 0x004) & 0x10 != 0 {
            spec_request_irq(io1, 2)
        } else {
            io1
        };
        spec_timing(line, HBLANK_START, io2, (cycles - used) as u32, true, vblank)
    } else if lc + cycles >= LINE_CYCLES {
        let used = (LINE_CYCLES - lc) as u32;
        let io1 = spec_set_dispstat_bit(io, 1, false);
        let next = (line + 1) as u16;
        let (line2, io2, vb) = if next == VISIBLE_LINES {
            let io_a = spec_set_dispstat_bit(io1, 0, true);
            let io_b = if spec_read16(io_a, 0x004) & 0x8 != 0 || spec_read16(io_a, 0x200) & 1
                != 0 {
                spec_request_irq(io_a, 1)
            } else {
                io_a
            };
            (next, io_b, true)
        } else if next >= TOTAL_LINES {
            (0u16, spec_set_dispstat_bit(io1, 0, false), vblank)
        } else {
            (next, io1, vblank)
        };
        let io3 = spec_check_vcounter(crate::bus::io_put16(io2, 0x006, line2), line2);
        spec_timing(line2, 0, io3, (cycles - used) as u32, hblank, vb)
    } else {
        (line, (lc + cycles) as u32, io, hblank, vblank)
    }
}

/// Cycles in one frame: every line, visible or not, takes `LINE_CYCLES`.
pub const FRAME_CYCLES: u32 = 280_896;

/// The beam's position within the frame, in cycles from its start.
pub open spec fn beam_pos(line: u16, lc: u32) -> int {
    line as int * 1232 + lc as int
}

/// Cycles from the beam at (`line`, `lc`) until the next H-blank of a
/// visible line begins.
pub open spec fn hblank_distance(line: u16, lc: u32) -> int {
    if line < VISIBLE_LINES && lc < HBLANK_START {
        HBLANK_START - lc
    } else if line + 1 < VISIBLE_LINES {
        (line + 1) * 1232 + 960 - beam_pos(line, lc)
    } else {
        FRAME_CYCLES - beam_pos(line, lc) + 960
    }
}

/// Cycles from the beam at (`line`, `lc`) until it next enters V-blank.
pub open spec fn vblank_distance(line: u16, lc: u32) -> int {
    if beam_pos(line, lc) < 160 * 1232 {
        160 * 1232 - beam_pos(line, lc)
    } else {
        160 * 1232 + FRAME_CYCLES - beam_pos(line, lc)
    }
}

/// The beam moves on by the cycles given, around the frame; an H-blank or
/// V-blank seen stays seen; and one is seen when the cycles reach it.
proof fn lemma_timing(line: u16, lc: u32, io: Seq<u8>, cycles: u32, hb: bool, vb: bool)
    requires
        line < TOTAL_LINES,
        lc < LINE_CYCLES,
    ensures
        ({
            let t = spec_timing(line, lc, io, cycles, hb, vb);
            &&& t.0 < TOTAL_LINES
            &&& t.1 < LINE_CYCLES
            &&& beam_pos(t.0, t.1) == (beam_pos(line, lc) + cycles) % (FRAME_CYCLES as int)
            &&& hb ==> t.3
            &&& vb ==> t.4
            &&& cycles >= hblank_distance(line, lc) ==> t.3
            &&& cycles >= vblank_distance(line, lc) ==> t.4
            &&& io.len() == 0x400 ==> t.2.len() == 0x400
            &&& io.len() == 0x400 && (cycles >= LINE_CYCLES - lc || spec_read16(io, 0x006) == line)
                ==> spec_read16(t.2, 0x006) == t.0
        }),
    decreases cycles,
{
    if cycles == 0 || lc >= LINE_CYCLES {
    } else if line < VISIBLE_LINES && lc < HBLANK_START && lc + cycles >= HBLANK_START {
        let used = (HBLANK_START - lc) as u32;
        let io1 = spec_set_dispstat_bit(io, 1, true);
        let io2 = if spec_read16(io1, 0x004) & 0x10 != 0 {
            spec_request_irq(io1, 2)
        } else {
            io1
        };
        lemma_timing(line, HBLANK_START, io2, (cycles - used) as u32, true, vb);
    } else if lc + cycles >= LINE_CYCLES {
        let used = (LINE_CYCLES - lc) as u32;
        let io1 = spec_set_dispstat_bit(io, 1, false);
        let next = (line + 1) as u16;
        let (line2, io2, vb2) = if next == VISIBLE_LINES {
            let io_a = spec_set_dispstat_bit(io1, 0, true);
            let io_b = if spec_read16(io_a, 0x004) & 0x8 != 0 || spec_read16(io_a, 0x200) & 1
                != 0 {
                spec_request_irq(io_a, 1)
            } else {
                io_a
            };
            (next, io_b, true)
        } else if next >= TOTAL_LINES {
            (0u16, spec_set_dispstat_bit(io1, 0, false), vb)
        } else {
            (next, io1, vb)
        };
        let io3 = spec_check_vcounter(crate::bus::io_put16(io2, 0x006, line2), line2);
        lemma_timing(line2, 0, io3, (cycles - used) as u32, hb, vb2);
        if io.len() == 0x400 {
            crate::bus::lemma_io_put16_read(io2, 0x006, line2);
            assert(spec_read16(io3, 0x006) == line2);
        }
        if next >= TOTAL_LINES {
            assert(beam_pos(line, lc) + cycles - FRAME_CYCLES == (cycles - used) as int);
            assert((beam_pos(line, lc) + cycles) % (FRAME_CYCLES as int) == ((cycles - used) as int)
                % (FRAME_CYCLES as int)) by {
                vstd::arithmetic::div_mod::lemma_mod_sub_multiples_vanish(
                    beam_pos(line, lc) + cycles,
                    FRAME_CYCLES as int,
                );
            }
        }
    } else {
    }
}

/// A whole frame of cycles brings the beam back where it was, through an
/// H-blank and the start of V-blank, with VCOUNT showing its line.
pub proof fn law_frame_returns(line: u16, lc: u32, io: Seq<u8>)
    requires
        line < TOTAL_LINES,
        lc < LINE_CYCLES,
    ensures
        ({
            let t = spec_timing(line, lc, io, FRAME_CYCLES, false, false);
            &&& t.0 == line
            &&& t.1 == lc
            &&& t.3
            &&& t.4
            &&& io.len() == 0x400 ==> spec_read16(t.2, 0x006) == line
        }),
{
    lemma_timing(line, lc, io, FRAME_CYCLES, false, false);
    let t = spec_timing(line, lc, io, FRAME_CYCLES, false, false);
    vstd::arithmetic::div_mod::lemma_mod_add_multiples_vanish(
        beam_pos(line, lc),
        FRAME_CYCLES as int,
    );
    vstd::arithmetic::div_mod::lemma_small_mod(beam_pos(line, lc) as nat, FRAME_CYCLES as nat);
    assert(beam_pos(t.0, t.1) == beam_pos(line, lc));
}

impl Ppu {
    fn check_vcounter(&self, io: &mut [u8; 0x400])
        ensures
            final(io)@ == spec_check_vcounter(old(io)@, self.line),
    {
        let dispstat = read16(io, 0x004);
        let lyc = dispstat >> 8;
        let match_now = self.line == lyc;
        set_dispstat_bit(io, 2, match_now);
        if match_now && dispstat & 0x20 != 0 {
            request_irq(io, 4);
        }
    }

    /// Advances the beam by `cycles`, raising H-blank, V-blank and V-count
    /// status and interrupts, and renders the frame when V-blank begins.
    pub fn step(
        &mut self,
        cycles: u32,
        io: &mut [u8; 0x400],
        vram: &[u8],
        pram: &[u8],
        oam: &[u8],
    ) -> (events: PpuEvents)
        requires
            old(self)@.wf(),
            cycles <= u32::MAX - LINE_CYCLES,
        ensures
            final(self)@.wf(),
            ({
                let (line, lc, io2, hb, vb) = spec_timing(
                    old(self).line,
                    old(self).line_cycles,
                    old(io)@,
                    cycles,
                    false,
                    false,
                );
                &&& final(self).line == line
                &&& final(self).line_cycles == lc
                &&& final(io)@ == io2
                &&& events.hblank == hb
                &&& events.vblank == vb
                &&& events.frame == vb
            }),
            !events.vblank ==> final(self).frame@ == old(self).frame@,
            events.vblank ==> final(self).frame@ == rendered_frame(final(io)@, vram@, pram@, oam@),
    {
        let mut events = PpuEvents { hblank: false, vblank: false, frame: false };
        let mut cycles = cycles;
        let ghost target = spec_timing(self.line, self.line_cycles, io@, cycles, false, false);
        let ghost frame0 = self.frame@;
        while cycles > 0
            invariant
                self@.wf(),
                cycles <= u32::MAX - LINE_CYCLES,
                events.frame == events.vblank,
                spec_timing(self.line, self.line_cycles, io@, cycles, events.hblank, events.vblank)
                    == target,
                !events.vblank ==> self.frame@ == frame0,
                events.vblank ==> forall|x: int, y: int|
                    0 <= x < 240 && 0 <= y < 160 ==> self.frame@[y * 240 + x]
                        == #[trigger] spec_frame_pixel(io@, vram@, pram@, oam@, x, y),
            decreases cycles,
        {
            let ghost io0 = io@;
            if self.line < VISIBLE_LINES && self.line_cycles < HBLANK_START && self.line_cycles
                + cycles >= HBLANK_START {
                let used = HBLANK_START - self.line_cycles;
                self.line_cycles = HBLANK_START;
                cycles = cycles - used;
                set_dispstat_bit(io, 1, true);
                events.hblank = true;
                let ghost io1 = io@;
                if read16(io, 0x004) & 0x10 != 0 {
                    request_irq(io, 2);
                }
                proof {
                    lemma_timing_ops_render_regs(io0, 0, 1, true, 2);
                    lemma_timing_ops_render_regs(io1, 0, 1, true, 2);
                    lemma_render_regs_trans(io0, io1, io@);
                    transport_frame(self.frame@, io0, io@, vram@, pram@, oam@, events.vblank);
                }
                continue ;
            }
            if self.line_cycles + cycles >= LINE_CYCLES {
                let used = LINE_CYCLES - self.line_cycles;
                cycles = cycles - used;
                self.line_cycles = 0;
                set_dispstat_bit(io, 1, false);
                proof {
                    lemma_timing_ops_render_regs(io0, 0, 1, false, 2);
                    transport_frame(self.frame@, io0, io@, vram@, pram@, oam@, events.vblank);
                }
                self.line = self.line + 1;
                if self.line == VISIBLE_LINES {
                    let ghost io_a = io@;
                    set_dispstat_bit(io, 0, true);
                    proof {
                        lemma_timing_ops_render_regs(io_a, 0, 0, true, 1);
                    }
                    self.render_frame(io, vram, pram, oam);
                    events.vblank = true;
                    events.frame = true;
                    let ghost io_b = io@;
                    if read16(io, 0x004) & 0x8 != 0 || read16(io, 0x200) & 1 != 0 {
                        request_irq(io, 1);
                    }
                    proof {
                        lemma_timing_ops_render_regs(io_b, 0, 0, true, 1);
                        transport_frame(self.frame@, io_b, io@, vram@, pram@, oam@, events.vblank);
                    }
                } else if self.line >= TOTAL_LINES {
                    let ghost io_a = io@;
                    self.line = 0;
                    set_dispstat_bit(io, 0, false);
                    proof {
                        lemma_timing_ops_render_regs(io_a, 0, 0, false, 1);
                        transport_frame(self.frame@, io_a, io@, vram@, pram@, oam@, events.vblank);
                    }
                }
                let ghost io_c = io@;
                write16(io, 0x006, self.line);
                let ghost io_d = io@;
                self.check_vcounter(io);
                proof {
                    lemma_timing_ops_render_regs(io_c, self.line, 0, false, 1);
                    lemma_timing_ops_render_regs(io_d, self.line, 0, false, 1);
                    lemma_render_regs_trans(io_c, io_d, io@);
                    transport_frame(self.frame@, io_c, io@, vram@, pram@, oam@, events.vblank);
                }
                continue ;
            }
            self.line_cycles = self.line_cycles + cycles;
            cycles = 0;
        }
        proof {
            if events.vblank {
                assert forall|i: int| 0 <= i < FRAME_PIXELS implies self.frame@[i] == rendered_frame(
                    io@,
                    vram@,
                    pram@,
                    oam@,
                )[i] by {
                    let x = i % 240;
                    let y = i / 240;
                    assert(i == y * 240 + x);
                    assert(self.frame@[y * 240 + x] == spec_frame_pixel(io@, vram@, pram@, oam@, x, y));
                }
                assert(self.frame@ =~= rendered_frame(io@, vram@, pram@, oam@));
            }
        }
        events
    }
}


pub fn obj_size(shape: u16, size: u16) -> (r: (usize, usize))
    ensures
        r == spec_obj_size(shape, size),
        8 <= r.0 <= 64,
        8 <= r.1 <= 64,
{
    let s = shape & 3;
    let z = size & 3;
    if s == 0 {
        if z == 0 {
            (8, 8)
        } else if z == 1 {
            (16, 16)
        } else if z == 2 {
            (32, 32)
        } else {
            (64, 64)
        }
    } else if s == 1 {
        if z == 0 {
            (16, 8)
        } else if z == 1 {
            (32, 8)
        } else if z == 2 {
            (32, 16)
        } else {
            (64, 32)
        }
    } else if s == 2 {
        if z == 0 {
            (8, 16)
        } else if z == 1 {
            (8, 32)
        } else if z == 2 {
            (16, 32)
        } else {
            (32, 64)
        }
    } else {
        (8, 8)
    }
}

pub fn signed_obj_x(raw: u16) -> (r: i32)
    requires
        raw <= 0x1ff,
    ensures
        r == spec_signed_obj_x(raw),
        -256 <= r < 256,
{
    let value = raw as i32;
    if value >= 256 {
        value - 512
    } else {
        value
    }
}

pub fn signed_obj_y(raw: u16) -> (r: i32)
    requires
        raw <= 0xff,
    ensures
        r == spec_signed_obj_y(raw),
        -96 <= r < 160,
{
    let value = raw as i32;
    if value >= 160 {
        value - 256
    } else {
        value
    }
}

/// The low 28 bits of `value` as a signed number (affine reference point).
pub open spec fn spec_sign_extend_28(value: u32) -> i32 {
    ((value << 4u32) as i32) >> 4u32
}

pub fn sign_extend_28(value: u32) -> (r: i32)
    ensures
        r == spec_sign_extend_28(value),
        -0x0800_0000 <= r < 0x0800_0000,
{
    proof {
        assert(-0x0800_0000 <= ((value << 4u32) as i32) >> 4u32 < 0x0800_0000) by (bit_vector);
    }
    ((value << 4) as i32) >> 4
}

pub open spec fn spec_window_mask_from_bits(bits: u16) -> WindowMask {
    WindowMask { layers: (bits & 0x1f) as u8, blend: bits & 0x20 != 0 }
}

pub fn window_mask_from_bits(bits: u16) -> (r: WindowMask)
    ensures
        r == spec_window_mask_from_bits(bits),
{
    proof {
        crate::bits::lemma_u16_and_le(bits, 0x1f);
    }
    WindowMask { layers: (bits & 0x1f) as u8, blend: bits & 0x20 != 0 }
}

pub fn in_window_range(value: usize, start: usize, end: usize, limit: usize) -> (r: bool)
    ensures
        r == spec_in_window_range(value as int, start as int, end as int, limit as int),
{
    let start = if start < limit {
        start
    } else {
        limit
    };
    let end = if end < limit {
        end
    } else {
        limit
    };
    start < end && value >= start && value < end
}

/// Whether pixel (x, y) lies in the window whose horizontal and vertical
/// bounds registers are at `hoff` and `voff`.
pub open spec fn spec_inside_window(io: Seq<u8>, hoff: int, voff: int, x: int, y: int) -> bool {
    let h = spec_read16(io, hoff);
    let v = spec_read16(io, voff);
    spec_in_window_range(x, (h >> 8u16) as int, (h & 0xff) as int, 240)
        && spec_in_window_range(y, (v >> 8u16) as int, (v & 0xff) as int, 160)
}

fn inside_window(io: &[u8; 0x400], hoff: usize, voff: usize, x: usize, y: usize) -> (r: bool)
    requires
        hoff + 1 < 0x400,
        voff + 1 < 0x400,
    ensures
        r == spec_inside_window(io@, hoff as int, voff as int, x as int, y as int),
{
    let h = read16(io, hoff);
    let v = read16(io, voff);
    let left = (h >> 8) as usize;
    let right = (h & 0xff) as usize;
    let top = (v >> 8) as usize;
    let bottom = (v & 0xff) as usize;
    in_window_range(x, left, right, 240) && in_window_range(y, top, bottom, 160)
}

/// Layers and blending allowed at pixel (x, y) by the windows.
pub open spec fn spec_window_mask_at(
    dispcnt: u16,
    io: Seq<u8>,
    x: int,
    y: int,
    obj_window: Option<Seq<bool>>,
) -> WindowMask {
    if dispcnt & 0xe000 == 0 {
        spec_window_mask_from_bits(0x3f)
    } else {
        let winin = spec_read16(io, 0x048);
        let winout = spec_read16(io, 0x04a);
        let in_obj = match obj_window {
            Some(m) => 0 <= y * 240 + x < m.len() && m[y * 240 + x],
            None => false,
        };
        let bits = if dispcnt & 0x2000 != 0 && spec_inside_window(io, 0x040, 0x044, x, y) {
            winin & 0x003f
        } else if dispcnt & 0x4000 != 0 && spec_inside_window(io, 0x042, 0x046, x, y) {
            (winin >> 8u16) & 0x003f
        } else if dispcnt & 0x8000 != 0 && in_obj {
            (winout >> 8u16) & 0x003f
        } else {
            winout & 0x003f
        };
        spec_window_mask_from_bits(bits)
    }
}

fn window_mask_at(
    dispcnt: u16,
    io: &[u8; 0x400],
    x: usize,
    y: usize,
    obj_window: Option<&Vec<bool>>,
) -> (r: WindowMask)
    requires
        x < 240,
        y < 160,
    ensures
        r == spec_window_mask_at(
            dispcnt,
            io@,
            x as int,
            y as int,
            match obj_window {
                Some(m) => Some(m@),
                None => None,
            },
        ),
{
    if dispcnt & 0xe000 == 0 {
        return window_mask_from_bits(0x3f);
    }
    let winin = read16(io, 0x048);
    let winout = read16(io, 0x04a);
    let in_obj = match obj_window {
        Some(mask) => {
            let i = y * 240 + x;
            i < mask.len() && mask[i]
        },
        None => false,
    };
    let bits = if dispcnt & 0x2000 != 0 && inside_window(io, 0x040, 0x044, x, y) {
        winin & 0x003f
    } else if dispcnt & 0x4000 != 0 && inside_window(io, 0x042, 0x046, x, y) {
        (winin >> 8) & 0x003f
    } else if dispcnt & 0x8000 != 0 && in_obj {
        (winout >> 8) & 0x003f
    } else {
        winout & 0x003f
    };
    window_mask_from_bits(bits)
}

/// Blend coefficient register field, saturated at 16.
pub open spec fn coeff(v: u16) -> u32 {
    let c = (v & 0x1f) as u32;
    if c < 16 {
        c
    } else {
        16
    }
}

fn coeff_exec(v: u16) -> (r: u32)
    ensures
        r == coeff(v),
        r <= 16,
{
    proof {
        crate::bits::lemma_u16_and_le(v, 0x1f);
    }
    let c = (v & 0x1f) as u32;
    if c < 16 {
        c
    } else {
        16
    }
}

/// The colour shown for the top two candidate pixels under the blend
/// registers.
pub open spec fn spec_apply_blend(
    top: Pixel,
    second: Option<Pixel>,
    io: Seq<u8>,
    blend_enabled: bool,
) -> u16 {
    let bldcnt = spec_read16(io, 0x050);
    let effect = (bldcnt >> 6u16) & 3;
    let target1 = bldcnt & 0x3f;
    let target2 = (bldcnt >> 8u16) & 0x3f;
    let alpha = spec_read16(io, 0x052);
    let second_ok = match second {
        Some(p) => target2 & p.mask != 0,
        None => false,
    };
    if !blend_enabled {
        top.color
    } else if top.semi && second_ok {
        spec_alpha_blend(top.color, second->0.color, coeff(alpha), coeff(alpha >> 8u16))
    } else if target1 & top.mask == 0 {
        top.color
    } else if effect == 1 {
        if second_ok {
            spec_alpha_blend(top.color, second->0.color, coeff(alpha), coeff(alpha >> 8u16))
        } else {
            top.color
        }
    } else if effect == 2 {
        spec_brighten(top.color, coeff(spec_read16(io, 0x054)))
    } else if effect == 3 {
        spec_darken(top.color, coeff(spec_read16(io, 0x054)))
    } else {
        top.color
    }
}

fn apply_blend(top: Pixel, second: Option<Pixel>, io: &[u8; 0x400], blend_enabled: bool) -> (r:
    u16)
    ensures
        r == spec_apply_blend(top, second, io@, blend_enabled),
{
    if !blend_enabled {
        return top.color;
    }
    let bldcnt = read16(io, 0x050);
    let effect = (bldcnt >> 6) & 3;
    let target1 = bldcnt & 0x3f;
    let target2 = (bldcnt >> 8) & 0x3f;
    let second_ok = match second {
        Some(p) => target2 & p.mask != 0,
        None => false,
    };
    if top.semi && second_ok {
        let alpha = read16(io, 0x052);
        let eva = coeff_exec(alpha);
        let evb = coeff_exec(alpha >> 8);
        return alpha_blend(top.color, second.unwrap().color, eva, evb);
    }
    if target1 & top.mask == 0 {
        return top.color;
    }
    if effect == 1 {
        if second_ok {
            let alpha = read16(io, 0x052);
            let eva = coeff_exec(alpha);
            let evb = coeff_exec(alpha >> 8);
            alpha_blend(top.color, second.unwrap().color, eva, evb)
        } else {
            top.color
        }
    } else if effect == 2 {
        brighten(top.color, coeff_exec(read16(io, 0x054)))
    } else if effect == 3 {
        darken(top.color, coeff_exec(read16(io, 0x054)))
    } else {
        top.color
    }
}

/// Inserts `pixel` into the sorted pair of best candidates.
pub open spec fn spec_insert_pixel(first: Pixel, second: Option<Pixel>, pixel: Pixel) -> (
    Pixel,
    Option<Pixel>,
) {
    if key_less(pixel, first) {
        (pixel, Some(first))
    } else if match second {
        Some(old) => key_less(pixel, old),
        None => true,
    } {
        (first, Some(pixel))
    } else {
        (first, second)
    }
}

fn insert_pixel(first: &mut Pixel, second: &mut Option<Pixel>, pixel: Pixel)
    ensures
        (*final(first), *final(second)) == spec_insert_pixel(*old(first), *old(second), pixel),
{
    if key_lt(pixel, *first) {
        *second = Some(*first);
        *first = pixel;
    } else {
        let better = match *second {
            Some(old) => key_lt(pixel, old),
            None => true,
        };
        if better {
            *second = Some(pixel);
        }
    }
}

fn insert_obj_layer_pixel(slot: &mut Option<Pixel>, pixel: Pixel)
    ensures
        *final(slot) == (match *old(slot) {
            Some(old) => if key_less(pixel, old) {
                Some(pixel)
            } else {
                Some(old)
            },
            None => Some(pixel),
        }),
{
    let better = match *slot {
        Some(old) => key_lt(pixel, old),
        None => true,
    };
    if better {
        *slot = Some(pixel);
    }
}

/// The screen block, within a text background of size code `size`, that
/// holds map tile (tile_x, tile_y).
pub open spec fn text_page(size: u16, tile_x: int, tile_y: int) -> int {
    if size == 1 && tile_x >= 32 {
        1
    } else if size == 2 && tile_y >= 32 {
        1
    } else if size == 3 && tile_x >= 32 && tile_y < 32 {
        1
    } else if size == 3 && tile_x < 32 && tile_y >= 32 {
        2
    } else if size == 3 && tile_x >= 32 && tile_y >= 32 {
        3
    } else {
        0
    }
}

/// Map size code, in pixels wide and high, of a text background.
pub open spec fn text_dims(size: u16) -> (int, int) {
    if size == 0 {
        (256, 256)
    } else if size == 1 {
        (512, 256)
    } else if size == 2 {
        (256, 512)
    } else {
        (512, 512)
    }
}

/// The map position that screen position (x, y) of text background `bg`
/// shows: scrolled by the offset registers and wrapped at the map's size.
pub open spec fn text_coords(bg: int, x: int, y: int, io: Seq<u8>) -> (int, int) {
    let cnt = spec_read16(io, 0x008 + bg * 2);
    let (width, height) = text_dims((cnt >> 14u16) & 3);
    let hofs = (spec_read16(io, 0x010 + bg * 4) & 0x01ff) as int;
    let vofs = (spec_read16(io, 0x012 + bg * 4) & 0x01ff) as int;
    ((x + hofs) % width, (y + vofs) % height)
}

/// The map entry of text background control `cnt` for map position
/// (sx, sy).
pub open spec fn text_entry(cnt: u16, sx: int, sy: int, vram: Seq<u8>) -> u16 {
    let screen_base = ((cnt >> 8u16) & 0x1f) as int * 0x800;
    let tile_x = sx / 8;
    let tile_y = sy / 8;
    let page = text_page((cnt >> 14u16) & 3, tile_x, tile_y);
    spec_read_mem16(vram, screen_base + page * 0x800 + ((tile_y % 32) * 32 + tile_x % 32) * 2)
}

/// The palette index that map entry `entry` gives to map position
/// (sx, sy): the tile's texel, flipped as the entry says, in 256 colour
/// mode or offset by the entry's palette in 16 colour mode.
pub open spec fn text_color(cnt: u16, entry: u16, sx: int, sy: int, vram: Seq<u8>) -> int {
    let char_base = ((cnt >> 2u16) & 3) as int * 0x4000;
    let px = if entry & 0x400 != 0 {
        7 - sx % 8
    } else {
        sx % 8
    };
    let py = if entry & 0x800 != 0 {
        7 - sy % 8
    } else {
        sy % 8
    };
    let tile = (entry & 0x03ff) as int;
    if cnt & 0x80 != 0 {
        spec_byte_at(vram, char_base + tile * 64 + py * 8 + px) as int
    } else {
        let byte = spec_byte_at(vram, char_base + tile * 32 + py * 4 + px / 2);
        (entry >> 12u16) as int * 16 + (if px % 2 == 0 {
            byte & 0x0f
        } else {
            byte >> 4u8
        }) as int
    }
}

/// The pixel that text background `bg` shows at screen position (x, y);
/// palette index 0 (of its palette in 16 colour mode) is transparent.
pub open spec fn spec_text_bg_pixel(
    bg: int,
    x: int,
    y: int,
    io: Seq<u8>,
    vram: Seq<u8>,
    pram: Seq<u8>,
) -> Option<Pixel> {
    let cnt = spec_read16(io, 0x008 + bg * 2);
    let (sx, sy) = text_coords(bg, x, y, io);
    let color = text_color(cnt, text_entry(cnt, sx, sy, vram), sx, sy, vram);
    if (color % 16 == 0 && cnt & 0x80 == 0) || color == 0 {
        None
    } else {
        Some(
            Pixel {
                color: spec_read_mem16(pram, color * 2),
                priority: (cnt & 3) as u8,
                order: (128 + bg) as u8,
                mask: 1u16 << (bg as u16),
                semi: false,
            },
        )
    }
}

fn text_coords_exec(bg: usize, x: usize, y: usize, io: &[u8; 0x400]) -> (r: (usize, usize))
    requires
        bg < 4,
        x < 240,
        y < 160,
    ensures
        (r.0 as int, r.1 as int) == text_coords(bg as int, x as int, y as int, io@),
        r.0 < 512,
        r.1 < 512,
{
    let cnt = read16(io, 0x008 + bg * 2);
    let size = (cnt >> 14) & 3;
    let (width, height): (usize, usize) = if size == 0 {
        (256, 256)
    } else if size == 1 {
        (512, 256)
    } else if size == 2 {
        (256, 512)
    } else {
        (512, 512)
    };
    let hreg = read16(io, 0x010 + bg * 4);
    let vreg = read16(io, 0x012 + bg * 4);
    proof {
        crate::bits::lemma_u16_and_le(hreg, 0x01ff);
        crate::bits::lemma_u16_and_le(vreg, 0x01ff);
    }
    let hofs = (hreg & 0x01ff) as usize;
    let vofs = (vreg & 0x01ff) as usize;
    ((x + hofs) % width, (y + vofs) % height)
}

fn text_entry_exec(cnt: u16, sx: usize, sy: usize, vram: &[u8]) -> (r: u16)
    requires
        sx < 512,
        sy < 512,
    ensures
        r == text_entry(cnt, sx as int, sy as int, vram@),
{
    proof {
        crate::bits::lemma_u16_and_le(cnt >> 8u16, 0x1f);
        crate::bits::lemma_u16_and_le(cnt >> 14u16, 3);
    }
    let screen_base = (((cnt >> 8) & 0x1f) as usize) * 0x800;
    let size = (cnt >> 14) & 3;
    let tile_x = sx / 8;
    let tile_y = sy / 8;
    let page: usize = if size == 1 && tile_x >= 32 {
        1
    } else if size == 2 && tile_y >= 32 {
        1
    } else if size == 3 && tile_x >= 32 && tile_y < 32 {
        1
    } else if size == 3 && tile_x < 32 && tile_y >= 32 {
        2
    } else if size == 3 && tile_x >= 32 && tile_y >= 32 {
        3
    } else {
        0
    };
    read_mem16(vram, screen_base + page * 0x800 + ((tile_y % 32) * 32 + tile_x % 32) * 2)
}

fn text_color_exec(cnt: u16, entry: u16, sx: usize, sy: usize, vram: &[u8]) -> (r: usize)
    ensures
        r as int == text_color(cnt, entry, sx as int, sy as int, vram@),
        r < 0x10_0000,
{
    proof {
        crate::bits::lemma_u16_and_le(cnt >> 2u16, 3);
        crate::bits::lemma_u16_and_le(entry, 0x03ff);
    }
    let char_base = (((cnt >> 2) & 3) as usize) * 0x4000;
    let px = if entry & 0x400 != 0 {
        7 - sx % 8
    } else {
        sx % 8
    };
    let py = if entry & 0x800 != 0 {
        7 - sy % 8
    } else {
        sy % 8
    };
    let tile = (entry & 0x03ff) as usize;
    if cnt & 0x80 != 0 {
        byte_at(vram, char_base + tile * 64 + py * 8 + px) as usize
    } else {
        let byte = byte_at(vram, char_base + tile * 32 + py * 4 + px / 2);
        let nibble = if px % 2 == 0 {
            byte & 0x0f
        } else {
            byte >> 4
        };
        proof {
            crate::bits::lemma_u8_and_le(byte, 0x0f);
            assert(byte >> 4u8 < 16) by (bit_vector);
        }
        ((entry >> 12) as usize) * 16 + nibble as usize
    }
}

/// The text background pixel of layer `bg` at screen position (x, y).
fn text_bg_pixel(bg: usize, x: usize, y: usize, io: &[u8; 0x400], vram: &[u8], pram: &[u8]) -> (r:
    Option<Pixel>)
    requires
        bg < 4,
        x < 240,
        y < 160,
    ensures
        r matches Some(p) ==> p.mask == (1u16 << (bg as u16)) && p.order == 128 + bg
            && p.priority < 4 && !p.semi,
        r == spec_text_bg_pixel(bg as int, x as int, y as int, io@, vram@, pram@),
{
    let cnt = read16(io, 0x008 + bg * 2);
    proof {
        crate::bits::lemma_u16_and_le(cnt, 3);
    }
    let (sx, sy) = text_coords_exec(bg, x, y, io);
    let entry = text_entry_exec(cnt, sx, sy, vram);
    let color = text_color_exec(cnt, entry, sx, sy, vram);
    if (color % 16 == 0 && cnt & 0x80 == 0) || color == 0 {
        return None;
    }
    Some(
        Pixel {
            color: read_mem16(pram, color * 2),
            priority: (cnt & 3) as u8,
            order: 128 + bg as u8,
            mask: 1u16 << (bg as u16),
            semi: false,
        },
    )
}

/// Width and height, in pixels, of an affine background's map.
pub open spec fn affine_size(cnt: u16) -> int {
    let c = (cnt >> 14u16) & 3;
    if c == 0 {
        128
    } else if c == 1 {
        256
    } else if c == 2 {
        512
    } else {
        1024
    }
}

/// The map position, before any wrapping, that screen position (x, y) of
/// affine background `bg` shows: the reference point plus the matrix
/// applied to (x, y), in whole pixels.
pub open spec fn affine_coords(bg: int, x: int, y: int, io: Seq<u8>) -> (i32, i32) {
    let reg: int = if bg == 2 {
        0x020
    } else {
        0x030
    };
    let pa = spec_read16(io, reg) as i16 as int;
    let pb = spec_read16(io, reg + 2) as i16 as int;
    let pc = spec_read16(io, reg + 4) as i16 as int;
    let pd = spec_read16(io, reg + 6) as i16 as int;
    let refx = spec_sign_extend_28(spec_read32(io, reg + 8)) as int;
    let refy = spec_sign_extend_28(spec_read32(io, reg + 12)) as int;
    (((refx + pa * x + pb * y) as i32) >> 8i32, ((refy + pc * x + pd * y) as i32) >> 8i32)
}

/// The pixel that affine background `bg` shows at screen position (x, y):
/// outside the map it is transparent unless the map wraps; otherwise the
/// map byte picks a 256 colour tile, and palette index 0 is transparent.
pub open spec fn spec_affine_bg_pixel(
    bg: int,
    x: int,
    y: int,
    io: Seq<u8>,
    vram: Seq<u8>,
    pram: Seq<u8>,
) -> Option<Pixel> {
    let cnt = spec_read16(io, 0x008 + bg * 2);
    let char_base = ((cnt >> 2u16) & 3) as int * 0x4000;
    let screen_base = ((cnt >> 8u16) & 0x1f) as int * 0x800;
    let size = affine_size(cnt);
    let (sx, sy) = affine_coords(bg, x, y, io);
    if cnt & 0x2000 == 0 && (sx < 0 || sy < 0 || sx >= size || sy >= size) {
        None
    } else {
        let ux = (sx as int) % size;
        let uy = (sy as int) % size;
        let tile = spec_byte_at(vram, screen_base + (uy / 8 * (size / 8) + ux / 8)) as int;
        let color = spec_byte_at(vram, char_base + tile * 64 + (uy % 8) * 8 + ux % 8) as int;
        if color == 0 {
            None
        } else {
            Some(
                Pixel {
                    color: spec_read_mem16(pram, color * 2),
                    priority: (cnt & 3) as u8,
                    order: (128 + bg) as u8,
                    mask: 1u16 << (bg as u16),
                    semi: false,
                },
            )
        }
    }
}

fn affine_coords_exec(bg: usize, x: usize, y: usize, io: &[u8; 0x400]) -> (r: (i32, i32))
    requires
        bg == 2 || bg == 3,
        x < 240,
        y < 160,
    ensures
        r == affine_coords(bg as int, x as int, y as int, io@),
        -0x10_0000 <= r.0 <= 0x10_0000,
        -0x10_0000 <= r.1 <= 0x10_0000,
{
    let reg: usize = if bg == 2 {
        0x020
    } else {
        0x030
    };
    let pa = read16(io, reg) as i16 as i32;
    let pb = read16(io, reg + 2) as i16 as i32;
    let pc = read16(io, reg + 4) as i16 as i32;
    let pd = read16(io, reg + 6) as i16 as i32;
    let refx = sign_extend_28(read32(io, reg + 8));
    let refy = sign_extend_28(read32(io, reg + 12));
    let xi = x as i32;
    let yi = y as i32;
    proof {
        assert(-32768 * 240 <= pa * xi <= 32767 * 240) by (nonlinear_arith)
            requires
                -32768 <= pa <= 32767,
                0 <= xi < 240,
        ;
        assert(-32768 * 160 <= pb * yi <= 32767 * 160) by (nonlinear_arith)
            requires
                -32768 <= pb <= 32767,
                0 <= yi < 160,
        ;
        assert(-32768 * 240 <= pc * xi <= 32767 * 240) by (nonlinear_arith)
            requires
                -32768 <= pc <= 32767,
                0 <= xi < 240,
        ;
        assert(-32768 * 160 <= pd * yi <= 32767 * 160) by (nonlinear_arith)
            requires
                -32768 <= pd <= 32767,
                0 <= yi < 160,
        ;
    }
    let vx = refx + pa * xi + pb * yi;
    let vy = refy + pc * xi + pd * yi;
    proof {
        lemma_i32_shr8_bound(vx);
        lemma_i32_shr8_bound(vy);
    }
    (vx >> 8, vy >> 8)
}

/// `v` modulo `m`, in `0..m`, for a power of two `m` up to 1024.
fn wrap_coord(v: i32, m: i32) -> (r: usize)
    requires
        m == 128 || m == 256 || m == 512 || m == 1024,
        -0x10_0000 <= v <= 0x10_0000,
    ensures
        r as int == (v as int) % (m as int),
        r < m,
{
    let shifted = (v + 0x20_0000) as u32;
    let r = (shifted % (m as u32)) as usize;
    proof {
        let q: int = 0x20_0000int / (m as int);
        assert(q * (m as int) == 0x20_0000int);
        vstd::arithmetic::div_mod::lemma_mod_multiples_vanish(q, v as int, m as int);
        assert((m as int) * q == q * (m as int)) by (nonlinear_arith);
    }
    r
}

/// The affine background pixel of layer `bg` (2 or 3) at (x, y).
fn affine_bg_pixel(bg: usize, x: usize, y: usize, io: &[u8; 0x400], vram: &[u8], pram: &[u8]) -> (r:
    Option<Pixel>)
    requires
        bg == 2 || bg == 3,
        x < 240,
        y < 160,
    ensures
        r matches Some(p) ==> p.mask == (1u16 << (bg as u16)) && p.order == 128 + bg
            && p.priority < 4 && !p.semi,
        r == spec_affine_bg_pixel(bg as int, x as int, y as int, io@, vram@, pram@),
{
    let cnt = read16(io, 0x008 + bg * 2);
    proof {
        crate::bits::lemma_u16_and_le(cnt >> 2u16, 3);
        crate::bits::lemma_u16_and_le(cnt >> 8u16, 0x1f);
        crate::bits::lemma_u16_and_le(cnt >> 14u16, 3);
        crate::bits::lemma_u16_and_le(cnt, 3);
    }
    let char_base = (((cnt >> 2) & 3) as usize) * 0x4000;
    let screen_base = (((cnt >> 8) & 0x1f) as usize) * 0x800;
    let wrap = cnt & 0x2000 != 0;
    let size_code = (cnt >> 14) & 3;
    let size: usize = if size_code == 0 {
        128
    } else if size_code == 1 {
        256
    } else if size_code == 2 {
        512
    } else {
        1024
    };
    let (sx, sy) = affine_coords_exec(bg, x, y, io);
    let size_i = size as i32;
    if !wrap && (sx < 0 || sy < 0 || sx >= size_i || sy >= size_i) {
        return None;
    }
    let ux = wrap_coord(sx, size_i);
    let uy = wrap_coord(sy, size_i);
    let tiles_per_row = size / 8;
    proof {
        assert(uy / 8 * tiles_per_row <= 128 * 128) by (nonlinear_arith)
            requires
                uy < 1024,
                tiles_per_row <= 128,
        ;
    }
    let entry_off = screen_base + (uy / 8 * tiles_per_row + ux / 8);
    let tile = byte_at(vram, entry_off) as usize;
    let color = byte_at(vram, char_base + tile * 64 + (uy % 8) * 8 + (ux % 8)) as usize;
    if color == 0 {
        return None;
    }
    Some(
        Pixel {
            color: read_mem16(pram, color * 2),
            priority: (cnt & 3) as u8,
            order: 128 + bg as u8,
            mask: 1u16 << (bg as u16),
            semi: false,
        },
    )
}

/// Whether attribute 0 hides the object (not affine, "disable" bit set).
pub open spec fn obj_hidden(attr0: u16) -> bool {
    attr0 & 0x200 != 0 && attr0 & 0x100 == 0
}

/// The size of the area an object is drawn in: twice its size when affine
/// with double size.
pub open spec fn obj_draw_size(attr0: u16, attr1: u16) -> (int, int) {
    let (w, h) = spec_obj_size(attr0 >> 14u16, attr1 >> 14u16);
    if attr0 & 0x100 != 0 && attr0 & 0x200 != 0 {
        (w * 2, h * 2)
    } else {
        (w as int, h as int)
    }
}

/// The part `(x0, x1, y0, y1)` of the screen that an object's drawing area
/// covers, if any.
pub open spec fn spec_obj_bounds(attr0: u16, attr1: u16) -> Option<(int, int, int, int)> {
    if obj_hidden(attr0) {
        None
    } else {
        let (dw, dh) = obj_draw_size(attr0, attr1);
        let ox = spec_signed_obj_x(attr1 & 0x01ff) as int;
        let oy = spec_signed_obj_y(attr0 & 0x00ff) as int;
        let x0 = if ox > 0 {
            ox
        } else {
            0
        };
        let y0 = if oy > 0 {
            oy
        } else {
            0
        };
        let xe = if ox + dw < 240 {
            ox + dw
        } else {
            240
        };
        let ye = if oy + dh < 160 {
            oy + dh
        } else {
            160
        };
        let x1 = if xe > 0 {
            xe
        } else {
            0
        };
        let y1 = if ye > 0 {
            ye
        } else {
            0
        };
        if x0 < x1 && y0 < y1 {
            Some((x0, x1, y0, y1))
        } else {
            None
        }
    }
}

/// The texel that position (px, py) of an affine object's drawing area
/// shows: the object's matrix (chosen by attribute 1) applied around the
/// centres.
pub open spec fn spec_affine_obj_coords(
    attr1: u16,
    px: int,
    py: int,
    w: int,
    h: int,
    dw: int,
    dh: int,
    oam: Seq<u8>,
) -> (int, int) {
    let index = ((attr1 >> 9u16) & 0x1f) as int;
    let pa = spec_read_mem16(oam, index * 32 + 6) as i16 as int;
    let pb = spec_read_mem16(oam, index * 32 + 14) as i16 as int;
    let pc = spec_read_mem16(oam, index * 32 + 22) as i16 as int;
    let pd = spec_read_mem16(oam, index * 32 + 30) as i16 as int;
    let ux = px - dw / 2;
    let uy = py - dh / 2;
    (
        (((pa * ux + pb * uy) as i32) >> 8i32) as int + w / 2,
        (((pc * ux + pd * uy) as i32) >> 8i32) as int + h / 2,
    )
}

/// The palette index of texel (x, y) of an object `width` pixels wide whose
/// first tile is `tile`, from object tile memory, laid out in one or two
/// dimensions.
pub open spec fn spec_obj_tile_color(
    tile: int,
    x: int,
    y: int,
    width: int,
    color_256: bool,
    one_dimensional: bool,
    vram: Seq<u8>,
) -> u8 {
    let tiles_x = width / 8;
    let px = x % 8;
    let py = y % 8;
    if color_256 {
        let stride = if one_dimensional {
            tiles_x * 2
        } else {
            32
        };
        spec_byte_at(vram, 0x10000 + (tile + (y / 8) * stride + (x / 8) * 2) * 32 + py * 8 + px)
    } else {
        let stride = if one_dimensional {
            tiles_x
        } else {
            32
        };
        let byte = spec_byte_at(vram, 0x10000 + (tile + (y / 8) * stride + x / 8) * 32 + py * 4 + px / 2);
        if px % 2 == 0 {
            byte & 0x0f
        } else {
            byte >> 4u8
        }
    }
}

/// The palette index object (attr0, attr1, attr2) shows at screen pixel
/// (x, y), if it draws one there: the position within the drawing area,
/// through the affine matrix or the flips, must fall on the object, and
/// index 0 is transparent.
pub open spec fn spec_obj_color_index_at(
    x: int,
    y: int,
    dispcnt: u16,
    attr0: u16,
    attr1: u16,
    attr2: u16,
    vram: Seq<u8>,
    oam: Seq<u8>,
) -> Option<u8> {
    if obj_hidden(attr0) {
        None
    } else {
        let (w, h) = spec_obj_size(attr0 >> 14u16, attr1 >> 14u16);
        let affine = attr0 & 0x100 != 0;
        let (dw, dh) = obj_draw_size(attr0, attr1);
        let px = x - spec_signed_obj_x(attr1 & 0x01ff) as int;
        let py = y - spec_signed_obj_y(attr0 & 0x00ff) as int;
        if px < 0 || py < 0 || px >= dw || py >= dh {
            None
        } else {
            let (tx0, ty0) = if affine {
                spec_affine_obj_coords(attr1, px, py, w as int, h as int, dw, dh, oam)
            } else {
                (px, py)
            };
            if tx0 < 0 || ty0 < 0 || tx0 >= w || ty0 >= h {
                None
            } else {
                let tx = if !affine && attr1 & 0x1000 != 0 {
                    w - 1 - tx0
                } else {
                    tx0
                };
                let ty = if !affine && attr1 & 0x2000 != 0 {
                    h - 1 - ty0
                } else {
                    ty0
                };
                let c = spec_obj_tile_color(
                    (attr2 & 0x03ff) as int,
                    tx,
                    ty,
                    w as int,
                    attr0 & 0x2000 != 0,
                    dispcnt & 0x40 != 0,
                    vram,
                );
                if c != 0 {
                    Some(c)
                } else {
                    None
                }
            }
        }
    }
}

/// Screen rectangle `(x0, x1, y0, y1)` covered by an object, if any.
fn obj_bounds(attr0: u16, attr1: u16) -> (r: Option<(usize, usize, usize, usize)>)
    ensures
        r matches Some(b) ==> b.0 < b.1 <= 240 && b.2 < b.3 <= 160,
        match r {
            Some(b) => spec_obj_bounds(attr0, attr1) == Some(
                (b.0 as int, b.1 as int, b.2 as int, b.3 as int),
            ),
            None => spec_obj_bounds(attr0, attr1) is None,
        },
{
    if attr0 & 0x200 != 0 && attr0 & 0x100 == 0 {
        return None;
    }
    let (w, h) = obj_size(attr0 >> 14, attr1 >> 14);
    let affine = attr0 & 0x100 != 0;
    let draw_w: i32 = if affine && attr0 & 0x200 != 0 {
        (w * 2) as i32
    } else {
        w as i32
    };
    let draw_h: i32 = if affine && attr0 & 0x200 != 0 {
        (h * 2) as i32
    } else {
        h as i32
    };
    proof {
        crate::bits::lemma_u16_and_le(attr1, 0x01ff);
        crate::bits::lemma_u16_and_le(attr0, 0x00ff);
    }
    let ox = signed_obj_x(attr1 & 0x01ff);
    let oy = signed_obj_y(attr0 & 0x00ff);
    let x0: usize = if ox > 0 {
        ox as usize
    } else {
        0
    };
    let y0: usize = if oy > 0 {
        oy as usize
    } else {
        0
    };
    let xe = if ox + draw_w < 240 {
        ox + draw_w
    } else {
        240
    };
    let ye = if oy + draw_h < 160 {
        oy + draw_h
    } else {
        160
    };
    let x1: usize = if xe > 0 {
        xe as usize
    } else {
        0
    };
    let y1: usize = if ye > 0 {
        ye as usize
    } else {
        0
    };
    if x0 < x1 && y0 < y1 {
        Some((x0, x1, y0, y1))
    } else {
        None
    }
}

fn affine_obj_coords(
    attr1: u16,
    px: i32,
    py: i32,
    w: i32,
    h: i32,
    draw_w: i32,
    draw_h: i32,
    oam: &[u8],
) -> (r: (i32, i32))
    requires
        0 <= px < draw_w <= 128,
        0 <= py < draw_h <= 128,
        0 <= w <= 64,
        0 <= h <= 64,
    ensures
        (r.0 as int, r.1 as int) == spec_affine_obj_coords(
            attr1,
            px as int,
            py as int,
            w as int,
            h as int,
            draw_w as int,
            draw_h as int,
            oam@,
        ),
{
    proof {
        crate::bits::lemma_u16_and_le(attr1 >> 9u16, 0x1f);
    }
    let index = ((attr1 >> 9) & 0x1f) as usize;
    let pa = read_mem16(oam, index * 32 + 6) as i16 as i32;
    let pb = read_mem16(oam, index * 32 + 14) as i16 as i32;
    let pc = read_mem16(oam, index * 32 + 22) as i16 as i32;
    let pd = read_mem16(oam, index * 32 + 30) as i16 as i32;
    let cx = draw_w / 2;
    let cy = draw_h / 2;
    let ux = px - cx;
    let uy = py - cy;
    proof {
        assert(-32768 * 128 <= pa * ux <= 32768 * 128) by (nonlinear_arith)
            requires
                -32768 <= pa <= 32767,
                -128 <= ux <= 128,
        ;
        assert(-32768 * 128 <= pb * uy <= 32768 * 128) by (nonlinear_arith)
            requires
                -32768 <= pb <= 32767,
                -128 <= uy <= 128,
        ;
        assert(-32768 * 128 <= pc * ux <= 32768 * 128) by (nonlinear_arith)
            requires
                -32768 <= pc <= 32767,
                -128 <= ux <= 128,
        ;
        assert(-32768 * 128 <= pd * uy <= 32768 * 128) by (nonlinear_arith)
            requires
                -32768 <= pd <= 32767,
                -128 <= uy <= 128,
        ;
    }
    let tx = pa * ux + pb * uy;
    let ty = pc * ux + pd * uy;
    proof {
        lemma_i32_shr8_bound(tx);
        lemma_i32_shr8_bound(ty);
    }
    ((tx >> 8) + w / 2, (ty >> 8) + h / 2)
}

proof fn lemma_i32_shr8_bound(x: i32)
    requires
        -0x1000_0000 <= x <= 0x1000_0000,
    ensures
        -0x10_0000 <= x >> 8i32 <= 0x10_0000,
{
    assert(-0x10_0000 <= x >> 8i32 <= 0x10_0000) by (bit_vector)
        requires
            -0x1000_0000 <= x <= 0x1000_0000,
    ;
}

/// Colour index of texel (x, y) of an object whose first tile is `tile`.
fn obj_tile_color(
    tile: usize,
    x: usize,
    y: usize,
    width: usize,
    color_256: bool,
    one_dimensional: bool,
    vram: &[u8],
) -> (r: u8)
    requires
        tile < 1024,
        x < 64,
        y < 64,
        width <= 64,
    ensures
        !color_256 ==> r < 16,
        r == spec_obj_tile_color(
            tile as int,
            x as int,
            y as int,
            width as int,
            color_256,
            one_dimensional,
            vram@,
        ),
{
    let tiles_x = width / 8;
    let tile_x = x / 8;
    let tile_y = y / 8;
    let px = x % 8;
    let py = y % 8;
    let base: usize = 0x10000;
    if color_256 {
        let stride = if one_dimensional {
            tiles_x * 2
        } else {
            32
        };
        proof {
            assert(tile_y * stride <= 8 * 32) by (nonlinear_arith)
                requires
                    tile_y < 8,
                    stride <= 32,
            ;
        }
        let tile_no = tile + tile_y * stride + tile_x * 2;
        byte_at(vram, base + tile_no * 32 + py * 8 + px)
    } else {
        let stride = if one_dimensional {
            tiles_x
        } else {
            32
        };
        proof {
            assert(tile_y * stride <= 8 * 32) by (nonlinear_arith)
                requires
                    tile_y < 8,
                    stride <= 32,
            ;
        }
        let tile_no = tile + tile_y * stride + tile_x;
        let byte = byte_at(vram, base + tile_no * 32 + py * 4 + px / 2);
        proof {
            crate::bits::lemma_u8_and_le(byte, 0x0f);
            assert(byte >> 4u8 < 16) by (bit_vector);
        }
        if px % 2 == 0 {
            byte & 0x0f
        } else {
            byte >> 4
        }
    }
}

/// Colour index of object `attr0/1/2` at screen pixel (x, y), if drawn.
fn obj_color_index_at(
    x: usize,
    y: usize,
    dispcnt: u16,
    attr0: u16,
    attr1: u16,
    attr2: u16,
    vram: &[u8],
    oam: &[u8],
) -> (r: Option<u8>)
    requires
        x <= i32::MAX - 256,
        y <= i32::MAX - 256,
    ensures
        r matches Some(c) ==> c != 0 && (attr0 & 0x2000 == 0 ==> c < 16),
        r == spec_obj_color_index_at(x as int, y as int, dispcnt, attr0, attr1, attr2, vram@, oam@),
{
    if attr0 & 0x200 != 0 && attr0 & 0x100 == 0 {
        return None;
    }
    let (w, h) = obj_size(attr0 >> 14, attr1 >> 14);
    let affine = attr0 & 0x100 != 0;
    let draw_w = if affine && attr0 & 0x200 != 0 {
        w * 2
    } else {
        w
    };
    let draw_h = if affine && attr0 & 0x200 != 0 {
        h * 2
    } else {
        h
    };
    proof {
        crate::bits::lemma_u16_and_le(attr1, 0x01ff);
        crate::bits::lemma_u16_and_le(attr0, 0x00ff);
        crate::bits::lemma_u16_and_le(attr2, 0x03ff);
    }
    let ox = signed_obj_x(attr1 & 0x01ff);
    let oy = signed_obj_y(attr0 & 0x00ff);
    let px = x as i32 - ox;
    let py = y as i32 - oy;
    if px < 0 || py < 0 || px >= draw_w as i32 || py >= draw_h as i32 {
        return None;
    }
    let (mut tx, mut ty) = if affine {
        affine_obj_coords(
            attr1,
            px,
            py,
            w as i32,
            h as i32,
            draw_w as i32,
            draw_h as i32,
            oam,
        )
    } else {
        (px, py)
    };
    if tx < 0 || ty < 0 || tx >= w as i32 || ty >= h as i32 {
        return None;
    }
    if !affine {
        if attr1 & 0x1000 != 0 {
            tx = w as i32 - 1 - tx;
        }
        if attr1 & 0x2000 != 0 {
            ty = h as i32 - 1 - ty;
        }
    }
    let color = obj_tile_color(
        (attr2 & 0x03ff) as usize,
        tx as usize,
        ty as usize,
        w,
        attr0 & 0x2000 != 0,
        dispcnt & 0x40 != 0,
        vram,
    );
    if color != 0 {
        Some(color)
    } else {
        None
    }
}

/// The pixel that object `obj` (in normal or semi-transparent mode)
/// contributes at screen pixel (x, y), if any.
pub open spec fn obj_pixel(
    obj: int,
    x: int,
    y: int,
    dispcnt: u16,
    vram: Seq<u8>,
    pram: Seq<u8>,
    oam: Seq<u8>,
) -> Option<Pixel> {
    let attr0 = spec_read_mem16(oam, obj * 8);
    let attr1 = spec_read_mem16(oam, obj * 8 + 2);
    let attr2 = spec_read_mem16(oam, obj * 8 + 4);
    let mode = (attr0 >> 10u16) & 3;
    match spec_obj_bounds(attr0, attr1) {
        Some(b) => if mode < 2 && b.0 <= x < b.1 && b.2 <= y < b.3 {
            match spec_obj_color_index_at(x, y, dispcnt, attr0, attr1, attr2, vram, oam) {
                Some(c) => {
                    let pal = if attr0 & 0x2000 != 0 {
                        0x100 + c as int
                    } else {
                        0x100 + (attr2 >> 12u16) as int * 16 + c as int
                    };
                    Some(
                        Pixel {
                            color: spec_read_mem16(pram, pal * 2),
                            priority: ((attr2 >> 10u16) & 3) as u8,
                            order: obj as u8,
                            mask: 0x10,
                            semi: mode == 1,
                        },
                    )
                },
                None => None,
            }
        } else {
            None
        },
        None => None,
    }
}

/// A slot of the object layer after offering it `p`: the pixel with the
/// lower (priority, object number) stays.
pub open spec fn slot_insert(slot: Option<Pixel>, p: Pixel) -> Option<Pixel> {
    match slot {
        Some(old) => if key_less(p, old) {
            Some(p)
        } else {
            Some(old)
        },
        None => Some(p),
    }
}

/// The object layer at screen pixel (x, y) after drawing the first `n`
/// objects.
pub open spec fn obj_layer_at(
    n: nat,
    x: int,
    y: int,
    dispcnt: u16,
    vram: Seq<u8>,
    pram: Seq<u8>,
    oam: Seq<u8>,
) -> Option<Pixel>
    decreases n,
{
    if n == 0 {
        None
    } else {
        let prev = obj_layer_at((n - 1) as nat, x, y, dispcnt, vram, pram, oam);
        match obj_pixel(n - 1, x, y, dispcnt, vram, pram, oam) {
            Some(p) => slot_insert(prev, p),
            None => prev,
        }
    }
}

/// Whether object `obj`, in object-window mode, covers screen pixel (x, y)
/// with a visible texel.
pub open spec fn obj_window_pixel(
    obj: int,
    x: int,
    y: int,
    dispcnt: u16,
    vram: Seq<u8>,
    oam: Seq<u8>,
) -> bool {
    let attr0 = spec_read_mem16(oam, obj * 8);
    let attr1 = spec_read_mem16(oam, obj * 8 + 2);
    let attr2 = spec_read_mem16(oam, obj * 8 + 4);
    &&& (attr0 >> 10u16) & 3 == 2
    &&& spec_obj_bounds(attr0, attr1) matches Some(b)
    &&& b.0 <= x < b.1 && b.2 <= y < b.3
    &&& spec_obj_color_index_at(x, y, dispcnt, attr0, attr1, attr2, vram, oam) is Some
}

/// Whether one of the first `n` objects puts screen pixel (x, y) inside the
/// object window.
pub open spec fn obj_window_at(n: nat, x: int, y: int, dispcnt: u16, vram: Seq<u8>, oam: Seq<u8>) -> bool
    decreases n,
{
    n > 0 && (obj_window_at((n - 1) as nat, x, y, dispcnt, vram, oam) || obj_window_pixel(
        n - 1,
        x,
        y,
        dispcnt,
        vram,
        oam,
    ))
}

/// The object window over the whole screen, row by row.
pub open spec fn obj_window_mask(dispcnt: u16, vram: Seq<u8>, oam: Seq<u8>) -> Seq<bool> {
    Seq::new(FRAME_PIXELS as nat, |i: int| obj_window_at(128, i % 240, i / 240, dispcnt, vram, oam))
}

/// Draws object `obj` into the object layer.
fn draw_obj_layer(
    layer: &mut Vec<Option<Pixel>>,
    obj: usize,
    dispcnt: u16,
    vram: &[u8],
    pram: &[u8],
    oam: &[u8],
)
    requires
        old(layer)@.len() == FRAME_PIXELS,
        obj < 128,
    ensures
        final(layer)@.len() == FRAME_PIXELS,
        forall|x: int, y: int|
            0 <= x < 240 && 0 <= y < 160 ==> final(layer)@[y * 240 + x] == match #[trigger] obj_pixel(
                obj as int,
                x,
                y,
                dispcnt,
                vram@,
                pram@,
                oam@,
            ) {
                Some(p) => slot_insert(old(layer)@[y * 240 + x], p),
                None => old(layer)@[y * 240 + x],
            },
{
    let ghost start = layer@;
    let base = obj * 8;
    let attr0 = read_mem16(oam, base);
    let attr1 = read_mem16(oam, base + 2);
    let attr2 = read_mem16(oam, base + 4);
    let obj_mode = (attr0 >> 10) & 3;
    let bounds = obj_bounds(attr0, attr1);
    if obj_mode >= 2 || bounds.is_none() {
        assert forall|x: int, y: int| 0 <= x < 240 && 0 <= y < 160 implies #[trigger] obj_pixel(
            obj as int,
            x,
            y,
            dispcnt,
            vram@,
            pram@,
            oam@,
        ) is None by {}
        return;
    }
    let (x0, x1, y0, y1) = bounds.unwrap();
    proof {
        crate::bits::lemma_u16_shr_bound(attr2, 12);
        crate::bits::lemma_u16_and_le(attr2 >> 10u16, 3);
    }
    let mut py = y0;
    while py < y1
        invariant
            y0 <= py <= y1 <= 160,
            x0 < x1 <= 240,
            layer@.len() == FRAME_PIXELS,
            obj < 128,
            attr0 == spec_read_mem16(oam@, obj * 8),
            attr1 == spec_read_mem16(oam@, obj * 8 + 2),
            attr2 == spec_read_mem16(oam@, obj * 8 + 4),
            obj_mode == (attr0 >> 10u16) & 3,
            obj_mode < 2,
            spec_obj_bounds(attr0, attr1) == Some((x0 as int, x1 as int, y0 as int, y1 as int)),
            forall|x: int, y: int|
                0 <= x < 240 && 0 <= y < 160 ==> layer@[y * 240 + x] == if y < py {
                    match #[trigger] obj_pixel(obj as int, x, y, dispcnt, vram@, pram@, oam@) {
                        Some(p) => slot_insert(start[y * 240 + x], p),
                        None => start[y * 240 + x],
                    }
                } else {
                    start[y * 240 + x]
                },
        decreases y1 - py,
    {
        let mut px = x0;
        while px < x1
            invariant
                x0 <= px <= x1 <= 240,
                y0 <= py < y1 <= 160,
                layer@.len() == FRAME_PIXELS,
                obj < 128,
                attr0 == spec_read_mem16(oam@, obj * 8),
                attr1 == spec_read_mem16(oam@, obj * 8 + 2),
                attr2 == spec_read_mem16(oam@, obj * 8 + 4),
                obj_mode == (attr0 >> 10u16) & 3,
                obj_mode < 2,
                spec_obj_bounds(attr0, attr1) == Some((x0 as int, x1 as int, y0 as int, y1 as int)),
                forall|x: int, y: int|
                    0 <= x < 240 && 0 <= y < 160 ==> layer@[y * 240 + x] == if y < py || (y == py
                        && x < px) {
                        match #[trigger] obj_pixel(obj as int, x, y, dispcnt, vram@, pram@, oam@) {
                            Some(p) => slot_insert(start[y * 240 + x], p),
                            None => start[y * 240 + x],
                        }
                    } else {
                        start[y * 240 + x]
                    },
            decreases x1 - px,
        {
            let ghost before = layer@;
            let ghost pix = obj_pixel(obj as int, px as int, py as int, dispcnt, vram@, pram@, oam@);
            if let Some(color) = obj_color_index_at(
                px,
                py,
                dispcnt,
                attr0,
                attr1,
                attr2,
                vram,
                oam,
            ) {
                let palette_index = if attr0 & 0x2000 != 0 {
                    0x100 + color as usize
                } else {
                    0x100 + ((attr2 >> 12) as usize) * 16 + color as usize
                };
                let idx = py * 240 + px;
                let mut slot = layer[idx];
                let p = Pixel {
                    color: read_mem16(pram, palette_index * 2),
                    priority: ((attr2 >> 10) & 3) as u8,
                    order: obj as u8,
                    mask: 0x10,
                    semi: obj_mode == 1,
                };
                assert(pix == Some(p));
                insert_obj_layer_pixel(&mut slot, p);
                layer.set(idx, slot);
            } else {
                assert(pix is None);
            }
            assert forall|x: int, y: int| 0 <= x < 240 && 0 <= y < 160 implies layer@[y * 240 + x]
                == if y < py || (y == py && x < px + 1) {
                match #[trigger] obj_pixel(obj as int, x, y, dispcnt, vram@, pram@, oam@) {
                    Some(p) => slot_insert(start[y * 240 + x], p),
                    None => start[y * 240 + x],
                }
            } else {
                start[y * 240 + x]
            } by {
                if y == py && x == px {
                } else {
                    assert(y * 240 + x != py * 240 + px);
                }
            }
            px = px + 1;
        }
        assert forall|x: int, y: int| 0 <= x < 240 && 0 <= y < 160 implies layer@[y * 240 + x]
            == if y < py + 1 {
            match #[trigger] obj_pixel(obj as int, x, y, dispcnt, vram@, pram@, oam@) {
                Some(p) => slot_insert(start[y * 240 + x], p),
                None => start[y * 240 + x],
            }
        } else {
            start[y * 240 + x]
        } by {
            if y == py && !(x < x1) {
                assert(obj_pixel(obj as int, x, y, dispcnt, vram@, pram@, oam@) is None);
            }
        }
        py = py + 1;
    }
    assert forall|x: int, y: int| 0 <= x < 240 && 0 <= y < 160 implies layer@[y * 240 + x]
        == match #[trigger] obj_pixel(obj as int, x, y, dispcnt, vram@, pram@, oam@) {
        Some(p) => slot_insert(start[y * 240 + x], p),
        None => start[y * 240 + x],
    } by {
        if !(y < y1) {
            assert(obj_pixel(obj as int, x, y, dispcnt, vram@, pram@, oam@) is None);
        }
    }
}

/// Per-pixel best object pixel for the whole screen.
fn build_obj_layer(dispcnt: u16, vram: &[u8], pram: &[u8], oam: &[u8]) -> (layer: Vec<
    Option<Pixel>,
>)
    ensures
        layer@.len() == FRAME_PIXELS,
        forall|x: int, y: int|
            0 <= x < 240 && 0 <= y < 160 ==> layer@[y * 240 + x] == #[trigger] obj_layer_at(
                128,
                x,
                y,
                dispcnt,
                vram@,
                pram@,
                oam@,
            ),
{
    let mut layer: Vec<Option<Pixel>> = Vec::with_capacity(FRAME_PIXELS);
    let mut i: usize = 0;
    while i < FRAME_PIXELS
        invariant
            i <= FRAME_PIXELS,
            layer@.len() == i,
            forall|j: int| 0 <= j < i ==> #[trigger] layer@[j] is None,
        decreases FRAME_PIXELS - i,
    {
        layer.push(None);
        i = i + 1;
    }
    assert forall|x: int, y: int| 0 <= x < 240 && 0 <= y < 160 implies layer@[y * 240 + x]
        == #[trigger] obj_layer_at(0, x, y, dispcnt, vram@, pram@, oam@) by {
        assert(layer@[y * 240 + x] is None);
    }
    let mut obj: usize = 0;
    while obj < 128
        invariant
            obj <= 128,
            layer@.len() == FRAME_PIXELS,
            forall|x: int, y: int|
                0 <= x < 240 && 0 <= y < 160 ==> layer@[y * 240 + x] == #[trigger] obj_layer_at(
                    obj as nat,
                    x,
                    y,
                    dispcnt,
                    vram@,
                    pram@,
                    oam@,
                ),
        decreases 128 - obj,
    {
        let ghost before = layer@;
        draw_obj_layer(&mut layer, obj, dispcnt, vram, pram, oam);
        assert forall|x: int, y: int| 0 <= x < 240 && 0 <= y < 160 implies layer@[y * 240 + x]
            == #[trigger] obj_layer_at((obj + 1) as nat, x, y, dispcnt, vram@, pram@, oam@) by {
            assert(before[y * 240 + x] == obj_layer_at(obj as nat, x, y, dispcnt, vram@, pram@, oam@));
            assert(obj_pixel(obj as int, x, y, dispcnt, vram@, pram@, oam@) == obj_pixel(
                (obj + 1) - 1,
                x,
                y,
                dispcnt,
                vram@,
                pram@,
                oam@,
            ));
        }
        obj = obj + 1;
    }
    layer
}

/// A cell of the object window mask: set before, or set now when `hit`
/// counts (`now`).
pub open spec fn window_cell(before: bool, now: bool, hit: bool) -> bool {
    before || (now && hit)
}

/// Marks the pixels that object `obj` puts in the object window.
fn draw_obj_window(mask: &mut Vec<bool>, obj: usize, dispcnt: u16, vram: &[u8], oam: &[u8])
    requires
        old(mask)@.len() == FRAME_PIXELS,
        obj < 128,
    ensures
        final(mask)@.len() == FRAME_PIXELS,
        forall|x: int, y: int|
            0 <= x < 240 && 0 <= y < 160 ==> final(mask)@[y * 240 + x] == window_cell(
                old(mask)@[y * 240 + x],
                true,
                #[trigger] obj_window_pixel(obj as int, x, y, dispcnt, vram@, oam@),
            ),
{
    let ghost start = mask@;
    let base = obj * 8;
    let attr0 = read_mem16(oam, base);
    let attr1 = read_mem16(oam, base + 2);
    let attr2 = read_mem16(oam, base + 4);
    let bounds = obj_bounds(attr0, attr1);
    if (attr0 >> 10) & 3 != 2 || bounds.is_none() {
        assert forall|x: int, y: int| 0 <= x < 240 && 0 <= y < 160 implies !#[trigger] obj_window_pixel(
            obj as int,
            x,
            y,
            dispcnt,
            vram@,
            oam@,
        ) by {}
        return;
    }
    let (x0, x1, y0, y1) = bounds.unwrap();
    let mut py = y0;
    while py < y1
        invariant
            y0 <= py <= y1 <= 160,
            x0 < x1 <= 240,
            mask@.len() == FRAME_PIXELS,
            obj < 128,
            attr0 == spec_read_mem16(oam@, obj * 8),
            attr1 == spec_read_mem16(oam@, obj * 8 + 2),
            attr2 == spec_read_mem16(oam@, obj * 8 + 4),
            (attr0 >> 10u16) & 3 == 2,
            spec_obj_bounds(attr0, attr1) == Some((x0 as int, x1 as int, y0 as int, y1 as int)),
            forall|x: int, y: int|
                0 <= x < 240 && 0 <= y < 160 ==> mask@[y * 240 + x] == window_cell(start[y * 240 + x], y < py, #[trigger] obj_window_pixel(obj as int, x, y, dispcnt, vram@, oam@)),
        decreases y1 - py,
    {
        assert forall|x: int, y: int| 0 <= x < 240 && 0 <= y < 160 implies mask@[y * 240 + x] == window_cell(start[y * 240 + x], y < py || (y == py && x < x0), #[trigger] obj_window_pixel(obj as int, x, y, dispcnt, vram@, oam@)) by {
            let hit = obj_window_pixel(obj as int, x, y, dispcnt, vram@, oam@);
            if y == py && x < x0 {
                assert(!hit);
            }
        }
        let mut px = x0;
        while px < x1
            invariant
                x0 <= px <= x1 <= 240,
                y0 <= py < y1 <= 160,
                mask@.len() == FRAME_PIXELS,
                obj < 128,
                attr0 == spec_read_mem16(oam@, obj * 8),
                attr1 == spec_read_mem16(oam@, obj * 8 + 2),
                attr2 == spec_read_mem16(oam@, obj * 8 + 4),
                (attr0 >> 10u16) & 3 == 2,
                spec_obj_bounds(attr0, attr1) == Some((x0 as int, x1 as int, y0 as int, y1 as int)),
                forall|x: int, y: int|
                    0 <= x < 240 && 0 <= y < 160 ==> mask@[y * 240 + x] == window_cell(start[y * 240 + x], y < py || (y == py && x < px), #[trigger] obj_window_pixel(obj as int, x, y, dispcnt, vram@, oam@)),
            decreases x1 - px,
        {
            let hit = obj_color_index_at(px, py, dispcnt, attr0, attr1, attr2, vram, oam).is_some();
            assert(hit == obj_window_pixel(obj as int, px as int, py as int, dispcnt, vram@, oam@));
            if hit {
                mask.set(py * 240 + px, true);
            }
            assert forall|x: int, y: int| 0 <= x < 240 && 0 <= y < 160 implies mask@[y * 240 + x]
                == window_cell(start[y * 240 + x], y < py || (y == py && x < px + 1), #[trigger] obj_window_pixel(obj as int, x, y, dispcnt, vram@, oam@)) by {
                let hit = obj_window_pixel(obj as int, x, y, dispcnt, vram@, oam@);
                if !(y == py && x == px) {
                    assert(y * 240 + x != py * 240 + px);
                }
            }
            px = px + 1;
        }
        assert forall|x: int, y: int| 0 <= x < 240 && 0 <= y < 160 implies mask@[y * 240 + x] == window_cell(start[y * 240 + x], y < py + 1, #[trigger] obj_window_pixel(obj as int, x, y, dispcnt, vram@, oam@)) by {
            let hit = obj_window_pixel(obj as int, x, y, dispcnt, vram@, oam@);
            if y == py && !(x < x1) {
                assert(!hit);
            }
        }
        py = py + 1;
    }
    assert forall|x: int, y: int| 0 <= x < 240 && 0 <= y < 160 implies mask@[y * 240 + x] == window_cell(
        start[y * 240 + x],
        true,
        #[trigger] obj_window_pixel(obj as int, x, y, dispcnt, vram@, oam@),
    ) by {
        let hit = obj_window_pixel(obj as int, x, y, dispcnt, vram@, oam@);
        if !(y < y1) {
            assert(!hit);
        }
    }
}

/// Per-pixel coverage of the objects in object-window mode.
fn build_obj_window_mask(dispcnt: u16, vram: &[u8], oam: &[u8]) -> (mask: Vec<bool>)
    ensures
        mask@ == obj_window_mask(dispcnt, vram@, oam@),
{
    let mut mask: Vec<bool> = Vec::with_capacity(FRAME_PIXELS);
    let mut i: usize = 0;
    while i < FRAME_PIXELS
        invariant
            i <= FRAME_PIXELS,
            mask@.len() == i,
            forall|j: int| 0 <= j < i ==> !#[trigger] mask@[j],
        decreases FRAME_PIXELS - i,
    {
        mask.push(false);
        i = i + 1;
    }
    assert forall|x: int, y: int| 0 <= x < 240 && 0 <= y < 160 implies mask@[y * 240 + x]
        == #[trigger] obj_window_at(0, x, y, dispcnt, vram@, oam@) by {
        assert(!mask@[y * 240 + x]);
    }
    let mut obj: usize = 0;
    while obj < 128
        invariant
            obj <= 128,
            mask@.len() == FRAME_PIXELS,
            forall|x: int, y: int|
                0 <= x < 240 && 0 <= y < 160 ==> mask@[y * 240 + x] == #[trigger] obj_window_at(
                    obj as nat,
                    x,
                    y,
                    dispcnt,
                    vram@,
                    oam@,
                ),
        decreases 128 - obj,
    {
        let ghost before = mask@;
        let ghost done = obj as nat;
        draw_obj_window(&mut mask, obj, dispcnt, vram, oam);
        obj = obj + 1;
        assert forall|x: int, y: int| 0 <= x < 240 && 0 <= y < 160 implies mask@[y * 240 + x]
            == #[trigger] obj_window_at(obj as nat, x, y, dispcnt, vram@, oam@) by {
            assert(before[y * 240 + x] == obj_window_at(done, x, y, dispcnt, vram@, oam@));
            let hit = obj_window_pixel(done as int, x, y, dispcnt, vram@, oam@);
            assert(obj_window_pixel(obj - 1, x, y, dispcnt, vram@, oam@) == hit);
        }
    }
    assert forall|i: int| 0 <= i < FRAME_PIXELS implies mask@[i] == obj_window_mask(
        dispcnt,
        vram@,
        oam@,
    )[i] by {
        let x = i % 240;
        let y = i / 240;
        assert(i == y * 240 + x);
        assert(mask@[y * 240 + x] == obj_window_at(128, x, y, dispcnt, vram@, oam@));
    }
    assert(mask@ =~= obj_window_mask(dispcnt, vram@, oam@));
    mask
}

/// Mode 3 frame: each pixel is the 16-bit colour at twice its index in VRAM.
pub open spec fn spec_mode3_pixel(vram: Seq<u8>, i: int) -> u32 {
    spec_bgr555_to_rgb(spec_read_mem16(vram, i * 2))
}

/// Mode 4 frame: each pixel is the palette colour of its byte in the
/// selected page.
pub open spec fn spec_mode4_pixel(dispcnt: u16, vram: Seq<u8>, pram: Seq<u8>, i: int) -> u32 {
    let page = if dispcnt & 0x10 != 0 {
        0x0a000int
    } else {
        0
    };
    spec_bgr555_to_rgb(spec_read_mem16(pram, spec_byte_at(vram, page + i) as int * 2))
}

/// `v` once drawn, black before.
pub open spec fn drawn_or_black(drawn: bool, v: u32) -> u32 {
    if drawn {
        v
    } else {
        0
    }
}

/// Mode 5 frame: a 160 by 128 bitmap of 16-bit colours in the selected
/// page at the top left, black elsewhere.
pub open spec fn spec_mode5_pixel(dispcnt: u16, vram: Seq<u8>, x: int, y: int) -> u32 {
    let page = if dispcnt & 0x10 != 0 {
        0x0a000int
    } else {
        0
    };
    if x < 160 && y < 128 {
        spec_bgr555_to_rgb(spec_read_mem16(vram, page + (y * 160 + x) * 2))
    } else {
        0
    }
}

/// The pixel background `bg` shows at (x, y) in video mode `mode`: text
/// layers in mode 0 (and 0 to 1 in mode 1), affine layers 2 in mode 1 and
/// 2 to 3 in mode 2.
pub open spec fn bg_pixel(
    mode: u16,
    bg: int,
    x: int,
    y: int,
    io: Seq<u8>,
    vram: Seq<u8>,
    pram: Seq<u8>,
) -> Option<Pixel> {
    if mode == 0 || (mode == 1 && bg <= 1) {
        spec_text_bg_pixel(bg, x, y, io, vram, pram)
    } else if (mode == 1 && bg == 2) || (mode == 2 && bg >= 2) {
        spec_affine_bg_pixel(bg, x, y, io, vram, pram)
    } else {
        None
    }
}

/// The backdrop: palette colour 0 behind every layer.
pub open spec fn backdrop_pixel(pram: Seq<u8>) -> Pixel {
    Pixel { color: spec_read_mem16(pram, 0), priority: 4, order: 255, mask: 0x20, semi: false }
}

/// The two front pixels at (x, y) after stacking the enabled, visible
/// backgrounds among the first `n` on the backdrop.
pub open spec fn bg_stack(
    dispcnt: u16,
    window: WindowMask,
    x: int,
    y: int,
    io: Seq<u8>,
    vram: Seq<u8>,
    pram: Seq<u8>,
    n: nat,
) -> (Pixel, Option<Pixel>)
    decreases n,
{
    if n == 0 {
        (backdrop_pixel(pram), None)
    } else {
        let (f, s) = bg_stack(dispcnt, window, x, y, io, vram, pram, (n - 1) as nat);
        let bg = n - 1;
        if dispcnt & (1u16 << ((8 + bg) as u16)) != 0 && window.layers & (1u8 << (bg as u8)) != 0 {
            match bg_pixel(dispcnt & 7, bg, x, y, io, vram, pram) {
                Some(p) => spec_insert_pixel(f, s, p),
                None => (f, s),
            }
        } else {
            (f, s)
        }
    }
}

/// The object window mask a frame of control `dispcnt` uses, if any.
pub open spec fn frame_obj_window(dispcnt: u16, vram: Seq<u8>, oam: Seq<u8>) -> Option<Seq<bool>> {
    if dispcnt & 0x8000 != 0 && dispcnt & 0x1000 != 0 {
        Some(obj_window_mask(dispcnt, vram, oam))
    } else {
        None
    }
}

/// The colour of screen pixel (x, y) in the tiled modes: the window at
/// (x, y) picks the visible layers, the two front pixels of the
/// backgrounds and objects are blended, and the result widened to RGB.
pub open spec fn spec_layers_pixel(
    dispcnt: u16,
    io: Seq<u8>,
    vram: Seq<u8>,
    pram: Seq<u8>,
    oam: Seq<u8>,
    x: int,
    y: int,
) -> u32 {
    let window = spec_window_mask_at(dispcnt, io, x, y, frame_obj_window(dispcnt, vram, oam));
    let (f, s) = bg_stack(dispcnt, window, x, y, io, vram, pram, 4);
    let (f2, s2) = if dispcnt & 0x1000 != 0 && window.layers & 0x10 != 0 {
        match obj_layer_at(128, x, y, dispcnt, vram, pram, oam) {
            Some(p) => spec_insert_pixel(f, s, p),
            None => (f, s),
        }
    } else {
        (f, s)
    };
    spec_bgr555_to_rgb(spec_apply_blend(f2, s2, io, window.blend))
}

/// The colour of screen pixel (x, y) of the whole frame: white in forced
/// blank, then by video mode.
pub open spec fn spec_frame_pixel(
    io: Seq<u8>,
    vram: Seq<u8>,
    pram: Seq<u8>,
    oam: Seq<u8>,
    x: int,
    y: int,
) -> u32 {
    let dispcnt = spec_read16(io, 0);
    let mode = dispcnt & 7;
    if dispcnt & 0x80 != 0 {
        0x00ff_ffff
    } else if mode == 3 {
        spec_mode3_pixel(vram, y * 240 + x)
    } else if mode == 4 {
        spec_mode4_pixel(dispcnt, vram, pram, y * 240 + x)
    } else if mode == 5 {
        spec_mode5_pixel(dispcnt, vram, x, y)
    } else {
        spec_layers_pixel(dispcnt, io, vram, pram, oam, x, y)
    }
}

/// Whether the object window mask and object layer built for a frame of
/// control `dispcnt` are the ones the frame uses.
pub open spec fn layer_inputs(
    dispcnt: u16,
    vram: Seq<u8>,
    pram: Seq<u8>,
    oam: Seq<u8>,
    obj_window: Option<Vec<bool>>,
    obj_layer: Option<Vec<Option<Pixel>>>,
) -> bool {
    &&& (match obj_window {
        Some(m) => Some(m@),
        None => None,
    }) == frame_obj_window(dispcnt, vram, oam)
    &&& obj_layer is Some <==> dispcnt & 0x1000 != 0
    &&& obj_layer matches Some(l) ==> {
        &&& l@.len() == FRAME_PIXELS
        &&& forall|x: int, y: int|
            0 <= x < 240 && 0 <= y < 160 ==> l@[y * 240 + x] == #[trigger] obj_layer_at(
                128,
                x,
                y,
                dispcnt,
                vram,
                pram,
                oam,
            )
    }
}

/// The colour of screen pixel (x, y) in the tiled modes, from the frame's
/// object window mask and object layer.
fn layers_pixel(
    dispcnt: u16,
    io: &[u8; 0x400],
    vram: &[u8],
    pram: &[u8],
    oam: &[u8],
    x: usize,
    y: usize,
    obj_window: &Option<Vec<bool>>,
    obj_layer: &Option<Vec<Option<Pixel>>>,
) -> (r: u32)
    requires
        x < 240,
        y < 160,
        layer_inputs(dispcnt, vram@, pram@, oam@, *obj_window, *obj_layer),
    ensures
        r == spec_layers_pixel(dispcnt, io@, vram@, pram@, oam@, x as int, y as int),
{
    let window = window_mask_at(dispcnt, io, x, y, obj_window.as_ref());
    let (mut first, mut second) = stack_backgrounds(dispcnt, window, x, y, io, vram, pram);
    if dispcnt & 0x1000 != 0 && window.layers & 0x10 != 0 {
        if let Some(layer) = obj_layer {
            assert(layer@[y * 240 + x] == obj_layer_at(
                128,
                x as int,
                y as int,
                dispcnt,
                vram@,
                pram@,
                oam@,
            ));
            if let Some(p) = layer[y * 240 + x] {
                insert_pixel(&mut first, &mut second, p);
            }
        }
    }
    let color = apply_blend(first, second, io, window.blend);
    bgr555_to_rgb(color)
}

/// Whether two I/O register files agree on every register rendering reads:
/// the first 0x60 bytes but the display status and line counter.
pub open spec fn same_render_regs(a: Seq<u8>, b: Seq<u8>) -> bool {
    &&& a.len() == 0x400
    &&& b.len() == 0x400
    &&& forall|k: int| #![trigger a[k]] #![trigger b[k]] 0 <= k < 0x60 && !(4 <= k < 8) ==> a[k] == b[k]
}

proof fn lemma_render_regs_trans(a: Seq<u8>, b: Seq<u8>, c: Seq<u8>)
    requires
        same_render_regs(a, b),
        same_render_regs(b, c),
    ensures
        same_render_regs(a, c),
{
    assert forall|k: int| 0 <= k < 0x60 && !(4 <= k < 8) implies a[k] == c[k] by {
        assert(a[k] == b[k]);
    }
}

/// A halfword store to the display status, line counter or interrupt
/// flags leaves the rendering registers alone.
proof fn lemma_put16_render_regs(io: Seq<u8>, off: int, value: u16)
    requires
        io.len() == 0x400,
        off == 4 || off == 6 || off == 0x202,
    ensures
        same_render_regs(io, crate::bus::io_put16(io, off, value)),
{
}

proof fn lemma_timing_ops_render_regs(io: Seq<u8>, line: u16, bit: u16, on: bool, irq: u16)
    requires
        io.len() == 0x400,
    ensures
        same_render_regs(io, spec_set_dispstat_bit(io, bit, on)),
        same_render_regs(io, spec_request_irq(io, irq)),
        same_render_regs(io, spec_check_vcounter(io, line)),
        same_render_regs(io, crate::bus::io_put16(io, 0x006, line)),
{
    let v = spec_read16(io, 0x004);
    lemma_put16_render_regs(io, 4, v | (1u16 << bit));
    lemma_put16_render_regs(io, 4, v & !(1u16 << bit));
    lemma_put16_render_regs(io, 0x202, spec_read16(io, 0x202) | irq);
    lemma_put16_render_regs(io, 6, line);
    let match_now = line == v >> 8u16;
    let io1 = spec_set_dispstat_bit(io, 2, match_now);
    lemma_put16_render_regs(io, 4, v | (1u16 << 2u16));
    lemma_put16_render_regs(io, 4, v & !(1u16 << 2u16));
    lemma_put16_render_regs(io1, 0x202, spec_read16(io1, 0x202) | 4);
    if match_now && v & 0x20 != 0 {
        lemma_render_regs_trans(io, io1, spec_request_irq(io1, 4));
    }
}

proof fn lemma_read_same(a: Seq<u8>, b: Seq<u8>, off: int)
    requires
        same_render_regs(a, b),
        8 <= off,
        off + 3 < 0x60,
    ensures
        spec_read16(a, off) == spec_read16(b, off),
        spec_read32(a, off) == spec_read32(b, off),
{
    assert(a[off] == b[off] && a[off + 1] == b[off + 1] && a[off + 2] == b[off + 2] && a[off + 3]
        == b[off + 3]);
}

proof fn lemma_bg_pixel_same(
    a: Seq<u8>,
    b: Seq<u8>,
    mode: u16,
    bg: int,
    x: int,
    y: int,
    vram: Seq<u8>,
    pram: Seq<u8>,
)
    requires
        same_render_regs(a, b),
        0 <= bg < 4,
    ensures
        bg_pixel(mode, bg, x, y, a, vram, pram) == bg_pixel(mode, bg, x, y, b, vram, pram),
{
    lemma_read_same(a, b, 0x008 + bg * 2);
    lemma_read_same(a, b, 0x010 + bg * 4);
    lemma_read_same(a, b, 0x012 + bg * 4);
    assert(text_coords(bg, x, y, a) == text_coords(bg, x, y, b));
    if bg >= 2 {
        let reg: int = if bg == 2 {
            0x020
        } else {
            0x030
        };
        lemma_read_same(a, b, reg);
        lemma_read_same(a, b, reg + 2);
        lemma_read_same(a, b, reg + 4);
        lemma_read_same(a, b, reg + 6);
        lemma_read_same(a, b, reg + 8);
        lemma_read_same(a, b, reg + 12);
        assert(affine_coords(bg, x, y, a) == affine_coords(bg, x, y, b));
    }
}

proof fn lemma_bg_stack_same(
    a: Seq<u8>,
    b: Seq<u8>,
    dispcnt: u16,
    window: WindowMask,
    x: int,
    y: int,
    vram: Seq<u8>,
    pram: Seq<u8>,
    n: nat,
)
    requires
        same_render_regs(a, b),
        n <= 4,
    ensures
        bg_stack(dispcnt, window, x, y, a, vram, pram, n) == bg_stack(
            dispcnt,
            window,
            x,
            y,
            b,
            vram,
            pram,
            n,
        ),
    decreases n,
{
    if n > 0 {
        lemma_bg_stack_same(a, b, dispcnt, window, x, y, vram, pram, (n - 1) as nat);
        lemma_bg_pixel_same(a, b, dispcnt & 7, n - 1, x, y, vram, pram);
    }
}

/// What is drawn depends on the display registers and video memory only:
/// two register files that differ only in the display status, the line
/// counter or above the rendering registers (the interrupt flags among
/// them) draw the same frame.
pub proof fn law_frame_ignores_status(
    a: Seq<u8>,
    b: Seq<u8>,
    vram: Seq<u8>,
    pram: Seq<u8>,
    oam: Seq<u8>,
    x: int,
    y: int,
)
    requires
        same_render_regs(a, b),
    ensures
        spec_frame_pixel(a, vram, pram, oam, x, y) == spec_frame_pixel(b, vram, pram, oam, x, y),
{
    assert(a[0] == b[0] && a[1] == b[1]);
    let dispcnt = spec_read16(a, 0);
    assert(dispcnt == spec_read16(b, 0));
    lemma_read_same(a, b, 0x040);
    lemma_read_same(a, b, 0x044);
    lemma_read_same(a, b, 0x048);
    lemma_read_same(a, b, 0x050);
    lemma_read_same(a, b, 0x054);
    let ow = frame_obj_window(dispcnt, vram, oam);
    assert(spec_inside_window(a, 0x040, 0x044, x, y) == spec_inside_window(b, 0x040, 0x044, x, y));
    assert(spec_inside_window(a, 0x042, 0x046, x, y) == spec_inside_window(b, 0x042, 0x046, x, y));
    let window = spec_window_mask_at(dispcnt, a, x, y, ow);
    assert(window == spec_window_mask_at(dispcnt, b, x, y, ow));
    lemma_bg_stack_same(a, b, dispcnt, window, x, y, vram, pram, 4);
    let (f, s) = bg_stack(dispcnt, window, x, y, a, vram, pram, 4);
    let (f2, s2) = if dispcnt & 0x1000 != 0 && window.layers & 0x10 != 0 {
        match obj_layer_at(128, x, y, dispcnt, vram, pram, oam) {
            Some(p) => spec_insert_pixel(f, s, p),
            None => (f, s),
        }
    } else {
        (f, s)
    };
    assert(spec_apply_blend(f2, s2, a, window.blend) == spec_apply_blend(f2, s2, b, window.blend));
}

/// A frame drawn from the registers `a` is the one drawn from `b` when the
/// two agree on the rendering registers.
proof fn transport_frame(
    frame: Seq<u32>,
    a: Seq<u8>,
    b: Seq<u8>,
    vram: Seq<u8>,
    pram: Seq<u8>,
    oam: Seq<u8>,
    drawn: bool,
)
    requires
        same_render_regs(a, b),
        drawn ==> forall|x: int, y: int|
            0 <= x < 240 && 0 <= y < 160 ==> frame[y * 240 + x] == #[trigger] spec_frame_pixel(
                a,
                vram,
                pram,
                oam,
                x,
                y,
            ),
    ensures
        drawn ==> forall|x: int, y: int|
            0 <= x < 240 && 0 <= y < 160 ==> frame[y * 240 + x] == #[trigger] spec_frame_pixel(
                b,
                vram,
                pram,
                oam,
                x,
                y,
            ),
{
    if drawn {
        assert forall|x: int, y: int| 0 <= x < 240 && 0 <= y < 160 implies frame[y * 240 + x]
            == #[trigger] spec_frame_pixel(b, vram, pram, oam, x, y) by {
            law_frame_ignores_status(a, b, vram, pram, oam, x, y);
            assert(frame[y * 240 + x] == spec_frame_pixel(a, vram, pram, oam, x, y));
        }
    }
}

/// The frame drawn from registers `io` and video memory, row by row.
pub open spec fn rendered_frame(io: Seq<u8>, vram: Seq<u8>, pram: Seq<u8>, oam: Seq<u8>) -> Seq<u32> {
    Seq::new(FRAME_PIXELS as nat, |i: int| spec_frame_pixel(io, vram, pram, oam, i % 240, i / 240))
}

/// The two front pixels at (x, y) after the four backgrounds.
fn stack_backgrounds(
    dispcnt: u16,
    window: WindowMask,
    x: usize,
    y: usize,
    io: &[u8; 0x400],
    vram: &[u8],
    pram: &[u8],
) -> (r: (Pixel, Option<Pixel>))
    requires
        x < 240,
        y < 160,
    ensures
        r == bg_stack(dispcnt, window, x as int, y as int, io@, vram@, pram@, 4),
{
    let mode = dispcnt & 7;
    let mut first = Pixel {
        color: read_mem16(pram, 0),
        priority: 4,
        order: 255,
        mask: 0x20,
        semi: false,
    };
    let mut second: Option<Pixel> = None;
    let mut bg: usize = 0;
    while bg < 4
        invariant
            bg <= 4,
            x < 240,
            y < 160,
            mode == dispcnt & 7,
            (first, second) == bg_stack(dispcnt, window, x as int, y as int, io@, vram@, pram@, bg as nat),
        decreases 4 - bg,
    {
        if dispcnt & (1u16 << (8 + bg as u16)) != 0 && window.layers & (1u8 << (bg as u8)) != 0 {
            let pixel = if mode == 0 || (mode == 1 && bg <= 1) {
                text_bg_pixel(bg, x, y, io, vram, pram)
            } else if (mode == 1 && bg == 2) || (mode == 2 && bg >= 2) {
                affine_bg_pixel(bg, x, y, io, vram, pram)
            } else {
                None
            };
            if let Some(p) = pixel {
                insert_pixel(&mut first, &mut second, p);
            }
        }
        bg = bg + 1;
    }
    (first, second)
}

impl Ppu {
    fn render_mode3(&mut self, vram: &[u8])
        requires
            old(self)@.wf(),
        ensures
            final(self)@ == (PpuView { frame: final(self)@.frame, ..old(self)@ }),
            final(self).frame@.len() == FRAME_PIXELS,
            forall|i: int|
                0 <= i < FRAME_PIXELS ==> #[trigger] final(self).frame@[i] == spec_mode3_pixel(
                    vram@,
                    i,
                ),
    {
        let mut i: usize = 0;
        while i < FRAME_PIXELS
            invariant
                i <= FRAME_PIXELS,
                self@ == (PpuView { frame: self@.frame, ..old(self)@ }),
                self.frame@.len() == FRAME_PIXELS,
                forall|j: int| 0 <= j < i ==> #[trigger] self.frame@[j] == spec_mode3_pixel(vram@, j),
            decreases FRAME_PIXELS - i,
        {
            let c = bgr555_to_rgb(read_mem16(vram, i * 2));
            self.frame.set(i, c);
            i = i + 1;
        }
    }

    fn render_mode4(&mut self, dispcnt: u16, vram: &[u8], pram: &[u8])
        requires
            old(self)@.wf(),
        ensures
            final(self)@ == (PpuView { frame: final(self)@.frame, ..old(self)@ }),
            final(self).frame@.len() == FRAME_PIXELS,
            forall|i: int|
                0 <= i < FRAME_PIXELS ==> #[trigger] final(self).frame@[i] == spec_mode4_pixel(
                    dispcnt,
                    vram@,
                    pram@,
                    i,
                ),
    {
        let page: usize = if dispcnt & 0x10 != 0 {
            0x0a000
        } else {
            0
        };
        let mut i: usize = 0;
        while i < FRAME_PIXELS
            invariant
                i <= FRAME_PIXELS,
                page == (if dispcnt & 0x10 != 0 {
                    0x0a000int
                } else {
                    0
                }),
                self@ == (PpuView { frame: self@.frame, ..old(self)@ }),
                self.frame@.len() == FRAME_PIXELS,
                forall|j: int|
                    0 <= j < i ==> #[trigger] self.frame@[j] == spec_mode4_pixel(
                        dispcnt,
                        vram@,
                        pram@,
                        j,
                    ),
            decreases FRAME_PIXELS - i,
        {
            let index = byte_at(vram, page + i) as usize;
            let c = bgr555_to_rgb(read_mem16(pram, index * 2));
            self.frame.set(i, c);
            i = i + 1;
        }
    }

    fn render_mode5(&mut self, dispcnt: u16, vram: &[u8])
        requires
            old(self)@.wf(),
        ensures
            final(self)@ == (PpuView { frame: final(self)@.frame, ..old(self)@ }),
            final(self).frame@.len() == FRAME_PIXELS,
            forall|x: int, y: int|
                0 <= x < 240 && 0 <= y < 160 ==> final(self).frame@[y * 240 + x] == #[trigger] spec_mode5_pixel(
                    dispcnt,
                    vram@,
                    x,
                    y,
                ),
    {
        let page: usize = if dispcnt & 0x10 != 0 {
            0x0a000
        } else {
            0
        };
        let mut i: usize = 0;
        while i < FRAME_PIXELS
            invariant
                i <= FRAME_PIXELS,
                self@ == (PpuView { frame: self@.frame, ..old(self)@ }),
                self.frame@.len() == FRAME_PIXELS,
                forall|j: int| 0 <= j < i ==> #[trigger] self.frame@[j] == 0,
            decreases FRAME_PIXELS - i,
        {
            self.frame.set(i, 0);
            i = i + 1;
        }
        let mut y: usize = 0;
        while y < 128
            invariant
                y <= 128,
                page as int == (if dispcnt & 0x10 != 0 {
                    0x0a000int
                } else {
                    0
                }),
                self@ == (PpuView { frame: self@.frame, ..old(self)@ }),
                self.frame@.len() == FRAME_PIXELS,
                forall|x: int, y2: int|
                    0 <= x < 240 && 0 <= y2 < 160 ==> self.frame@[y2 * 240 + x] == drawn_or_black(y2 < y, #[trigger] spec_mode5_pixel(dispcnt, vram@, x, y2)),
            decreases 128 - y,
        {
            let mut x: usize = 0;
            while x < 160
                invariant
                    x <= 160,
                    y < 128,
                    page as int == (if dispcnt & 0x10 != 0 {
                        0x0a000int
                    } else {
                        0
                    }),
                    self@ == (PpuView { frame: self@.frame, ..old(self)@ }),
                    self.frame@.len() == FRAME_PIXELS,
                    forall|x2: int, y2: int|
                        0 <= x2 < 240 && 0 <= y2 < 160 ==> self.frame@[y2 * 240 + x2] == drawn_or_black(y2 < y || ( y2 == y && x2 < x), #[trigger] spec_mode5_pixel(dispcnt, vram@, x2, y2)),
                decreases 160 - x,
            {
                let off = page + (y * 160 + x) * 2;
                let c = bgr555_to_rgb(read_mem16(vram, off));
                self.frame.set(y * 240 + x, c);
                assert forall|x2: int, y2: int| 0 <= x2 < 240 && 0 <= y2 < 160 implies self.frame@[y2
                    * 240 + x2] == drawn_or_black(y2 < y || (y2 == y && x2 < x + 1), #[trigger] spec_mode5_pixel(dispcnt, vram@, x2, y2)) by {
                    let v = spec_mode5_pixel(dispcnt, vram@, x2, y2);
                    if !(y2 == y && x2 == x) {
                        assert(y2 * 240 + x2 != y * 240 + x);
                    }
                }
                x = x + 1;
            }
            assert forall|x2: int, y2: int| 0 <= x2 < 240 && 0 <= y2 < 160 implies self.frame@[y2 * 240
                + x2] == drawn_or_black(y2 < y + 1, #[trigger] spec_mode5_pixel(dispcnt, vram@, x2, y2)) by {
                let v = spec_mode5_pixel(dispcnt, vram@, x2, y2);
            }
            y = y + 1;
        }
        assert forall|x2: int, y2: int| 0 <= x2 < 240 && 0 <= y2 < 160 implies self.frame@[y2 * 240 + x2]
            == #[trigger] spec_mode5_pixel(dispcnt, vram@, x2, y2) by {
            let v = spec_mode5_pixel(dispcnt, vram@, x2, y2);
        }
    }

    fn render_layers(
        &mut self,
        dispcnt: u16,
        io: &[u8; 0x400],
        vram: &[u8],
        pram: &[u8],
        oam: &[u8],
    )
        requires
            old(self)@.wf(),
        ensures
            final(self)@ == (PpuView { frame: final(self)@.frame, ..old(self)@ }),
            final(self).frame@.len() == FRAME_PIXELS,
            forall|x: int, y: int|
                0 <= x < 240 && 0 <= y < 160 ==> final(self).frame@[y * 240 + x]
                    == #[trigger] spec_layers_pixel(dispcnt, io@, vram@, pram@, oam@, x, y),
    {
        let obj_window: Option<Vec<bool>> = if dispcnt & 0x8000 != 0 && dispcnt & 0x1000 != 0 {
            Some(build_obj_window_mask(dispcnt, vram, oam))
        } else {
            None
        };
        let obj_layer: Option<Vec<Option<Pixel>>> = if dispcnt & 0x1000 != 0 {
            Some(build_obj_layer(dispcnt, vram, pram, oam))
        } else {
            None
        };
        let mut y: usize = 0;
        while y < 160
            invariant
                y <= 160,
                self@ == (PpuView { frame: self@.frame, ..old(self)@ }),
                self.frame@.len() == FRAME_PIXELS,
                layer_inputs(dispcnt, vram@, pram@, oam@, obj_window, obj_layer),
                forall|x2: int, y2: int|
                    0 <= x2 < 240 && 0 <= y2 < y ==> self.frame@[y2 * 240 + x2]
                        == #[trigger] spec_layers_pixel(dispcnt, io@, vram@, pram@, oam@, x2, y2),
            decreases 160 - y,
        {
            let mut x: usize = 0;
            while x < 240
                invariant
                    x <= 240,
                    y < 160,
                    self@ == (PpuView { frame: self@.frame, ..old(self)@ }),
                    self.frame@.len() == FRAME_PIXELS,
                    layer_inputs(dispcnt, vram@, pram@, oam@, obj_window, obj_layer),
                    forall|x2: int, y2: int|
                        0 <= x2 < 240 && 0 <= y2 < 160 && (y2 < y || (y2 == y && x2 < x))
                            ==> self.frame@[y2 * 240 + x2] == #[trigger] spec_layers_pixel(
                            dispcnt,
                            io@,
                            vram@,
                            pram@,
                            oam@,
                            x2,
                            y2,
                        ),
                decreases 240 - x,
            {
                let c = layers_pixel(dispcnt, io, vram, pram, oam, x, y, &obj_window, &obj_layer);
                self.frame.set(y * 240 + x, c);
                assert forall|x2: int, y2: int|
                    0 <= x2 < 240 && 0 <= y2 < 160 && (y2 < y || (y2 == y && x2 < x + 1)) implies self.frame@[y2
                        * 240 + x2] == #[trigger] spec_layers_pixel(
                        dispcnt,
                        io@,
                        vram@,
                        pram@,
                        oam@,
                        x2,
                        y2,
                    ) by {
                    if !(y2 == y && x2 == x) {
                        assert(y2 * 240 + x2 != y * 240 + x);
                    }
                }
                x = x + 1;
            }
            y = y + 1;
        }
    }

    /// Renders the frame from the display registers and video memory:
    /// forced blank is white, modes 3 to 5 are bitmaps, other modes composite
    /// the tiled backgrounds and objects.
    fn render_frame(&mut self, io: &[u8; 0x400], vram: &[u8], pram: &[u8], oam: &[u8])
        requires
            old(self)@.wf(),
        ensures
            final(self)@ == (PpuView { frame: final(self)@.frame, ..old(self)@ }),
            final(self).frame@.len() == FRAME_PIXELS,
            forall|x: int, y: int|
                0 <= x < 240 && 0 <= y < 160 ==> final(self).frame@[y * 240 + x]
                    == #[trigger] spec_frame_pixel(io@, vram@, pram@, oam@, x, y),
    {
        let dispcnt = read16(io, 0x000);
        if dispcnt & 0x80 != 0 {
            let mut i: usize = 0;
            while i < FRAME_PIXELS
                invariant
                    i <= FRAME_PIXELS,
                    self@ == (PpuView { frame: self@.frame, ..old(self)@ }),
                    self.frame@.len() == FRAME_PIXELS,
                    forall|j: int| 0 <= j < i ==> #[trigger] self.frame@[j] == 0x00ff_ffff,
                decreases FRAME_PIXELS - i,
            {
                self.frame.set(i, 0x00ff_ffff);
                i = i + 1;
            }
            return ;
        }
        let mode = dispcnt & 7;
        if mode == 3 {
            self.render_mode3(vram);
        } else if mode == 4 {
            self.render_mode4(dispcnt, vram, pram);
        } else if mode == 5 {
            self.render_mode5(dispcnt, vram);
        } else {
            self.render_layers(dispcnt, io, vram, pram, oam);
        }
    }
}

} // verus!
