//! High-level emulation of the BIOS software interrupts.

use vstd::prelude::*;
use crate::bus::{Bus, BusView, DMA_NEST_LIMIT, store_frame, timers_ok, io16, io_put16, EWRAM_SIZE, IWRAM_SIZE, PRAM_SIZE, OAM_SIZE};
use crate::cpu::{Cpu, CpuView, bus_ok, wadd};
use crate::host::Host;

verus! {

/// The core after SoftReset: stack at 0x03007f00, link cleared and a jump to
/// the start of ROM.
pub open spec fn spec_soft_reset(c: CpuView) -> CpuView {
    c.with_reg(13, 0x0300_7f00).with_reg(14, 0).branch(0x0800_0000)
}

fn soft_reset(cpu: &mut Cpu)
    requires
        old(cpu)@.wf(),
    ensures
        final(cpu)@ == spec_soft_reset(old(cpu)@),
{
    cpu.set_reg(13, 0x0300_7f00);
    cpu.set_reg(14, 0);
    cpu.set_reg(15, 0x0800_0000);
}

proof fn lemma_region_offset(a: u32)
    ensures
        0x0200_0000 <= a < 0x0204_0000 ==> a & 0x3ffff == a - 0x0200_0000,
        0x0300_0000 <= a < 0x0300_8000 ==> a & 0x7fff == a - 0x0300_0000,
        0x0500_0000 <= a < 0x0500_0400 ==> a & 0x3ff == a - 0x0500_0000,
        0x0600_0000 <= a < 0x0602_0000 ==> a & 0x1ffff == a - 0x0600_0000,
        0x0700_0000 <= a < 0x0700_0400 ==> a & 0x3ff == a - 0x0700_0000,
{
    assert({
        &&& 0x0200_0000 <= a < 0x0204_0000 ==> a & 0x3ffff == a - 0x0200_0000
        &&& 0x0300_0000 <= a < 0x0300_8000 ==> a & 0x7fff == a - 0x0300_0000
        &&& 0x0500_0000 <= a < 0x0500_0400 ==> a & 0x3ff == a - 0x0500_0000
        &&& 0x0600_0000 <= a < 0x0602_0000 ==> a & 0x1ffff == a - 0x0600_0000
        &&& 0x0700_0000 <= a < 0x0700_0400 ==> a & 0x3ff == a - 0x0700_0000
    }) by (bit_vector);
}

/// Zeroes `len` bytes of a memory region starting at bus address `base`.
fn clear_region(bus: &mut Bus, base: u32, len: u32, which: u8)
    requires
        bus_ok(old(bus)@),
        (which == 0 && base == 0x0200_0000 && len == 0x40000) || (which == 1 && base
            == 0x0300_0000 && len == 0x7e00) || (which == 2 && base == 0x0500_0000 && len
            == 0x400) || (which == 3 && base == 0x0600_0000 && len == 0x18000) || (which == 4
            && base == 0x0700_0000 && len == 0x400),
    ensures
        bus_ok(final(bus)@),
        store_frame(old(bus)@, final(bus)@),
        which == 0 ==> final(bus)@ == (BusView {
            ewram: Seq::new(EWRAM_SIZE as nat, |i: int| 0u8),
            ..old(bus)@
        }),
        which == 1 ==> final(bus)@ == (BusView {
            iwram: Seq::new(
                IWRAM_SIZE as nat,
                |i: int|
                    if i < 0x7e00 {
                        0u8
                    } else {
                        old(bus)@.iwram[i]
                    },
            ),
            ..old(bus)@
        }),
        which == 2 ==> final(bus)@ == (BusView {
            pram: Seq::new(PRAM_SIZE as nat, |i: int| 0u8),
            ..old(bus)@
        }),
        which == 3 ==> final(bus)@ == (BusView {
            vram: Seq::new(0x18000, |i: int| 0u8),
            ..old(bus)@
        }),
        which == 4 ==> final(bus)@ == (BusView {
            oam: Seq::new(OAM_SIZE as nat, |i: int| 0u8),
            ..old(bus)@
        }),
{
    let ghost b0 = bus@;
    let mut i: u32 = 0;
    proof {
        assert(b0.ewram =~= Seq::new(EWRAM_SIZE as nat, |j: int| if j < 0 { 0u8 } else { b0.ewram[j] }));
        assert(b0.iwram =~= Seq::new(IWRAM_SIZE as nat, |j: int| if j < 0 { 0u8 } else { b0.iwram[j] }));
        assert(b0.pram =~= Seq::new(PRAM_SIZE as nat, |j: int| if j < 0 { 0u8 } else { b0.pram[j] }));
        assert(b0.vram =~= Seq::new(0x18000, |j: int| if j < 0 { 0u8 } else { b0.vram[j] }));
        assert(b0.oam =~= Seq::new(OAM_SIZE as nat, |j: int| if j < 0 { 0u8 } else { b0.oam[j] }));
    }
    while i < len
        invariant
            i <= len,
            bus_ok(bus@),
            store_frame(b0, bus@),
            (which == 0 && base == 0x0200_0000 && len == 0x40000) || (which == 1 && base
                == 0x0300_0000 && len == 0x7e00) || (which == 2 && base == 0x0500_0000 && len
                == 0x400) || (which == 3 && base == 0x0600_0000 && len == 0x18000) || (which
                == 4 && base == 0x0700_0000 && len == 0x400),
            which == 0 ==> bus@ == (BusView {
                ewram: Seq::new(
                    EWRAM_SIZE as nat,
                    |j: int|
                        if j < i {
                            0u8
                        } else {
                            b0.ewram[j]
                        },
                ),
                ..b0
            }),
            which == 1 ==> bus@ == (BusView {
                iwram: Seq::new(
                    IWRAM_SIZE as nat,
                    |j: int|
                        if j < i {
                            0u8
                        } else {
                            b0.iwram[j]
                        },
                ),
                ..b0
            }),
            which == 2 ==> bus@ == (BusView {
                pram: Seq::new(
                    PRAM_SIZE as nat,
                    |j: int|
                        if j < i {
                            0u8
                        } else {
                            b0.pram[j]
                        },
                ),
                ..b0
            }),
            which == 3 ==> bus@ == (BusView {
                vram: Seq::new(
                    0x18000,
                    |j: int|
                        if j < i {
                            0u8
                        } else {
                            b0.vram[j]
                        },
                ),
                ..b0
            }),
            which == 4 ==> bus@ == (BusView {
                oam: Seq::new(
                    OAM_SIZE as nat,
                    |j: int|
                        if j < i {
                            0u8
                        } else {
                            b0.oam[j]
                        },
                ),
                ..b0
            }),
        decreases len - i,
    {
        let addr = base + i;
        proof {
            lemma_region_offset(addr);
        }
        bus.write8_raw(addr, 0);
        proof {
            if which == 0 {
                assert(bus@.ewram =~= Seq::new(
                    EWRAM_SIZE as nat,
                    |j: int|
                        if j < i + 1 {
                            0u8
                        } else {
                            b0.ewram[j]
                        },
                ));
            } else if which == 1 {
                assert(bus@.iwram =~= Seq::new(
                    IWRAM_SIZE as nat,
                    |j: int|
                        if j < i + 1 {
                            0u8
                        } else {
                            b0.iwram[j]
                        },
                ));
            } else if which == 2 {
                assert(bus@.pram =~= Seq::new(
                    PRAM_SIZE as nat,
                    |j: int|
                        if j < i + 1 {
                            0u8
                        } else {
                            b0.pram[j]
                        },
                ));
            } else if which == 3 {
                assert(bus@.vram =~= Seq::new(
                    0x18000,
                    |j: int|
                        if j < i + 1 {
                            0u8
                        } else {
                            b0.vram[j]
                        },
                ));
            } else {
                assert(bus@.oam =~= Seq::new(
                    OAM_SIZE as nat,
                    |j: int|
                        if j < i + 1 {
                            0u8
                        } else {
                            b0.oam[j]
                        },
                ));
            }
        }
        i = i + 1;
    }
    proof {
        if which == 0 {
            assert(bus@.ewram =~= Seq::new(EWRAM_SIZE as nat, |j: int| 0u8));
        } else if which == 2 {
            assert(bus@.pram =~= Seq::new(PRAM_SIZE as nat, |j: int| 0u8));
        } else if which == 3 {
            assert(bus@.vram =~= Seq::new(0x18000, |j: int| 0u8));
        } else if which == 4 {
            assert(bus@.oam =~= Seq::new(OAM_SIZE as nat, |j: int| 0u8));
        } else {
            assert(bus@.iwram =~= Seq::new(
                IWRAM_SIZE as nat,
                |j: int|
                    if j < 0x7e00 {
                        0u8
                    } else {
                        b0.iwram[j]
                    },
            ));
        }
    }
}

/// The memories after RegisterRamReset with `mask`: EWRAM, IWRAM below the
/// BIOS area, palette, VRAM and OAM, each cleared when its bit is set.
pub open spec fn ram_reset(b: BusView, mask: u32) -> BusView {
    BusView {
        ewram: if mask & 1 != 0 {
            Seq::new(EWRAM_SIZE as nat, |i: int| 0u8)
        } else {
            b.ewram
        },
        iwram: if mask & 2 != 0 {
            Seq::new(IWRAM_SIZE as nat, |i: int| if i < 0x7e00 { 0u8 } else { b.iwram[i] })
        } else {
            b.iwram
        },
        pram: if mask & 4 != 0 {
            Seq::new(PRAM_SIZE as nat, |i: int| 0u8)
        } else {
            b.pram
        },
        vram: if mask & 8 != 0 {
            Seq::new(0x18000, |i: int| 0u8)
        } else {
            b.vram
        },
        oam: if mask & 16 != 0 {
            Seq::new(OAM_SIZE as nat, |i: int| 0u8)
        } else {
            b.oam
        },
        ..b
    }
}

/// RegisterRamReset: clears the memories selected by the bits of `mask`
/// (EWRAM, IWRAM below the BIOS area, palette, VRAM, OAM).
fn register_ram_reset(mask: u32, bus: &mut Bus)
    requires
        bus_ok(old(bus)@),
    ensures
        bus_ok(final(bus)@),
        store_frame(old(bus)@, final(bus)@),
        final(bus)@ == ram_reset(old(bus)@, mask),
{
    if mask & 1 != 0 {
        clear_region(bus, 0x0200_0000, 0x40000, 0);
    }
    if mask & 2 != 0 {
        clear_region(bus, 0x0300_0000, 0x7e00, 1);
    }
    if mask & 4 != 0 {
        clear_region(bus, 0x0500_0000, 0x400, 2);
    }
    if mask & 8 != 0 {
        clear_region(bus, 0x0600_0000, 0x18000, 3);
    }
    if mask & 16 != 0 {
        clear_region(bus, 0x0700_0000, 0x400, 4);
    }
}

/// IntrWait on `c` and `b`: with `discard_old`, the requests of `flags` in
/// IF are acknowledged first; then a pending request of `flags` is consumed,
/// or else the processor halts waiting for one.
pub open spec fn intr_wait_step(c: CpuView, b: BusView, discard_old: bool, flags: u16) -> (
    CpuView,
    BusView,
) {
    let io1 = if discard_old {
        io_put16(b.io, 0x202, b.io16(0x202) & !flags)
    } else {
        b.io
    };
    let if1 = io16(io1, 0x202);
    if if1 & flags != 0 {
        (c, BusView { io: io_put16(io1, 0x202, if1 & !flags), ..b })
    } else {
        (CpuView { wait_flags: Some(flags), halted: true, ..c }, BusView { io: io1, ..b })
    }
}

/// IntrWait: acknowledges stale requests of `flags` when asked, then either
/// consumes a pending request or halts until one arrives.
fn intr_wait(cpu: &mut Cpu, bus: &mut Bus, discard_old: bool, flags: u16)
    requires
        bus_ok(old(bus)@),
    ensures
        bus_ok(final(bus)@),
        store_frame(old(bus)@, final(bus)@),
        (final(cpu)@, final(bus)@) == intr_wait_step(old(cpu)@, old(bus)@, discard_old, flags),
{
    if discard_old {
        bus.clear_if(flags);
        proof {
            crate::bus::lemma_io_put16_read(old(bus)@.io, 0x202, old(bus)@.io16(0x202) & !flags);
        }
    }
    if bus.wait_ready(flags) {
        let ghost b1 = bus@;
        bus.clear_if(flags);
        proof {
            crate::bus::lemma_io_put16_read(b1.io, 0x202, b1.io16(0x202) & !flags);
        }
    } else {
        cpu.set_wait_flags(flags);
    }
}

/// Truncating signed division as the BIOS computes it, with the quotient
/// wrapping for the one overflowing case.
pub open spec fn div_correct(num: i32, den: i32, q: i32, r: i32) -> bool {
    if den == 0 {
        q == 0 && r == num
    } else if num == i32::MIN && den == -1 {
        q == i32::MIN && r == 0
    } else {
        &&& q * den + r == num
        &&& (if r < 0 {
            -(r as int)
        } else {
            r as int
        }) < (if den < 0 {
            -(den as int)
        } else {
            den as int
        })
        &&& (r == 0 || (r < 0) == (num < 0))
    }
}

/// What Div leaves in r3 for divisor `den` and quotient word `q`: the
/// magnitude of the quotient, or zero after a division by zero.
pub open spec fn quotient_magnitude(den: i32, q: u32) -> int {
    if den == 0 {
        0
    } else if q as i32 >= 0 {
        q as i32 as int
    } else {
        -(q as i32)
    }
}

/// Truncating division built from the division of magnitudes.
proof fn lemma_magnitude_divmod(num: int, den: int, an: int, ad: int, uq: int, ur: int)
    requires
        -0x8000_0000 <= num < 0x8000_0000,
        -0x8000_0000 <= den < 0x8000_0000,
        den != 0,
        !(num == -0x8000_0000 && den == -1),
        an == (if num < 0 { -num } else { num }),
        ad == (if den < 0 { -den } else { den }),
        uq == an / ad,
        ur == an % ad,
    ensures
        ({
            let q = if (num < 0) != (den < 0) { -uq } else { uq };
            let r = if num < 0 { -ur } else { ur };
            &&& -0x8000_0000 <= q < 0x8000_0000
            &&& -0x8000_0000 < r < 0x8000_0000
            &&& q * den + r == num
            &&& (if r < 0 { -r } else { r }) < ad
            &&& (r == 0 || (r < 0) == (num < 0))
        }),
{
    assert(uq * ad + ur == an && 0 <= ur < ad && 0 <= uq <= an) by (nonlinear_arith)
        requires
            ad > 0,
            an >= 0,
            uq == an / ad,
            ur == an % ad,
    ;
    assert(uq == an ==> ad == 1 || an == 0) by (nonlinear_arith)
        requires
            uq * ad + ur == an,
            0 <= ur,
            ad >= 1,
            uq >= 0,
    ;
    if den < 0 {
        assert((-uq) * den == uq * ad && uq * den == -(uq * ad)) by (nonlinear_arith)
            requires
                ad == -den,
        ;
    } else {
        assert((-uq) * den == -(uq * ad) && uq * den == uq * ad) by (nonlinear_arith)
            requires
                ad == den,
        ;
    }
}

/// Truncating signed division with remainder; the one overflowing case,
/// `i32::MIN / -1`, wraps to `i32::MIN` with remainder 0.
fn signed_divmod(num: i32, den: i32) -> (qr: (i32, i32))
    requires
        den != 0,
    ensures
        div_correct(num, den, qr.0, qr.1),
{
    if num == i32::MIN && den == -1 {
        (i32::MIN, 0)
    } else {
        let n64 = num as i64;
        let d64 = den as i64;
        let an: u64 = if n64 < 0 {
            (0 - n64) as u64
        } else {
            n64 as u64
        };
        let ad: u64 = if d64 < 0 {
            (0 - d64) as u64
        } else {
            d64 as u64
        };
        let uq = an / ad;
        let ur = an % ad;
        proof {
            lemma_magnitude_divmod(num as int, den as int, an as int, ad as int, uq as int, ur as int);
        }
        let q64: i64 = if (num < 0) != (den < 0) {
            0 - uq as i64
        } else {
            uq as i64
        };
        let r64: i64 = if num < 0 {
            0 - ur as i64
        } else {
            ur as i64
        };
        (q64 as i32, r64 as i32)
    }
}

/// Div: r0 = quotient, r1 = remainder, r3 = |quotient|; division by zero
/// leaves r0 = 0, r1 = numerator and r3 = 0.
fn div(cpu: &mut Cpu, num: i32, den: i32)
    requires
        old(cpu)@.wf(),
    ensures
        final(cpu)@.wf(),
        div_correct(num, den, final(cpu)@.r[0] as i32, final(cpu)@.r[1] as i32),
        final(cpu)@.r[3] == quotient_magnitude(den, final(cpu)@.r[0]),
        final(cpu)@ == (CpuView {
            r: old(cpu)@.r.update(0, final(cpu)@.r[0]).update(1, final(cpu)@.r[1]).update(
                3,
                final(cpu)@.r[3],
            ),
            ..old(cpu)@
        }),
{
    if den == 0 {
        proof {
            crate::bits::lemma_i32_roundtrip(num);
        }
        cpu.set_reg(0, 0);
        cpu.set_reg(1, num as u32);
        cpu.set_reg(3, 0);
        return ;
    }
    let (q, r) = signed_divmod(num, den);
    let abs_q: u32 = if q < 0 {
        (0i64 - q as i64) as u32
    } else {
        q as u32
    };
    proof {
        crate::bits::lemma_i32_roundtrip(q);
        crate::bits::lemma_i32_roundtrip(r);
    }
    cpu.set_reg(0, q as u32);
    cpu.set_reg(1, r as u32);
    cpu.set_reg(3, abs_q);
}

/// Floor of the square root of `x`.
pub fn isqrt(x: u32) -> (r: u32)
    ensures
        r * r <= x,
        x < (r + 1) * (r + 1),
{
    let mut lo: u64 = 0;
    let mut hi: u64 = 0x10000;
    while hi - lo > 1
        invariant
            lo < hi <= 0x10000,
            lo * lo <= x,
            x < hi * hi,
        decreases hi - lo,
    {
        let mid = lo + (hi - lo) / 2;
        proof {
            assert(mid * mid <= 0x10000 * 0x10000) by (nonlinear_arith)
                requires
                    mid <= 0x10000,
            ;
        }
        if mid * mid <= x as u64 {
            lo = mid;
        } else {
            hi = mid;
        }
    }
    assert(hi == lo + 1);
    lo as u32
}

/// The bus after the first `n` units of a CpuSet/CpuFastSet copy: unit `i`
/// (a word when `word`, else a halfword) is stored at `dst + i * size`, and
/// is `fill` when `fixed`, else the unit the bus then holds at
/// `src + i * size`.
pub open spec fn copy_units(
    b: BusView,
    src: u32,
    dst: u32,
    fill: u32,
    fixed: bool,
    word: bool,
    n: nat,
) -> BusView
    decreases n,
{
    if n == 0 {
        b
    } else {
        let b1 = copy_units(b, src, dst, fill, fixed, word, (n - 1) as nat);
        let i = (n - 1) as int;
        if word {
            let v = if fixed {
                fill
            } else {
                b1.read32(wadd(src, (i * 4) as u32))
            };
            b1.write32(wadd(dst, (i * 4) as u32), v, DMA_NEST_LIMIT as nat)
        } else {
            let v = if fixed {
                fill as u16
            } else {
                b1.read16(wadd(src, (i * 2) as u32))
            };
            b1.write16(wadd(dst, (i * 2) as u32), v, DMA_NEST_LIMIT as nat)
        }
    }
}

/// The bus after CpuSet with source r0, destination r1 and mode r2: a unit
/// count in the low 21 bits, bit 24 for fill and bit 26 for words.
pub open spec fn spec_cpu_set(c: CpuView, b: BusView) -> BusView {
    let src = c.r[0];
    let mode = c.r[2];
    let word = mode & 0x0400_0000 != 0;
    let fill = if word {
        b.read32(src)
    } else {
        b.read16(src) as u32
    };
    copy_units(b, src, c.r[1], fill, mode & 0x0100_0000 != 0, word, (mode & 0x1f_ffff) as nat)
}

/// The bus after CpuFastSet: words, the count rounded up to a multiple of
/// eight.
pub open spec fn spec_cpu_fast_set(c: CpuView, b: BusView) -> BusView {
    let src = c.r[0];
    let mode = c.r[2];
    let rounded = (((mode & 0x1f_ffff) + 7) as u32) & !7u32;
    copy_units(b, src, c.r[1], b.read32(src), mode & 0x0100_0000 != 0, true, rounded as nat)
}

/// Copies `count` units from `src` to `dst` as `copy_units` describes.
fn copy_loop(bus: &mut Bus, src: u32, dst: u32, fill: u32, fixed: bool, word: bool, count: u32)
    requires
        bus_ok(old(bus)@),
        count <= 0x1f_ffff + 7,
    ensures
        bus_ok(final(bus)@),
        store_frame(old(bus)@, final(bus)@),
        final(bus)@ == copy_units(old(bus)@, src, dst, fill, fixed, word, count as nat),
{
    let ghost b0 = bus@;
    let mut i: u32 = 0;
    while i < count
        invariant
            i <= count <= 0x1f_ffff + 7,
            bus_ok(bus@),
            store_frame(b0, bus@),
            bus@ == copy_units(b0, src, dst, fill, fixed, word, i as nat),
        decreases count - i,
    {
        if word {
            let value = if fixed {
                fill
            } else {
                bus.read32(src.wrapping_add(i * 4))
            };
            bus.write32(dst.wrapping_add(i * 4), value);
        } else {
            let value = if fixed {
                fill as u16
            } else {
                bus.read16(src.wrapping_add(i * 2))
            };
            bus.write16(dst.wrapping_add(i * 2), value);
        }
        i = i + 1;
    }
}

/// CpuSet: copies (or fills from the first source unit) `count` halfwords or
/// words from r0 to r1.
fn cpu_set(cpu: &Cpu, bus: &mut Bus)
    requires
        bus_ok(old(bus)@),
        cpu@.wf(),
    ensures
        bus_ok(final(bus)@),
        store_frame(old(bus)@, final(bus)@),
        final(bus)@ == spec_cpu_set(cpu@, old(bus)@),
{
    let src = cpu.reg(0);
    let dst = cpu.reg(1);
    let mode = cpu.reg(2);
    let count = mode & 0x1f_ffff;
    let fixed = mode & 0x0100_0000 != 0;
    let word = mode & 0x0400_0000 != 0;
    proof {
        crate::bits::lemma_u32_and_le(mode, 0x1f_ffff);
    }
    let fill: u32 = if word {
        bus.read32(src)
    } else {
        bus.read16(src) as u32
    };
    copy_loop(bus, src, dst, fill, fixed, word, count);
}

/// CpuFastSet: word copy or fill, in blocks of eight words.
fn cpu_fast_set(cpu: &Cpu, bus: &mut Bus)
    requires
        bus_ok(old(bus)@),
        cpu@.wf(),
    ensures
        bus_ok(final(bus)@),
        store_frame(old(bus)@, final(bus)@),
        final(bus)@ == spec_cpu_fast_set(cpu@, old(bus)@),
{
    let src = cpu.reg(0);
    let dst = cpu.reg(1);
    let mode = cpu.reg(2);
    let count = mode & 0x1f_ffff;
    let fixed = mode & 0x0100_0000 != 0;
    let fill = bus.read32(src);
    proof {
        crate::bits::lemma_u32_and_le(mode, 0x1f_ffff);
        crate::bits::lemma_u32_and_not_le((count + 7) as u32, 7);
    }
    let rounded = (count + 7) & !7u32;
    copy_loop(bus, src, dst, fill, fixed, true, rounded);
}

/// The bus after BgAffineSet has turned the record at `s` into parameters at
/// `d`, with matrix `m` = (pa, pb, pc, pd): the matrix, then the reference
/// point, the centre (words at `s`, `s + 4`) less the matrix applied to the
/// display centre (signed halfwords at `s + 8`, `s + 10`).
pub open spec fn bg_affine_record(b: BusView, s: u32, d: u32, m: (i16, i16, i16, i16)) -> BusView {
    let cx = b.read32(s) as i32;
    let cy = b.read32(wadd(s, 4)) as i32;
    let disp_x = b.read16(wadd(s, 8)) as i16 as i32;
    let disp_y = b.read16(wadd(s, 10)) as i16 as i32;
    let start_x = vstd::wrapping::i32_specs::wrapping_sub(
        cx,
        vstd::wrapping::i32_specs::wrapping_add(
            vstd::wrapping::i32_specs::wrapping_mul(m.0 as i32, disp_x),
            vstd::wrapping::i32_specs::wrapping_mul(m.1 as i32, disp_y),
        ),
    );
    let start_y = vstd::wrapping::i32_specs::wrapping_sub(
        cy,
        vstd::wrapping::i32_specs::wrapping_add(
            vstd::wrapping::i32_specs::wrapping_mul(m.2 as i32, disp_x),
            vstd::wrapping::i32_specs::wrapping_mul(m.3 as i32, disp_y),
        ),
    );
    let n = DMA_NEST_LIMIT as nat;
    b.write16(d, m.0 as u16, n).write16(wadd(d, 2), m.1 as u16, n).write16(
        wadd(d, 4),
        m.2 as u16,
        n,
    ).write16(wadd(d, 6), m.3 as u16, n).write32(wadd(d, 8), start_x as u32, n).write32(
        wadd(d, 12),
        start_y as u32,
        n,
    )
}

/// The bus after BgAffineSet has turned the records from `src` (20 bytes
/// each) into parameters from `dst` (16 bytes each), record `i` with matrix
/// `ms[i]`.
pub open spec fn bg_affine_records(
    b: BusView,
    src: u32,
    dst: u32,
    ms: Seq<(i16, i16, i16, i16)>,
) -> BusView
    decreases ms.len(),
{
    if ms.len() == 0 {
        b
    } else {
        let i = (ms.len() - 1) as u32;
        bg_affine_record(
            bg_affine_records(b, src, dst, ms.drop_last()),
            wadd(src, vstd::wrapping::u32_specs::wrapping_mul(i, 20)),
            wadd(dst, vstd::wrapping::u32_specs::wrapping_mul(i, 16)),
            ms.last(),
        )
    }
}

/// Stores one BgAffineSet result: matrix `m` for the record at `s`, and the
/// reference point it gives, at `d`.
fn write_bg_affine(bus: &mut Bus, s: u32, d: u32, m: (i16, i16, i16, i16))
    requires
        bus_ok(old(bus)@),
    ensures
        bus_ok(final(bus)@),
        store_frame(old(bus)@, final(bus)@),
        final(bus)@ == bg_affine_record(old(bus)@, s, d, m),
{
    let (pa, pb, pc, pd) = m;
    let cx = bus.read32(s) as i32;
    let cy = bus.read32(s.wrapping_add(4)) as i32;
    let disp_x = bus.read16(s.wrapping_add(8)) as i16 as i32;
    let disp_y = bus.read16(s.wrapping_add(10)) as i16 as i32;
    let start_x = cx.wrapping_sub((pa as i32).wrapping_mul(disp_x).wrapping_add(
        (pb as i32).wrapping_mul(disp_y),
    ));
    let start_y = cy.wrapping_sub((pc as i32).wrapping_mul(disp_x).wrapping_add(
        (pd as i32).wrapping_mul(disp_y),
    ));
    bus.write16(d, pa as u16);
    bus.write16(d.wrapping_add(2), pb as u16);
    bus.write16(d.wrapping_add(4), pc as u16);
    bus.write16(d.wrapping_add(6), pd as u16);
    bus.write32(d.wrapping_add(8), start_x as u32);
    bus.write32(d.wrapping_add(12), start_y as u32);
}

/// BgAffineSet: turns `count` scale/rotate/centre records at r0 into
/// background affine parameters and reference points at r1. The host computes
/// each record's matrix from its scales and angle; whatever it returns, the
/// records are written as `bg_affine_records` says.
fn bg_affine_set<H: Host>(cpu: &Cpu, bus: &mut Bus, host: &H)
    requires
        bus_ok(old(bus)@),
    ensures
        bus_ok(final(bus)@),
        store_frame(old(bus)@, final(bus)@),
        exists|ms: Seq<(i16, i16, i16, i16)>|
            ms.len() == cpu@.r[2] && final(bus)@ == bg_affine_records(
                old(bus)@,
                cpu@.r[0],
                cpu@.r[1],
                ms,
            ),
{
    let src = cpu.reg(0);
    let dst = cpu.reg(1);
    let count = cpu.reg(2);
    let ghost b0 = bus@;
    let ghost mut ms: Seq<(i16, i16, i16, i16)> = Seq::empty();
    let mut i: u32 = 0;
    while i < count
        invariant
            i <= count,
            bus_ok(bus@),
            store_frame(b0, bus@),
            ms.len() == i,
            bus@ == bg_affine_records(b0, src, dst, ms),
        decreases count - i,
    {
        let s = src.wrapping_add(i.wrapping_mul(20));
        let d = dst.wrapping_add(i.wrapping_mul(16));
        let (sx, sy, theta) = bg_affine_args(bus, s);
        let m = host.affine_params(sx, sy, theta);
        write_bg_affine(bus, s, d, m);
        proof {
            assert(ms.push(m).drop_last() =~= ms);
            ms = ms.push(m);
        }
        i = i + 1;
    }
}

/// The bus after the first `m` entries of one ObjAffineSet record: entry
/// `j` is the halfword at `s + 2 * j`, stored at `d + j * offset`.
pub open spec fn affine_entries(b: BusView, s: u32, d: u32, offset: u32, m: nat) -> BusView
    decreases m,
{
    if m == 0 {
        b
    } else {
        let b1 = affine_entries(b, s, d, offset, (m - 1) as nat);
        let j = (m - 1) as u32;
        b1.write16(
            wadd(d, vstd::wrapping::u32_specs::wrapping_mul(j, offset)),
            b1.read16(wadd(s, (j * 2) as u32)),
            DMA_NEST_LIMIT as nat,
        )
    }
}

/// The bus after the first `n` records of ObjAffineSet: record `i` is read
/// from `src + 8 * i` and written from `dst + 4 * i * offset`.
pub open spec fn affine_records(b: BusView, src: u32, dst: u32, offset: u32, n: nat) -> BusView
    decreases n,
{
    if n == 0 {
        b
    } else {
        let b1 = affine_records(b, src, dst, offset, (n - 1) as nat);
        let i = (n - 1) as u32;
        affine_entries(
            b1,
            wadd(src, vstd::wrapping::u32_specs::wrapping_mul(i, 8)),
            wadd(
                dst,
                vstd::wrapping::u32_specs::wrapping_mul(
                    vstd::wrapping::u32_specs::wrapping_mul(i, offset),
                    4,
                ),
            ),
            offset,
            4,
        )
    }
}

/// ObjAffineSet: copies the four matrix entries of each of `count` records
/// at r0 to r1, consecutive entries `offset` bytes apart and consecutive
/// records `4 * offset` bytes apart.
fn obj_affine_set(cpu: &Cpu, bus: &mut Bus)
    requires
        bus_ok(old(bus)@),
        cpu@.wf(),
    ensures
        bus_ok(final(bus)@),
        store_frame(old(bus)@, final(bus)@),
        final(bus)@ == affine_records(old(bus)@, cpu@.r[0], cpu@.r[1], cpu@.r[3], cpu@.r[2] as nat),
{
    let src = cpu.reg(0);
    let dst = cpu.reg(1);
    let count = cpu.reg(2);
    let offset = cpu.reg(3);
    let ghost b0 = bus@;
    let mut i: u32 = 0;
    while i < count
        invariant
            i <= count,
            bus_ok(bus@),
            store_frame(b0, bus@),
            bus@ == affine_records(b0, src, dst, offset, i as nat),
        decreases count - i,
    {
        let s = src.wrapping_add(i.wrapping_mul(8));
        let d = dst.wrapping_add(i.wrapping_mul(offset).wrapping_mul(4));
        let ghost bi = bus@;
        let mut j: u32 = 0;
        while j < 4
            invariant
                j <= 4,
                bus_ok(bus@),
                store_frame(b0, bus@),
                bus@ == affine_entries(bi, s, d, offset, j as nat),
            decreases 4 - j,
        {
            let v = bus.read16(s.wrapping_add(j * 2));
            bus.write16(d.wrapping_add(j.wrapping_mul(offset)), v);
            j = j + 1;
        }
        i = i + 1;
    }
}

/// Stores `bytes` at consecutive addresses from `dst`, bypassing I/O side
/// effects.
pub open spec fn spec_write_bytes(b: BusView, dst: u32, bytes: Seq<u8>) -> BusView
    decreases bytes.len(),
{
    if bytes.len() == 0 {
        b
    } else {
        spec_write_bytes(b, dst, bytes.drop_last()).write8_raw(
            wadd(dst, (bytes.len() - 1) as u32),
            bytes.last(),
        )
    }
}

fn write_bytes(dst: u32, bytes: &Vec<u8>, bus: &mut Bus)
    requires
        bus_ok(old(bus)@),
        bytes@.len() <= u32::MAX,
    ensures
        bus_ok(final(bus)@),
        store_frame(old(bus)@, final(bus)@),
        final(bus)@ == spec_write_bytes(old(bus)@, dst, bytes@),
{
    let ghost b0 = bus@;
    let mut i: usize = 0;
    while i < bytes.len()
        invariant
            i <= bytes@.len() <= u32::MAX,
            bus_ok(bus@),
            store_frame(b0, bus@),
            bus@ == spec_write_bytes(b0, dst, bytes@.subrange(0, i as int)),
        decreases bytes@.len() - i,
    {
        bus.write8_raw(dst.wrapping_add(i as u32), bytes[i]);
        proof {
            assert(bytes@.subrange(0, i as int + 1).drop_last() =~= bytes@.subrange(0, i as int));
        }
        i = i + 1;
    }
    proof {
        assert(bytes@.subrange(0, bytes@.len() as int) =~= bytes@);
    }
}

/// Running sum modulo 256 of the first `n` input bytes.
pub open spec fn diff8_sum(input: Seq<u8>, n: nat) -> u8
    decreases n,
{
    if n == 0 {
        0
    } else {
        vstd::wrapping::u8_specs::wrapping_add(diff8_sum(input, (n - 1) as nat), input[n - 1])
    }
}

/// The bytes a source address range holds, as the bus reads them.
pub open spec fn bus_bytes(b: BusView, start: u32, n: nat) -> Seq<u8> {
    Seq::new(n, |i: int| b.read8(wadd(start, i as u32)))
}

/// Diff8BitUnFilter: each output byte is the sum modulo 256 of the input
/// bytes up to it.
fn diff8(cpu: &Cpu, bus: &mut Bus)
    requires
        bus_ok(old(bus)@),
    ensures
        bus_ok(final(bus)@),
        store_frame(old(bus)@, final(bus)@),
        ({
            let src = cpu@.r[0];
            let size = (old(bus)@.read32(src) >> 8u32) as nat;
            let input = bus_bytes(old(bus)@, wadd(src, 4), size);
            final(bus)@ == spec_write_bytes(
                old(bus)@,
                cpu@.r[1],
                Seq::new(size, |i: int| diff8_sum(input, (i + 1) as nat)),
            )
        }),
{
    let src = cpu.reg(0);
    let dst = cpu.reg(1);
    let size = bus.read32(src) >> 8;
    proof {
        crate::bits::lemma_u32_shr8(bus@.read32(src));
    }
    let ghost input = bus_bytes(bus@, wadd(src, 4), size as nat);
    let mut prev: u8 = 0;
    let mut out: Vec<u8> = Vec::new();
    let mut i: u32 = 0;
    while i < size
        invariant
            i <= size <= 0xff_ffff,
            out@.len() == i,
            prev == diff8_sum(input, i as nat),
            input == bus_bytes(bus@, wadd(src, 4), size as nat),
            forall|k: int| 0 <= k < i ==> out@[k] == diff8_sum(input, (k + 1) as nat),
            bus_ok(bus@),
        decreases size - i,
    {
        let byte = bus.read8(src.wrapping_add(4).wrapping_add(i));
        proof {
            assert(input[i as int] == byte);
        }
        prev = prev.wrapping_add(byte);
        out.push(prev);
        i = i + 1;
    }
    proof {
        assert(out@ =~= Seq::new(size as nat, |k: int| diff8_sum(input, (k + 1) as nat)));
    }
    write_bytes(dst, &out, bus);
}

/// Running sum modulo 65536 of the first `n` input halfwords.
pub open spec fn diff16_sum(input: Seq<u16>, n: nat) -> u16
    decreases n,
{
    if n == 0 {
        0
    } else {
        vstd::wrapping::u16_specs::wrapping_add(diff16_sum(input, (n - 1) as nat), input[n - 1])
    }
}

/// The halfwords from `start` on, as the bus reads them.
pub open spec fn bus_halfwords(b: BusView, start: u32, n: nat) -> Seq<u16> {
    Seq::new(n, |i: int| b.read16(wadd(start, (2 * i) as u32)))
}

/// The first `size` bytes of the little-endian running halfword sums.
pub open spec fn diff16_bytes(input: Seq<u16>, size: nat) -> Seq<u8> {
    Seq::new(
        size,
        |t: int|
            {
                let s = diff16_sum(input, (t / 2 + 1) as nat);
                if t % 2 == 0 {
                    (s & 0xff) as u8
                } else {
                    (s >> 8u16) as u8
                }
            },
    )
}

/// Diff16BitUnFilter: halfword running sums, truncated to the output size.
fn diff16(cpu: &Cpu, bus: &mut Bus)
    requires
        bus_ok(old(bus)@),
        cpu@.wf(),
    ensures
        bus_ok(final(bus)@),
        store_frame(old(bus)@, final(bus)@),
        ({
            let src = cpu@.r[0];
            let size = (old(bus)@.read32(src) >> 8u32) as nat;
            let input = bus_halfwords(old(bus)@, wadd(src, 4), (size + 1) / 2);
            final(bus)@ == spec_write_bytes(old(bus)@, cpu@.r[1], diff16_bytes(input, size))
        }),
{
    let src = cpu.reg(0);
    let dst = cpu.reg(1);
    let size = bus.read32(src) >> 8;
    proof {
        crate::bits::lemma_u32_shr8(bus@.read32(src));
    }
    let ghost start = wadd(src, 4);
    let ghost input = bus_halfwords(bus@, start, ((size + 1) / 2) as nat);
    let mut prev: u16 = 0;
    let mut out: Vec<u8> = Vec::new();
    let mut in_addr = src.wrapping_add(4);
    let mut k: u32 = 0;
    while out.len() < size as usize
        invariant
            size <= 0xff_ffff,
            out@.len() == 2 * k,
            out@.len() <= size + 1,
            in_addr == wadd(start, (2 * k) as u32),
            input == bus_halfwords(bus@, start, ((size + 1) / 2) as nat),
            prev == diff16_sum(input, k as nat),
            k <= (size + 1) / 2,
            forall|t: int| 0 <= t < out@.len() ==> out@[t] == diff16_bytes(input, out@.len())[t],
            bus_ok(bus@),
        decreases size + 1 - out@.len(),
    {
        let h = bus.read16(in_addr);
        proof {
            assert(input[k as int] == h);
        }
        prev = prev.wrapping_add(h);
        in_addr = in_addr.wrapping_add(2);
        out.push((prev & 0xff) as u8);
        out.push((prev >> 8u16) as u8);
        k = k + 1;
        proof {
            assert forall|t: int| 0 <= t < out@.len() implies out@[t] == diff16_bytes(
                input,
                out@.len(),
            )[t] by {
                if t < out@.len() - 2 {
                    assert(diff16_bytes(input, (out@.len() - 2) as nat)[t] == diff16_bytes(
                        input,
                        out@.len(),
                    )[t]);
                }
            }
        }
    }
    out.truncate(size as usize);
    proof {
        assert(out@ =~= diff16_bytes(input, size as nat));
    }
    write_bytes(dst, &out, bus);
}

/// `out` extended by `n` bytes copied from `disp + 1` bytes back from the
/// end `out` had at the start of the copy (overlapping copies repeat); a
/// position before the start of the output reads as zero.
pub open spec fn lz77_copy(out: Seq<u8>, disp: nat, n: nat) -> Seq<u8>
    decreases n,
{
    if n == 0 {
        out
    } else {
        let o1 = lz77_copy(out, disp, (n - 1) as nat);
        let start = out.len();
        let value = if disp + 1 <= start {
            o1[start - disp - 1 + (n - 1)]
        } else {
            0u8
        };
        o1.push(value)
    }
}

/// One LZ77 unit at `addr`: a literal byte, or (when `is_ref`) a two-byte
/// back-reference of length `(b1 >> 4) + 3` and distance
/// `((b1 & 0xf) << 8 | b2) + 1`. Returns the output and the next address.
pub open spec fn lz77_unit(b: BusView, addr: u32, out: Seq<u8>, size: nat, is_ref: bool) -> (
    Seq<u8>,
    u32,
) {
    if !is_ref {
        (out.push(b.read8(addr)), wadd(addr, 1))
    } else {
        let b1 = b.read8(addr);
        let b2 = b.read8(wadd(addr, 1));
        let len = ((b1 >> 4u8) + 3) as nat;
        let disp = ((((b1 & 0x0f) as u32) << 8u32) | (b2 as u32)) as nat;
        (lz77_copy(out, disp, room(out.len(), size, len)), wadd(addr, 2))
    }
}

/// The units of one flag byte, most significant bit first, `k` of them
/// left; stops once the output is full.
pub open spec fn lz77_group(
    b: BusView,
    addr: u32,
    out: Seq<u8>,
    size: nat,
    flags: u8,
    k: nat,
) -> (Seq<u8>, u32)
    decreases k,
{
    if k == 0 || out.len() >= size {
        (out, addr)
    } else {
        let is_ref = (flags >> ((k - 1) as u8)) & 1 != 0;
        let (o1, a1) = lz77_unit(b, addr, out, size, is_ref);
        lz77_group(b, a1, o1, size, flags, (k - 1) as nat)
    }
}

/// LZ77 decoding of the flag groups from `addr` on after `out`, until the
/// output holds `size` bytes or `fuel` groups are used.
pub open spec fn lz77_decode(b: BusView, addr: u32, out: Seq<u8>, size: nat, fuel: nat) -> Seq<u8>
    decreases fuel,
{
    if out.len() >= size || fuel == 0 {
        out
    } else {
        let (out2, addr2) = lz77_group(b, wadd(addr, 1), out, size, b.read8(addr), 8);
        lz77_decode(b, addr2, out2, size, (fuel - 1) as nat)
    }
}

/// LZ77UnComp: decompresses the LZ77 stream at r0 to r1. A back-reference
/// before the start of the output reads as zero.
fn lz77(cpu: &Cpu, bus: &mut Bus)
    requires
        bus_ok(old(bus)@),
        cpu@.wf(),
    ensures
        bus_ok(final(bus)@),
        store_frame(old(bus)@, final(bus)@),
        ({
            let src = cpu@.r[0];
            let size = stream_size(old(bus)@, src);
            final(bus)@ == spec_write_bytes(
                old(bus)@,
                cpu@.r[1],
                lz77_decode(old(bus)@, wadd(src, 4), Seq::empty(), size, size),
            )
        }),
{
    let src = cpu.reg(0);
    let dst = cpu.reg(1);
    let header = bus.read32(src);
    let size = (header >> 8) as usize;
    proof {
        crate::bits::lemma_u32_shr8(header);
    }
    let ghost b0 = bus@;
    let ghost whole = lz77_decode(b0, wadd(src, 4), Seq::empty(), size as nat, size as nat);
    let mut in_addr = src.wrapping_add(4);
    let mut out: Vec<u8> = Vec::new();
    let mut groups: usize = 0;
    while out.len() < size
        invariant
            size <= 0xff_ffff,
            out@.len() <= size,
            groups <= out@.len(),
            bus@ == b0,
            bus_ok(b0),
            whole == lz77_decode(b0, in_addr, out@, size as nat, (size - groups) as nat),
        decreases size - out@.len(),
    {
        let ghost out0 = out@;
        let flags = bus.read8(in_addr);
        in_addr = in_addr.wrapping_add(1);
        let ghost group_start = in_addr;
        let mut bit: u32 = 8;
        while bit > 0 && out.len() < size
            invariant
                size <= 0xff_ffff,
                out0.len() < size,
                out0.len() <= out@.len() <= size,
                bit < 8 ==> out@.len() > out0.len(),
                bit <= 8,
                bus@ == b0,
                bus_ok(b0),
                lz77_group(b0, group_start, out0, size as nat, flags, 8) == lz77_group(
                    b0,
                    in_addr,
                    out@,
                    size as nat,
                    flags,
                    bit as nat,
                ),
            decreases bit,
        {
            let ghost unit_out = out@;
            let ghost unit_addr = in_addr;
            bit = bit - 1;
            if (flags >> (bit as u8)) & 1 == 0 {
                out.push(bus.read8(in_addr));
                in_addr = in_addr.wrapping_add(1);
            } else {
                let b1 = bus.read8(in_addr);
                let b2 = bus.read8(in_addr.wrapping_add(1));
                in_addr = in_addr.wrapping_add(2);
                proof {
                    assert(b1 >> 4u8 <= 15) by (bit_vector);
                }
                let len = (b1 >> 4) as usize + 3;
                let disp = (((b1 as usize) & 0x0f) << 8) | b2 as usize;
                proof {
                    crate::bits::lemma_usize_and_le(b1 as usize, 0x0f);
                    assert((((b1 as usize) & 0x0f) << 8usize) | (b2 as usize) <= 0xfff && (((
                    b1 as usize) & 0x0f) << 8usize) | (b2 as usize) == (((b1 & 0x0f) as u32)
                        << 8u32) | (b2 as u32)) by (bit_vector)
                        requires
                            (b1 as usize) & 0x0f <= 0x0f,
                            b2 <= 0xff,
                    ;
                }
                let start_len = out.len();
                let mut i: usize = 0;
                while i < len && out.len() < size
                    invariant
                        size <= 0xff_ffff,
                        i <= len <= 18,
                        start_len == unit_out.len(),
                        start_len < size,
                        out@.len() == start_len + i,
                        out@.len() <= size,
                        disp <= 0xfff,
                        out@ == lz77_copy(unit_out, disp as nat, i as nat),
                    decreases len - i,
                {
                    let value = if disp + 1 <= start_len {
                        out[start_len - disp - 1 + i]
                    } else {
                        0
                    };
                    out.push(value);
                    i = i + 1;
                }
                proof {
                    assert(i == room(start_len as nat, size as nat, len as nat));
                }
            }
            proof {
                let is_ref = (flags >> (bit as u8)) & 1 != 0;
                assert((out@, in_addr) == lz77_unit(b0, unit_addr, unit_out, size as nat, is_ref));
            }
        }
        proof {
            assert((out@, in_addr) == lz77_group(b0, group_start, out0, size as nat, flags, 8));
        }
        groups = groups + 1;
    }
    write_bytes(dst, &out, bus);
}

/// The number of bytes a block of `count` may still add to `have` bytes of
/// a `size`-byte output.
pub open spec fn room(have: nat, size: nat, count: nat) -> nat {
    if have + count <= size {
        count
    } else if have <= size {
        (size - have) as nat
    } else {
        0
    }
}

/// One run-length block with flag byte `flag`, its data at `addr`: a run of
/// `(flag & 0x7f) + 3` copies of one byte when bit 7 is set, else
/// `flag + 1` literal bytes. Returns the output and the next address.
pub open spec fn rl_block(b: BusView, addr: u32, out: Seq<u8>, size: nat, flag: u8) -> (
    Seq<u8>,
    u32,
) {
    if flag & 0x80 != 0 {
        let n = room(out.len(), size, ((flag & 0x7f) + 3) as nat);
        let v = b.read8(addr);
        (out + Seq::new(n, |i: int| v), wadd(addr, 1))
    } else {
        let n = room(out.len(), size, (flag + 1) as nat);
        (out + bus_bytes(b, addr, n), wadd(addr, n as u32))
    }
}

/// Run-length decoding of the blocks from `addr` on after `out`, until the
/// output holds `size` bytes or `fuel` blocks are used.
pub open spec fn rl_decode(b: BusView, addr: u32, out: Seq<u8>, size: nat, fuel: nat) -> Seq<u8>
    decreases fuel,
{
    if out.len() >= size || fuel == 0 {
        out
    } else {
        let (out2, addr2) = rl_block(b, wadd(addr, 1), out, size, b.read8(addr));
        rl_decode(b, addr2, out2, size, (fuel - 1) as nat)
    }
}

/// The size field of a compressed stream's header at `src`.
pub open spec fn stream_size(b: BusView, src: u32) -> nat {
    (b.read32(src) >> 8u32) as nat
}

proof fn lemma_lz77_copy_len(out: Seq<u8>, disp: nat, n: nat)
    ensures
        lz77_copy(out, disp, n).len() == out.len() + n,
        lz77_copy(out, disp, n).subrange(0, out.len() as int) == out,
    decreases n,
{
    if n > 0 {
        lemma_lz77_copy_len(out, disp, (n - 1) as nat);
        let o1 = lz77_copy(out, disp, (n - 1) as nat);
        assert(lz77_copy(out, disp, n).subrange(0, out.len() as int) =~= o1.subrange(
            0,
            out.len() as int,
        ));
    }
}

proof fn lemma_lz77_group_len(
    b: BusView,
    addr: u32,
    out: Seq<u8>,
    size: nat,
    flags: u8,
    k: nat,
)
    requires
        out.len() <= size,
    ensures
        lz77_group(b, addr, out, size, flags, k).0.len() <= size,
        k > 0 && out.len() < size ==> lz77_group(b, addr, out, size, flags, k).0.len() > out.len(),
        lz77_group(b, addr, out, size, flags, k).0.len() >= out.len(),
    decreases k,
{
    if k > 0 && out.len() < size {
        let is_ref = (flags >> ((k - 1) as u8)) & 1 != 0;
        let (o1, a1) = lz77_unit(b, addr, out, size, is_ref);
        if is_ref {
            let b1 = b.read8(addr);
            let b2 = b.read8(wadd(addr, 1));
            let len = ((b1 >> 4u8) + 3) as nat;
            let disp = ((((b1 & 0x0f) as u32) << 8u32) | (b2 as u32)) as nat;
            lemma_lz77_copy_len(out, disp, room(out.len(), size, len));
        }
        lemma_lz77_group_len(b, a1, o1, size, flags, (k - 1) as nat);
    }
}

/// LZ77 decoding with enough fuel yields exactly `size` bytes.
proof fn lemma_lz77_decode_len(b: BusView, addr: u32, out: Seq<u8>, size: nat, fuel: nat)
    requires
        out.len() <= size,
        fuel >= size - out.len(),
    ensures
        lz77_decode(b, addr, out, size, fuel).len() == size,
    decreases fuel,
{
    if out.len() < size && fuel > 0 {
        lemma_lz77_group_len(b, wadd(addr, 1), out, size, b.read8(addr), 8);
        let (out2, addr2) = lz77_group(b, wadd(addr, 1), out, size, b.read8(addr), 8);
        lemma_lz77_decode_len(b, addr2, out2, size, (fuel - 1) as nat);
    }
}

/// A decompressed LZ77 stream is exactly as long as its header says.
pub proof fn law_lz77_output_length(b: BusView, src: u32)
    ensures
        lz77_decode(b, wadd(src, 4), Seq::empty(), stream_size(b, src), stream_size(b, src)).len()
            == stream_size(b, src),
{
    lemma_lz77_decode_len(b, wadd(src, 4), Seq::empty(), stream_size(b, src), stream_size(b, src));
}

/// Run-length decoding with enough fuel yields exactly `size` bytes.
proof fn lemma_rl_decode_len(b: BusView, addr: u32, out: Seq<u8>, size: nat, fuel: nat)
    requires
        out.len() <= size,
        fuel >= size - out.len(),
    ensures
        rl_decode(b, addr, out, size, fuel).len() == size,
    decreases fuel,
{
    if out.len() < size && fuel > 0 {
        let (out2, addr2) = rl_block(b, wadd(addr, 1), out, size, b.read8(addr));
        lemma_rl_decode_len(b, addr2, out2, size, (fuel - 1) as nat);
    }
}

/// Copying `n` bytes from `disp + 1` back: the output keeps what it had and
/// grows by `n` bytes, each repeating the byte `disp + 1` before it (copies
/// may overlap what they write), or zero when that lies before the start.
proof fn lemma_lz77_copy(out: Seq<u8>, disp: nat, n: nat)
    ensures
        ({
            let r = lz77_copy(out, disp, n);
            &&& r.len() == out.len() + n
            &&& forall|i: int| 0 <= i < out.len() ==> r[i] == out[i]
            &&& forall|i: int|
                out.len() <= i < r.len() ==> #[trigger] r[i] == if disp + 1 <= out.len() {
                    r[i - disp - 1]
                } else {
                    0u8
                }
        }),
    decreases n,
{
    if n > 0 {
        lemma_lz77_copy(out, disp, (n - 1) as nat);
        let o1 = lz77_copy(out, disp, (n - 1) as nat);
        let r = lz77_copy(out, disp, n);
        assert forall|i: int| out.len() <= i < r.len() implies #[trigger] r[i] == if disp + 1
            <= out.len() {
            r[i - disp - 1]
        } else {
            0u8
        } by {
            if i < o1.len() {
                assert(r[i] == o1[i]);
                if disp + 1 <= out.len() {
                    assert(r[i - disp - 1] == o1[i - disp - 1]);
                }
            }
        }
    }
}

/// An LZ77 back-reference with bytes `b1`, `b2` at `addr`: it adds
/// `b1 / 16 + 3` bytes (as far as the output has room), each repeating the
/// byte `(b1 % 16) * 256 + b2 + 1` before it, or zero when that lies before
/// the start of the output.
pub proof fn law_lz77_back_reference(b: BusView, addr: u32, out: Seq<u8>, size: nat)
    ensures
        ({
            let b1 = b.read8(addr);
            let b2 = b.read8(wadd(addr, 1));
            let d = (b1 % 16) as nat * 256 + b2 as nat;
            let n = room(out.len(), size, (b1 / 16 + 3) as nat);
            let r = lz77_unit(b, addr, out, size, true).0;
            &&& r.len() == out.len() + n
            &&& forall|i: int| 0 <= i < out.len() ==> r[i] == out[i]
            &&& forall|i: int|
                out.len() <= i < r.len() ==> #[trigger] r[i] == if d + 1 <= out.len() {
                    r[i - d - 1]
                } else {
                    0u8
                }
        }),
{
    let b1 = b.read8(addr);
    let b2 = b.read8(wadd(addr, 1));
    assert(b1 >> 4u8 == b1 / 16 && (((b1 & 0x0f) as u32) << 8u32) | (b2 as u32) == (b1 % 16) as u32
        * 256 + b2 as u32) by (bit_vector);
    let d = (b1 % 16) as nat * 256 + b2 as nat;
    lemma_lz77_copy(out, d, room(out.len(), size, (b1 / 16 + 3) as nat));
}

/// A decompressed run-length stream is exactly as long as its header says.
pub proof fn law_rl_output_length(b: BusView, src: u32)
    ensures
        rl_decode(b, wadd(src, 4), Seq::empty(), stream_size(b, src), stream_size(b, src)).len()
            == stream_size(b, src),
{
    lemma_rl_decode_len(b, wadd(src, 4), Seq::empty(), stream_size(b, src), stream_size(b, src));
}

/// RLUnComp: decompresses the run-length stream at r0 to r1.
fn rl_uncomp(cpu: &Cpu, bus: &mut Bus)
    requires
        bus_ok(old(bus)@),
        cpu@.wf(),
    ensures
        bus_ok(final(bus)@),
        store_frame(old(bus)@, final(bus)@),
        ({
            let src = cpu@.r[0];
            let size = stream_size(old(bus)@, src);
            final(bus)@ == spec_write_bytes(
                old(bus)@,
                cpu@.r[1],
                rl_decode(old(bus)@, wadd(src, 4), Seq::empty(), size, size),
            )
        }),
{
    let src = cpu.reg(0);
    let dst = cpu.reg(1);
    let header = bus.read32(src);
    let size = (header >> 8) as usize;
    proof {
        crate::bits::lemma_u32_shr8(header);
    }
    let ghost b0 = bus@;
    let ghost whole = rl_decode(b0, wadd(src, 4), Seq::empty(), size as nat, size as nat);
    let mut in_addr = src.wrapping_add(4);
    let mut out: Vec<u8> = Vec::new();
    let mut blocks: usize = 0;
    while out.len() < size
        invariant
            size <= 0xff_ffff,
            out@.len() <= size,
            blocks <= out@.len(),
            bus@ == b0,
            bus_ok(b0),
            whole == rl_decode(b0, in_addr, out@, size as nat, (size - blocks) as nat),
        decreases size - out@.len(),
    {
        let ghost out0 = out@;
        let ghost addr0 = in_addr;
        let flag = bus.read8(in_addr);
        in_addr = in_addr.wrapping_add(1);
        let start_len = out.len();
        if flag & 0x80 != 0 {
            proof {
                crate::bits::lemma_u8_and_le(flag, 0x7f);
            }
            let count = (flag & 0x7f) as usize + 3;
            let value = bus.read8(in_addr);
            in_addr = in_addr.wrapping_add(1);
            let mut i: usize = 0;
            while i < count && out.len() < size
                invariant
                    i <= count,
                    out@.len() == start_len + i,
                    start_len == out0.len(),
                    start_len < size,
                    out@.len() <= size,
                    out@ == out0 + Seq::new(i as nat, |k: int| value),
                decreases count - i,
            {
                out.push(value);
                i = i + 1;
                proof {
                    assert(out@ =~= out0 + Seq::new(i as nat, |k: int| value));
                }
            }
            proof {
                assert(i == room(start_len as nat, size as nat, count as nat));
            }
        } else {
            let count = flag as usize + 1;
            let lit_start = in_addr;
            let mut i: usize = 0;
            while i < count && out.len() < size
                invariant
                    i <= count <= 256,
                    out@.len() == start_len + i,
                    start_len == out0.len(),
                    start_len < size,
                    out@.len() <= size,
                    bus@ == b0,
                    bus_ok(b0),
                    in_addr == wadd(lit_start, i as u32),
                    out@ == out0 + bus_bytes(b0, lit_start, i as nat),
                decreases count - i,
            {
                proof {
                    crate::cpu::lemma_wadd_wadd(lit_start, i as u32, 1);
                }
                out.push(bus.read8(in_addr));
                in_addr = in_addr.wrapping_add(1);
                i = i + 1;
                proof {
                    assert(out@ =~= out0 + bus_bytes(b0, lit_start, i as nat));
                }
            }
            proof {
                assert(i == room(start_len as nat, size as nat, count as nat));
            }
        }
        proof {
            assert((out@, in_addr) == rl_block(b0, wadd(addr0, 1), out0, size as nat, flag));
        }
        blocks = blocks + 1;
    }
    write_bytes(dst, &out, bus);
}

/// A mask of the low `bits` bits (shift amounts taken modulo 32).
pub open spec fn low_mask(bits: u32) -> u32 {
    vstd::wrapping::u32_specs::wrapping_sub(vstd::wrapping::u32_specs::wrapping_shl(1, bits), 1)
}

/// The parameters of a BitUnPack call.
pub struct UnpackParams {
    pub src: u32,
    pub src_bits: u32,
    pub dst_bits: u32,
    pub offset: u32,
    pub add_zero: bool,
}

/// The state after the first `n` source units of BitUnPack: the bus, the
/// output word being filled, its filled bit count, and the next output
/// address. Each unit is read from the bus as it then is; a non-zero unit
/// (any unit with the zero flag) gets the offset added; full words are
/// stored as they fill.
pub open spec fn unpack_state(b0: BusView, p: UnpackParams, dst: u32, n: nat) -> (
    BusView,
    u32,
    u32,
    u32,
)
    decreases n,
{
    if n == 0 {
        (b0, 0, 0, dst)
    } else {
        let (b, word, bits, addr) = unpack_state(b0, p, dst, (n - 1) as nat);
        let pos = (n - 1) * p.src_bits;
        let byte = b.read8(wadd(p.src, (pos / 8) as u32)) as u32;
        let raw = (byte >> ((pos % 8) as u32)) & low_mask(p.src_bits);
        let value = if raw != 0 || p.add_zero {
            vstd::wrapping::u32_specs::wrapping_add(raw, p.offset) & low_mask(p.dst_bits)
        } else {
            raw
        };
        let word2 = word | (value << bits);
        let bits2 = bits + p.dst_bits;
        if bits2 >= 32 {
            (b.write32(addr, word2, DMA_NEST_LIMIT as nat), 0, 0, wadd(addr, 4))
        } else {
            (b, word2, bits2 as u32, addr)
        }
    }
}

/// The bus after BitUnPack with source r0, destination r1 and the parameter
/// record at r2 (length in bytes, source and destination unit widths, and
/// offset with the zero flag in bit 31). A source width of zero does
/// nothing.
pub open spec fn spec_bit_unpack(c: CpuView, b: BusView) -> BusView {
    let info = c.r[2];
    let len = b.read16(info) as u32;
    let src_bits = b.read8(wadd(info, 2)) as u32;
    let raw_offset = b.read32(wadd(info, 4));
    let p = UnpackParams {
        src: c.r[0],
        src_bits,
        dst_bits: b.read8(wadd(info, 3)) as u32,
        offset: raw_offset & 0x7fff_ffff,
        add_zero: raw_offset & 0x8000_0000 != 0,
    };
    if src_bits == 0 {
        b
    } else {
        let (b2, word, bits, addr) = unpack_state(b, p, c.r[1], (((len * 8) as int) / (src_bits as int)) as nat);
        if bits != 0 {
            b2.write32(addr, word, DMA_NEST_LIMIT as nat)
        } else {
            b2
        }
    }
}

/// BitUnPack: widens packed `src_bits`-wide units to `dst_bits`-wide units,
/// adding the offset to non-zero units (or to all with the zero flag).
fn bit_unpack(cpu: &Cpu, bus: &mut Bus)
    requires
        bus_ok(old(bus)@),
        cpu@.wf(),
    ensures
        bus_ok(final(bus)@),
        store_frame(old(bus)@, final(bus)@),
        final(bus)@ == spec_bit_unpack(cpu@, old(bus)@),
{
    let src = cpu.reg(0);
    let dst = cpu.reg(1);
    let info = cpu.reg(2);
    let len = bus.read16(info) as u32;
    let src_bits = bus.read8(info.wrapping_add(2)) as u32;
    let dst_bits = bus.read8(info.wrapping_add(3)) as u32;
    let raw_offset = bus.read32(info.wrapping_add(4));
    let add_zero = raw_offset & 0x8000_0000 != 0;
    let offset = raw_offset & 0x7fff_ffff;
    if src_bits == 0 {
        return ;
    }
    let ghost p = UnpackParams { src, src_bits, dst_bits, offset, add_zero };
    let dst_mask = (1u32.wrapping_shl(dst_bits)).wrapping_sub(1);
    let unit_mask = (1u32.wrapping_shl(src_bits)).wrapping_sub(1);
    let mut out_word: u32 = 0;
    let mut out_bits: u32 = 0;
    let mut out_addr = dst;
    let total = len * 8 / src_bits;
    proof {
        assert(total * src_bits <= len * 8) by (nonlinear_arith)
            requires
                src_bits >= 1,
                total == (len * 8) as int / src_bits as int,
        ;
    }
    let ghost b0 = bus@;
    let mut bit_index: u32 = 0;
    while bit_index < total
        invariant
            bit_index <= total,
            total * src_bits <= len * 8,
            len <= 0xffff,
            1 <= src_bits <= 255,
            dst_bits <= 255,
            out_bits < 32,
            p == (UnpackParams { src, src_bits, dst_bits, offset, add_zero }),
            dst_mask == low_mask(dst_bits),
            unit_mask == low_mask(src_bits),
            bus_ok(bus@),
            store_frame(b0, bus@),
            (bus@, out_word, out_bits, out_addr) == unpack_state(b0, p, dst, bit_index as nat),
        decreases total - bit_index,
    {
        proof {
            assert(bit_index * src_bits <= total * src_bits) by (nonlinear_arith)
                requires
                    bit_index <= total,
            ;
        }
        let pos = bit_index * src_bits;
        let byte = bus.read8(src.wrapping_add(pos / 8)) as u32;
        let shift = pos % 8;
        let mut value = (byte >> shift) & unit_mask;
        if value != 0 || add_zero {
            value = value.wrapping_add(offset) & dst_mask;
        }
        out_word = out_word | (value << out_bits);
        out_bits = out_bits + dst_bits;
        if out_bits >= 32 {
            bus.write32(out_addr, out_word);
            out_addr = out_addr.wrapping_add(4);
            out_word = 0;
            out_bits = 0;
        }
        bit_index = bit_index + 1;
    }
    if out_bits != 0 {
        bus.write32(out_addr, out_word);
    }
}

/// The semitones below the wave's base note for MIDI key `key` with fine
/// adjustment `fine`: 180 less the key less the whole semitones of the fine
/// adjustment, wrapping.
pub open spec fn midi_semitones(key: u32, fine: u32) -> i32 {
    let f = fine as i32 as int;
    let whole = if f >= 0 {
        f / 256
    } else {
        -((-f) / 256)
    };
    vstd::wrapping::i32_specs::wrapping_sub(
        vstd::wrapping::i32_specs::wrapping_sub(180, key as i32),
        whole as i32,
    )
}

/// What MidiKey2Freq hands the host: the base frequency stored at r0 + 4,
/// and the semitones for MIDI key r1 with fine adjustment r2.
pub fn midi_key_args(cpu: &Cpu, bus: &Bus) -> (r: (u32, i32))
    requires
        bus.wf(),
    ensures
        r == (bus@.read32(wadd(cpu@.r[0], 4)), midi_semitones(cpu@.r[1], cpu@.r[2])),
{
    let wave = cpu.reg(0);
    let mk = cpu.reg(1) as i32;
    let fp = cpu.reg(2) as i32;
    let base = bus.read32(wave.wrapping_add(4));
    let semitones = 180i32.wrapping_sub(mk).wrapping_sub(fp / 256);
    (base, semitones)
}

/// What ArcTan2 hands the host: the vector (r0, r1), each a signed halfword.
pub fn arc_tan2_args(cpu: &Cpu) -> (r: (i16, i16))
    ensures
        r == (cpu@.r[0] as i16, cpu@.r[1] as i16),
{
    (cpu.reg(0) as i16, cpu.reg(1) as i16)
}

/// What ArcTan hands the host: the tangent r0, a signed halfword.
pub fn arc_tan_arg(cpu: &Cpu) -> (r: i16)
    ensures
        r == cpu@.r[0] as i16,
{
    cpu.reg(0) as i16
}

/// What BgAffineSet hands the host for the record at `s`: the scales (signed
/// halfwords at `s + 12`, `s + 14`) and the angle (halfword at `s + 16`).
pub fn bg_affine_args(bus: &Bus, s: u32) -> (r: (i16, i16, u16))
    requires
        bus.wf(),
    ensures
        r == (
            bus@.read16(wadd(s, 12)) as i16,
            bus@.read16(wadd(s, 14)) as i16,
            bus@.read16(wadd(s, 16)),
        ),
{
    let sx = bus.read16(s.wrapping_add(12)) as i16;
    let sy = bus.read16(s.wrapping_add(14)) as i16;
    let theta = bus.read16(s.wrapping_add(16));
    (sx, sy, theta)
}

/// MidiKey2Freq: the frequency for MIDI key r1 with fine adjustment r2 of the
/// wave whose base frequency is stored at r0 + 4.
fn midi_key_to_freq<H: Host>(cpu: &mut Cpu, bus: &Bus, host: &H)
    requires
        old(cpu)@.wf(),
        bus.wf(),
    ensures
        final(cpu)@.wf(),
        ({
            let r = final(cpu)@.r;
            final(cpu)@ == (CpuView { r: old(cpu)@.r.update(0, r[0]), ..old(cpu)@ })
        }),
{
    let (base, semitones) = midi_key_args(cpu, bus);
    let freq = host.midi_key_to_freq(base, semitones);
    cpu.set_reg(0, freq);
}

/// The bus after Diff8BitUnFilter from r0 to r1.
pub open spec fn spec_diff8(c: CpuView, b: BusView) -> BusView {
    let src = c.r[0];
    let size = stream_size(b, src);
    let input = bus_bytes(b, wadd(src, 4), size);
    spec_write_bytes(b, c.r[1], Seq::new(size, |i: int| diff8_sum(input, (i + 1) as nat)))
}

/// The bus after Diff16BitUnFilter from r0 to r1.
pub open spec fn spec_diff16(c: CpuView, b: BusView) -> BusView {
    let src = c.r[0];
    let size = stream_size(b, src);
    let input = bus_halfwords(b, wadd(src, 4), (size + 1) / 2);
    spec_write_bytes(b, c.r[1], diff16_bytes(input, size))
}

/// The bus after LZ77UnComp from r0 to r1.
pub open spec fn spec_lz77_uncomp(c: CpuView, b: BusView) -> BusView {
    let size = stream_size(b, c.r[0]);
    spec_write_bytes(b, c.r[1], lz77_decode(b, wadd(c.r[0], 4), Seq::empty(), size, size))
}

/// The bus after RLUnComp from r0 to r1.
pub open spec fn spec_rl_uncomp(c: CpuView, b: BusView) -> BusView {
    let size = stream_size(b, c.r[0]);
    spec_write_bytes(b, c.r[1], rl_decode(b, wadd(c.r[0], 4), Seq::empty(), size, size))
}

/// What the BIOS call with comment field `code` does, from core `c` and bus
/// `b` to core `c2` and bus `b2`. ArcTan, ArcTan2 and MidiKey2Freq take
/// their result in r0 from the host's floating point, and BgAffineSet takes
/// its matrices from it: of those, only what the host does not decide is said.
pub open spec fn swi_effect(code: u8, c: CpuView, b: BusView, c2: CpuView, b2: BusView) -> bool {
    &&& code == 0x00 ==> c2 == spec_soft_reset(c) && b2 == b
    &&& code == 0x01 ==> c2 == c && b2 == ram_reset(b, c.r[0])
    &&& code == 0x02 || code == 0x03 ==> c2 == (CpuView { halted: true, ..c }) && b2 == b
    &&& code == 0x04 ==> (c2, b2) == intr_wait_step(c, b, c.r[0] != 0, c.r[1] as u16)
    &&& code == 0x05 ==> (c2, b2) == intr_wait_step(c, b, true, 1)
    &&& code == 0x06 ==> div_correct(c.r[0] as i32, c.r[1] as i32, c2.r[0] as i32, c2.r[1] as i32)
    &&& code == 0x07 ==> div_correct(c.r[1] as i32, c.r[0] as i32, c2.r[0] as i32, c2.r[1] as i32)
    &&& code == 0x06 ==> c2.r[3] == quotient_magnitude(c.r[1] as i32, c2.r[0])
    &&& code == 0x07 ==> c2.r[3] == quotient_magnitude(c.r[0] as i32, c2.r[0])
    &&& code == 0x06 || code == 0x07 ==> b2 == b && c2 == (CpuView {
        r: c.r.update(0, c2.r[0]).update(1, c2.r[1]).update(3, c2.r[3]),
        ..c
    })
    &&& code == 0x08 ==> {
        let x = c.r[0];
        let s = c2.r[0];
        &&& s * s <= x < (s + 1) * (s + 1)
        &&& c2 == (CpuView { r: c.r.update(0, s), ..c })
        &&& b2 == b
    }
    &&& code == 0x09 || code == 0x0a || code == 0x1f ==> b2 == b && c2 == (CpuView {
        r: c.r.update(0, c2.r[0]),
        ..c
    })
    &&& code == 0x09 || code == 0x0a ==> c2.r[0] <= 0xffff
    &&& code == 0x0b ==> c2 == c && b2 == spec_cpu_set(c, b)
    &&& code == 0x0c ==> c2 == c && b2 == spec_cpu_fast_set(c, b)
    &&& code == 0x0e ==> c2 == c && exists|ms: Seq<(i16, i16, i16, i16)>|
        ms.len() == c.r[2] && b2 == bg_affine_records(b, c.r[0], c.r[1], ms)
    &&& code == 0x0f ==> c2 == c && b2 == affine_records(b, c.r[0], c.r[1], c.r[3], c.r[2] as nat)
    &&& code == 0x10 ==> c2 == c && b2 == spec_bit_unpack(c, b)
    &&& code == 0x11 || code == 0x12 ==> c2 == c && b2 == spec_lz77_uncomp(c, b)
    &&& code == 0x14 || code == 0x15 ==> c2 == c && b2 == spec_rl_uncomp(c, b)
    &&& code == 0x16 || code == 0x17 ==> c2 == c && b2 == spec_diff8(c, b)
    &&& code == 0x18 ==> c2 == c && b2 == spec_diff16(c, b)
    &&& code == 0x0d || code == 0x13 || code == 0x19 || 0x1a <= code <= 0x1e || 0x20 <= code
        ==> c2 == c && b2 == b
}

/// Whether BIOS call `code` takes its result from the host: ArcTan, ArcTan2,
/// BgAffineSet and MidiKey2Freq.
pub open spec fn swi_asks_host(code: u8) -> bool {
    code == 0x09 || code == 0x0a || code == 0x0e || code == 0x1f
}

/// Truncating division has one quotient and one remainder.
proof fn lemma_div_unique(num: i32, den: i32, q1: i32, r1: i32, q2: i32, r2: i32)
    requires
        div_correct(num, den, q1, r1),
        div_correct(num, den, q2, r2),
    ensures
        q1 == q2 && r1 == r2,
{
    if den != 0 && !(num == i32::MIN && den == -1) {
        let d = q1 - q2;
        assert(d * den == r2 - r1) by (nonlinear_arith)
            requires
                q1 * den + r1 == num,
                q2 * den + r2 == num,
                d == q1 - q2,
        ;
        let ad: int = if den < 0 {
            -(den as int)
        } else {
            den as int
        };
        assert(-ad < r2 - r1 < ad);
        if d != 0 {
            assert(d * den >= ad || d * den <= -ad) by (nonlinear_arith)
                requires
                    d != 0,
                    ad == (if den < 0 {
                        -(den as int)
                    } else {
                        den as int
                    }),
                    den != 0,
            ;
        }
    }
}

/// A word has one integer square root.
proof fn lemma_isqrt_unique(x: u32, s1: u32, s2: u32)
    requires
        s1 * s1 <= x < (s1 + 1) * (s1 + 1),
        s2 * s2 <= x < (s2 + 1) * (s2 + 1),
    ensures
        s1 == s2,
{
    if s1 < s2 {
        assert((s1 + 1) * (s1 + 1) <= s2 * s2) by (nonlinear_arith)
            requires
                s1 + 1 <= s2,
                0 <= s1,
        ;
    } else if s2 < s1 {
        assert((s2 + 1) * (s2 + 1) <= s1 * s1) by (nonlinear_arith)
            requires
                s2 + 1 <= s1,
                0 <= s2,
        ;
    }
}

/// A BIOS call that does not ask the host has one outcome.
pub proof fn lemma_swi_effect_unique(
    code: u8,
    c: CpuView,
    b: BusView,
    c1: CpuView,
    b1: BusView,
    c2: CpuView,
    b2: BusView,
)
    requires
        !swi_asks_host(code),
        swi_effect(code, c, b, c1, b1),
        swi_effect(code, c, b, c2, b2),
    ensures
        c1 == c2 && b1 == b2,
{
    if code == 0x06 || code == 0x07 {
        let (num, den) = if code == 0x06 {
            (c.r[0] as i32, c.r[1] as i32)
        } else {
            (c.r[1] as i32, c.r[0] as i32)
        };
        lemma_div_unique(num, den, c1.r[0] as i32, c1.r[1] as i32, c2.r[0] as i32, c2.r[1] as i32);
        let (a0, a1, b0_, b1_) = (c1.r[0], c1.r[1], c2.r[0], c2.r[1]);
        assert((a0 as i32 == b0_ as i32 ==> a0 == b0_) && (a1 as i32 == b1_ as i32 ==> a1 == b1_))
            by (bit_vector);
        assert(c1.r[3] == c2.r[3]);
    } else if code == 0x08 {
        lemma_isqrt_unique(c.r[0], c1.r[0], c2.r[0]);
    }
}

/// The BIOS call with comment field `code`.
pub fn handle_swi<H: Host>(code: u8, cpu: &mut Cpu, bus: &mut Bus, host: &H)
    requires
        old(cpu)@.wf(),
        bus_ok(old(bus)@),
    ensures
        final(cpu)@.wf(),
        bus_ok(final(bus)@),
        store_frame(old(bus)@, final(bus)@),
        swi_effect(code, old(cpu)@, old(bus)@, final(cpu)@, final(bus)@),
{
    if code == 0x00 {
        soft_reset(cpu);
    } else if code == 0x01 {
        let mask = cpu.reg(0);
        register_ram_reset(mask, bus);
    } else if code == 0x02 || code == 0x03 {
        cpu.set_halted(true);
    } else if code == 0x04 {
        let discard = cpu.reg(0) != 0;
        let flags = cpu.reg(1) as u16;
        intr_wait(cpu, bus, discard, flags);
    } else if code == 0x05 {
        intr_wait(cpu, bus, true, 1);
    } else if code == 0x06 {
        let num = cpu.reg(0) as i32;
        let den = cpu.reg(1) as i32;
        div(cpu, num, den);
    } else if code == 0x07 {
        let num = cpu.reg(1) as i32;
        let den = cpu.reg(0) as i32;
        div(cpu, num, den);
    } else if code == 0x08 {
        let x = cpu.reg(0);
        let s = isqrt(x);
        cpu.set_reg(0, s);
    } else if code == 0x09 {
        let x = arc_tan_arg(cpu);
        let angle = host.arc_tan(x);
        cpu.set_reg(0, angle as u16 as u32);
    } else if code == 0x0a {
        let (x, y) = arc_tan2_args(cpu);
        let angle = host.arc_tan2(x, y);
        cpu.set_reg(0, angle as u16 as u32);
    } else if code == 0x0b {
        cpu_set(cpu, bus);
    } else if code == 0x0c {
        cpu_fast_set(cpu, bus);
    } else if code == 0x0e {
        bg_affine_set(cpu, bus, host);
    } else if code == 0x0f {
        obj_affine_set(cpu, bus);
    } else if code == 0x10 {
        bit_unpack(cpu, bus);
    } else if code == 0x11 || code == 0x12 {
        lz77(cpu, bus);
    } else if code == 0x14 || code == 0x15 {
        rl_uncomp(cpu, bus);
    } else if code == 0x16 || code == 0x17 {
        diff8(cpu, bus);
    } else if code == 0x18 {
        diff16(cpu, bus);
    } else if code == 0x1f {
        midi_key_to_freq(cpu, bus, host);
    }
}

} // verus!
