//! Thumb (16-bit) instruction set: shifts, ALU operations, high-register
//! operations, loads and stores, stack and multiple transfers, branches.

use vstd::prelude::*;
use crate::alu::{
    spec_rotate_right,
    spec_shift_lsl,
    spec_shift_lsr,
    spec_shift_asr,
    spec_shift_ror,
    spec_sign_extend,
    spec_condition,
    flags_nz,
    flags_add,
    flags_adc,
    flags_sub,
    flags_sbc,
    with_flag,
    FLAG_C,
    rotate_right,
    shift_lsl,
    shift_lsr,
    shift_asr,
    shift_ror,
    sign_extend,
};
use crate::bits::lemma_u16_and_le;
use crate::bus::{Bus, BusView, DMA_NEST_LIMIT, store_frame};
use crate::cpu::{Cpu, CpuView, wadd, wsub, bus_ok};
use crate::cpu_arm::popcount;
use crate::host::Host;
use crate::bios::swi_effect;

verus! {

/// Three-bit register field of `instr` at bit `s`.
pub open spec fn reg3(instr: u16, s: u16) -> int {
    if s == 0 {
        (instr & 7) as int
    } else {
        ((instr >> s) & 7) as int
    }
}

/// The word a rotated word load of `addr` gives (unaligned loads rotate).
pub open spec fn load_word(b: BusView, addr: u32) -> u32 {
    spec_rotate_right(b.read32(addr), ((addr & 3) * 8) as u32)
}

/// The C flag set to `carry` and N, Z from `result`.
pub open spec fn flags_nzc(cpsr: u32, result: u32, carry: bool) -> u32 {
    with_flag(flags_nz(cpsr, result), FLAG_C, carry)
}

/// Move shifted register (LSL, LSR, ASR by an immediate).
pub open spec fn spec_thumb_shift(c: CpuView, instr: u16, pc: u32) -> CpuView {
    let op = (instr >> 11u16) & 3;
    let offset = ((instr >> 6u16) & 0x1f) as u32;
    let value = c.reg_thumb(reg3(instr, 3), pc);
    let long = if offset == 0 {
        32
    } else {
        offset
    };
    let (result, carry) = if op == 0 {
        spec_shift_lsl(value, offset, c.carry())
    } else if op == 1 {
        spec_shift_lsr(value, long, c.carry())
    } else {
        spec_shift_asr(value, long, c.carry())
    };
    c.with_reg(reg3(instr, 0), result).with_cpsr(flags_nzc(c.cpsr, result, carry))
}

/// ADD and SUB of a register or a three-bit immediate.
pub open spec fn spec_thumb_add_sub(c: CpuView, instr: u16, pc: u32) -> CpuView {
    let op2 = if instr & 0x0400 != 0 {
        reg3(instr, 6) as u32
    } else {
        c.reg_thumb(reg3(instr, 6), pc)
    };
    let a = c.reg_thumb(reg3(instr, 3), pc);
    if instr & 0x0200 != 0 {
        let result = wsub(a, op2);
        c.with_cpsr(flags_sub(c.cpsr, a, op2, result)).with_reg(reg3(instr, 0), result)
    } else {
        let result = wadd(a, op2);
        c.with_cpsr(flags_add(c.cpsr, a, op2, result)).with_reg(reg3(instr, 0), result)
    }
}

/// MOV, CMP, ADD, SUB with an eight-bit immediate.
pub open spec fn spec_thumb_imm(c: CpuView, instr: u16) -> CpuView {
    let op = (instr >> 11u16) & 3;
    let rd = reg3(instr, 8);
    let imm = (instr & 0xff) as u32;
    let old = c.r[rd];
    if op == 0 {
        c.with_reg(rd, imm).with_cpsr(flags_nz(c.cpsr, imm))
    } else if op == 1 {
        c.with_cpsr(flags_sub(c.cpsr, old, imm, wsub(old, imm)))
    } else if op == 2 {
        let result = wadd(old, imm);
        c.with_reg(rd, result).with_cpsr(flags_add(c.cpsr, wsub(result, imm), imm, result))
    } else {
        let result = wsub(old, imm);
        c.with_reg(rd, result).with_cpsr(flags_sub(c.cpsr, old, imm, result))
    }
}

/// The register-to-register ALU operations.
pub open spec fn spec_thumb_alu(c: CpuView, instr: u16) -> CpuView {
    let op = (instr >> 6u16) & 0xf;
    let rd = reg3(instr, 0);
    let a = c.r[rd];
    let b = c.r[reg3(instr, 3)];
    let cy = c.carry();
    if op == 0x0 {
        c.with_reg(rd, a & b).with_cpsr(flags_nz(c.cpsr, a & b))
    } else if op == 0x1 {
        c.with_reg(rd, a ^ b).with_cpsr(flags_nz(c.cpsr, a ^ b))
    } else if op == 0x2 || op == 0x3 || op == 0x4 || op == 0x7 {
        let (result, carry) = if op == 0x2 {
            spec_shift_lsl(a, b & 0xff, cy)
        } else if op == 0x3 {
            spec_shift_lsr(a, b & 0xff, cy)
        } else if op == 0x4 {
            spec_shift_asr(a, b & 0xff, cy)
        } else {
            spec_shift_ror(a, b & 0xff, cy)
        };
        c.with_reg(rd, result).with_cpsr(flags_nzc(c.cpsr, result, carry))
    } else if op == 0x5 {
        let carry: u32 = if cy {
            1
        } else {
            0
        };
        let result = wadd(wadd(a, b), carry);
        c.with_reg(rd, result).with_cpsr(flags_adc(c.cpsr, a, b, carry, result))
    } else if op == 0x6 {
        let borrow: u32 = if cy {
            0
        } else {
            1
        };
        let result = wsub(wsub(a, b), borrow);
        c.with_reg(rd, result).with_cpsr(flags_sbc(c.cpsr, a, b, borrow, result))
    } else if op == 0x8 {
        c.with_cpsr(flags_nz(c.cpsr, a & b))
    } else if op == 0x9 {
        let result = wsub(0, b);
        c.with_reg(rd, result).with_cpsr(flags_sub(c.cpsr, 0, b, result))
    } else if op == 0xa {
        c.with_cpsr(flags_sub(c.cpsr, a, b, wsub(a, b)))
    } else if op == 0xb {
        c.with_cpsr(flags_add(c.cpsr, a, b, wadd(a, b)))
    } else if op == 0xc {
        c.with_reg(rd, a | b).with_cpsr(flags_nz(c.cpsr, a | b))
    } else if op == 0xd {
        let p = vstd::wrapping::u32_specs::wrapping_mul(a, b);
        c.with_reg(rd, p).with_cpsr(flags_nz(c.cpsr, p))
    } else if op == 0xe {
        c.with_reg(rd, a & !b).with_cpsr(flags_nz(c.cpsr, a & !b))
    } else {
        c.with_reg(rd, !b).with_cpsr(flags_nz(c.cpsr, !b))
    }
}

/// Source register of a high-register operation (bit 6 extends it).
pub open spec fn hi_rs(instr: u16) -> int {
    (((instr >> 3u16) & 7) | ((instr >> 3u16) & 8)) as int
}

/// Destination register of a high-register operation (bit 7 extends it).
pub open spec fn hi_rd(instr: u16) -> int {
    ((instr & 7) | ((instr >> 4u16) & 8)) as int
}

/// ADD, CMP, MOV on any registers, and BX.
pub open spec fn spec_thumb_hi(c: CpuView, instr: u16, pc: u32) -> CpuView {
    let op = (instr >> 8u16) & 3;
    let rd = hi_rd(instr);
    let a = c.reg_thumb(rd, pc);
    let b = c.reg_thumb(hi_rs(instr), pc);
    if op == 0 {
        c.write_reg_thumb(rd, wadd(a, b))
    } else if op == 1 {
        c.with_cpsr(flags_sub(c.cpsr, a, b, wsub(a, b)))
    } else if op == 2 {
        c.write_reg_thumb(rd, b)
    } else {
        c.branch(b)
    }
}

/// Loads and stores with a register offset.
pub open spec fn spec_thumb_load_store_reg(c: CpuView, b: BusView, instr: u16, pc: u32) -> (
    CpuView,
    BusView,
) {
    let op = (instr >> 9u16) & 7;
    let rd = reg3(instr, 0);
    let addr = wadd(c.reg_thumb(reg3(instr, 3), pc), c.reg_thumb(reg3(instr, 6), pc));
    let v = c.r[rd];
    let lim = DMA_NEST_LIMIT as nat;
    if op == 0 {
        (c, b.write32(addr, v, lim))
    } else if op == 1 {
        (c, b.write16(addr, v as u16, lim))
    } else if op == 2 {
        (c, b.write8(addr, v as u8, lim))
    } else if op == 3 {
        (c.with_reg(rd, b.read8(addr) as i8 as i32 as u32), b)
    } else if op == 4 {
        (c.with_reg(rd, load_word(b, addr)), b)
    } else if op == 5 {
        (c.with_reg(rd, b.read16(addr) as u32), b)
    } else if op == 6 {
        (c.with_reg(rd, b.read8(addr) as u32), b)
    } else {
        (c.with_reg(rd, b.read16(addr) as i16 as i32 as u32), b)
    }
}

/// Loads and stores of words and bytes with a five-bit immediate offset.
pub open spec fn spec_thumb_load_store_imm(c: CpuView, b: BusView, instr: u16, pc: u32) -> (
    CpuView,
    BusView,
) {
    let byte = instr & 0x1000 != 0;
    let rd = reg3(instr, 0);
    let field = ((instr >> 6u16) & 0x1f) as u32;
    let offset: u32 = if byte {
        field
    } else {
        (field * 4) as u32
    };
    let addr = wadd(c.reg_thumb(reg3(instr, 3), pc), offset as u32);
    let lim = DMA_NEST_LIMIT as nat;
    if instr & 0x0800 != 0 {
        (
            c.with_reg(
                rd,
                if byte {
                    b.read8(addr) as u32
                } else {
                    load_word(b, addr)
                },
            ),
            b,
        )
    } else if byte {
        (c, b.write8(addr, c.r[rd] as u8, lim))
    } else {
        (c, b.write32(addr, c.r[rd], lim))
    }
}

/// Halfword loads and stores with an immediate offset.
pub open spec fn spec_thumb_load_store_half(c: CpuView, b: BusView, instr: u16, pc: u32) -> (
    CpuView,
    BusView,
) {
    let rd = reg3(instr, 0);
    let offset = (((instr >> 6u16) & 0x1f) as u32) * 2;
    let addr = wadd(c.reg_thumb(reg3(instr, 3), pc), offset as u32);
    if instr & 0x0800 != 0 {
        (c.with_reg(rd, b.read16(addr) as u32), b)
    } else {
        (c, b.write16(addr, c.r[rd] as u16, DMA_NEST_LIMIT as nat))
    }
}

/// Word loads and stores relative to the stack pointer.
pub open spec fn spec_thumb_sp_relative(c: CpuView, b: BusView, instr: u16) -> (CpuView, BusView) {
    let rd = reg3(instr, 8);
    let addr = wadd(c.r[13], (((instr & 0xff) as u32) * 4) as u32);
    if instr & 0x0800 != 0 {
        (c.with_reg(rd, b.read32(addr)), b)
    } else {
        (c, b.write32(addr, c.r[rd], DMA_NEST_LIMIT as nat))
    }
}

/// The word-aligned program counter of Thumb PC-relative addressing.
pub open spec fn thumb_pc_base(pc: u32) -> u32 {
    wadd(pc, 4) & !3u32
}

/// ADD rd, PC or SP, #imm.
pub open spec fn spec_thumb_load_address(c: CpuView, instr: u16, pc: u32) -> CpuView {
    let imm = ((instr & 0xff) as u32) * 4;
    c.with_reg(
        reg3(instr, 8),
        if instr & 0x0800 != 0 {
            wadd(c.r[13], imm as u32)
        } else {
            wadd(thumb_pc_base(pc), imm as u32)
        },
    )
}

/// Registers among the low `k` of `list` popped in order from the stack.
pub open spec fn pop_regs(c: CpuView, b: BusView, list: u16, k: nat) -> CpuView
    decreases k,
{
    if k == 0 {
        c
    } else {
        let c1 = pop_regs(c, b, list, (k - 1) as nat);
        let reg = k - 1;
        if (list >> (reg as u16)) & 1 == 1 {
            c1.with_reg(reg, b.read32(c1.r[13])).with_reg(13, wadd(c1.r[13], 4))
        } else {
            c1
        }
    }
}

/// Stores of the registers among the low `k` of `list` to consecutive words
/// from `addr`; returns the bus and the next address.
pub open spec fn store_regs(c: CpuView, b: BusView, list: u16, addr: u32, k: nat) -> (
    BusView,
    u32,
)
    decreases k,
{
    if k == 0 {
        (b, addr)
    } else {
        let (b1, a1) = store_regs(c, b, list, addr, (k - 1) as nat);
        let reg = k - 1;
        if (list >> (reg as u16)) & 1 == 1 {
            (b1.write32(a1, c.r[reg], DMA_NEST_LIMIT as nat), wadd(a1, 4))
        } else {
            (b1, a1)
        }
    }
}

/// Loads of the registers among the low `k` of `list` from consecutive words
/// from `addr`; returns the core and the next address.
pub open spec fn load_regs(c: CpuView, b: BusView, list: u16, addr: u32, k: nat) -> (
    CpuView,
    u32,
)
    decreases k,
{
    if k == 0 {
        (c, addr)
    } else {
        let (c1, a1) = load_regs(c, b, list, addr, (k - 1) as nat);
        let reg = k - 1;
        if (list >> (reg as u16)) & 1 == 1 {
            (c1.with_reg(reg, b.read32(a1)), wadd(a1, 4))
        } else {
            (c1, a1)
        }
    }
}

/// PUSH and POP, with LR pushed or PC popped when bit 8 is set.
pub open spec fn spec_thumb_push_pop(c: CpuView, b: BusView, instr: u16) -> (CpuView, BusView) {
    let extra = instr & 0x0100 != 0;
    let list = instr & 0xff;
    if instr & 0x0800 != 0 {
        let c1 = pop_regs(c, b, list, 8);
        if extra {
            let value = b.read32(c1.r[13]);
            (c1.with_reg(13, wadd(c1.r[13], 4)).branch(value), b)
        } else {
            (c1, b)
        }
    } else {
        let count = popcount(list as u32, 8) + if extra {
            1nat
        } else {
            0nat
        };
        let sp = wsub(c.r[13], (4 * count) as u32);
        let c1 = c.with_reg(13, sp);
        let (b1, a1) = store_regs(c1, b, list, sp, 8);
        if extra {
            (c1, b1.write32(a1, c1.r[14], DMA_NEST_LIMIT as nat))
        } else {
            (c1, b1)
        }
    }
}

/// LDMIA and STMIA with write-back of the base register.
pub open spec fn spec_thumb_multiple(c: CpuView, b: BusView, instr: u16) -> (CpuView, BusView) {
    let rb = reg3(instr, 8);
    let list = instr & 0xff;
    if instr & 0x0800 != 0 {
        let (c1, a1) = load_regs(c, b, list, c.r[rb], 8);
        (c1.with_reg(rb, a1), b)
    } else {
        let (b1, a1) = store_regs(c, b, list, c.r[rb], 8);
        (c.with_reg(rb, a1), b1)
    }
}

/// A conditional branch (the SWI form excluded).
pub open spec fn spec_thumb_cond_branch(c: CpuView, instr: u16, pc: u32) -> CpuView {
    let op = ((instr >> 8u16) & 0xf) as u8;
    if op == 0xe || !spec_condition(c.cpsr, op) {
        c
    } else {
        let off = spec_sign_extend((((instr & 0xff) as u32) * 2) as u32, 9);
        c.with_reg(15, wadd(wadd(pc, 4), off as u32) & !1u32)
    }
}

/// Whether `instr` is the Thumb software interrupt (condition field 0xf).
pub open spec fn is_thumb_swi(instr: u16) -> bool {
    0xd000 <= instr <= 0xdfff && (instr >> 8u16) & 0xf == 0xf
}

/// The effect of Thumb instruction `instr` fetched from `pc`, SWI excluded.
pub open spec fn spec_execute_thumb(c: CpuView, b: BusView, instr: u16, pc: u32) -> (
    CpuView,
    BusView,
) {
    if instr <= 0x17ff {
        (spec_thumb_shift(c, instr, pc), b)
    } else if instr <= 0x1fff {
        (spec_thumb_add_sub(c, instr, pc), b)
    } else if instr <= 0x3fff {
        (spec_thumb_imm(c, instr), b)
    } else if instr <= 0x43ff {
        (spec_thumb_alu(c, instr), b)
    } else if instr <= 0x47ff {
        (spec_thumb_hi(c, instr, pc), b)
    } else if instr <= 0x4fff {
        let addr = wadd(thumb_pc_base(pc), (((instr & 0xff) as u32) * 4) as u32);
        (c.with_reg(reg3(instr, 8), b.read32(addr)), b)
    } else if instr <= 0x5fff {
        spec_thumb_load_store_reg(c, b, instr, pc)
    } else if instr <= 0x7fff {
        spec_thumb_load_store_imm(c, b, instr, pc)
    } else if instr <= 0x8fff {
        spec_thumb_load_store_half(c, b, instr, pc)
    } else if instr <= 0x9fff {
        spec_thumb_sp_relative(c, b, instr)
    } else if instr <= 0xafff {
        (spec_thumb_load_address(c, instr, pc), b)
    } else if instr <= 0xb0ff {
        let imm = ((instr & 0x7f) as u32) * 4;
        (
            c.with_reg(
                13,
                if instr & 0x80 != 0 {
                    wsub(c.r[13], imm as u32)
                } else {
                    wadd(c.r[13], imm as u32)
                },
            ),
            b,
        )
    } else if (0xb400 <= instr <= 0xb5ff) || (0xbc00 <= instr <= 0xbdff) {
        spec_thumb_push_pop(c, b, instr)
    } else if 0xc000 <= instr <= 0xcfff {
        spec_thumb_multiple(c, b, instr)
    } else if 0xd000 <= instr <= 0xdfff {
        (spec_thumb_cond_branch(c, instr, pc), b)
    } else if 0xe000 <= instr <= 0xe7ff {
        let off = spec_sign_extend((((instr & 0x7ff) as u32) * 2) as u32, 12);
        (c.with_reg(15, wadd(wadd(pc, 4), off as u32) & !1u32), b)
    } else if 0xf000 <= instr <= 0xf7ff {
        let off = spec_sign_extend(((instr & 0x7ff) as u32) << 12u32, 23);
        (c.with_reg(14, wadd(wadd(pc, 4), off as u32)), b)
    } else if 0xf800 <= instr {
        let target = wadd(c.r[14], (((instr & 0x7ff) as u32) * 2) as u32);
        (c.with_reg(14, wadd(pc, 2) | 1).branch(target | 1), b)
    } else {
        (c, b)
    }
}

proof fn lemma_fields(instr: u16)
    ensures
        instr & 7 < 8,
        (instr >> 3u16) & 7 < 8,
        (instr >> 6u16) & 7 < 8,
        (instr >> 8u16) & 7 < 8,
        (instr >> 6u16) & 0x1f < 32,
        (instr >> 11u16) & 3 < 4,
        (instr >> 6u16) & 0xf < 16,
        (instr >> 8u16) & 3 < 4,
        (instr >> 9u16) & 7 < 8,
        (instr >> 8u16) & 0xf < 16,
        instr & 0xff < 256,
        instr & 0x7f < 128,
        instr & 0x7ff < 2048,
        hi_rs(instr) < 16,
        hi_rd(instr) < 16,
{
    lemma_u16_and_le(instr, 7);
    lemma_u16_and_le(instr >> 3u16, 7);
    lemma_u16_and_le(instr >> 6u16, 7);
    lemma_u16_and_le(instr >> 8u16, 7);
    lemma_u16_and_le(instr >> 6u16, 0x1f);
    lemma_u16_and_le(instr >> 11u16, 3);
    lemma_u16_and_le(instr >> 6u16, 0xf);
    lemma_u16_and_le(instr >> 8u16, 3);
    lemma_u16_and_le(instr >> 9u16, 7);
    lemma_u16_and_le(instr >> 8u16, 0xf);
    lemma_u16_and_le(instr, 0xff);
    lemma_u16_and_le(instr, 0x7f);
    lemma_u16_and_le(instr, 0x7ff);
    assert(hi_rs(instr) < 16 && hi_rd(instr) < 16) by (bit_vector);
}

fn load_word_exec(bus: &Bus, addr: u32) -> (r: u32)
    requires
        bus.wf(),
    ensures
        r == load_word(bus@, addr),
{
    proof {
        crate::bits::lemma_u32_and_le(addr, 3);
    }
    rotate_right(bus.read32(addr), (addr & 3) * 8)
}

impl Cpu {
    pub fn thumb_shift(&mut self, instr: u16, pc: u32)
        requires
            old(self)@.wf(),
        ensures
            final(self)@.wf(),
            final(self)@ == spec_thumb_shift(old(self)@, instr, pc),
    {
        proof {
            lemma_fields(instr);
        }
        let op = (instr >> 11u16) & 3;
        let offset = ((instr >> 6u16) & 0x1f) as u32;
        let rs = ((instr >> 3u16) & 7) as usize;
        let rd = (instr & 7) as usize;
        let value = self.reg_thumb(rs, pc);
        let long = if offset == 0 {
            32
        } else {
            offset
        };
        let (result, carry) = if op == 0 {
            shift_lsl(value, offset, self.carry())
        } else if op == 1 {
            shift_lsr(value, long, self.carry())
        } else {
            shift_asr(value, long, self.carry())
        };
        let ghost c0 = self@;
        self.r[rd] = result;
        self.set_nz(result);
        self.set_c(carry);
        assert(self@ == spec_thumb_shift(c0, instr, pc));
    }

    pub fn thumb_add_sub(&mut self, instr: u16, pc: u32)
        requires
            old(self)@.wf(),
        ensures
            final(self)@.wf(),
            final(self)@ == spec_thumb_add_sub(old(self)@, instr, pc),
    {
        proof {
            lemma_fields(instr);
        }
        let rn = ((instr >> 6u16) & 7) as usize;
        let rs = ((instr >> 3u16) & 7) as usize;
        let rd = (instr & 7) as usize;
        let op2 = if instr & 0x0400 != 0 {
            rn as u32
        } else {
            self.reg_thumb(rn, pc)
        };
        let a = self.reg_thumb(rs, pc);
        let result = if instr & 0x0200 != 0 {
            let result = a.wrapping_sub(op2);
            self.set_sub_flags(a, op2, result);
            result
        } else {
            let result = a.wrapping_add(op2);
            self.set_add_flags(a, op2, result);
            result
        };
        self.r[rd] = result;
    }

    pub fn thumb_imm(&mut self, instr: u16)
        requires
            old(self)@.wf(),
        ensures
            final(self)@.wf(),
            final(self)@ == spec_thumb_imm(old(self)@, instr),
    {
        proof {
            lemma_fields(instr);
        }
        let op = (instr >> 11u16) & 3;
        let rd = ((instr >> 8u16) & 7) as usize;
        let imm = (instr & 0xff) as u32;
        let old = self.r[rd];
        if op == 0 {
            self.r[rd] = imm;
            self.set_nz(imm);
        } else if op == 1 {
            let result = old.wrapping_sub(imm);
            self.set_sub_flags(old, imm, result);
        } else if op == 2 {
            let result = old.wrapping_add(imm);
            self.r[rd] = result;
            self.set_add_flags(result.wrapping_sub(imm), imm, result);
        } else {
            let result = old.wrapping_sub(imm);
            self.r[rd] = result;
            self.set_sub_flags(old, imm, result);
        }
    }

    pub fn thumb_alu(&mut self, instr: u16)
        requires
            old(self)@.wf(),
        ensures
            final(self)@.wf(),
            final(self)@ == spec_thumb_alu(old(self)@, instr),
    {
        proof {
            lemma_fields(instr);
        }
        let op = (instr >> 6u16) & 0xf;
        let rs = ((instr >> 3u16) & 7) as usize;
        let rd = (instr & 7) as usize;
        let a = self.r[rd];
        let b = self.r[rs];
        let cy = self.carry();
        if op == 0x0 {
            self.r[rd] = a & b;
            self.set_nz(a & b);
        } else if op == 0x1 {
            self.r[rd] = a ^ b;
            self.set_nz(a ^ b);
        } else if op == 0x2 || op == 0x3 || op == 0x4 || op == 0x7 {
            let (result, carry) = if op == 0x2 {
                shift_lsl(a, b & 0xff, cy)
            } else if op == 0x3 {
                shift_lsr(a, b & 0xff, cy)
            } else if op == 0x4 {
                shift_asr(a, b & 0xff, cy)
            } else {
                shift_ror(a, b & 0xff, cy)
            };
            self.r[rd] = result;
            self.set_nz(result);
            self.set_c(carry);
        } else if op == 0x5 {
            let carry: u32 = if cy {
                1
            } else {
                0
            };
            let result = a.wrapping_add(b).wrapping_add(carry);
            self.r[rd] = result;
            self.set_adc_flags(a, b, carry, result);
        } else if op == 0x6 {
            let borrow: u32 = if cy {
                0
            } else {
                1
            };
            let result = a.wrapping_sub(b).wrapping_sub(borrow);
            self.r[rd] = result;
            self.set_sbc_flags(a, b, borrow, result);
        } else if op == 0x8 {
            self.set_nz(a & b);
        } else if op == 0x9 {
            let result = 0u32.wrapping_sub(b);
            self.r[rd] = result;
            self.set_sub_flags(0, b, result);
        } else if op == 0xa {
            self.set_sub_flags(a, b, a.wrapping_sub(b));
        } else if op == 0xb {
            self.set_add_flags(a, b, a.wrapping_add(b));
        } else if op == 0xc {
            self.r[rd] = a | b;
            self.set_nz(a | b);
        } else if op == 0xd {
            let p = a.wrapping_mul(b);
            self.r[rd] = p;
            self.set_nz(p);
        } else if op == 0xe {
            self.r[rd] = a & !b;
            self.set_nz(a & !b);
        } else {
            self.r[rd] = !b;
            self.set_nz(!b);
        }
    }

    pub fn thumb_hi(&mut self, instr: u16, pc: u32)
        requires
            old(self)@.wf(),
        ensures
            final(self)@.wf(),
            final(self)@ == spec_thumb_hi(old(self)@, instr, pc),
    {
        proof {
            lemma_fields(instr);
        }
        let op = (instr >> 8u16) & 3;
        let rs = (((instr >> 3u16) & 7) | ((instr >> 3u16) & 8)) as usize;
        let rd = ((instr & 7) | ((instr >> 4u16) & 8)) as usize;
        let a = self.reg_thumb(rd, pc);
        let b = self.reg_thumb(rs, pc);
        if op == 0 {
            self.write_reg_thumb(rd, a.wrapping_add(b));
        } else if op == 1 {
            self.set_sub_flags(a, b, a.wrapping_sub(b));
        } else if op == 2 {
            self.write_reg_thumb(rd, b);
        } else {
            self.branch_to(b);
        }
    }

    pub fn thumb_load_store_reg(&mut self, instr: u16, pc: u32, bus: &mut Bus)
        requires
            old(self)@.wf(),
            bus_ok(old(bus)@),
        ensures
            final(self)@.wf(),
            bus_ok(final(bus)@),
            store_frame(old(bus)@, final(bus)@),
            (final(self)@, final(bus)@) == spec_thumb_load_store_reg(
                old(self)@,
                old(bus)@,
                instr,
                pc,
            ),
    {
        proof {
            lemma_fields(instr);
        }
        let op = (instr >> 9u16) & 7;
        let ro = ((instr >> 6u16) & 7) as usize;
        let rb = ((instr >> 3u16) & 7) as usize;
        let rd = (instr & 7) as usize;
        let addr = self.reg_thumb(rb, pc).wrapping_add(self.reg_thumb(ro, pc));
        let v = self.r[rd];
        if op == 0 {
            bus.write32(addr, v);
        } else if op == 1 {
            bus.write16(addr, v as u16);
        } else if op == 2 {
            bus.write8(addr, v as u8);
        } else if op == 3 {
            self.r[rd] = bus.read8(addr) as i8 as i32 as u32;
        } else if op == 4 {
            self.r[rd] = load_word_exec(bus, addr);
        } else if op == 5 {
            self.r[rd] = bus.read16(addr) as u32;
        } else if op == 6 {
            self.r[rd] = bus.read8(addr) as u32;
        } else {
            self.r[rd] = bus.read16(addr) as i16 as i32 as u32;
        }
    }

    pub fn thumb_load_store_imm(&mut self, instr: u16, pc: u32, bus: &mut Bus)
        requires
            old(self)@.wf(),
            bus_ok(old(bus)@),
        ensures
            final(self)@.wf(),
            bus_ok(final(bus)@),
            store_frame(old(bus)@, final(bus)@),
            (final(self)@, final(bus)@) == spec_thumb_load_store_imm(
                old(self)@,
                old(bus)@,
                instr,
                pc,
            ),
    {
        proof {
            lemma_fields(instr);
        }
        let byte = instr & 0x1000 != 0;
        let rb = ((instr >> 3u16) & 7) as usize;
        let rd = (instr & 7) as usize;
        let field = ((instr >> 6u16) & 0x1f) as u32;
        let offset = if byte {
            field
        } else {
            field * 4
        };
        let addr = self.reg_thumb(rb, pc).wrapping_add(offset);
        if instr & 0x0800 != 0 {
            self.r[rd] = if byte {
                bus.read8(addr) as u32
            } else {
                load_word_exec(bus, addr)
            };
        } else if byte {
            bus.write8(addr, self.r[rd] as u8);
        } else {
            bus.write32(addr, self.r[rd]);
        }
    }

    pub fn thumb_load_store_half(&mut self, instr: u16, pc: u32, bus: &mut Bus)
        requires
            old(self)@.wf(),
            bus_ok(old(bus)@),
        ensures
            final(self)@.wf(),
            bus_ok(final(bus)@),
            store_frame(old(bus)@, final(bus)@),
            (final(self)@, final(bus)@) == spec_thumb_load_store_half(
                old(self)@,
                old(bus)@,
                instr,
                pc,
            ),
    {
        proof {
            lemma_fields(instr);
        }
        let rb = ((instr >> 3u16) & 7) as usize;
        let rd = (instr & 7) as usize;
        let offset = (((instr >> 6u16) & 0x1f) as u32) * 2;
        let addr = self.reg_thumb(rb, pc).wrapping_add(offset);
        if instr & 0x0800 != 0 {
            self.r[rd] = bus.read16(addr) as u32;
        } else {
            bus.write16(addr, self.r[rd] as u16);
        }
    }

    pub fn thumb_sp_relative(&mut self, instr: u16, bus: &mut Bus)
        requires
            old(self)@.wf(),
            bus_ok(old(bus)@),
        ensures
            final(self)@.wf(),
            bus_ok(final(bus)@),
            store_frame(old(bus)@, final(bus)@),
            (final(self)@, final(bus)@) == spec_thumb_sp_relative(old(self)@, old(bus)@, instr),
    {
        proof {
            lemma_fields(instr);
        }
        let rd = ((instr >> 8u16) & 7) as usize;
        let addr = self.r[13].wrapping_add(((instr & 0xff) as u32) * 4);
        if instr & 0x0800 != 0 {
            self.r[rd] = bus.read32(addr);
        } else {
            bus.write32(addr, self.r[rd]);
        }
    }

    pub fn thumb_load_address(&mut self, instr: u16, pc: u32)
        requires
            old(self)@.wf(),
        ensures
            final(self)@.wf(),
            final(self)@ == spec_thumb_load_address(old(self)@, instr, pc),
    {
        proof {
            lemma_fields(instr);
        }
        let rd = ((instr >> 8u16) & 7) as usize;
        let imm = ((instr & 0xff) as u32) * 4;
        self.r[rd] = if instr & 0x0800 != 0 {
            self.r[13].wrapping_add(imm)
        } else {
            (pc.wrapping_add(4) & !3u32).wrapping_add(imm)
        };
    }

    /// POP of the low registers in `list`.
    fn pop_list(&mut self, bus: &Bus, list: u16)
        requires
            old(self)@.wf(),
            bus_ok(bus@),
        ensures
            final(self)@.wf(),
            final(self)@ == pop_regs(old(self)@, bus@, list, 8),
    {
        let ghost c0 = self@;
        let mut reg: usize = 0;
        while reg < 8
            invariant
                reg <= 8,
                self@.wf(),
                self@ == pop_regs(c0, bus@, list, reg as nat),
                bus_ok(bus@),
            decreases 8 - reg,
        {
            if (list >> (reg as u16)) & 1 == 1 {
                self.r[reg] = bus.read32(self.r[13]);
                self.r[13] = self.r[13].wrapping_add(4);
            }
            reg = reg + 1;
        }
    }

    /// Stores of the low registers in `list` from `start`; returns the next
    /// address.
    fn store_list(&self, bus: &mut Bus, list: u16, start: u32) -> (next: u32)
        requires
            self@.wf(),
            bus_ok(old(bus)@),
        ensures
            bus_ok(final(bus)@),
            store_frame(old(bus)@, final(bus)@),
            (final(bus)@, next) == store_regs(self@, old(bus)@, list, start, 8),
    {
        let ghost b0 = bus@;
        let mut addr = start;
        let mut reg: usize = 0;
        while reg < 8
            invariant
                reg <= 8,
                self@.wf(),
                (bus@, addr) == store_regs(self@, b0, list, start, reg as nat),
                bus_ok(bus@),
                store_frame(b0, bus@),
            decreases 8 - reg,
        {
            if (list >> (reg as u16)) & 1 == 1 {
                bus.write32(addr, self.r[reg]);
                addr = addr.wrapping_add(4);
            }
            reg = reg + 1;
        }
        addr
    }

    /// Loads of the low registers in `list` from `start`; returns the next
    /// address.
    fn load_list(&mut self, bus: &Bus, list: u16, start: u32) -> (next: u32)
        requires
            old(self)@.wf(),
            bus_ok(bus@),
        ensures
            final(self)@.wf(),
            (final(self)@, next) == load_regs(old(self)@, bus@, list, start, 8),
    {
        let ghost c0 = self@;
        let mut addr = start;
        let mut reg: usize = 0;
        while reg < 8
            invariant
                reg <= 8,
                self@.wf(),
                (self@, addr) == load_regs(c0, bus@, list, start, reg as nat),
                bus_ok(bus@),
            decreases 8 - reg,
        {
            if (list >> (reg as u16)) & 1 == 1 {
                self.r[reg] = bus.read32(addr);
                addr = addr.wrapping_add(4);
            }
            reg = reg + 1;
        }
        addr
    }

    pub fn thumb_push_pop(&mut self, instr: u16, bus: &mut Bus)
        requires
            old(self)@.wf(),
            bus_ok(old(bus)@),
        ensures
            final(self)@.wf(),
            bus_ok(final(bus)@),
            store_frame(old(bus)@, final(bus)@),
            (final(self)@, final(bus)@) == spec_thumb_push_pop(old(self)@, old(bus)@, instr),
    {
        let extra = instr & 0x0100 != 0;
        let list = instr & 0xff;
        if instr & 0x0800 != 0 {
            self.pop_list(bus, list);
            if extra {
                let value = bus.read32(self.r[13]);
                self.r[13] = self.r[13].wrapping_add(4);
                self.branch_to(value);
            }
        } else {
            proof {
                lemma_u16_and_le(instr, 0xff);
            }
            let ones = crate::cpu_arm::count_ones8(list as u32);
            let count = if extra {
                ones + 1
            } else {
                ones
            };
            self.r[13] = self.r[13].wrapping_sub(4 * count);
            let addr = self.store_list(bus, list, self.r[13]);
            if extra {
                bus.write32(addr, self.r[14]);
            }
        }
    }

    pub fn thumb_multiple(&mut self, instr: u16, bus: &mut Bus)
        requires
            old(self)@.wf(),
            bus_ok(old(bus)@),
        ensures
            final(self)@.wf(),
            bus_ok(final(bus)@),
            store_frame(old(bus)@, final(bus)@),
            (final(self)@, final(bus)@) == spec_thumb_multiple(old(self)@, old(bus)@, instr),
    {
        proof {
            lemma_fields(instr);
        }
        let rb = ((instr >> 8u16) & 7) as usize;
        let list = instr & 0xff;
        let start = self.r[rb];
        let addr = if instr & 0x0800 != 0 {
            self.load_list(bus, list, start)
        } else {
            self.store_list(bus, list, start)
        };
        self.r[rb] = addr;
    }

    /// Executes Thumb instruction `instr` fetched from `pc`.
    pub fn execute_thumb<H: Host>(&mut self, instr: u16, pc: u32, bus: &mut Bus, host: &H)
        requires
            old(self)@.wf(),
            bus_ok(old(bus)@),
        ensures
            final(self)@.wf(),
            bus_ok(final(bus)@),
            store_frame(old(bus)@, final(bus)@),
            !is_thumb_swi(instr) ==> (final(self)@, final(bus)@) == spec_execute_thumb(
                old(self)@,
                old(bus)@,
                instr,
                pc,
            ),
            is_thumb_swi(instr) ==> swi_effect(
                (instr & 0xff) as u8,
                old(self)@,
                old(bus)@,
                final(self)@,
                final(bus)@,
            ),
    {
        proof {
            lemma_fields(instr);
        }
        if instr <= 0x17ff {
            self.thumb_shift(instr, pc);
        } else if instr <= 0x1fff {
            self.thumb_add_sub(instr, pc);
        } else if instr <= 0x3fff {
            self.thumb_imm(instr);
        } else if instr <= 0x43ff {
            self.thumb_alu(instr);
        } else if instr <= 0x47ff {
            self.thumb_hi(instr, pc);
        } else if instr <= 0x4fff {
            let rd = ((instr >> 8u16) & 7) as usize;
            let addr = (pc.wrapping_add(4) & !3u32).wrapping_add(((instr & 0xff) as u32) * 4);
            self.r[rd] = bus.read32(addr);
        } else if instr <= 0x5fff {
            self.thumb_load_store_reg(instr, pc, bus);
        } else if instr <= 0x7fff {
            self.thumb_load_store_imm(instr, pc, bus);
        } else if instr <= 0x8fff {
            self.thumb_load_store_half(instr, pc, bus);
        } else if instr <= 0x9fff {
            self.thumb_sp_relative(instr, bus);
        } else if instr <= 0xafff {
            self.thumb_load_address(instr, pc);
        } else if instr <= 0xb0ff {
            let imm = ((instr & 0x7f) as u32) * 4;
            if instr & 0x80 != 0 {
                self.r[13] = self.r[13].wrapping_sub(imm);
            } else {
                self.r[13] = self.r[13].wrapping_add(imm);
            }
        } else if (0xb400 <= instr && instr <= 0xb5ff) || (0xbc00 <= instr && instr <= 0xbdff) {
            self.thumb_push_pop(instr, bus);
        } else if 0xc000 <= instr && instr <= 0xcfff {
            self.thumb_multiple(instr, bus);
        } else if 0xd000 <= instr && instr <= 0xdfff {
            let op = ((instr >> 8u16) & 0xf) as u8;
            if op == 0xf {
                crate::bios::handle_swi((instr & 0xff) as u8, self, bus, host);
            } else if op != 0xe && self.condition(op) {
                let off = sign_extend(((instr & 0xff) as u32) * 2, 9);
                self.r[15] = pc.wrapping_add(4).wrapping_add(off as u32) & !1u32;
            }
        } else if 0xe000 <= instr && instr <= 0xe7ff {
            let off = sign_extend(((instr & 0x7ff) as u32) * 2, 12);
            self.r[15] = pc.wrapping_add(4).wrapping_add(off as u32) & !1u32;
        } else if 0xf000 <= instr && instr <= 0xf7ff {
            let off = sign_extend(((instr & 0x7ff) as u32) << 12u32, 23);
            self.r[14] = pc.wrapping_add(4).wrapping_add(off as u32);
        } else if 0xf800 <= instr {
            let target = self.r[14].wrapping_add(((instr & 0x7ff) as u32) * 2);
            self.r[14] = pc.wrapping_add(2) | 1;
            self.branch_to(target | 1);
        }
    }
}

} // verus!
