//! ARM (32-bit) instruction set: operand shifter, data processing, loads and
//! stores, block transfers, multiplies, status register access and branches.

use vstd::prelude::*;
use crate::alu::{
    FLAG_C,
    FLAG_N,
    spec_rotate_right,
    spec_shift_lsl,
    spec_shift_lsr,
    spec_shift_asr,
    spec_shift_ror,
    spec_sign_extend,
    with_flag,
    flags_nz,
    flags_nz64,
    flags_add,
    flags_adc,
    flags_sub,
    flags_sbc,
    rotate_right,
    shift_lsl,
    shift_lsr,
    shift_asr,
    shift_ror,
    sign_extend,
};
use crate::bus::{Bus, BusView, DMA_NEST_LIMIT, store_frame, timers_ok, ram_word, ram_store, ram_base, ram_size, ram_of, with_ram, lemma_ram_store, lemma_ram_read};
use crate::cpu::{Cpu, CpuView, wadd, wsub, bus_ok};
use crate::host::Host;
use crate::bios::swi_effect;

verus! {

/// Number of set bits among the low `n` bits of `list`.
pub open spec fn popcount(list: u32, n: nat) -> nat
    decreases n,
{
    if n == 0 {
        0
    } else {
        popcount(list, (n - 1) as nat) + if (list >> ((n - 1) as u32)) & 1 == 1 {
            1nat
        } else {
            0nat
        }
    }
}

pub fn count_ones16(list: u32) -> (r: u32)
    ensures
        r == popcount(list, 16),
        r <= 16,
{
    let mut count: u32 = 0;
    let mut i: u32 = 0;
    while i < 16
        invariant
            i <= 16,
            count == popcount(list, i as nat),
            count <= i,
        decreases 16 - i,
    {
        if (list >> i) & 1 == 1 {
            count = count + 1;
        }
        i = i + 1;
    }
    count
}

pub fn count_ones8(list: u32) -> (r: u32)
    ensures
        r == popcount(list, 8),
        r <= 8,
{
    let mut count: u32 = 0;
    let mut i: u32 = 0;
    while i < 8
        invariant
            i <= 8,
            count == popcount(list, i as nat),
            count <= i,
        decreases 8 - i,
    {
        if (list >> i) & 1 == 1 {
            count = count + 1;
        }
        i = i + 1;
    }
    count
}

/// The second operand of a data-processing instruction and the shifter
/// carry-out.
pub open spec fn spec_operand2(c: CpuView, instr: u32, pc: u32) -> (u32, bool) {
    if instr & 0x0200_0000 != 0 {
        let imm = instr & 0xff;
        let rot = ((instr >> 8u32) & 0xf) * 2;
        if rot == 0 {
            (imm, c.carry())
        } else {
            let value = spec_rotate_right(imm, rot as u32);
            (value, value & FLAG_N != 0)
        }
    } else {
        let value = c.reg_arm((instr & 0xf) as int, pc);
        let shift_type = (instr >> 5u32) & 3;
        let reg_shift = instr & 0x10 != 0;
        let amount = if reg_shift {
            c.reg_arm(((instr >> 8u32) & 0xf) as int, pc) & 0xff
        } else {
            (instr >> 7u32) & 0x1f
        };
        if reg_shift && amount == 0 {
            (value, c.carry())
        } else if shift_type == 0 {
            spec_shift_lsl(value, amount, c.carry())
        } else if shift_type == 1 {
            spec_shift_lsr(
                value,
                if amount == 0 {
                    32
                } else {
                    amount
                },
                c.carry(),
            )
        } else if shift_type == 2 {
            spec_shift_asr(
                value,
                if amount == 0 {
                    32
                } else {
                    amount
                },
                c.carry(),
            )
        } else if amount == 0 {
            (
                (value >> 1u32) | if c.carry() {
                    0x8000_0000u32
                } else {
                    0
                },
                value & 1 != 0,
            )
        } else {
            spec_shift_ror(value, amount, c.carry())
        }
    }
}

/// Result of data-processing opcode `op` on `a` and `b` with carry `c`.
pub open spec fn dp_result(op: u32, a: u32, b: u32, c: bool) -> u32 {
    let carry: u32 = if c {
        1
    } else {
        0
    };
    let borrow: u32 = if c {
        0
    } else {
        1
    };
    if op == 0x0 || op == 0x8 {
        a & b
    } else if op == 0x1 || op == 0x9 {
        a ^ b
    } else if op == 0x2 || op == 0xa {
        wsub(a, b)
    } else if op == 0x3 {
        wsub(b, a)
    } else if op == 0x4 || op == 0xb {
        wadd(a, b)
    } else if op == 0x5 {
        wadd(wadd(a, b), carry)
    } else if op == 0x6 {
        wsub(wsub(a, b), borrow)
    } else if op == 0x7 {
        wsub(wsub(b, a), borrow)
    } else if op == 0xc {
        a | b
    } else if op == 0xd {
        b
    } else if op == 0xe {
        a & !b
    } else {
        !b
    }
}

/// Program status after data-processing opcode `op`.
pub open spec fn dp_cpsr(
    cpsr: u32,
    op: u32,
    set_flags: bool,
    a: u32,
    b: u32,
    result: u32,
    sh_carry: bool,
) -> u32 {
    let c = cpsr & FLAG_C != 0;
    let carry: u32 = if c {
        1
    } else {
        0
    };
    let borrow: u32 = if c {
        0
    } else {
        1
    };
    let logical = with_flag(flags_nz(cpsr, result), FLAG_C, sh_carry);
    if op == 0x8 || op == 0x9 {
        logical
    } else if op == 0xa {
        flags_sub(cpsr, a, b, result)
    } else if op == 0xb {
        flags_add(cpsr, a, b, result)
    } else if !set_flags {
        cpsr
    } else if op == 0x2 {
        flags_sub(cpsr, a, b, result)
    } else if op == 0x3 {
        flags_sub(cpsr, b, a, result)
    } else if op == 0x4 {
        flags_add(cpsr, a, b, result)
    } else if op == 0x5 {
        flags_adc(cpsr, a, b, carry, result)
    } else if op == 0x6 {
        flags_sbc(cpsr, a, b, borrow, result)
    } else if op == 0x7 {
        flags_sbc(cpsr, b, a, borrow, result)
    } else {
        logical
    }
}

/// The core after an ARM data-processing instruction.
pub open spec fn spec_arm_data_processing(c: CpuView, instr: u32, pc: u32) -> CpuView {
    let op = (instr >> 21u32) & 0xf;
    let set_flags = instr & 0x0010_0000 != 0;
    let rn = ((instr >> 16u32) & 0xf) as int;
    let rd = ((instr >> 12u32) & 0xf) as int;
    let (op2, sh_carry) = spec_operand2(c, instr, pc);
    let a = c.reg_arm(rn, pc);
    let result = dp_result(op, a, op2, c.carry());
    let c1 = c.with_cpsr(dp_cpsr(c.cpsr, op, set_flags, a, op2, result, sh_carry));
    if 0x8 <= op <= 0xb {
        c1
    } else {
        c1.write_reg_arm(rd, result)
    }
}

/// The core after an ARM branch, with link when bit 24 is set.
pub open spec fn spec_arm_branch(c: CpuView, instr: u32, pc: u32) -> CpuView {
    let c1 = if instr & 0x0100_0000 != 0 {
        c.with_reg(14, wadd(pc, 4))
    } else {
        c
    };
    let off = spec_sign_extend((instr & 0x00ff_ffff) << 2u32, 26);
    c1.with_reg(15, wadd(wadd(pc, 8), off as u32) & !3u32)
}

/// Address and written-back base of a load/store with base `base` and
/// offset `offset`.
pub open spec fn xfer_addr(instr: u32, base: u32, offset: u32) -> (u32, u32) {
    let up = instr & 0x0080_0000 != 0;
    let pre = instr & 0x0100_0000 != 0;
    let offset_base = if up {
        wadd(base, offset)
    } else {
        wsub(base, offset)
    };
    (
        if pre {
            offset_base
        } else {
            base
        },
        offset_base,
    )
}

pub open spec fn writes_back(instr: u32) -> bool {
    instr & 0x0100_0000 == 0 || instr & 0x0020_0000 != 0
}

/// An ARM single data transfer (LDR, STR, LDRB, STRB).
pub open spec fn spec_arm_single_transfer(c: CpuView, b: BusView, instr: u32, pc: u32) -> (
    CpuView,
    BusView,
) {
    let rn = ((instr >> 16u32) & 0xf) as int;
    let rd = ((instr >> 12u32) & 0xf) as int;
    let base = c.reg_arm(rn, pc);
    let offset = if instr & 0x0200_0000 != 0 {
        spec_operand2(c, instr, pc).0
    } else {
        instr & 0xfff
    };
    let (addr, offset_base) = xfer_addr(instr, base, offset);
    let load = instr & 0x0010_0000 != 0;
    let byte = instr & 0x0040_0000 != 0;
    let (c1, b1) = if load {
        let value = if byte {
            b.read8(addr) as u32
        } else {
            spec_rotate_right(b.read32(addr), ((addr & 3) * 8) as u32)
        };
        (c.write_reg_arm(rd, value), b)
    } else {
        let value = c.reg_arm(rd, pc);
        (
            c,
            if byte {
                b.write8(addr, value as u8, DMA_NEST_LIMIT as nat)
            } else {
                b.write32(addr, value, DMA_NEST_LIMIT as nat)
            },
        )
    };
    if writes_back(instr) {
        (c1.with_reg(rn, offset_base), b1)
    } else {
        (c1, b1)
    }
}

/// An ARM halfword or signed transfer (LDRH, STRH, LDRSB, LDRSH).
pub open spec fn spec_arm_halfword_transfer(c: CpuView, b: BusView, instr: u32, pc: u32) -> (
    CpuView,
    BusView,
) {
    let rn = ((instr >> 16u32) & 0xf) as int;
    let rd = ((instr >> 12u32) & 0xf) as int;
    let base = c.reg_arm(rn, pc);
    let offset = if instr & 0x0040_0000 != 0 {
        ((instr >> 4u32) & 0xf0) | (instr & 0xf)
    } else {
        c.reg_arm((instr & 0xf) as int, pc)
    };
    let (addr, offset_base) = xfer_addr(instr, base, offset);
    let load = instr & 0x0010_0000 != 0;
    let kind = (instr >> 5u32) & 3;
    let (c1, b1) = if load {
        (c.write_reg_arm(rd, halfword_load(b, addr, kind)), b)
    } else if kind == 1 {
        (c, b.write16(addr, c.reg_arm(rd, pc) as u16, DMA_NEST_LIMIT as nat))
    } else {
        (c, b)
    };
    if writes_back(instr) {
        (c1.with_reg(rn, offset_base), b1)
    } else {
        (c1, b1)
    }
}

/// The value a halfword-transfer load of `kind` (1: unsigned halfword,
/// 2: signed byte, 3: signed halfword) reads from `addr`.
pub open spec fn halfword_load(b: BusView, addr: u32, kind: u32) -> u32 {
    if kind == 1 {
        b.read16(addr) as u32
    } else if kind == 2 {
        b.read8(addr) as i8 as i32 as u32
    } else if kind == 3 {
        b.read16(addr) as i16 as i32 as u32
    } else {
        0
    }
}

/// Loads of the registers among the low `k` of `list` from consecutive words
/// from `addr`; returns the core and the next address.
pub open spec fn ldm_regs(c: CpuView, b: BusView, list: u32, addr: u32, k: nat) -> (CpuView, u32)
    decreases k,
{
    if k == 0 {
        (c, addr)
    } else {
        let (c1, a1) = ldm_regs(c, b, list, addr, (k - 1) as nat);
        let reg = k - 1;
        if (list >> (reg as u32)) & 1 == 1 {
            let value = b.read32(a1);
            (
                if reg == 15 {
                    c1.branch(value)
                } else {
                    c1.with_reg(reg, value)
                },
                wadd(a1, 4),
            )
        } else {
            (c1, a1)
        }
    }
}

/// Stores of the registers among the low `k` of `list` to consecutive words
/// from `addr`; returns the bus and the next address.
pub open spec fn stm_regs(
    c: CpuView,
    b: BusView,
    list: u32,
    addr: u32,
    pc: u32,
    k: nat,
) -> (BusView, u32)
    decreases k,
{
    if k == 0 {
        (b, addr)
    } else {
        let (b1, a1) = stm_regs(c, b, list, addr, pc, (k - 1) as nat);
        let reg = k - 1;
        if (list >> (reg as u32)) & 1 == 1 {
            (b1.write32(a1, c.reg_arm(reg, pc), DMA_NEST_LIMIT as nat), wadd(a1, 4))
        } else {
            (b1, a1)
        }
    }
}

/// First address and written-back base of a block transfer.
pub open spec fn block_addrs(instr: u32, base: u32) -> (u32, u32) {
    let list = instr & 0xffff;
    let pc_count = popcount(list, 16);
    let count: u32 = if pc_count == 0 {
        1
    } else {
        pc_count as u32
    };
    let pre = instr & 0x0100_0000 != 0;
    let up = instr & 0x0080_0000 != 0;
    let start = if up && !pre {
        base
    } else if up && pre {
        wadd(base, 4)
    } else if !up && !pre {
        wsub(base, (4 * (count - 1)) as u32)
    } else {
        wsub(base, (4 * count) as u32)
    };
    let final_base = if up {
        wadd(base, (4 * count) as u32)
    } else {
        wsub(base, (4 * count) as u32)
    };
    (start, final_base)
}

/// An ARM block data transfer (LDM, STM).
pub open spec fn spec_arm_block_transfer(c: CpuView, b: BusView, instr: u32, pc: u32) -> (
    CpuView,
    BusView,
) {
    let rn = ((instr >> 16u32) & 0xf) as int;
    let list = instr & 0xffff;
    let load = instr & 0x0010_0000 != 0;
    let (start, final_base) = block_addrs(instr, c.r[rn]);
    let (c1, b1) = if list == 0 {
        if load {
            (c.write_reg_arm(15, b.read32(start)), b)
        } else {
            (c, b.write32(start, c.reg_arm(15, pc), DMA_NEST_LIMIT as nat))
        }
    } else if load {
        (ldm_regs(c, b, list, start, 16).0, b)
    } else {
        (c, stm_regs(c, b, list, start, pc, 16).0)
    };
    if instr & 0x0020_0000 != 0 {
        (c1.with_reg(rn, final_base), b1)
    } else {
        (c1, b1)
    }
}

/// Counting set bits over more positions counts no fewer.
proof fn lemma_popcount_mono(list: u32, j: nat, k: nat)
    requires
        j <= k,
    ensures
        popcount(list, j) <= popcount(list, k),
    decreases k,
{
    if j < k {
        lemma_popcount_mono(list, j, (k - 1) as nat);
    }
}

/// Storing the listed registers to a work RAM: the stores go to consecutive
/// words from `start`, register `j` to the word after those of the listed
/// registers below it, and only that RAM changes.
proof fn lemma_stm_ram(c: CpuView, b: BusView, iw: bool, list: u32, start: u32, pc: u32, k: nat)
    requires
        b.wf(),
        k <= 16,
        (list >> 15u32) & 1 == 0,
        start & 3 == 0,
        ram_base(iw) <= start,
        start + 4 * popcount(list, 16) <= ram_base(iw) + ram_size(iw),
    ensures
        ({
            let (bk, ak) = stm_regs(c, b, list, start, pc, k);
            &&& ak == start + 4 * popcount(list, k)
            &&& bk == with_ram(b, iw, ram_of(bk, iw))
            &&& ram_of(bk, iw).len() == ram_of(b, iw).len()
            &&& forall|j: nat|
                j < k && (list >> (j as u32)) & 1 == 1 ==> ram_word(
                    ram_of(bk, iw),
                    start - ram_base(iw) + 4 * popcount(list, j),
                ) == c.r[j as int]
        }),
    decreases k,
{
    lemma_popcount_mono(list, k, 16);
    if k > 0 {
        lemma_stm_ram(c, b, iw, list, start, pc, (k - 1) as nat);
        let (b1, a1) = stm_regs(c, b, list, start, pc, (k - 1) as nat);
        let reg = (k - 1) as nat;
        if (list >> (reg as u32)) & 1 == 1 {
            assert(reg != 15);
            assert(a1 + 4 <= ram_base(iw) + ram_size(iw));
            assert(a1 & 3 == 0) by {
                crate::bits::lemma_u32_mod4(start);
                crate::bits::lemma_u32_mod4(a1);
            }
            assert(b1.wf());
            lemma_ram_store(b1, iw, a1, c.r[reg as int], DMA_NEST_LIMIT as nat);
            assert(wadd(a1, 4) == a1 + 4);
            let e1 = ram_store(ram_of(b1, iw), a1 - ram_base(iw), c.r[reg as int]);
            assert forall|j: nat| j < k && (list >> (j as u32)) & 1 == 1 implies ram_word(
                e1,
                start - ram_base(iw) + 4 * popcount(list, j),
            ) == c.r[j as int] by {
                if j < reg {
                    lemma_popcount_mono(list, j + 1, reg);
                    let o = start - ram_base(iw) + 4 * popcount(list, j);
                    assert(ram_word(e1, o) == ram_word(ram_of(b1, iw), o));
                }
            }
        } else {
            assert forall|j: nat| j < k && (list >> (j as u32)) & 1 == 1 implies ram_word(
                ram_of(b1, iw),
                start - ram_base(iw) + 4 * popcount(list, j),
            ) == c.r[j as int] by {
                assert(j != reg);
            }
        }
    }
}

/// Loading the listed registers: register `j` gets the word after those of
/// the listed registers below it, the others keep their values.
proof fn lemma_ldm_regs(c: CpuView, b: BusView, list: u32, start: u32, k: nat)
    requires
        c.wf(),
        k <= 16,
        (list >> 15u32) & 1 == 0,
        start + 4 * popcount(list, 16) < 0x1_0000_0000,
    ensures
        ({
            let (ck, ak) = ldm_regs(c, b, list, start, k);
            &&& ak == start + 4 * popcount(list, k)
            &&& ck == (CpuView { r: ck.r, ..c })
            &&& ck.r.len() == 16
            &&& forall|j: int|
                0 <= j < 16 ==> #[trigger] ck.r[j] == if j < k && (list >> (j as u32)) & 1 == 1 {
                    b.read32((start + 4 * popcount(list, j as nat)) as u32)
                } else {
                    c.r[j]
                }
        }),
    decreases k,
{
    lemma_popcount_mono(list, k, 16);
    if k > 0 {
        lemma_ldm_regs(c, b, list, start, (k - 1) as nat);
        let (c1, a1) = ldm_regs(c, b, list, start, (k - 1) as nat);
        let reg = (k - 1) as nat;
        if (list >> (reg as u32)) & 1 == 1 {
            assert(reg != 15);
            assert(a1 + 4 < 0x1_0000_0000);
            assert(wadd(a1, 4) == a1 + 4);
        }
    }
}

/// Pushing registers with STMDB and popping them with LDMIA brings them
/// back: after `STMDB r13!, list` the stack pointer has moved down one word
/// per listed register and the k-th lowest listed register is stored at the
/// k-th word from it; whatever the registers hold in between, `LDMIA r13!,
/// list` then restores every listed register and the stack pointer. The
/// list leaves out the stack pointer and the program counter, and the stack
/// words lie in the first image of EWRAM or of IWRAM.
pub proof fn law_push_pop_restores(c: CpuView, b: BusView, cm: CpuView, list: u32, pc: u32)
    requires
        c.wf(),
        cm.wf(),
        b.wf(),
        0 < list < 0x1_0000,
        list & 0xa000 == 0,
        c.r[13] & 3 == 0,
        0x0200_0000 + 4 * popcount(list, 16) <= c.r[13] <= 0x0204_0000 || 0x0300_0000 + 4
            * popcount(list, 16) <= c.r[13] <= 0x0300_8000,
        cm.r[13] == spec_arm_block_transfer(c, b, 0xe92d_0000 | list, pc).0.r[13],
    ensures
        ({
            let sp = c.r[13];
            let n = popcount(list, 16);
            let (c1, b1) = spec_arm_block_transfer(c, b, 0xe92d_0000 | list, pc);
            let c2 = spec_arm_block_transfer(cm, b1, 0xe8bd_0000 | list, pc).0;
            &&& c1.r[13] == sp - 4 * n
            &&& forall|j: int|
                0 <= j < 16 && (list >> (j as u32)) & 1 == 1 ==> b1.read32(
                    (sp - 4 * n + 4 * popcount(list, j as nat)) as u32,
                ) == c.r[j]
            &&& c2.r[13] == sp
            &&& forall|j: int|
                0 <= j < 16 && (list >> (j as u32)) & 1 == 1 ==> #[trigger] c2.r[j] == c.r[j]
        }),
{
    let sp = c.r[13];
    let n = popcount(list, 16);
    let push = 0xe92d_0000 | list;
    let pop = 0xe8bd_0000 | list;
    assert(push & 0xffff == list && (push >> 16u32) & 0xf == 13 && push & 0x0010_0000 == 0
        && push & 0x0020_0000 != 0 && push & 0x0100_0000 != 0 && push & 0x0080_0000 == 0 && pop
        & 0xffff == list && (pop >> 16u32) & 0xf == 13 && pop & 0x0010_0000 != 0 && pop
        & 0x0020_0000 != 0 && pop & 0x0100_0000 == 0 && pop & 0x0080_0000 != 0 && (list >> 15u32)
        & 1 == 0 && (list >> 13u32) & 1 == 0) by (bit_vector)
        requires
            push == 0xe92d_0000 | list,
            pop == 0xe8bd_0000 | list,
            list < 0x1_0000,
            list & 0xa000 == 0,
    ;
    lemma_popcount_mono(list, 0, 16);
    assert(n > 0) by {
        if n == 0 {
            reveal_with_fuel(popcount, 17);
            assert(list >> 0u32 & 1 != 1 && list >> 1u32 & 1 != 1 && list >> 2u32 & 1 != 1
                && list >> 3u32 & 1 != 1 && list >> 4u32 & 1 != 1 && list >> 5u32 & 1 != 1
                && list >> 6u32 & 1 != 1 && list >> 7u32 & 1 != 1 && list >> 8u32 & 1 != 1
                && list >> 9u32 & 1 != 1 && list >> 10u32 & 1 != 1 && list >> 11u32 & 1 != 1
                && list >> 12u32 & 1 != 1 && list >> 13u32 & 1 != 1 && list >> 14u32 & 1 != 1
                && list >> 15u32 & 1 != 1);
            assert(list == 0) by (bit_vector)
                requires
                    list < 0x1_0000,
                    list >> 0u32 & 1 != 1 && list >> 1u32 & 1 != 1 && list >> 2u32 & 1 != 1
                        && list >> 3u32 & 1 != 1 && list >> 4u32 & 1 != 1 && list >> 5u32 & 1 != 1
                        && list >> 6u32 & 1 != 1 && list >> 7u32 & 1 != 1 && list >> 8u32 & 1
                        != 1 && list >> 9u32 & 1 != 1 && list >> 10u32 & 1 != 1 && list >> 11u32
                        & 1 != 1 && list >> 12u32 & 1 != 1 && list >> 13u32 & 1 != 1 && list
                        >> 14u32 & 1 != 1 && list >> 15u32 & 1 != 1,
            ;
        }
    }
    let start = (sp - 4 * n) as u32;
    assert(block_addrs(push, sp) == (start, start));
    assert(block_addrs(pop, start) == (start, sp));
    crate::bits::lemma_u32_mod4(sp);
    crate::bits::lemma_u32_mod4(start);
    let iw = c.r[13] >= 0x0300_0000;
    lemma_stm_ram(c, b, iw, list, start, pc, 16);
    let b1 = stm_regs(c, b, list, start, pc, 16).0;
    let c1 = spec_arm_block_transfer(c, b, push, pc).0;
    assert(spec_arm_block_transfer(c, b, push, pc).1 == b1);
    assert(c1 == c.with_reg(13, start));
    assert forall|j: int| 0 <= j < 16 && (list >> (j as u32)) & 1 == 1 implies b1.read32(
        (sp - 4 * n + 4 * popcount(list, j as nat)) as u32,
    ) == c.r[j] by {
        let x = (start + 4 * popcount(list, j as nat)) as u32;
        lemma_popcount_mono(list, (j + 1) as nat, 16);
        crate::bits::lemma_u32_mod4(x);
        lemma_ram_read(b1, iw, x);
    }
    lemma_ldm_regs(cm, b1, list, start, 16);
    assert forall|j: int| 0 <= j < 16 && (list >> (j as u32)) & 1 == 1 implies #[trigger] spec_arm_block_transfer(
        cm,
        b1,
        pop,
        pc,
    ).0.r[j] == c.r[j] by {
        assert(j != 13);
        let x = (start + 4 * popcount(list, j as nat)) as u32;
        assert(b1.read32(x) == c.r[j]);
    }
}

/// MUL and MLA.
pub open spec fn spec_arm_multiply(c: CpuView, instr: u32, pc: u32) -> CpuView {
    let rd = ((instr >> 16u32) & 0xf) as int;
    let rn = ((instr >> 12u32) & 0xf) as int;
    let rs = ((instr >> 8u32) & 0xf) as int;
    let rm = (instr & 0xf) as int;
    let product = vstd::wrapping::u32_specs::wrapping_mul(c.reg_arm(rm, pc), c.reg_arm(rs, pc));
    let result = if instr & 0x0020_0000 != 0 {
        wadd(product, c.reg_arm(rn, pc))
    } else {
        product
    };
    let c1 = c.write_reg_arm(rd, result);
    if instr & 0x0010_0000 != 0 {
        c1.with_cpsr(flags_nz(c1.cpsr, result))
    } else {
        c1
    }
}

/// The 64-bit product of UMULL/SMULL (before accumulation).
pub open spec fn long_product(signed: bool, m: u32, s: u32) -> u64 {
    if signed {
        vstd::wrapping::i64_specs::wrapping_mul(m as i32 as i64, s as i32 as i64) as u64
    } else {
        vstd::wrapping::u64_specs::wrapping_mul(m as u64, s as u64)
    }
}

/// UMULL, UMLAL, SMULL and SMLAL.
pub open spec fn spec_arm_multiply_long(c: CpuView, instr: u32, pc: u32) -> CpuView {
    let rd_hi = ((instr >> 16u32) & 0xf) as int;
    let rd_lo = ((instr >> 12u32) & 0xf) as int;
    let rs = ((instr >> 8u32) & 0xf) as int;
    let rm = (instr & 0xf) as int;
    let product = long_product(instr & 0x0040_0000 != 0, c.reg_arm(rm, pc), c.reg_arm(rs, pc));
    let result = if instr & 0x0020_0000 != 0 {
        vstd::wrapping::u64_specs::wrapping_add(
            product,
            ((c.r[rd_hi] as u64) << 32u64) | (c.r[rd_lo] as u64),
        )
    } else {
        product
    };
    let c1 = c.with_reg(rd_lo, result as u32).with_reg(rd_hi, (result >> 32u64) as u32);
    if instr & 0x0010_0000 != 0 {
        c1.with_cpsr(flags_nz64(c1.cpsr, result))
    } else {
        c1
    }
}

pub open spec fn is_mrs(instr: u32) -> bool {
    instr & 0x0fbf_0fff == 0x010f_0000
}

pub open spec fn is_msr(instr: u32) -> bool {
    instr & 0x0db0_f000 == 0x0120_f000 || instr & 0x0db0_f000 == 0x0320_f000
}

/// MRS and MSR on the current program status register.
pub open spec fn spec_arm_psr(c: CpuView, instr: u32, pc: u32) -> CpuView {
    if is_mrs(instr) {
        c.with_reg(((instr >> 12u32) & 0xf) as int, c.cpsr)
    } else {
        let fields = (instr >> 16u32) & 0xf;
        let value = if instr & 0x0db0_f000 == 0x0320_f000 {
            spec_rotate_right(instr & 0xff, (((instr >> 8u32) & 0xf) * 2) as u32)
        } else {
            c.reg_arm((instr & 0xf) as int, pc)
        };
        let mask = (if fields & 1 != 0 {
            0x0000_00ffu32
        } else {
            0
        }) | (if fields & 8 != 0 {
            0xff00_0000u32
        } else {
            0
        });
        c.with_cpsr((c.cpsr & !mask) | (value & mask))
    }
}

pub open spec fn is_bx(instr: u32) -> bool {
    instr & 0x0fff_fff0 == 0x012f_ff10
}

pub open spec fn is_swi(instr: u32) -> bool {
    instr & 0x0f00_0000 == 0x0f00_0000
}

/// An ARM instruction other than SWI executed at `pc`.
pub open spec fn spec_execute_arm(c: CpuView, b: BusView, instr: u32, pc: u32) -> (
    CpuView,
    BusView,
) {
    if is_bx(instr) {
        (c.branch(c.reg_arm((instr & 0xf) as int, pc)), b)
    } else if is_mrs(instr) || is_msr(instr) {
        (spec_arm_psr(c, instr, pc), b)
    } else if instr & 0x0fc0_00f0 == 0x0000_0090 {
        (spec_arm_multiply(c, instr, pc), b)
    } else if instr & 0x0f80_00f0 == 0x0080_0090 {
        (spec_arm_multiply_long(c, instr, pc), b)
    } else if instr & 0x0e00_0090 == 0x0000_0090 {
        spec_arm_halfword_transfer(c, b, instr, pc)
    } else {
        let class = (instr >> 25u32) & 7;
        if class <= 1 {
            (spec_arm_data_processing(c, instr, pc), b)
        } else if class <= 3 {
            spec_arm_single_transfer(c, b, instr, pc)
        } else if class == 4 {
            spec_arm_block_transfer(c, b, instr, pc)
        } else if class == 5 {
            (spec_arm_branch(c, instr, pc), b)
        } else {
            (c, b)
        }
    }
}

proof fn lemma_field(instr: u32, s: u32)
    requires
        s < 32,
    ensures
        (instr >> s) & 0xf < 16,
        instr & 0xf < 16,
{
    crate::bits::lemma_u32_and_le(instr >> s, 0xf);
    crate::bits::lemma_u32_and_le(instr, 0xf);
}

/// First address and written-back base of a block transfer.
fn block_addresses(instr: u32, base: u32) -> (r: (u32, u32))
    ensures
        r == block_addrs(instr, base),
{
    let list = instr & 0xffff;
    let ones = count_ones16(list);
    let count = if ones > 1 {
        ones
    } else {
        1
    };
    let pre = instr & 0x0100_0000 != 0;
    let up = instr & 0x0080_0000 != 0;
    let start = if up && !pre {
        base
    } else if up && pre {
        base.wrapping_add(4)
    } else if !up && !pre {
        base.wrapping_sub(4 * (count - 1))
    } else {
        base.wrapping_sub(4 * count)
    };
    let final_base = if up {
        base.wrapping_add(4 * count)
    } else {
        base.wrapping_sub(4 * count)
    };
    (start, final_base)
}

fn halfword_load_exec(bus: &Bus, addr: u32, kind: u32) -> (r: u32)
    requires
        bus.wf(),
    ensures
        r == halfword_load(bus@, addr, kind),
{
    if kind == 1 {
        bus.read16(addr) as u32
    } else if kind == 2 {
        bus.read8(addr) as i8 as i32 as u32
    } else if kind == 3 {
        bus.read16(addr) as i16 as i32 as u32
    } else {
        0
    }
}

impl Cpu {
    pub fn arm_operand2(&self, instr: u32, pc: u32) -> (r: (u32, bool))
        requires
            self@.wf(),
        ensures
            r == spec_operand2(self@, instr, pc),
    {
        proof {
            lemma_field(instr, 8);
            crate::bits::lemma_u32_and_le(instr >> 7u32, 0x1f);
        }
        if instr & 0x0200_0000 != 0 {
            let imm = instr & 0xff;
            let rot = ((instr >> 8) & 0xf) * 2;
            if rot == 0 {
                (imm, self.carry())
            } else {
                let value = rotate_right(imm, rot);
                (value, value & FLAG_N != 0)
            }
        } else {
            let rm = (instr & 0xf) as usize;
            let value = self.reg_arm(rm, pc);
            let shift_type = (instr >> 5) & 3;
            let reg_shift = instr & 0x10 != 0;
            let amount = if reg_shift {
                let rs = ((instr >> 8) & 0xf) as usize;
                self.reg_arm(rs, pc) & 0xff
            } else {
                (instr >> 7) & 0x1f
            };
            if reg_shift && amount == 0 {
                return (value, self.carry());
            }
            if shift_type == 0 {
                shift_lsl(value, amount, self.carry())
            } else if shift_type == 1 {
                shift_lsr(
                    value,
                    if amount == 0 {
                        32
                    } else {
                        amount
                    },
                    self.carry(),
                )
            } else if shift_type == 2 {
                shift_asr(
                    value,
                    if amount == 0 {
                        32
                    } else {
                        amount
                    },
                    self.carry(),
                )
            } else if amount == 0 {
                let carry = self.carry();
                (
                    (value >> 1) | if carry {
                        0x8000_0000u32
                    } else {
                        0
                    },
                    value & 1 != 0,
                )
            } else {
                shift_ror(value, amount, self.carry())
            }
        }
    }

    pub fn arm_data_processing(&mut self, instr: u32, pc: u32)
        requires
            old(self)@.wf(),
        ensures
            final(self)@.wf(),
            final(self)@ == spec_arm_data_processing(old(self)@, instr, pc),
    {
        proof {
            lemma_field(instr, 16);
            lemma_field(instr, 12);
            lemma_field(instr, 21);
        }
        let op = (instr >> 21) & 0xf;
        let set_flags = instr & 0x0010_0000 != 0;
        let rn = ((instr >> 16) & 0xf) as usize;
        let rd = ((instr >> 12) & 0xf) as usize;
        let (op2, sh_carry) = self.arm_operand2(instr, pc);
        let a = self.reg_arm(rn, pc);
        let old_c = self.carry();
        let carry: u32 = if old_c {
            1
        } else {
            0
        };
        let borrow: u32 = if old_c {
            0
        } else {
            1
        };
        let mut write = true;
        let result;
        if op == 0x0 {
            result = a & op2;
        } else if op == 0x1 {
            result = a ^ op2;
        } else if op == 0x2 {
            result = a.wrapping_sub(op2);
            if set_flags {
                self.set_sub_flags(a, op2, result);
            }
        } else if op == 0x3 {
            result = op2.wrapping_sub(a);
            if set_flags {
                self.set_sub_flags(op2, a, result);
            }
        } else if op == 0x4 {
            result = a.wrapping_add(op2);
            if set_flags {
                self.set_add_flags(a, op2, result);
            }
        } else if op == 0x5 {
            result = a.wrapping_add(op2).wrapping_add(carry);
            if set_flags {
                self.set_adc_flags(a, op2, carry, result);
            }
        } else if op == 0x6 {
            result = a.wrapping_sub(op2).wrapping_sub(borrow);
            if set_flags {
                self.set_sbc_flags(a, op2, borrow, result);
            }
        } else if op == 0x7 {
            result = op2.wrapping_sub(a).wrapping_sub(borrow);
            if set_flags {
                self.set_sbc_flags(op2, a, borrow, result);
            }
        } else if op == 0x8 {
            write = false;
            result = a & op2;
            self.set_nz(result);
            self.set_c(sh_carry);
        } else if op == 0x9 {
            write = false;
            result = a ^ op2;
            self.set_nz(result);
            self.set_c(sh_carry);
        } else if op == 0xa {
            write = false;
            result = a.wrapping_sub(op2);
            self.set_sub_flags(a, op2, result);
        } else if op == 0xb {
            write = false;
            result = a.wrapping_add(op2);
            self.set_add_flags(a, op2, result);
        } else if op == 0xc {
            result = a | op2;
        } else if op == 0xd {
            result = op2;
        } else if op == 0xe {
            result = a & !op2;
        } else {
            result = !op2;
        }
        if write {
            if set_flags && !(0x2 <= op && op <= 0x7) {
                self.set_nz(result);
                self.set_c(sh_carry);
            }
            self.write_reg_arm(rd, result);
        }
    }

    pub fn arm_branch(&mut self, instr: u32, pc: u32)
        requires
            old(self)@.wf(),
        ensures
            final(self)@.wf(),
            final(self)@ == spec_arm_branch(old(self)@, instr, pc),
    {
        if instr & 0x0100_0000 != 0 {
            self.r[14] = pc.wrapping_add(4);
        }
        let off = sign_extend((instr & 0x00ff_ffff) << 2, 26);
        self.r[15] = pc.wrapping_add(8).wrapping_add(off as u32) & !3u32;
    }

    #[verifier::rlimit(40)]
    pub fn arm_single_transfer(&mut self, instr: u32, pc: u32, bus: &mut Bus)
        requires
            old(self)@.wf(),
            bus_ok(old(bus)@),
        ensures
            final(self)@.wf(),
            bus_ok(final(bus)@),
            store_frame(old(bus)@, final(bus)@),
            (final(self)@, final(bus)@) == spec_arm_single_transfer(
                old(self)@,
                old(bus)@,
                instr,
                pc,
            ),
    {
        proof {
            lemma_field(instr, 16);
            lemma_field(instr, 12);
        }
        let rn = ((instr >> 16) & 0xf) as usize;
        let rd = ((instr >> 12) & 0xf) as usize;
        let base = self.reg_arm(rn, pc);
        let offset = if instr & 0x0200_0000 != 0 {
            self.arm_operand2(instr, pc).0
        } else {
            instr & 0xfff
        };
        let up = instr & 0x0080_0000 != 0;
        let pre = instr & 0x0100_0000 != 0;
        let writeback = instr & 0x0020_0000 != 0;
        let load = instr & 0x0010_0000 != 0;
        let byte = instr & 0x0040_0000 != 0;
        let offset_base = if up {
            base.wrapping_add(offset)
        } else {
            base.wrapping_sub(offset)
        };
        let addr = if pre {
            offset_base
        } else {
            base
        };
        if load {
            let value = if byte {
                bus.read8(addr) as u32
            } else {
                {
                    proof {
                        crate::bits::lemma_u32_and_le(addr, 3);
                    }
                    rotate_right(bus.read32(addr), (addr & 3) * 8)
                }
            };
            self.write_reg_arm(rd, value);
        } else {
            let value = self.reg_arm(rd, pc);
            if byte {
                bus.write8(addr, value as u8);
            } else {
                bus.write32(addr, value);
            }
        }
        if !pre || writeback {
            self.r[rn] = offset_base;
        }
    }

    #[verifier::rlimit(40)]
    pub fn arm_halfword_transfer(&mut self, instr: u32, pc: u32, bus: &mut Bus)
        requires
            old(self)@.wf(),
            bus_ok(old(bus)@),
        ensures
            final(self)@.wf(),
            bus_ok(final(bus)@),
            store_frame(old(bus)@, final(bus)@),
            (final(self)@, final(bus)@) == spec_arm_halfword_transfer(
                old(self)@,
                old(bus)@,
                instr,
                pc,
            ),
    {
        proof {
            lemma_field(instr, 16);
            lemma_field(instr, 12);
        }
        let rn = ((instr >> 16) & 0xf) as usize;
        let rd = ((instr >> 12) & 0xf) as usize;
        let base = self.reg_arm(rn, pc);
        let offset = if instr & 0x0040_0000 != 0 {
            ((instr >> 4) & 0xf0) | (instr & 0xf)
        } else {
            self.reg_arm((instr & 0xf) as usize, pc)
        };
        let up = instr & 0x0080_0000 != 0;
        let pre = instr & 0x0100_0000 != 0;
        let writeback = instr & 0x0020_0000 != 0;
        let load = instr & 0x0010_0000 != 0;
        let kind = (instr >> 5) & 3;
        let offset_base = if up {
            base.wrapping_add(offset)
        } else {
            base.wrapping_sub(offset)
        };
        let addr = if pre {
            offset_base
        } else {
            base
        };
        if load {
            let value = halfword_load_exec(bus, addr, kind);
            self.write_reg_arm(rd, value);
        } else if kind == 1 {
            let v = self.reg_arm(rd, pc) as u16;
            bus.write16(addr, v);
        }
        if !pre || writeback {
            self.r[rn] = offset_base;
        }
    }

    pub fn arm_block_transfer(&mut self, instr: u32, pc: u32, bus: &mut Bus)
        requires
            old(self)@.wf(),
            bus_ok(old(bus)@),
        ensures
            final(self)@.wf(),
            bus_ok(final(bus)@),
            store_frame(old(bus)@, final(bus)@),
            (final(self)@, final(bus)@) == spec_arm_block_transfer(
                old(self)@,
                old(bus)@,
                instr,
                pc,
            ),
    {
        proof {
            lemma_field(instr, 16);
        }
        let rn = ((instr >> 16) & 0xf) as usize;
        let list = instr & 0xffff;
        let writeback = instr & 0x0020_0000 != 0;
        let load = instr & 0x0010_0000 != 0;
        let (start, final_base) = block_addresses(instr, self.r[rn]);
        if list == 0 {
            if load {
                let v = bus.read32(start);
                self.write_reg_arm(15, v);
            } else {
                let v = self.reg_arm(15, pc);
                bus.write32(start, v);
            }
        } else if load {
            self.load_multiple(bus, list, start);
        } else {
            self.store_multiple(bus, list, start, pc);
        }
        if writeback {
            self.r[rn] = final_base;
        }
    }

    /// The register loads of LDM for the registers in `list`, from `start`.
    fn load_multiple(&mut self, bus: &Bus, list: u32, start: u32)
        requires
            old(self)@.wf(),
            bus_ok(bus@),
        ensures
            final(self)@.wf(),
            final(self)@ == ldm_regs(old(self)@, bus@, list, start, 16).0,
    {
        let ghost c0 = self@;
        let mut addr = start;
        let mut reg: usize = 0;
        while reg < 16
            invariant
                reg <= 16,
                self@.wf(),
                (self@, addr) == ldm_regs(c0, bus@, list, start, reg as nat),
                bus_ok(bus@),
            decreases 16 - reg,
        {
            if (list >> (reg as u32)) & 1 == 1 {
                let value = bus.read32(addr);
                if reg == 15 {
                    self.branch_to(value);
                } else {
                    self.r[reg] = value;
                }
                addr = addr.wrapping_add(4);
            }
            reg = reg + 1;
        }
    }

    /// The stores of STM for the registers in `list`, from `start`.
    fn store_multiple(&self, bus: &mut Bus, list: u32, start: u32, pc: u32)
        requires
            self@.wf(),
            bus_ok(old(bus)@),
        ensures
            bus_ok(final(bus)@),
            store_frame(old(bus)@, final(bus)@),
            final(bus)@ == stm_regs(self@, old(bus)@, list, start, pc, 16).0,
    {
        let ghost b0 = bus@;
        let mut addr = start;
        let mut reg: usize = 0;
        while reg < 16
            invariant
                reg <= 16,
                self@.wf(),
                (bus@, addr) == stm_regs(self@, b0, list, start, pc, reg as nat),
                bus_ok(bus@),
                store_frame(b0, bus@),
            decreases 16 - reg,
        {
            if (list >> (reg as u32)) & 1 == 1 {
                let v = self.reg_arm(reg, pc);
                bus.write32(addr, v);
                addr = addr.wrapping_add(4);
            }
            reg = reg + 1;
        }
    }

    pub fn arm_multiply(&mut self, instr: u32, pc: u32)
        requires
            old(self)@.wf(),
        ensures
            final(self)@.wf(),
            final(self)@ == spec_arm_multiply(old(self)@, instr, pc),
    {
        proof {
            lemma_field(instr, 16);
            lemma_field(instr, 12);
            lemma_field(instr, 8);
        }
        let accumulate = instr & 0x0020_0000 != 0;
        let set_flags = instr & 0x0010_0000 != 0;
        let rd = ((instr >> 16) & 0xf) as usize;
        let rn = ((instr >> 12) & 0xf) as usize;
        let rs = ((instr >> 8) & 0xf) as usize;
        let rm = (instr & 0xf) as usize;
        let mut result = self.reg_arm(rm, pc).wrapping_mul(self.reg_arm(rs, pc));
        if accumulate {
            result = result.wrapping_add(self.reg_arm(rn, pc));
        }
        self.write_reg_arm(rd, result);
        if set_flags {
            self.set_nz(result);
        }
    }

    pub fn arm_multiply_long(&mut self, instr: u32, pc: u32)
        requires
            old(self)@.wf(),
        ensures
            final(self)@.wf(),
            final(self)@ == spec_arm_multiply_long(old(self)@, instr, pc),
    {
        proof {
            lemma_field(instr, 16);
            lemma_field(instr, 12);
            lemma_field(instr, 8);
        }
        let signed = instr & 0x0040_0000 != 0;
        let accumulate = instr & 0x0020_0000 != 0;
        let set_flags = instr & 0x0010_0000 != 0;
        let rd_hi = ((instr >> 16) & 0xf) as usize;
        let rd_lo = ((instr >> 12) & 0xf) as usize;
        let rs = ((instr >> 8) & 0xf) as usize;
        let rm = (instr & 0xf) as usize;
        let m = self.reg_arm(rm, pc);
        let s = self.reg_arm(rs, pc);
        let mut result: u64 = if signed {
            (m as i32 as i64).wrapping_mul(s as i32 as i64) as u64
        } else {
            (m as u64).wrapping_mul(s as u64)
        };
        if accumulate {
            let old = ((self.r[rd_hi] as u64) << 32u64) | (self.r[rd_lo] as u64);
            result = result.wrapping_add(old);
        }
        self.r[rd_lo] = result as u32;
        self.r[rd_hi] = (result >> 32u64) as u32;
        if set_flags {
            self.set_nz64(result);
        }
    }

    /// Executes MRS/MSR; returns whether `instr` was one of them.
    pub fn try_psr(&mut self, instr: u32, pc: u32) -> (r: bool)
        requires
            old(self)@.wf(),
        ensures
            final(self)@.wf(),
            r == (is_mrs(instr) || is_msr(instr)),
            r ==> final(self)@ == spec_arm_psr(old(self)@, instr, pc),
            !r ==> final(self)@ == old(self)@,
    {
        proof {
            lemma_field(instr, 12);
            lemma_field(instr, 16);
            lemma_field(instr, 8);
        }
        if instr & 0x0fbf_0fff == 0x010f_0000 {
            let rd = ((instr >> 12) & 0xf) as usize;
            self.r[rd] = self.cpsr;
            return true;
        }
        let is_msr_reg = instr & 0x0db0_f000 == 0x0120_f000;
        let is_msr_imm = instr & 0x0db0_f000 == 0x0320_f000;
        if is_msr_reg || is_msr_imm {
            let fields = (instr >> 16) & 0xf;
            let value = if is_msr_imm {
                let imm = instr & 0xff;
                rotate_right(imm, ((instr >> 8) & 0xf) * 2)
            } else {
                self.reg_arm((instr & 0xf) as usize, pc)
            };
            let low: u32 = if fields & 1 != 0 {
                0x0000_00ff
            } else {
                0
            };
            let high: u32 = if fields & 8 != 0 {
                0xff00_0000
            } else {
                0
            };
            let mask = low | high;
            self.cpsr = (self.cpsr & !mask) | (value & mask);
            return true;
        }
        false
    }

    /// Executes ARM instruction `instr` fetched from `pc`.
    pub fn execute_arm<H: Host>(&mut self, instr: u32, pc: u32, bus: &mut Bus, host: &H)
        requires
            old(self)@.wf(),
            bus_ok(old(bus)@),
        ensures
            final(self)@.wf(),
            bus_ok(final(bus)@),
            store_frame(old(bus)@, final(bus)@),
            !is_swi(instr) || is_bx(instr) ==> (final(self)@, final(bus)@) == spec_execute_arm(
                old(self)@,
                old(bus)@,
                instr,
                pc,
            ),
            is_swi(instr) && !is_bx(instr) ==> swi_effect(
                ((instr >> 16u32) & 0xff) as u8,
                old(self)@,
                old(bus)@,
                final(self)@,
                final(bus)@,
            ),
    {
        if instr & 0x0fff_fff0 == 0x012f_ff10 {
            proof {
                lemma_field(instr, 0);
            }
            let rn = (instr & 0xf) as usize;
            let target = self.reg_arm(rn, pc);
            self.branch_to(target);
            return ;
        }
        if instr & 0x0f00_0000 == 0x0f00_0000 {
            proof {
                crate::bits::lemma_u32_and_le(instr >> 16u32, 0xff);
            }
            let code = ((instr >> 16) & 0xff) as u8;
            crate::bios::handle_swi(code, self, bus, host);
            return ;
        }
        if self.try_psr(instr, pc) {
            return ;
        }
        if instr & 0x0fc0_00f0 == 0x0000_0090 {
            self.arm_multiply(instr, pc);
            return ;
        }
        if instr & 0x0f80_00f0 == 0x0080_0090 {
            self.arm_multiply_long(instr, pc);
            return ;
        }
        if instr & 0x0e00_0090 == 0x0000_0090 {
            self.arm_halfword_transfer(instr, pc, bus);
            return ;
        }
        let class = (instr >> 25) & 7;
        if class <= 1 {
            self.arm_data_processing(instr, pc);
        } else if class <= 3 {
            self.arm_single_transfer(instr, pc, bus);
        } else if class == 4 {
            self.arm_block_transfer(instr, pc, bus);
        } else if class == 5 {
            self.arm_branch(instr, pc);
        }
    }
}

} // verus!
