//! Pure ARM7TDMI arithmetic helpers: barrel shifter, program status flags
//! and condition codes.

use vstd::prelude::*;

verus! {

pub const FLAG_N: u32 = 0x8000_0000;
pub const FLAG_Z: u32 = 0x4000_0000;
pub const FLAG_C: u32 = 0x2000_0000;
pub const FLAG_V: u32 = 0x1000_0000;
pub const FLAG_I: u32 = 0x0000_0080;
pub const FLAG_T: u32 = 0x0000_0020;

/// Bit `i` of `v`.
pub open spec fn bit32(v: u32, i: u32) -> bool {
    (v >> i) & 1 == 1
}

/// Rotation of `v` to the right by `n` positions modulo 32.
pub open spec fn spec_rotate_right(v: u32, n: u32) -> u32 {
    let a = n & 31;
    if a == 0 {
        v
    } else {
        (v >> a) | (v << ((32 - a) as u32))
    }
}

pub proof fn lemma_and31(n: u32)
    ensures
        n & 31 < 32,
        n & 31 == n % 32,
{
    assert(n & 31 < 32 && n & 31 == n % 32) by (bit_vector);
}

pub fn rotate_right(value: u32, amount: u32) -> (r: u32)
    ensures
        r == spec_rotate_right(value, amount),
{
    proof {
        lemma_and31(amount);
    }
    let a = amount & 31;
    if a == 0 {
        value
    } else {
        (value >> a) | (value << (32 - a))
    }
}

/// Logical shift left with the ARM shifter carry-out.
pub open spec fn spec_shift_lsl(value: u32, amount: u32, old_carry: bool) -> (u32, bool) {
    if amount == 0 {
        (value, old_carry)
    } else if amount < 32 {
        (value << amount, bit32(value, (32 - amount) as u32))
    } else if amount == 32 {
        (0, bit32(value, 0))
    } else {
        (0, false)
    }
}

/// Logical shift right with the ARM shifter carry-out.
pub open spec fn spec_shift_lsr(value: u32, amount: u32, old_carry: bool) -> (u32, bool) {
    if amount == 0 {
        (value, old_carry)
    } else if amount < 32 {
        (value >> amount, bit32(value, (amount - 1) as u32))
    } else if amount == 32 {
        (0, bit32(value, 31))
    } else {
        (0, false)
    }
}

/// Arithmetic shift right with the ARM shifter carry-out.
pub open spec fn spec_shift_asr(value: u32, amount: u32, old_carry: bool) -> (u32, bool) {
    if amount == 0 {
        (value, old_carry)
    } else if amount < 32 {
        (((value as i32) >> amount) as u32, bit32(value, (amount - 1) as u32))
    } else if bit32(value, 31) {
        (0xffff_ffff, true)
    } else {
        (0, false)
    }
}

/// Rotate right with the ARM shifter carry-out.
pub open spec fn spec_shift_ror(value: u32, amount: u32, old_carry: bool) -> (u32, bool) {
    if amount == 0 {
        (value, old_carry)
    } else {
        let r = spec_rotate_right(value, amount);
        (r, bit32(r, 31))
    }
}

/// Bit `i` of `value`.
pub fn bit(value: u32, i: u32) -> (r: bool)
    requires
        i < 32,
    ensures
        r == bit32(value, i),
{
    (value >> i) & 1 == 1
}

pub fn shift_lsl(value: u32, amount: u32, old_carry: bool) -> (r: (u32, bool))
    ensures
        r == spec_shift_lsl(value, amount, old_carry),
{
    if amount == 0 {
        (value, old_carry)
    } else if amount < 32 {
        (value << amount, bit(value, 32 - amount))
    } else if amount == 32 {
        (0, bit(value, 0))
    } else {
        (0, false)
    }
}

pub fn shift_lsr(value: u32, amount: u32, old_carry: bool) -> (r: (u32, bool))
    ensures
        r == spec_shift_lsr(value, amount, old_carry),
{
    if amount == 0 {
        (value, old_carry)
    } else if amount < 32 {
        (value >> amount, bit(value, amount - 1))
    } else if amount == 32 {
        (0, bit(value, 31))
    } else {
        (0, false)
    }
}

pub fn shift_asr(value: u32, amount: u32, old_carry: bool) -> (r: (u32, bool))
    ensures
        r == spec_shift_asr(value, amount, old_carry),
{
    if amount == 0 {
        (value, old_carry)
    } else if amount < 32 {
        (((value as i32) >> amount) as u32, bit(value, amount - 1))
    } else {
        if bit(value, 31) {
            (0xffff_ffff, true)
        } else {
            (0, false)
        }
    }
}

pub fn shift_ror(value: u32, amount: u32, old_carry: bool) -> (r: (u32, bool))
    ensures
        r == spec_shift_ror(value, amount, old_carry),
{
    if amount == 0 {
        return (value, old_carry);
    }
    let result = rotate_right(value, amount);
    (result, bit(result, 31))
}

/// Sign extension of the low `bits` bits of `value`.
pub open spec fn spec_sign_extend(value: u32, bits: u32) -> i32 {
    ((value << ((32 - bits) as u32)) as i32) >> ((32 - bits) as u32)
}

pub fn sign_extend(value: u32, bits: u32) -> (r: i32)
    requires
        1 <= bits <= 32,
    ensures
        r == spec_sign_extend(value, bits),
{
    ((value << (32 - bits)) as i32) >> (32 - bits)
}

} // verus!

verus! {

/// `cpsr` with `flag` set when `on` holds and cleared otherwise.
pub open spec fn with_flag(cpsr: u32, flag: u32, on: bool) -> u32 {
    if on {
        cpsr | flag
    } else {
        cpsr & !flag
    }
}

/// N and Z after a 32-bit result.
pub open spec fn flags_nz(cpsr: u32, value: u32) -> u32 {
    with_flag(with_flag(cpsr, FLAG_N, bit32(value, 31)), FLAG_Z, value == 0)
}

/// N and Z after a 64-bit result.
pub open spec fn flags_nz64(cpsr: u32, value: u64) -> u32 {
    with_flag(with_flag(cpsr, FLAG_N, (value >> 63u64) & 1 == 1), FLAG_Z, value == 0)
}

/// Signed overflow of `a + b = result` as seen in the sign bits.
pub open spec fn add_overflow(a: u32, b: u32, result: u32) -> bool {
    ((a ^ result) & (b ^ result) & FLAG_N) != 0
}

/// Signed overflow of `a - b = result` as seen in the sign bits.
pub open spec fn sub_overflow(a: u32, b: u32, result: u32) -> bool {
    ((a ^ b) & (a ^ result) & FLAG_N) != 0
}

/// Flags after an addition: carry is the unsigned carry out of bit 31.
pub open spec fn flags_add(cpsr: u32, a: u32, b: u32, result: u32) -> u32 {
    with_flag(
        with_flag(flags_nz(cpsr, result), FLAG_C, a + b > 0xffff_ffff),
        FLAG_V,
        add_overflow(a, b, result),
    )
}

/// Flags after an addition with carry in.
pub open spec fn flags_adc(cpsr: u32, a: u32, b: u32, carry: u32, result: u32) -> u32 {
    with_flag(
        with_flag(flags_nz(cpsr, result), FLAG_C, a + b + carry > 0xffff_ffff),
        FLAG_V,
        add_overflow(a, b, result),
    )
}

/// Flags after a subtraction: carry means no borrow.
pub open spec fn flags_sub(cpsr: u32, a: u32, b: u32, result: u32) -> u32 {
    with_flag(with_flag(flags_nz(cpsr, result), FLAG_C, a >= b), FLAG_V, sub_overflow(a, b, result))
}

/// Flags after a subtraction with borrow in.
pub open spec fn flags_sbc(cpsr: u32, a: u32, b: u32, borrow: u32, result: u32) -> u32 {
    with_flag(
        with_flag(flags_nz(cpsr, result), FLAG_C, a >= b + borrow),
        FLAG_V,
        sub_overflow(a, b, result),
    )
}

/// Whether the ARM condition field `cond` passes under the flags of `cpsr`.
pub open spec fn spec_condition(cpsr: u32, cond: u8) -> bool {
    let n = cpsr & FLAG_N != 0;
    let z = cpsr & FLAG_Z != 0;
    let c = cpsr & FLAG_C != 0;
    let v = cpsr & FLAG_V != 0;
    if cond == 0x0 {
        z
    } else if cond == 0x1 {
        !z
    } else if cond == 0x2 {
        c
    } else if cond == 0x3 {
        !c
    } else if cond == 0x4 {
        n
    } else if cond == 0x5 {
        !n
    } else if cond == 0x6 {
        v
    } else if cond == 0x7 {
        !v
    } else if cond == 0x8 {
        c && !z
    } else if cond == 0x9 {
        !c || z
    } else if cond == 0xa {
        n == v
    } else if cond == 0xb {
        n != v
    } else if cond == 0xc {
        !z && n == v
    } else if cond == 0xd {
        z || n != v
    } else {
        cond == 0xe
    }
}

/// Each single-flag condition reads its flag: EQ and NE the Z flag, CS and
/// CC the C flag, MI and PL the N flag, VS and VC the V flag, each of a
/// pair holding exactly when the other fails; AL always holds.
pub proof fn law_flag_conditions(cpsr: u32)
    ensures
        spec_condition(cpsr, 0x0) == (cpsr & FLAG_Z != 0),
        spec_condition(cpsr, 0x1) == (cpsr & FLAG_Z == 0),
        spec_condition(cpsr, 0x2) == (cpsr & FLAG_C != 0),
        spec_condition(cpsr, 0x3) == (cpsr & FLAG_C == 0),
        spec_condition(cpsr, 0x4) == (cpsr & FLAG_N != 0),
        spec_condition(cpsr, 0x5) == (cpsr & FLAG_N == 0),
        spec_condition(cpsr, 0x6) == (cpsr & FLAG_V != 0),
        spec_condition(cpsr, 0x7) == (cpsr & FLAG_V == 0),
        spec_condition(cpsr, 0xe),
{
}

/// The flags a comparison leaves: after `a - b` with flags (CMP), EQ, NE,
/// CS, CC, HI and LS compare `a` and `b` as unsigned numbers, GE, LT, GT and
/// LE compare them as signed numbers, and MI and PL tell whether the
/// difference is negative.
pub proof fn law_compare_conditions(cpsr: u32, a: u32, b: u32)
    ensures
        ({
            let f = flags_sub(cpsr, a, b, vstd::wrapping::u32_specs::wrapping_sub(a, b));
            &&& spec_condition(f, 0x0) == (a == b)
            &&& spec_condition(f, 0x1) == (a != b)
            &&& spec_condition(f, 0x2) == (a >= b)
            &&& spec_condition(f, 0x3) == (a < b)
            &&& spec_condition(f, 0x8) == (a > b)
            &&& spec_condition(f, 0x9) == (a <= b)
            &&& spec_condition(f, 0xa) == ((a as i32) >= (b as i32))
            &&& spec_condition(f, 0xb) == ((a as i32) < (b as i32))
            &&& spec_condition(f, 0xc) == ((a as i32) > (b as i32))
            &&& spec_condition(f, 0xd) == ((a as i32) <= (b as i32))
            &&& spec_condition(f, 0x4) == ((vstd::wrapping::u32_specs::wrapping_sub(a, b) as i32)
                < 0)
            &&& spec_condition(f, 0x5) == ((vstd::wrapping::u32_specs::wrapping_sub(a, b) as i32)
                >= 0)
        }),
{
    let r = vstd::wrapping::u32_specs::wrapping_sub(a, b);
    assert(r == (if a >= b {
        (a - b) as u32
    } else {
        (a - b + 0x1_0000_0000) as u32
    }));
    let n = bit32(r, 31);
    let v = sub_overflow(a, b, r);
    assert((r == 0) == (a == b) && (n == v) == ((a as i32) >= (b as i32)) && n == ((r as i32) < 0))
        by (bit_vector)
        requires
            r == (if a >= b {
                (a - b) as u32
            } else {
                (a - b + 0x1_0000_0000) as u32
            }),
            n == ((r >> 31u32) & 1 == 1),
            v == (((a ^ b) & (a ^ r) & 0x8000_0000u32) != 0),
    ;
    let f0 = with_flag(cpsr, FLAG_N, n);
    let f1 = with_flag(f0, FLAG_Z, r == 0);
    let f2 = with_flag(f1, FLAG_C, a >= b);
    let f = with_flag(f2, FLAG_V, v);
    assert((f & FLAG_N != 0 <==> n) && (f & FLAG_Z != 0 <==> r == 0) && (f & FLAG_C != 0 <==> a
        >= b) && (f & FLAG_V != 0 <==> v)) by (bit_vector)
        requires
            f0 == (if n {
                cpsr | 0x8000_0000u32
            } else {
                cpsr & !0x8000_0000u32
            }),
            f1 == (if r == 0 {
                f0 | 0x4000_0000u32
            } else {
                f0 & !0x4000_0000u32
            }),
            f2 == (if a >= b {
                f1 | 0x2000_0000u32
            } else {
                f1 & !0x2000_0000u32
            }),
            f == (if v {
                f2 | 0x1000_0000u32
            } else {
                f2 & !0x1000_0000u32
            }),
    ;
    assert(((a as i32) > (b as i32)) == ((a as i32) >= (b as i32) && a != b)) by (bit_vector);
}

pub fn with_flag_exec(cpsr: u32, flag: u32, on: bool) -> (r: u32)
    ensures
        r == with_flag(cpsr, flag, on),
{
    if on {
        cpsr | flag
    } else {
        cpsr & !flag
    }
}

pub fn condition_passes(cpsr: u32, cond: u8) -> (r: bool)
    ensures
        r == spec_condition(cpsr, cond),
{
    let n = cpsr & FLAG_N != 0;
    let z = cpsr & FLAG_Z != 0;
    let c = cpsr & FLAG_C != 0;
    let v = cpsr & FLAG_V != 0;
    match cond {
        0x0 => z,
        0x1 => !z,
        0x2 => c,
        0x3 => !c,
        0x4 => n,
        0x5 => !n,
        0x6 => v,
        0x7 => !v,
        0x8 => c && !z,
        0x9 => !c || z,
        0xa => n == v,
        0xb => n != v,
        0xc => !z && n == v,
        0xd => z || n != v,
        0xe => true,
        _ => false,
    }
}

pub fn nz_flags(cpsr: u32, value: u32) -> (r: u32)
    ensures
        r == flags_nz(cpsr, value),
{
    let c = with_flag_exec(cpsr, FLAG_N, bit(value, 31));
    with_flag_exec(c, FLAG_Z, value == 0)
}

pub fn nz64_flags(cpsr: u32, value: u64) -> (r: u32)
    ensures
        r == flags_nz64(cpsr, value),
{
    let c = with_flag_exec(cpsr, FLAG_N, (value >> 63u64) & 1 == 1);
    with_flag_exec(c, FLAG_Z, value == 0)
}

pub fn add_flags(cpsr: u32, a: u32, b: u32, result: u32) -> (r: u32)
    ensures
        r == flags_add(cpsr, a, b, result),
{
    let c = nz_flags(cpsr, result);
    let c = with_flag_exec(c, FLAG_C, (a as u64 + b as u64) > 0xffff_ffff);
    with_flag_exec(c, FLAG_V, ((a ^ result) & (b ^ result) & FLAG_N) != 0)
}

pub fn adc_flags(cpsr: u32, a: u32, b: u32, carry: u32, result: u32) -> (r: u32)
    requires
        carry <= 1,
    ensures
        r == flags_adc(cpsr, a, b, carry, result),
{
    let c = nz_flags(cpsr, result);
    let c = with_flag_exec(c, FLAG_C, (a as u64 + b as u64 + carry as u64) > 0xffff_ffff);
    with_flag_exec(c, FLAG_V, ((a ^ result) & (b ^ result) & FLAG_N) != 0)
}

pub fn sub_flags(cpsr: u32, a: u32, b: u32, result: u32) -> (r: u32)
    ensures
        r == flags_sub(cpsr, a, b, result),
{
    let c = nz_flags(cpsr, result);
    let c = with_flag_exec(c, FLAG_C, a >= b);
    with_flag_exec(c, FLAG_V, ((a ^ b) & (a ^ result) & FLAG_N) != 0)
}

pub fn sbc_flags(cpsr: u32, a: u32, b: u32, borrow: u32, result: u32) -> (r: u32)
    requires
        borrow <= 1,
    ensures
        r == flags_sbc(cpsr, a, b, borrow, result),
{
    let c = nz_flags(cpsr, result);
    let c = with_flag_exec(c, FLAG_C, (a as u64) >= (b as u64 + borrow as u64));
    with_flag_exec(c, FLAG_V, ((a ^ b) & (a ^ result) & FLAG_N) != 0)
}

} // verus!
