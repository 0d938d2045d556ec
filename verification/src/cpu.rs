//! The ARM7TDMI core: registers, program status, instruction fetch and the
//! interrupt entry used by the game's handler.

use vstd::prelude::*;
use crate::alu::{
    FLAG_C,
    FLAG_I,
    FLAG_T,
    spec_condition,
    with_flag,
    flags_nz,
    flags_nz64,
    flags_add,
    flags_adc,
    flags_sub,
    flags_sbc,
    condition_passes,
    with_flag_exec,
    nz_flags,
    nz64_flags,
    add_flags,
    adc_flags,
    sub_flags,
    sbc_flags,
};
use crate::bus::{Bus, BusView, io_put16, store_frame, timers_ok};
use crate::cpu_arm::{is_bx, is_swi, spec_execute_arm};
use crate::cpu_thumb::{is_thumb_swi, spec_execute_thumb};
use crate::hle::{direct_input_idle, shortcut_site, shortcut_step};
use crate::bios::swi_effect;
use crate::host::Host;

verus! {

pub const MODE_SYSTEM: u32 = 0x1f;
pub const IRQ_RETURN_SENTINEL: u32 = 0xffff_fff0;

/// Registers saved when the interrupt handler is entered.
#[derive(Clone, Copy)]
pub struct IrqFrame {
    pub regs: [u32; 16],
    pub cpsr: u32,
}

pub struct Cpu {
    pub r: [u32; 16],
    pub cpsr: u32,
    pub trace: bool,
    pub halted: bool,
    pub wait_flags: Option<u16>,
    pub irq_frame: Option<IrqFrame>,
    pub last_pc: u32,
    pub last_instr: u32,
    pub last_thumb: bool,
    /// Whether the game-specific movement and map-transition shortcuts run.
    pub gameplay_hle: bool,
    /// Whether the game-specific title, naming and fade shortcuts run.
    pub legacy_flow_hle: bool,
}

/// The mathematical state of the core.
pub ghost struct CpuView {
    pub r: Seq<u32>,
    pub cpsr: u32,
    pub trace: bool,
    pub halted: bool,
    pub wait_flags: Option<u16>,
    pub irq_frame: Option<(Seq<u32>, u32)>,
    pub last_pc: u32,
    pub last_instr: u32,
    pub last_thumb: bool,
    pub gameplay_hle: bool,
    pub legacy_flow_hle: bool,
}

impl View for Cpu {
    type V = CpuView;

    open spec fn view(&self) -> CpuView {
        CpuView {
            r: self.r@,
            cpsr: self.cpsr,
            trace: self.trace,
            halted: self.halted,
            wait_flags: self.wait_flags,
            irq_frame: match self.irq_frame {
                Some(f) => Some((f.regs@, f.cpsr)),
                None => None,
            },
            last_pc: self.last_pc,
            last_instr: self.last_instr,
            last_thumb: self.last_thumb,
            gameplay_hle: self.gameplay_hle,
            legacy_flow_hle: self.legacy_flow_hle,
        }
    }
}

pub open spec fn wadd(a: u32, b: u32) -> u32 {
    vstd::wrapping::u32_specs::wrapping_add(a, b)
}

/// Two wrapping additions are one.
pub proof fn lemma_wadd_wadd(a: u32, x: u32, y: u32)
    requires
        x + y <= u32::MAX,
    ensures
        wadd(wadd(a, x), y) == wadd(a, (x + y) as u32),
{
}

pub open spec fn wsub(a: u32, b: u32) -> u32 {
    vstd::wrapping::u32_specs::wrapping_sub(a, b)
}

impl CpuView {
    pub open spec fn wf(self) -> bool {
        &&& self.r.len() == 16
        &&& match self.irq_frame {
            Some(f) => f.0.len() == 16,
            None => true,
        }
    }

    pub open spec fn thumb(self) -> bool {
        self.cpsr & FLAG_T != 0
    }

    pub open spec fn carry(self) -> bool {
        self.cpsr & FLAG_C != 0
    }

    pub open spec fn with_cpsr(self, cpsr: u32) -> CpuView {
        CpuView { cpsr, ..self }
    }

    pub open spec fn with_reg(self, idx: int, value: u32) -> CpuView {
        CpuView { r: self.r.update(idx, value), ..self }
    }

    /// Register `idx` as an ARM operand: the PC reads 8 bytes ahead.
    pub open spec fn reg_arm(self, idx: int, pc: u32) -> u32 {
        if idx == 15 {
            wadd(pc, 8)
        } else {
            self.r[idx]
        }
    }

    /// Register `idx` as a Thumb operand: the PC reads 4 bytes ahead, word
    /// aligned.
    pub open spec fn reg_thumb(self, idx: int, pc: u32) -> u32 {
        if idx == 15 {
            wadd(pc, 4) & !2u32
        } else {
            self.r[idx]
        }
    }

    /// Return from the interrupt handler: the saved registers come back.
    pub open spec fn leave_irq(self) -> CpuView {
        match self.irq_frame {
            Some(f) => CpuView { r: f.0, cpsr: f.1, irq_frame: None, ..self },
            None => self,
        }
    }

    /// A jump to `value`: the interrupt-return address restores the saved
    /// state; odd targets and ROM code outside the ARM sound mixer run in
    /// Thumb state.
    pub open spec fn branch(self, value: u32) -> CpuView {
        if value & !0xfu32 == IRQ_RETURN_SENTINEL {
            self.leave_irq()
        } else {
            let rom_target = 0x0800_0000 <= value < 0x0e00_0000;
            let known_arm_rom = 0x082d_f050 <= (value & !3u32) < 0x082d_f130;
            if value & 1 != 0 || (rom_target && !known_arm_rom) {
                CpuView { cpsr: self.cpsr | FLAG_T, r: self.r.update(15, value & !1u32), ..self }
            } else {
                CpuView { cpsr: self.cpsr & !FLAG_T, r: self.r.update(15, value & !3u32), ..self }
            }
        }
    }

    pub open spec fn write_reg_arm(self, idx: int, value: u32) -> CpuView {
        if idx == 15 {
            self.with_reg(15, value & !3u32)
        } else {
            self.with_reg(idx, value)
        }
    }

    pub open spec fn write_reg_thumb(self, idx: int, value: u32) -> CpuView {
        if idx == 15 {
            self.branch(value)
        } else {
            self.with_reg(idx, value)
        }
    }

    /// Register write as the BIOS sees it: writing the PC branches.
    pub open spec fn set_reg(self, idx: int, value: u32) -> CpuView {
        if idx == 15 {
            self.branch(value)
        } else {
            self.with_reg(idx, value)
        }
    }

    /// Entry into the game's interrupt handler `handler` with the state saved
    /// and the return address set to the interrupt-return marker.
    pub open spec fn enter_irq(self, handler: u32) -> CpuView {
        if handler == 0 || handler == 0xffff_ffff {
            self
        } else {
            CpuView {
                irq_frame: Some((self.r, self.cpsr)),
                r: self.r.update(14, IRQ_RETURN_SENTINEL | 1),
                cpsr: self.cpsr | FLAG_I,
                ..self
            }.branch(handler)
        }
    }
}

/// Returning from the interrupt handler through the link register it was
/// entered with gives back the interrupted state exactly.
pub proof fn law_irq_return_restores(c: CpuView, handler: u32)
    requires
        c.wf(),
        c.irq_frame is None,
        handler != 0,
        handler != 0xffff_ffff,
        handler & !0xfu32 != IRQ_RETURN_SENTINEL,
    ensures
        c.enter_irq(handler).r[14] == IRQ_RETURN_SENTINEL | 1,
        c.enter_irq(handler).branch(c.enter_irq(handler).r[14]) == c,
{
    assert((IRQ_RETURN_SENTINEL | 1) & !0xfu32 == IRQ_RETURN_SENTINEL) by (bit_vector);
    let e = c.enter_irq(handler);
    assert(e.r[14] == IRQ_RETURN_SENTINEL | 1);
    assert(e.branch(e.r[14]) == e.leave_irq());
    assert(e.leave_irq().r =~= c.r);
}

/// The core at reset: system mode with interrupts masked, stack at 0x03007f00
/// and the program counter at the start of ROM.
pub open spec fn spec_cpu_reset(trace: bool) -> CpuView {
    CpuView {
        r: Seq::new(
            16,
            |i: int|
                if i == 13 {
                    0x0300_7f00u32
                } else if i == 15 {
                    0x0800_0000u32
                } else {
                    0u32
                },
        ),
        cpsr: MODE_SYSTEM | FLAG_I,
        trace,
        halted: false,
        wait_flags: None,
        irq_frame: None,
        last_pc: 0,
        last_instr: 0,
        last_thumb: false,
        gameplay_hle: false,
        legacy_flow_hle: false,
    }
}

/// Bus preconditions kept by every instruction.
pub open spec fn bus_ok(b: BusView) -> bool {
    b.wf() && timers_ok(b)
}

/// Whether a step runs the machine: no wait for interrupts is pending, or
/// one of the awaited interrupts arrived, or a halt ends with any pending
/// interrupt.
pub open spec fn runs(c: CpuView, b: BusView) -> bool {
    match c.wait_flags {
        Some(f) => b.io16(0x202) & f != 0,
        None => !c.halted || b.irq_pending() != 0,
    }
}

/// The core and bus once a wait or halt is over: the awaited interrupt
/// flags are acknowledged.
pub open spec fn woken(c: CpuView, b: BusView) -> (CpuView, BusView) {
    match c.wait_flags {
        Some(f) => (
            CpuView { wait_flags: None, halted: false, ..c },
            BusView { io: io_put16(b.io, 0x202, b.io16(0x202) & !f), ..b },
        ),
        None => (CpuView { halted: false, ..c }, b),
    }
}

/// The core after entering the interrupt handler, when interrupts are
/// enabled, none is being handled and one is pending.
pub open spec fn take_irq(c: CpuView, b: BusView) -> CpuView {
    if c.irq_frame is None && c.cpsr & FLAG_I == 0 && b.irq_pending() != 0 {
        c.enter_irq(b.read32(0x0300_7ffc))
    } else {
        c
    }
}

/// Whether the instruction at the program counter is a software interrupt
/// that executes.
pub open spec fn next_is_swi(c: CpuView, b: BusView) -> bool {
    if c.thumb() {
        is_thumb_swi(b.read16(c.r[15] & !1u32))
    } else {
        let instr = b.read32(c.r[15] & !3u32);
        spec_condition(c.cpsr, (instr >> 28u32) as u8) && is_swi(instr) && !is_bx(instr)
    }
}

/// The core once it has fetched the instruction at the program counter and
/// moved past it.
pub open spec fn fetched(c: CpuView, b: BusView) -> CpuView {
    if c.thumb() {
        let pc = c.r[15] & !1u32;
        CpuView {
            last_pc: pc,
            last_instr: b.read16(pc) as u32,
            last_thumb: true,
            r: c.r.update(15, wadd(pc, 2)),
            ..c
        }
    } else {
        let pc = c.r[15] & !3u32;
        CpuView {
            last_pc: pc,
            last_instr: b.read32(pc),
            last_thumb: false,
            r: c.r.update(15, wadd(pc, 4)),
            ..c
        }
    }
}

/// Fetching the instruction at the program counter, moving past it, and
/// executing it (an ARM instruction only when its condition holds).
pub open spec fn fetch_execute(c: CpuView, b: BusView) -> (CpuView, BusView) {
    let c1 = fetched(c, b);
    if c.thumb() {
        spec_execute_thumb(c1, b, c1.last_instr as u16, c1.last_pc)
    } else if spec_condition(c1.cpsr, (c1.last_instr >> 28u32) as u8) {
        spec_execute_arm(c1, b, c1.last_instr, c1.last_pc)
    } else {
        (c1, b)
    }
}

/// The comment field of the software interrupt at the program counter.
pub open spec fn swi_code(c: CpuView, b: BusView) -> u8 {
    if c.thumb() {
        (b.read16(c.r[15] & !1u32) & 0xff) as u8
    } else {
        ((b.read32(c.r[15] & !3u32) >> 16u32) & 0xff) as u8
    }
}

/// Executing the software interrupt at the program counter takes core `c`
/// and bus `b` to `c2` and `b2`: the core moves past it, then the BIOS call
/// runs.
pub open spec fn swi_step(c: CpuView, b: BusView, c2: CpuView, b2: BusView) -> bool {
    swi_effect(swi_code(c, b), fetched(c, b), b, c2, b2)
}

/// The step that `cpu_step` leaves to a BIOS call: the core wakes, enters a
/// pending interrupt, finds no shortcut, and executes the software interrupt.
pub open spec fn cpu_swi_step(c: CpuView, b: BusView, c2: CpuView, b2: BusView) -> bool {
    let (c1, b1) = woken(c, b);
    let (_, c3, b3) = shortcut_step(take_irq(c1, b1), b1);
    swi_step(c3, b3, c2, b2)
}

/// One step of the machine's core: the cycles it takes, and the core and
/// bus after it; `None` when it executes a software interrupt (whose effect
/// the BIOS routine states). A wait or halt takes 32 cycles and changes
/// nothing; otherwise the wait ends, a pending interrupt is entered, and a
/// game routine shortcut or the next instruction takes one cycle.
pub open spec fn cpu_step(c: CpuView, b: BusView) -> Option<(u32, CpuView, BusView)> {
    if !runs(c, b) {
        Some((32, c, b))
    } else {
        let (c1, b1) = woken(c, b);
        let (handled, c3, b3) = shortcut_step(take_irq(c1, b1), b1);
        if handled {
            Some((1, c3, b3))
        } else if next_is_swi(c3, b3) {
            None
        } else {
            let (c4, b4) = fetch_execute(c3, b3);
            Some((1, c4, b4))
        }
    }
}

impl Cpu {
    pub fn new(trace: bool) -> (c: Cpu)
        ensures
            c@ == spec_cpu_reset(trace),
    {
        let mut r = [0u32; 16];
        r[13] = 0x0300_7f00;
        r[15] = 0x0800_0000;
        let c = Cpu {
            r,
            cpsr: MODE_SYSTEM | FLAG_I,
            trace,
            halted: false,
            wait_flags: None,
            irq_frame: None,
            last_pc: 0,
            last_instr: 0,
            last_thumb: false,
            gameplay_hle: false,
            legacy_flow_hle: false,
        };
        proof {
            assert(c@.r =~= spec_cpu_reset(trace).r);
        }
        c
    }

    pub fn pc(&self) -> (r: u32)
        ensures
            r == self.r[15],
    {
        self.r[15]
    }

    pub fn sp(&self) -> (r: u32)
        ensures
            r == self.r[13],
    {
        self.r[13]
    }

    pub fn reg(&self, idx: usize) -> (r: u32)
        requires
            idx < 16,
        ensures
            r == self.r[idx as int],
    {
        self.r[idx]
    }

    pub fn set_reg(&mut self, idx: usize, value: u32)
        requires
            idx < 16,
        ensures
            final(self)@ == old(self)@.set_reg(idx as int, value),
    {
        if idx == 15 {
            self.branch_to(value);
        } else {
            self.r[idx] = value;
        }
    }

    /// Turns the game-specific movement and map-transition shortcuts on or
    /// off.
    pub fn set_gameplay_hle(&mut self, on: bool)
        ensures
            final(self)@ == (CpuView { gameplay_hle: on, ..old(self)@ }),
    {
        self.gameplay_hle = on;
    }

    /// Turns the game-specific title, naming and fade shortcuts on or off.
    pub fn set_legacy_flow_hle(&mut self, on: bool)
        ensures
            final(self)@ == (CpuView { legacy_flow_hle: on, ..old(self)@ }),
    {
        self.legacy_flow_hle = on;
    }

    /// Turns instruction tracing on or off.
    pub fn set_trace(&mut self, on: bool)
        ensures
            final(self)@ == (CpuView { trace: on, ..old(self)@ }),
    {
        self.trace = on;
    }

    pub fn set_halted(&mut self, halted: bool)
        ensures
            final(self)@ == (CpuView { halted, ..old(self)@ }),
    {
        self.halted = halted;
    }

    /// Waits for one of the interrupts of `flags` (BIOS IntrWait).
    pub fn set_wait_flags(&mut self, flags: u16)
        ensures
            final(self)@ == (CpuView { wait_flags: Some(flags), halted: true, ..old(self)@ }),
    {
        self.wait_flags = Some(flags);
        self.halted = true;
    }

    pub fn is_thumb(&self) -> (r: bool)
        ensures
            r == self@.thumb(),
    {
        self.cpsr & FLAG_T != 0
    }

    pub fn carry(&self) -> (r: bool)
        ensures
            r == self@.carry(),
    {
        self.cpsr & FLAG_C != 0
    }

    pub fn condition(&self, cond: u8) -> (r: bool)
        ensures
            r == spec_condition(self.cpsr, cond),
    {
        condition_passes(self.cpsr, cond)
    }

    pub fn set_flag(&mut self, flag: u32, value: bool)
        ensures
            final(self)@ == old(self)@.with_cpsr(with_flag(old(self).cpsr, flag, value)),
    {
        self.cpsr = with_flag_exec(self.cpsr, flag, value);
    }

    pub fn set_nz(&mut self, value: u32)
        ensures
            final(self)@ == old(self)@.with_cpsr(flags_nz(old(self).cpsr, value)),
    {
        self.cpsr = nz_flags(self.cpsr, value);
    }

    pub fn set_nz64(&mut self, value: u64)
        ensures
            final(self)@ == old(self)@.with_cpsr(flags_nz64(old(self).cpsr, value)),
    {
        self.cpsr = nz64_flags(self.cpsr, value);
    }

    pub fn set_c(&mut self, value: bool)
        ensures
            final(self)@ == old(self)@.with_cpsr(with_flag(old(self).cpsr, FLAG_C, value)),
    {
        self.set_flag(FLAG_C, value);
    }

    pub fn set_add_flags(&mut self, a: u32, b: u32, result: u32)
        ensures
            final(self)@ == old(self)@.with_cpsr(flags_add(old(self).cpsr, a, b, result)),
    {
        self.cpsr = add_flags(self.cpsr, a, b, result);
    }

    pub fn set_adc_flags(&mut self, a: u32, b: u32, carry: u32, result: u32)
        requires
            carry <= 1,
        ensures
            final(self)@ == old(self)@.with_cpsr(flags_adc(old(self).cpsr, a, b, carry, result)),
    {
        self.cpsr = adc_flags(self.cpsr, a, b, carry, result);
    }

    pub fn set_sub_flags(&mut self, a: u32, b: u32, result: u32)
        ensures
            final(self)@ == old(self)@.with_cpsr(flags_sub(old(self).cpsr, a, b, result)),
    {
        self.cpsr = sub_flags(self.cpsr, a, b, result);
    }

    pub fn set_sbc_flags(&mut self, a: u32, b: u32, borrow: u32, result: u32)
        requires
            borrow <= 1,
        ensures
            final(self)@ == old(self)@.with_cpsr(flags_sbc(old(self).cpsr, a, b, borrow, result)),
    {
        self.cpsr = sbc_flags(self.cpsr, a, b, borrow, result);
    }

    pub fn reg_arm(&self, idx: usize, pc: u32) -> (r: u32)
        requires
            idx < 16,
        ensures
            r == self@.reg_arm(idx as int, pc),
    {
        if idx == 15 {
            pc.wrapping_add(8)
        } else {
            self.r[idx]
        }
    }

    pub fn reg_thumb(&self, idx: usize, pc: u32) -> (r: u32)
        requires
            idx < 16,
        ensures
            r == self@.reg_thumb(idx as int, pc),
    {
        if idx == 15 {
            pc.wrapping_add(4) & !2u32
        } else {
            self.r[idx]
        }
    }

    pub fn write_reg_arm(&mut self, idx: usize, value: u32)
        requires
            idx < 16,
        ensures
            final(self)@ == old(self)@.write_reg_arm(idx as int, value),
    {
        if idx == 15 {
            self.r[15] = value & !3u32;
        } else {
            self.r[idx] = value;
        }
    }

    pub fn write_reg_thumb(&mut self, idx: usize, value: u32)
        requires
            idx < 16,
        ensures
            final(self)@ == old(self)@.write_reg_thumb(idx as int, value),
    {
        if idx == 15 {
            self.branch_to(value);
        } else {
            self.r[idx] = value;
        }
    }

    pub fn leave_irq_hle(&mut self)
        ensures
            final(self)@ == old(self)@.leave_irq(),
    {
        if let Some(frame) = self.irq_frame {
            self.r = frame.regs;
            self.cpsr = frame.cpsr;
        }
        self.irq_frame = None;
    }

    pub fn branch_to(&mut self, value: u32)
        ensures
            final(self)@ == old(self)@.branch(value),
    {
        if value & !0xfu32 == IRQ_RETURN_SENTINEL {
            self.leave_irq_hle();
            return ;
        }
        let rom_target = 0x0800_0000 <= value && value < 0x0e00_0000;
        let aligned = value & !3u32;
        let known_arm_rom = 0x082d_f050 <= aligned && aligned < 0x082d_f130;
        if value & 1 != 0 || (rom_target && !known_arm_rom) {
            self.cpsr = self.cpsr | FLAG_T;
            self.r[15] = value & !1u32;
        } else {
            self.cpsr = self.cpsr & !FLAG_T;
            self.r[15] = value & !3u32;
        }
    }

    /// Enters the interrupt handler stored at 0x03007ffc, as the BIOS
    /// dispatcher would.
    pub fn enter_irq_hle(&mut self, bus: &Bus)
        requires
            bus.wf(),
        ensures
            final(self)@ == old(self)@.enter_irq(bus@.read32(0x0300_7ffc)),
    {
        let handler = bus.irq_handler();
        if handler == 0 || handler == 0xffff_ffff {
            return ;
        }
        self.irq_frame = Some(IrqFrame { regs: self.r, cpsr: self.cpsr });
        self.r[14] = IRQ_RETURN_SENTINEL | 1;
        self.cpsr = self.cpsr | FLAG_I;
        self.branch_to(handler);
    }

    /// Runs one step: waits out IntrWait or a halt (32 cycles), enters the
    /// interrupt handler when an enabled interrupt is pending, takes a game
    /// routine shortcut, or fetches and executes one instruction (1 cycle).
    /// Fetches the instruction at the program counter, moves past it, and
    /// executes it (an ARM instruction only when its condition holds).
    fn fetch_and_execute<H: Host>(&mut self, bus: &mut Bus, host: &H)
        requires
            old(self)@.wf(),
            bus_ok(old(bus)@),
        ensures
            final(self)@.wf(),
            bus_ok(final(bus)@),
            store_frame(old(bus)@, final(bus)@),
            !next_is_swi(old(self)@, old(bus)@) ==> (final(self)@, final(bus)@) == fetch_execute(
                old(self)@,
                old(bus)@,
            ),
            next_is_swi(old(self)@, old(bus)@) ==> swi_step(
                old(self)@,
                old(bus)@,
                final(self)@,
                final(bus)@,
            ),
    {
        if self.is_thumb() {
            let pc = self.r[15] & !1u32;
            let instr = bus.read16(pc);
            self.last_pc = pc;
            self.last_instr = instr as u32;
            self.last_thumb = true;
            self.r[15] = pc.wrapping_add(2);
            if self.trace {
                host.trace(pc, instr as u32, true);
            }
            self.execute_thumb(instr, pc, bus, host);
        } else {
            let pc = self.r[15] & !3u32;
            let instr = bus.read32(pc);
            self.last_pc = pc;
            self.last_instr = instr;
            self.last_thumb = false;
            self.r[15] = pc.wrapping_add(4);
            if self.trace {
                host.trace(pc, instr, false);
            }
            if self.condition((instr >> 28u32) as u8) {
                self.execute_arm(instr, pc, bus, host);
            }
        }
    }

    /// A step of an awake core: a pending interrupt is entered, then a game
    /// routine shortcut or the next instruction runs.
    fn run_awake<H: Host>(&mut self, bus: &mut Bus, host: &H)
        requires
            old(self)@.wf(),
            bus_ok(old(bus)@),
        ensures
            final(self)@.wf(),
            bus_ok(final(bus)@),
            store_frame(old(bus)@, final(bus)@),
            ({
                let c2 = take_irq(old(self)@, old(bus)@);
                direct_input_idle(old(bus)@) && !shortcut_site(c2, old(bus)@) && !next_is_swi(
                    c2,
                    old(bus)@,
                ) ==> (final(self)@, final(bus)@) == fetch_execute(c2, old(bus)@)
            }),
            ({
                let (handled, c3, b3) = shortcut_step(take_irq(old(self)@, old(bus)@), old(bus)@);
                if handled {
                    (final(self)@, final(bus)@) == (c3, b3)
                } else if next_is_swi(c3, b3) {
                    swi_step(c3, b3, final(self)@, final(bus)@)
                } else {
                    (final(self)@, final(bus)@) == fetch_execute(c3, b3)
                }
            }),
    {
        if self.irq_frame.is_none() && self.cpsr & FLAG_I == 0 && bus.irq_pending() != 0 {
            self.enter_irq_hle(bus);
        }
        if self.try_sound_mixer_hle(bus) {
            return;
        }
        self.fetch_and_execute(bus, host);
    }

    pub fn step<H: Host>(&mut self, bus: &mut Bus, host: &H) -> (cycles: u32)
        requires
            old(self)@.wf(),
            bus_ok(old(bus)@),
        ensures
            final(self)@.wf(),
            bus_ok(final(bus)@),
            store_frame(old(bus)@, final(bus)@),
            cycles == 32 || cycles == 1,
            (match old(self)@.wait_flags {
                Some(f) => old(bus)@.io16(0x202) & f == 0,
                None => old(self)@.halted && old(bus)@.irq_pending() == 0,
            }) ==> cycles == 32 && final(self)@ == old(self)@ && final(bus)@ == old(bus)@,
            cycles == 32 ==> final(self)@ == old(self)@ && final(bus)@ == old(bus)@,
            runs(old(self)@, old(bus)@) ==> cycles == 1,
            ({
                let (c1, b1) = woken(old(self)@, old(bus)@);
                let c2 = take_irq(c1, b1);
                runs(old(self)@, old(bus)@) && direct_input_idle(b1) && !shortcut_site(c2, b1)
                    && !next_is_swi(c2, b1) ==> (final(self)@, final(bus)@) == fetch_execute(c2, b1)
            }),
            cpu_step(old(self)@, old(bus)@) matches Some((c, cpu, b)) ==> cycles == c && final(self)@
                == cpu && final(bus)@ == b,
            cpu_step(old(self)@, old(bus)@) is None ==> cycles == 1 && cpu_swi_step(
                old(self)@,
                old(bus)@,
                final(self)@,
                final(bus)@,
            ),
    {
        if let Some(flags) = self.wait_flags {
            if bus.wait_ready(flags) {
                bus.clear_if(flags);
                self.wait_flags = None;
                self.halted = false;
            } else {
                return 32;
            }
        } else if self.halted {
            if bus.irq_pending() != 0 {
                self.halted = false;
            } else {
                return 32;
            }
        }
        self.run_awake(bus, host);
        1
    }
}

} // verus!
