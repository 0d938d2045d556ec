//! The whole machine: the core and its bus, stepped together, with frame and
//! breakpoint runners and the keypad.

use vstd::prelude::*;
use crate::bus::{Bus, BusView, beam_after, bus_step, power_on_bus};
use crate::cartridge::{Flash, FlashView, loaded_flash};
use crate::bios::{lemma_swi_effect_unique, swi_asks_host};
use crate::cpu::{Cpu, CpuView, bus_ok, cpu_step, cpu_swi_step, fetched, swi_code, take_irq, woken};
use crate::hle::shortcut_step;
use crate::host::Host;

verus! {

/// The most steps one frame may take before it is given up.
pub const FRAME_STEP_LIMIT: u64 = 20_000_000;

pub struct Gba {
    pub cpu: Cpu,
    pub bus: Bus,
}

/// The keys of the console, in KEYINPUT bit order.
#[derive(Debug, Clone, Copy, PartialEq, Eq, Structural)]
pub enum Button {
    A,
    B,
    Select,
    Start,
    Right,
    Left,
    Up,
    Down,
    R,
    L,
}

/// KEYINPUT bit of a key.
pub open spec fn button_bit(button: Button) -> u16 {
    match button {
        Button::A => 0,
        Button::B => 1,
        Button::Select => 2,
        Button::Start => 3,
        Button::Right => 4,
        Button::Left => 5,
        Button::Up => 6,
        Button::Down => 7,
        Button::R => 8,
        Button::L => 9,
    }
}

impl Button {
    /// KEYINPUT bit of this key.
    pub fn bit(self) -> (r: u16)
        ensures
            r == button_bit(self),
            r < 10,
    {
        match self {
            Button::A => 0,
            Button::B => 1,
            Button::Select => 2,
            Button::Start => 3,
            Button::Right => 4,
            Button::Left => 5,
            Button::Up => 6,
            Button::Down => 7,
            Button::R => 8,
            Button::L => 9,
        }
    }
}

/// Whether `pc` lies in the mapped address space below the save memory.
pub open spec fn spec_valid_pc(pc: u32) -> bool {
    pc <= 0x0dff_ffff
}

pub fn valid_pc(pc: u32) -> (r: bool)
    ensures
        r == spec_valid_pc(pc),
{
    pc <= 0x0dff_ffff
}

/// One step of the machine from core `c` and bus `b` to `c2` and `b2`: the
/// core steps, then the bus catches up by the cycles it took (one for a BIOS
/// call).
pub open spec fn machine_step(c: CpuView, b: BusView, c2: CpuView, b2: BusView) -> bool {
    match cpu_step(c, b) {
        Some((cycles, c1, b1)) => c2 == c1 && b2 == bus_step(b1, cycles),
        None => exists|b1: BusView| cpu_swi_step(c, b, c2, b1) && b2 == bus_step(b1, 1),
    }
}

/// Whether `states` is a run of the machine: each state follows from the one
/// before it by one step.
pub open spec fn is_run(states: Seq<(CpuView, BusView)>) -> bool {
    &&& states.len() >= 1
    &&& forall|i: int|
        0 <= i < states.len() - 1 ==> #[trigger] machine_step(
            states[i].0,
            states[i].1,
            states[i + 1].0,
            states[i + 1].1,
        )
}

/// A run that is one step longer.
proof fn lemma_run_push(states: Seq<(CpuView, BusView)>, c: CpuView, b: BusView)
    requires
        is_run(states),
        machine_step(states.last().0, states.last().1, c, b),
    ensures
        is_run(states.push((c, b))),
        states.push((c, b)).drop_last() == states,
{
    let t = states.push((c, b));
    assert forall|i: int| 0 <= i < t.len() - 1 implies #[trigger] machine_step(
        t[i].0,
        t[i].1,
        t[i + 1].0,
        t[i + 1].1,
    ) by {
        if i < states.len() - 1 {
            assert(t[i] == states[i] && t[i + 1] == states[i + 1]);
            assert(machine_step(states[i].0, states[i].1, states[i + 1].0, states[i + 1].1));
        } else {
            assert(t[i] == states.last() && t[i + 1] == (c, b));
        }
    }
    assert(t.drop_last() =~= states);
}

/// Whether the step from (`c`, `b`) is a BIOS call whose result the host
/// computes.
pub open spec fn asks_host(c: CpuView, b: BusView) -> bool {
    let (c1, b1) = woken(c, b);
    let (_, c3, b3) = shortcut_step(take_irq(c1, b1), b1);
    cpu_step(c, b) is None && swi_asks_host(swi_code(c3, b3))
}

/// A step that does not ask the host has one outcome: two equal machines
/// step to equal machines.
pub proof fn law_step_deterministic(
    c: CpuView,
    b: BusView,
    c1: CpuView,
    b1: BusView,
    c2: CpuView,
    b2: BusView,
)
    requires
        !asks_host(c, b),
        machine_step(c, b, c1, b1),
        machine_step(c, b, c2, b2),
    ensures
        c1 == c2 && b1 == b2,
{
    if cpu_step(c, b) is None {
        let (w1, v1) = woken(c, b);
        let (_, c3, b3) = shortcut_step(take_irq(w1, v1), v1);
        let m1 = choose|m: BusView| cpu_swi_step(c, b, c1, m) && b1 == bus_step(m, 1);
        let m2 = choose|m: BusView| cpu_swi_step(c, b, c2, m) && b2 == bus_step(m, 1);
        lemma_swi_effect_unique(swi_code(c3, b3), fetched(c3, b3), b3, c1, m1, c2, m2);
    }
}

/// A run without its last state is a run.
proof fn lemma_run_drop_last(s: Seq<(CpuView, BusView)>)
    requires
        is_run(s),
        s.len() > 1,
    ensures
        is_run(s.drop_last()),
{
    let t = s.drop_last();
    assert forall|i: int| 0 <= i < t.len() - 1 implies #[trigger] machine_step(
        t[i].0,
        t[i].1,
        t[i + 1].0,
        t[i + 1].1,
    ) by {
        assert(t[i] == s[i] && t[i + 1] == s[i + 1]);
        assert(machine_step(s[i].0, s[i].1, s[i + 1].0, s[i + 1].1));
    }
}

/// Two runs of the same length from the same machine, neither asking the
/// host before its last state, are the same run.
#[verifier::rlimit(50)]
pub proof fn law_runs_agree(s1: Seq<(CpuView, BusView)>, s2: Seq<(CpuView, BusView)>)
    requires
        is_run(s1),
        is_run(s2),
        s1.len() == s2.len(),
        s1[0] == s2[0],
        forall|i: int| 0 <= i < s1.len() - 1 ==> !asks_host(#[trigger] s1[i].0, s1[i].1),
    ensures
        s1 == s2,
    decreases s1.len(),
{
    if s1.len() > 1 {
        let n = s1.len() - 1;
        let t1 = s1.drop_last();
        let t2 = s2.drop_last();
        lemma_run_drop_last(s1);
        lemma_run_drop_last(s2);
        assert forall|i: int| 0 <= i < t1.len() - 1 implies !asks_host(#[trigger] t1[i].0, t1[i].1) by {
            assert(t1[i] == s1[i]);
        }
        law_runs_agree(t1, t2);
        assert(t1[n - 1] == t2[n - 1]);
        assert(s1[n - 1] == s2[n - 1]);
        let k = n - 1;
        assert(machine_step(s1[k].0, s1[k].1, s1[k + 1].0, s1[k + 1].1));
        assert(machine_step(s2[k].0, s2[k].1, s2[k + 1].0, s2[k + 1].1));
        law_step_deterministic(s1[k].0, s1[k].1, s1[k + 1].0, s1[k + 1].1, s2[k + 1].0, s2[k + 1].1);
        assert forall|i: int| 0 <= i < s1.len() implies s1[i] == s2[i] by {
            if i < n {
                assert(s1[i] == t1[i] && s2[i] == t2[i]);
            }
        }
        assert(s1 =~= s2);
    } else {
        assert(s1 =~= s2);
    }
}

/// The first `m` states of a run are a run.
proof fn lemma_run_take(s: Seq<(CpuView, BusView)>, m: int)
    requires
        is_run(s),
        1 <= m <= s.len(),
    ensures
        is_run(s.take(m)),
{
    let t = s.take(m);
    assert forall|i: int| 0 <= i < t.len() - 1 implies #[trigger] machine_step(
        t[i].0,
        t[i].1,
        t[i + 1].0,
        t[i + 1].1,
    ) by {
        assert(t[i] == s[i] && t[i + 1] == s[i + 1]);
        assert(machine_step(s[i].0, s[i].1, s[i + 1].0, s[i + 1].1));
    }
}

/// Whether no run from (`c`, `b`) asks the host before its last state.
pub open spec fn never_asks_host(c: CpuView, b: BusView) -> bool {
    forall|states: Seq<(CpuView, BusView)>|
        #[trigger] is_run(states) && states[0] == (c, b) ==> forall|i: int|
            0 <= i < states.len() - 1 ==> !asks_host(#[trigger] states[i].0, states[i].1)
}

/// Running a frame from equal machines that ask nothing of the host ends in
/// equal machines: a headless run replays the same way.
#[verifier::rlimit(50)]
pub proof fn law_frame_run_deterministic(
    c: CpuView,
    b: BusView,
    c1: CpuView,
    b1: BusView,
    c2: CpuView,
    b2: BusView,
)
    requires
        never_asks_host(c, b),
        frame_run(c, b, c1, b1),
        frame_run(c, b, c2, b2),
    ensures
        c1 == c2 && b1 == b2,
{
    let s1 = choose|states: Seq<(CpuView, BusView)>|
        {
            &&& is_run(states)
            &&& states[0] == (c, b)
            &&& states.last() == (c1, b1)
            &&& states.len() <= FRAME_STEP_LIMIT + 2
            &&& forall|i: int|
                0 <= i < states.len() - 1 ==> #[trigger] states[i].1.frame == b.frame
            &&& b1.frame == vstd::wrapping::u64_specs::wrapping_add(b.frame, 1) || states.len()
                == FRAME_STEP_LIMIT + 2
        };
    let s2 = choose|states: Seq<(CpuView, BusView)>|
        {
            &&& is_run(states)
            &&& states[0] == (c, b)
            &&& states.last() == (c2, b2)
            &&& states.len() <= FRAME_STEP_LIMIT + 2
            &&& forall|i: int|
                0 <= i < states.len() - 1 ==> #[trigger] states[i].1.frame == b.frame
            &&& b2.frame == vstd::wrapping::u64_specs::wrapping_add(b.frame, 1) || states.len()
                == FRAME_STEP_LIMIT + 2
        };
    lemma_frame_runs_same_length(c, b, s1, s2);
    lemma_frame_runs_same_length(c, b, s2, s1);
    assert(s1.len() == s2.len());
    law_runs_agree(s1, s2);
}

/// A frame run is no longer than another from the same machine that has
/// stopped.
proof fn lemma_frame_runs_same_length(
    c: CpuView,
    b: BusView,
    s1: Seq<(CpuView, BusView)>,
    s2: Seq<(CpuView, BusView)>,
)
    requires
        never_asks_host(c, b),
        is_run(s1),
        is_run(s2),
        s1[0] == (c, b),
        s2[0] == (c, b),
        s1.len() <= FRAME_STEP_LIMIT + 2,
        s2.len() <= FRAME_STEP_LIMIT + 2,
        forall|i: int| 0 <= i < s1.len() - 1 ==> #[trigger] s1[i].1.frame == b.frame,
        forall|i: int| 0 <= i < s2.len() - 1 ==> #[trigger] s2[i].1.frame == b.frame,
        s2.last().1.frame == vstd::wrapping::u64_specs::wrapping_add(b.frame, 1) || s2.len()
            == FRAME_STEP_LIMIT + 2,
    ensures
        s1.len() <= s2.len(),
{
    if s1.len() > s2.len() {
        let m = s2.len() as int;
        let u = s1.take(m);
        lemma_run_take(s1, m);
        assert(never_asks_host(c, b));
        assert(is_run(s1) && s1[0] == (c, b));
        assert forall|i: int| 0 <= i < u.len() - 1 implies !asks_host(#[trigger] u[i].0, u[i].1) by {
            assert(u[i] == s1[i]);
            assert(!asks_host(s1[i].0, s1[i].1));
        }
        law_runs_agree(u, s2);
        // s2 stopped at its last state while s1 went on from the same state.
        assert(u[m - 1] == s1[m - 1]);
        assert(s2[m - 1] == s1[m - 1]);
        assert(s1[m - 1].1.frame == b.frame);
        assert(vstd::wrapping::u64_specs::wrapping_add(b.frame, 1) != b.frame);
    }
}

/// How many times the program counter must be seen at the breakpoint for a
/// hit target of `hit_target`: at least once.
pub open spec fn hits_needed(hit_target: u64) -> nat {
    if hit_target == 0 {
        1
    } else {
        hit_target as nat
    }
}

/// How many of `states` have the program counter at `pc`.
pub open spec fn pc_hits(states: Seq<(CpuView, BusView)>, pc: u32) -> nat
    decreases states.len(),
{
    if states.len() == 0 {
        0
    } else {
        pc_hits(states.drop_last(), pc) + if states.last().0.r[15] == pc {
            1nat
        } else {
            0nat
        }
    }
}

/// Running one frame takes the machine from (`c`, `b`) to (`c2`, `b2`): it
/// steps while the frame counter has not advanced, and stops when it has or
/// after `FRAME_STEP_LIMIT + 1` steps.
pub open spec fn frame_run(c: CpuView, b: BusView, c2: CpuView, b2: BusView) -> bool {
    exists|states: Seq<(CpuView, BusView)>|
        {
            &&& is_run(states)
            &&& states[0] == (c, b)
            &&& states.last() == (c2, b2)
            &&& states.len() <= FRAME_STEP_LIMIT + 2
            &&& forall|i: int|
                0 <= i < states.len() - 1 ==> #[trigger] states[i].1.frame == b.frame
            &&& b2.frame == vstd::wrapping::u64_specs::wrapping_add(b.frame, 1) || states.len()
                == FRAME_STEP_LIMIT + 2
        }
}

impl Gba {
    pub open spec fn wf(&self) -> bool {
        self.cpu@.wf() && bus_ok(self.bus@)
    }

    /// Whether the machine has the shape the core is proved for: buffers of
    /// the right sizes, the beam within a frame, timers within their
    /// prescalers, a valid flash bank and a short write log.
    pub fn is_well_formed(&self) -> (r: bool)
        ensures
            r == self.wf(),
    {
        let b = &self.bus;
        let mut timers_fine = true;
        let mut i: usize = 0;
        while i < 4
            invariant
                i <= 4,
                timers_fine == forall|k: int| 0 <= k < i ==> #[trigger] b.timers@[k].divider < 1024,
            decreases 4 - i,
        {
            if b.timers[i].divider >= 1024 {
                timers_fine = false;
            }
            i = i + 1;
        }
        let r = b.rom.len() >= 1 && b.ewram.len() == crate::bus::EWRAM_SIZE && b.iwram.len()
            == crate::bus::IWRAM_SIZE && b.pram.len() == crate::bus::PRAM_SIZE && b.vram.len()
            == crate::bus::VRAM_SIZE && b.oam.len() == crate::bus::OAM_SIZE && b.ppu.frame.len()
            == crate::ppu::FRAME_PIXELS && b.ppu.line < crate::ppu::TOTAL_LINES && b.ppu.line_cycles
            < crate::ppu::LINE_CYCLES && timers_fine && b.flash.data.len() == crate::cartridge::FLASH_SIZE
            && b.flash.bank <= 1 && b.io_log.len() <= crate::bus::IO_LOG_LEN;
        proof {
            if r {
                assert(crate::bus::timers_ok(b@));
            }
        }
        r
    }

    /// A machine at power-on with `rom` inserted, the save memory loaded
    /// from `saved` when given, and instruction tracing on or off.
    pub fn new(rom: Vec<u8>, saved: Option<&[u8]>, trace: bool) -> (g: Gba)
        ensures
            g.wf(),
            g.cpu@ == crate::cpu::spec_cpu_reset(trace),
            g.bus@.rom == (if rom@.len() == 0 {
                seq![0xffu8]
            } else {
                rom@
            }),
            g.bus@ == power_on_bus(
                g.bus@.rom,
                loaded_flash(
                    match saved {
                        Some(s) => Some(s@),
                        None => None,
                    },
                ),
            ),
            g.bus@.frame == 0,
            g.bus@.io16(0x130) == 0x03ff,
    {
        let flash = Flash::new(saved);
        Gba { cpu: Cpu::new(trace), bus: Bus::new(rom, flash) }
    }

    /// One core step followed by the bus catching up by the cycles it took.
    pub fn step_once<H: Host>(&mut self, host: &H)
        requires
            old(self).wf(),
        ensures
            final(self).wf(),
            final(self).bus@.rom == old(self).bus@.rom,
            final(self).bus@.frame == old(self).bus@.frame || final(self).bus@.frame
                == vstd::wrapping::u64_specs::wrapping_add(old(self).bus@.frame, 1),
            machine_step(old(self).cpu@, old(self).bus@, final(self).cpu@, final(self).bus@),
    {
        let cycles = self.cpu.step(&mut self.bus, host);
        let ghost b = self.bus@;
        self.bus.step(if cycles > 1 {
            cycles
        } else {
            1
        });
    }

    /// Runs until the next frame is complete, or gives up (and tells the
    /// host) after `FRAME_STEP_LIMIT` steps: the machine steps from its state
    /// while the frame counter has not advanced.
    pub fn run_frame<H: Host>(&mut self, host: &H)
        requires
            old(self).wf(),
        ensures
            final(self).wf(),
            final(self).bus@.rom == old(self).bus@.rom,
            final(self).bus@.frame == old(self).bus@.frame || final(self).bus@.frame
                == vstd::wrapping::u64_specs::wrapping_add(old(self).bus@.frame, 1),
            frame_run(old(self).cpu@, old(self).bus@, final(self).cpu@, final(self).bus@),
    {
        let start = self.bus.frame_count();
        let target = start.wrapping_add(1);
        let mut guard: u64 = 0;
        let ghost mut states: Seq<(CpuView, BusView)> = seq![(self.cpu@, self.bus@)];
        while self.bus.frame_count() != target
            invariant_except_break
                states.len() == guard + 1,
            invariant
                self.wf(),
                self.bus@.rom == old(self).bus@.rom,
                start == old(self).bus@.frame,
                target == vstd::wrapping::u64_specs::wrapping_add(start, 1),
                self.bus@.frame == start || self.bus@.frame == target,
                guard <= FRAME_STEP_LIMIT,
                is_run(states),
                states[0] == (old(self).cpu@, old(self).bus@),
                states.last() == (self.cpu@, self.bus@),
                states.len() <= FRAME_STEP_LIMIT + 2,
                forall|i: int| 0 <= i < states.len() - 1 ==> #[trigger] states[i].1.frame == start,
            ensures
                is_run(states),
                states[0] == (old(self).cpu@, old(self).bus@),
                states.last() == (self.cpu@, self.bus@),
                states.len() <= FRAME_STEP_LIMIT + 2,
                forall|i: int| 0 <= i < states.len() - 1 ==> #[trigger] states[i].1.frame == start,
                self.bus@.frame == target || states.len() == FRAME_STEP_LIMIT + 2,
            decreases FRAME_STEP_LIMIT - guard,
        {
            let ghost prev = states;
            self.step_once(host);
            proof {
                lemma_run_push(states, self.cpu@, self.bus@);
                states = states.push((self.cpu@, self.bus@));
                assert forall|i: int| 0 <= i < states.len() - 1 implies #[trigger] states[i].1.frame
                    == start by {
                    if i < prev.len() - 1 {
                        assert(states[i] == prev[i]);
                    } else {
                        assert(states[i] == prev.last());
                    }
                }
            }
            if guard >= FRAME_STEP_LIMIT {
                host.frame_guard_tripped(self.cpu.pc());
                break ;
            }
            guard = guard + 1;
        }
    }

    /// Runs until the program counter reaches `pc`, at most `max_steps`
    /// steps; returns whether it did.
    pub fn run_until_pc<H: Host>(&mut self, pc: u32, max_steps: u64, host: &H) -> (r: bool)
        requires
            old(self).wf(),
        ensures
            final(self).wf(),
            final(self).bus@.rom == old(self).bus@.rom,
            r ==> final(self).cpu@.r[15] == pc,
            exists|states: Seq<(CpuView, BusView)>|
                {
                    &&& is_run(states)
                    &&& states[0] == (old(self).cpu@, old(self).bus@)
                    &&& states.last() == (final(self).cpu@, final(self).bus@)
                    &&& r ==> pc_hits(states, pc) == 1 && states.len() <= max_steps
                    &&& !r ==> pc_hits(states.drop_last(), pc) == 0 && states.len() == max_steps
                        + 1
                },
    {
        self.run_until_pc_hit(pc, 1, max_steps, host)
    }

    /// Runs until the program counter has been seen at `pc` `hit_target`
    /// times (at least once), at most `max_steps` steps; returns whether it
    /// was. The program counter is looked at before each step.
    pub fn run_until_pc_hit<H: Host>(
        &mut self,
        pc: u32,
        hit_target: u64,
        max_steps: u64,
        host: &H,
    ) -> (r: bool)
        requires
            old(self).wf(),
        ensures
            final(self).wf(),
            final(self).bus@.rom == old(self).bus@.rom,
            r ==> final(self).cpu@.r[15] == pc,
            exists|states: Seq<(CpuView, BusView)>|
                {
                    &&& is_run(states)
                    &&& states[0] == (old(self).cpu@, old(self).bus@)
                    &&& states.last() == (final(self).cpu@, final(self).bus@)
                    &&& r ==> pc_hits(states, pc) == hits_needed(hit_target) && states.len()
                        <= max_steps
                    &&& !r ==> pc_hits(states.drop_last(), pc) < hits_needed(hit_target)
                        && states.len() == max_steps + 1
                },
    {
        let ghost need = hits_needed(hit_target);
        let mut hits: u64 = 0;
        let mut step: u64 = 0;
        let ghost mut states: Seq<(CpuView, BusView)> = seq![(self.cpu@, self.bus@)];
        proof {
            assert(states.drop_last() =~= Seq::<(CpuView, BusView)>::empty());
        }
        while step < max_steps
            invariant
                self.wf(),
                self.bus@.rom == old(self).bus@.rom,
                step <= max_steps,
                need == hits_needed(hit_target),
                is_run(states),
                states[0] == (old(self).cpu@, old(self).bus@),
                states.last() == (self.cpu@, self.bus@),
                states.len() == step + 1,
                hits == pc_hits(states.drop_last(), pc),
                hits < need,
            decreases max_steps - step,
        {
            if self.cpu.pc() == pc {
                hits = hits + 1;
                if hits >= hit_target {
                    return true;
                }
            }
            proof {
                assert(hits == pc_hits(states, pc));
            }
            self.step_once(host);
            proof {
                lemma_run_push(states, self.cpu@, self.bus@);
                states = states.push((self.cpu@, self.bus@));
            }
            step = step + 1;
        }
        false
    }

    /// Runs until the program counter leaves the mapped code space, at most
    /// `max_steps` steps; returns whether it did. The program counter is
    /// looked at before each step.
    pub fn run_until_invalid<H: Host>(&mut self, max_steps: u64, host: &H) -> (r: bool)
        requires
            old(self).wf(),
        ensures
            final(self).wf(),
            final(self).bus@.rom == old(self).bus@.rom,
            r ==> !spec_valid_pc(final(self).cpu@.r[15]),
            exists|states: Seq<(CpuView, BusView)>|
                {
                    &&& is_run(states)
                    &&& states[0] == (old(self).cpu@, old(self).bus@)
                    &&& states.last() == (final(self).cpu@, final(self).bus@)
                    &&& forall|i: int|
                        0 <= i < states.len() - 1 ==> spec_valid_pc(#[trigger] states[i].0.r[15])
                    &&& r ==> states.len() <= max_steps
                    &&& !r ==> states.len() == max_steps + 1
                },
    {
        let mut step: u64 = 0;
        let ghost mut states: Seq<(CpuView, BusView)> = seq![(self.cpu@, self.bus@)];
        while step < max_steps
            invariant
                self.wf(),
                self.bus@.rom == old(self).bus@.rom,
                step <= max_steps,
                is_run(states),
                states[0] == (old(self).cpu@, old(self).bus@),
                states.last() == (self.cpu@, self.bus@),
                states.len() == step + 1,
                forall|i: int|
                    0 <= i < states.len() - 1 ==> spec_valid_pc(#[trigger] states[i].0.r[15]),
            decreases max_steps - step,
        {
            if !valid_pc(self.cpu.pc()) {
                return true;
            }
            let ghost prev = states;
            self.step_once(host);
            proof {
                lemma_run_push(states, self.cpu@, self.bus@);
                states = states.push((self.cpu@, self.bus@));
                assert forall|i: int| 0 <= i < states.len() - 1 implies spec_valid_pc(
                    #[trigger] states[i].0.r[15],
                ) by {
                    if i < prev.len() - 1 {
                        assert(states[i] == prev[i]);
                    } else {
                        assert(states[i] == prev.last());
                    }
                }
            }
            step = step + 1;
        }
        false
    }

    /// The frame last drawn, one 0x00RRGGBB word per pixel, row by row.
    pub fn framebuffer(&self) -> (r: &[u32])
        ensures
            r@ == self.bus.ppu.frame@,
    {
        self.bus.framebuffer()
    }

    /// Writes the save chip out through `write` when it changed; see
    /// [`Bus::flush_save`].
    pub fn flush_save<E, F: FnOnce(&[u8]) -> Result<(), E>>(&mut self, write: F) -> (r: Result<(), E>)
        requires
            old(self).wf(),
            old(self).bus.flash.dirty ==> forall|s: &[u8]| s@ == old(self).bus.flash.data@ ==> call_requires(write, (s,)),
        ensures
            final(self).wf(),
            final(self).cpu@ == old(self).cpu@,
            !old(self).bus@.flash.dirty ==> r is Ok && final(self).bus@ == old(self).bus@,
            old(self).bus@.flash.dirty ==> exists|s: &[u8]| s@ == old(self).bus@.flash.data && call_ensures(write, (s,), r),
            old(self).bus@.flash.dirty ==> final(self).bus@ == (BusView {
                flash: FlashView { dirty: r is Err, ..old(self).bus@.flash },
                ..old(self).bus@
            }),
    {
        self.bus.flush_save(write)
    }

    /// The same as [`Gba::flush_save`].
    pub fn flush_save_if_dirty<E, F: FnOnce(&[u8]) -> Result<(), E>>(&mut self, write: F) -> (r: Result<(), E>)
        requires
            old(self).wf(),
            old(self).bus.flash.dirty ==> forall|s: &[u8]| s@ == old(self).bus.flash.data@ ==> call_requires(write, (s,)),
        ensures
            final(self).wf(),
            final(self).cpu@ == old(self).cpu@,
            !old(self).bus@.flash.dirty ==> r is Ok && final(self).bus@ == old(self).bus@,
            old(self).bus@.flash.dirty ==> exists|s: &[u8]| s@ == old(self).bus@.flash.data && call_ensures(write, (s,), r),
            old(self).bus@.flash.dirty ==> final(self).bus@ == (BusView {
                flash: FlashView { dirty: r is Err, ..old(self).bus@.flash },
                ..old(self).bus@
            }),
    {
        self.bus.flush_save_if_dirty(write)
    }

    /// Turns instruction tracing on or off.
    pub fn set_trace(&mut self, on: bool)
        requires
            old(self).wf(),
        ensures
            final(self).wf(),
            final(self).cpu@ == (CpuView { trace: on, ..old(self).cpu@ }),
            final(self).bus@ == old(self).bus@,
    {
        self.cpu.set_trace(on);
    }

    /// Presses or releases `button`.
    pub fn set_button(&mut self, button: Button, pressed: bool)
        requires
            old(self).wf(),
        ensures
            final(self).wf(),
            final(self).cpu@ == old(self).cpu@,
            final(self).bus@ == old(self).bus@.set_button(button_bit(button), pressed),
    {
        self.bus.set_button(button.bit(), pressed);
    }
}

} // verus!
