//! Plain-text state dumps of the core, the bus and the game's overworld
//! structures, for diagnosing a run.

use vstd::prelude::*;
use crate::bits::le16;
use crate::bus::{Bus, BusView, IoWrite};
use crate::cpu::{Cpu, CpuView, wadd, wsub, bus_ok};
use crate::gba::Gba;
use crate::text::{
    hex_field,
    dec_field,
    signed_field,
    push_hex_field,
    push_dec_field,
    push_signed_field,
    hex_text,
    dec_text,
    signed_text,
    bool_text,
    push_str,
    push_hex,
    push_dec,
    push_signed,
    push_bool,
    string_from_chars,
};

verus! {

pub open spec fn opt_text(v: Option<u16>) -> Seq<char> {
    match v {
        Some(x) => "Some("@ + dec_text(x as nat, 0) + ")"@,
        None => "None"@,
    }
}

/// One register row of the core dump: `\nrAA-rBB` and four registers.
pub open spec fn reg_row(c: CpuView, row: int) -> Seq<char> {
    "\nr"@ + dec_text((row * 4) as nat, 2) + "-r"@ + dec_text((row * 4 + 3) as nat, 2) + col_text(
        c,
        row * 4,
        4,
    )
}

pub open spec fn reg_rows(c: CpuView, n: nat) -> Seq<char>
    decreases n,
{
    if n == 0 {
        Seq::empty()
    } else {
        reg_rows(c, (n - 1) as nat) + reg_row(c, n - 1)
    }
}

/// The core dump: program counter, link and stack registers, status,
/// wait state, the last instruction, and all registers.
pub open spec fn cpu_summary(c: CpuView) -> Seq<char> {
    cpu_regs_line(c) + cpu_state_line(c) + reg_rows(c, 4)
}

pub open spec fn cpu_regs_line(c: CpuView) -> Seq<char> {
    "CPU pc="@ + hex_text(c.r[15] as nat, 8) + " lr="@ + hex_text(c.r[14] as nat, 8) + " sp="@
        + hex_text(c.r[13] as nat, 8) + " cpsr="@ + hex_text(c.cpsr as nat, 8)
}

pub open spec fn cpu_state_line(c: CpuView) -> Seq<char> {
    cpu_wait_text(c) + cpu_last_text(c)
}

pub open spec fn cpu_wait_text(c: CpuView) -> Seq<char> {
    " thumb="@ + bool_text(c.thumb()) + " halted="@ + bool_text(c.halted) + " wait="@ + opt_text(
        c.wait_flags,
    )
}

pub open spec fn cpu_last_text(c: CpuView) -> Seq<char> {
    " irq_hle="@ + bool_text(c.irq_frame is Some) + " last="@ + hex_text(c.last_pc as nat, 8) + ":"@
        + hex_text(c.last_instr as nat, 8) + ":"@ + (if c.last_thumb {
        "thumb"@
    } else {
        "arm"@
    }) + " gameplay_hle="@ + bool_text(c.gameplay_hle) + " legacy_flow_hle="@ + bool_text(
        c.legacy_flow_hle,
    )
}

impl Cpu {
    fn write_reg_row(&self, out: &mut Vec<char>, row: u64)
        requires
            self@.wf(),
            row < 4,
        ensures
            final(out)@ == old(out)@ + reg_row(self@, row as int),
    {
        let ghost start = out@;
        push_str(out, "\nr");
        push_dec(out, row * 4, 2);
        push_str(out, "-r");
        push_dec(out, row * 4 + 3, 2);
        let base = (row * 4) as usize;
        let mut col: usize = 0;
        while col < 4
            invariant
                self@.wf(),
                row < 4,
                base == row * 4,
                col <= 4,
                out@ == start + "\nr"@ + dec_text((row * 4) as nat, 2) + "-r"@ + dec_text(
                    (row * 4 + 3) as nat,
                    2,
                ) + col_text(self@, base as int, col as int),
            decreases 4 - col,
        {
            push_str(out, " ");
            push_hex(out, self.r[base + col] as u64, 8);
            col = col + 1;
        }
        proof {
            assert(out@ =~= start + reg_row(self@, row as int));
        }
    }

    /// A plain-text dump of the core's state.
    pub fn debug_summary(&self) -> (s: String)
        requires
            self@.wf(),
        ensures
            s@ == cpu_summary(self@),
    {
        let mut out: Vec<char> = Vec::new();
        self.write_summary(&mut out);
        proof {
            assert(out@ =~= cpu_summary(self@));
        }
        string_from_chars(&out)
    }

    fn write_regs_line(&self, out: &mut Vec<char>)
        requires
            self@.wf(),
        ensures
            final(out)@ == old(out)@ + cpu_regs_line(self@),
    {
        let ghost start = out@;
        push_str(out, "CPU pc=");
        push_hex(out, self.r[15] as u64, 8);
        push_str(out, " lr=");
        push_hex(out, self.r[14] as u64, 8);
        push_str(out, " sp=");
        push_hex(out, self.r[13] as u64, 8);
        push_str(out, " cpsr=");
        push_hex(out, self.cpsr as u64, 8);
        proof {
            assert(out@ =~= start + cpu_regs_line(self@));
        }
    }

    fn write_wait_text(&self, out: &mut Vec<char>)
        requires
            self@.wf(),
        ensures
            final(out)@ == old(out)@ + cpu_wait_text(self@),
    {
        let ghost start = out@;
        push_str(out, " thumb=");
        push_bool(out, self.is_thumb());
        push_str(out, " halted=");
        push_bool(out, self.halted);
        push_str(out, " wait=");
        let ghost w = out@;
        match self.wait_flags {
            Some(f) => {
                push_str(out, "Some(");
                push_dec(out, f as u64, 0);
                push_str(out, ")");
            },
            None => {
                push_str(out, "None");
            },
        }
        proof {
            assert(out@ =~= w + opt_text(self.wait_flags));
            assert(out@ =~= start + cpu_wait_text(self@));
        }
    }

    fn write_last_text(&self, out: &mut Vec<char>)
        requires
            self@.wf(),
        ensures
            final(out)@ == old(out)@ + cpu_last_text(self@),
    {
        let ghost start = out@;
        push_str(out, " irq_hle=");
        push_bool(out, self.irq_frame.is_some());
        push_str(out, " last=");
        push_hex(out, self.last_pc as u64, 8);
        push_str(out, ":");
        push_hex(out, self.last_instr as u64, 8);
        push_str(out, ":");
        if self.last_thumb {
            push_str(out, "thumb");
        } else {
            push_str(out, "arm");
        }
        push_str(out, " gameplay_hle=");
        push_bool(out, self.gameplay_hle);
        push_str(out, " legacy_flow_hle=");
        push_bool(out, self.legacy_flow_hle);
        proof {
            assert(out@ =~= start + cpu_last_text(self@));
        }
    }

    pub fn write_summary(&self, out: &mut Vec<char>)
        requires
            self@.wf(),
        ensures
            final(out)@ == old(out)@ + cpu_summary(self@),
    {
        let ghost start = out@;
        self.write_regs_line(out);
        self.write_wait_text(out);
        self.write_last_text(out);
        let ghost head = out@;
        let mut row: u64 = 0;
        while row < 4
            invariant
                self@.wf(),
                row <= 4,
                out@ == head + reg_rows(self@, row as nat),
            decreases 4 - row,
        {
            self.write_reg_row(out, row);
            row = row + 1;
            proof {
                assert(out@ =~= head + reg_rows(self@, row as nat));
            }
        }
        proof {
            assert(out@ =~= start + cpu_summary(self@));
        }
    }
}

/// The registers `base` to `base + n - 1`, each as ` xxxxxxxx`.
pub open spec fn col_text(c: CpuView, base: int, n: int) -> Seq<char>
    decreases n,
{
    if n <= 0 {
        Seq::empty()
    } else {
        col_text(c, base, n - 1) + " "@ + hex_text(c.r[base + n - 1] as nat, 8)
    }
}

// ---------------------------------------------------------------------------
// The bus.

pub open spec fn bus_video_line(b: BusView) -> Seq<char> {
    dec_field("BUS frame="@, b.frame as nat, 0) + hex_field(" dispcnt="@, b.io16(0x000) as nat, 4)
        + hex_field(" dispstat="@, b.io16(0x004) as nat, 4) + dec_field(
        " vcount="@,
        b.io16(0x006) as nat,
        0,
    ) + hex_field(" bg0="@, b.io16(0x008) as nat, 4) + hex_field(" bg1="@, b.io16(0x00a) as nat, 4)
        + hex_field(" bg2="@, b.io16(0x00c) as nat, 4) + hex_field(" bg3="@, b.io16(0x00e) as nat, 4)
        + "\n"@
}

pub open spec fn bus_irq_line(b: BusView) -> Seq<char> {
    hex_field("IRQ ie="@, b.io16(0x200) as nat, 4) + hex_field(" if="@, b.io16(0x202) as nat, 4)
        + hex_field(" ime="@, b.io16(0x208) as nat, 4) + hex_field(" key="@, b.io16(0x130) as nat, 4)
        + hex_field(" waitcnt="@, b.io16(0x204) as nat, 4) + "\n"@
}

/// The number of non-zero bytes among the first `n` of `s`.
pub open spec fn nonzero_count(s: Seq<u8>, n: nat) -> nat
    decreases n,
{
    if n == 0 {
        0
    } else {
        nonzero_count(s, (n - 1) as nat) + if s[n - 1] != 0 {
            1nat
        } else {
            0nat
        }
    }
}

pub open spec fn bus_memstat_line(b: BusView) -> Seq<char> {
    dec_field("MEMSTAT pram_nz="@, nonzero_count(b.pram, b.pram.len()), 0) + dec_field(
        " vram_nz="@,
        nonzero_count(b.vram, b.vram.len()),
        0,
    ) + dec_field(" oam_nz="@, nonzero_count(b.oam, b.oam.len()), 0) + dec_field(
        " ewram_nz="@,
        nonzero_count(b.ewram, b.ewram.len()),
        0,
    ) + dec_field(" iwram_nz="@, nonzero_count(b.iwram, b.iwram.len()), 0) + "\n"@
}

/// `n` little-endian halfwords of `mem` from `off`, each as ` xxxx`.
pub open spec fn halfwords_text(mem: Seq<u8>, off: int, n: nat) -> Seq<char>
    decreases n,
{
    if n == 0 {
        Seq::empty()
    } else {
        let k = off + 2 * (n - 1);
        halfwords_text(mem, off, (n - 1) as nat) + hex_field(
            " "@,
            le16(mem[k], mem[k + 1]) as nat,
            4,
        )
    }
}

/// The VRAM offsets of the halfword rows of the bus dump.
pub open spec fn vram_row_base(i: int) -> int {
    if i == 0 {
        0x4000
    } else if i == 1 {
        0x8000
    } else if i == 2 {
        0xe000
    } else if i == 3 {
        0xe800
    } else if i == 4 {
        0xf000
    } else if i == 5 {
        0xf800
    } else if i == 6 {
        0x10000
    } else {
        0x14000
    }
}

pub open spec fn vram_rows_text(b: BusView, n: nat) -> Seq<char>
    decreases n,
{
    if n == 0 {
        Seq::empty()
    } else {
        let base = vram_row_base(n - 1);
        vram_rows_text(b, (n - 1) as nat) + hex_field("VRAM"@, base as nat, 5) + halfwords_text(
            b.vram,
            base,
            8,
        ) + "\n"@
    }
}

/// The first sixteen non-zero bytes among the first `n` of `mem`, each as
/// ` index:value` with the index in `width` hexadecimal digits.
pub open spec fn nonzero_text(mem: Seq<u8>, n: nat, width: nat) -> Seq<char>
    decreases n,
{
    if n == 0 {
        Seq::empty()
    } else {
        let i = n - 1;
        nonzero_text(mem, (n - 1) as nat, width) + if mem[i] != 0 && nonzero_count(
            mem,
            (n - 1) as nat,
        ) < 16 {
            hex_field(" "@, i as nat, width) + hex_field(":"@, mem[i] as nat, 2)
        } else {
            Seq::empty()
        }
    }
}

pub open spec fn io_log_line(item: IoWrite) -> Seq<char> {
    dec_field("  f="@, item.frame as nat, 0) + hex_field(" off="@, item.off as nat, 3) + dec_field(
        " size="@,
        item.size as nat,
        0,
    ) + hex_field(" value="@, item.value as nat, 8) + "\n"@
}

pub open spec fn io_log_text(log: Seq<IoWrite>, n: nat) -> Seq<char>
    decreases n,
{
    if n == 0 {
        Seq::empty()
    } else {
        io_log_text(log, (n - 1) as nat) + io_log_line(log[n - 1])
    }
}

#[verifier::opaque]
pub open spec fn dma_line(b: BusView, ch: int) -> Seq<char> {
    let base = 0x0b0 + ch * 12;
    dec_field("DMA"@, ch as nat, 0) + hex_field(" sad="@, b.io32(base) as nat, 8) + hex_field(
        " dad="@,
        b.io32(base + 4) as nat,
        8,
    ) + hex_field(" cur="@, b.dma_src[ch] as nat, 8) + hex_field("->"@, b.dma_dst[ch] as nat, 8)
        + hex_field(" count="@, b.io16(base + 8) as nat, 4) + hex_field(
        " cnt="@,
        b.io16(base + 10) as nat,
        4,
    ) + "\n"@
}

pub open spec fn timer_line(b: BusView, t: int) -> Seq<char> {
    let base = 0x100 + t * 4;
    dec_field("TM"@, t as nat, 0) + hex_field(" count="@, b.io16(base) as nat, 4) + hex_field(
        " reload="@,
        b.timers[t].reload as nat,
        4,
    ) + hex_field(" cnt="@, b.io16(base + 2) as nat, 4) + "\n"@
}

pub open spec fn channel_lines(b: BusView, n: nat) -> Seq<char>
    decreases n,
{
    if n == 0 {
        Seq::empty()
    } else {
        channel_lines(b, (n - 1) as nat) + dma_line(b, n - 1)
    }
}

pub open spec fn timer_lines(b: BusView, n: nat) -> Seq<char>
    decreases n,
{
    if n == 0 {
        Seq::empty()
    } else {
        timer_lines(b, (n - 1) as nat) + timer_line(b, n - 1)
    }
}

/// The bus dump: video and interrupt registers, memory statistics, sample
/// halfwords of palette and video memory, the first non-zero bytes, the
/// recent I/O writes, and the DMA channels and timers.
pub open spec fn bus_summary(b: BusView) -> Seq<char> {
    bus_head(b) + bus_samples(b) + bus_nonzero(b) + bus_tail(b)
}

pub open spec fn bus_head(b: BusView) -> Seq<char> {
    bus_video_line(b) + bus_irq_line(b) + bus_memstat_line(b)
}

pub open spec fn bus_samples(b: BusView) -> Seq<char> {
    "PRAM"@ + halfwords_text(b.pram, 0, 8) + "\n"@ + "VRAM0"@ + halfwords_text(b.vram, 0, 8)
        + "\n"@ + vram_rows_text(b, 8) + "PRAM100"@ + halfwords_text(b.pram, 0x100, 8) + "\n"@
}

pub open spec fn bus_nonzero(b: BusView) -> Seq<char> {
    "VRAM_NZ"@ + nonzero_text(b.vram, b.vram.len(), 5) + "\n"@ + "PRAM_NZ"@ + nonzero_text(
        b.pram,
        b.pram.len(),
        3,
    ) + "\n"@
}

pub open spec fn bus_tail(b: BusView) -> Seq<char> {
    "IOLOG\n"@ + io_log_text(b.io_log, b.io_log.len()) + channel_lines(b, 4) + timer_lines(b, 4)
}

fn count_nonzero(mem: &Vec<u8>) -> (r: u64)
    requires
        mem@.len() <= 0x40000,
    ensures
        r == nonzero_count(mem@, mem@.len()),
{
    let mut count: u64 = 0;
    let mut i: usize = 0;
    while i < mem.len()
        invariant
            i <= mem@.len() <= 0x40000,
            count == nonzero_count(mem@, i as nat),
            count <= i,
        decreases mem@.len() - i,
    {
        if mem[i] != 0 {
            count = count + 1;
        }
        i = i + 1;
    }
    count
}

fn write_halfwords(out: &mut Vec<char>, mem: &Vec<u8>, off: usize)
    requires
        off + 16 <= mem@.len(),
    ensures
        final(out)@ == old(out)@ + halfwords_text(mem@, off as int, 8),
{
    let ghost start = out@;
    let n = mem.len();
    let mut i: usize = 0;
    while i < 8
        invariant
            i <= 8,
            n == mem@.len(),
            off + 16 <= mem@.len(),
            out@ == start + halfwords_text(mem@, off as int, i as nat),
        decreases 8 - i,
    {
        let k = off + 2 * i;
        let v = (mem[k] as u16) | ((mem[k + 1] as u16) << 8u16);
        push_hex_field(out, " ", v as u64, 4);
        i = i + 1;
        proof {
            assert(out@ =~= start + halfwords_text(mem@, off as int, i as nat));
        }
    }
}

fn write_nonzero(out: &mut Vec<char>, mem: &Vec<u8>, width: u64)
    requires
        mem@.len() <= 0x40000,
    ensures
        final(out)@ == old(out)@ + nonzero_text(mem@, mem@.len(), width as nat),
{
    let ghost start = out@;
    let mut count: u64 = 0;
    let mut i: usize = 0;
    while i < mem.len()
        invariant
            i <= mem@.len() <= 0x40000,
            count == nonzero_count(mem@, i as nat),
            count <= i,
            out@ == start + nonzero_text(mem@, i as nat, width as nat),
        decreases mem@.len() - i,
    {
        if mem[i] != 0 {
            if count < 16 {
                push_hex_field(out, " ", i as u64, width);
                push_hex_field(out, ":", mem[i] as u64, 2);
            }
            count = count + 1;
        }
        i = i + 1;
        proof {
            assert(out@ =~= start + nonzero_text(mem@, i as nat, width as nat));
        }
    }
}

impl Bus {
    fn write_video_line(&self, out: &mut Vec<char>)
        requires
            self.wf(),
        ensures
            final(out)@ == old(out)@ + bus_video_line(self@),
    {
        let ghost start = out@;
        push_dec_field(out, "BUS frame=", self.frame, 0);
        push_hex_field(out, " dispcnt=", self.read_io16(0x000) as u64, 4);
        push_hex_field(out, " dispstat=", self.read_io16(0x004) as u64, 4);
        push_dec_field(out, " vcount=", self.read_io16(0x006) as u64, 0);
        push_hex_field(out, " bg0=", self.read_io16(0x008) as u64, 4);
        push_hex_field(out, " bg1=", self.read_io16(0x00a) as u64, 4);
        push_hex_field(out, " bg2=", self.read_io16(0x00c) as u64, 4);
        push_hex_field(out, " bg3=", self.read_io16(0x00e) as u64, 4);
        push_str(out, "\n");
        proof {
            assert(out@ =~= start + bus_video_line(self@));
        }
    }

    fn write_irq_line(&self, out: &mut Vec<char>)
        requires
            self.wf(),
        ensures
            final(out)@ == old(out)@ + bus_irq_line(self@),
    {
        let ghost start = out@;
        push_hex_field(out, "IRQ ie=", self.read_io16(0x200) as u64, 4);
        push_hex_field(out, " if=", self.read_io16(0x202) as u64, 4);
        push_hex_field(out, " ime=", self.read_io16(0x208) as u64, 4);
        push_hex_field(out, " key=", self.read_io16(0x130) as u64, 4);
        push_hex_field(out, " waitcnt=", self.read_io16(0x204) as u64, 4);
        push_str(out, "\n");
        proof {
            assert(out@ =~= start + bus_irq_line(self@));
        }
    }

    fn write_memstat_line(&self, out: &mut Vec<char>)
        requires
            self.wf(),
        ensures
            final(out)@ == old(out)@ + bus_memstat_line(self@),
    {
        let ghost start = out@;
        push_dec_field(out, "MEMSTAT pram_nz=", count_nonzero(&self.pram), 0);
        push_dec_field(out, " vram_nz=", count_nonzero(&self.vram), 0);
        push_dec_field(out, " oam_nz=", count_nonzero(&self.oam), 0);
        push_dec_field(out, " ewram_nz=", count_nonzero(&self.ewram), 0);
        push_dec_field(out, " iwram_nz=", count_nonzero(&self.iwram), 0);
        push_str(out, "\n");
        proof {
            assert(out@ =~= start + bus_memstat_line(self@));
        }
    }

    fn write_vram_rows(&self, out: &mut Vec<char>)
        requires
            self.wf(),
        ensures
            final(out)@ == old(out)@ + vram_rows_text(self@, 8),
    {
        let ghost start = out@;
        let bases: [usize; 8] = [0x4000, 0x8000, 0xe000, 0xe800, 0xf000, 0xf800, 0x10000, 0x14000];
        let mut i: usize = 0;
        while i < 8
            invariant
                i <= 8,
                self.wf(),
                bases@ == seq![
                    0x4000usize,
                    0x8000,
                    0xe000,
                    0xe800,
                    0xf000,
                    0xf800,
                    0x10000,
                    0x14000,
                ],
                out@ == start + vram_rows_text(self@, i as nat),
            decreases 8 - i,
        {
            let base = bases[i];
            assert(base == vram_row_base(i as int));
            push_hex_field(out, "VRAM", base as u64, 5);
            write_halfwords(out, &self.vram, base);
            push_str(out, "\n");
            i = i + 1;
            proof {
                assert(out@ =~= start + vram_rows_text(self@, i as nat));
            }
        }
    }

    fn write_io_log(&self, out: &mut Vec<char>)
        requires
            self.wf(),
        ensures
            final(out)@ == old(out)@ + io_log_text(self@.io_log, self@.io_log.len()),
    {
        let ghost start = out@;
        let mut i: usize = 0;
        while i < self.io_log.len()
            invariant
                i <= self@.io_log.len(),
                out@ == start + io_log_text(self@.io_log, i as nat),
            decreases self@.io_log.len() - i,
        {
            let item = self.io_log[i];
            let ghost before = out@;
            push_dec_field(out, "  f=", item.frame, 0);
            push_hex_field(out, " off=", item.off as u64, 3);
            push_dec_field(out, " size=", item.size as u64, 0);
            push_hex_field(out, " value=", item.value as u64, 8);
            push_str(out, "\n");
            proof {
                assert(out@ =~= before + io_log_line(item));
            }
            i = i + 1;
            proof {
                assert(out@ =~= start + io_log_text(self@.io_log, i as nat));
            }
        }
    }

    fn write_dma_line(&self, out: &mut Vec<char>, ch: usize)
        requires
            self.wf(),
            ch < 4,
        ensures
            final(out)@ == old(out)@ + dma_line(self@, ch as int),
    {
        let base = 0x0b0 + ch * 12;
        let ghost before = out@;
        push_dec_field(out, "DMA", ch as u64, 0);
        push_hex_field(out, " sad=", self.read_io32(base) as u64, 8);
        push_hex_field(out, " dad=", self.read_io32(base + 4) as u64, 8);
        push_hex_field(out, " cur=", self.dma_src[ch] as u64, 8);
        push_hex_field(out, "->", self.dma_dst[ch] as u64, 8);
        push_hex_field(out, " count=", self.read_io16(base + 8) as u64, 4);
        push_hex_field(out, " cnt=", self.read_io16(base + 10) as u64, 4);
        push_str(out, "\n");
        proof {
            reveal(dma_line);
            assert(out@ =~= before + dma_line(self@, ch as int));
        }
    }

    fn write_channels(&self, out: &mut Vec<char>)
        requires
            self.wf(),
        ensures
            final(out)@ == old(out)@ + channel_lines(self@, 4),
    {
        let ghost start = out@;
        let mut ch: usize = 0;
        while ch < 4
            invariant
                ch <= 4,
                self.wf(),
                out@ == start + channel_lines(self@, ch as nat),
            decreases 4 - ch,
        {
            self.write_dma_line(out, ch);
            ch = ch + 1;
            proof {
                assert(out@ =~= start + channel_lines(self@, ch as nat));
            }
        }
    }

    fn write_timers(&self, out: &mut Vec<char>)
        requires
            self.wf(),
        ensures
            final(out)@ == old(out)@ + timer_lines(self@, 4),
    {
        let ghost start = out@;
        let mut t: usize = 0;
        while t < 4
            invariant
                t <= 4,
                self.wf(),
                out@ == start + timer_lines(self@, t as nat),
            decreases 4 - t,
        {
            let base = 0x100 + t * 4;
            let ghost before = out@;
            push_dec_field(out, "TM", t as u64, 0);
            push_hex_field(out, " count=", self.read_io16(base) as u64, 4);
            push_hex_field(out, " reload=", self.timers[t].reload as u64, 4);
            push_hex_field(out, " cnt=", self.read_io16(base + 2) as u64, 4);
            push_str(out, "\n");
            proof {
                assert(out@ =~= before + timer_line(self@, t as int));
            }
            t = t + 1;
            proof {
                assert(out@ =~= start + timer_lines(self@, t as nat));
            }
        }
    }

    fn write_samples(&self, out: &mut Vec<char>)
        requires
            self.wf(),
        ensures
            final(out)@ == old(out)@ + bus_samples(self@),
    {
        let ghost start = out@;
        push_str(out, "PRAM");
        write_halfwords(out, &self.pram, 0);
        push_str(out, "\n");
        push_str(out, "VRAM0");
        write_halfwords(out, &self.vram, 0);
        push_str(out, "\n");
        self.write_vram_rows(out);
        push_str(out, "PRAM100");
        write_halfwords(out, &self.pram, 0x100);
        push_str(out, "\n");
        proof {
            assert(out@ =~= start + bus_samples(self@));
        }
    }

    fn write_nonzero_lines(&self, out: &mut Vec<char>)
        requires
            self.wf(),
        ensures
            final(out)@ == old(out)@ + bus_nonzero(self@),
    {
        let ghost start = out@;
        push_str(out, "VRAM_NZ");
        write_nonzero(out, &self.vram, 5);
        push_str(out, "\n");
        push_str(out, "PRAM_NZ");
        write_nonzero(out, &self.pram, 3);
        push_str(out, "\n");
        proof {
            assert(out@ =~= start + bus_nonzero(self@));
        }
    }

    fn write_head(&self, out: &mut Vec<char>)
        requires
            self.wf(),
        ensures
            final(out)@ == old(out)@ + bus_head(self@),
    {
        let ghost start = out@;
        self.write_video_line(out);
        self.write_irq_line(out);
        self.write_memstat_line(out);
        proof {
            assert(out@ =~= start + bus_head(self@));
        }
    }

    fn write_tail(&self, out: &mut Vec<char>)
        requires
            self.wf(),
        ensures
            final(out)@ == old(out)@ + bus_tail(self@),
    {
        let ghost start = out@;
        push_str(out, "IOLOG\n");
        self.write_io_log(out);
        self.write_channels(out);
        self.write_timers(out);
        proof {
            assert(out@ =~= start + bus_tail(self@));
        }
    }

    pub fn write_summary(&self, out: &mut Vec<char>)
        requires
            self.wf(),
        ensures
            final(out)@ == old(out)@ + bus_summary(self@),
    {
        let ghost start = out@;
        self.write_head(out);
        self.write_samples(out);
        self.write_nonzero_lines(out);
        self.write_tail(out);
        proof {
            assert(out@ =~= start + bus_summary(self@));
        }
    }

    /// A plain-text dump of the bus state.
    pub fn debug_summary(&self) -> (s: String)
        requires
            self.wf(),
        ensures
            s@ == bus_summary(self@),
    {
        let mut out: Vec<char> = Vec::new();
        self.write_summary(&mut out);
        proof {
            assert(out@ =~= bus_summary(self@));
        }
        string_from_chars(&out)
    }
}

// ---------------------------------------------------------------------------
// The game's structures.

pub const G_MAP_HEADER: u32 = 0x0203_7318;
pub const G_OBJECT_EVENTS: u32 = 0x0203_7350;
pub const G_PLAYER_AVATAR: u32 = 0x0203_7590;
pub const OBJECT_EVENT_SIZE: u32 = 0x24;

/// `  aaaaaaaa: wwwwwwww` for the word at `addr`.
pub open spec fn word_line(b: BusView, addr: u32) -> Seq<char> {
    hex_field("  "@, addr as nat, 8) + hex_field(": "@, b.read32(addr) as nat, 8) + "\n"@
}

/// The word lines of `n` consecutive words from `start`.
pub open spec fn word_lines(b: BusView, start: u32, n: nat) -> Seq<char>
    decreases n,
{
    if n == 0 {
        Seq::empty()
    } else {
        word_lines(b, start, (n - 1) as nat) + word_line(b, wadd(start, (4 * (n - 1)) as u32))
    }
}

/// The RAM blocks the dump shows eight words of.
pub open spec fn mem_block_base(i: int) -> u32 {
    if i == 0 {
        0x0203_7fd4
    } else if i == 1 {
        0x0203_7fe4
    } else if i == 2 {
        0x0203_7318
    } else if i == 3 {
        0x0203_7350
    } else if i == 4 {
        0x0203_7590
    } else if i == 5 {
        0x0300_22b4
    } else if i == 6 {
        0x0300_22c0
    } else if i == 7 {
        0x0300_22e0
    } else if i == 8 {
        0x0300_26f0
    } else if i == 9 {
        0x0300_27f0
    } else if i == 10 {
        0x0300_3090
    } else if i == 11 {
        0x0300_30fc
    } else if i == 12 {
        0x0300_3110
    } else if i == 13 {
        0x0300_3144
    } else {
        0x0300_3170
    }
}

pub open spec fn mem_blocks(b: BusView, n: nat) -> Seq<char>
    decreases n,
{
    if n == 0 {
        Seq::empty()
    } else {
        let base = mem_block_base(n - 1);
        mem_blocks(b, (n - 1) as nat) + hex_field("MEM "@, base as nat, 8) + ":\n"@ + word_lines(
            b,
            base,
            8,
        )
    }
}

#[verifier::opaque]
pub open spec fn map_header_line(b: BusView) -> Seq<char> {
    let h = G_MAP_HEADER;
    hex_field("FIELD map layout="@, b.read32(h) as nat, 8) + hex_field(
        " events="@,
        b.read32(wadd(h, 4)) as nat,
        8,
    ) + hex_field(" scripts="@, b.read32(wadd(h, 8)) as nat, 8) + hex_field(
        " conns="@,
        b.read32(wadd(h, 12)) as nat,
        8,
    ) + hex_field(" music="@, b.read16(wadd(h, 16)) as nat, 4) + hex_field(
        " layoutId="@,
        b.read16(wadd(h, 18)) as nat,
        4,
    ) + map_flags_text(b)
}

pub open spec fn map_flags_text(b: BusView) -> Seq<char> {
    let h = G_MAP_HEADER;
    dec_field(" region="@, b.read8(wadd(h, 20)) as nat, 0) + dec_field(
        " cave="@,
        b.read8(wadd(h, 21)) as nat,
        0,
    ) + dec_field(" weather="@, b.read8(wadd(h, 22)) as nat, 0) + dec_field(
        " type="@,
        b.read8(wadd(h, 23)) as nat,
        0,
    ) + dec_field(" battle="@, b.read8(wadd(h, 27)) as nat, 0) + "\n"@
}

/// Byte `k` of the player avatar structure.
pub open spec fn avatar(b: BusView, k: u32) -> nat {
    b.read8(wadd(G_PLAYER_AVATAR, k)) as nat
}

#[verifier::opaque]
pub open spec fn avatar_line(b: BusView) -> Seq<char> {
    hex_field("PLAYER_AVATAR flags="@, avatar(b, 0), 2) + hex_field(" trans="@, avatar(b, 1), 2)
        + dec_field(" run="@, avatar(b, 2), 0) + dec_field(" tile="@, avatar(b, 3), 0) + dec_field(
        " sprite="@,
        avatar(b, 4),
        0,
    ) + dec_field(" obj="@, avatar(b, 5), 0) + avatar_tail(b)
}

pub open spec fn avatar_tail(b: BusView) -> Seq<char> {
    dec_field(" prevent="@, avatar(b, 6), 0) + dec_field(" gender="@, avatar(b, 7), 0) + dec_field(
        " bikeState="@,
        avatar(b, 8),
        0,
    ) + dec_field(" newDir="@, avatar(b, 9), 0) + dec_field(" bikeCounter="@, avatar(b, 10), 0)
        + dec_field(" bikeSpeed="@, avatar(b, 11), 0) + "\n"@
}

/// Signed halfword `k` bytes into `base`.
pub open spec fn sh(b: BusView, base: u32, k: u32) -> int {
    b.read16(wadd(base, k)) as i16 as int
}

pub open spec fn byte_at(b: BusView, base: u32, k: u32) -> nat {
    b.read8(wadd(base, k)) as nat
}

pub open spec fn object_event_head(b: BusView, id: nat, base: u32) -> Seq<char> {
    let elevation = b.read8(wadd(base, 0x0b));
    dec_field("  obj#"@, id, 2) + hex_field(" flags="@, b.read32(base) as nat, 8) + dec_field(
        " sprite="@,
        byte_at(b, base, 4),
        0,
    ) + dec_field(" gfx="@, byte_at(b, base, 5), 0) + dec_field(
        " moveType="@,
        byte_at(b, base, 6),
        0,
    ) + dec_field(" local="@, byte_at(b, base, 8), 0) + dec_field(" map="@, byte_at(b, base, 10), 0)
        + dec_field("."@, byte_at(b, base, 9), 0) + dec_field(
        " elev="@,
        (elevation & 0x0f) as nat,
        0,
    ) + dec_field("/"@, (elevation >> 4u8) as nat, 0)
}

pub open spec fn object_event_pos(b: BusView, base: u32) -> Seq<char> {
    signed_field(" init=("@, sh(b, base, 0x0c)) + signed_field(", "@, sh(b, base, 0x0e))
        + signed_field(") cur=("@, sh(b, base, 0x10)) + signed_field(", "@, sh(b, base, 0x12))
        + signed_field(") prev=("@, sh(b, base, 0x14)) + signed_field(", "@, sh(b, base, 0x16))
}

pub open spec fn object_event_tail(b: BusView, base: u32) -> Seq<char> {
    let dirs = b.read16(wadd(base, 0x18));
    dec_field(") face="@, (dirs & 0xf) as nat, 0) + dec_field(
        " moveDir="@,
        ((dirs >> 4u16) & 0xf) as nat,
        0,
    ) + hex_field(" range="@, byte_at(b, base, 0x19), 2) + dec_field(
        " action="@,
        byte_at(b, base, 0x1c),
        0,
    ) + hex_field(" metatile="@, byte_at(b, base, 0x1e), 2) + hex_field(
        "/"@,
        byte_at(b, base, 0x1f),
        2,
    ) + hex_field(" copyMove="@, byte_at(b, base, 0x22), 2) + "\n"@
}

/// One object event line.
#[verifier::opaque]
pub open spec fn object_event_line(b: BusView, id: nat, base: u32) -> Seq<char> {
    object_event_head(b, id, base) + object_event_pos(b, base) + object_event_tail(b, base)
}

pub open spec fn object_base(id: nat) -> u32 {
    (G_OBJECT_EVENTS + id * OBJECT_EVENT_SIZE) as u32
}

/// The active object events (and the player's) among the first `n`.
pub open spec fn object_events_text(b: BusView, player: nat, n: nat) -> Seq<char>
    decreases n,
{
    if n == 0 {
        Seq::empty()
    } else {
        let id = (n - 1) as nat;
        object_events_text(b, player, (n - 1) as nat) + if b.read32(object_base(id)) & 1 != 0 || id
            == player {
            object_event_line(b, id, object_base(id))
        } else {
            Seq::empty()
        }
    }
}

/// The overworld dump: the map header, the player avatar, the player's
/// object event and every active object event.
#[verifier::opaque]
pub open spec fn field_summary(b: BusView) -> Seq<char> {
    let player = avatar(b, 5);
    map_header_line(b) + avatar_line(b) + "PLAYER_OBJECT:\n"@ + object_event_line(
        b,
        player,
        object_base(player),
    ) + "OBJECT_EVENTS:\n"@ + object_events_text(b, player, 16)
}

pub open spec fn sprite_base(id: nat) -> u32 {
    (0x0202_0630 + id * 0x44) as u32
}

pub open spec fn sprite_lines(b: BusView, base: u32, id: nat) -> Seq<char> {
    sprite_head(b, base, id) + sprite_mid(b, base, b.read16(wadd(base, 0x3e))) + sprite_sub(b, base)
}

pub open spec fn sprite_head(b: BusView, base: u32, id: nat) -> Seq<char> {
    dec_field("  spr#"@, id, 2) + hex_field(" attr="@, b.read16(base) as nat, 4) + hex_field(
        "/"@,
        b.read16(wadd(base, 2)) as nat,
        4,
    ) + hex_field("/"@, b.read16(wadd(base, 4)) as nat, 4) + hex_field(
        " cb="@,
        b.read32(wadd(base, 0x1c)) as nat,
        8,
    ) + signed_field(" pos=("@, sh(b, base, 0x20)) + signed_field(", "@, sh(b, base, 0x22))
}

pub open spec fn sprite_mid(b: BusView, base: u32, flags: u16) -> Seq<char> {
    signed_field(") center=("@, b.read8(wadd(base, 0x28)) as i8 as int) + signed_field(
        ", "@,
        b.read8(wadd(base, 0x29)) as i8 as int,
    ) + signed_field(") data0="@, sh(b, base, 0x2e)) + signed_field(" data1="@, sh(b, base, 0x30))
        + hex_field(" flags="@, flags as nat, 4) + dec_field(" subprio="@, byte_at(b, base, 0x43), 0)
        + "\n"@
}

pub open spec fn sprite_sub(b: BusView, base: u32) -> Seq<char> {
    let mode = b.read8(wadd(base, 0x42));
    hex_field("       subsprites="@, b.read32(wadd(base, 0x18)) as nat, 8) + dec_field(
        " table="@,
        (mode & 0x3f) as nat,
        0,
    ) + dec_field(" mode="@, (mode >> 6u8) as nat, 0) + dec_field(
        " sheetStart="@,
        b.read16(wadd(base, 0x40)) as nat,
        0,
    ) + "\n"@
}

/// The sprites in use among the first `n`.
pub open spec fn sprites_text(b: BusView, n: nat) -> Seq<char>
    decreases n,
{
    if n == 0 {
        Seq::empty()
    } else {
        let id = (n - 1) as nat;
        let base = sprite_base(id);
        sprites_text(b, (n - 1) as nat) + if b.read16(wadd(base, 0x3e)) & 1 == 0 {
            Seq::empty()
        } else {
            sprite_lines(b, base, id)
        }
    }
}

pub open spec fn oam_line(b: BusView, obj: nat) -> Seq<char> {
    let base = (0x0700_0000 + obj * 8) as u32;
    let a0 = b.read16(base);
    let a1 = b.read16(wadd(base, 2));
    let a2 = b.read16(wadd(base, 4));
    if a0 == 0 && a1 == 0 && a2 == 0 {
        Seq::empty()
    } else {
        dec_field("  obj#"@, obj, 2) + hex_field(" attr="@, a0 as nat, 4) + hex_field(
            "/"@,
            a1 as nat,
            4,
        ) + hex_field("/"@, a2 as nat, 4) + dec_field(" xy=("@, (a1 & 0x01ff) as nat, 0)
            + dec_field(", "@, (a0 & 0x00ff) as nat, 0) + ")\n"@
    }
}

/// The OAM entries in use among the first `n`.
pub open spec fn oam_text(b: BusView, n: nat) -> Seq<char>
    decreases n,
{
    if n == 0 {
        Seq::empty()
    } else {
        oam_text(b, (n - 1) as nat) + oam_line(b, (n - 1) as nat)
    }
}

/// The data halfwords of a task, each as ` xxxx`.
pub open spec fn task_data(b: BusView, base: u32, n: nat) -> Seq<char>
    decreases n,
{
    if n == 0 {
        Seq::empty()
    } else {
        task_data(b, base, (n - 1) as nat) + hex_field(
            " "@,
            b.read16(wadd(base, (8 + 2 * (n - 1)) as u32)) as nat,
            4,
        )
    }
}

pub open spec fn task_line(b: BusView, id: nat) -> Seq<char> {
    let base = (0x0300_5e00 + id * 40) as u32;
    let func = b.read32(base);
    let active = b.read8(wadd(base, 4));
    if active == 0 && func == 0 {
        Seq::empty()
    } else {
        dec_field("  #"@, id, 2) + hex_field(" func="@, func as nat, 8) + dec_field(
            " active="@,
            active as nat,
            0,
        ) + dec_field(" prio="@, byte_at(b, base, 7), 0) + " data"@ + task_data(b, base, 8)
            + "\n"@
    }
}

/// The tasks in use among the first `n`.
pub open spec fn tasks_text(b: BusView, n: nat) -> Seq<char>
    decreases n,
{
    if n == 0 {
        Seq::empty()
    } else {
        tasks_text(b, (n - 1) as nat) + task_line(b, (n - 1) as nat)
    }
}

/// The whole-machine dump: core, bus, words around the program counter and
/// the stack, RAM blocks of the game, its overworld state, sprites, OAM and
/// tasks.
/// Where the game keeps the pointer to its first save block.
pub const SAVE_BLOCK1_PTR: u32 = 0x0300_5d8c;
/// Where the game keeps the number of Pokemon in the party.
pub const PLAYER_PARTY_COUNT: u32 = 0x0202_44e9;
/// Where the game keeps the first Pokemon of the party.
pub const PLAYER_PARTY: u32 = 0x0202_44ec;

/// Which 12-byte block of a party Pokemon's secure data holds its growth
/// data, for the personality value modulo 24.
pub open spec fn growth_slot(order: u32) -> u32 {
    if order < 6 {
        0
    } else if order == 6 || order == 7 || order == 12 || order == 13 || order == 18 || order == 19 {
        1
    } else if order == 8 || order == 10 || order == 14 || order == 16 || order == 20 || order == 22 {
        2
    } else {
        3
    }
}

/// The species of the first party Pokemon: the low half of its first growth
/// word, decrypted with its personality value and trainer id.
pub open spec fn party_species(b: BusView) -> u16 {
    let p = b.read32(PLAYER_PARTY);
    let key = p ^ b.read32(0x0202_44f0);
    let growth = (0x0202_450c + 12 * growth_slot(p % 24)) as u32;
    ((b.read32(growth) ^ key) & 0xffff) as u16
}

/// Whether save-block flag `bit` of the byte at `off` in the save block is set.
pub open spec fn save_flag(b: BusView, off: u32, bit: u32) -> bool {
    (b.read8(wadd(b.read32(SAVE_BLOCK1_PTR), off)) >> bit) & 1 != 0
}

/// `SAVE save1=.. route101=.. birch_lab=.. starter=..`: the save block and
/// the game's route 101, lab and starter variables.
pub open spec fn save_line(b: BusView) -> Seq<char> {
    let s1 = b.read32(SAVE_BLOCK1_PTR);
    hex_field("SAVE save1="@, s1 as nat, 8) + dec_field(
        " route101="@,
        b.read16(wadd(s1, 0x145c)) as nat,
        1,
    ) + dec_field(" birch_lab="@, b.read16(wadd(s1, 0x14a4)) as nat, 1) + dec_field(
        " starter="@,
        b.read16(wadd(s1, 0x13e2)) as nat,
        1,
    ) + "\n"@
}

/// `PARTY count=.. species=.. level=.. hp=../.. checksum=..`: the party size
/// and the first Pokemon.
pub open spec fn party_line(b: BusView) -> Seq<char> {
    dec_field("PARTY count="@, b.read8(PLAYER_PARTY_COUNT) as nat, 1) + dec_field(
        " species="@,
        party_species(b) as nat,
        1,
    ) + dec_field(" level="@, b.read8(0x0202_4540) as nat, 1) + dec_field(
        " hp="@,
        b.read16(0x0202_4542) as nat,
        1,
    ) + dec_field("/"@, b.read16(0x0202_4544) as nat, 1) + hex_field(
        " checksum="@,
        b.read16(0x0202_4508) as nat,
        4,
    ) + "\n"@
}

/// A label followed by whether save flag `bit` of save-block byte `off` is set.
pub open spec fn flag_field(label: Seq<char>, b: BusView, off: u32, bit: u32) -> Seq<char> {
    label + bool_text(save_flag(b, off, bit))
}

/// `SAVE_FLAGS ..`: the story flags of the first route: starter received,
/// Birch rescued, and the bag, Zigzagoon and lab Birch hidden.
pub open spec fn save_flags_line(b: BusView) -> Seq<char> {
    "SAVE_FLAGS"@ + flag_field(" pokemon_get="@, b, 0x137c, 0) + flag_field(
        " rescued_birch="@,
        b,
        0x127a,
        2,
    ) + flag_field(" hide_bag="@, b, 0x12c7, 6) + flag_field(" hide_zigzagoon="@, b, 0x12c7, 4)
        + flag_field(" hide_lab_birch="@, b, 0x12c7, 5) + "\n"@
}

/// The game's progress: save variables, party and story flags.
pub open spec fn progress_summary(b: BusView) -> Seq<char> {
    save_line(b) + party_line(b) + save_flags_line(b)
}

fn growth_slot_exec(order: u32) -> (r: u32)
    ensures
        r == growth_slot(order),
        r < 4,
{
    if order < 6 {
        0
    } else if order == 6 || order == 7 || order == 12 || order == 13 || order == 18 || order == 19 {
        1
    } else if order == 8 || order == 10 || order == 14 || order == 16 || order == 20 || order == 22 {
        2
    } else {
        3
    }
}

fn save_flag_exec(bus: &Bus, off: u32, bit: u32) -> (r: bool)
    requires
        bus.wf(),
        bit < 8,
    ensures
        r == save_flag(bus@, off, bit),
{
    let s1 = bus.read32(SAVE_BLOCK1_PTR);
    (bus.read8(s1.wrapping_add(off)) >> bit) & 1 != 0
}

fn write_save_line(out: &mut Vec<char>, bus: &Bus)
    requires
        bus.wf(),
    ensures
        final(out)@ == old(out)@ + save_line(bus@),
{
    let ghost start = out@;
    let s1 = bus.read32(SAVE_BLOCK1_PTR);
    push_hex_field(out, "SAVE save1=", s1 as u64, 8);
    push_dec_field(out, " route101=", bus.read16(s1.wrapping_add(0x145c)) as u64, 1);
    push_dec_field(out, " birch_lab=", bus.read16(s1.wrapping_add(0x14a4)) as u64, 1);
    push_dec_field(out, " starter=", bus.read16(s1.wrapping_add(0x13e2)) as u64, 1);
    push_str(out, "\n");
    proof {
        assert(out@ =~= start + save_line(bus@));
    }
}

fn party_species_exec(bus: &Bus) -> (r: u16)
    requires
        bus.wf(),
    ensures
        r == party_species(bus@),
{
    let p = bus.read32(PLAYER_PARTY);
    let key = p ^ bus.read32(0x0202_44f0);
    let growth = 0x0202_450cu32 + 12 * growth_slot_exec(p % 24);
    ((bus.read32(growth) ^ key) & 0xffff) as u16
}

fn write_party_line(out: &mut Vec<char>, bus: &Bus)
    requires
        bus.wf(),
    ensures
        final(out)@ == old(out)@ + party_line(bus@),
{
    let ghost start = out@;
    let species = party_species_exec(bus);
    push_dec_field(out, "PARTY count=", bus.read8(PLAYER_PARTY_COUNT) as u64, 1);
    push_dec_field(out, " species=", species as u64, 1);
    push_dec_field(out, " level=", bus.read8(0x0202_4540) as u64, 1);
    push_dec_field(out, " hp=", bus.read16(0x0202_4542) as u64, 1);
    push_dec_field(out, "/", bus.read16(0x0202_4544) as u64, 1);
    push_hex_field(out, " checksum=", bus.read16(0x0202_4508) as u64, 4);
    push_str(out, "\n");
    proof {
        assert(out@ =~= start + party_line(bus@));
    }
}

fn push_flag_field(out: &mut Vec<char>, label: &str, bus: &Bus, off: u32, bit: u32)
    requires
        bus.wf(),
        bit < 8,
    ensures
        final(out)@ == old(out)@ + flag_field(label@, bus@, off, bit),
{
    let ghost start = out@;
    push_str(out, label);
    push_bool(out, save_flag_exec(bus, off, bit));
    proof {
        assert(out@ =~= start + flag_field(label@, bus@, off, bit));
    }
}

fn write_save_flags_line(out: &mut Vec<char>, bus: &Bus)
    requires
        bus.wf(),
    ensures
        final(out)@ == old(out)@ + save_flags_line(bus@),
{
    let ghost start = out@;
    push_str(out, "SAVE_FLAGS");
    push_flag_field(out, " pokemon_get=", bus, 0x137c, 0);
    push_flag_field(out, " rescued_birch=", bus, 0x127a, 2);
    push_flag_field(out, " hide_bag=", bus, 0x12c7, 6);
    push_flag_field(out, " hide_zigzagoon=", bus, 0x12c7, 4);
    push_flag_field(out, " hide_lab_birch=", bus, 0x12c7, 5);
    push_str(out, "\n");
    proof {
        assert(out@ =~= start + save_flags_line(bus@));
    }
}

/// Appends the game's progress lines.
fn write_progress(out: &mut Vec<char>, bus: &Bus)
    requires
        bus.wf(),
    ensures
        final(out)@ == old(out)@ + progress_summary(bus@),
{
    let ghost start = out@;
    write_save_line(out, bus);
    write_party_line(out, bus);
    write_save_flags_line(out, bus);
    proof {
        assert(out@ =~= start + progress_summary(bus@));
    }
}

pub open spec fn gba_summary(c: CpuView, b: BusView) -> Seq<char> {
    cpu_summary(c) + "\n"@ + bus_summary(b) + "PC words:\n"@ + word_lines(
        b,
        wsub(c.r[15], 16),
        8,
    ) + "SP words:\n"@ + word_lines(b, c.r[13], 20) + mem_blocks(b, 15) + field_summary(b)
        + progress_summary(b) + "SPRITES:\n"@ + sprites_text(b, 6) + "OAM:\n"@ + oam_text(b, 64) + "TASKS:\n"@
        + tasks_text(b, 16)
}

fn write_word_lines(out: &mut Vec<char>, bus: &Bus, start: u32, n: u32)
    requires
        bus.wf(),
        n <= 64,
    ensures
        final(out)@ == old(out)@ + word_lines(bus@, start, n as nat),
{
    let ghost s0 = out@;
    let mut i: u32 = 0;
    while i < n
        invariant
            i <= n <= 64,
            bus.wf(),
            out@ == s0 + word_lines(bus@, start, i as nat),
        decreases n - i,
    {
        let addr = start.wrapping_add(i * 4);
        let ghost before = out@;
        push_hex_field(out, "  ", addr as u64, 8);
        push_hex_field(out, ": ", bus.read32(addr) as u64, 8);
        push_str(out, "\n");
        proof {
            assert(out@ =~= before + word_line(bus@, addr));
        }
        i = i + 1;
        proof {
            assert(out@ =~= s0 + word_lines(bus@, start, i as nat));
        }
    }
}

fn write_mem_blocks(out: &mut Vec<char>, bus: &Bus)
    requires
        bus.wf(),
    ensures
        final(out)@ == old(out)@ + mem_blocks(bus@, 15),
{
    let ghost s0 = out@;
    let bases: [u32; 15] = [
        0x0203_7fd4,
        0x0203_7fe4,
        0x0203_7318,
        0x0203_7350,
        0x0203_7590,
        0x0300_22b4,
        0x0300_22c0,
        0x0300_22e0,
        0x0300_26f0,
        0x0300_27f0,
        0x0300_3090,
        0x0300_30fc,
        0x0300_3110,
        0x0300_3144,
        0x0300_3170,
    ];
    let mut i: usize = 0;
    while i < 15
        invariant
            i <= 15,
            bus.wf(),
            forall|k: int| 0 <= k < 15 ==> bases@[k] == mem_block_base(k),
            out@ == s0 + mem_blocks(bus@, i as nat),
        decreases 15 - i,
    {
        let base = bases[i];
        push_hex_field(out, "MEM ", base as u64, 8);
        push_str(out, ":\n");
        write_word_lines(out, bus, base, 8);
        i = i + 1;
        proof {
            assert(out@ =~= s0 + mem_blocks(bus@, i as nat));
        }
    }
}

fn write_map_header(out: &mut Vec<char>, bus: &Bus)
    requires
        bus.wf(),
    ensures
        final(out)@ == old(out)@ + map_header_line(bus@),
{
    let ghost s0 = out@;
    let h = G_MAP_HEADER;
    push_hex_field(out, "FIELD map layout=", bus.read32(h) as u64, 8);
    push_hex_field(out, " events=", bus.read32(h + 4) as u64, 8);
    push_hex_field(out, " scripts=", bus.read32(h + 8) as u64, 8);
    push_hex_field(out, " conns=", bus.read32(h + 12) as u64, 8);
    push_hex_field(out, " music=", bus.read16(h + 16) as u64, 4);
    push_hex_field(out, " layoutId=", bus.read16(h + 18) as u64, 4);
    let ghost mid = out@;
    push_dec_field(out, " region=", bus.read8(h + 20) as u64, 0);
    push_dec_field(out, " cave=", bus.read8(h + 21) as u64, 0);
    push_dec_field(out, " weather=", bus.read8(h + 22) as u64, 0);
    push_dec_field(out, " type=", bus.read8(h + 23) as u64, 0);
    push_dec_field(out, " battle=", bus.read8(h + 27) as u64, 0);
    push_str(out, "\n");
    proof {
        assert(out@ =~= mid + map_flags_text(bus@));
        reveal(map_header_line);
        assert(out@ =~= s0 + map_header_line(bus@));
    }
}

fn write_avatar(out: &mut Vec<char>, bus: &Bus)
    requires
        bus.wf(),
    ensures
        final(out)@ == old(out)@ + avatar_line(bus@),
{
    let ghost s0 = out@;
    let a = G_PLAYER_AVATAR;
    push_hex_field(out, "PLAYER_AVATAR flags=", bus.read8(a) as u64, 2);
    push_hex_field(out, " trans=", bus.read8(a + 1) as u64, 2);
    push_dec_field(out, " run=", bus.read8(a + 2) as u64, 0);
    push_dec_field(out, " tile=", bus.read8(a + 3) as u64, 0);
    push_dec_field(out, " sprite=", bus.read8(a + 4) as u64, 0);
    push_dec_field(out, " obj=", bus.read8(a + 5) as u64, 0);
    let ghost mid = out@;
    push_dec_field(out, " prevent=", bus.read8(a + 6) as u64, 0);
    push_dec_field(out, " gender=", bus.read8(a + 7) as u64, 0);
    push_dec_field(out, " bikeState=", bus.read8(a + 8) as u64, 0);
    push_dec_field(out, " newDir=", bus.read8(a + 9) as u64, 0);
    push_dec_field(out, " bikeCounter=", bus.read8(a + 10) as u64, 0);
    push_dec_field(out, " bikeSpeed=", bus.read8(a + 11) as u64, 0);
    push_str(out, "\n");
    proof {
        assert(out@ =~= mid + avatar_tail(bus@));
        reveal(avatar_line);
        assert(out@ =~= s0 + avatar_line(bus@));
    }
}

fn write_object_event_head(out: &mut Vec<char>, bus: &Bus, id: u8, base: u32)
    requires
        bus.wf(),
    ensures
        final(out)@ == old(out)@ + object_event_head(bus@, id as nat, base),
{
    let ghost s0 = out@;
    let elevation = bus.read8(base.wrapping_add(0x0b));
    push_dec_field(out, "  obj#", id as u64, 2);
    push_hex_field(out, " flags=", bus.read32(base) as u64, 8);
    push_dec_field(out, " sprite=", bus.read8(base.wrapping_add(4)) as u64, 0);
    push_dec_field(out, " gfx=", bus.read8(base.wrapping_add(5)) as u64, 0);
    push_dec_field(out, " moveType=", bus.read8(base.wrapping_add(6)) as u64, 0);
    push_dec_field(out, " local=", bus.read8(base.wrapping_add(8)) as u64, 0);
    push_dec_field(out, " map=", bus.read8(base.wrapping_add(10)) as u64, 0);
    push_dec_field(out, ".", bus.read8(base.wrapping_add(9)) as u64, 0);
    push_dec_field(out, " elev=", (elevation & 0x0f) as u64, 0);
    push_dec_field(out, "/", (elevation >> 4u8) as u64, 0);
    proof {
        assert(out@ =~= s0 + object_event_head(bus@, id as nat, base));
    }
}

fn write_object_event_pos(out: &mut Vec<char>, bus: &Bus, base: u32)
    requires
        bus.wf(),
    ensures
        final(out)@ == old(out)@ + object_event_pos(bus@, base),
{
    let ghost s1 = out@;
    push_signed_field(out, " init=(", bus.read16(base.wrapping_add(0x0c)) as i16 as i32);
    push_signed_field(out, ", ", bus.read16(base.wrapping_add(0x0e)) as i16 as i32);
    push_signed_field(out, ") cur=(", bus.read16(base.wrapping_add(0x10)) as i16 as i32);
    push_signed_field(out, ", ", bus.read16(base.wrapping_add(0x12)) as i16 as i32);
    push_signed_field(out, ") prev=(", bus.read16(base.wrapping_add(0x14)) as i16 as i32);
    push_signed_field(out, ", ", bus.read16(base.wrapping_add(0x16)) as i16 as i32);
    proof {
        assert(out@ =~= s1 + object_event_pos(bus@, base));
    }
}

fn write_object_event_tail(out: &mut Vec<char>, bus: &Bus, base: u32)
    requires
        bus.wf(),
    ensures
        final(out)@ == old(out)@ + object_event_tail(bus@, base),
{
    let ghost s2 = out@;
    let dirs = bus.read16(base.wrapping_add(0x18));
    push_dec_field(out, ") face=", (dirs & 0xf) as u64, 0);
    push_dec_field(out, " moveDir=", ((dirs >> 4u16) & 0xf) as u64, 0);
    push_hex_field(out, " range=", bus.read8(base.wrapping_add(0x19)) as u64, 2);
    push_dec_field(out, " action=", bus.read8(base.wrapping_add(0x1c)) as u64, 0);
    push_hex_field(out, " metatile=", bus.read8(base.wrapping_add(0x1e)) as u64, 2);
    push_hex_field(out, "/", bus.read8(base.wrapping_add(0x1f)) as u64, 2);
    push_hex_field(out, " copyMove=", bus.read8(base.wrapping_add(0x22)) as u64, 2);
    push_str(out, "\n");
    proof {
        assert(out@ =~= s2 + object_event_tail(bus@, base));
    }
}

fn write_object_event(out: &mut Vec<char>, bus: &Bus, id: u8, base: u32)
    requires
        bus.wf(),
    ensures
        final(out)@ == old(out)@ + object_event_line(bus@, id as nat, base),
{
    let ghost s0 = out@;
    write_object_event_head(out, bus, id, base);
    write_object_event_pos(out, bus, base);
    write_object_event_tail(out, bus, base);
    proof {
        reveal(object_event_line);
        assert(out@ =~= s0 + object_event_line(bus@, id as nat, base));
    }
}

fn write_object_events(out: &mut Vec<char>, bus: &Bus, player: u8)
    requires
        bus.wf(),
    ensures
        final(out)@ == old(out)@ + object_events_text(bus@, player as nat, 16),
{
    let ghost s1 = out@;
    let mut id: u8 = 0;
    while id < 16
        invariant
            id <= 16,
            bus.wf(),
            out@ == s1 + object_events_text(bus@, player as nat, id as nat),
        decreases 16 - id,
    {
        let base = G_OBJECT_EVENTS + id as u32 * OBJECT_EVENT_SIZE;
        let flags = bus.read32(base);
        if flags & 1 != 0 || id == player {
            write_object_event(out, bus, id, base);
        }
        id = id + 1;
        proof {
            assert(out@ =~= s1 + object_events_text(bus@, player as nat, id as nat));
        }
    }
}

proof fn lemma_field_summary(b: BusView, player: nat, base: u32)
    requires
        player == avatar(b, 5),
        base == object_base(player),
    ensures
        field_summary(b) == (map_header_line(b) + avatar_line(b)) + field_tail(b, player, base),
{
    reveal(field_summary);
    assert(field_summary(b) =~= (map_header_line(b) + avatar_line(b)) + field_tail(b, player, base));
}

spec fn field_tail(b: BusView, player: nat, base: u32) -> Seq<char> {
    "PLAYER_OBJECT:\n"@ + object_event_line(b, player, base) + "OBJECT_EVENTS:\n"@
        + object_events_text(b, player, 16)
}

fn write_field_debug(out: &mut Vec<char>, bus: &Bus)
    requires
        bus.wf(),
    ensures
        final(out)@ == old(out)@ + field_summary(bus@),
{
    let ghost s0 = out@;
    write_map_header(out, bus);
    write_avatar(out, bus);
    let ghost s1 = out@;
    let player = bus.read8(G_PLAYER_AVATAR + 5);
    let base = G_OBJECT_EVENTS + player as u32 * OBJECT_EVENT_SIZE;
    push_str(out, "PLAYER_OBJECT:\n");
    write_object_event(out, bus, player, base);
    push_str(out, "OBJECT_EVENTS:\n");
    write_object_events(out, bus, player);
    proof {
        assert(out@ =~= s1 + field_tail(bus@, player as nat, base));
        assert(s1 =~= s0 + (map_header_line(bus@) + avatar_line(bus@)));
        lemma_field_summary(bus@, player as nat, base);
        assert(out@ =~= s0 + field_summary(bus@));
    }
}

fn write_sprite_head(out: &mut Vec<char>, bus: &Bus, id: u32, base: u32)
    requires
        bus.wf(),
    ensures
        final(out)@ == old(out)@ + sprite_head(bus@, base, id as nat),
{
    let ghost s0 = out@;
    push_dec_field(out, "  spr#", id as u64, 2);
    push_hex_field(out, " attr=", bus.read16(base) as u64, 4);
    push_hex_field(out, "/", bus.read16(base.wrapping_add(2)) as u64, 4);
    push_hex_field(out, "/", bus.read16(base.wrapping_add(4)) as u64, 4);
    push_hex_field(out, " cb=", bus.read32(base.wrapping_add(0x1c)) as u64, 8);
    push_signed_field(out, " pos=(", bus.read16(base.wrapping_add(0x20)) as i16 as i32);
    push_signed_field(out, ", ", bus.read16(base.wrapping_add(0x22)) as i16 as i32);
    proof {
        assert(out@ =~= s0 + sprite_head(bus@, base, id as nat));
    }
}

fn write_sprite_mid(out: &mut Vec<char>, bus: &Bus, base: u32, flags: u16)
    requires
        bus.wf(),
    ensures
        final(out)@ == old(out)@ + sprite_mid(bus@, base, flags),
{
    let ghost s1 = out@;
    push_signed_field(out, ") center=(", bus.read8(base.wrapping_add(0x28)) as i8 as i32);
    push_signed_field(out, ", ", bus.read8(base.wrapping_add(0x29)) as i8 as i32);
    push_signed_field(out, ") data0=", bus.read16(base.wrapping_add(0x2e)) as i16 as i32);
    push_signed_field(out, " data1=", bus.read16(base.wrapping_add(0x30)) as i16 as i32);
    push_hex_field(out, " flags=", flags as u64, 4);
    push_dec_field(out, " subprio=", bus.read8(base.wrapping_add(0x43)) as u64, 0);
    push_str(out, "\n");
    proof {
        assert(out@ =~= s1 + sprite_mid(bus@, base, flags));
    }
}

fn write_sprite_sub(out: &mut Vec<char>, bus: &Bus, base: u32)
    requires
        bus.wf(),
    ensures
        final(out)@ == old(out)@ + sprite_sub(bus@, base),
{
    let ghost s2 = out@;
    let mode = bus.read8(base.wrapping_add(0x42));
    push_hex_field(out, "       subsprites=", bus.read32(base.wrapping_add(0x18)) as u64, 8);
    push_dec_field(out, " table=", (mode & 0x3f) as u64, 0);
    push_dec_field(out, " mode=", (mode >> 6u8) as u64, 0);
    push_dec_field(out, " sheetStart=", bus.read16(base.wrapping_add(0x40)) as u64, 0);
    push_str(out, "\n");
    proof {
        assert(out@ =~= s2 + sprite_sub(bus@, base));
    }
}

fn write_sprite(out: &mut Vec<char>, bus: &Bus, id: u32, base: u32)
    requires
        bus.wf(),
    ensures
        final(out)@ == old(out)@ + sprite_lines(bus@, base, id as nat),
{
    let ghost s0 = out@;
    let flags = bus.read16(base.wrapping_add(0x3e));
    write_sprite_head(out, bus, id, base);
    write_sprite_mid(out, bus, base, flags);
    write_sprite_sub(out, bus, base);
    proof {
        assert(out@ =~= s0 + sprite_lines(bus@, base, id as nat));
    }
}

fn write_sprites(out: &mut Vec<char>, bus: &Bus)
    requires
        bus.wf(),
    ensures
        final(out)@ == old(out)@ + sprites_text(bus@, 6),
{
    let ghost s0 = out@;
    let mut id: u32 = 0;
    while id < 6
        invariant
            id <= 6,
            bus.wf(),
            out@ == s0 + sprites_text(bus@, id as nat),
        decreases 6 - id,
    {
        let base = 0x0202_0630 + id * 0x44;
        if bus.read16(base + 0x3e) & 1 != 0 {
            write_sprite(out, bus, id, base);
        }
        id = id + 1;
        proof {
            assert(out@ =~= s0 + sprites_text(bus@, id as nat));
        }
    }
}

fn write_oam(out: &mut Vec<char>, bus: &Bus)
    requires
        bus.wf(),
    ensures
        final(out)@ == old(out)@ + oam_text(bus@, 64),
{
    let ghost s0 = out@;
    let mut obj: u32 = 0;
    while obj < 64
        invariant
            obj <= 64,
            bus.wf(),
            out@ == s0 + oam_text(bus@, obj as nat),
        decreases 64 - obj,
    {
        let base = 0x0700_0000 + obj * 8;
        let a0 = bus.read16(base);
        let a1 = bus.read16(base + 2);
        let a2 = bus.read16(base + 4);
        let ghost before = out@;
        if !(a0 == 0 && a1 == 0 && a2 == 0) {
            push_dec_field(out, "  obj#", obj as u64, 2);
            push_hex_field(out, " attr=", a0 as u64, 4);
            push_hex_field(out, "/", a1 as u64, 4);
            push_hex_field(out, "/", a2 as u64, 4);
            push_dec_field(out, " xy=(", (a1 & 0x01ff) as u64, 0);
            push_dec_field(out, ", ", (a0 & 0x00ff) as u64, 0);
            push_str(out, ")\n");
        }
        proof {
            assert(out@ =~= before + oam_line(bus@, obj as nat));
        }
        obj = obj + 1;
        proof {
            assert(out@ =~= s0 + oam_text(bus@, obj as nat));
        }
    }
}

fn write_task(out: &mut Vec<char>, bus: &Bus, id: u32)
    requires
        bus.wf(),
        id < 16,
    ensures
        final(out)@ == old(out)@ + task_line(bus@, id as nat),
{
    let ghost s0 = out@;
    let base = 0x0300_5e00 + id * 40;
    let func = bus.read32(base);
    let active = bus.read8(base + 4);
    if active == 0 && func == 0 {
        proof {
            assert(out@ =~= s0 + task_line(bus@, id as nat));
        }
        return ;
    }
    push_dec_field(out, "  #", id as u64, 2);
    push_hex_field(out, " func=", func as u64, 8);
    push_dec_field(out, " active=", active as u64, 0);
    push_dec_field(out, " prio=", bus.read8(base + 7) as u64, 0);
    push_str(out, " data");
    let ghost s1 = out@;
    let mut i: u32 = 0;
    while i < 8
        invariant
            i <= 8,
            bus.wf(),
            base == 0x0300_5e00 + id * 40,
            id < 16,
            out@ == s1 + task_data(bus@, base, i as nat),
        decreases 8 - i,
    {
        push_hex_field(out, " ", bus.read16(base + 8 + i * 2) as u64, 4);
        i = i + 1;
        proof {
            assert(out@ =~= s1 + task_data(bus@, base, i as nat));
        }
    }
    push_str(out, "\n");
    proof {
        assert(out@ =~= s0 + task_line(bus@, id as nat));
    }
}

fn write_tasks(out: &mut Vec<char>, bus: &Bus)
    requires
        bus.wf(),
    ensures
        final(out)@ == old(out)@ + tasks_text(bus@, 16),
{
    let ghost s0 = out@;
    let mut id: u32 = 0;
    while id < 16
        invariant
            id <= 16,
            bus.wf(),
            out@ == s0 + tasks_text(bus@, id as nat),
        decreases 16 - id,
    {
        write_task(out, bus, id);
        id = id + 1;
        proof {
            assert(out@ =~= s0 + tasks_text(bus@, id as nat));
        }
    }
}

impl Gba {
    /// The overworld part of the dump.
    pub fn write_field_debug(&self, out: &mut Vec<char>)
        requires
            self.wf(),
        ensures
            final(out)@ == old(out)@ + field_summary(self.bus@),
    {
        write_field_debug(out, &self.bus);
    }

    /// One object event line of the dump, for object `object_id` at `base`.
    pub fn write_object_event(&self, out: &mut Vec<char>, object_id: u8, base: u32)
        requires
            self.wf(),
        ensures
            final(out)@ == old(out)@ + object_event_line(self.bus@, object_id as nat, base),
    {
        write_object_event(out, &self.bus, object_id, base);
    }

    /// A plain-text dump of the whole machine.
    pub fn debug_summary(&self) -> (s: String)
        requires
            self.wf(),
        ensures
            s@ == gba_summary(self.cpu@, self.bus@),
    {
        let mut out: Vec<char> = Vec::new();
        self.cpu.write_summary(&mut out);
        push_str(&mut out, "\n");
        self.bus.write_summary(&mut out);
        push_str(&mut out, "PC words:\n");
        write_word_lines(&mut out, &self.bus, self.cpu.pc().wrapping_sub(16), 8);
        push_str(&mut out, "SP words:\n");
        write_word_lines(&mut out, &self.bus, self.cpu.sp(), 20);
        write_mem_blocks(&mut out, &self.bus);
        self.write_field_debug(&mut out);
        write_progress(&mut out, &self.bus);
        push_str(&mut out, "SPRITES:\n");
        write_sprites(&mut out, &self.bus);
        push_str(&mut out, "OAM:\n");
        write_oam(&mut out, &self.bus);
        push_str(&mut out, "TASKS:\n");
        write_tasks(&mut out, &self.bus);
        proof {
            assert(out@ =~= gba_summary(self.cpu@, self.bus@));
        }
        string_from_chars(&out)
    }
}

} // verus!
