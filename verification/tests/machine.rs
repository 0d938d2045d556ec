use vibe_gba::bios::{handle_swi, isqrt};
use vibe_gba::bus::Bus;
use vibe_gba::cartridge::Flash;
use vibe_gba::cpu::Cpu;
use vibe_gba::edu::{EduSnapshot, EduTracker};
use vibe_gba::gba::{Button, Gba};
use vibe_gba::host::Host;
use vibe_gba::ppu::{alpha_blend, bgr555_to_rgb, brighten, darken};

struct QuietHost;

impl Host for QuietHost {
    fn arc_tan(&self, _x: i16) -> i16 {
        0
    }
    fn arc_tan2(&self, _x: i16, _y: i16) -> i16 {
        0
    }
    fn affine_params(&self, _sx: i16, _sy: i16, _theta: u16) -> (i16, i16, i16, i16) {
        (0, 0, 0, 0)
    }
    fn midi_key_to_freq(&self, base: u32, _semitones: i32) -> u32 {
        base
    }
    fn trace(&self, _pc: u32, _instr: u32, _thumb: bool) {}
    fn frame_guard_tripped(&self, _pc: u32) {}
}

fn bus() -> Bus {
    Bus::new(vec![0x11, 0x22, 0x33, 0x44], Flash::new(None))
}

#[test]
fn ram_reads_back_what_was_written() {
    let mut bus = bus();
    bus.write32(0x0200_0010, 0xdead_beef);
    assert_eq!(bus.read32(0x0200_0010), 0xdead_beef);
    assert_eq!(bus.read16(0x0200_0012), 0xdead);
    assert_eq!(bus.read8(0x0200_0010), 0xef);
    bus.write16(0x0300_0100, 0x1234);
    assert_eq!(bus.read16(0x0300_0100), 0x1234);
    // Internal work RAM repeats every 32 KiB.
    assert_eq!(bus.read16(0x0300_8100), 0x1234);
    // Unaligned halfword and word accesses use the aligned address.
    assert_eq!(bus.read16(0x0300_0101), 0x1234);
    assert_eq!(bus.read32(0x0200_0013), 0xdead_beef);
}

#[test]
fn the_rom_is_read_only_and_mirrored() {
    let mut bus = bus();
    bus.write32(0x0800_0000, 0);
    assert_eq!(bus.read32(0x0800_0000), 0x4433_2211);
    assert_eq!(bus.read8(0x0800_0005), 0x22);
}

#[test]
fn keyinput_ignores_writes() {
    let mut bus = bus();
    let keys = bus.read16(0x0400_0130);
    bus.write16(0x0400_0130, 0);
    assert_eq!(bus.read16(0x0400_0130), keys);
    bus.set_button(Button::Start.bit(), true);
    assert_eq!(bus.read16(0x0400_0130), keys & !(1 << 3));
    bus.set_button(Button::Start.bit(), false);
    assert_eq!(bus.read16(0x0400_0130), keys);
}

#[test]
fn interrupt_flags_clear_where_ones_are_written() {
    let mut bus = bus();
    bus.request_irq(0b1011);
    assert_eq!(bus.read16(0x0400_0202), 0b1011);
    bus.write16(0x0400_0202, 0b0010);
    assert_eq!(bus.read16(0x0400_0202), 0b1001);
    bus.clear_if(0b0001);
    assert_eq!(bus.read16(0x0400_0202), 0b1000);
}

#[test]
fn compare_flags_select_signed_and_unsigned_conditions() {
    let mut cpu = Cpu::new(false);
    // CMP 5, 7
    cpu.set_sub_flags(5, 7, 5u32.wrapping_sub(7));
    assert!(!cpu.condition(0x0)); // EQ
    assert!(cpu.condition(0x1)); // NE
    assert!(!cpu.condition(0x2)); // CS: 5 >= 7 unsigned
    assert!(cpu.condition(0x3)); // CC
    assert!(cpu.condition(0xb)); // LT
    assert!(!cpu.condition(0xc)); // GT
    // CMP -1, 1: unsigned higher, signed lower.
    cpu.set_sub_flags(0xffff_ffff, 1, 0xffff_fffe);
    assert!(cpu.condition(0x8)); // HI
    assert!(cpu.condition(0xb)); // LT
    assert!(cpu.condition(0xd)); // LE
    assert!(!cpu.condition(0xa)); // GE
    cpu.set_sub_flags(9, 9, 0);
    assert!(cpu.condition(0x0)); // EQ
    assert!(cpu.condition(0x9)); // LS
    assert!(cpu.condition(0xa)); // GE
}

#[test]
fn fades_reach_white_and_black() {
    assert_eq!(brighten(0x0000, 16), 0x7fff);
    assert_eq!(darken(0x7fff, 16), 0x0000);
    assert_eq!(brighten(0x1234 & 0x7fff, 0), 0x1234 & 0x7fff);
    assert_eq!(darken(0x4210, 0), 0x4210);
    assert_eq!(alpha_blend(0x001f, 0x7c00, 16, 0), 0x001f);
    assert_eq!(alpha_blend(0x001f, 0x7c00, 0, 16), 0x7c00);
    // Half of red and half of blue.
    assert_eq!(alpha_blend(0x001f, 0x7c00, 8, 8), 0x3c0f);
}

#[test]
fn colours_widen_to_eight_bits() {
    assert_eq!(bgr555_to_rgb(0x7fff), 0x00ff_ffff);
    assert_eq!(bgr555_to_rgb(0x001f), 0x00ff_0000);
    assert_eq!(bgr555_to_rgb(0x0001), 0x0008_0000);
    assert_eq!(bgr555_to_rgb(0x7c00), 0x0000_00ff);
}

#[test]
fn division_gives_quotient_remainder_and_magnitude() {
    let mut cpu = Cpu::new(false);
    let mut bus = bus();
    cpu.set_reg(0, (-7i32) as u32);
    cpu.set_reg(1, 2);
    handle_swi(0x06, &mut cpu, &mut bus, &QuietHost);
    assert_eq!(cpu.reg(0) as i32, -3);
    assert_eq!(cpu.reg(1) as i32, -1);
    assert_eq!(cpu.reg(3), 3);
    // The ARM variant swaps the operands.
    cpu.set_reg(0, 4);
    cpu.set_reg(1, 17);
    handle_swi(0x07, &mut cpu, &mut bus, &QuietHost);
    assert_eq!(cpu.reg(0), 4);
    assert_eq!(cpu.reg(1), 1);
}

#[test]
fn square_roots_round_down() {
    assert_eq!(isqrt(0), 0);
    assert_eq!(isqrt(15), 3);
    assert_eq!(isqrt(16), 4);
    assert_eq!(isqrt(u32::MAX), 65535);
    let mut cpu = Cpu::new(false);
    let mut bus = bus();
    cpu.set_reg(0, 1_000_000);
    handle_swi(0x08, &mut cpu, &mut bus, &QuietHost);
    assert_eq!(cpu.reg(0), 1000);
}

#[test]
fn lz77_streams_expand_literals_and_copies() {
    let mut cpu = Cpu::new(false);
    let mut bus = bus();
    let src = 0x0200_0000;
    let dst = 0x0200_1000;
    // 7 bytes: "ab", three copies of the byte just written, then "cd".
    let stream = [0x10, 7, 0, 0, 0b0010_0000, b'a', b'b', 0x00, 0x00, b'c', b'd'];
    for (i, b) in stream.iter().enumerate() {
        bus.write8_raw(src + i as u32, *b);
    }
    cpu.set_reg(0, src);
    cpu.set_reg(1, dst);
    handle_swi(0x11, &mut cpu, &mut bus, &QuietHost);
    let out: Vec<u8> = (0..7).map(|i| bus.read8(dst + i)).collect();
    assert_eq!(out, b"abbbbcd".to_vec());
    assert_eq!(bus.read8(dst + 7), 0);
}

#[test]
fn run_length_streams_expand_runs_and_literals() {
    let mut cpu = Cpu::new(false);
    let mut bus = bus();
    let src = 0x0200_0000;
    let dst = 0x0200_1000;
    // 6 bytes: a run of four 'x' then the literals "yz".
    let stream = [0x30, 6, 0, 0, 0x81, b'x', 0x01, b'y', b'z'];
    for (i, b) in stream.iter().enumerate() {
        bus.write8_raw(src + i as u32, *b);
    }
    cpu.set_reg(0, src);
    cpu.set_reg(1, dst);
    handle_swi(0x14, &mut cpu, &mut bus, &QuietHost);
    let out: Vec<u8> = (0..6).map(|i| bus.read8(dst + i)).collect();
    assert_eq!(out, b"xxxxyz".to_vec());
}

#[test]
fn a_frame_advances_the_frame_counter_by_one() {
    let mut gba = Gba::new(vec![0; 0x400], None, false);
    assert_eq!(gba.bus.frame_count(), 0);
    gba.run_frame(&QuietHost);
    assert_eq!(gba.bus.frame_count(), 1);
    assert_eq!(gba.framebuffer().len(), 240 * 160);
}

#[test]
fn the_debug_summary_feeds_the_objective_tracker() {
    let gba = Gba::new(vec![0; 0x400], None, false);
    let summary = gba.debug_summary();
    assert!(summary.starts_with("CPU "));
    assert!(summary.contains("layoutId="));
    assert!(summary.contains("PC words:\n"));
    let snapshot = EduSnapshot::from_debug_summary(&summary, 5);
    assert_eq!(snapshot.frame, 5);
    assert_eq!(snapshot.layout_id, Some(0));
}

#[test]
fn the_progress_report_counts_completed_objectives() {
    let mut tracker = EduTracker::emerald_onboarding();
    let report = tracker.summary_text();
    assert!(report.starts_with("EDU summary: 0/5 objectives completed\n"));
    assert!(report.contains("EDU objective=moving_truck status=pending title=\"Wake up in the moving truck\""));
    let snapshot = EduSnapshot::from_debug_summary("FIELD map layoutId=0011\n", 99);
    let done = tracker.update(&snapshot);
    assert!(!done.is_empty());
    let report = tracker.summary_text();
    assert!(report.contains("status=complete frame=99"));
    assert_eq!(report.lines().count(), 6);
}

#[test]
fn returning_from_an_interrupt_restores_the_interrupted_state() {
    let mut bus = bus();
    bus.write32(0x0300_7ffc, 0x0800_0100);
    let mut cpu = Cpu::new(false);
    for i in 0..13 {
        cpu.set_reg(i, 0x100 + i as u32);
    }
    cpu.set_reg(14, 0x0800_0042);
    cpu.branch_to(0x0800_0200);
    let pc = cpu.pc();
    cpu.enter_irq_hle(&bus);
    assert_eq!(cpu.pc(), 0x0800_0100);
    assert_eq!(cpu.reg(14) & 1, 1);
    cpu.set_reg(0, 0xdead);
    let lr = cpu.reg(14);
    cpu.branch_to(lr);
    assert_eq!(cpu.pc(), pc);
    assert_eq!(cpu.reg(0), 0x100);
    assert_eq!(cpu.reg(12), 0x10c);
    assert_eq!(cpu.reg(14), 0x0800_0042);
}

#[test]
fn a_step_executes_the_instruction_at_the_program_counter() {
    // mov r0, #5 (ARM) at the start of ROM, movs r1, #7 (Thumb) after it.
    let rom = vec![0x05, 0x00, 0xa0, 0xe3, 0x07, 0x21, 0x00, 0x00];
    let mut bus = Bus::new(rom, Flash::new(None));
    let mut cpu = Cpu::new(false);
    assert_eq!(cpu.step(&mut bus, &QuietHost), 1);
    assert_eq!(cpu.reg(0), 5);
    assert_eq!(cpu.pc(), 0x0800_0004);
    assert!(!cpu.is_thumb());
    cpu.branch_to(0x0800_0005);
    assert!(cpu.is_thumb());
    assert_eq!(cpu.step(&mut bus, &QuietHost), 1);
    assert_eq!(cpu.reg(1), 7);
    assert_eq!(cpu.pc(), 0x0800_0006);
}

#[test]
fn a_halted_core_waits_for_an_interrupt() {
    let mut bus = bus();
    let mut cpu = Cpu::new(false);
    cpu.set_halted(true);
    assert_eq!(cpu.step(&mut bus, &QuietHost), 32);
    assert_eq!(cpu.pc(), 0x0800_0000);
    // An enabled, pending interrupt ends the halt.
    bus.write16(0x0400_0200, 1);
    bus.write16(0x0400_0208, 1);
    bus.request_irq(1);
    assert_eq!(cpu.step(&mut bus, &QuietHost), 1);
}

#[test]
fn a_text_background_is_drawn_over_the_backdrop() {
    let mut gba = Gba::new(vec![0; 0x400], None, false);
    // Mode 0 with background 0 on; its map in screen block 8, tiles at 0.
    gba.bus.write16(0x0400_0000, 0x0100);
    gba.bus.write16(0x0400_0008, 0x0800);
    // Backdrop blue, palette colour 1 red.
    gba.bus.write16(0x0500_0000, 0x7c00);
    gba.bus.write16(0x0500_0002, 0x001f);
    // Tile 1 is solid colour 1; map entry (0, 0) shows it.
    for off in (0..32).step_by(2) {
        gba.bus.write16(0x0600_0020 + off, 0x1111);
    }
    gba.bus.write16(0x0600_4000, 0x0001);
    gba.run_frame(&QuietHost);
    let frame = gba.framebuffer();
    assert_eq!(frame[0], 0x00ff_0000);
    assert_eq!(frame[7 * 240 + 7], 0x00ff_0000);
    assert_eq!(frame[8], 0x0000_00ff);
    assert_eq!(frame[8 * 240], 0x0000_00ff);
}

#[test]
fn forced_blank_draws_white() {
    let mut gba = Gba::new(vec![0; 0x400], None, false);
    gba.bus.write16(0x0400_0000, 0x0080);
    gba.run_frame(&QuietHost);
    assert!(gba.framebuffer().iter().all(|&p| p == 0x00ff_ffff));
}

#[test]
fn the_core_dump_shows_the_game_shortcuts_off() {
    let gba = Gba::new(vec![0; 0x400], None, false);
    let summary = gba.debug_summary();
    let first = summary.lines().next().unwrap();
    assert!(first.ends_with(" gameplay_hle=false legacy_flow_hle=false"));
    let mut cpu = Cpu::new(false);
    cpu.set_gameplay_hle(true);
    assert!(cpu.debug_summary().contains("gameplay_hle=true legacy_flow_hle=false"));
}

#[test]
fn a_timer_overflows_into_reload_interrupt_and_cascade() {
    let mut bus = bus();
    bus.write16(0x0400_0100, 0xfff0);
    bus.write16(0x0400_0106, 0x0084);
    bus.write16(0x0400_0102, 0x00c0);
    assert_eq!(bus.read16(0x0400_0100), 0xfff0);
    bus.step(0x0f);
    assert_eq!(bus.read16(0x0400_0100), 0xffff);
    assert_eq!(bus.read16(0x0400_0202) & 0x8, 0);
    bus.step(1);
    assert_eq!(bus.read16(0x0400_0100), 0xfff0);
    assert_eq!(bus.read16(0x0400_0202) & 0x8, 0x8);
    // Timer 1 counts timer 0's overflows.
    assert_eq!(bus.read16(0x0400_0104), 1);
}

#[test]
fn a_prescaled_timer_counts_whole_periods() {
    let mut bus = bus();
    bus.write16(0x0400_0102, 0x0081);
    bus.step(64 * 3 + 10);
    assert_eq!(bus.read16(0x0400_0100), 3);
    bus.step(54);
    assert_eq!(bus.read16(0x0400_0100), 4);
}

#[test]
fn vblank_leaves_work_ram_alone() {
    let mut bus = bus();
    bus.write32(0x0300_0938, 0x0200_0000);
    bus.write32(0x0300_093c, 0x0200_0100);
    bus.write16(0x0300_0940, 8);
    bus.write16(0x0300_0942, 1);
    bus.write8(0x0300_22dc, 0x40);
    let frame = bus.frame_count();
    bus.step(160 * 1232);
    assert_eq!(bus.frame_count(), frame + 1);
    assert_eq!(bus.read32(0x0300_0938), 0x0200_0000);
    assert_eq!(bus.read16(0x0300_0940), 8);
    assert_eq!(bus.read8(0x0300_22dc), 0x40);
    assert_eq!(bus.read8(0x0300_3171), 0);
    assert_eq!(bus.read32(0x0200_0100), 0);
}

#[test]
fn the_display_status_does_not_change_the_picture() {
    let setup = |dispstat: u16| {
        let mut gba = Gba::new(vec![0; 0x400], None, false);
        gba.bus.write16(0x0400_0000, 0x0100);
        gba.bus.write16(0x0400_0008, 0x0800);
        gba.bus.write16(0x0500_0002, 0x03e0);
        for off in (0..32).step_by(2) {
            gba.bus.write16(0x0600_0020 + off, 0x1111);
        }
        gba.bus.write16(0x0600_4002, 0x0001);
        gba.bus.write16(0x0400_0004, dispstat);
        gba.run_frame(&QuietHost);
        gba.framebuffer().to_vec()
    };
    let plain = setup(0);
    let with_irqs = setup(0x5038);
    assert_eq!(plain, with_irqs);
    assert_eq!(plain[8], 0x0000_ff00);
}

/// mov r0, #5; mov r1, #7; b back to the start (ARM).
fn looping_rom() -> Vec<u8> {
    vec![0x05, 0x00, 0xa0, 0xe3, 0x07, 0x10, 0xa0, 0xe3, 0xfc, 0xff, 0xff, 0xea]
}

#[test]
fn running_to_a_breakpoint_stops_on_it() {
    let mut gba = Gba::new(looping_rom(), None, false);
    assert!(gba.run_until_pc(0x0800_0008, 10, &QuietHost));
    assert_eq!(gba.cpu.pc(), 0x0800_0008);
    assert_eq!(gba.cpu.reg(0), 5);
    assert_eq!(gba.cpu.reg(1), 7);

    let mut gba = Gba::new(looping_rom(), None, false);
    assert!(!gba.run_until_pc(0x0800_0010, 10, &QuietHost));
    assert!(!gba.run_until_pc(0x0800_0000, 0, &QuietHost));
}

#[test]
fn a_breakpoint_hit_count_counts_visits() {
    let mut gba = Gba::new(looping_rom(), None, false);
    assert!(gba.run_until_pc_hit(0x0800_0000, 3, 100, &QuietHost));
    assert_eq!(gba.cpu.pc(), 0x0800_0000);

    // Six steps see the start twice (before steps one and four).
    let mut gba = Gba::new(looping_rom(), None, false);
    assert!(!gba.run_until_pc_hit(0x0800_0000, 3, 6, &QuietHost));
    // A target of zero stops at the first visit.
    let mut gba = Gba::new(looping_rom(), None, false);
    assert!(gba.run_until_pc_hit(0x0800_0000, 0, 1, &QuietHost));
}

#[test]
fn running_until_the_pc_leaves_the_map() {
    let mut gba = Gba::new(looping_rom(), None, false);
    assert!(!gba.run_until_invalid(50, &QuietHost));
    assert!(gba.cpu.pc() <= 0x0dff_ffff);

    let mut gba = Gba::new(looping_rom(), None, false);
    gba.cpu.branch_to(0x0e00_0000);
    assert!(gba.run_until_invalid(1, &QuietHost));
}

#[test]
fn the_dump_shows_the_game_progress() {
    let mut gba = Gba::new(vec![0; 0x400], None, false);
    let save1 = 0x0202_5734u32;
    gba.bus.write32(0x0300_5d8c, save1);
    gba.bus.write16(save1 + 0x145c, 3);
    gba.bus.write16(save1 + 0x14a4, 3);
    gba.bus.write16(save1 + 0x13e2, 1);
    // Flags: starter received, Birch rescued, bag and Zigzagoon hidden.
    gba.bus.write8(save1 + 0x137c, 0x01);
    gba.bus.write8(save1 + 0x127a, 0x04);
    gba.bus.write8(save1 + 0x12c7, 0x50);
    // One Pokemon, personality 6 (growth data in the second block), trainer id 7.
    gba.bus.write8(0x0202_44e9, 1);
    gba.bus.write32(0x0202_44ec, 6);
    gba.bus.write32(0x0202_44f0, 7);
    gba.bus.write32(0x0202_450c + 12, 280 ^ (6 ^ 7));
    gba.bus.write8(0x0202_4540, 5);
    gba.bus.write16(0x0202_4542, 19);
    gba.bus.write16(0x0202_4544, 19);
    gba.bus.write16(0x0202_4508, 0x1234);

    let summary = gba.debug_summary();
    assert!(summary.contains("\nSAVE save1=02025734 route101=3 birch_lab=3 starter=1\n"));
    assert!(summary.contains("\nPARTY count=1 species=280 level=5 hp=19/19 checksum=1234\n"));
    assert!(summary.contains(
        "\nSAVE_FLAGS pokemon_get=true rescued_birch=true hide_bag=true hide_zigzagoon=true hide_lab_birch=false\n"
    ));
    let snapshot = EduSnapshot::from_debug_summary(&summary, 9);
    assert_eq!(snapshot.party_count, Some(1));
    assert_eq!(snapshot.party_species, Some(280));
    assert_eq!(snapshot.starter_var, Some(1));
    assert_eq!(snapshot.pokemon_get, Some(true));
    assert_eq!(snapshot.rescued_birch, Some(true));
}

#[test]
fn a_whole_frame_of_cycles_returns_the_beam() {
    let mut ppu = vibe_gba::ppu::Ppu::new();
    let mut io = [0u8; 0x400];
    let vram = vec![0u8; 0x18000];
    let pram = vec![0u8; 0x400];
    let oam = vec![0u8; 0x400];
    ppu.step(1000 + 3 * 1232, &mut io, &vram, &pram, &oam);
    let (line, lc) = (ppu.line, ppu.line_cycles);
    assert_eq!((line, lc), (3, 1000));
    let events = ppu.step(vibe_gba::ppu::FRAME_CYCLES, &mut io, &vram, &pram, &oam);
    assert!(events.hblank && events.vblank && events.frame);
    assert_eq!((ppu.line, ppu.line_cycles), (line, lc));
}

#[test]
fn equal_machines_replay_the_same_headless_run() {
    let mut a = Gba::new(looping_rom(), None, false);
    let mut b = Gba::new(looping_rom(), None, false);
    for frame in 0..3 {
        let pressed = frame % 2 == 0;
        a.set_button(Button::A, pressed);
        b.set_button(Button::A, pressed);
        a.run_frame(&QuietHost);
        b.run_frame(&QuietHost);
        assert_eq!(a.framebuffer(), b.framebuffer());
        assert_eq!(a.debug_summary(), b.debug_summary());
    }
}

#[test]
fn pushed_registers_pop_back() {
    // stmdb sp!, {r0, r1}; mov r0, #0; mov r1, #0; ldmia sp!, {r0, r1}
    let rom = vec![
        0x03, 0x00, 0x2d, 0xe9, 0x00, 0x00, 0xa0, 0xe3, 0x00, 0x10, 0xa0, 0xe3, 0x03, 0x00, 0xbd,
        0xe8,
    ];
    let mut bus = Bus::new(rom, Flash::new(None));
    let mut cpu = Cpu::new(false);
    cpu.set_reg(13, 0x0201_0000);
    cpu.set_reg(0, 5);
    cpu.set_reg(1, 7);
    cpu.step(&mut bus, &QuietHost);
    assert_eq!(cpu.sp(), 0x0200_fff8);
    assert_eq!(bus.read32(0x0200_fff8), 5);
    assert_eq!(bus.read32(0x0200_fffc), 7);
    cpu.step(&mut bus, &QuietHost);
    cpu.step(&mut bus, &QuietHost);
    assert_eq!((cpu.reg(0), cpu.reg(1)), (0, 0));
    cpu.step(&mut bus, &QuietHost);
    assert_eq!((cpu.reg(0), cpu.reg(1)), (5, 7));
    assert_eq!(cpu.sp(), 0x0201_0000);
}

#[test]
fn pushed_registers_pop_back_from_iwram() {
    // stmdb sp!, {r0, r1}; mov r0, #0; mov r1, #0; ldmia sp!, {r0, r1}
    let rom = vec![
        0x03, 0x00, 0x2d, 0xe9, 0x00, 0x00, 0xa0, 0xe3, 0x00, 0x10, 0xa0, 0xe3, 0x03, 0x00, 0xbd,
        0xe8,
    ];
    let mut bus = Bus::new(rom, Flash::new(None));
    let mut cpu = Cpu::new(false);
    assert_eq!(cpu.sp(), 0x0300_7f00);
    cpu.set_reg(0, 9);
    cpu.set_reg(1, 11);
    for _ in 0..4 {
        cpu.step(&mut bus, &QuietHost);
    }
    assert_eq!(bus.read32(0x0300_7ef8), 9);
    assert_eq!(bus.read32(0x0300_7efc), 11);
    assert_eq!((cpu.reg(0), cpu.reg(1)), (9, 11));
    assert_eq!(cpu.sp(), 0x0300_7f00);
}

#[test]
fn a_fresh_machine_is_well_formed() {
    let mut gba = Gba::new(vec![0; 0x400], None, false);
    assert!(gba.is_well_formed());
    gba.bus.ppu.line = 500;
    assert!(!gba.is_well_formed());
}

#[test]
fn window_keys_map_to_console_keys() {
    let mut gba = Gba::new(vec![0; 0x400], None, false);
    let keys = vibe_gba::args::WindowKeys {
        z: false,
        a: true,
        x: false,
        s: false,
        backspace: false,
        enter: true,
        right: false,
        left: false,
        up: false,
        down: false,
        e: false,
        q: true,
    };
    vibe_gba::args::apply_window_keys(&mut gba, &keys);
    // A (bit 0), Start (bit 3) and L (bit 9) are down; KEYINPUT is active low.
    assert_eq!(gba.bus.read16(0x0400_0130), 0x03ff & !(1 << 0) & !(1 << 3) & !(1 << 9));
}
