use vibe_gba::bios::{arc_tan2_args, arc_tan_arg, bg_affine_args, handle_swi, midi_key_args};
use vibe_gba::bus::Bus;
use vibe_gba::cartridge::Flash;
use vibe_gba::cpu::Cpu;
use vibe_gba::host::Host;

struct FloatHost;

impl Host for FloatHost {
    fn arc_tan(&self, x: i16) -> i16 {
        let t = x as f64 / 16384.0;
        (t.atan() * 32768.0 / std::f64::consts::PI) as i16
    }

    fn arc_tan2(&self, x: i16, y: i16) -> i16 {
        ((y as f64).atan2(x as f64) * 32768.0 / std::f64::consts::PI) as i16
    }

    fn affine_params(&self, sx: i16, sy: i16, theta: u16) -> (i16, i16, i16, i16) {
        let sx = sx as f64 / 256.0;
        let sy = sy as f64 / 256.0;
        let angle = theta as f64 * std::f64::consts::TAU / 65536.0;
        let (sin, cos) = (angle.sin(), angle.cos());
        (
            (cos * sx * 256.0) as i16,
            (-sin * sx * 256.0) as i16,
            (sin * sy * 256.0) as i16,
            (cos * sy * 256.0) as i16,
        )
    }

    fn midi_key_to_freq(&self, base: u32, semitones: i32) -> u32 {
        (base as f64 / 2f64.powf(semitones as f64 / 12.0)) as u32
    }

    fn trace(&self, _pc: u32, _instr: u32, _thumb: bool) {}

    fn frame_guard_tripped(&self, _pc: u32) {}
}

#[test]
fn obj_affine_set_uses_destination_offset_bytes() {
    let mut cpu = Cpu::new(false);
    let mut bus = Bus::new(vec![0xff], Flash::new(None));
    let src = 0x0200_0000;
    let dst = 0x0200_0100;

    for (idx, value) in [0x1111, 0x2222, 0x3333, 0x4444].into_iter().enumerate() {
        bus.write16(src + idx as u32 * 2, value);
    }
    for off in (0..0x20).step_by(2) {
        bus.write16(dst + off, 0xdead);
    }

    cpu.set_reg(0, src);
    cpu.set_reg(1, dst);
    cpu.set_reg(2, 1);
    cpu.set_reg(3, 2);

    handle_swi(0x0f, &mut cpu, &mut bus, &FloatHost);

    assert_eq!(bus.read16(dst), 0x1111);
    assert_eq!(bus.read16(dst + 2), 0x2222);
    assert_eq!(bus.read16(dst + 4), 0x3333);
    assert_eq!(bus.read16(dst + 6), 0x4444);
    assert_eq!(bus.read16(dst + 8), 0xdead);
    assert_eq!(bus.read16(dst + 16), 0xdead);
    assert_eq!(bus.read16(dst + 24), 0xdead);
}

#[test]
fn bg_affine_set_writes_matrix_and_reference_point() {
    let mut cpu = Cpu::new(false);
    let mut bus = Bus::new(vec![0xff], Flash::new(None));
    let src = 0x0200_0000;
    let dst = 0x0200_0100;
    // Centre (0x1000, 0x2000) in texture space, display centre (8, 4),
    // scale 1.0 on both axes, angle 0.
    bus.write32(src, 0x1000);
    bus.write32(src + 4, 0x2000);
    bus.write16(src + 8, 8);
    bus.write16(src + 10, 4);
    bus.write16(src + 12, 0x100);
    bus.write16(src + 14, 0x100);
    bus.write16(src + 16, 0);

    cpu.set_reg(0, src);
    cpu.set_reg(1, dst);
    cpu.set_reg(2, 1);
    handle_swi(0x0e, &mut cpu, &mut bus, &FloatHost);

    assert_eq!(bus.read16(dst), 0x100);
    assert_eq!(bus.read16(dst + 2), 0);
    assert_eq!(bus.read16(dst + 4), 0);
    assert_eq!(bus.read16(dst + 6), 0x100);
    assert_eq!(bus.read32(dst + 8), 0x1000 - 0x100 * 8);
    assert_eq!(bus.read32(dst + 12), 0x2000 - 0x100 * 4);
    assert_eq!(cpu.reg(2), 1);
}

#[test]
fn host_arguments_come_from_the_registers_and_memory() {
    let mut cpu = Cpu::new(false);
    let mut bus = Bus::new(vec![0xff], Flash::new(None));
    cpu.set_reg(0, 0x0002_fff0);
    cpu.set_reg(1, 0x0000_0010);
    assert_eq!(arc_tan_arg(&cpu), -16);
    assert_eq!(arc_tan2_args(&cpu), (-16, 16));

    bus.write32(0x0200_0004, 44100);
    cpu.set_reg(0, 0x0200_0000);
    cpu.set_reg(1, 60);
    cpu.set_reg(2, 384);
    assert_eq!(midi_key_args(&cpu, &bus), (44100, 119));
    cpu.set_reg(2, (-300i32) as u32);
    assert_eq!(midi_key_args(&cpu, &bus), (44100, 121));

    bus.write16(0x0200_010c, 0xff00);
    bus.write16(0x0200_010e, 0x0100);
    bus.write16(0x0200_0110, 0x4000);
    assert_eq!(bg_affine_args(&bus, 0x0200_0100), (-256, 256, 0x4000));
}
