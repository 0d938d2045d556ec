use vibe_gba::cartridge::{Flash, FlashState};

fn command(flash: &mut Flash, cmd: u8) {
    flash.write(0x0e00_5555, 0xaa);
    flash.write(0x0e00_2aaa, 0x55);
    flash.write(0x0e00_5555, cmd);
}

#[test]
fn a_fresh_chip_reads_erased() {
    let flash = Flash::new(None);
    assert_eq!(flash.read(0x0e00_0000), 0xff);
    assert_eq!(flash.read(0x0e00_ffff), 0xff);
    assert!(!flash.is_dirty());
}

#[test]
fn saved_bytes_fill_the_start_of_the_chip() {
    let flash = Flash::new(Some(&[1, 2, 3]));
    assert_eq!(flash.read(0x0e00_0000), 1);
    assert_eq!(flash.read(0x0e00_0002), 3);
    assert_eq!(flash.read(0x0e00_0003), 0xff);
    assert_eq!(flash.data().len(), 0x20000);
}

#[test]
fn programming_clears_bits_and_marks_dirty() {
    let mut flash = Flash::new(Some(&[0xf0]));
    command(&mut flash, 0xa0);
    flash.write(0x0e00_0000, 0x3c);
    assert_eq!(flash.read(0x0e00_0000), 0xf0 & 0x3c);
    assert!(flash.is_dirty());
    assert_eq!(flash.state, FlashState::Ready);
    // Without the command sequence a write changes nothing.
    flash.write(0x0e00_0001, 0x00);
    assert_eq!(flash.read(0x0e00_0001), 0xff);
}

#[test]
fn chip_erase_sets_every_byte() {
    let mut flash = Flash::new(Some(&[0, 0, 0]));
    command(&mut flash, 0x80);
    command(&mut flash, 0x10);
    assert_eq!(flash.read(0x0e00_0000), 0xff);
    assert_eq!(flash.read(0x0e00_0002), 0xff);
    assert_eq!(flash.state, FlashState::Ready);
}

#[test]
fn identification_reads_maker_and_device() {
    let mut flash = Flash::new(Some(&[0x11, 0x22]));
    command(&mut flash, 0x90);
    assert_eq!(flash.read(0x0e00_0000), 0xc2);
    assert_eq!(flash.read(0x0e00_0001), 0x09);
    command(&mut flash, 0xf0);
    assert_eq!(flash.read(0x0e00_0000), 0x11);
    assert_eq!(flash.read(0x0e00_0001), 0x22);
}

#[test]
fn bank_switch_selects_the_upper_half() {
    let mut flash = Flash::new(None);
    command(&mut flash, 0xb0);
    flash.write(0x0e00_0000, 1);
    command(&mut flash, 0xa0);
    flash.write(0x0e00_0010, 0x42);
    assert_eq!(flash.data()[0x10010], 0x42);
    assert_eq!(flash.data()[0x10], 0xff);
}

#[test]
fn flushing_writes_only_changed_contents() {
    let mut flash = Flash::new(None);
    let mut calls = 0;
    assert_eq!(
        flash.flush(|_bytes: &[u8]| -> Result<(), ()> {
            calls += 1;
            Ok(())
        }),
        Ok(())
    );
    assert_eq!(calls, 0);

    command(&mut flash, 0xa0);
    flash.write(0x0e00_0004, 0x00);
    let mut seen = Vec::new();
    assert_eq!(
        flash.flush_if_dirty(|bytes: &[u8]| -> Result<(), ()> {
            seen = bytes.to_vec();
            Ok(())
        }),
        Ok(())
    );
    assert_eq!(seen.len(), 0x20000);
    assert_eq!(seen[4], 0x00);
    assert!(!flash.is_dirty());
}

#[test]
fn a_failed_write_keeps_the_chip_dirty() {
    let mut flash = Flash::new(None);
    command(&mut flash, 0xa0);
    flash.write(0x0e00_0000, 0x12);
    assert_eq!(flash.flush(|_bytes: &[u8]| Err("disk full")), Err("disk full"));
    assert!(flash.is_dirty());
    assert_eq!(flash.flush(|_bytes: &[u8]| -> Result<(), &str> { Ok(()) }), Ok(()));
    assert!(!flash.is_dirty());
}
