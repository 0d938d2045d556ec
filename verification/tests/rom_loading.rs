use std::io::Write;

use vibe_gba::cartridge::{load_rom_bytes, RomError};
use zip::write::SimpleFileOptions;
use zip::{CompressionMethod, ZipWriter};

fn zip_of(entries: &[(&str, Option<&[u8]>)]) -> Vec<u8> {
    let mut cursor = std::io::Cursor::new(Vec::new());
    {
        let mut writer = ZipWriter::new(&mut cursor);
        let options = SimpleFileOptions::default().compression_method(CompressionMethod::Stored);
        for (name, data) in entries {
            match data {
                Some(bytes) => {
                    writer.start_file(*name, options).unwrap();
                    writer.write_all(bytes).unwrap();
                }
                None => {
                    writer.add_directory(*name, options).unwrap();
                }
            }
        }
        writer.finish().unwrap();
    }
    cursor.into_inner()
}

#[test]
fn plain_images_pass_through() {
    let rom = vec![0x2e, 0x00, 0x00, 0xea, 1, 2, 3];
    assert_eq!(load_rom_bytes(rom.clone()).unwrap(), rom);
    assert_eq!(load_rom_bytes(Vec::new()).unwrap(), Vec::<u8>::new());
    // Only the full four-byte signature marks an archive.
    assert_eq!(load_rom_bytes(b"PK\x03".to_vec()).unwrap(), b"PK\x03".to_vec());
}

#[test]
fn the_gba_entry_of_an_archive_is_taken() {
    let bytes = zip_of(&[
        ("readme.txt", Some(b"hello")),
        ("roms/", None),
        ("roms/Game.GBA", Some(&[9, 8, 7, 6])),
    ]);
    assert_eq!(load_rom_bytes(bytes).unwrap(), vec![9, 8, 7, 6]);
}

#[test]
fn without_a_gba_entry_the_first_file_is_taken() {
    let bytes = zip_of(&[("dir/", None), ("first.bin", Some(&[1, 2])), ("second.bin", Some(&[3]))]);
    assert_eq!(load_rom_bytes(bytes).unwrap(), vec![1, 2]);
}

#[test]
fn an_archive_of_directories_has_no_rom() {
    let bytes = zip_of(&[("only/", None)]);
    assert!(matches!(load_rom_bytes(bytes), Err(RomError::NoGbaEntry)));
}

#[test]
fn a_broken_archive_is_refused() {
    let mut bytes = b"PK\x03\x04".to_vec();
    bytes.extend_from_slice(&[0u8; 16]);
    assert!(matches!(load_rom_bytes(bytes), Err(RomError::Archive(_))));
}

fn name(text: &str) -> Option<Vec<char>> {
    Some(text.chars().collect())
}

#[test]
fn the_first_gba_file_is_picked_past_directories_and_other_files() {
    let names = vec![name("roms/"), name("readme.txt"), name("game.GBA"), name("b.gba")];
    assert_eq!(vibe_gba::cartridge::pick_rom_entry(&names), Some(2));
}

#[test]
fn without_a_gba_file_the_first_file_is_picked() {
    let names = vec![name("dir\\"), name("notes.txt"), name("data.bin")];
    assert_eq!(vibe_gba::cartridge::pick_rom_entry(&names), Some(1));
}

#[test]
fn an_unreadable_entry_before_the_choice_gives_nothing() {
    let names = vec![name("notes.txt"), None, name("game.gba")];
    assert_eq!(vibe_gba::cartridge::pick_rom_entry(&names), None);
    let names = vec![name("game.gba"), None];
    assert_eq!(vibe_gba::cartridge::pick_rom_entry(&names), Some(0));
    let names = vec![name("a/"), name("b/")];
    assert_eq!(vibe_gba::cartridge::pick_rom_entry(&names), None);
}
