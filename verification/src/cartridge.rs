//! Cartridge side of the machine: the 128 KiB flash save chip and ROM image
//! extraction.

use vstd::prelude::*;
use std::io::Cursor;
use zip::result::ZipError;
use zip::ZipArchive;

verus! {

/// Size of the flash save memory in bytes (two 64 KiB banks).
pub const FLASH_SIZE: usize = 0x20000;

/// Progress through the flash chip's command sequences.
#[derive(Clone, Copy, Debug, PartialEq, Eq, Structural)]
pub enum FlashState {
    Ready,
    GotAa,
    GotAa55,
    Program,
    Erase1,
    EraseGotAa,
    EraseGotAa55,
    BankSelect,
}

/// A Macronix-style 128 KiB flash chip with command state machine.
pub struct Flash {
    pub data: Vec<u8>,
    pub dirty: bool,
    pub state: FlashState,
    pub id_mode: bool,
    pub bank: usize,
}

/// The mathematical contents of a [`Flash`].
pub ghost struct FlashView {
    pub data: Seq<u8>,
    pub dirty: bool,
    pub state: FlashState,
    pub id_mode: bool,
    pub bank: usize,
}

/// The save chip holding `saved` (cut to its size, erased bytes past it), or
/// an erased chip when there is none: ready, clean, bank 0.
pub open spec fn loaded_flash(saved: Option<Seq<u8>>) -> FlashView {
    FlashView {
        data: Seq::new(
            FLASH_SIZE as nat,
            |i: int|
                match saved {
                    Some(s) => if i < s.len() {
                        s[i]
                    } else {
                        0xffu8
                    },
                    None => 0xffu8,
                },
        ),
        dirty: false,
        state: FlashState::Ready,
        id_mode: false,
        bank: 0,
    }
}

impl View for Flash {
    type V = FlashView;

    open spec fn view(&self) -> FlashView {
        FlashView {
            data: self.data@,
            dirty: self.dirty,
            state: self.state,
            id_mode: self.id_mode,
            bank: self.bank,
        }
    }
}

impl FlashView {
    pub open spec fn wf(self) -> bool {
        self.data.len() == FLASH_SIZE && self.bank <= 1
    }

    /// Index into `data` that offset `off` of the current bank maps to.
    pub open spec fn index_of(self, off: u32) -> int {
        (self.bank * 0x10000 + off) % (self.data.len() as int)
    }

    /// Byte returned by a read of flash address `addr`.
    pub open spec fn read(self, addr: u32) -> u8 {
        let off = addr & 0xffff;
        if self.id_mode {
            if off == 0 {
                0xc2
            } else if off == 1 {
                0x09
            } else {
                0xff
            }
        } else {
            self.data[self.index_of(off)]
        }
    }

    pub open spec fn with_state(self, state: FlashState) -> FlashView {
        FlashView { state, ..self }
    }

    /// The chip after a write of `value` to flash address `addr`.
    pub open spec fn write(self, addr: u32, value: u8) -> FlashView {
        let off = addr & 0xffff;
        match self.state {
            FlashState::Ready => {
                if off == 0x5555 && value == 0xaa {
                    self.with_state(FlashState::GotAa)
                } else if value == 0xf0 {
                    FlashView { id_mode: false, ..self }
                } else {
                    self
                }
            },
            FlashState::GotAa => {
                if off == 0x2aaa && value == 0x55 {
                    self.with_state(FlashState::GotAa55)
                } else {
                    self.with_state(FlashState::Ready)
                }
            },
            FlashState::GotAa55 => {
                let ready = self.with_state(FlashState::Ready);
                if off != 0x5555 {
                    ready
                } else if value == 0x90 {
                    FlashView { id_mode: true, ..ready }
                } else if value == 0xf0 {
                    FlashView { id_mode: false, ..ready }
                } else if value == 0xa0 {
                    self.with_state(FlashState::Program)
                } else if value == 0x80 {
                    self.with_state(FlashState::Erase1)
                } else if value == 0xb0 {
                    self.with_state(FlashState::BankSelect)
                } else {
                    ready
                }
            },
            FlashState::Program => {
                let i = self.index_of(off);
                FlashView {
                    data: self.data.update(i, self.data[i] & value),
                    dirty: true,
                    state: FlashState::Ready,
                    ..self
                }
            },
            FlashState::Erase1 => {
                if off == 0x5555 && value == 0xaa {
                    self.with_state(FlashState::EraseGotAa)
                } else {
                    self.with_state(FlashState::Ready)
                }
            },
            FlashState::EraseGotAa => {
                if off == 0x2aaa && value == 0x55 {
                    self.with_state(FlashState::EraseGotAa55)
                } else {
                    self.with_state(FlashState::Ready)
                }
            },
            FlashState::EraseGotAa55 => {
                if off == 0x5555 && value == 0x10 {
                    FlashView {
                        data: Seq::new(self.data.len(), |i: int| 0xffu8),
                        dirty: true,
                        state: FlashState::Ready,
                        ..self
                    }
                } else if value == 0x30 {
                    let base = self.bank * 0x10000 + (off & !0x0fffu32);
                    FlashView {
                        data: Seq::new(
                            self.data.len(),
                            |i: int|
                                if base <= i < base + 0x1000 {
                                    0xffu8
                                } else {
                                    self.data[i]
                                },
                        ),
                        dirty: true,
                        state: FlashState::Ready,
                        ..self
                    }
                } else {
                    self.with_state(FlashState::Ready)
                }
            },
            FlashState::BankSelect => {
                FlashView { bank: (value & 1) as usize, state: FlashState::Ready, ..self }
            },
        }
    }
}

proof fn lemma_sector_base(off: u32, bank: usize)
    requires
        off <= 0xffff,
        bank <= 1,
    ensures
        bank * 0x10000 + (off & !0x0fffu32) + 0x1000 <= FLASH_SIZE,
        off & !0x0fffu32 <= 0xf000,
{
    assert(off & !0x0fffu32 <= 0xf000) by (bit_vector)
        requires
            off <= 0xffff,
    ;
}

proof fn lemma_low16(addr: u32)
    ensures
        addr & 0xffff <= 0xffff,
{
    assert(addr & 0xffff <= 0xffff) by (bit_vector);
}

/// The command prefix of the flash chip: 0xaa to 0x5555, 0x55 to 0x2aaa,
/// then `cmd` to 0x5555.
pub open spec fn flash_command(f: FlashView, cmd: u8) -> FlashView {
    f.write(0x0e00_5555, 0xaa).write(0x0e00_2aaa, 0x55).write(0x0e00_5555, cmd)
}

proof fn lemma_command_offsets()
    ensures
        0x0e00_5555u32 & 0xffff == 0x5555,
        0x0e00_2aaau32 & 0xffff == 0x2aaa,
        0x0e00_0000u32 & 0xffff == 0,
        0x0e00_0001u32 & 0xffff == 1,
{
    assert(0x0e00_5555u32 & 0xffff == 0x5555 && 0x0e00_2aaau32 & 0xffff == 0x2aaa && 0x0e00_0000u32
        & 0xffff == 0 && 0x0e00_0001u32 & 0xffff == 1) by (bit_vector);
}

/// Byte programming: after the program command, a write to `addr` clears
/// the bits of the byte there that are clear in `v` (flash can only clear
/// bits), marks the chip modified and leaves every other byte alone.
pub proof fn law_flash_program(f: FlashView, addr: u32, v: u8)
    requires
        f.wf(),
        f.state == FlashState::Ready,
        !f.id_mode,
    ensures
        ({
            let g = flash_command(f, 0xa0).write(addr, v);
            &&& g.wf()
            &&& g.state == FlashState::Ready
            &&& g.dirty
            &&& g.read(addr) == f.read(addr) & v
            &&& forall|a: u32| #[trigger] f.index_of(a & 0xffff) != f.index_of(addr & 0xffff) ==> g.read(a) == f.read(a)
        }),
{
    lemma_command_offsets();
    lemma_low16(addr);
}

/// Chip erase: the erase command sequence sets every byte to 0xff.
pub proof fn law_flash_chip_erase(f: FlashView, addr: u32)
    requires
        f.wf(),
        f.state == FlashState::Ready,
        !f.id_mode,
    ensures
        ({
            let g = flash_command(flash_command(f, 0x80), 0x10);
            &&& g.wf()
            &&& g.state == FlashState::Ready
            &&& g.read(addr) == 0xff
        }),
{
    lemma_command_offsets();
    lemma_low16(addr);
    let g = flash_command(flash_command(f, 0x80), 0x10);
    assert(0 <= g.index_of(addr & 0xffff) < FLASH_SIZE);
}

/// Sector erase: the erase command sequence ended by 0x30 at `addr` sets to
/// 0xff the 4 KB sector that holds `addr`, in the selected bank (bytes
/// `bank * 0x10000 + (addr % 0x10000) / 0x1000 * 0x1000` and the 0xfff after
/// them), and leaves every other byte as it was.
pub proof fn law_flash_sector_erase(f: FlashView, addr: u32)
    requires
        f.wf(),
        f.state == FlashState::Ready,
    ensures
        ({
            let g = flash_command(f, 0x80).write(0x0e00_5555, 0xaa).write(0x0e00_2aaa, 0x55).write(
                addr,
                0x30,
            );
            let base = f.bank * 0x10000 + (addr % 0x10000) / 0x1000 * 0x1000;
            &&& g.wf()
            &&& g.state == FlashState::Ready
            &&& g.dirty
            &&& g.bank == f.bank
            &&& forall|i: int|
                0 <= i < FLASH_SIZE ==> #[trigger] g.data[i] == if base <= i < base + 0x1000 {
                    0xffu8
                } else {
                    f.data[i]
                }
        }),
{
    lemma_command_offsets();
    lemma_low16(addr);
    let off = addr & 0xffff;
    assert(off & !0x0fffu32 == (addr % 0x10000) / 0x1000 * 0x1000) by (bit_vector)
        requires
            off == addr & 0xffff,
    ;
    lemma_sector_base(off, f.bank);
}

/// Identification: the ID command makes reads of offsets 0 and 1 give the
/// maker and device codes (0xc2, 0x09), and the exit command ends it.
pub proof fn law_flash_id_mode(f: FlashView)
    requires
        f.wf(),
        f.state == FlashState::Ready,
    ensures
        flash_command(f, 0x90).read(0x0e00_0000) == 0xc2,
        flash_command(f, 0x90).read(0x0e00_0001) == 0x09,
        !flash_command(flash_command(f, 0x90), 0xf0).id_mode,
{
    lemma_command_offsets();
}

impl Flash {
    pub open spec fn wf(&self) -> bool {
        self@.wf()
    }

    /// A chip filled with 0xff, with the leading bytes taken from `saved`
    /// (at most the chip's size).
    pub fn new(saved: Option<&[u8]>) -> (f: Flash)
        ensures
            f.wf(),
            !f.dirty,
            f.state == FlashState::Ready,
            !f.id_mode,
            f.bank == 0,
            forall|i: int|
                0 <= i < FLASH_SIZE ==> f.data@[i] == (match saved {
                    Some(s) => if i < s@.len() {
                        s@[i]
                    } else {
                        0xffu8
                    },
                    None => 0xffu8,
                }),
            f@ == loaded_flash(match saved {
                Some(s) => Some(s@),
                None => None,
            }),
    {
        let mut data = vec![0xffu8; FLASH_SIZE];
        if let Some(existing) = saved {
            let len = if existing.len() < data.len() {
                existing.len()
            } else {
                data.len()
            };
            let mut i: usize = 0;
            while i < len
                invariant
                    len <= existing@.len(),
                    len <= FLASH_SIZE,
                    i <= len,
                    data@.len() == FLASH_SIZE,
                    forall|j: int|
                        0 <= j < FLASH_SIZE ==> data@[j] == if j < i {
                            existing@[j]
                        } else {
                            0xffu8
                        },
                decreases len - i,
            {
                data[i] = existing[i];
                i = i + 1;
            }
        }
        let f = Flash { data, dirty: false, state: FlashState::Ready, id_mode: false, bank: 0 };
        proof {
            let sv = match saved {
                Some(s) => Some(s@),
                None => None,
            };
            assert(f@.data =~= loaded_flash(sv).data);
        }
        f
    }

    pub fn read(&self, addr: u32) -> (r: u8)
        requires
            self.wf(),
        ensures
            r == self@.read(addr),
    {
        let off = addr & 0xffff;
        if self.id_mode {
            return match off {
                0 => 0xc2,
                1 => 0x09,
                _ => 0xff,
            };
        }
        proof {
            lemma_low16(addr);
        }
        let index = self.bank * 0x10000 + off as usize;
        self.data[index % self.data.len()]
    }

    pub fn write(&mut self, addr: u32, value: u8)
        requires
            old(self).wf(),
        ensures
            final(self).wf(),
            final(self)@ == old(self)@.write(addr, value),
    {
        let off = addr & 0xffff;
        proof {
            lemma_low16(addr);
        }
        match self.state {
            FlashState::Ready => {
                if off == 0x5555 && value == 0xaa {
                    self.state = FlashState::GotAa;
                } else if value == 0xf0 {
                    self.id_mode = false;
                }
            },
            FlashState::GotAa => {
                self.state = if off == 0x2aaa && value == 0x55 {
                    FlashState::GotAa55
                } else {
                    FlashState::Ready
                };
            },
            FlashState::GotAa55 => {
                self.state = FlashState::Ready;
                if off == 0x5555 {
                    match value {
                        0x90 => self.id_mode = true,
                        0xf0 => self.id_mode = false,
                        0xa0 => self.state = FlashState::Program,
                        0x80 => self.state = FlashState::Erase1,
                        0xb0 => self.state = FlashState::BankSelect,
                        _ => {},
                    }
                }
            },
            FlashState::Program => {
                self.program_byte(off, value);
                self.state = FlashState::Ready;
            },
            FlashState::Erase1 => {
                self.state = if off == 0x5555 && value == 0xaa {
                    FlashState::EraseGotAa
                } else {
                    FlashState::Ready
                };
            },
            FlashState::EraseGotAa => {
                self.state = if off == 0x2aaa && value == 0x55 {
                    FlashState::EraseGotAa55
                } else {
                    FlashState::Ready
                };
            },
            FlashState::EraseGotAa55 => {
                if off == 0x5555 && value == 0x10 {
                    self.fill_range(0, FLASH_SIZE);
                    self.dirty = true;
                } else if value == 0x30 {
                    proof {
                        lemma_sector_base(off, self.bank);
                    }
                    let base = self.bank * 0x10000 + (off & !0x0fffu32) as usize;
                    self.fill_range(base, base + 0x1000);
                    self.dirty = true;
                }
                self.state = FlashState::Ready;
            },
            FlashState::BankSelect => {
                proof {
                    crate::bits::lemma_u8_and_le(value, 1);
                }
                self.bank = (value & 1) as usize;
                self.state = FlashState::Ready;
            },
        }
        proof {
            assert(final(self)@.data =~= old(self)@.write(addr, value).data);
        }
    }

    /// Sets bytes `start..end` to 0xff.
    fn fill_range(&mut self, start: usize, end: usize)
        requires
            old(self).wf(),
            start <= end <= FLASH_SIZE,
        ensures
            final(self)@ == (FlashView {
                data: Seq::new(
                    old(self)@.data.len(),
                    |i: int|
                        if start <= i < end {
                            0xffu8
                        } else {
                            old(self)@.data[i]
                        },
                ),
                ..old(self)@
            }),
    {
        let ghost before = self@;
        let mut i = start;
        while i < end
            invariant
                start <= i <= end <= FLASH_SIZE,
                self@ == (FlashView { data: self@.data, ..before }),
                self@.data.len() == FLASH_SIZE,
                forall|j: int|
                    0 <= j < FLASH_SIZE ==> self@.data[j] == if start <= j < i {
                        0xffu8
                    } else {
                        before.data[j]
                    },
            decreases end - i,
        {
            self.data[i] = 0xff;
            i = i + 1;
        }
        proof {
            assert(self@.data =~= Seq::new(
                before.data.len(),
                |j: int|
                    if start <= j < end {
                        0xffu8
                    } else {
                        before.data[j]
                    },
            ));
        }
    }

    fn program_byte(&mut self, off: u32, value: u8)
        requires
            old(self).wf(),
            off <= 0xffff,
        ensures
            final(self)@ == (FlashView {
                data: old(self)@.data.update(
                    old(self)@.index_of(off),
                    old(self)@.data[old(self)@.index_of(off)] & value,
                ),
                dirty: true,
                ..old(self)@
            }),
    {
        let index = self.bank * 0x10000 + off as usize;
        let len = self.data.len();
        let i = index % len;
        self.data[i] = self.data[i] & value;
        self.dirty = true;
    }

    /// Whether the contents changed since the last [`Flash::mark_clean`].
    pub fn is_dirty(&self) -> (r: bool)
        ensures
            r == self.dirty,
    {
        self.dirty
    }

    /// The raw contents of the chip.
    pub fn data(&self) -> (r: &[u8])
        ensures
            r@ == self.data@,
    {
        self.data.as_slice()
    }

    /// Records that the contents were written to backing storage.
    pub fn mark_clean(&mut self)
        ensures
            final(self)@ == (FlashView { dirty: false, ..old(self)@ }),
    {
        self.dirty = false;
    }

    /// Writes the contents out through `write` when they changed since the
    /// last successful write. A clean chip is left alone and `Ok` comes back
    /// without a call; otherwise `write` gets the whole chip, its result is
    /// returned, and the chip is clean afterwards exactly when it succeeded.
    pub fn flush<E, F: FnOnce(&[u8]) -> Result<(), E>>(&mut self, write: F) -> (r: Result<(), E>)
        requires
            old(self).dirty ==> forall|s: &[u8]| s@ == old(self).data@ ==> call_requires(write, (s,)),
        ensures
            !old(self).dirty ==> r is Ok && final(self)@ == old(self)@,
            old(self).dirty ==> exists|s: &[u8]| s@ == old(self).data@ && call_ensures(write, (s,), r),
            old(self).dirty ==> final(self)@ == (FlashView { dirty: r is Err, ..old(self)@ }),
    {
        if !self.dirty {
            return Ok(());
        }
        let s = self.data.as_slice();
        let r = write(s);
        if r.is_ok() {
            self.dirty = false;
        }
        r
    }

    /// The same as [`Flash::flush`]: only changed contents are written.
    pub fn flush_if_dirty<E, F: FnOnce(&[u8]) -> Result<(), E>>(&mut self, write: F) -> (r: Result<(), E>)
        requires
            old(self).dirty ==> forall|s: &[u8]| s@ == old(self).data@ ==> call_requires(write, (s,)),
        ensures
            !old(self).dirty ==> r is Ok && final(self)@ == old(self)@,
            old(self).dirty ==> exists|s: &[u8]| s@ == old(self).data@ && call_ensures(write, (s,), r),
            old(self).dirty ==> final(self)@ == (FlashView { dirty: r is Err, ..old(self)@ }),
    {
        self.flush(write)
    }
}


// ---------------------------------------------------------------------------
// ROM images, plain or inside a zip archive.

#[verifier::external_type_specification]
#[verifier::external_body]
#[verifier::reject_recursive_types(T)]
pub struct ExCursor<T>(Cursor<T>);

#[verifier::external_type_specification]
#[verifier::external_body]
#[verifier::reject_recursive_types(R)]
pub struct ExZipArchive<R>(ZipArchive<R>);

#[verifier::external_type_specification]
#[verifier::external_body]
pub struct ExZipError(ZipError);

/// The bytes a cursor reads from.
pub uninterp spec fn cursor_bytes(c: Cursor<Vec<u8>>) -> Seq<u8>;

/// The entries of a zip archive, in order: each name, whether the entry
/// opens, and its uncompressed contents when they read in full.
pub uninterp spec fn archive_entries(z: ZipArchive<Cursor<Vec<u8>>>) -> Seq<(Seq<char>, bool, Option<Seq<u8>>)>;

/// The entries of the zip archive the bytes `bytes` hold, as
/// `archive_entries` gives them, or `None` when the bytes hold no archive
/// that can be read.
pub uninterp spec fn zip_entries(bytes: Seq<u8>) -> Option<Seq<(Seq<char>, bool, Option<Seq<u8>>)>>;

/// Why a ROM image could not be had.
#[derive(Debug)]
pub enum RomError {
    /// The zip archive could not be read.
    Archive(ZipError),
    /// The zip archive holds no file.
    NoGbaEntry,
}

/// `std::io::Cursor::new`: a reader over `bytes` from their start.
#[verifier::external_body]
fn cursor_new(bytes: Vec<u8>) -> (c: Cursor<Vec<u8>>)
    ensures
        cursor_bytes(c) == bytes@,
{
    Cursor::new(bytes)
}

/// `zip::ZipArchive::new`: reads the central directory of the archive the
/// cursor's bytes hold. It succeeds exactly when the bytes hold an archive
/// that can be read, and the archive then lists the entries the bytes
/// describe.
#[verifier::external_body]
fn archive_new(c: Cursor<Vec<u8>>) -> (r: Result<ZipArchive<Cursor<Vec<u8>>>, ZipError>)
    ensures
        r is Ok <==> zip_entries(cursor_bytes(c)) is Some,
        r matches Ok(z) ==> zip_entries(cursor_bytes(c)) == Some(archive_entries(z)),
{
    ZipArchive::new(c)
}

/// `zip::ZipArchive::len`: the number of entries.
#[verifier::external_body]
fn archive_len(z: &ZipArchive<Cursor<Vec<u8>>>) -> (r: usize)
    ensures
        r == archive_entries(*z).len(),
{
    z.len()
}

/// `zip::ZipArchive::by_index` then `ZipFile::name`: the name of entry `i`,
/// as characters. Opening the entry fails exactly when it does not open (an
/// encrypted or unsupported entry, a bad local header); the archive's
/// listing and contents are not changed.
#[verifier::external_body]
fn archive_entry_name(z: &mut ZipArchive<Cursor<Vec<u8>>>, i: usize) -> (r: Result<
    Vec<char>,
    ZipError,
>)
    requires
        i < archive_entries(*old(z)).len(),
    ensures
        archive_entries(*final(z)) == archive_entries(*old(z)),
        r is Ok == archive_entries(*old(z))[i as int].1,
        r matches Ok(n) ==> n@ == archive_entries(*old(z))[i as int].0,
{
    match z.by_index(i) {
        Ok(file) => Ok(file.name().chars().collect()),
        Err(e) => Err(e),
    }
}

/// `zip::ZipArchive::by_index` then `Read::read_to_end`: the uncompressed
/// bytes of entry `i`. It succeeds exactly when the entry opens and its
/// contents read in full (not, say, on a checksum mismatch); the archive's
/// listing and contents are not changed.
#[verifier::external_body]
fn archive_entry_bytes(z: &mut ZipArchive<Cursor<Vec<u8>>>, i: usize) -> (r: Result<
    Vec<u8>,
    ZipError,
>)
    requires
        i < archive_entries(*old(z)).len(),
    ensures
        archive_entries(*final(z)) == archive_entries(*old(z)),
        r is Ok == (archive_entries(*old(z))[i as int].1 && archive_entries(*old(z))[i as int].2 is Some),
        r matches Ok(v) ==> archive_entries(*old(z))[i as int].2 == Some(v@),
{
    let mut file = z.by_index(i)?;
    let mut rom = Vec::new();
    std::io::Read::read_to_end(&mut file, &mut rom)?;
    Ok(rom)
}

/// Whether an entry name denotes a directory (it ends in a slash or a
/// backslash).
pub open spec fn name_is_dir(name: Seq<char>) -> bool {
    name.len() > 0 && (name.last() == '/' || name.last() == '\\')
}

/// Whether a name ends in `.gba`, in any letter case.
pub open spec fn has_gba_suffix(name: Seq<char>) -> bool {
    let n = name.len();
    &&& n >= 4
    &&& name[n - 4] == '.'
    &&& (name[n - 3] == 'g' || name[n - 3] == 'G')
    &&& (name[n - 2] == 'b' || name[n - 2] == 'B')
    &&& (name[n - 1] == 'a' || name[n - 1] == 'A')
}

/// The entry to take a ROM from, given the names of the entries read in
/// order (`None` where an entry could not be opened): the first file whose
/// name ends in `.gba`, else the first file; nothing once an entry fails to
/// open before that choice is made.
pub open spec fn pick_entry(names: Seq<Option<Seq<char>>>, from: nat, fallback: Option<nat>) -> Option<
    nat,
>
    decreases names.len() - from,
{
    if from >= names.len() {
        fallback
    } else {
        match names[from as int] {
            None => None,
            Some(n) => if name_is_dir(n) {
                pick_entry(names, from + 1, fallback)
            } else if has_gba_suffix(n) {
                Some(from)
            } else {
                pick_entry(
                    names,
                    from + 1,
                    if fallback is None {
                        Some(from)
                    } else {
                        fallback
                    },
                )
            },
        }
    }
}

pub fn name_is_dir_exec(name: &Vec<char>) -> (r: bool)
    ensures
        r == name_is_dir(name@),
{
    let n = name.len();
    n > 0 && (name[n - 1] == '/' || name[n - 1] == '\\')
}

pub fn has_gba_suffix_exec(name: &Vec<char>) -> (r: bool)
    ensures
        r == has_gba_suffix(name@),
{
    let n = name.len();
    n >= 4 && name[n - 4] == '.' && (name[n - 3] == 'g' || name[n - 3] == 'G') && (name[n - 2]
        == 'b' || name[n - 2] == 'B') && (name[n - 1] == 'a' || name[n - 1] == 'A')
}

/// Whether entry `i` of `entries` is the one a ROM is taken from: the first
/// file whose name ends in `.gba`, or, when no file's does, the first file.
pub open spec fn rom_entry(entries: Seq<(Seq<char>, bool, Option<Seq<u8>>)>, i: int) -> bool {
    &&& 0 <= i < entries.len()
    &&& !name_is_dir(entries[i].0)
    &&& forall|j: int| 0 <= j < i ==> name_is_dir(entries[j].0) || !has_gba_suffix(entries[j].0)
    &&& !has_gba_suffix(entries[i].0) ==> forall|j: int|
        0 <= j < entries.len() ==> name_is_dir(entries[j].0) || !has_gba_suffix(entries[j].0)
    &&& !has_gba_suffix(entries[i].0) ==> forall|j: int| 0 <= j < i ==> name_is_dir(entries[j].0)
}

/// Whether `names` are what reading the names of `entries` gave: one result
/// per entry, each name read being the entry's name, `None` where the entry
/// could not be opened.
pub open spec fn names_agree(
    names: Seq<Option<Seq<char>>>,
    entries: Seq<(Seq<char>, bool, Option<Seq<u8>>)>,
) -> bool {
    &&& names.len() == entries.len()
    &&& forall|k: int|
        0 <= k < names.len() ==> (#[trigger] names[k] matches Some(n) ==> n == entries[k].0)
}

/// The scan for the ROM entry from index `k`, with `fallback` the first file
/// seen so far: a directory is passed over, the first file named `*.gba` is
/// taken, an entry that could not be opened ends the scan with nothing, and
/// at the end the first file is taken.
pub open spec fn pick_from(names: Seq<Option<Seq<char>>>, k: int, fallback: Option<int>) -> Option<
    int,
>
    decreases names.len() - k,
{
    if k < 0 || k >= names.len() {
        fallback
    } else {
        match names[k] {
            None => None,
            Some(n) => if name_is_dir(n) {
                pick_from(names, k + 1, fallback)
            } else if has_gba_suffix(n) {
                Some(k)
            } else {
                pick_from(
                    names,
                    k + 1,
                    if fallback is None {
                        Some(k)
                    } else {
                        fallback
                    },
                )
            },
        }
    }
}

/// The entry the scan picks from the names read.
pub open spec fn picked_entry(names: Seq<Option<Seq<char>>>) -> Option<int> {
    pick_from(names, 0, None)
}

/// The names as character sequences.
pub open spec fn names_view(names: Seq<Option<Vec<char>>>) -> Seq<Option<Seq<char>>> {
    Seq::new(
        names.len(),
        |k: int|
            match names[k] {
                Some(n) => Some(n@),
                None => None,
            },
    )
}

/// What the scan picks, as an index.
pub open spec fn picked_index(names: Seq<Option<Seq<char>>>) -> Option<usize> {
    match picked_entry(names) {
        Some(i) => Some(i as usize),
        None => None,
    }
}

/// A scan that picks an entry picks the one a ROM is taken from, and finds
/// nothing in an archive of directories only.
proof fn lemma_pick_from(
    names: Seq<Option<Seq<char>>>,
    entries: Seq<(Seq<char>, bool, Option<Seq<u8>>)>,
    k: int,
    fallback: Option<int>,
)
    requires
        names_agree(names, entries),
        0 <= k <= names.len(),
        forall|j: int| 0 <= j < k ==> names[j] is Some,
        forall|j: int| 0 <= j < k ==> name_is_dir(entries[j].0) || !has_gba_suffix(entries[j].0),
        match fallback {
            Some(f) => 0 <= f < k && !name_is_dir(entries[f].0) && forall|j: int|
                0 <= j < f ==> name_is_dir(entries[j].0),
            None => forall|j: int| 0 <= j < k ==> name_is_dir(entries[j].0),
        },
    ensures
        pick_from(names, k, fallback) matches Some(i) ==> rom_entry(entries, i) && 0 <= i
            < names.len() && names[i] is Some,
        (forall|j: int| 0 <= j < entries.len() ==> name_is_dir(entries[j].0)) ==> pick_from(
            names,
            k,
            fallback,
        ) is None,
    decreases names.len() - k,
{
    if k < names.len() {
        assert(names[k] matches Some(n) ==> n == entries[k].0);
        match names[k] {
            None => {},
            Some(n) => {
                if name_is_dir(n) {
                    lemma_pick_from(names, entries, k + 1, fallback);
                } else if has_gba_suffix(n) {
                } else {
                    let fb = if fallback is None {
                        Some(k)
                    } else {
                        fallback
                    };
                    lemma_pick_from(names, entries, k + 1, fb);
                }
            },
        }
    }
}

/// The scan for the ROM entry over the names read from an archive, `None`
/// standing for an entry that could not be opened: the first file named
/// `*.gba`, else the first file; nothing when an entry that could not be
/// opened comes before the choice is made, or when there is no file.
pub fn pick_rom_entry(names: &Vec<Option<Vec<char>>>) -> (r: Option<usize>)
    ensures
        r == picked_index(names_view(names@)),
{
    let ghost nv = names_view(names@);
    let mut fallback: Option<usize> = None;
    let mut i: usize = 0;
    while i < names.len()
        invariant
            nv == names_view(names@),
            i <= names.len(),
            fallback matches Some(f) ==> f < i,
            picked_entry(nv) == pick_from(
                nv,
                i as int,
                match fallback {
                    Some(f) => Some(f as int),
                    None => None,
                },
            ),
        decreases names.len() - i,
    {
        match &names[i] {
            None => {
                return None;
            },
            Some(name) => {
                if name_is_dir_exec(name) {
                    i = i + 1;
                    continue ;
                }
                if fallback.is_none() {
                    fallback = Some(i);
                }
                if has_gba_suffix_exec(name) {
                    return Some(i);
                }
            },
        }
        i = i + 1;
    }
    fallback
}

/// What reading the names of `entries` gives: each name, or `None` for an
/// entry that does not open.
pub open spec fn entry_names(entries: Seq<(Seq<char>, bool, Option<Seq<u8>>)>) -> Seq<
    Option<Seq<char>>,
> {
    Seq::new(
        entries.len(),
        |k: int|
            if entries[k].1 {
                Some(entries[k].0)
            } else {
                None
            },
    )
}

/// What loading the ROM from the archive that `bytes` hold gives: the
/// contents of the picked entry when it reads; `Err(NoGbaEntry)` when no
/// entry is picked; an archive error when the bytes hold no readable archive
/// or the picked entry does not read.
pub open spec fn zip_load_result(bytes: Seq<u8>, r: Result<Vec<u8>, RomError>) -> bool {
    match zip_entries(bytes) {
        None => r matches Err(RomError::Archive(_)),
        Some(es) => match picked_entry(entry_names(es)) {
            None => r matches Err(RomError::NoGbaEntry),
            Some(i) => match es[i].2 {
                Some(v) => r matches Ok(w) && w@ == v,
                None => r matches Err(RomError::Archive(_)),
            },
        },
    }
}

/// Whether `v` is the contents of entry `i` of the archive that `bytes`
/// hold, the entry a ROM is taken from.
pub open spec fn zip_rom_entry(bytes: Seq<u8>, i: int, v: Seq<u8>) -> bool {
    zip_entries(bytes) matches Some(es) && rom_entry(es, i) && es[i].2 == Some(v)
}

/// The entry a ROM is taken from: the first file named `*.gba`, else the
/// first file. The names of the entries are read, then `pick_rom_entry`
/// chooses; an entry that does not open before the choice is made gives
/// `None`, as does an archive of directories only.
pub fn find_gba_entry(zip: &mut ZipArchive<Cursor<Vec<u8>>>) -> (r: Option<usize>)
    ensures
        archive_entries(*final(zip)) == archive_entries(*old(zip)),
        r == picked_index(entry_names(archive_entries(*old(zip)))),
        r matches Some(i) ==> rom_entry(archive_entries(*old(zip)), i as int),
        (forall|j: int|
            0 <= j < archive_entries(*old(zip)).len() ==> name_is_dir(
                archive_entries(*old(zip))[j].0,
            )) ==> r is None,
{
    let ghost entries = archive_entries(*zip);
    let len = archive_len(zip);
    let mut names: Vec<Option<Vec<char>>> = Vec::new();
    let mut i: usize = 0;
    while i < len
        invariant
            len == entries.len(),
            archive_entries(*zip) == entries,
            archive_entries(*old(zip)) == entries,
            i <= len,
            names.len() == i,
            forall|k: int|
                0 <= k < i ==> (#[trigger] names@[k] is Some) == entries[k].1 && (names@[k] matches Some(
                    n,
                ) ==> n@ == entries[k].0),
        decreases len - i,
    {
        let name = match archive_entry_name(zip, i) {
            Ok(n) => Some(n),
            Err(_) => None,
        };
        names.push(name);
        i = i + 1;
    }
    let r = pick_rom_entry(&names);
    proof {
        let nv = names_view(names@);
        assert forall|k: int| 0 <= k < nv.len() implies #[trigger] nv[k] == entry_names(entries)[k] by {
            assert((names@[k] is Some) == entries[k].1);
        }
        assert(nv =~= entry_names(entries));
        lemma_entry_names(entries);
    }
    r
}

/// The names read from `entries` agree with them, and a scan of them picks
/// the entry a ROM is taken from.
proof fn lemma_entry_names(entries: Seq<(Seq<char>, bool, Option<Seq<u8>>)>)
    ensures
        names_agree(entry_names(entries), entries),
        picked_entry(entry_names(entries)) matches Some(i) ==> rom_entry(entries, i) && 0 <= i
            < entries.len() && entries[i].1,
        (forall|j: int| 0 <= j < entries.len() ==> name_is_dir(entries[j].0)) ==> picked_entry(
            entry_names(entries),
        ) is None,
{
    let nv = entry_names(entries);
    assert forall|k: int| 0 <= k < nv.len() implies (#[trigger] nv[k] matches Some(n) ==> n
        == entries[k].0) by {}
    lemma_pick_from(nv, entries, 0, None);
}

/// The ROM inside a zip archive: the contents of the entry `find_gba_entry`
/// picks.
pub fn load_zip(bytes: Vec<u8>) -> (r: Result<Vec<u8>, RomError>)
    ensures
        zip_load_result(bytes@, r),
        r matches Ok(v) ==> exists|i: int| #[trigger] zip_rom_entry(bytes@, i, v@),
{
    let ghost b = bytes@;
    let cursor = cursor_new(bytes);
    let mut zip = match archive_new(cursor) {
        Ok(z) => z,
        Err(e) => {
            return Err(RomError::Archive(e));
        },
    };
    let ghost entries = archive_entries(zip);
    proof {
        lemma_entry_names(entries);
    }
    let index = match find_gba_entry(&mut zip) {
        Some(i) => i,
        None => {
            return Err(RomError::NoGbaEntry);
        },
    };
    proof {
        assert(picked_entry(entry_names(entries)) == Some(index as int));
        assert(zip_entries(b) == Some(entries));
    }
    match archive_entry_bytes(&mut zip, index) {
        Ok(rom) => {
            proof {
                assert(zip_rom_entry(b, index as int, rom@));
            }
            Ok(rom)
        },
        Err(e) => Err(RomError::Archive(e)),
    }
}

/// Whether `bytes` start with the zip local file header signature.
pub open spec fn is_zip(bytes: Seq<u8>) -> bool {
    bytes.len() >= 4 && bytes[0] == 0x50 && bytes[1] == 0x4b && bytes[2] == 0x03 && bytes[3] == 0x04
}

/// A ROM image from the bytes of a ROM file: a zip archive is unpacked,
/// anything else is the image itself.
pub fn load_rom_bytes(bytes: Vec<u8>) -> (r: Result<Vec<u8>, RomError>)
    ensures
        !is_zip(bytes@) ==> (r matches Ok(v) && v@ == bytes@),
        is_zip(bytes@) ==> zip_load_result(bytes@, r),
        is_zip(bytes@) ==> (r matches Ok(v) ==> exists|i: int| #[trigger] zip_rom_entry(bytes@, i, v@)),
{
    if bytes.len() >= 4 && bytes[0] == 0x50 && bytes[1] == 0x4b && bytes[2] == 0x03 && bytes[3]
        == 0x04 {
        return load_zip(bytes);
    }
    Ok(bytes)
}

} // verus!
