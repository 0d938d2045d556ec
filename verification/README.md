# vibe-gba

A small Game Boy Advance emulator whose core is written in Verus: each
component states what it does in `requires`/`ensures` contracts over
mathematical models, and Verus proves the code against them.

The emulator targets Pokemon Emerald: it boots a `.gba` image (or the `.gba`
entry of a zip archive), renders the game, and runs it interactively or
headless with scripted input, screenshots, save states and debug dumps.
Game-specific shortcuts (direct movement, map transitions, title and menu
waits) are kept but off by default; the core dump shows
`gameplay_hle=false legacy_flow_hle=false`.

## Layout

- `src/` — the verified library.
  - `alu.rs`, `cpu.rs`, `cpu_arm.rs`, `cpu_thumb.rs` — the ARM7TDMI core:
    flags and conditions, every ARM and Thumb instruction, interrupts, and
    one machine step (`cpu_step`).
  - `bus.rs` — memory map, I/O registers, timers, DMA and the per-cycle
    bus step (`bus_step`).
  - `ppu.rs` — beam timing and rendering: bitmap modes, text and affine
    backgrounds, objects, windows and blending, per pixel
    (`spec_frame_pixel`).
  - `bios.rs` — the BIOS calls (division, square root, copies,
    decompression, affine setup).
  - `cartridge.rs` — flash save memory and ROM images (zip archives
    through the `zip` crate).
  - `hle.rs` — the optional game routine shortcuts.
  - `gba.rs`, `web.rs` — the machine (one step, `machine_step`; a frame,
    `frame_run`) and its canvas front end.
  - `cli.rs`, `args.rs` — command-line parsing and scripted input.
  - `edu.rs` — learning objectives read from the debug dump.
  - `debug.rs`, `text.rs` — the plain-text state dump.
  - `host.rs` — what the core asks of its embedder: the floating-point
    BIOS routines and diagnostics.
- `tests/` — tests of the library on concrete values.
- `app/` — the `vibe-gba` program: file I/O, the window, PNG screenshots,
  save states (serde and bincode) and the floating-point host.
