//! High-level shortcuts for routines of Pokemon Emerald that the interpreter
//! would otherwise spend long stretches in: the sound mixer, a few title and
//! overworld waits, and direct player movement.

use vstd::prelude::*;
use crate::bus::{Bus, BusView, DMA_NEST_LIMIT, store_frame};
use crate::cpu::{Cpu, CpuView, wadd, bus_ok};
use crate::alu::FLAG_T;

verus! {

pub const G_SPRITES: u32 = 0x0202_0630;
pub const SPRITE_SIZE: u32 = 0x44;
pub const G_OBJECT_EVENTS: u32 = 0x0203_7350;
pub const OBJECT_EVENT_SIZE: u32 = 0x24;
pub const G_PLAYER_AVATAR: u32 = 0x0203_7590;
pub const G_MAIN_CALLBACK2: u32 = 0x0300_22c4;
pub const CB2_OVERWORLD: u32 = 0x0808_5e5d;
pub const DIRECT_MOVE_FRAME_LATCH: u32 = 0x0300_3090;
pub const GSAVEBLOCK1_PTR: u32 = 0x0300_5d8c;
pub const HELD_ACTIVE: u32 = 0x40;
pub const HELD_FINISHED: u32 = 0x80;

/// The keys held down, from the active-low key input register.
pub open spec fn pressed_keys(b: BusView) -> u16 {
    (!b.read16(0x0400_0130)) & 0x03ff
}

/// The facing direction of the first held d-pad key (right, left, up, down
/// in that order of priority): 4 east, 3 west, 2 north, 1 south.
pub open spec fn spec_pressed_direction(pressed: u16) -> Option<u8> {
    if pressed & 0x10 != 0 {
        Some(4u8)
    } else if pressed & 0x20 != 0 {
        Some(3u8)
    } else if pressed & 0x40 != 0 {
        Some(2u8)
    } else if pressed & 0x80 != 0 {
        Some(1u8)
    } else {
        None
    }
}

/// Step of a facing direction on the map grid.
pub open spec fn spec_direction_delta(direction: u8) -> (i16, i16) {
    if direction == 1 {
        (0i16, 1i16)
    } else if direction == 2 {
        (0i16, -1i16)
    } else if direction == 3 {
        (-1i16, 0i16)
    } else if direction == 4 {
        (1i16, 0i16)
    } else {
        (0i16, 0i16)
    }
}

/// Facing direction of a player movement action and whether it walks.
pub open spec fn spec_player_action_direction(action: u8) -> Option<(u8, bool)> {
    if action <= 3 {
        Some(((action + 1) as u8, false))
    } else if action == 0x04 || action == 0x08 || action == 0x15 || action == 0x2d {
        Some((1u8, true))
    } else if action == 0x05 || action == 0x09 || action == 0x16 || action == 0x2e {
        Some((2u8, true))
    } else if action == 0x06 || action == 0x0a || action == 0x17 || action == 0x2f {
        Some((3u8, true))
    } else if action == 0x07 || action == 0x0b || action == 0x18 || action == 0x30 {
        Some((4u8, true))
    } else if action == 0x19 || action == 0x1d || action == 0x21 || action == 0x25 {
        Some((1u8, false))
    } else if action == 0x1a || action == 0x1e || action == 0x22 || action == 0x26 {
        Some((2u8, false))
    } else if action == 0x1b || action == 0x1f || action == 0x23 || action == 0x27 {
        Some((3u8, false))
    } else if action == 0x1c || action == 0x20 || action == 0x24 || action == 0x28 {
        Some((4u8, false))
    } else {
        None
    }
}

/// Whether the player may step onto `(x, y)`: inside the moving truck only
/// the free floor tiles are walkable.
pub open spec fn spec_can_direct_walk(layout: u16, x: i16, y: i16) -> bool {
    if layout == 0x00ed {
        &&& 7 <= x <= 11
        &&& 7 <= y <= 11
        &&& !((x == 7 && y == 7) || (x == 7 && y == 10) || (x == 9 && y == 10))
    } else {
        true
    }
}

pub open spec fn map_layout(b: BusView) -> u16 {
    b.read16(0x0203_732a)
}

/// Whether the game is loading the map after leaving the truck at
/// Littleroot.
pub open spec fn spec_pending_littleroot(b: BusView) -> bool {
    (b.read32(0x0300_22c4) == 0x0808_5fcd || b.read32(0x0300_22c4) == 0x0808_5ffd) && map_layout(b)
        == 0x000a
}

/// Whether the truck exit is taken at `(x, y)`.
pub open spec fn truck_exit_hit(b: BusView, x: i16, y: i16) -> bool {
    &&& map_layout(b) == 0x00ed
    &&& x == 11
    &&& 8 <= y <= 10
    &&& 0x0200_0000 <= b.read32(GSAVEBLOCK1_PTR) < 0x0204_0000
}

/// The bus after a held movement of the player's object was cleared: no
/// action, the held flags off, the sprite's animation counters zero.
pub open spec fn held_cleared(b: BusView, object: u32, sprite: u32, flags: u32) -> BusView {
    let f = DMA_NEST_LIMIT as nat;
    b.write8_raw(wadd(object, 0x1c), 0).write32(object, flags & !(HELD_ACTIVE | HELD_FINISHED), f).write16(
        wadd(sprite, 0x30),
        0,
        f,
    ).write16(wadd(sprite, 0x32), 0, f)
}

/// The bus after OAM entry `addr` moved from `(old_x, old_y)` to
/// `(new_x, new_y)` with its priority cleared, when it was there.
pub open spec fn oam_entry_moved(b: BusView, addr: u32, old_x: i16, old_y: i16, new_x: i16, new_y: i16) -> BusView {
    let f = DMA_NEST_LIMIT as nat;
    let attr0 = b.read16(addr);
    let attr1 = b.read16((addr + 2) as u32);
    if (attr1 & 0x01ff) as i16 == old_x && (attr0 & 0x00ff) as i16 == old_y {
        let attr2 = b.read16((addr + 4) as u32);
        b.write16(addr, (attr0 & !0x00ffu16) | ((new_y as u16) & 0x00ff), f).write16(
            (addr + 2) as u32,
            (attr1 & !0x01ffu16) | ((new_x as u16) & 0x01ff),
            f,
        ).write16((addr + 4) as u32, attr2 & !0x0c00u16, f)
    } else {
        b
    }
}

/// The bus after the first `n` entries of the OAM table at `base` moved.
pub open spec fn oam_table_moved(
    b: BusView,
    base: u32,
    old_x: i16,
    old_y: i16,
    new_x: i16,
    new_y: i16,
    n: nat,
) -> BusView
    decreases n,
{
    if n == 0 {
        b
    } else {
        oam_entry_moved(
            oam_table_moved(b, base, old_x, old_y, new_x, new_y, (n - 1) as nat),
            (base + (n - 1) * 8) as u32,
            old_x,
            old_y,
            new_x,
            new_y,
        )
    }
}

/// The bus after the hardware OAM and its shadow copy moved.
pub open spec fn oam_entries_moved(b: BusView, old_x: i16, old_y: i16, new_x: i16, new_y: i16) -> BusView {
    oam_table_moved(
        oam_table_moved(b, 0x0700_0000, old_x, old_y, new_x, new_y, 128),
        0x0300_22f8,
        old_x,
        old_y,
        new_x,
        new_y,
        128,
    )
}

/// The bus after the player's previous and current position were stored
/// in its object event, and (relative to the map's border) in the save
/// block when its pointer is valid.
pub open spec fn player_position_written(
    b: BusView,
    object: u32,
    old_x: i16,
    old_y: i16,
    new_x: i16,
    new_y: i16,
) -> BusView {
    let f = DMA_NEST_LIMIT as nat;
    let b1 = b.write16(wadd(object, 0x14), old_x as u16, f).write16(
        wadd(object, 0x16),
        old_y as u16,
        f,
    ).write16(wadd(object, 0x10), new_x as u16, f).write16(wadd(object, 0x12), new_y as u16, f);
    let save = b1.read32(GSAVEBLOCK1_PTR);
    if 0x0200_0000 <= save < 0x0204_0000 {
        b1.write16(save, vstd::wrapping::i16_specs::wrapping_sub(new_x, 7) as u16, f).write16(
            (save + 2) as u32,
            vstd::wrapping::i16_specs::wrapping_sub(new_y, 7) as u16,
            f,
        )
    } else {
        b1
    }
}

/// The bus after a warp record was stored at `addr`.
pub open spec fn warp_written(b: BusView, addr: u32, group: u8, num: u8, warp_id: u8, x: i16, y: i16) -> BusView {
    let f = DMA_NEST_LIMIT as nat;
    b.write8_raw(addr, group).write8_raw(wadd(addr, 1), num).write8_raw(wadd(addr, 2), warp_id).write8_raw(
        wadd(addr, 3),
        0,
    ).write16(wadd(addr, 4), x as u16, f).write16(wadd(addr, 6), y as u16, f)
}

/// The bus after the warp to Littleroot was stored in the save block at
/// `save` and the Littleroot map header installed.
pub open spec fn littleroot_warp_written(b: BusView, save: u32) -> BusView {
    let f = DMA_NEST_LIMIT as nat;
    let h: u32 = 0x0203_7318;
    let b1 = b.write16(save, 3, f).write16((save + 2) as u32, 10, f);
    let b2 = warp_written(b1, (save + 4) as u32, 0, 9, 0xff, 3, 10);
    let b3 = warp_written(b2, (save + 0x14) as u32, 0, 9, 0xff, 3, 10);
    b3.write16((save + 0x32) as u32, 0x000a, f).write32(h, 0x083e_a284, f).write32(
        (h + 0x04) as u32,
        0x0852_7840,
        f,
    ).write32((h + 0x08) as u32, 0x081e_7dcb, f).write32((h + 0x0c) as u32, 0x0848_660c, f).write16(
        (h + 0x10) as u32,
        0x0195,
        f,
    ).write16((h + 0x12) as u32, 0x000a, f).write8_raw((h + 0x14) as u32, 0x00).write8_raw(
        (h + 0x15) as u32,
        0x00,
    ).write8_raw((h + 0x16) as u32, 0x02).write8_raw((h + 0x17) as u32, 0x01).write16(
        (h + 0x18) as u32,
        0,
        f,
    ).write8_raw((h + 0x1a) as u32, 0x0d).write8_raw((h + 0x1b) as u32, 0x00)
}

/// The bus after the player left the moving truck at `(x, y)`: the warp
/// written and the map reload started; unchanged when the exit is not hit.
pub open spec fn truck_exit(b: BusView, x: i16, y: i16) -> BusView {
    let f = DMA_NEST_LIMIT as nat;
    if truck_exit_hit(b, x, y) {
        littleroot_warp_written(b, b.read32(GSAVEBLOCK1_PTR)).write32(0x0300_5dac, 0, f).write32(
            0x0300_5db0,
            0,
            f,
        ).write8_raw(0x0300_26f8, 0).write32(0x0300_22c0, 0, f).write32(G_MAIN_CALLBACK2, 0x0808_5fcd, f)
    } else {
        b
    }
}

/// The bus after object event `object` faced `direction` (both facing
/// nibbles).
pub open spec fn object_faced(b: BusView, object: u32, direction: u8) -> BusView {
    b.write16(
        wadd(object, 0x18),
        (b.read16(wadd(object, 0x18)) & 0xff00) | (direction as u16) | (((direction as u16) << 4u16) as u16),
        DMA_NEST_LIMIT as nat,
    )
}

/// The player's sprite and both OAM copies moved by one tile
/// `(dx, dy)` from `b`, with the sprite's priority cleared.
pub open spec fn sprite_stepped(b: BusView, sprite: u32, dx: i16, dy: i16) -> BusView {
    let f = DMA_NEST_LIMIT as nat;
    let old_screen_x = b.read16((sprite + 0x20) as u32) as i16;
    let old_screen_y = b.read16((sprite + 0x22) as u32) as i16;
    let old_attr0 = b.read16(sprite);
    let old_attr1 = b.read16((sprite + 0x02) as u32);
    let step_x = vstd::wrapping::i16_specs::wrapping_mul(dx, 16);
    let step_y = vstd::wrapping::i16_specs::wrapping_mul(dy, 16);
    let old_oam_x = (old_attr1 & 0x01ff) as i16;
    let old_oam_y = (old_attr0 & 0x00ff) as i16;
    let new_oam_x = vstd::wrapping::i16_specs::wrapping_add(old_oam_x, step_x);
    let new_oam_y = vstd::wrapping::i16_specs::wrapping_add(old_oam_y, step_y);
    let attr2 = b.read16((sprite + 0x04) as u32);
    let b1 = b.write16((sprite + 0x04) as u32, attr2 & !0x0c00u16, f).write16(
        sprite,
        (old_attr0 & !0x00ffu16) | ((new_oam_y as u16) & 0x00ff),
        f,
    ).write16((sprite + 0x02) as u32, (old_attr1 & !0x01ffu16) | ((new_oam_x as u16) & 0x01ff), f).write16(
        (sprite + 0x20) as u32,
        vstd::wrapping::i16_specs::wrapping_add(old_screen_x, step_x) as u16,
        f,
    ).write16(
        (sprite + 0x22) as u32,
        vstd::wrapping::i16_specs::wrapping_add(old_screen_y, step_y) as u16,
        f,
    );
    oam_entries_moved(b1, old_oam_x, old_oam_y, new_oam_x, new_oam_y)
}

/// A direct step of the player towards `direction`: whether it was taken,
/// and the bus after it. It needs a valid player object and sprite in
/// normal movement; the held movement is then cleared and the player
/// faces `direction` (even when the target tile is blocked); a step moves
/// the sprite, the OAM copies and the stored position, marks the avatar
/// as walking, and may leave the moving truck.
pub open spec fn direct_move(b: BusView, direction: u8) -> (bool, BusView) {
    let object_id = b.read8(wadd(G_PLAYER_AVATAR, 5)) as u32;
    let sprite_id = b.read8(wadd(G_PLAYER_AVATAR, 4)) as u32;
    if object_id > 15 || sprite_id >= 64 {
        (false, b)
    } else {
        let object = (G_OBJECT_EVENTS + object_id * OBJECT_EVENT_SIZE) as u32;
        let sprite = (G_SPRITES + sprite_id * SPRITE_SIZE) as u32;
        if b.read8((object + 6) as u32) != 0x0b || b.read16((sprite + 0x2e) as u32) as u32 != object_id {
            (false, b)
        } else {
            let flags = b.read32(object);
            let b1 = object_faced(held_cleared(b, object, sprite, flags), object, direction).write8_raw(
                (object + 0x0b) as u32,
                0x33,
            );
            let old_x = b1.read16((object + 0x10) as u32) as i16;
            let old_y = b1.read16((object + 0x12) as u32) as i16;
            let (dx, dy) = spec_direction_delta(direction);
            let new_x = vstd::wrapping::i16_specs::wrapping_add(old_x, dx);
            let new_y = vstd::wrapping::i16_specs::wrapping_add(old_y, dy);
            if !spec_can_direct_walk(map_layout(b1), new_x, new_y) {
                (false, b1)
            } else {
                let b2 = player_position_written(
                    sprite_stepped(b1, sprite, dx, dy),
                    object,
                    old_x,
                    old_y,
                    new_x,
                    new_y,
                ).write8_raw((G_PLAYER_AVATAR + 3) as u32, 2);
                (true, truck_exit(b2, new_x, new_y))
            }
        }
    }
}

/// The held movement shortcut for sprite `sprite`: whether the movement
/// routine can be skipped, and the bus after it. A finished step is
/// cleared; an active one faces (and for a walk, moves) the player, may
/// leave the moving truck, and is marked finished.
pub open spec fn held_move(b: BusView, sprite: u32) -> (bool, BusView) {
    let f = DMA_NEST_LIMIT as nat;
    if b.read32(G_MAIN_CALLBACK2) != CB2_OVERWORLD || !(G_SPRITES <= sprite < G_SPRITES + SPRITE_SIZE
        * 64) {
        (false, b)
    } else {
        let object_id = b.read16((sprite + 0x2e) as u32) as u32;
        if object_id > 15 || object_id != b.read8(wadd(G_PLAYER_AVATAR, 5)) as u32 {
            (false, b)
        } else {
            let object = (G_OBJECT_EVENTS + object_id * OBJECT_EVENT_SIZE) as u32;
            let flags = b.read32(object);
            if b.read8((object + 6) as u32) != 0x0b {
                (false, b)
            } else if flags & HELD_FINISHED != 0 {
                (true, held_cleared(b, object, sprite, flags))
            } else if flags & HELD_ACTIVE == 0 {
                (false, b)
            } else {
                match spec_player_action_direction(b.read8((object + 0x1c) as u32)) {
                    None => (true, b),
                    Some((direction, walks)) => {
                        let b1 = object_faced(b, object, direction).write8_raw(
                            (object + 0x0b) as u32,
                            0x33,
                        );
                        let b2 = if walks {
                            let old_x = b1.read16((object + 0x10) as u32) as i16;
                            let old_y = b1.read16((object + 0x12) as u32) as i16;
                            let (dx, dy) = spec_direction_delta(direction);
                            let new_x = vstd::wrapping::i16_specs::wrapping_add(old_x, dx);
                            let new_y = vstd::wrapping::i16_specs::wrapping_add(old_y, dy);
                            truck_exit(
                                player_position_written(b1, object, old_x, old_y, new_x, new_y),
                                new_x,
                                new_y,
                            )
                        } else {
                            b1
                        };
                        (
                            true,
                            b2.write16((sprite + 0x32) as u32, 2, f).write16(
                                (sprite + 0x34) as u32,
                                0,
                                f,
                            ).write32(object, flags | HELD_FINISHED, f),
                        )
                    },
                }
            }
        }
    }
}

/// The bus after the per-frame direct movement: every sixteenth overworld
/// frame not yet handled, a held d-pad direction steps the player, and a
/// step taken latches the frame.
#[verifier::opaque]
pub open spec fn direct_input(b: BusView) -> BusView {
    if b.read32(G_MAIN_CALLBACK2) != CB2_OVERWORLD || b.frame % 16 != 0 || b.read32(
        DIRECT_MOVE_FRAME_LATCH,
    ) == b.frame as u32 {
        b
    } else {
        match spec_pressed_direction(pressed_keys(b)) {
            None => b,
            Some(direction) => {
                let (moved, b1) = direct_move(b, direction);
                if moved {
                    b1.write32(DIRECT_MOVE_FRAME_LATCH, b.frame as u32, DMA_NEST_LIMIT as nat)
                } else {
                    b1
                }
            },
        }
    }
}

/// The bus after the first `k` colours of the faded palette buffer were
/// copied to the target buffer and to palette RAM.
pub open spec fn palette_copied(b: BusView, k: nat) -> BusView
    decreases k,
{
    if k == 0 {
        b
    } else {
        let p = palette_copied(b, (k - 1) as nat);
        let off = ((k - 1) * 2) as u32;
        let color = p.read16((0x0203_7714 + off) as u32);
        p.write16((0x0203_7b14 + off) as u32, color, DMA_NEST_LIMIT as nat).write16(
            (0x0500_0000 + off) as u32,
            color,
            DMA_NEST_LIMIT as nat,
        )
    }
}

/// The bus after a palette fade ended at once: all 512 colours copied, the
/// fade state cleared and marked inactive.
pub open spec fn fade_finished(b: BusView) -> BusView {
    let p = palette_copied(b, 512).write32(0x0203_7fe4, 0, DMA_NEST_LIMIT as nat);
    p.write8_raw(0x0203_7fdb, p.read8(0x0203_7fdb) & !0x80u8)
}

/// The key-input direction as a facing direction.
pub fn pressed_direction(bus: &Bus) -> (r: Option<u8>)
    requires
        bus.wf(),
    ensures
        r == spec_pressed_direction(pressed_keys(bus@)),
{
    let pressed = (!bus.read16(0x0400_0130)) & 0x03ff;
    if pressed & 0x10 != 0 {
        Some(4)
    } else if pressed & 0x20 != 0 {
        Some(3)
    } else if pressed & 0x40 != 0 {
        Some(2)
    } else if pressed & 0x80 != 0 {
        Some(1)
    } else {
        None
    }
}

pub fn direction_delta(direction: u8) -> (r: (i16, i16))
    ensures
        r == spec_direction_delta(direction),
{
    if direction == 1 {
        (0, 1)
    } else if direction == 2 {
        (0, -1)
    } else if direction == 3 {
        (-1, 0)
    } else if direction == 4 {
        (1, 0)
    } else {
        (0, 0)
    }
}

pub fn player_action_direction(action: u8) -> (r: Option<(u8, bool)>)
    ensures
        r == spec_player_action_direction(action),
{
    if action <= 3 {
        Some((action + 1, false))
    } else if action == 0x04 || action == 0x08 || action == 0x15 || action == 0x2d {
        Some((1, true))
    } else if action == 0x05 || action == 0x09 || action == 0x16 || action == 0x2e {
        Some((2, true))
    } else if action == 0x06 || action == 0x0a || action == 0x17 || action == 0x2f {
        Some((3, true))
    } else if action == 0x07 || action == 0x0b || action == 0x18 || action == 0x30 {
        Some((4, true))
    } else if action == 0x19 || action == 0x1d || action == 0x21 || action == 0x25 {
        Some((1, false))
    } else if action == 0x1a || action == 0x1e || action == 0x22 || action == 0x26 {
        Some((2, false))
    } else if action == 0x1b || action == 0x1f || action == 0x23 || action == 0x27 {
        Some((3, false))
    } else if action == 0x1c || action == 0x20 || action == 0x24 || action == 0x28 {
        Some((4, false))
    } else {
        None
    }
}

pub fn current_map_layout_id(bus: &Bus) -> (r: u16)
    requires
        bus.wf(),
    ensures
        r == map_layout(bus@),
{
    bus.read16(0x0203_732a)
}

pub fn pending_littleroot_transition(bus: &Bus) -> (r: bool)
    requires
        bus.wf(),
    ensures
        r == spec_pending_littleroot(bus@),
{
    let cb = bus.read32(0x0300_22c4);
    (cb == 0x0808_5fcd || cb == 0x0808_5ffd) && current_map_layout_id(bus) == 0x000a
}

pub fn can_direct_walk(bus: &Bus, x: i16, y: i16) -> (r: bool)
    requires
        bus.wf(),
    ensures
        r == spec_can_direct_walk(map_layout(bus@), x, y),
{
    if current_map_layout_id(bus) == 0x00ed {
        if !(7 <= x && x <= 11) || !(7 <= y && y <= 11) {
            return false;
        }
        !((x == 7 && y == 7) || (x == 7 && y == 10) || (x == 9 && y == 10))
    } else {
        true
    }
}

/// Faces object event `object` towards `direction` (both facing nibbles).
pub fn set_object_direction(bus: &mut Bus, object: u32, direction: u8)
    requires
        bus_ok(old(bus)@),
    ensures
        bus_ok(final(bus)@),
        store_frame(old(bus)@, final(bus)@),
        final(bus)@ == old(bus)@.write16(
            wadd(object, 0x18),
            (old(bus)@.read16(wadd(object, 0x18)) & 0xff00) | (direction as u16) | (((
            direction as u16) << 4u16) as u16),
            DMA_NEST_LIMIT as nat,
        ),
{
    let addr = object.wrapping_add(0x18);
    let dirs = bus.read16(addr);
    bus.write16(addr, (dirs & 0xff00) | (direction as u16) | ((direction as u16) << 4u16));
}

/// Ends a held player movement: action, movement flags and the sprite's
/// animation state are cleared.
pub fn clear_held_player_movement(bus: &mut Bus, object: u32, sprite: u32, flags: u32)
    requires
        bus_ok(old(bus)@),
    ensures
        bus_ok(final(bus)@),
        store_frame(old(bus)@, final(bus)@),
        final(bus)@ == held_cleared(old(bus)@, object, sprite, flags),
{
    bus.write8_raw(object.wrapping_add(0x1c), 0);
    bus.write32(object, flags & !(HELD_ACTIVE | HELD_FINISHED));
    bus.write16(sprite.wrapping_add(0x30), 0);
    bus.write16(sprite.wrapping_add(0x32), 0);
}

/// Moves the hardware and shadow OAM entries at `(old_x, old_y)` to
/// `(new_x, new_y)`.
pub fn move_visible_oam_entries(bus: &mut Bus, old_x: i16, old_y: i16, new_x: i16, new_y: i16)
    requires
        bus_ok(old(bus)@),
    ensures
        bus_ok(final(bus)@),
        store_frame(old(bus)@, final(bus)@),
        final(bus)@ == oam_entries_moved(old(bus)@, old_x, old_y, new_x, new_y),
{
    move_oam_table(bus, 0x0700_0000, old_x, old_y, new_x, new_y);
    move_oam_table(bus, 0x0300_22f8, old_x, old_y, new_x, new_y);
}

/// Moves the entries at `(old_x, old_y)` of the 128-entry OAM table at
/// `base` to `(new_x, new_y)`, clearing their priority bits.
fn move_oam_table(bus: &mut Bus, base: u32, old_x: i16, old_y: i16, new_x: i16, new_y: i16)
    requires
        bus_ok(old(bus)@),
        base <= 0x0700_0000,
    ensures
        bus_ok(final(bus)@),
        store_frame(old(bus)@, final(bus)@),
        final(bus)@ == oam_table_moved(old(bus)@, base, old_x, old_y, new_x, new_y, 128),
{
    let ghost b0 = bus@;
    let mut i: u32 = 0;
    while i < 128
        invariant
            i <= 128,
            base <= 0x0700_0000,
            bus_ok(bus@),
            store_frame(b0, bus@),
            bus@ == oam_table_moved(b0, base, old_x, old_y, new_x, new_y, i as nat),
        decreases 128 - i,
    {
        let addr = base + i * 8;
        let attr0 = bus.read16(addr);
        let attr1 = bus.read16(addr + 2);
        let y = (attr0 & 0x00ff) as i16;
        let x = (attr1 & 0x01ff) as i16;
        if x == old_x && y == old_y {
            let attr2 = bus.read16(addr + 4);
            bus.write16(addr, (attr0 & !0x00ffu16) | ((new_y as u16) & 0x00ff));
            bus.write16(addr + 2, (attr1 & !0x01ffu16) | ((new_x as u16) & 0x01ff));
            bus.write16(addr + 4, attr2 & !0x0c00u16);
        }
        i = i + 1;
    }
}

/// Stores the player's previous and current map position, and the current
/// one in the save block when the save block pointer is valid.
pub fn write_player_position(
    bus: &mut Bus,
    object: u32,
    old_x: i16,
    old_y: i16,
    new_x: i16,
    new_y: i16,
)
    requires
        bus_ok(old(bus)@),
    ensures
        bus_ok(final(bus)@),
        store_frame(old(bus)@, final(bus)@),
        final(bus)@ == player_position_written(old(bus)@, object, old_x, old_y, new_x, new_y),
{
    bus.write16(object.wrapping_add(0x14), old_x as u16);
    bus.write16(object.wrapping_add(0x16), old_y as u16);
    bus.write16(object.wrapping_add(0x10), new_x as u16);
    bus.write16(object.wrapping_add(0x12), new_y as u16);
    let save = bus.read32(GSAVEBLOCK1_PTR);
    if 0x0200_0000 <= save && save < 0x0204_0000 {
        bus.write16(save, new_x.wrapping_sub(7) as u16);
        bus.write16(save + 2, new_y.wrapping_sub(7) as u16);
    }
}

/// A warp record: map group and number, warp id and position.
pub fn write_warp_data(bus: &mut Bus, addr: u32, group: u8, num: u8, warp_id: u8, x: i16, y: i16)
    requires
        bus_ok(old(bus)@),
    ensures
        bus_ok(final(bus)@),
        store_frame(old(bus)@, final(bus)@),
        final(bus)@ == warp_written(old(bus)@, addr, group, num, warp_id, x, y),
{
    bus.write8_raw(addr, group);
    bus.write8_raw(addr.wrapping_add(1), num);
    bus.write8_raw(addr.wrapping_add(2), warp_id);
    bus.write8_raw(addr.wrapping_add(3), 0);
    bus.write16(addr.wrapping_add(4), x as u16);
    bus.write16(addr.wrapping_add(6), y as u16);
}

/// Points the save block and the current map header at Littleroot Town.
pub fn write_littleroot_warp_into_map(bus: &mut Bus, save: u32)
    requires
        bus_ok(old(bus)@),
        0x0200_0000 <= save < 0x0204_0000,
    ensures
        bus_ok(final(bus)@),
        store_frame(old(bus)@, final(bus)@),
        final(bus)@ == littleroot_warp_written(old(bus)@, save),
{
    let header: u32 = 0x0203_7318;
    bus.write16(save, 3);
    bus.write16(save + 2, 10);
    write_warp_data(bus, save + 4, 0, 9, 0xff, 3, 10);
    write_warp_data(bus, save + 0x14, 0, 9, 0xff, 3, 10);
    bus.write16(save + 0x32, 0x000a);
    bus.write32(header, 0x083e_a284);
    bus.write32(header + 0x04, 0x0852_7840);
    bus.write32(header + 0x08, 0x081e_7dcb);
    bus.write32(header + 0x0c, 0x0848_660c);
    bus.write16(header + 0x10, 0x0195);
    bus.write16(header + 0x12, 0x000a);
    bus.write8_raw(header + 0x14, 0x00);
    bus.write8_raw(header + 0x15, 0x00);
    bus.write8_raw(header + 0x16, 0x02);
    bus.write8_raw(header + 0x17, 0x01);
    bus.write16(header + 0x18, 0);
    bus.write8_raw(header + 0x1a, 0x0d);
    bus.write8_raw(header + 0x1b, 0x00);
}

/// Leaves the moving truck when the player steps onto its door: the warp to
/// Littleroot is written and the map reload is started. Returns whether it
/// happened.
pub fn maybe_trigger_truck_exit(bus: &mut Bus, x: i16, y: i16) -> (r: bool)
    requires
        bus_ok(old(bus)@),
    ensures
        bus_ok(final(bus)@),
        store_frame(old(bus)@, final(bus)@),
        r == truck_exit_hit(old(bus)@, x, y),
        final(bus)@ == truck_exit(old(bus)@, x, y),
{
    if current_map_layout_id(bus) != 0x00ed || x != 11 || !(8 <= y && y <= 10) {
        return false;
    }
    let save = bus.read32(GSAVEBLOCK1_PTR);
    if !(0x0200_0000 <= save && save < 0x0204_0000) {
        return false;
    }
    write_littleroot_warp_into_map(bus, save);
    bus.write32(0x0300_5dac, 0);
    bus.write32(0x0300_5db0, 0);
    bus.write8_raw(0x0300_26f8, 0);
    bus.write32(0x0300_22c0, 0);
    bus.write32(G_MAIN_CALLBACK2, 0x0808_5fcd);
    true
}

/// Walks the player one tile towards `direction` without running the
/// game's movement code. Returns whether the step was taken.
pub fn move_player_directly(bus: &mut Bus, direction: u8) -> (r: bool)
    requires
        bus_ok(old(bus)@),
    ensures
        bus_ok(final(bus)@),
        store_frame(old(bus)@, final(bus)@),
        (r, final(bus)@) == direct_move(old(bus)@, direction),
{
    let object_id = bus.read8(G_PLAYER_AVATAR + 5) as u32;
    let sprite_id = bus.read8(G_PLAYER_AVATAR + 4) as u32;
    if object_id > 15 || sprite_id >= 64 {
        return false;
    }
    let object = G_OBJECT_EVENTS + object_id * OBJECT_EVENT_SIZE;
    let sprite = G_SPRITES + sprite_id * SPRITE_SIZE;
    if bus.read8(object + 6) != 0x0b || bus.read16(sprite + 0x2e) as u32 != object_id {
        return false;
    }
    let flags = bus.read32(object);
    clear_held_player_movement(bus, object, sprite, flags);
    set_object_direction(bus, object, direction);
    bus.write8_raw(object + 0x0b, 0x33);
    let old_x = bus.read16(object + 0x10) as i16;
    let old_y = bus.read16(object + 0x12) as i16;
    let (dx, dy) = direction_delta(direction);
    let new_x = old_x.wrapping_add(dx);
    let new_y = old_y.wrapping_add(dy);
    if !can_direct_walk(bus, new_x, new_y) {
        return false;
    }
    let old_screen_x = bus.read16(sprite + 0x20) as i16;
    let old_screen_y = bus.read16(sprite + 0x22) as i16;
    let old_attr0 = bus.read16(sprite);
    let old_attr1 = bus.read16(sprite + 0x02);
    let new_screen_x = old_screen_x.wrapping_add(dx.wrapping_mul(16));
    let new_screen_y = old_screen_y.wrapping_add(dy.wrapping_mul(16));
    let old_oam_x = (old_attr1 & 0x01ff) as i16;
    let old_oam_y = (old_attr0 & 0x00ff) as i16;
    let new_oam_x = old_oam_x.wrapping_add(dx.wrapping_mul(16));
    let new_oam_y = old_oam_y.wrapping_add(dy.wrapping_mul(16));
    let attr2 = bus.read16(sprite + 0x04);
    bus.write16(sprite + 0x04, attr2 & !0x0c00u16);
    bus.write16(sprite, (old_attr0 & !0x00ffu16) | ((new_oam_y as u16) & 0x00ff));
    bus.write16(sprite + 0x02, (old_attr1 & !0x01ffu16) | ((new_oam_x as u16) & 0x01ff));
    bus.write16(sprite + 0x20, new_screen_x as u16);
    bus.write16(sprite + 0x22, new_screen_y as u16);
    move_visible_oam_entries(bus, old_oam_x, old_oam_y, new_oam_x, new_oam_y);
    write_player_position(bus, object, old_x, old_y, new_x, new_y);
    bus.write8_raw(G_PLAYER_AVATAR + 3, 2);
    maybe_trigger_truck_exit(bus, new_x, new_y);
    true
}

/// Whether `pc` lies in the sound mixer (ROM copy or IWRAM copy).
pub open spec fn in_sound_mixer(pc: u32) -> bool {
    (0x082d_f050 <= pc < 0x082d_f130) || (0x0300_1a00 <= pc < 0x0300_2200)
}

/// Thumb addresses where a map-transition or movement shortcut may apply.
pub open spec fn game_routine_site(cp: u32) -> bool {
    (0x0800_7640 <= cp <= 0x0800_767c) || (0x0800_69c0 <= cp <= 0x0800_6a4c) || cp == 0x0808_a998
        || cp == 0x0808_fd8c
}

/// Thumb states where a title-screen, menu or fade shortcut may apply.
pub open spec fn title_menu_site(b: BusView, cp: u32) -> bool {
    cp == 0x0814_5cac || cp == 0x0819_7224 || cp == 0x080e_4f58 || cp == 0x0803_1580 || cp
        == 0x0802_f27c || (0x080a_1a18 <= cp <= 0x080a_1a1c) || cp == 0x0816_cc00 || (b.read32(
        0x0300_7e18,
    ) == 0x0800_0535 && b.read32(0x0300_7e20) == 0x0800_04d5)
}

/// States where a sound-engine shortcut may apply: known routine addresses,
/// or code at `pc` that starts like one of the known routines.
pub open spec fn sound_engine_site(b: BusView, pc: u32, cp: u32) -> bool {
    cp == 0x082d_ed84 || cp == 0x082d_ee82 || cp == 0x082d_ee96 || cp == 0x082d_eee2 || b.read32(pc)
        == 0x1c04_b5f0 || b.read32(pc) == 0x2b00_7943 || b.read32(pc) == 0x4a09_b500 || b.read32(pc)
        == 0xbcff_b007 || b.read32(pc) == 0xe1a0_4008
}

/// Every state in which some game routine shortcut may take the step (a
/// superset of those where one does).
pub open spec fn shortcut_site(c: CpuView, b: BusView) -> bool {
    let cp = current_pc(c);
    ||| c.irq_frame is Some && in_sound_mixer(cp)
    ||| c.cpsr & FLAG_T != 0 && (game_routine_site(cp) || title_menu_site(b, cp))
    ||| sound_engine_site(b, c.r[15] & !3u32, cp)
}

/// Whether the once-every-16-frames direct movement of the player leaves
/// the bus alone: outside the overworld, or between those frames.
pub open spec fn direct_input_idle(b: BusView) -> bool {
    b.read32(G_MAIN_CALLBACK2) != CB2_OVERWORLD || b.frame % 16 != 0
}

/// Whether `addr` is a return address into ROM or IWRAM code.
pub open spec fn code_address(addr: u32) -> bool {
    (0x0800_0000 <= addr < 0x0e00_0000) || (0x0300_0000 <= addr < 0x0300_8000)
}

/// The address of the instruction about to execute.
pub open spec fn current_pc(c: CpuView) -> u32 {
    if c.cpsr & FLAG_T != 0 {
        c.r[15] & !1u32
    } else {
        c.r[15] & !3u32
    }
}

/// Return from a Thumb routine that pushed `pushed_words` words with LR
/// last: the stack is popped and execution continues at the saved LR.
pub open spec fn spec_return_from_stack(c: CpuView, b: BusView, pushed_words: u32) -> Option<
    CpuView,
> {
    if pushed_words == 0 {
        None
    } else {
        let saved_lr = b.read32(wadd(c.r[13], ((pushed_words - 1) * 4) as u32));
        if !code_address(saved_lr) {
            None
        } else {
            Some(c.with_reg(13, wadd(c.r[13], (pushed_words * 4) as u32)).branch(saved_lr))
        }
    }
}

/// A game routine shortcut at Thumb address `cp`: leaving the map
/// transition to Littleroot through the callers' saved return addresses,
/// finishing a held movement step, or skipping the overworld routines
/// outside the overworld. The core and bus after it, or `None` when none
/// applies.
#[verifier::opaque]
pub open spec fn game_routine_step(
    c: CpuView,
    b: BusView,
    thumb: bool,
    cp: u32,
    lr: u32,
    valid_return: bool,
) -> Option<(CpuView, BusView)> {
    let pending = thumb && spec_pending_littleroot(b);
    if pending && 0x0800_7640 <= cp <= 0x0800_767c && spec_return_from_stack(c, b, 3) is Some {
        Some((spec_return_from_stack(c, b, 3)->0, b))
    } else if pending && 0x0800_69c0 <= cp < 0x0800_6a0c && spec_return_from_stack(c, b, 5) is Some {
        Some((spec_return_from_stack(c, b, 5)->0, b))
    } else if pending && 0x0800_6a0c <= cp <= 0x0800_6a4c && spec_return_from_stack(c, b, 3) is Some {
        Some((spec_return_from_stack(c, b, 3)->0, b))
    } else if thumb && valid_return && (cp == 0x0808_a998 || cp == 0x0808_fd8c) && held_move(
        b,
        c.r[0],
    ).0 {
        Some((c.branch(lr), held_move(b, c.r[0]).1))
    } else if thumb && valid_return && (cp == 0x0800_69c0 || cp == 0x0800_6a0c) && b.read32(
        G_MAIN_CALLBACK2,
    ) != CB2_OVERWORLD {
        Some((c.branch(lr), b))
    } else {
        None
    }
}

/// A title-screen, menu or fade shortcut at Thumb address `cp`. The core
/// and bus after it, or `None` when none applies.
#[verifier::opaque]
pub open spec fn title_menu_step(
    c: CpuView,
    b: BusView,
    thumb: bool,
    cp: u32,
    lr: u32,
    valid_return: bool,
) -> Option<(CpuView, BusView)> {
    let f = DMA_NEST_LIMIT as nat;
    let keys = pressed_keys(b) != 0;
    let cb = b.read32(G_MAIN_CALLBACK2);
    if thumb && valid_return && (cp == 0x0814_5cac || cp == 0x0819_7224) {
        Some((c.with_reg(0, 0).branch(lr), b))
    } else if thumb && valid_return && cp == 0x080e_4f58 && keys {
        Some((c.branch(lr), b.write32(G_MAIN_CALLBACK2, 0x0803_1679, f)))
    } else if thumb && valid_return && cp == 0x0803_1580 {
        let task_id = c.r[0] & 0xff;
        Some((c.branch(lr), b.write32((0x0300_5e00 + task_id * 40) as u32, 0x0803_15bd, f)))
    } else if thumb && valid_return && cp == 0x0802_f27c {
        Some((c.with_reg(0, 0).branch(lr), b))
    } else if thumb && valid_return && 0x080a_1a18 <= cp <= 0x080a_1a1c {
        Some((c.with_reg(0, 0).branch(lr), fade_finished(b)))
    } else if thumb && cp == 0x0816_cc00 && keys {
        Some((c.branch(lr), b.write32(G_MAIN_CALLBACK2, 0x0816_cc55, f).write8_raw(0x0300_26f8, 0)))
    } else if thumb && keys && b.read32(0x0300_7e18) == 0x0800_0535 && b.read32(0x0300_7e20)
        == 0x0800_04d5 && (cb == 0x0816_cc01 || cb == 0x080a_ab2d) {
        let next: u32 = if cb == 0x0816_cc01 {
            0x0816_cc55
        } else {
            0x0802_f6dd
        };
        Some(
            (
                c.with_reg(13, 0x0300_7e1c).branch(0x0800_0535),
                b.write32(G_MAIN_CALLBACK2, next, f).write8_raw(0x0300_26f8, 0),
            ),
        )
    } else {
        None
    }
}

/// Whether the words at `pc` on start with `w0, w1, w2`.
pub open spec fn code_starts(b: BusView, pc: u32, w0: u32, w1: u32, w2: u32) -> bool {
    b.read32(pc) == w0 && b.read32(wadd(pc, 4)) == w1 && b.read32(wadd(pc, 8)) == w2
}

/// A music-player or sound-engine shortcut, at known addresses or at code
/// that starts like a known routine. The core and bus after it, or `None`
/// when none applies.
#[verifier::opaque]
pub open spec fn sound_engine_step(
    c: CpuView,
    b: BusView,
    thumb: bool,
    cp: u32,
    pc: u32,
    lr: u32,
    valid_return: bool,
) -> Option<(CpuView, BusView)> {
    let f = DMA_NEST_LIMIT as nat;
    if thumb && valid_return && (cp == 0x082d_ed84 || cp == 0x082d_ee82 || cp == 0x082d_ee96 || cp
        == 0x082d_eee2) {
        let mb = c.r[0];
        let b1 = if 0x0200_0000 <= mb < 0x0400_0000 {
            b.write8_raw((mb + 2) as u32, 0).write32((mb + 0x28) as u32, 0, f)
        } else {
            b
        };
        Some((c.with_reg(0, 0).branch(lr), b1))
    } else if thumb && valid_return && code_starts(b, pc, 0x1c04_b5f0, 0x1c16_1c0d, 0x7840_4804) {
        Some((c.with_reg(0, 0).branch(lr), b))
    } else if !thumb && code_starts(b, pc, 0x2b00_7943, 0xa101_d02c, 0x0000_4708) && b.read32(
        wadd(pc, 12),
    ) == 0xe354_0002 {
        Some((c.with_reg(15, wadd(pc, 12)), b))
    } else if thumb && code_starts(b, pc, 0x4a09_b500, 0x4809_8b91, 0x8b91_4008) {
        Some((c.with_reg(0, 0).branch(lr), b))
    } else if 0x0800_0000 <= lr < 0x0e00_0000 && code_starts(b, pc, 0xbcff_b007, 0x4689_4680, 0x469b_4692)
        && b.read32(wadd(pc, 12)) == 0x4718_bc08 {
        let b1 = b.write16(0x0300_22dc, b.read16(0x0300_22dc) | 1, f).write8_raw(0x0300_3171, 5);
        Some((c.with_reg(0, 0).with_reg(13, wadd(c.r[13], 0x14)).branch(lr), b1))
    } else if valid_return && c.r[8] > 0x1000 && code_starts(b, pc, 0xe1a0_4008, 0xe195_00d6, 0xe1d5_10d0)
        && b.read32(wadd(pc, 12)) == 0xe080_0001 {
        Some((c.with_reg(0, 0).branch(lr), b))
    } else {
        None
    }
}

/// One pass of the game routine shortcuts: whether one took the step, and
/// the core and bus after it. With the gameplay shortcuts on, the
/// per-frame direct movement runs first; then the sound mixer's interrupt
/// work is cut short (acknowledging every interrupt), or one of the game
/// routine (gameplay shortcuts on), title and menu (flow shortcuts on), or
/// sound engine shortcuts applies, in that order.
pub open spec fn shortcut_step(c: CpuView, b: BusView) -> (bool, CpuView, BusView) {
    let thumb = c.cpsr & FLAG_T != 0;
    let cp = current_pc(c);
    let pc = c.r[15] & !3u32;
    let lr = c.r[14];
    let vr = code_address(lr);
    let b1 = if c.gameplay_hle {
        direct_input(b)
    } else {
        b
    };
    let game = if c.gameplay_hle {
        game_routine_step(c, b1, thumb, cp, lr, vr)
    } else {
        None
    };
    let flow = if c.legacy_flow_hle {
        title_menu_step(c, b1, thumb, cp, lr, vr)
    } else {
        None
    };
    if c.irq_frame is Some && in_sound_mixer(cp) {
        (true, c.leave_irq(), BusView { io: crate::bus::io_put16(b1.io, 0x202, b1.io16(0x202) & !0xffffu16), ..b1 })
    } else {
        match game {
            Some((c2, b2)) => (true, c2, b2),
            None => match flow {
                Some((c2, b2)) => (true, c2, b2),
                None => match sound_engine_step(c, b1, thumb, cp, pc, lr, vr) {
                    Some((c2, b2)) => (true, c2, b2),
                    None => (false, c, b1),
                },
            },
        }
    }
}

impl Cpu {
    /// Returns from a Thumb routine through the LR it saved on the stack.
    pub fn thumb_return_from_stack(&mut self, bus: &Bus, pushed_words: u32) -> (r: bool)
        requires
            old(self)@.wf(),
            bus.wf(),
            pushed_words <= 16,
        ensures
            final(self)@.wf(),
            r == spec_return_from_stack(old(self)@, bus@, pushed_words) is Some,
            r ==> Some(final(self)@) == spec_return_from_stack(old(self)@, bus@, pushed_words),
            !r ==> final(self)@ == old(self)@,
    {
        if pushed_words == 0 {
            return false;
        }
        let off = (pushed_words - 1) * 4;
        let saved_lr = bus.read32(self.r[13].wrapping_add(off));
        if !(0x0800_0000 <= saved_lr && saved_lr < 0x0e00_0000) && !(0x0300_0000 <= saved_lr
            && saved_lr < 0x0300_8000) {
            return false;
        }
        self.r[13] = self.r[13].wrapping_add(pushed_words * 4);
        self.branch_to(saved_lr);
        true
    }

    /// With the gameplay shortcuts on, every sixteenth overworld frame,
    /// steps the player towards the held d-pad direction.
    pub fn try_direct_player_input_per_frame(&self, bus: &mut Bus)
        requires
            bus_ok(old(bus)@),
        ensures
            bus_ok(final(bus)@),
            store_frame(old(bus)@, final(bus)@),
            !self.gameplay_hle || old(bus)@.read32(G_MAIN_CALLBACK2) != CB2_OVERWORLD || old(
                bus,
            )@.frame % 16 != 0 ==> final(bus)@ == old(bus)@,
            final(bus)@ == if self.gameplay_hle {
                direct_input(old(bus)@)
            } else {
                old(bus)@
            },
    {
        reveal(direct_input);
        if !self.gameplay_hle {
            return ;
        }
        if bus.read32(G_MAIN_CALLBACK2) != CB2_OVERWORLD {
            return ;
        }
        let frame = bus.frame_count();
        if frame % 16 != 0 || bus.read32(DIRECT_MOVE_FRAME_LATCH) == frame as u32 {
            return ;
        }
        let direction = match pressed_direction(bus) {
            Some(d) => d,
            None => {
                return ;
            },
        };
        if move_player_directly(bus, direction) {
            bus.write32(DIRECT_MOVE_FRAME_LATCH, frame as u32);
        }
    }

    /// Finishes the player's held movement step at once. Returns whether the
    /// movement routine can be skipped.
    pub fn try_player_movement_hle(&self, bus: &mut Bus) -> (r: bool)
        requires
            bus_ok(old(bus)@),
        ensures
            bus_ok(final(bus)@),
            store_frame(old(bus)@, final(bus)@),
            old(bus)@.read32(G_MAIN_CALLBACK2) != CB2_OVERWORLD || !(G_SPRITES <= self@.r[0]
                < G_SPRITES + SPRITE_SIZE * 64) ==> !r && final(bus)@ == old(bus)@,
            (r, final(bus)@) == held_move(old(bus)@, self@.r[0]),
    {
        if bus.read32(G_MAIN_CALLBACK2) != CB2_OVERWORLD {
            return false;
        }
        let sprite = self.r[0];
        if !(G_SPRITES <= sprite && sprite < G_SPRITES + SPRITE_SIZE * 64) {
            return false;
        }
        let object_id = bus.read16(sprite + 0x2e) as u32;
        if object_id > 15 || object_id != bus.read8(G_PLAYER_AVATAR + 5) as u32 {
            return false;
        }
        let object = G_OBJECT_EVENTS + object_id * OBJECT_EVENT_SIZE;
        if bus.read8(object + 6) != 0x0b {
            return false;
        }
        let flags = bus.read32(object);
        if flags & HELD_FINISHED != 0 {
            clear_held_player_movement(bus, object, sprite, flags);
            return true;
        }
        if flags & HELD_ACTIVE == 0 {
            return false;
        }
        let action = bus.read8(object + 0x1c);
        let (direction, walks) = match player_action_direction(action) {
            Some(p) => p,
            None => {
                return true;
            },
        };
        set_object_direction(bus, object, direction);
        bus.write8_raw(object + 0x0b, 0x33);
        if walks {
            let old_x = bus.read16(object + 0x10) as i16;
            let old_y = bus.read16(object + 0x12) as i16;
            let (dx, dy) = direction_delta(direction);
            let new_x = old_x.wrapping_add(dx);
            let new_y = old_y.wrapping_add(dy);
            write_player_position(bus, object, old_x, old_y, new_x, new_y);
            maybe_trigger_truck_exit(bus, new_x, new_y);
        }
        bus.write16(sprite + 0x32, 2);
        bus.write16(sprite + 0x34, 0);
        bus.write32(object, flags | HELD_FINISHED);
        true
    }

    /// Skips or short-cuts the interpreter at known routines of the game:
    /// returns from the sound mixer's interrupt work, waits that only poll
    /// for keys, and routines whose result is fixed. Returns whether it
    /// handled this step.
    pub fn try_sound_mixer_hle(&mut self, bus: &mut Bus) -> (r: bool)
        requires
            old(self)@.wf(),
            bus_ok(old(bus)@),
        ensures
            final(self)@.wf(),
            bus_ok(final(bus)@),
            store_frame(old(bus)@, final(bus)@),
            !r ==> final(self)@ == old(self)@,
            old(self)@.irq_frame is Some && in_sound_mixer(current_pc(old(self)@)) ==> r
                && final(self)@ == old(self)@.leave_irq() && final(bus)@.io16(0x202) == 0,
            direct_input_idle(old(bus)@) && !shortcut_site(old(self)@, old(bus)@) ==> !r
                && final(bus)@ == old(bus)@,
            (r, final(self)@, final(bus)@) == shortcut_step(old(self)@, old(bus)@),
    {
        let thumb = self.cpsr & FLAG_T != 0;
        let cp = if thumb {
            self.r[15] & !1u32
        } else {
            self.r[15] & !3u32
        };
        let pc = self.r[15] & !3u32;
        let lr = self.r[14];
        let valid_return = (0x0800_0000 <= lr && lr < 0x0e00_0000) || (0x0300_0000 <= lr && lr
            < 0x0300_8000);
        self.try_direct_player_input_per_frame(bus);
        if self.irq_frame.is_some() && ((0x082d_f050 <= cp && cp < 0x082d_f130) || (0x0300_1a00
            <= cp && cp < 0x0300_2200)) {
            let ghost b1 = bus@;
            bus.clear_if(0xffff);
            proof {
                crate::bus::lemma_io_put16_read(b1.io, 0x202, b1.io16(0x202) & !0xffffu16);
                let x = b1.io16(0x202);
                assert(x & !0xffffu16 == 0) by (bit_vector);
            }
            self.leave_irq_hle();
            return true;
        }
        if self.gameplay_hle && self.game_routine_shortcuts(bus, thumb, cp, pc, lr, valid_return) {
            return true;
        }
        if self.legacy_flow_hle && self.title_and_menu_shortcuts(bus, thumb, cp, pc, lr, valid_return) {
            return true;
        }
        self.sound_engine_shortcuts(bus, thumb, cp, pc, lr, valid_return)
    }

    /// Map-transition, movement and field routine shortcuts.
    fn game_routine_shortcuts(&mut self, bus: &mut Bus, thumb: bool, cp: u32, pc: u32, lr: u32, valid_return: bool) -> (r: bool)
        requires
            old(self)@.wf(),
            bus_ok(old(bus)@),
            thumb == (old(self)@.cpsr & FLAG_T != 0),
            lr == old(self)@.r[14],
        ensures
            final(self)@.wf(),
            bus_ok(final(bus)@),
            store_frame(old(bus)@, final(bus)@),
            !r ==> final(self)@ == old(self)@,
            !(thumb && game_routine_site(cp)) ==> !r && final(bus)@ == old(bus)@,
            match game_routine_step(old(self)@, old(bus)@, thumb, cp, lr, valid_return) {
                Some((c, b)) => r && final(self)@ == c && final(bus)@ == b,
                None => !r && final(bus)@ == old(bus)@,
            },
    {
        reveal(game_routine_step);
        if thumb && pending_littleroot_transition(bus) {
            if 0x0800_7640 <= cp && cp <= 0x0800_767c && self.thumb_return_from_stack(bus, 3) {
                return true;
            }
            if 0x0800_69c0 <= cp && cp < 0x0800_6a0c && self.thumb_return_from_stack(bus, 5) {
                return true;
            }
            if 0x0800_6a0c <= cp && cp <= 0x0800_6a4c && self.thumb_return_from_stack(bus, 3) {
                return true;
            }
        }
        if thumb && valid_return && (cp == 0x0808_a998 || cp == 0x0808_fd8c)
            && self.try_player_movement_hle(bus) {
            self.branch_to(lr);
            return true;
        }
        if thumb && valid_return && (cp == 0x0800_69c0 || cp == 0x0800_6a0c) && bus.read32(
            G_MAIN_CALLBACK2,
        ) != CB2_OVERWORLD {
            self.branch_to(lr);
            return true;
        }
        false
    }

    /// Shortcuts of title-screen, menu and palette-fade waits.
    fn title_and_menu_shortcuts(&mut self, bus: &mut Bus, thumb: bool, cp: u32, pc: u32, lr: u32, valid_return: bool) -> (r: bool)
        requires
            old(self)@.wf(),
            bus_ok(old(bus)@),
            thumb == (old(self)@.cpsr & FLAG_T != 0),
            lr == old(self)@.r[14],
        ensures
            final(self)@.wf(),
            bus_ok(final(bus)@),
            store_frame(old(bus)@, final(bus)@),
            !r ==> final(self)@ == old(self)@,
            !(thumb && title_menu_site(old(bus)@, cp)) ==> !r && final(bus)@ == old(bus)@,
            match title_menu_step(old(self)@, old(bus)@, thumb, cp, lr, valid_return) {
                Some((c, b)) => r && final(self)@ == c && final(bus)@ == b,
                None => !r && final(bus)@ == old(bus)@,
            },
    {
        reveal(title_menu_step);
        if thumb && valid_return && (cp == 0x0814_5cac || cp == 0x0819_7224) {
            self.r[0] = 0;
            self.branch_to(lr);
            return true;
        }
        if thumb && valid_return && cp == 0x080e_4f58 && ((!bus.read16(0x0400_0130)) & 0x03ff)
            != 0 {
            bus.write32(G_MAIN_CALLBACK2, 0x0803_1679);
            self.branch_to(lr);
            return true;
        }
        if thumb && valid_return && cp == 0x0803_1580 {
            let task_id = self.r[0] & 0xff;
            proof {
                crate::bits::lemma_u32_and_le(self.r[0], 0xff);
            }
            bus.write32(0x0300_5e00 + task_id * 40, 0x0803_15bd);
            self.branch_to(lr);
            return true;
        }
        if thumb && valid_return && cp == 0x0802_f27c {
            self.r[0] = 0;
            self.branch_to(lr);
            return true;
        }
        if thumb && valid_return && 0x080a_1a18 <= cp && cp <= 0x080a_1a1c {
            self.copy_faded_palette(bus);
            self.r[0] = 0;
            self.branch_to(lr);
            return true;
        }
        if thumb && cp == 0x0816_cc00 && ((!bus.read16(0x0400_0130)) & 0x03ff) != 0 {
            bus.write32(G_MAIN_CALLBACK2, 0x0816_cc55);
            bus.write8_raw(0x0300_26f8, 0);
            self.branch_to(lr);
            return true;
        }
        if thumb && ((!bus.read16(0x0400_0130)) & 0x03ff) != 0 && bus.read32(0x0300_7e18)
            == 0x0800_0535 && bus.read32(0x0300_7e20) == 0x0800_04d5 {
            let cb = bus.read32(G_MAIN_CALLBACK2);
            if cb == 0x0816_cc01 || cb == 0x080a_ab2d {
                let next: u32 = if cb == 0x0816_cc01 {
                    0x0816_cc55
                } else {
                    0x0802_f6dd
                };
                bus.write32(G_MAIN_CALLBACK2, next);
                bus.write8_raw(0x0300_26f8, 0);
                self.r[13] = 0x0300_7e1c;
                self.branch_to(0x0800_0535);
                return true;
            }
        }
        false
    }

    /// Shortcuts of music-player and sound-engine routines.
    fn sound_engine_shortcuts(&mut self, bus: &mut Bus, thumb: bool, cp: u32, pc: u32, lr: u32, valid_return: bool) -> (r: bool)
        requires
            old(self)@.wf(),
            bus_ok(old(bus)@),
            thumb == (old(self)@.cpsr & FLAG_T != 0),
            lr == old(self)@.r[14],
        ensures
            final(self)@.wf(),
            bus_ok(final(bus)@),
            store_frame(old(bus)@, final(bus)@),
            !r ==> final(self)@ == old(self)@,
            !sound_engine_site(old(bus)@, pc, cp) ==> !r && final(bus)@ == old(bus)@,
            match sound_engine_step(old(self)@, old(bus)@, thumb, cp, pc, lr, valid_return) {
                Some((c, b)) => r && final(self)@ == c && final(bus)@ == b,
                None => !r && final(bus)@ == old(bus)@,
            },
    {
        reveal(sound_engine_step);
        if thumb && valid_return && (cp == 0x082d_ed84 || cp == 0x082d_ee82 || cp == 0x082d_ee96
            || cp == 0x082d_eee2) {
            let mb = self.r[0];
            if 0x0200_0000 <= mb && mb < 0x0400_0000 {
                bus.write8_raw(mb + 2, 0);
                bus.write32(mb + 0x28, 0);
            }
            self.r[0] = 0;
            self.branch_to(lr);
            return true;
        }
        if thumb && valid_return && bus.read32(pc) == 0x1c04_b5f0 && bus.read32(pc.wrapping_add(4))
            == 0x1c16_1c0d && bus.read32(pc.wrapping_add(8)) == 0x7840_4804 {
            self.r[0] = 0;
            self.branch_to(lr);
            return true;
        }
        if !thumb && bus.read32(pc) == 0x2b00_7943 && bus.read32(pc.wrapping_add(4)) == 0xa101_d02c
            && bus.read32(pc.wrapping_add(8)) == 0x0000_4708 && bus.read32(pc.wrapping_add(12))
            == 0xe354_0002 {
            self.r[15] = pc.wrapping_add(12);
            return true;
        }
        if thumb && bus.read32(pc) == 0x4a09_b500 && bus.read32(pc.wrapping_add(4)) == 0x4809_8b91
            && bus.read32(pc.wrapping_add(8)) == 0x8b91_4008 {
            self.r[0] = 0;
            self.branch_to(lr);
            return true;
        }
        if 0x0800_0000 <= lr && lr < 0x0e00_0000 && bus.read32(pc) == 0xbcff_b007 && bus.read32(
            pc.wrapping_add(4),
        ) == 0x4689_4680 && bus.read32(pc.wrapping_add(8)) == 0x469b_4692 && bus.read32(
            pc.wrapping_add(12),
        ) == 0x4718_bc08 {
            self.r[0] = 0;
            let ready = bus.read16(0x0300_22dc) | 1;
            bus.write16(0x0300_22dc, ready);
            bus.write8_raw(0x0300_3171, 5);
            self.r[13] = self.r[13].wrapping_add(0x14);
            self.branch_to(lr);
            return true;
        }
        if valid_return && self.r[8] > 0x1000 && bus.read32(pc) == 0xe1a0_4008 && bus.read32(
            pc.wrapping_add(4),
        ) == 0xe195_00d6 && bus.read32(pc.wrapping_add(8)) == 0xe1d5_10d0 && bus.read32(
            pc.wrapping_add(12),
        ) == 0xe080_0001 {
            self.r[0] = 0;
            self.branch_to(lr);
            return true;
        }
        false
    }

    /// Ends a palette fade at once: the faded palette buffer becomes the
    /// target palette and palette RAM, and the fade is marked inactive.
    fn copy_faded_palette(&self, bus: &mut Bus)
        requires
            bus_ok(old(bus)@),
        ensures
            bus_ok(final(bus)@),
            store_frame(old(bus)@, final(bus)@),
            final(bus)@ == fade_finished(old(bus)@),
    {
        let ghost b0 = bus@;
        let mut off: u32 = 0;
        while off < 0x400
            invariant
                off <= 0x400,
                off % 2 == 0,
                bus_ok(bus@),
                store_frame(b0, bus@),
                bus@ == palette_copied(b0, (off / 2) as nat),
            decreases 0x400 - off,
        {
            let color = bus.read16(0x0203_7714 + off);
            bus.write16(0x0203_7b14 + off, color);
            bus.write16(0x0500_0000 + off, color);
            off = off + 2;
        }
        bus.write32(0x0203_7fe4, 0);
        let active = bus.read8(0x0203_7fdb) & !0x80u8;
        bus.write8_raw(0x0203_7fdb, active);
    }
}

} // verus!
