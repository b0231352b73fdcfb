use vstd::prelude::*;

use crate::mem::{le32_at, le32_bytes, spec_write_bytes, MemoryImage};

verus! {

/// The signed value whose 32 low bits are `v` (`0 <= v < 2^32`).
pub open spec fn as_signed32(v: int) -> int {
    if v < 0x8000_0000 {
        v
    } else {
        v - 0x1_0000_0000
    }
}

/// The 32-bit two's-complement pattern of `v` (`-2^31 <= v < 2^31`).
pub open spec fn signed32_bits(v: int) -> int {
    if v >= 0 {
        v
    } else {
        v + 0x1_0000_0000
    }
}

/// Read the 32-bit field at byte offset `off` of the record at `addr`.
pub open spec fn field_u32(mem: &MemoryImage, addr: int, off: int) -> int {
    le32_at(mem.contents(), addr + off - mem.base_addr())
}

/// In-battle context record: a typed view of the foreign structure the
/// battle code keeps at a fixed address. Pointer-typed fields are carried
/// as plain 32-bit addresses; field offsets are those of the foreign
/// layout, fixed by the `read_from`/store contracts below.
pub struct BattleContext {
    pub player1_ptr: usize,  // +0x00
    pub player2_ptr: usize,  // +0x04
    pub player1_rush_count: u32,  // +0x08
    pub player2_rush_count: u32,  // +0x0c
    pub player1_sub_param_ptr: usize,  // +0x2c
    pub player2_sub_param_ptr: usize,  // +0x30
    pub player1_score: u32,  // +0x34
    pub player2_score: u32,  // +0x38
}

/// Per-player primary record.
pub struct PlayerClass {
    pub initial_hp: u32,  // +0x08
    pub current_hp: u32,  // +0x0c
    pub graphic_hp1: u32,  // +0x10
    pub graphic_hp2: u32,  // +0x14
    pub graphic_hp3: u32,  // +0x18
}

/// Per-player EX-gauge record.
pub struct PlayerSubParamExClass {
    pub current_ex: i32,  // +0x0c
    pub graphic_ex1: i32,  // +0x10
    pub graphic_ex2: i32,  // +0x14
}

/// Per-player stun record.
pub struct PlayerSubParamStunClass {
    pub max_start_count: u32,  // +0x08
    pub current_start_count: u32,  // +0x0c
}

/// Context record of still unidentified purpose; only the first pointer
/// field is known.
pub struct UnkContext {
    pub sub_context_ptr: usize,  // +0x00
}

/// Sub-record reached through [`UnkContext`].
pub struct UnkContextSub {
    pub character_ptr: usize,  // +0x30
}

/// Per-character status record; only the side field is known.
pub struct CharacterStatus {
    pub position: u32,  // +0x1c
}

/// Bytes the [`BattleContext`] record occupies.
pub const BATTLE_CONTEXT_SIZE: usize = 0x3c;

/// Bytes the [`PlayerClass`] record occupies.
pub const PLAYER_CLASS_SIZE: usize = 0x1c;

/// Bytes the [`PlayerSubParamExClass`] record occupies.
pub const PLAYER_SUB_PARAM_EX_SIZE: usize = 0x18;

/// Bytes the [`PlayerSubParamStunClass`] record occupies.
pub const PLAYER_SUB_PARAM_STUN_SIZE: usize = 0x10;

/// Bytes the [`UnkContext`] record occupies.
pub const UNK_CONTEXT_SIZE: usize = 0x0c;

/// Bytes the [`UnkContextSub`] record occupies.
pub const UNK_CONTEXT_SUB_SIZE: usize = 0x38;

/// Bytes the [`CharacterStatus`] record occupies.
pub const CHARACTER_STATUS_SIZE: usize = 0x30;

/// Read a signed 32-bit field.
fn read_i32_field(mem: &MemoryImage, addr: usize) -> (r: i32)
    requires
        mem.wf(),
        mem.contains_range(addr as int, 4),
    ensures
        r as int == as_signed32(le32_at(mem.contents(), addr - mem.base_addr())),
{
    let m = mem.read_u32_le(addr);
    if m <= 0x7FFF_FFFF {
        m as i32
    } else {
        -1 - ((u32::MAX - m) as i32)
    }
}

impl BattleContext {
    /// Decode the record at `addr` from the memory image.
    pub fn read_from(mem: &MemoryImage, addr: usize) -> (r: BattleContext)
        requires
            mem.wf(),
            mem.contains_range(addr as int, BATTLE_CONTEXT_SIZE as int),
        ensures
            r.player1_ptr as int == field_u32(mem, addr as int, 0x00),
            r.player2_ptr as int == field_u32(mem, addr as int, 0x04),
            r.player1_rush_count as int == field_u32(mem, addr as int, 0x08),
            r.player2_rush_count as int == field_u32(mem, addr as int, 0x0c),
            r.player1_sub_param_ptr as int == field_u32(mem, addr as int, 0x2c),
            r.player2_sub_param_ptr as int == field_u32(mem, addr as int, 0x30),
            r.player1_score as int == field_u32(mem, addr as int, 0x34),
            r.player2_score as int == field_u32(mem, addr as int, 0x38),
    {
        BattleContext {
            player1_ptr: mem.read_u32_le(addr) as usize,
            player2_ptr: mem.read_u32_le(addr + 0x04) as usize,
            player1_rush_count: mem.read_u32_le(addr + 0x08),
            player2_rush_count: mem.read_u32_le(addr + 0x0c),
            player1_sub_param_ptr: mem.read_u32_le(addr + 0x2c) as usize,
            player2_sub_param_ptr: mem.read_u32_le(addr + 0x30) as usize,
            player1_score: mem.read_u32_le(addr + 0x34),
            player2_score: mem.read_u32_le(addr + 0x38),
        }
    }

    /// Overwrite the rush-count field of the given player (1 or 2).
    pub fn store_rush_count(mem: &mut MemoryImage, addr: usize, second_player: bool, v: u32)
        requires
            old(mem).wf(),
            old(mem).contains_range(addr as int, BATTLE_CONTEXT_SIZE as int),
            old(mem).range_writable(addr + (if second_player { 0x0cint } else { 0x08int }), 4),
        ensures
            final(mem).wf(),
            final(mem).base_addr() == old(mem).base_addr(),
            final(mem).wmask() == old(mem).wmask(),
            final(mem).contents() == spec_write_bytes(
                old(mem).contents(),
                addr + (if second_player { 0x0cint } else { 0x08int }) - old(mem).base_addr(),
                le32_bytes(v),
            ),
            field_u32(final(mem), addr as int, (if second_player { 0x0cint } else { 0x08int })) == v,
    {
        let off: usize = if second_player { 0x0c } else { 0x08 };
        mem.write_u32_le(addr + off, v);
    }

    /// Overwrite the score field of the given player (1 or 2).
    pub fn store_score(mem: &mut MemoryImage, addr: usize, second_player: bool, v: u32)
        requires
            old(mem).wf(),
            old(mem).contains_range(addr as int, BATTLE_CONTEXT_SIZE as int),
            old(mem).range_writable(addr + (if second_player { 0x38int } else { 0x34int }), 4),
        ensures
            final(mem).wf(),
            final(mem).base_addr() == old(mem).base_addr(),
            final(mem).wmask() == old(mem).wmask(),
            final(mem).contents() == spec_write_bytes(
                old(mem).contents(),
                addr + (if second_player { 0x38int } else { 0x34int }) - old(mem).base_addr(),
                le32_bytes(v),
            ),
            field_u32(final(mem), addr as int, (if second_player { 0x38int } else { 0x34int })) == v,
    {
        let off: usize = if second_player { 0x38 } else { 0x34 };
        mem.write_u32_le(addr + off, v);
    }
}

impl PlayerClass {
    /// Decode the record at `addr` from the memory image.
    pub fn read_from(mem: &MemoryImage, addr: usize) -> (r: PlayerClass)
        requires
            mem.wf(),
            mem.contains_range(addr as int, PLAYER_CLASS_SIZE as int),
        ensures
            r.initial_hp as int == field_u32(mem, addr as int, 0x08),
            r.current_hp as int == field_u32(mem, addr as int, 0x0c),
            r.graphic_hp1 as int == field_u32(mem, addr as int, 0x10),
            r.graphic_hp2 as int == field_u32(mem, addr as int, 0x14),
            r.graphic_hp3 as int == field_u32(mem, addr as int, 0x18),
    {
        PlayerClass {
            initial_hp: mem.read_u32_le(addr + 0x08),
            current_hp: mem.read_u32_le(addr + 0x0c),
            graphic_hp1: mem.read_u32_le(addr + 0x10),
            graphic_hp2: mem.read_u32_le(addr + 0x14),
            graphic_hp3: mem.read_u32_le(addr + 0x18),
        }
    }

    /// Overwrite the current-hit-point field.
    pub fn store_current_hp(mem: &mut MemoryImage, addr: usize, v: u32)
        requires
            old(mem).wf(),
            old(mem).contains_range(addr as int, PLAYER_CLASS_SIZE as int),
            old(mem).range_writable(addr + 0x0c, 4),
        ensures
            final(mem).wf(),
            final(mem).base_addr() == old(mem).base_addr(),
            final(mem).wmask() == old(mem).wmask(),
            final(mem).contents() == spec_write_bytes(
                old(mem).contents(),
                addr + 0x0c - old(mem).base_addr(),
                le32_bytes(v),
            ),
            field_u32(final(mem), addr as int, 0x0c) == v,
    {
        mem.write_u32_le(addr + 0x0c, v);
    }
}

impl PlayerSubParamExClass {
    /// Decode the record at `addr` from the memory image.
    pub fn read_from(mem: &MemoryImage, addr: usize) -> (r: PlayerSubParamExClass)
        requires
            mem.wf(),
            mem.contains_range(addr as int, PLAYER_SUB_PARAM_EX_SIZE as int),
        ensures
            r.current_ex as int == as_signed32(field_u32(mem, addr as int, 0x0c)),
            r.graphic_ex1 as int == as_signed32(field_u32(mem, addr as int, 0x10)),
            r.graphic_ex2 as int == as_signed32(field_u32(mem, addr as int, 0x14)),
    {
        PlayerSubParamExClass {
            current_ex: read_i32_field(mem, addr + 0x0c),
            graphic_ex1: read_i32_field(mem, addr + 0x10),
            graphic_ex2: read_i32_field(mem, addr + 0x14),
        }
    }

    /// Overwrite the current-EX field.
    pub fn store_current_ex(mem: &mut MemoryImage, addr: usize, v: i32)
        requires
            old(mem).wf(),
            old(mem).contains_range(addr as int, PLAYER_SUB_PARAM_EX_SIZE as int),
            old(mem).range_writable(addr + 0x0c, 4),
        ensures
            final(mem).wf(),
            final(mem).base_addr() == old(mem).base_addr(),
            final(mem).wmask() == old(mem).wmask(),
            le32_at(final(mem).contents(), addr + 0x0c - old(mem).base_addr()) == signed32_bits(
                v as int,
            ),
            as_signed32(field_u32(final(mem), addr as int, 0x0c)) == v,
            forall|i: int|
                0 <= i < old(mem).contents().len() && !(addr + 0x0c - old(mem).base_addr() <= i
                    < addr + 0x10 - old(mem).base_addr()) ==> final(mem).contents()[i] == old(
                    mem,
                ).contents()[i],
    {
        let bits: u32 = if v >= 0 {
            v as u32
        } else {
            0xFFFF_FFFFu32 - ((-1 - v) as u32)
        };
        assert(bits as int == signed32_bits(v as int));
        mem.write_u32_le(addr + 0x0c, bits);
    }
}

impl PlayerSubParamStunClass {
    /// Decode the record at `addr` from the memory image.
    pub fn read_from(mem: &MemoryImage, addr: usize) -> (r: PlayerSubParamStunClass)
        requires
            mem.wf(),
            mem.contains_range(addr as int, PLAYER_SUB_PARAM_STUN_SIZE as int),
        ensures
            r.max_start_count as int == field_u32(mem, addr as int, 0x08),
            r.current_start_count as int == field_u32(mem, addr as int, 0x0c),
    {
        PlayerSubParamStunClass {
            max_start_count: mem.read_u32_le(addr + 0x08),
            current_start_count: mem.read_u32_le(addr + 0x0c),
        }
    }
}

impl UnkContext {
    /// Decode the record at `addr` from the memory image.
    pub fn read_from(mem: &MemoryImage, addr: usize) -> (r: UnkContext)
        requires
            mem.wf(),
            mem.contains_range(addr as int, UNK_CONTEXT_SIZE as int),
        ensures
            r.sub_context_ptr as int == field_u32(mem, addr as int, 0x00),
    {
        UnkContext { sub_context_ptr: mem.read_u32_le(addr) as usize }
    }
}

impl UnkContextSub {
    /// Decode the record at `addr` from the memory image.
    pub fn read_from(mem: &MemoryImage, addr: usize) -> (r: UnkContextSub)
        requires
            mem.wf(),
            mem.contains_range(addr as int, UNK_CONTEXT_SUB_SIZE as int),
        ensures
            r.character_ptr as int == field_u32(mem, addr as int, 0x30),
    {
        UnkContextSub { character_ptr: mem.read_u32_le(addr + 0x30) as usize }
    }
}

impl CharacterStatus {
    /// Decode the record at `addr` from the memory image.
    pub fn read_from(mem: &MemoryImage, addr: usize) -> (r: CharacterStatus)
        requires
            mem.wf(),
            mem.contains_range(addr as int, CHARACTER_STATUS_SIZE as int),
        ensures
            r.position as int == field_u32(mem, addr as int, 0x1c),
    {
        CharacterStatus { position: mem.read_u32_le(addr + 0x1c) }
    }
}

/// The name of a case of the battle main loop's first switch.
pub open spec fn spec_battle_case_name(case: u32) -> Seq<char> {
    if case == 0 {
        "BATTLE_INITIALIZE"@
    } else if case == 1 {
        "BATTLE_LOADING"@
    } else if case == 6 {
        "BATTLE_STARTDASH"@
    } else if case == 8 {
        "BATTLE_FRAME_DRAWING"@
    } else if case == 10 {
        "BATTLE_PLAYER_WAITING"@
    } else if case == 11 {
        "BATTLE_RUMBLE_LEADER_SELECTING"@
    } else if case == 13 {
        "BATTLE_ATTACK"@
    } else if case == 15 {
        "BATTLE_END_RESULT"@
    } else {
        "Unknown"@
    }
}

/// Name the case the battle main loop's first switch is executing.
pub fn get_battle_main_loop_first_swithc_case_name(case: u32) -> (r: &'static str)
    ensures
        r@ == spec_battle_case_name(case),
{
    match case {
        0 => "BATTLE_INITIALIZE",
        1 => "BATTLE_LOADING",
        6 => "BATTLE_STARTDASH",
        8 => "BATTLE_FRAME_DRAWING",
        10 => "BATTLE_PLAYER_WAITING",
        11 => "BATTLE_RUMBLE_LEADER_SELECTING",
        13 => "BATTLE_ATTACK",
        15 => "BATTLE_END_RESULT",
        _ => "Unknown",
    }
}

} // verus!
