use sbx_tool_core::battle::{
    get_battle_main_loop_first_swithc_case_name, BattleContext, CharacterStatus, PlayerClass,
    PlayerSubParamExClass, PlayerSubParamStunClass, UnkContext, UnkContextSub,
};
use sbx_tool_core::mem::MemoryImage;

const BASE: usize = 0x400000;

fn put_u32(bytes: &mut Vec<u8>, off: usize, v: u32) {
    bytes[off..off + 4].copy_from_slice(&v.to_le_bytes());
}

fn image(bytes: Vec<u8>) -> MemoryImage {
    let n = bytes.len();
    MemoryImage::new(BASE, bytes, vec![true; n])
}

#[test]
fn battle_context_decodes_fields_at_their_offsets() {
    let mut bytes = vec![0u8; 0x3c];
    put_u32(&mut bytes, 0x00, 0x11111111);
    put_u32(&mut bytes, 0x04, 0x22222222);
    put_u32(&mut bytes, 0x08, 7);
    put_u32(&mut bytes, 0x0c, 9);
    put_u32(&mut bytes, 0x2c, 0x33333333);
    put_u32(&mut bytes, 0x30, 0x44444444);
    put_u32(&mut bytes, 0x34, 123456);
    put_u32(&mut bytes, 0x38, 654321);
    let mem = image(bytes);
    let ctx = BattleContext::read_from(&mem, BASE);
    assert_eq!(ctx.player1_ptr, 0x11111111);
    assert_eq!(ctx.player2_ptr, 0x22222222);
    assert_eq!(ctx.player1_rush_count, 7);
    assert_eq!(ctx.player2_rush_count, 9);
    assert_eq!(ctx.player1_sub_param_ptr, 0x33333333);
    assert_eq!(ctx.player2_sub_param_ptr, 0x44444444);
    assert_eq!(ctx.player1_score, 123456);
    assert_eq!(ctx.player2_score, 654321);
}

#[test]
fn battle_context_stores_rush_count_and_score() {
    let mut mem = image(vec![0u8; 0x3c]);
    BattleContext::store_rush_count(&mut mem, BASE, false, 5);
    BattleContext::store_rush_count(&mut mem, BASE, true, 6);
    BattleContext::store_score(&mut mem, BASE, false, 100000);
    BattleContext::store_score(&mut mem, BASE, true, 200000);
    let ctx = BattleContext::read_from(&mem, BASE);
    assert_eq!(ctx.player1_rush_count, 5);
    assert_eq!(ctx.player2_rush_count, 6);
    assert_eq!(ctx.player1_score, 100000);
    assert_eq!(ctx.player2_score, 200000);
}

#[test]
fn player_class_decode_and_hp_edit() {
    let mut bytes = vec![0u8; 0x1c];
    put_u32(&mut bytes, 0x08, 30000);
    put_u32(&mut bytes, 0x0c, 12345);
    put_u32(&mut bytes, 0x10, 1);
    put_u32(&mut bytes, 0x14, 2);
    put_u32(&mut bytes, 0x18, 3);
    let mut mem = image(bytes);
    let p = PlayerClass::read_from(&mem, BASE);
    assert_eq!(p.initial_hp, 30000);
    assert_eq!(p.current_hp, 12345);
    assert_eq!((p.graphic_hp1, p.graphic_hp2, p.graphic_hp3), (1, 2, 3));
    PlayerClass::store_current_hp(&mut mem, BASE, 29999);
    let p = PlayerClass::read_from(&mem, BASE);
    assert_eq!(p.current_hp, 29999);
    assert_eq!(p.initial_hp, 30000);
}

#[test]
fn sub_param_ex_handles_negative_values() {
    let mut bytes = vec![0u8; 0x18];
    put_u32(&mut bytes, 0x0c, (-250i32) as u32);
    put_u32(&mut bytes, 0x10, 300u32);
    put_u32(&mut bytes, 0x14, (-1i32) as u32);
    let mut mem = image(bytes);
    let e = PlayerSubParamExClass::read_from(&mem, BASE);
    assert_eq!(e.current_ex, -250);
    assert_eq!(e.graphic_ex1, 300);
    assert_eq!(e.graphic_ex2, -1);
    PlayerSubParamExClass::store_current_ex(&mut mem, BASE, -77);
    let e = PlayerSubParamExClass::read_from(&mem, BASE);
    assert_eq!(e.current_ex, -77);
    PlayerSubParamExClass::store_current_ex(&mut mem, BASE, 500);
    let e = PlayerSubParamExClass::read_from(&mem, BASE);
    assert_eq!(e.current_ex, 500);
}

#[test]
fn stun_unk_and_character_records_decode() {
    let mut bytes = vec![0u8; 0x10];
    put_u32(&mut bytes, 0x08, 3);
    put_u32(&mut bytes, 0x0c, 1);
    let mem = image(bytes);
    let s = PlayerSubParamStunClass::read_from(&mem, BASE);
    assert_eq!((s.max_start_count, s.current_start_count), (3, 1));

    let mut bytes = vec![0u8; 0x0c];
    put_u32(&mut bytes, 0x00, 0xABCD);
    let mem = image(bytes);
    assert_eq!(UnkContext::read_from(&mem, BASE).sub_context_ptr, 0xABCD);

    let mut bytes = vec![0u8; 0x38];
    put_u32(&mut bytes, 0x30, 0x5005);
    let mem = image(bytes);
    assert_eq!(UnkContextSub::read_from(&mem, BASE).character_ptr, 0x5005);

    let mut bytes = vec![0u8; 0x30];
    put_u32(&mut bytes, 0x1c, 0);
    let mem = image(bytes);
    assert_eq!(CharacterStatus::read_from(&mem, BASE).position, 0);
}

#[test]
fn battle_case_names() {
    assert_eq!(get_battle_main_loop_first_swithc_case_name(0), "BATTLE_INITIALIZE");
    assert_eq!(get_battle_main_loop_first_swithc_case_name(1), "BATTLE_LOADING");
    assert_eq!(get_battle_main_loop_first_swithc_case_name(6), "BATTLE_STARTDASH");
    assert_eq!(get_battle_main_loop_first_swithc_case_name(8), "BATTLE_FRAME_DRAWING");
    assert_eq!(get_battle_main_loop_first_swithc_case_name(10), "BATTLE_PLAYER_WAITING");
    assert_eq!(get_battle_main_loop_first_swithc_case_name(11), "BATTLE_RUMBLE_LEADER_SELECTING");
    assert_eq!(get_battle_main_loop_first_swithc_case_name(13), "BATTLE_ATTACK");
    assert_eq!(get_battle_main_loop_first_swithc_case_name(15), "BATTLE_END_RESULT");
    assert_eq!(get_battle_main_loop_first_swithc_case_name(2), "Unknown");
    assert_eq!(get_battle_main_loop_first_swithc_case_name(77777), "Unknown");
}
