use sbx_tool_core::errors::EngineError;
use sbx_tool_core::intercept::JUMP_LEN;
use sbx_tool_core::lifecycle::{DeviceState, PresentEnv};
use sbx_tool_core::mem::MemoryImage;
use sbx_tool_core::runtime::SharedRuntimeContext;

const BASE: usize = 0x400000;
const CALLBACK: usize = 0x700000;

fn image(n: usize) -> MemoryImage {
    let contents: Vec<u8> = (0..n).map(|i| (i % 251) as u8).collect();
    MemoryImage::new(BASE, contents, vec![true; n])
}

fn jump_bytes(target: usize, callback: usize) -> Vec<u8> {
    let rel = (callback as u32).wrapping_sub((target + JUMP_LEN) as u32);
    let mut v = vec![0xE9];
    v.extend_from_slice(&rel.to_le_bytes());
    v
}

#[test]
fn install_function_hook_writes_divert_at_offset() {
    let mut mem = image(64);
    let mut ctx = SharedRuntimeContext::new();
    let idx = ctx.install_function_hook(&mut mem, "main_loop".to_string(), 16, CALLBACK).unwrap();
    assert_eq!(idx, 0);
    assert_eq!(mem.read_bytes(BASE + 16, JUMP_LEN), jump_bytes(BASE + 16, CALLBACK));
    assert!(ctx.registry().get(&"main_loop".to_string()).is_some());
}

#[test]
fn install_function_hook_rejects_bad_offset() {
    let mut mem = image(16);
    let mut ctx = SharedRuntimeContext::new();
    let before = mem.read_bytes(BASE, 16);
    assert_eq!(
        ctx.install_function_hook(&mut mem, "h".to_string(), 14, CALLBACK).unwrap_err(),
        EngineError::InvalidAddress
    );
    assert_eq!(mem.read_bytes(BASE, 16), before);
    assert!(ctx.registry().get(&"h".to_string()).is_none());
}

#[test]
fn install_function_hook_rejects_duplicate_name_without_writing() {
    let mut mem = image(64);
    let mut ctx = SharedRuntimeContext::new();
    ctx.install_function_hook(&mut mem, "h".to_string(), 0, CALLBACK).unwrap();
    let before = mem.read_bytes(BASE, 64);
    assert_eq!(
        ctx.install_function_hook(&mut mem, "h".to_string(), 32, CALLBACK).unwrap_err(),
        EngineError::DuplicateName
    );
    assert_eq!(mem.read_bytes(BASE, 64), before);
}

#[test]
fn install_function_hook_rejects_overlap_without_writing() {
    let mut mem = image(64);
    let mut ctx = SharedRuntimeContext::new();
    ctx.install_function_hook(&mut mem, "first".to_string(), 8, CALLBACK).unwrap();
    let before = mem.read_bytes(BASE, 64);
    assert_eq!(
        ctx.install_function_hook(&mut mem, "second".to_string(), 10, CALLBACK).unwrap_err(),
        EngineError::AddressAlreadyHooked
    );
    assert_eq!(mem.read_bytes(BASE, 64), before);
}

#[test]
fn install_and_toggle_patch_round_trip() {
    let mut mem = image(64);
    let before = mem.read_bytes(BASE, 64);
    let mut ctx = SharedRuntimeContext::new();
    let id = ctx
        .install_patch(
            &mem,
            "css_cost".to_string(),
            &vec![(BASE + 8, vec![0x90, 0x90, 0x90, 0x90]), (BASE + 40, vec![0xEB, 0x05])],
        )
        .unwrap();
    // installation captures but does not write
    assert_eq!(mem.read_bytes(BASE, 64), before);
    ctx.toggle_patch(&mut mem, id, true).unwrap();
    assert_eq!(mem.read_bytes(BASE + 8, 4), vec![0x90, 0x90, 0x90, 0x90]);
    assert_eq!(mem.read_bytes(BASE + 40, 2), vec![0xEB, 0x05]);
    ctx.toggle_patch(&mut mem, id, false).unwrap();
    assert_eq!(mem.read_bytes(BASE, 64), before);
}

#[test]
fn toggle_patch_with_bad_id_is_not_found() {
    let mut mem = image(16);
    let mut ctx = SharedRuntimeContext::new();
    assert_eq!(ctx.toggle_patch(&mut mem, 0, true).unwrap_err(), EngineError::NotFound);
}

#[test]
fn patch_overlapping_hook_is_rejected() {
    let mut mem = image(64);
    let mut ctx = SharedRuntimeContext::new();
    ctx.install_function_hook(&mut mem, "hook".to_string(), 8, CALLBACK).unwrap();
    assert_eq!(
        ctx.install_patch(&mem, "patch".to_string(), &vec![(BASE + 10, vec![0x90])])
            .unwrap_err(),
        EngineError::DuplicateAddress
    );
    assert!(ctx.registry().get(&"patch".to_string()).is_none());
}

#[test]
fn attach_device_lifecycle_installs_both_hooks() {
    let mut mem = image(64);
    let mut ctx = SharedRuntimeContext::new();
    ctx.attach_device_lifecycle(&mut mem, 0, 32, CALLBACK, CALLBACK + 0x100).unwrap();
    assert_eq!(mem.read_bytes(BASE, JUMP_LEN), jump_bytes(BASE, CALLBACK));
    assert_eq!(mem.read_bytes(BASE + 32, JUMP_LEN), jump_bytes(BASE + 32, CALLBACK + 0x100));
    assert!(ctx.registry().get(&"device_present".to_string()).is_some());
    assert!(ctx.registry().get(&"device_reset".to_string()).is_some());
}

#[test]
fn attach_device_lifecycle_rejects_overlapping_entry_points() {
    let mut mem = image(64);
    let before = mem.read_bytes(BASE, 64);
    let mut ctx = SharedRuntimeContext::new();
    assert_eq!(
        ctx.attach_device_lifecycle(&mut mem, 8, 10, CALLBACK, CALLBACK).unwrap_err(),
        EngineError::AddressAlreadyHooked
    );
    assert_eq!(mem.read_bytes(BASE, 64), before);
    assert!(ctx.registry().get(&"device_present".to_string()).is_none());
}

#[test]
fn attach_device_lifecycle_twice_is_duplicate_name() {
    let mut mem = image(128);
    let mut ctx = SharedRuntimeContext::new();
    ctx.attach_device_lifecycle(&mut mem, 0, 32, CALLBACK, CALLBACK).unwrap();
    let before = mem.read_bytes(BASE, 128);
    assert_eq!(
        ctx.attach_device_lifecycle(&mut mem, 64, 96, CALLBACK, CALLBACK).unwrap_err(),
        EngineError::DuplicateName
    );
    assert_eq!(mem.read_bytes(BASE, 128), before);
}

#[test]
fn context_drives_coordinator_through_device_events() {
    let mut ctx = SharedRuntimeContext::new();
    let device: usize = 0xD3D;
    let env = PresentEnv {
        renderer_built: Some(1),
        output_window: Some(2),
        window_hook_installed: true,
    };
    ctx.on_present(device, env);
    assert_eq!(ctx.coordinator().current_state(), DeviceState::DeviceCaptured);
    ctx.on_present(device, env);
    assert_eq!(ctx.coordinator().current_state(), DeviceState::RendererReady);
    let a = ctx.on_present(device, env);
    assert_eq!(ctx.coordinator().current_state(), DeviceState::WindowHooked);
    assert!(a.draw);
    ctx.on_reset(device);
    assert_eq!(ctx.coordinator().current_state(), DeviceState::DeviceCaptured);
    assert!(ctx.coordinator().has_window_hook());
}
