use sbx_tool_core::errors::EngineError;
use sbx_tool_core::intercept::{InterceptHandle, JUMP_LEN};
use sbx_tool_core::mem::MemoryImage;
use sbx_tool_core::patch::PatchSet;
use sbx_tool_core::registry::{HookRegistry, RegistryItem};

const BASE: usize = 0x400000;

fn image(n: usize) -> MemoryImage {
    let contents: Vec<u8> = (0..n).map(|i| (i % 251) as u8).collect();
    MemoryImage::new(BASE, contents, vec![true; n])
}

#[test]
fn register_and_get_by_name() {
    let mem = image(64);
    let mut reg = HookRegistry::new();
    let h = InterceptHandle::install(&mem, BASE + 8, 0x700000).unwrap();
    reg.register("main_loop".to_string(), RegistryItem::Intercept(h)).unwrap();
    let p = PatchSet::new(&mem, &vec![(BASE + 32, vec![0x90; 4])]).unwrap();
    reg.register("css_cost".to_string(), RegistryItem::Patch(p)).unwrap();
    assert_eq!(reg.len(), 2);
    assert!(matches!(reg.get(&"main_loop".to_string()), Some(RegistryItem::Intercept(_))));
    assert!(matches!(reg.get(&"css_cost".to_string()), Some(RegistryItem::Patch(_))));
    assert!(reg.get(&"absent".to_string()).is_none());
}

#[test]
fn duplicate_name_is_rejected() {
    let mem = image(64);
    let mut reg = HookRegistry::new();
    let h = InterceptHandle::install(&mem, BASE, 0x700000).unwrap();
    reg.register("hook".to_string(), RegistryItem::Intercept(h)).unwrap();
    // a far-away address, but the same name
    let h2 = InterceptHandle::install(&mem, BASE + 40, 0x700000).unwrap();
    assert_eq!(
        reg.register("hook".to_string(), RegistryItem::Intercept(h2)).unwrap_err(),
        EngineError::DuplicateName
    );
    assert_eq!(reg.len(), 1);
}

#[test]
fn overlapping_hook_is_address_already_hooked() {
    let mem = image(64);
    let mut reg = HookRegistry::new();
    let h = InterceptHandle::install(&mem, BASE + 8, 0x700000).unwrap();
    reg.register("first".to_string(), RegistryItem::Intercept(h)).unwrap();
    // the 5-byte ranges [8,13) and [12,17) overlap
    let h2 = InterceptHandle::install(&mem, BASE + 12, 0x700000).unwrap();
    assert_eq!(
        reg.register("second".to_string(), RegistryItem::Intercept(h2)).unwrap_err(),
        EngineError::AddressAlreadyHooked
    );
    assert_eq!(reg.len(), 1);
}

#[test]
fn overlapping_patch_is_duplicate_address_and_memory_untouched() {
    let mut mem = image(64);
    let before = mem.read_bytes(BASE, 64);
    let mut reg = HookRegistry::new();
    let h = InterceptHandle::install(&mem, BASE + 8, 0x700000).unwrap();
    reg.register("hook".to_string(), RegistryItem::Intercept(h)).unwrap();
    reg.enable_hook(&mut mem, 0).unwrap();
    let after_enable = mem.read_bytes(BASE, 64);
    // patch overlapping the hooked range is refused, and memory is unchanged
    let p = PatchSet::new(&mem, &vec![(BASE + 10, vec![0x90; 4])]).unwrap();
    assert_eq!(
        reg.register("patch".to_string(), RegistryItem::Patch(p)).unwrap_err(),
        EngineError::DuplicateAddress
    );
    assert_eq!(mem.read_bytes(BASE, 64), after_enable);
    assert_ne!(after_enable, before); // the enable itself did write the divert
}

#[test]
fn disjoint_registrations_are_accepted() {
    let mem = image(64);
    let mut reg = HookRegistry::new();
    let h = InterceptHandle::install(&mem, BASE, 0x700000).unwrap();
    reg.register("hook".to_string(), RegistryItem::Intercept(h)).unwrap();
    // [0,5) and [5,9) touch but do not overlap
    let p = PatchSet::new(&mem, &vec![(BASE + JUMP_LEN, vec![0x90; 4])]).unwrap();
    reg.register("patch".to_string(), RegistryItem::Patch(p)).unwrap();
    assert_eq!(reg.len(), 2);
}

#[test]
fn enable_writes_jump_and_disable_restores() {
    let mut mem = image(64);
    let before = mem.read_bytes(BASE, 64);
    let target = BASE + 16;
    let callback: usize = 0x700000;
    let mut reg = HookRegistry::new();
    let h = InterceptHandle::install(&mem, target, callback).unwrap();
    let snapshot = h.original_bytes().clone();
    assert_eq!(snapshot, mem.read_bytes(target, JUMP_LEN));
    reg.register("dx_present".to_string(), RegistryItem::Intercept(h)).unwrap();

    reg.enable_hook(&mut mem, 0).unwrap();
    let written = mem.read_bytes(target, JUMP_LEN);
    let rel = (callback as u32).wrapping_sub((target + JUMP_LEN) as u32);
    assert_eq!(written[0], 0xE9);
    assert_eq!(&written[1..], &rel.to_le_bytes());
    // bytes outside the hook range are untouched
    assert_eq!(mem.read_bytes(BASE, 16), before[..16]);

    reg.disable_hook(&mut mem, 0).unwrap();
    assert_eq!(mem.read_bytes(BASE, 64), before);
}

#[test]
fn enable_twice_is_a_noop_success() {
    let mut mem = image(64);
    let mut reg = HookRegistry::new();
    let h = InterceptHandle::install(&mem, BASE, 0x700000).unwrap();
    reg.register("hook".to_string(), RegistryItem::Intercept(h)).unwrap();
    reg.enable_hook(&mut mem, 0).unwrap();
    let once = mem.read_bytes(BASE, 64);
    reg.enable_hook(&mut mem, 0).unwrap();
    assert_eq!(mem.read_bytes(BASE, 64), once);
}

#[test]
fn install_on_unwritable_range_is_memory_protection_failed() {
    let mut writable = vec![true; 16];
    writable[3] = false;
    let mem = MemoryImage::new(BASE, vec![0; 16], writable);
    assert_eq!(
        InterceptHandle::install(&mem, BASE, 0x700000).unwrap_err(),
        EngineError::MemoryProtectionFailed
    );
}

#[test]
fn install_outside_image_is_invalid_address() {
    let mem = image(16);
    assert_eq!(
        InterceptHandle::install(&mem, BASE + 13, 0x700000).unwrap_err(),
        EngineError::InvalidAddress
    );
}

#[test]
fn toggle_patch_by_bad_index_is_not_found() {
    let mut mem = image(16);
    let mut reg = HookRegistry::new();
    let h = InterceptHandle::install(&mem, BASE, 0x700000).unwrap();
    reg.register("hook".to_string(), RegistryItem::Intercept(h)).unwrap();
    assert_eq!(reg.toggle_patch(&mut mem, 0, true).unwrap_err(), EngineError::NotFound);
    assert_eq!(reg.toggle_patch(&mut mem, 5, true).unwrap_err(), EngineError::NotFound);
}
