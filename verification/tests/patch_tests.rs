use sbx_tool_core::errors::EngineError;
use sbx_tool_core::mem::MemoryImage;
use sbx_tool_core::patch::PatchSet;

const BASE: usize = 0x400000;

fn image(contents: Vec<u8>) -> MemoryImage {
    let n = contents.len();
    MemoryImage::new(BASE, contents, vec![true; n])
}

#[test]
fn single_region_toggle_scenario() {
    let mut mem = image(vec![0xAA, 0xBB, 0xCC, 0xDD]);
    let specs = vec![(BASE, vec![0x90, 0x90, 0x90, 0x90])];
    let mut p = PatchSet::new(&mem, &specs).unwrap();
    assert!(!p.is_enabled());
    p.toggle(&mut mem, true).unwrap();
    assert_eq!(mem.read_bytes(BASE, 4), vec![0x90, 0x90, 0x90, 0x90]);
    assert!(p.is_enabled());
    p.toggle(&mut mem, false).unwrap();
    assert_eq!(mem.read_bytes(BASE, 4), vec![0xAA, 0xBB, 0xCC, 0xDD]);
    assert!(!p.is_enabled());
}

#[test]
fn multi_region_round_trip_restores_whole_image() {
    let original: Vec<u8> = (0..32).collect();
    let mut mem = image(original.clone());
    let specs = vec![
        (BASE + 2, vec![0xE9, 0xFE]),
        (BASE + 20, vec![0x90, 0x90, 0x90]),
        (BASE + 9, vec![0x00]),
    ];
    let mut p = PatchSet::new(&mem, &specs).unwrap();
    p.toggle(&mut mem, true).unwrap();
    assert_eq!(mem.read_bytes(BASE + 2, 2), vec![0xE9, 0xFE]);
    assert_eq!(mem.read_bytes(BASE + 20, 3), vec![0x90, 0x90, 0x90]);
    assert_eq!(mem.read_byte(BASE + 9), 0x00);
    // untouched bytes keep their value
    assert_eq!(mem.read_byte(BASE), 0);
    assert_eq!(mem.read_byte(BASE + 4), 4);
    p.toggle(&mut mem, false).unwrap();
    assert_eq!(mem.read_bytes(BASE, 32), original);
}

#[test]
fn toggle_is_idempotent() {
    let mut mem = image(vec![1, 2, 3, 4, 5, 6]);
    let specs = vec![(BASE + 1, vec![7, 8])];
    let mut p = PatchSet::new(&mem, &specs).unwrap();
    p.toggle(&mut mem, true).unwrap();
    let after_once = mem.read_bytes(BASE, 6);
    p.toggle(&mut mem, true).unwrap();
    assert_eq!(mem.read_bytes(BASE, 6), after_once);
    assert!(p.is_enabled());
}

#[test]
fn revert_before_apply_is_a_noop() {
    let mut mem = image(vec![1, 2, 3, 4]);
    let specs = vec![(BASE, vec![9, 9])];
    let mut p = PatchSet::new(&mem, &specs).unwrap();
    p.toggle(&mut mem, false).unwrap();
    assert_eq!(mem.read_bytes(BASE, 4), vec![1, 2, 3, 4]);
    assert!(!p.is_enabled());
}

#[test]
fn out_of_image_region_is_invalid_address() {
    let mem = image(vec![0; 8]);
    let specs = vec![(BASE + 6, vec![1, 2, 3])];
    assert_eq!(PatchSet::new(&mem, &specs).unwrap_err(), EngineError::InvalidAddress);
    let specs = vec![(BASE - 1, vec![1])];
    assert_eq!(PatchSet::new(&mem, &specs).unwrap_err(), EngineError::InvalidAddress);
}

#[test]
fn empty_region_is_invalid_address() {
    let mem = image(vec![0; 8]);
    let specs = vec![(BASE, vec![])];
    assert_eq!(PatchSet::new(&mem, &specs).unwrap_err(), EngineError::InvalidAddress);
}

#[test]
fn overlapping_regions_are_duplicate_address() {
    let mem = image(vec![0; 16]);
    let specs = vec![(BASE, vec![1, 2, 3, 4]), (BASE + 3, vec![5, 6])];
    assert_eq!(PatchSet::new(&mem, &specs).unwrap_err(), EngineError::DuplicateAddress);
}

#[test]
fn unwritable_region_fails_without_any_mutation() {
    // second region not writable: the toggle must leave every byte as it was
    let contents = vec![1u8, 2, 3, 4, 5, 6, 7, 8];
    let mut writable = vec![true; 8];
    writable[5] = false;
    let mut mem = MemoryImage::new(BASE, contents.clone(), writable);
    let specs = vec![(BASE, vec![9, 9]), (BASE + 5, vec![8])];
    let mut p = PatchSet::new(&mem, &specs).unwrap();
    assert_eq!(p.toggle(&mut mem, true).unwrap_err(), EngineError::PartialPatchFailure);
    assert_eq!(mem.read_bytes(BASE, 8), contents);
    assert!(!p.is_enabled());
}
