use sbx_tool_core::effbool::EffBool;

#[test]
fn new_starts_unchanged() {
    let b = EffBool::new(true);
    assert!(b.get());
    assert!(!b.is_changed());
    let b = EffBool::new(false);
    assert!(!b.get());
    assert!(!b.is_changed());
}

#[test]
fn default_is_false_unchanged() {
    let b = EffBool::default();
    assert!(!b.get());
    assert!(!b.is_changed());
}

#[test]
fn set_same_value_clears_change_flag() {
    let mut b = EffBool::new(false);
    b.set(true);
    assert!(b.is_changed());
    b.set(true);
    assert!(!b.is_changed());
    assert!(b.get());
}

#[test]
fn set_different_value_raises_change_flag() {
    let mut b = EffBool::new(false);
    b.set(true);
    assert!(b.get());
    assert!(b.is_changed());
    b.set(false);
    assert!(!b.get());
    assert!(b.is_changed());
}

#[test]
fn set_and_is_changed_reports_both() {
    let mut b = EffBool::new(false);
    assert_eq!(b.set_and_is_changed(true), (true, true));
    assert_eq!(b.set_and_is_changed(true), (false, true));
    assert_eq!(b.set_and_is_changed(false), (true, false));
}
