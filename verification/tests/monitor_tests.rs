use sbx_tool_core::monitor::{
    classify_loop_message, creation_disposition_name, get_ui_main_loop_first_switch_case_name,
    is_epa_file_name, CaseTracker, LoopMessageKind, WM_MOUSEMOVE,
};

#[test]
fn ui_case_names() {
    assert_eq!(get_ui_main_loop_first_switch_case_name(23), "CONFIG");
    assert_eq!(get_ui_main_loop_first_switch_case_name(24), "SAVE_LOAD");
    assert_eq!(get_ui_main_loop_first_switch_case_name(26), "ESCAPE");
    assert_eq!(get_ui_main_loop_first_switch_case_name(95), "BRAVE_MODE_SSS");
    assert_eq!(get_ui_main_loop_first_switch_case_name(96), "BRAVE_MODE_CSS");
    assert_eq!(get_ui_main_loop_first_switch_case_name(97), "VS_CPU_MODE_CSS");
    assert_eq!(get_ui_main_loop_first_switch_case_name(98), "VS_CPU_MODE_SSS");
    assert_eq!(get_ui_main_loop_first_switch_case_name(99), "BATTLE");
    assert_eq!(get_ui_main_loop_first_switch_case_name(0), "Unknown");
    assert_eq!(get_ui_main_loop_first_switch_case_name(100), "Unknown");
}

#[test]
fn case_tracker_reports_only_changes() {
    let mut t = CaseTracker::new(77777);
    assert!(t.observe(99));
    assert!(!t.observe(99));
    assert!(!t.observe(99));
    assert!(t.observe(23));
    assert!(t.observe(99));
}

#[test]
fn case_tracker_sentinel_lets_first_observation_through() {
    let mut t = CaseTracker::new(77777);
    assert!(t.observe(0));
}

#[test]
fn classify_messages() {
    assert_eq!(classify_loop_message(0, 42), LoopMessageKind::ThreadMessage);
    assert_eq!(classify_loop_message(0, WM_MOUSEMOVE), LoopMessageKind::ThreadMessage);
    assert_eq!(classify_loop_message(0x30001, WM_MOUSEMOVE), LoopMessageKind::MouseMove);
    assert_eq!(classify_loop_message(0x30001, 0x0201), LoopMessageKind::Other);
}

#[test]
fn creation_disposition_names() {
    assert_eq!(creation_disposition_name(1), "CREATE_NEW");
    assert_eq!(creation_disposition_name(2), "CREATE_ALWAYS");
    assert_eq!(creation_disposition_name(3), "OPEN_EXISTING");
    assert_eq!(creation_disposition_name(4), "OPEN_ALWAYS");
    assert_eq!(creation_disposition_name(5), "TRUNCATE_EXISTING");
    assert_eq!(creation_disposition_name(0), "Unknown");
    assert_eq!(creation_disposition_name(6), "Unknown");
}

#[test]
fn epa_file_names() {
    assert!(is_epa_file_name(b"data/voice.epa"));
    assert!(is_epa_file_name(b"DATA.EPA"));
    assert!(is_epa_file_name(b".epa"));
    assert!(!is_epa_file_name(b"epa"));
    assert!(!is_epa_file_name(b"file.epA"));
    assert!(!is_epa_file_name(b"file.txt"));
    assert!(!is_epa_file_name(b""));
    assert!(!is_epa_file_name(b"epafile"));
}
