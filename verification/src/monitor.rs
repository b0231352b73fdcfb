use vstd::prelude::*;

verus! {

/// Window-message identifier for mouse movement.
pub const WM_MOUSEMOVE: u32 = 0x0200;

/// How a hook callback treats a message peeked off the host's queue.
#[derive(Clone, Copy, PartialEq, Eq, Structural, Debug)]
pub enum LoopMessageKind {
    /// No window is addressed: a thread message, reported.
    ThreadMessage,
    /// Mouse movement: too frequent to report.
    MouseMove,
    /// Any other window message, reported.
    Other,
}

pub open spec fn spec_classify_loop_message(hwnd: int, message: u32) -> LoopMessageKind {
    if hwnd == 0 {
        LoopMessageKind::ThreadMessage
    } else if message == WM_MOUSEMOVE {
        LoopMessageKind::MouseMove
    } else {
        LoopMessageKind::Other
    }
}

/// Classify one message observed inside the main or game loop: the
/// decision of what the loop hooks report.
pub fn classify_loop_message(hwnd: usize, message: u32) -> (r: LoopMessageKind)
    ensures
        r == spec_classify_loop_message(hwnd as int, message),
{
    if hwnd == 0 {
        LoopMessageKind::ThreadMessage
    } else if message == WM_MOUSEMOVE {
        LoopMessageKind::MouseMove
    } else {
        LoopMessageKind::Other
    }
}

/// Edge detector over an observed 32-bit case value: reports a value only
/// when it differs from the one reported before, so a per-frame callback
/// does not flood the log with the unchanged case.
pub struct CaseTracker {
    last: u32,
}

impl CaseTracker {
    /// The case value observed most recently (or the initial sentinel).
    pub closed spec fn last_case(&self) -> u32 {
        self.last
    }

    /// Start from `initial`, a sentinel that no real case equals, so the
    /// first observation is always reported.
    pub fn new(initial: u32) -> (r: CaseTracker)
        ensures
            r.last_case() == initial,
    {
        CaseTracker { last: initial }
    }

    /// Record `case`; true exactly when it differs from the previous one.
    pub fn observe(&mut self, case: u32) -> (changed: bool)
        ensures
            final(self).last_case() == case,
            changed == (case != old(self).last_case()),
    {
        if case == self.last {
            return false;
        }
        self.last = case;
        true
    }
}

/// The name of a case of the UI main loop's first switch.
pub open spec fn spec_ui_case_name(case: u32) -> Seq<char> {
    if case == 23 {
        "CONFIG"@
    } else if case == 24 {
        "SAVE_LOAD"@
    } else if case == 26 {
        "ESCAPE"@
    } else if case == 95 {
        "BRAVE_MODE_SSS"@
    } else if case == 96 {
        "BRAVE_MODE_CSS"@
    } else if case == 97 {
        "VS_CPU_MODE_CSS"@
    } else if case == 98 {
        "VS_CPU_MODE_SSS"@
    } else if case == 99 {
        "BATTLE"@
    } else {
        "Unknown"@
    }
}

/// Name the case the UI main loop's first switch is executing.
pub fn get_ui_main_loop_first_switch_case_name(case: u32) -> (r: &'static str)
    ensures
        r@ == spec_ui_case_name(case),
{
    match case {
        23 => "CONFIG",
        24 => "SAVE_LOAD",
        26 => "ESCAPE",
        95 => "BRAVE_MODE_SSS",
        96 => "BRAVE_MODE_CSS",
        97 => "VS_CPU_MODE_CSS",
        98 => "VS_CPU_MODE_SSS",
        99 => "BATTLE",
        _ => "Unknown",
    }
}

/// How a file-creation call describes its creation disposition.
pub open spec fn spec_creation_disposition_name(d: u32) -> Seq<char> {
    if d == 1 {
        "CREATE_NEW"@
    } else if d == 2 {
        "CREATE_ALWAYS"@
    } else if d == 3 {
        "OPEN_EXISTING"@
    } else if d == 4 {
        "OPEN_ALWAYS"@
    } else if d == 5 {
        "TRUNCATE_EXISTING"@
    } else {
        "Unknown"@
    }
}

/// Name a file-creation disposition value for the monitor log.
pub fn creation_disposition_name(d: u32) -> (r: &'static str)
    ensures
        r@ == spec_creation_disposition_name(d),
{
    match d {
        1 => "CREATE_NEW",
        2 => "CREATE_ALWAYS",
        3 => "OPEN_EXISTING",
        4 => "OPEN_ALWAYS",
        5 => "TRUNCATE_EXISTING",
        _ => "Unknown",
    }
}

/// Whether a file name (as raw bytes) ends in `.epa` or `.EPA`, the
/// archive extension the file monitor reports.
pub open spec fn spec_is_epa_name(name: Seq<u8>) -> bool {
    name.len() >= 4 && (name.subrange(name.len() - 4, name.len() as int) =~= seq![
        0x2eu8,
        0x65u8,
        0x70u8,
        0x61u8,
    ] || name.subrange(name.len() - 4, name.len() as int) =~= seq![
        0x2eu8,
        0x45u8,
        0x50u8,
        0x41u8,
    ])
}

/// Decide whether a file name observed at the file-creation hook names an
/// archive worth reporting.
pub fn is_epa_file_name(name: &[u8]) -> (r: bool)
    ensures
        r == spec_is_epa_name(name@),
{
    let n = name.len();
    if n < 4 {
        return false;
    }
    let b0 = name[n - 4];
    let b1 = name[n - 3];
    let b2 = name[n - 2];
    let b3 = name[n - 1];
    let ghost tail = name@.subrange(n - 4, n as int);
    proof {
        assert(tail.len() == 4);
        assert(tail[0] == b0 && tail[1] == b1 && tail[2] == b2 && tail[3] == b3);
    }
    let lower = b0 == 0x2e && b1 == 0x65 && b2 == 0x70 && b3 == 0x61;
    let upper = b0 == 0x2e && b1 == 0x45 && b2 == 0x50 && b3 == 0x41;
    proof {
        if lower {
            assert(tail =~= seq![0x2eu8, 0x65u8, 0x70u8, 0x61u8]);
        }
        if upper {
            assert(tail =~= seq![0x2eu8, 0x45u8, 0x50u8, 0x41u8]);
        }
        if !lower && !upper {
            assert(!(tail =~= seq![0x2eu8, 0x65u8, 0x70u8, 0x61u8]));
            assert(!(tail =~= seq![0x2eu8, 0x45u8, 0x50u8, 0x41u8]));
        }
    }
    lower || upper
}

} // verus!
