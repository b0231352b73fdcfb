use vstd::prelude::*;

verus! {

/// Every way an engine operation can fail.
///
/// Setup-time failures (hook installation, patch construction, registration)
/// are surfaced to the caller; per-frame failures are carried inside a
/// [`crate::lifecycle::PresentAction`] so the host can log them and still
/// invoke the original call.
#[derive(Clone, Copy, PartialEq, Eq, Structural, Debug)]
pub enum EngineError {
    /// The target address is already intercepted by a registered hook.
    AddressAlreadyHooked,
    /// The registry already holds an entry under this name.
    DuplicateName,
    /// A registered item's byte range collides with the new one.
    DuplicateAddress,
    /// The address range is not mapped inside the memory image.
    InvalidAddress,
    /// The code region cannot be made writable.
    MemoryProtectionFailed,
    /// A multi-region toggle could not be completed as one atomic unit;
    /// no region was left modified.
    PartialPatchFailure,
    /// The per-frame renderer construction attempt did not produce a renderer.
    RendererConstructionFailed,
    /// The device reported no native output window this frame.
    OutputSurfaceUnavailable,
    /// The output window's message hook could not be installed.
    WindowHookInstallFailed,
    /// A present or reset call arrived with a device handle other than the
    /// one captured first; the event is ignored, never silently adopted.
    UnexpectedDeviceHandleChange,
    /// No registered item answers to the given name or identifier.
    NotFound,
}

} // verus!
