//! Runtime code-interception and patch-lifecycle engine.
//!
//! The engine redirects execution at chosen addresses of a host process to
//! user-supplied callbacks, applies and reversibly removes multi-region byte
//! patches as atomic units, and coordinates a render-overlay resource whose
//! lifetime follows the host graphics device's create/loss/reset events.
//!
//! Process memory is modelled explicitly as a [`mem::MemoryImage`]: a span of
//! bytes at a base address together with a per-byte writability mask. All
//! patching logic is stated and verified against that model; the thin host
//! layer that owns real code pages performs the corresponding raw writes.

pub mod battle;
pub mod effbool;
pub mod errors;
pub mod intercept;
pub mod lifecycle;
pub mod mem;
pub mod monitor;
pub mod patch;
pub mod registry;
pub mod runtime;
