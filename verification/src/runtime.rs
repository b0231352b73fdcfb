use vstd::prelude::*;

use crate::errors::EngineError;
use crate::intercept::{jump_code, InterceptHandle, JUMP_LEN};
use crate::lifecycle::{
    spec_present, spec_reset, DeviceLifecycleCoordinator, PresentAction, PresentEnv,
};
use crate::mem::{spec_write_bytes, MemoryImage};
use crate::patch::{
    region_len, spec_regions_disjoint, spec_regions_ok, write_all, PatchSet,
};
use crate::registry::{HookRegistry, RegistryItem};

verus! {

/// The process-wide engine state: the registry owning every hook and patch,
/// and the device-lifecycle coordinator.
///
/// One value of this type is created at attach time and drives every
/// callback; the host serializes access to it (a single coarse lock around
/// all callbacks), so the methods here see it exclusively.
pub struct SharedRuntimeContext {
    registry: HookRegistry,
    coordinator: DeviceLifecycleCoordinator,
}

impl SharedRuntimeContext {
    pub closed spec fn reg(&self) -> HookRegistry {
        self.registry
    }

    pub closed spec fn coord(&self) -> DeviceLifecycleCoordinator {
        self.coordinator
    }

    pub open spec fn wf(&self) -> bool {
        self.reg().wf() && self.coord().wf()
    }

    /// A fresh context: empty registry, coordinator before any device
    /// event.
    pub fn new() -> (r: SharedRuntimeContext)
        ensures
            r.wf(),
            r.reg().entries().len() == 0,
            r.coord() == crate::lifecycle::initial_coordinator(),
    {
        SharedRuntimeContext {
            registry: HookRegistry::new(),
            coordinator: DeviceLifecycleCoordinator::new(),
        }
    }

    /// The registry, for lookups.
    pub fn registry(&self) -> (r: &HookRegistry)
        ensures
            *r == self.reg(),
    {
        &self.registry
    }

    /// The coordinator, for state queries.
    pub fn coordinator(&self) -> (r: &DeviceLifecycleCoordinator)
        ensures
            *r == self.coord(),
    {
        &self.coordinator
    }

    /// Install a trampoline hook at `offset` from the image base, register
    /// it under `name`, and enable it. On success the returned index
    /// identifies the registration and the divert sequence stands in
    /// memory; on any failure neither the registry nor memory is changed.
    pub fn install_function_hook(
        &mut self,
        mem: &mut MemoryImage,
        name: String,
        offset: usize,
        callback: usize,
    ) -> (r: Result<usize, EngineError>)
        requires
            old(self).wf(),
            old(mem).wf(),
            old(mem).base_addr() + old(mem).size() <= 0x1_0000_0000,
            callback < 0x1_0000_0000,
        ensures
            final(self).wf(),
            final(mem).wf(),
            final(mem).base_addr() == old(mem).base_addr(),
            final(mem).wmask() == old(mem).wmask(),
            final(mem).size() == old(mem).size(),
            final(self).coord() == old(self).coord(),
            (r == Err::<usize, EngineError>(EngineError::InvalidAddress)) <==> offset + JUMP_LEN
                > old(mem).size(),
            (r == Err::<usize, EngineError>(EngineError::MemoryProtectionFailed)) <==> (offset
                + JUMP_LEN <= old(mem).size() && !old(mem).range_writable(
                old(mem).base_addr() + offset,
                JUMP_LEN as int,
            )),
            (r == Err::<usize, EngineError>(EngineError::DuplicateName)) <==> (offset + JUMP_LEN
                <= old(mem).size() && old(mem).range_writable(
                old(mem).base_addr() + offset,
                JUMP_LEN as int,
            ) && old(self).reg().has_name(name@)),
            (r == Err::<usize, EngineError>(EngineError::AddressAlreadyHooked)) <==> (offset
                + JUMP_LEN <= old(mem).size() && old(mem).range_writable(
                old(mem).base_addr() + offset,
                JUMP_LEN as int,
            ) && !old(self).reg().has_name(name@) && old(self).reg().conflicts_with_span(
                old(mem).base_addr() + offset,
                JUMP_LEN as int,
            )),
            r is Ok <==> (offset + JUMP_LEN <= old(mem).size() && old(mem).range_writable(
                old(mem).base_addr() + offset,
                JUMP_LEN as int,
            ) && !old(self).reg().has_name(name@) && !old(self).reg().conflicts_with_span(
                old(mem).base_addr() + offset,
                JUMP_LEN as int,
            )),
            r is Err ==> final(self).reg().entries() == old(self).reg().entries() && final(mem).contents() == old(mem).contents(),
            r matches Ok(idx) ==> {
                &&& idx == old(self).reg().entries().len()
                &&& final(self).reg().entries().len() == idx + 1
                &&& forall|j: int|
                    0 <= j < idx ==> final(self).reg().entries()[j] == old(self).reg().entries()[j]
                &&& final(self).reg().entries()[idx as int].name@ == name@
                &&& final(self).reg().is_hook_at(idx as int)
                &&& final(self).reg().hook_at(idx as int).target_addr() == old(mem).base_addr()
                    + offset
                &&& final(self).reg().hook_at(idx as int).callback_addr() == callback
                &&& final(self).reg().hook_at(idx as int).diverting()
                &&& final(self).reg().hook_at(idx as int).original_code() == old(mem).contents().subrange(offset as int, offset + JUMP_LEN)
                &&& final(mem).contents() == spec_write_bytes(
                    old(mem).contents(),
                    offset as int,
                    jump_code(old(mem).base_addr() + offset, callback as int),
                )
            },
    {
        let size = mem.len();
        if JUMP_LEN > size || offset > size - JUMP_LEN {
            return Err(EngineError::InvalidAddress);
        }
        let target = mem.base() + offset;
        let h = match InterceptHandle::install(mem, target, callback) {
            Ok(h) => h,
            Err(e) => {
                return Err(e);
            },
        };
        proof {
            self.registry.lemma_conflicts_intercept(h);
        }
        let idx = self.registry.len();
        match self.registry.register(name, RegistryItem::Intercept(h)) {
            Ok(()) => {},
            Err(e) => {
                return Err(e);
            },
        }
        match self.registry.enable_hook(mem, idx) {
            Ok(()) => Ok(idx),
            Err(e) => Err(e),
        }
    }

    /// Build a patch set over `mem` and register it under `name`; the
    /// returned index is the patch identifier for later toggles. Original
    /// bytes are captured now; memory itself is never modified here, and on
    /// any failure the registry is unchanged.
    pub fn install_patch(
        &mut self,
        mem: &MemoryImage,
        name: String,
        specs: &Vec<(usize, Vec<u8>)>,
    ) -> (r: Result<usize, EngineError>)
        requires
            old(self).wf(),
            mem.wf(),
        ensures
            final(self).wf(),
            final(self).coord() == old(self).coord(),
            (r == Err::<usize, EngineError>(EngineError::InvalidAddress)) <==> !spec_regions_ok(
                mem,
                specs@,
            ),
            (r == Err::<usize, EngineError>(EngineError::DuplicateAddress)) <==> (spec_regions_ok(
                mem,
                specs@,
            ) && (!spec_regions_disjoint(specs@) || (spec_regions_disjoint(specs@) && !old(self).reg().has_name(name@) && spec_conflicts_specs(&old(self).reg(), specs@)))),
            (r == Err::<usize, EngineError>(EngineError::DuplicateName)) <==> (spec_regions_ok(
                mem,
                specs@,
            ) && spec_regions_disjoint(specs@) && old(self).reg().has_name(name@)),
            r is Ok <==> (spec_regions_ok(mem, specs@) && spec_regions_disjoint(specs@) && !old(self).reg().has_name(name@) && !spec_conflicts_specs(&old(self).reg(), specs@)),
            r is Err ==> final(self).reg().entries() == old(self).reg().entries(),
            r matches Ok(idx) ==> {
                &&& idx == old(self).reg().entries().len()
                &&& final(self).reg().entries().len() == idx + 1
                &&& forall|j: int|
                    0 <= j < idx ==> final(self).reg().entries()[j] == old(self).reg().entries()[j]
                &&& final(self).reg().entries()[idx as int].name@ == name@
                &&& final(self).reg().is_patch_at(idx as int)
                &&& !final(self).reg().patch_at(idx as int).applied()
                &&& final(self).reg().patch_at(idx as int).in_image(mem)
                &&& final(self).reg().patch_at(idx as int).regions().len() == specs@.len()
                &&& forall|k: int|
                    0 <= k < specs@.len() ==> {
                        &&& (#[trigger] final(self).reg().patch_at(idx as int).regions()[k]).addr
                            == specs@[k].0
                        &&& final(self).reg().patch_at(idx as int).regions()[k].replacement@
                            == specs@[k].1@
                        &&& final(self).reg().patch_at(idx as int).regions()[k].original@
                            == mem.contents().subrange(
                            specs@[k].0 - mem.base_addr(),
                            specs@[k].0 - mem.base_addr() + specs@[k].1@.len(),
                        )
                    }
            },
    {
        let p = match PatchSet::new(mem, specs) {
            Ok(p) => p,
            Err(e) => {
                return Err(e);
            },
        };
        proof {
            self.registry.lemma_conflicts_patch(p);
            lemma_specs_conflict_equiv(&self.registry, p, specs@);
        }
        let idx = self.registry.len();
        match self.registry.register(name, RegistryItem::Patch(p)) {
            Ok(()) => Ok(idx),
            Err(e) => Err(e),
        }
    }

    /// Apply or revert the registered patch `id` as one atomic unit; see
    /// [`crate::registry::HookRegistry::toggle_patch`], whose contract this
    /// forwards.
    pub fn toggle_patch(&mut self, mem: &mut MemoryImage, id: usize, enable: bool) -> (r: Result<
        (),
        EngineError,
    >)
        requires
            old(self).wf(),
            old(mem).wf(),
            old(self).reg().is_patch_at(id as int) ==> old(self).reg().patch_at(
                id as int,
            ).in_image(old(mem)),
        ensures
            final(self).wf(),
            final(mem).wf(),
            final(mem).base_addr() == old(mem).base_addr(),
            final(mem).wmask() == old(mem).wmask(),
            final(mem).size() == old(mem).size(),
            final(self).coord() == old(self).coord(),
            (r == Err::<(), EngineError>(EngineError::NotFound)) <==> !old(self).reg().is_patch_at(
                id as int,
            ),
            !old(self).reg().is_patch_at(id as int) ==> final(self).reg().entries() == old(self).reg().entries() && final(mem).contents() == old(mem).contents(),
            old(self).reg().is_patch_at(id as int) ==> {
                &&& final(self).reg().entries().len() == old(self).reg().entries().len()
                &&& forall|j: int|
                    0 <= j < old(self).reg().entries().len() && j != id ==> final(self).reg().entries()[j] == old(self).reg().entries()[j]
                &&& final(self).reg().is_patch_at(id as int)
                &&& final(self).reg().patch_at(id as int).regions() == old(self).reg().patch_at(
                    id as int,
                ).regions()
                &&& (r is Ok <==> (enable == old(self).reg().patch_at(id as int).applied()
                    || crate::patch::regions_writable(
                    old(self).reg().patch_at(id as int).regions(),
                    old(mem),
                )))
                &&& (r is Err ==> r == Err::<(), EngineError>(EngineError::PartialPatchFailure)
                    && final(mem).contents() == old(mem).contents() && final(self).reg().patch_at(id as int).applied() == old(self).reg().patch_at(
                    id as int,
                ).applied())
                &&& (enable == old(self).reg().patch_at(id as int).applied() ==> final(mem).contents() == old(mem).contents() && final(self).reg().patch_at(id as int).applied()
                    == old(self).reg().patch_at(id as int).applied())
                &&& (enable != old(self).reg().patch_at(id as int).applied() && r is Ok ==> final(self).reg().patch_at(id as int).applied() == enable && final(mem).contents()
                    == write_all(
                    old(mem).contents(),
                    old(mem).base_addr(),
                    old(self).reg().patch_at(id as int).regions(),
                    enable,
                ))
            },
    {
        self.registry.toggle_patch(mem, id, enable)
    }

    /// Drive the per-frame entry point; see
    /// [`DeviceLifecycleCoordinator::on_present`], whose contract this
    /// forwards. The registry is untouched.
    pub fn on_present(&mut self, device: usize, env: PresentEnv) -> (r: PresentAction)
        requires
            old(self).wf(),
        ensures
            final(self).wf(),
            final(self).reg() == old(self).reg(),
            final(self).coord() == spec_present(old(self).coord(), device, env).0,
            r == spec_present(old(self).coord(), device, env).1,
            old(self).coord().handle_mismatch(device) ==> final(self).coord() == old(self).coord() && !r.draw && r.failure == Some(EngineError::UnexpectedDeviceHandleChange),
            !old(self).coord().handle_mismatch(device) ==> final(self).coord().captured_device()
                == Some(device) && final(self).coord().window_hook_res() == (if old(self).coord().phase() is RendererReady && old(self).coord().window_hook_res() is None
                && env.output_window is Some && env.window_hook_installed {
                env.output_window
            } else {
                old(self).coord().window_hook_res()
            }),
            !old(self).coord().handle_mismatch(device) && old(self).coord().phase()
                is Uninitialized ==> final(self).coord().phase() is DeviceCaptured && !r.draw
                && r.failure is None,
            !old(self).coord().handle_mismatch(device) && old(self).coord().phase()
                is DeviceCaptured ==> (match env.renderer_built {
                Some(renderer) => final(self).coord().phase() is RendererReady && final(self).coord().renderer_res() == Some(renderer) && !r.draw && r.failure is None,
                None => final(self).coord() == old(self).coord() && !r.draw && r.failure == Some(
                    EngineError::RendererConstructionFailed,
                ),
            }),
            !old(self).coord().handle_mismatch(device) && old(self).coord().phase()
                is RendererReady ==> (if old(self).coord().window_hook_res() is Some {
                final(self).coord().phase() is WindowHooked && final(self).coord().renderer_res()
                    == old(self).coord().renderer_res() && r.draw && r.failure is None
            } else {
                match env.output_window {
                    Some(w) => {
                        if env.window_hook_installed {
                            final(self).coord().phase() is WindowHooked && final(self).coord().window_hook_res() == Some(w) && r.draw && r.failure is None
                        } else {
                            final(self).coord() == old(self).coord() && !r.draw && r.failure
                                == Some(EngineError::WindowHookInstallFailed)
                        }
                    },
                    None => final(self).coord() == old(self).coord() && !r.draw && r.failure
                        == Some(EngineError::OutputSurfaceUnavailable),
                }
            }),
            !old(self).coord().handle_mismatch(device) && old(self).coord().phase()
                is WindowHooked ==> final(self).coord() == old(self).coord() && r.draw
                && r.failure is None,
    {
        self.coordinator.on_present(device, env)
    }

    /// Drive the device-reset entry point; see
    /// [`DeviceLifecycleCoordinator::on_reset`], whose contract this
    /// forwards. The registry is untouched.
    pub fn on_reset(&mut self, device: usize)
        requires
            old(self).wf(),
        ensures
            final(self).wf(),
            final(self).reg() == old(self).reg(),
            final(self).coord() == spec_reset(old(self).coord(), device),
            final(self).coord().renderer_res() is None,
            final(self).coord().window_hook_res() == old(self).coord().window_hook_res(),
            final(self).coord().captured_device() == old(self).coord().captured_device(),
            old(self).coord().phase() is RendererReady || old(self).coord().phase()
                is WindowHooked ==> final(self).coord().phase() is DeviceCaptured,
            old(self).coord().phase() is Uninitialized ==> final(self).coord().phase()
                is Uninitialized,
            old(self).coord().phase() is DeviceCaptured ==> final(self).coord() == old(self).coord(),
    {
        self.coordinator.on_reset(device)
    }
}

/// The registry name of the hook at the per-frame present entry point.
pub open spec fn present_hook_name() -> Seq<char> {
    "device_present"@
}

/// The registry name of the hook at the device-reset entry point.
pub open spec fn reset_hook_name() -> Seq<char> {
    "device_reset"@
}

impl SharedRuntimeContext {
    /// Install and enable the two hooks the lifecycle coordinator is driven
    /// by: one at `present_offset` (the per-frame call) and one at
    /// `reset_offset` (the device-reset call), registered under the names
    /// [`present_hook_name`] and [`reset_hook_name`].
    ///
    /// Setup is all-or-nothing: every failure is detected before either
    /// hook is installed, so on `Err` neither the registry nor memory has
    /// changed and the overlay subsystem simply does not start.
    pub fn attach_device_lifecycle(
        &mut self,
        mem: &mut MemoryImage,
        present_offset: usize,
        reset_offset: usize,
        present_callback: usize,
        reset_callback: usize,
    ) -> (r: Result<(), EngineError>)
        requires
            old(self).wf(),
            old(mem).wf(),
            old(mem).base_addr() + old(mem).size() <= 0x1_0000_0000,
            present_callback < 0x1_0000_0000,
            reset_callback < 0x1_0000_0000,
        ensures
            final(self).wf(),
            final(mem).wf(),
            final(mem).base_addr() == old(mem).base_addr(),
            final(mem).wmask() == old(mem).wmask(),
            final(mem).size() == old(mem).size(),
            final(self).coord() == old(self).coord(),
            (r == Err::<(), EngineError>(EngineError::InvalidAddress)) <==> (present_offset
                + JUMP_LEN > old(mem).size() || reset_offset + JUMP_LEN > old(mem).size()),
            (r == Err::<(), EngineError>(EngineError::MemoryProtectionFailed)) <==> (
            present_offset + JUMP_LEN <= old(mem).size() && reset_offset + JUMP_LEN <= old(mem).size() && (!old(mem).range_writable(
                old(mem).base_addr() + present_offset,
                JUMP_LEN as int,
            ) || !old(mem).range_writable(
                old(mem).base_addr() + reset_offset,
                JUMP_LEN as int,
            ))),
            (r == Err::<(), EngineError>(EngineError::DuplicateName)) <==> (present_offset
                + JUMP_LEN <= old(mem).size() && reset_offset + JUMP_LEN <= old(mem).size()
                && old(mem).range_writable(
                old(mem).base_addr() + present_offset,
                JUMP_LEN as int,
            ) && old(mem).range_writable(old(mem).base_addr() + reset_offset, JUMP_LEN as int)
                && (old(self).reg().has_name(present_hook_name()) || old(self).reg().has_name(
                reset_hook_name(),
            ))),
            (r == Err::<(), EngineError>(EngineError::AddressAlreadyHooked)) <==> (present_offset
                + JUMP_LEN <= old(mem).size() && reset_offset + JUMP_LEN <= old(mem).size()
                && old(mem).range_writable(
                old(mem).base_addr() + present_offset,
                JUMP_LEN as int,
            ) && old(mem).range_writable(old(mem).base_addr() + reset_offset, JUMP_LEN as int)
                && !old(self).reg().has_name(present_hook_name()) && !old(self).reg().has_name(
                reset_hook_name(),
            ) && (!crate::patch::ranges_disjoint(
                old(mem).base_addr() + present_offset,
                JUMP_LEN as int,
                old(mem).base_addr() + reset_offset,
                JUMP_LEN as int,
            ) || old(self).reg().conflicts_with_span(
                old(mem).base_addr() + present_offset,
                JUMP_LEN as int,
            ) || old(self).reg().conflicts_with_span(
                old(mem).base_addr() + reset_offset,
                JUMP_LEN as int,
            ))),
            r is Ok <==> (present_offset + JUMP_LEN <= old(mem).size() && reset_offset + JUMP_LEN
                <= old(mem).size() && old(mem).range_writable(
                old(mem).base_addr() + present_offset,
                JUMP_LEN as int,
            ) && old(mem).range_writable(old(mem).base_addr() + reset_offset, JUMP_LEN as int)
                && !old(self).reg().has_name(present_hook_name()) && !old(self).reg().has_name(
                reset_hook_name(),
            ) && crate::patch::ranges_disjoint(
                old(mem).base_addr() + present_offset,
                JUMP_LEN as int,
                old(mem).base_addr() + reset_offset,
                JUMP_LEN as int,
            ) && !old(self).reg().conflicts_with_span(
                old(mem).base_addr() + present_offset,
                JUMP_LEN as int,
            ) && !old(self).reg().conflicts_with_span(
                old(mem).base_addr() + reset_offset,
                JUMP_LEN as int,
            )),
            r is Err ==> final(self).reg().entries() == old(self).reg().entries() && final(mem).contents() == old(mem).contents(),
            r is Ok ==> {
                &&& final(self).reg().entries().len() == old(self).reg().entries().len() + 2
                &&& forall|j: int|
                    0 <= j < old(self).reg().entries().len() ==> final(self).reg().entries()[j]
                        == old(self).reg().entries()[j]
                &&& final(self).reg().is_hook_at(old(self).reg().entries().len() as int)
                &&& final(self).reg().is_hook_at((old(self).reg().entries().len() + 1) as int)
                &&& final(self).reg().entries()[old(self).reg().entries().len() as int].name@
                    == present_hook_name()
                &&& final(self).reg().entries()[(old(self).reg().entries().len() + 1) as int].name@
                    == reset_hook_name()
                &&& final(self).reg().hook_at(
                    old(self).reg().entries().len() as int,
                ).target_addr() == old(mem).base_addr() + present_offset
                &&& final(self).reg().hook_at(
                    old(self).reg().entries().len() as int,
                ).callback_addr() == present_callback
                &&& final(self).reg().hook_at(old(self).reg().entries().len() as int).diverting()
                &&& final(self).reg().hook_at((old(self).reg().entries().len() + 1) as int).target_addr()
                    == old(mem).base_addr() + reset_offset
                &&& final(self).reg().hook_at(
                    (old(self).reg().entries().len() + 1) as int,
                ).callback_addr() == reset_callback
                &&& final(self).reg().hook_at((old(self).reg().entries().len() + 1) as int).diverting()
                &&& final(mem).contents() == spec_write_bytes(
                    spec_write_bytes(
                        old(mem).contents(),
                        present_offset as int,
                        jump_code(old(mem).base_addr() + present_offset, present_callback as int),
                    ),
                    reset_offset as int,
                    jump_code(old(mem).base_addr() + reset_offset, reset_callback as int),
                )
            },
    {
        let size = mem.len();
        if JUMP_LEN > size || present_offset > size - JUMP_LEN || reset_offset > size
            - JUMP_LEN {
            return Err(EngineError::InvalidAddress);
        }
        let t1 = mem.base() + present_offset;
        let t2 = mem.base() + reset_offset;
        if !mem.is_range_writable(t1, JUMP_LEN) || !mem.is_range_writable(t2, JUMP_LEN) {
            return Err(EngineError::MemoryProtectionFailed);
        }
        let name1 = String::from_str("device_present");
        let name2 = String::from_str("device_reset");
        if self.registry.name_taken(&name1) || self.registry.name_taken(&name2) {
            return Err(EngineError::DuplicateName);
        }
        if !(t1 + JUMP_LEN <= t2 || t2 + JUMP_LEN <= t1) {
            return Err(EngineError::AddressAlreadyHooked);
        }
        if self.registry.conflicts_span(t1, JUMP_LEN) || self.registry.conflicts_span(
            t2,
            JUMP_LEN,
        ) {
            return Err(EngineError::AddressAlreadyHooked);
        }
        let ghost mid_entries_len = self.reg().entries().len();
        let idx1 = match self.install_function_hook(mem, name1, present_offset, present_callback) {
            Ok(idx) => idx,
            Err(e) => {
                return Err(e);
            },
        };
        proof {
            reveal_strlit("device_present");
            reveal_strlit("device_reset");
            assert(present_hook_name().len() == 14);
            assert(reset_hook_name().len() == 12);
            assert(present_hook_name() != reset_hook_name());
            assert(!self.reg().has_name(reset_hook_name())) by {
                if self.reg().has_name(reset_hook_name()) {
                    let k = choose|k: int|
                        0 <= k < self.reg().entries().len() && (#[trigger] self.reg().entries()[k]).name@ == reset_hook_name();
                    if k < idx1 {
                        assert(old(self).reg().entries()[k].name@ == reset_hook_name());
                    }
                }
            }
            assert(!self.reg().conflicts_with_span(t2 as int, JUMP_LEN as int)) by {
                if self.reg().conflicts_with_span(t2 as int, JUMP_LEN as int) {
                    let k = choose|k: int|
                        0 <= k < self.reg().entries().len() && crate::registry::span_overlaps_item(
                            (#[trigger] self.reg().entries()[k]).item,
                            t2 as int,
                            JUMP_LEN as int,
                        );
                    if k < idx1 {
                        assert(old(self).reg().conflicts_with_span(t2 as int, JUMP_LEN as int));
                    } else {
                        let h1 = self.reg().hook_at(idx1 as int);
                        assert(self.reg().entries()[k].item == RegistryItem::Intercept(h1));
                        assert(crate::registry::item_ranges(RegistryItem::Intercept(h1)) =~= seq![
                            (h1.target_addr(), JUMP_LEN as int),
                        ]);
                        let x = choose|x: int|
                            0 <= x < crate::registry::item_ranges(
                                RegistryItem::Intercept(h1),
                            ).len() && !crate::patch::ranges_disjoint(
                                (#[trigger] crate::registry::item_ranges(
                                    RegistryItem::Intercept(h1),
                                )[x]).0,
                                crate::registry::item_ranges(RegistryItem::Intercept(h1))[x].1,
                                t2 as int,
                                JUMP_LEN as int,
                            );
                        assert(x == 0);
                    }
                }
            }
            assert(mem.range_writable(t2 as int, JUMP_LEN as int));
        }
        match self.install_function_hook(mem, name2, reset_offset, reset_callback) {
            Ok(_) => Ok(()),
            Err(e) => Err(e),
        }
    }
}

/// Some requested patch region overlaps an existing registration.
pub open spec fn spec_conflicts_specs(
    reg: &HookRegistry,
    specs: Seq<(usize, Vec<u8>)>,
) -> bool {
    exists|y: int|
        0 <= y < specs.len() && reg.conflicts_with_span(
            (#[trigger] specs[y]).0 as int,
            specs[y].1@.len() as int,
        )
}

/// The conflict test over a built patch set agrees with the one over the
/// requested regions it was built from.
proof fn lemma_specs_conflict_equiv(reg: &HookRegistry, p: PatchSet, specs: Seq<(usize, Vec<u8>)>)
    requires
        p.regions().len() == specs.len(),
        forall|k: int|
            0 <= k < specs.len() ==> (#[trigger] p.regions()[k]).addr == specs[k].0
                && p.regions()[k].replacement@ == specs[k].1@ && p.regions()[k].original@.len()
                == p.regions()[k].replacement@.len(),
    ensures
        (exists|y: int|
            0 <= y < p.regions().len() && reg.conflicts_with_span(
                (#[trigger] p.regions()[y]).addr as int,
                region_len(p.regions()[y]),
            )) == spec_conflicts_specs(reg, specs),
{
    if exists|y: int|
        0 <= y < p.regions().len() && reg.conflicts_with_span(
            (#[trigger] p.regions()[y]).addr as int,
            region_len(p.regions()[y]),
        ) {
        let y = choose|y: int|
            0 <= y < p.regions().len() && reg.conflicts_with_span(
                (#[trigger] p.regions()[y]).addr as int,
                region_len(p.regions()[y]),
            );
        assert(reg.conflicts_with_span(specs[y].0 as int, specs[y].1@.len() as int));
    }
    if spec_conflicts_specs(reg, specs) {
        let y = choose|y: int|
            0 <= y < specs.len() && reg.conflicts_with_span(
                (#[trigger] specs[y]).0 as int,
                specs[y].1@.len() as int,
            );
        assert(reg.conflicts_with_span(
            p.regions()[y].addr as int,
            region_len(p.regions()[y]),
        ));
    }
}

} // verus!
