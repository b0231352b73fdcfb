use vstd::prelude::*;

use crate::errors::EngineError;

verus! {

/// The coordinator's position in the resource-acquisition ladder.
#[derive(Clone, Copy, PartialEq, Eq, Structural, Debug)]
pub enum DeviceState {
    Uninitialized,
    DeviceCaptured,
    RendererReady,
    WindowHooked,
}

/// What the host's fallible per-frame steps yielded this present call.
///
/// The coordinator decides from its state which of these it consumes; the
/// host performs the outside work (constructing a renderer against the
/// device, querying the device's native output window, installing the
/// window's message hook) and reports the outcomes here as plain values.
#[derive(Clone, Copy, Debug)]
pub struct PresentEnv {
    /// The renderer resource a construction attempt against the device
    /// produced, if it succeeded.
    pub renderer_built: Option<usize>,
    /// The native output window the device reports, if any.
    pub output_window: Option<usize>,
    /// Whether installing the output window's message hook succeeded.
    pub window_hook_installed: bool,
}

/// What the host must do for the rest of this present call. The original
/// call is always invoked afterwards, whatever this says.
#[derive(Clone, Copy, Debug)]
pub struct PresentAction {
    /// Drive one overlay frame through the draw callback and submit it via
    /// the renderer before invoking the original call. A failure there is
    /// logged and swallowed, never propagated.
    pub draw: bool,
    /// The per-frame failure to log, if any; recovery is simply retrying on
    /// the next call.
    pub failure: Option<EngineError>,
}

/// One observable event at the coordinator's two entry points; the unit the
/// trace lemmas below quantify over.
#[derive(Clone, Copy, Debug)]
pub enum DeviceEvent {
    Present(usize, PresentEnv),
    Reset(usize),
}

/// State machine driving the overlay's dependent resources from the two
/// intercepted device-management calls.
///
/// The device handle is captured once on the first present call and never
/// silently replaced. The renderer is (re)built against it and dropped on
/// every reset; the window hook, once installed, survives resets because
/// the native window outlives the device's GPU-side resources. Every
/// fallible step degrades to "no overlay this frame": the host always
/// invokes the original call.
pub struct DeviceLifecycleCoordinator {
    state: DeviceState,
    device: Option<usize>,
    renderer: Option<usize>,
    window_hook: Option<usize>,
}

impl DeviceLifecycleCoordinator {
    pub closed spec fn phase(&self) -> DeviceState {
        self.state
    }

    /// The device handle captured by the first present call.
    pub closed spec fn captured_device(&self) -> Option<usize> {
        self.device
    }

    /// The renderer resource, present exactly in `RendererReady` and
    /// `WindowHooked`.
    pub closed spec fn renderer_res(&self) -> Option<usize> {
        self.renderer
    }

    /// The output-surface hook resource; persists once installed.
    pub closed spec fn window_hook_res(&self) -> Option<usize> {
        self.window_hook
    }

    pub open spec fn wf(&self) -> bool {
        &&& (self.phase() is Uninitialized ==> self.captured_device() is None
            && self.renderer_res() is None && self.window_hook_res() is None)
        &&& (self.phase() is DeviceCaptured ==> self.captured_device() is Some
            && self.renderer_res() is None)
        &&& (self.phase() is RendererReady ==> self.captured_device() is Some
            && self.renderer_res() is Some)
        &&& (self.phase() is WindowHooked ==> self.captured_device() is Some
            && self.renderer_res() is Some && self.window_hook_res() is Some)
    }

    /// A present or reset call carries a device handle other than the
    /// captured one: a protocol violation, ignored and reported.
    pub open spec fn handle_mismatch(&self, device: usize) -> bool {
        self.captured_device() is Some && self.captured_device() != Some(device)
    }
}

/// The coordinator a fresh attach starts from.
pub closed spec fn initial_coordinator() -> DeviceLifecycleCoordinator {
    DeviceLifecycleCoordinator {
        state: DeviceState::Uninitialized,
        device: None,
        renderer: None,
        window_hook: None,
    }
}

/// The state and action one present call produces.
pub closed spec fn spec_present(
    c: DeviceLifecycleCoordinator,
    device: usize,
    env: PresentEnv,
) -> (DeviceLifecycleCoordinator, PresentAction) {
    if c.handle_mismatch(device) {
        (
            c,
            PresentAction {
                draw: false,
                failure: Some(EngineError::UnexpectedDeviceHandleChange),
            },
        )
    } else {
        match c.state {
            DeviceState::Uninitialized => (
                DeviceLifecycleCoordinator {
                    state: DeviceState::DeviceCaptured,
                    device: Some(device),
                    renderer: c.renderer,
                    window_hook: c.window_hook,
                },
                PresentAction { draw: false, failure: None },
            ),
            DeviceState::DeviceCaptured => match env.renderer_built {
                Some(r) => (
                    DeviceLifecycleCoordinator {
                        state: DeviceState::RendererReady,
                        device: c.device,
                        renderer: Some(r),
                        window_hook: c.window_hook,
                    },
                    PresentAction { draw: false, failure: None },
                ),
                None => (
                    c,
                    PresentAction {
                        draw: false,
                        failure: Some(EngineError::RendererConstructionFailed),
                    },
                ),
            },
            DeviceState::RendererReady => {
                if c.window_hook is Some {
                    (
                        DeviceLifecycleCoordinator {
                            state: DeviceState::WindowHooked,
                            device: c.device,
                            renderer: c.renderer,
                            window_hook: c.window_hook,
                        },
                        PresentAction { draw: true, failure: None },
                    )
                } else {
                    match env.output_window {
                        Some(w) => {
                            if env.window_hook_installed {
                                (
                                    DeviceLifecycleCoordinator {
                                        state: DeviceState::WindowHooked,
                                        device: c.device,
                                        renderer: c.renderer,
                                        window_hook: Some(w),
                                    },
                                    PresentAction { draw: true, failure: None },
                                )
                            } else {
                                (
                                    c,
                                    PresentAction {
                                        draw: false,
                                        failure: Some(EngineError::WindowHookInstallFailed),
                                    },
                                )
                            }
                        },
                        None => (
                            c,
                            PresentAction {
                                draw: false,
                                failure: Some(EngineError::OutputSurfaceUnavailable),
                            },
                        ),
                    }
                }
            },
            DeviceState::WindowHooked => (c, PresentAction { draw: true, failure: None }),
        }
    }
}

/// The state one reset call leaves behind: the renderer is dropped
/// unconditionally, the window hook and the captured device are kept.
pub closed spec fn spec_reset(
    c: DeviceLifecycleCoordinator,
    device: usize,
) -> DeviceLifecycleCoordinator {
    match c.state {
        DeviceState::Uninitialized => c,
        DeviceState::DeviceCaptured => c,
        DeviceState::RendererReady | DeviceState::WindowHooked => DeviceLifecycleCoordinator {
            state: DeviceState::DeviceCaptured,
            device: c.device,
            renderer: None,
            window_hook: c.window_hook,
        },
    }
}

/// One event applied to a coordinator state.
pub open spec fn spec_step(
    c: DeviceLifecycleCoordinator,
    ev: DeviceEvent,
) -> DeviceLifecycleCoordinator {
    match ev {
        DeviceEvent::Present(d, env) => spec_present(c, d, env).0,
        DeviceEvent::Reset(d) => spec_reset(c, d),
    }
}

/// The coordinator after the first `k` events of `evs`, starting from the
/// fresh state.
pub open spec fn run(evs: Seq<DeviceEvent>, k: int) -> DeviceLifecycleCoordinator
    decreases k,
{
    if k <= 0 {
        initial_coordinator()
    } else {
        spec_step(run(evs, k - 1), evs[k - 1])
    }
}

impl DeviceLifecycleCoordinator {
    pub fn new() -> (r: DeviceLifecycleCoordinator)
        ensures
            r.wf(),
            r == initial_coordinator(),
            r.phase() is Uninitialized,
            r.captured_device() is None,
            r.renderer_res() is None,
            r.window_hook_res() is None,
    {
        DeviceLifecycleCoordinator {
            state: DeviceState::Uninitialized,
            device: None,
            renderer: None,
            window_hook: None,
        }
    }

    pub fn current_state(&self) -> (r: DeviceState)
        ensures
            r == self.phase(),
    {
        self.state
    }

    pub fn device_handle(&self) -> (r: Option<usize>)
        ensures
            r == self.captured_device(),
    {
        self.device
    }

    pub fn has_renderer(&self) -> (r: bool)
        ensures
            r == (self.renderer_res() is Some),
    {
        self.renderer.is_some()
    }

    /// The renderer resource handle, for the host to drive the overlay
    /// frame through.
    pub fn renderer_handle(&self) -> (r: Option<usize>)
        ensures
            r == self.renderer_res(),
    {
        self.renderer
    }

    /// The output-surface hook resource handle.
    pub fn window_hook_handle(&self) -> (r: Option<usize>)
        ensures
            r == self.window_hook_res(),
    {
        self.window_hook
    }

    pub fn has_window_hook(&self) -> (r: bool)
        ensures
            r == (self.window_hook_res() is Some),
    {
        self.window_hook.is_some()
    }

    /// Drive one step of the per-frame entry point.
    ///
    /// First call: capture the device, no overlay yet. While captured:
    /// consume a renderer the host built, or stay and retry. While the
    /// renderer is ready: adopt a surviving window hook, or consume the
    /// host's output window and hook installation; once hooked, draw. All
    /// failures leave the state unchanged and are reported in the action
    /// for logging only — the host invokes the original call either way.
    pub fn on_present(&mut self, device: usize, env: PresentEnv) -> (r: PresentAction)
        requires
            old(self).wf(),
        ensures
            final(self).wf(),
            *final(self) == spec_present(*old(self), device, env).0,
            r == spec_present(*old(self), device, env).1,
            old(self).handle_mismatch(device) ==> *final(self) == *old(self) && !r.draw
                && r.failure == Some(EngineError::UnexpectedDeviceHandleChange),
            !old(self).handle_mismatch(device) ==> final(self).captured_device() == Some(device)
                && final(self).window_hook_res() == (
            if old(self).phase() is RendererReady && old(self).window_hook_res() is None
                && env.output_window is Some && env.window_hook_installed {
                env.output_window
            } else {
                old(self).window_hook_res()
            }),
            !old(self).handle_mismatch(device) && old(self).phase() is Uninitialized ==> final(self).phase() is DeviceCaptured && !r.draw && r.failure is None,
            !old(self).handle_mismatch(device) && old(self).phase() is DeviceCaptured ==> (match env
                .renderer_built {
                Some(renderer) => final(self).phase() is RendererReady && final(self).renderer_res() == Some(renderer) && !r.draw && r.failure is None,
                None => *final(self) == *old(self) && !r.draw && r.failure == Some(
                    EngineError::RendererConstructionFailed,
                ),
            }),
            !old(self).handle_mismatch(device) && old(self).phase() is RendererReady ==> (if old(self).window_hook_res() is Some {
                final(self).phase() is WindowHooked && final(self).renderer_res() == old(self).renderer_res() && r.draw && r.failure is None
            } else {
                match env.output_window {
                    Some(w) => {
                        if env.window_hook_installed {
                            final(self).phase() is WindowHooked && final(self).window_hook_res()
                                == Some(w) && r.draw && r.failure is None
                        } else {
                            *final(self) == *old(self) && !r.draw && r.failure == Some(
                                EngineError::WindowHookInstallFailed,
                            )
                        }
                    },
                    None => *final(self) == *old(self) && !r.draw && r.failure == Some(
                        EngineError::OutputSurfaceUnavailable,
                    ),
                }
            }),
            !old(self).handle_mismatch(device) && old(self).phase() is WindowHooked ==> *final(self) == *old(self) && r.draw && r.failure is None,
    {
        if self.device.is_some() {
            let captured = self.device.unwrap();
            if captured != device {
                return PresentAction {
                    draw: false,
                    failure: Some(EngineError::UnexpectedDeviceHandleChange),
                };
            }
        }
        match self.state {
            DeviceState::Uninitialized => {
                self.device = Some(device);
                self.state = DeviceState::DeviceCaptured;
                PresentAction { draw: false, failure: None }
            },
            DeviceState::DeviceCaptured => match env.renderer_built {
                Some(renderer) => {
                    self.renderer = Some(renderer);
                    self.state = DeviceState::RendererReady;
                    PresentAction { draw: false, failure: None }
                },
                None => PresentAction {
                    draw: false,
                    failure: Some(EngineError::RendererConstructionFailed),
                },
            },
            DeviceState::RendererReady => {
                if self.window_hook.is_some() {
                    self.state = DeviceState::WindowHooked;
                    return PresentAction { draw: true, failure: None };
                }
                match env.output_window {
                    Some(w) => {
                        if env.window_hook_installed {
                            self.window_hook = Some(w);
                            self.state = DeviceState::WindowHooked;
                            PresentAction { draw: true, failure: None }
                        } else {
                            PresentAction {
                                draw: false,
                                failure: Some(EngineError::WindowHookInstallFailed),
                            }
                        }
                    },
                    None => PresentAction {
                        draw: false,
                        failure: Some(EngineError::OutputSurfaceUnavailable),
                    },
                }
            },
            DeviceState::WindowHooked => PresentAction { draw: true, failure: None },
        }
    }

    /// Drive the device-reset entry point: drop the renderer, keep the
    /// window hook (the native window survives a device reset, so
    /// re-hooking it would double-hook). The host invokes the original
    /// reset call afterwards.
    pub fn on_reset(&mut self, device: usize)
        requires
            old(self).wf(),
        ensures
            final(self).wf(),
            *final(self) == spec_reset(*old(self), device),
            final(self).renderer_res() is None,
            final(self).window_hook_res() == old(self).window_hook_res(),
            final(self).captured_device() == old(self).captured_device(),
            old(self).phase() is RendererReady || old(self).phase() is WindowHooked ==> final(self).phase() is DeviceCaptured,
            old(self).phase() is Uninitialized ==> final(self).phase() is Uninitialized,
            old(self).phase() is DeviceCaptured ==> *final(self) == *old(self),
    {
        let _ = device;
        match self.state {
            DeviceState::Uninitialized | DeviceState::DeviceCaptured => {},
            DeviceState::RendererReady | DeviceState::WindowHooked => {
                self.renderer = None;
                self.state = DeviceState::DeviceCaptured;
            },
        }
    }
}

/// One step keeps the coordinator well formed.
pub proof fn lemma_step_wf(c: DeviceLifecycleCoordinator, ev: DeviceEvent)
    requires
        c.wf(),
    ensures
        spec_step(c, ev).wf(),
{
}

/// Every state along a trace from the fresh coordinator is well formed.
pub proof fn lemma_run_wf(evs: Seq<DeviceEvent>, k: int)
    ensures
        run(evs, k).wf(),
    decreases k,
{
    if k > 0 {
        lemma_run_wf(evs, k - 1);
        lemma_step_wf(run(evs, k - 1), evs[k - 1]);
    }
}

/// `WindowHooked` is entered only from `RendererReady` (or kept).
pub proof fn lemma_window_hooked_predecessor(c: DeviceLifecycleCoordinator, ev: DeviceEvent)
    requires
        c.wf(),
        spec_step(c, ev).phase() is WindowHooked,
    ensures
        c.phase() is RendererReady || c.phase() is WindowHooked,
{
}

/// `RendererReady` is entered only from `DeviceCaptured` (or kept).
pub proof fn lemma_renderer_ready_predecessor(c: DeviceLifecycleCoordinator, ev: DeviceEvent)
    requires
        c.wf(),
        spec_step(c, ev).phase() is RendererReady,
    ensures
        c.phase() is DeviceCaptured || c.phase() is RendererReady,
{
}

/// A trace that stands in `RendererReady` passed through `DeviceCaptured`
/// strictly earlier.
pub proof fn lemma_renderer_ready_reachability(evs: Seq<DeviceEvent>, k: int)
    requires
        0 <= k,
        run(evs, k).phase() is RendererReady,
    ensures
        exists|j: int| 0 <= j < k && (#[trigger] run(evs, j)).phase() is DeviceCaptured,
    decreases k,
{
    assert(k > 0);
    let prev = run(evs, k - 1);
    lemma_run_wf(evs, k - 1);
    lemma_renderer_ready_predecessor(prev, evs[k - 1]);
    if prev.phase() is DeviceCaptured {
        assert(0 <= k - 1 < k && run(evs, k - 1).phase() is DeviceCaptured);
    } else {
        lemma_renderer_ready_reachability(evs, k - 1);
        let j = choose|j: int| 0 <= j < k - 1 && (#[trigger] run(evs, j)).phase()
            is DeviceCaptured;
        assert(0 <= j < k && run(evs, j).phase() is DeviceCaptured);
    }
}

/// Reachability invariant: the coordinator never stands in `WindowHooked`
/// without having passed through `DeviceCaptured` and then `RendererReady`
/// strictly earlier in the trace.
pub proof fn lemma_window_hooked_reachability(evs: Seq<DeviceEvent>, k: int)
    requires
        0 <= k,
        run(evs, k).phase() is WindowHooked,
    ensures
        exists|i: int| 0 <= i < k && (#[trigger] run(evs, i)).phase() is RendererReady,
        exists|j: int| 0 <= j < k && (#[trigger] run(evs, j)).phase() is DeviceCaptured,
    decreases k,
{
    assert(k > 0);
    let prev = run(evs, k - 1);
    lemma_run_wf(evs, k - 1);
    lemma_window_hooked_predecessor(prev, evs[k - 1]);
    if prev.phase() is RendererReady {
        assert(0 <= k - 1 < k && run(evs, k - 1).phase() is RendererReady);
        lemma_renderer_ready_reachability(evs, k - 1);
        let j = choose|j: int| 0 <= j < k - 1 && (#[trigger] run(evs, j)).phase()
            is DeviceCaptured;
        assert(0 <= j < k && run(evs, j).phase() is DeviceCaptured);
    } else {
        lemma_window_hooked_reachability(evs, k - 1);
        let i = choose|i: int| 0 <= i < k - 1 && (#[trigger] run(evs, i)).phase()
            is RendererReady;
        assert(0 <= i < k && run(evs, i).phase() is RendererReady);
        let j = choose|j: int| 0 <= j < k - 1 && (#[trigger] run(evs, j)).phase()
            is DeviceCaptured;
        assert(0 <= j < k && run(evs, j).phase() is DeviceCaptured);
    }
}

} // verus!
