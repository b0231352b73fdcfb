use sbx_tool_core::errors::EngineError;
use sbx_tool_core::lifecycle::{DeviceLifecycleCoordinator, DeviceState, PresentEnv};

const DEVICE: usize = 0x1234_5678;
const WINDOW: usize = 0x0009_0001;
const RENDERER: usize = 0x0007_0001;

fn env(renderer: Option<usize>, window: Option<usize>, hook_ok: bool) -> PresentEnv {
    PresentEnv { renderer_built: renderer, output_window: window, window_hook_installed: hook_ok }
}

#[test]
fn full_acquisition_scenario() {
    let mut c = DeviceLifecycleCoordinator::new();
    assert_eq!(c.current_state(), DeviceState::Uninitialized);

    // first present: the device is captured, nothing is drawn yet
    let a = c.on_present(DEVICE, env(Some(RENDERER), Some(WINDOW), true));
    assert_eq!(c.current_state(), DeviceState::DeviceCaptured);
    assert_eq!(c.device_handle(), Some(DEVICE));
    assert!(!a.draw);

    // second present with renderer construction succeeding
    let a = c.on_present(DEVICE, env(Some(RENDERER), Some(WINDOW), true));
    assert_eq!(c.current_state(), DeviceState::RendererReady);
    assert!(c.has_renderer());
    assert!(!a.draw);

    // subsequent present with the output surface available: hook and draw
    let a = c.on_present(DEVICE, env(None, Some(WINDOW), true));
    assert_eq!(c.current_state(), DeviceState::WindowHooked);
    assert!(c.has_window_hook());
    assert!(a.draw);

    // reset: renderer gone, window hook still installed
    c.on_reset(DEVICE);
    assert_eq!(c.current_state(), DeviceState::DeviceCaptured);
    assert!(!c.has_renderer());
    assert!(c.has_window_hook());
}

#[test]
fn renderer_failure_is_retried_next_frame() {
    let mut c = DeviceLifecycleCoordinator::new();
    c.on_present(DEVICE, env(None, None, false));
    assert_eq!(c.current_state(), DeviceState::DeviceCaptured);

    let a = c.on_present(DEVICE, env(None, None, false));
    assert_eq!(c.current_state(), DeviceState::DeviceCaptured);
    assert!(!a.draw);
    assert_eq!(a.failure, Some(EngineError::RendererConstructionFailed));

    let a = c.on_present(DEVICE, env(Some(RENDERER), None, false));
    assert_eq!(c.current_state(), DeviceState::RendererReady);
    assert!(a.failure.is_none());
}

#[test]
fn missing_output_surface_is_retried() {
    let mut c = DeviceLifecycleCoordinator::new();
    c.on_present(DEVICE, env(None, None, false));
    c.on_present(DEVICE, env(Some(RENDERER), None, false));
    let a = c.on_present(DEVICE, env(None, None, false));
    assert_eq!(c.current_state(), DeviceState::RendererReady);
    assert!(!a.draw);
    assert_eq!(a.failure, Some(EngineError::OutputSurfaceUnavailable));
}

#[test]
fn window_hook_install_failure_is_retried() {
    let mut c = DeviceLifecycleCoordinator::new();
    c.on_present(DEVICE, env(None, None, false));
    c.on_present(DEVICE, env(Some(RENDERER), None, false));
    let a = c.on_present(DEVICE, env(None, Some(WINDOW), false));
    assert_eq!(c.current_state(), DeviceState::RendererReady);
    assert!(!a.draw);
    assert_eq!(a.failure, Some(EngineError::WindowHookInstallFailed));
    let a = c.on_present(DEVICE, env(None, Some(WINDOW), true));
    assert_eq!(c.current_state(), DeviceState::WindowHooked);
    assert!(a.draw);
}

#[test]
fn steady_state_draws_every_frame() {
    let mut c = DeviceLifecycleCoordinator::new();
    c.on_present(DEVICE, env(None, None, false));
    c.on_present(DEVICE, env(Some(RENDERER), None, false));
    c.on_present(DEVICE, env(None, Some(WINDOW), true));
    for _ in 0..3 {
        let a = c.on_present(DEVICE, env(None, None, false));
        assert_eq!(c.current_state(), DeviceState::WindowHooked);
        assert!(a.draw);
        assert!(a.failure.is_none());
    }
}

#[test]
fn recovery_after_reset_reuses_surviving_window_hook() {
    let mut c = DeviceLifecycleCoordinator::new();
    c.on_present(DEVICE, env(None, None, false));
    c.on_present(DEVICE, env(Some(RENDERER), None, false));
    c.on_present(DEVICE, env(None, Some(WINDOW), true));
    c.on_reset(DEVICE);
    assert_eq!(c.current_state(), DeviceState::DeviceCaptured);

    // renderer is rebuilt; the surviving hook is adopted without reinstall
    c.on_present(DEVICE, env(Some(RENDERER + 1), None, false));
    assert_eq!(c.current_state(), DeviceState::RendererReady);
    let a = c.on_present(DEVICE, env(None, None, false));
    assert_eq!(c.current_state(), DeviceState::WindowHooked);
    assert!(a.draw);
    assert!(c.has_window_hook());
}

#[test]
fn reset_before_any_present_is_a_noop() {
    let mut c = DeviceLifecycleCoordinator::new();
    c.on_reset(DEVICE);
    assert_eq!(c.current_state(), DeviceState::Uninitialized);
    assert!(!c.has_renderer());
    assert!(!c.has_window_hook());
}

#[test]
fn changed_device_handle_is_ignored_and_reported() {
    let mut c = DeviceLifecycleCoordinator::new();
    c.on_present(DEVICE, env(None, None, false));
    let a = c.on_present(DEVICE + 4, env(Some(RENDERER), Some(WINDOW), true));
    assert_eq!(c.current_state(), DeviceState::DeviceCaptured);
    assert_eq!(c.device_handle(), Some(DEVICE));
    assert!(!a.draw);
    assert_eq!(a.failure, Some(EngineError::UnexpectedDeviceHandleChange));
}
