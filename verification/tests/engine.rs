//! The routing engine: reorder plans, force plans, forwarding state and
//! the identification probe.

use padswitch::config::{AppConfig, Profile, RoutingMode, Settings};
use padswitch::device::{DriverStatus, PhysicalDevice, SlotAssignment};
use padswitch::device::DeviceType;
use padswitch::error::PadSwitchError;
use padswitch::identify::{detect_from_polls, detect_new_press};
use padswitch::input_loop::{
    force_acquire_plan, force_cleanup_plan, is_synthetic_path, minimal_cleanup_plan,
    minimal_reorder_plan, sort_by_target_slot, EngineAction, ResolvedAssignment,
};
use padswitch::state::{recovery_plan, ForwardingStart, Inner};

fn ra(path: &str, target_slot: u8) -> ResolvedAssignment {
    ResolvedAssignment {
        instance_path: path.to_string(),
        xinput_slot: None,
        target_slot,
    }
}

fn device(id: &str, path: &str, slot: Option<u32>) -> PhysicalDevice {
    PhysicalDevice {
        id: id.to_string(),
        name: format!("device {}", id),
        instance_path: path.to_string(),
        device_type: DeviceType::XInput,
        hidden: false,
        connected: true,
        vendor_id: 0x045E,
        product_id: 0x028E,
        xinput_slot: slot,
    }
}

fn assignment(device_id: &str, slot: u8, enabled: bool) -> SlotAssignment {
    SlotAssignment { device_id: device_id.to_string(), slot, enabled }
}

fn profile(id: &str, mode: RoutingMode, assignments: Vec<SlotAssignment>) -> Profile {
    Profile { id: id.to_string(), name: format!("profile {}", id), assignments, routing_mode: mode }
}

fn inner_with(
    devices: Vec<PhysicalDevice>,
    assignments: Vec<SlotAssignment>,
    profiles: Vec<Profile>,
    active: Option<&str>,
) -> Inner {
    Inner {
        devices,
        assignments,
        driver_status: DriverStatus::default(),
        forwarding_active: false,
        config: AppConfig {
            settings: Settings {
                auto_start: false,
                start_minimized: false,
                auto_forward_on_launch: false,
                auto_switch: false,
                active_profile_id: active.map(|s| s.to_string()),
            },
            profiles,
            game_rules: vec![],
        },
    }
}

fn is_disable(a: &EngineAction, p: &str) -> bool {
    matches!(a, EngineAction::DisableDevice(x) if x == p)
}

fn is_enable(a: &EngineAction, p: &str) -> bool {
    matches!(a, EngineAction::EnableDevice(x) if x == p)
}

fn is_hide(a: &EngineAction, p: &str) -> bool {
    matches!(a, EngineAction::HideDevice(x) if x == p)
}

fn is_unhide(a: &EngineAction, p: &str) -> bool {
    matches!(a, EngineAction::UnhideDevice(x) if x == p)
}

fn is_sleep(a: &EngineAction, ms: u64) -> bool {
    matches!(a, EngineAction::SleepMillis(x) if *x == ms)
}

#[test]
fn minimal_reorder_two_devices() {
    // device A targets slot 1, device B targets slot 0: B must come first
    let assignments = vec![ra("PA", 1), ra("PB", 0)];
    let plan = minimal_reorder_plan(&assignments);
    assert_eq!(plan.len(), 6);
    assert!(is_disable(&plan[0], "PB"));
    assert!(is_disable(&plan[1], "PA"));
    assert!(is_sleep(&plan[2], 200));
    assert!(is_enable(&plan[3], "PB"));
    assert!(is_sleep(&plan[4], 100));
    assert!(is_enable(&plan[5], "PA"));

    let cleanup = minimal_cleanup_plan(&assignments);
    assert_eq!(cleanup.len(), 2);
    assert!(is_enable(&cleanup[0], "PB"));
    assert!(is_enable(&cleanup[1], "PA"));
}

#[test]
fn minimal_reorder_single_device_has_no_trailing_pause() {
    let plan = minimal_reorder_plan(&vec![ra("P", 2)]);
    assert_eq!(plan.len(), 3);
    assert!(is_disable(&plan[0], "P"));
    assert!(is_sleep(&plan[1], 200));
    assert!(is_enable(&plan[2], "P"));
}

#[test]
fn force_acquire_and_cleanup_on_failure() {
    // two assignments; on a bus-connect failure the cleanup plan must
    // release exactly what the acquire plan took, in this order
    let assignments = vec![ra("P1", 0), ra("P2", 1)];
    let plan = force_acquire_plan(&assignments);
    assert_eq!(plan.len(), 7);
    assert!(matches!(plan[0], EngineAction::WhitelistSelf));
    assert!(is_hide(&plan[1], "P1"));
    assert!(is_hide(&plan[2], "P2"));
    assert!(matches!(plan[3], EngineAction::SetHidingActive(true)));
    assert!(matches!(plan[4], EngineAction::ConnectVirtualBus));
    assert!(matches!(plan[5], EngineAction::PlugVirtualTarget(0)));
    assert!(matches!(plan[6], EngineAction::PlugVirtualTarget(1)));

    let cleanup = force_cleanup_plan(&assignments);
    assert_eq!(cleanup.len(), 3);
    assert!(matches!(cleanup[0], EngineAction::SetHidingActive(false)));
    assert!(is_unhide(&cleanup[1], "P1"));
    assert!(is_unhide(&cleanup[2], "P2"));
}

#[test]
fn sort_is_stable_within_one_slot() {
    let sorted = sort_by_target_slot(&vec![ra("x", 1), ra("a", 0), ra("y", 1)]);
    assert_eq!(sorted.len(), 3);
    assert_eq!(sorted[0].instance_path, "a");
    assert_eq!(sorted[1].instance_path, "x");
    assert_eq!(sorted[2].instance_path, "y");
}

#[test]
fn synthetic_paths_are_recognized_case_insensitively() {
    assert!(is_synthetic_path("XINPUT\\SLOT0"));
    assert!(is_synthetic_path("xinput\\slot3"));
    assert!(!is_synthetic_path("USB\\VID_045E&PID_028E\\X"));
}

#[test]
fn resolve_drops_disabled_unknown_and_synthetic() {
    let inner = inner_with(
        vec![
            device("a", "PA", Some(0)),
            device("b", "XINPUT\\SLOT1", Some(1)),
            device("c", "PC", None),
        ],
        vec![
            assignment("a", 1, true),
            assignment("b", 0, true),  // synthetic path: dropped
            assignment("c", 2, false), // disabled: dropped
            assignment("ghost", 3, true), // unknown device: dropped
        ],
        vec![],
        None,
    );
    let resolved = inner.resolve_assignments();
    assert_eq!(resolved.len(), 1);
    assert_eq!(resolved[0].instance_path, "PA");
    assert_eq!(resolved[0].target_slot, 1);
    assert_eq!(resolved[0].xinput_slot, Some(0));
}

#[test]
fn start_forwarding_sets_flag_and_reentry_is_noop() {
    let p = profile("p1", RoutingMode::Minimal, vec![assignment("a", 0, true)]);
    let mut inner = inner_with(
        vec![device("a", "PA", Some(0))],
        vec![assignment("a", 0, true)],
        vec![p],
        Some("p1"),
    );
    let drivers = DriverStatus::default();
    let started = inner.start_forwarding(true, true, &drivers).unwrap();
    match started {
        ForwardingStart::Begin { mode, resolved } => {
            assert_eq!(mode, RoutingMode::Minimal);
            assert_eq!(resolved.len(), 1);
            assert_eq!(resolved[0].instance_path, "PA");
        }
        ForwardingStart::AlreadyActive => panic!("expected a fresh start"),
    }
    assert!(inner.forwarding_active);

    // re-entry while active: success, nothing to do
    let again = inner.start_forwarding(true, true, &drivers).unwrap();
    assert!(matches!(again, ForwardingStart::AlreadyActive));
    assert!(inner.forwarding_active);

    // stop clears the flag and reports that a worker was running
    assert!(inner.stop_forwarding());
    assert!(!inner.forwarding_active);
    assert!(!inner.stop_forwarding());
}

#[test]
fn start_forwarding_requires_elevation_for_minimal() {
    let p = profile("p1", RoutingMode::Minimal, vec![]);
    let mut inner = inner_with(
        vec![device("a", "PA", Some(0))],
        vec![assignment("a", 0, true)],
        vec![p],
        Some("p1"),
    );
    let err = inner.start_forwarding(false, true, &DriverStatus::default()).unwrap_err();
    assert!(matches!(err, PadSwitchError::Platform(_)));
    assert!(!inner.forwarding_active);
}

#[test]
fn start_forwarding_requires_platform_support_for_minimal() {
    let p = profile("p1", RoutingMode::Minimal, vec![]);
    let mut inner = inner_with(
        vec![device("a", "PA", Some(0))],
        vec![assignment("a", 0, true)],
        vec![p],
        Some("p1"),
    );
    let err = inner.start_forwarding(true, false, &DriverStatus::default()).unwrap_err();
    assert!(matches!(err, PadSwitchError::PlatformNotSupported(_)));
    assert!(!inner.forwarding_active);
}

#[test]
fn start_forwarding_requires_drivers_for_force() {
    let p = profile("p1", RoutingMode::Force, vec![]);
    let mut inner = inner_with(
        vec![device("a", "PA", Some(0))],
        vec![assignment("a", 0, true)],
        vec![p],
        Some("p1"),
    );
    let err = inner.start_forwarding(true, true, &DriverStatus::default()).unwrap_err();
    assert!(matches!(err, PadSwitchError::DriverNotInstalled(_)));
    assert!(!inner.forwarding_active);

    let drivers = DriverStatus {
        hidhide_installed: true,
        vigembus_installed: true,
        hidhide_version: None,
        vigembus_version: None,
    };
    let started = inner.start_forwarding(true, true, &drivers).unwrap();
    assert!(matches!(started, ForwardingStart::Begin { .. }));
    assert!(inner.forwarding_active);
}

#[test]
fn start_forwarding_rejects_empty_resolution() {
    let p = profile("p1", RoutingMode::Minimal, vec![]);
    let mut inner = inner_with(vec![], vec![], vec![p], Some("p1"));
    let err = inner.start_forwarding(true, true, &DriverStatus::default()).unwrap_err();
    assert!(matches!(err, PadSwitchError::Forwarding(_)));
    assert!(!inner.forwarding_active);
}

#[test]
fn restart_forwarding_reports_the_previous_worker() {
    let p = profile("p1", RoutingMode::Minimal, vec![assignment("a", 0, true)]);
    let mut inner = inner_with(
        vec![device("a", "PA", Some(0))],
        vec![assignment("a", 0, true)],
        vec![p],
        Some("p1"),
    );
    let drivers = DriverStatus::default();
    inner.start_forwarding(true, true, &drivers).unwrap();
    assert!(inner.forwarding_active);

    let (was_running, restarted) = inner.restart_forwarding(true, true, &drivers);
    assert!(was_running);
    assert!(matches!(restarted, Ok(ForwardingStart::Begin { .. })));
    assert!(inner.forwarding_active);

    // a restart that fails its preflight leaves forwarding stopped
    let (was_running, restarted) = inner.restart_forwarding(false, true, &drivers);
    assert!(was_running);
    assert!(restarted.is_err());
    assert!(!inner.forwarding_active);
}

#[test]
fn reset_all_clears_state_and_sweeps_every_device() {
    let mut inner = inner_with(
        vec![device("a", "PA", Some(0)), device("b", "PB", Some(1))],
        vec![assignment("a", 0, true)],
        vec![profile("p1", RoutingMode::Minimal, vec![])],
        Some("p1"),
    );
    inner.forwarding_active = true;
    let plan = inner.reset_all();
    assert!(!inner.forwarding_active);
    assert!(inner.assignments.is_empty());
    assert!(inner.config.settings.active_profile_id.is_none());
    assert_eq!(plan.len(), 5);
    assert!(is_enable(&plan[0], "PA"));
    assert!(is_unhide(&plan[1], "PA"));
    assert!(is_enable(&plan[2], "PB"));
    assert!(is_unhide(&plan[3], "PB"));
    assert!(matches!(plan[4], EngineAction::SetHidingActive(false)));
}

#[test]
fn dirty_shutdown_recovery() {
    // a previous session died with a hidden device and an active profile
    let devices = vec![device("d", "PD", Some(0))];
    let plan = recovery_plan(&devices);
    assert_eq!(plan.len(), 3);
    assert!(is_enable(&plan[0], "PD"));
    assert!(is_unhide(&plan[1], "PD"));
    assert!(matches!(plan[2], EngineAction::SetHidingActive(false)));

    let mut inner = inner_with(
        devices,
        vec![],
        vec![profile("p", RoutingMode::Minimal, vec![])],
        Some("p"),
    );
    inner.apply_recovery();
    assert!(inner.config.settings.active_profile_id.is_none());
}

#[test]
fn identify_slot_two() {
    let baseline = [0u16, 0, 0, 0];
    let quiet = [0u16, 0, 0, 0];
    let pressed = [0u16, 0, 0x1000, 0];
    let polls = vec![quiet, quiet, pressed, quiet];
    assert_eq!(detect_from_polls(&baseline, &polls), Some(2));
}

#[test]
fn identify_timeout_returns_none() {
    let baseline = [0x0010u16, 0, 0, 0];
    let polls = vec![[0x0010u16, 0, 0, 0]; 8];
    assert_eq!(detect_from_polls(&baseline, &polls), None);
}

#[test]
fn identify_ignores_bits_already_set_in_baseline() {
    let baseline = [0x1000u16, 0, 0, 0];
    // slot 0 keeps holding its old bit; slot 3 presses a fresh one
    assert_eq!(detect_new_press(&baseline, &[0x1000, 0, 0, 0x0002]), Some(3));
    assert_eq!(detect_new_press(&baseline, &[0x1000, 0, 0, 0]), None);
}
