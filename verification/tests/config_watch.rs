//! Configuration mutations, the auto-switch watcher, state transitions and
//! the platform facades.

use padswitch::config::{
    default_true, validate_assignments, AppConfig, GameRule, Profile, RoutingMode, Settings,
};
use padswitch::device::{DriverStatus, PhysicalDevice, SlotAssignment};
use padswitch::device::DeviceType;
use padswitch::error::PadSwitchError;
use padswitch::input_loop::EngineAction;
use padswitch::platform::MacOSPlatform;
use padswitch::state::Inner;
use padswitch::watcher::{find_matching_rule, watcher_tick, WatcherAction, WatcherState};

fn assignment(device_id: &str, slot: u8, enabled: bool) -> SlotAssignment {
    SlotAssignment { device_id: device_id.to_string(), slot, enabled }
}

fn profile(id: &str, mode: RoutingMode, assignments: Vec<SlotAssignment>) -> Profile {
    Profile { id: id.to_string(), name: format!("profile {}", id), assignments, routing_mode: mode }
}

fn rule(id: &str, exe: &str, profile_id: &str, enabled: bool) -> GameRule {
    GameRule {
        id: id.to_string(),
        exe_name: exe.to_string(),
        profile_id: profile_id.to_string(),
        enabled,
    }
}

fn config_with(profiles: Vec<Profile>, game_rules: Vec<GameRule>) -> AppConfig {
    AppConfig { settings: Settings::default(), profiles, game_rules }
}

fn device(id: &str, path: &str, slot: Option<u32>) -> PhysicalDevice {
    PhysicalDevice {
        id: id.to_string(),
        name: format!("device {}", id),
        instance_path: path.to_string(),
        device_type: DeviceType::XInput,
        hidden: false,
        connected: true,
        vendor_id: 0,
        product_id: 0,
        xinput_slot: slot,
    }
}

fn inner_with(devices: Vec<PhysicalDevice>, config: AppConfig) -> Inner {
    Inner {
        devices,
        assignments: vec![],
        driver_status: DriverStatus::default(),
        forwarding_active: false,
        config,
    }
}

#[test]
fn defaults() {
    assert!(default_true());
    let s = Settings::default();
    assert!(!s.auto_start && !s.start_minimized && !s.auto_forward_on_launch && !s.auto_switch);
    assert!(s.active_profile_id.is_none());
    assert_eq!(RoutingMode::default(), RoutingMode::Minimal);
    let c = AppConfig::default();
    assert!(c.profiles.is_empty() && c.game_rules.is_empty());
    let d = DriverStatus::default();
    assert!(!d.hidhide_installed && !d.vigembus_installed);
}

#[test]
fn assignment_validation() {
    // distinct enabled slots pass
    assert!(validate_assignments(&vec![
        assignment("a", 0, true),
        assignment("b", 1, true),
        assignment("c", 1, false), // disabled entries may repeat a slot
    ]));
    // two enabled assignments on one slot fail
    assert!(!validate_assignments(&vec![
        assignment("a", 2, true),
        assignment("b", 2, true),
    ]));
    // slots beyond the last one fail
    assert!(!validate_assignments(&vec![assignment("a", 4, true)]));
}

#[test]
fn save_profile_draws_id_and_appends() {
    let mut config = config_with(vec![], vec![]);
    let p = config
        .save_profile(
            "couch".to_string(),
            vec![assignment("a", 0, true)],
            Some(RoutingMode::Force),
        )
        .unwrap();
    assert_eq!(p.id.len(), 36);
    assert_eq!(p.name, "couch");
    assert_eq!(p.routing_mode, RoutingMode::Force);
    assert_eq!(config.profiles.len(), 1);
    assert_eq!(config.profiles[0].name, "couch");

    // the routing mode defaults to Minimal
    let q = config.save_profile("solo".to_string(), vec![], None).unwrap();
    assert_eq!(q.routing_mode, RoutingMode::Minimal);

    // colliding enabled slots are rejected and nothing is stored
    let err = config
        .save_profile(
            "broken".to_string(),
            vec![assignment("a", 1, true), assignment("b", 1, true)],
            None,
        )
        .unwrap_err();
    assert!(matches!(err, PadSwitchError::Config(_)));
    assert_eq!(config.profiles.len(), 2);
}

#[test]
fn delete_profile_cleans_rules_and_marker() {
    let mut config = config_with(
        vec![profile("p1", RoutingMode::Minimal, vec![]), profile("p2", RoutingMode::Force, vec![])],
        vec![rule("r1", "game.exe", "p1", true), rule("r2", "other.exe", "p2", true)],
    );
    config.settings.active_profile_id = Some("p1".to_string());
    config.delete_profile(&"p1".to_string());
    assert_eq!(config.profiles.len(), 1);
    assert_eq!(config.profiles[0].id, "p2");
    assert_eq!(config.game_rules.len(), 1);
    assert_eq!(config.game_rules[0].id, "r2");
    assert!(config.settings.active_profile_id.is_none());
}

#[test]
fn game_rule_lifecycle() {
    let mut config = config_with(vec![profile("p1", RoutingMode::Minimal, vec![])], vec![]);
    // a rule must reference an existing profile
    let err = config.add_game_rule("game.exe".to_string(), "ghost".to_string()).unwrap_err();
    assert!(matches!(err, PadSwitchError::Config(_)));
    assert!(config.game_rules.is_empty());

    let r = config.add_game_rule("game.exe".to_string(), "p1".to_string()).unwrap();
    assert_eq!(r.id.len(), 36);
    assert!(r.enabled);
    assert_eq!(config.game_rules.len(), 1);

    config.toggle_game_rule(&r.id, false);
    assert!(!config.game_rules[0].enabled);

    config.delete_game_rule(&r.id);
    assert!(config.game_rules.is_empty());
}

#[test]
fn settings_update_replaces_wholesale() {
    let mut config = config_with(vec![], vec![]);
    config.update_settings(Settings {
        auto_start: true,
        start_minimized: true,
        auto_forward_on_launch: false,
        auto_switch: true,
        active_profile_id: Some("p".to_string()),
    });
    assert!(config.settings.auto_start);
    assert!(config.settings.auto_switch);
    assert_eq!(config.settings.active_profile_id.as_deref(), Some("p"));
}

#[test]
fn auto_switch_launch_and_exit() {
    // rule for Game.exe -> P is enabled; Q is currently active
    let config = config_with(
        vec![profile("P", RoutingMode::Minimal, vec![]), profile("Q", RoutingMode::Minimal, vec![])],
        vec![rule("r1", "Game.exe", "P", true)],
    );
    let state = WatcherState::new();
    let current = Some("Q".to_string());

    // nothing running: idle
    let (state, action) = watcher_tick(&state, &config, &current, &vec![]);
    assert!(matches!(action, WatcherAction::Idle));
    assert!(state.active_rule_id.is_none());

    // the game appears (case differs): activate P, remember Q
    let processes = vec!["explorer.exe".to_string(), "GAME.EXE".to_string()];
    let (state, action) = watcher_tick(&state, &config, &current, &processes);
    assert!(matches!(action, WatcherAction::Activate(ref p) if p == "P"));
    assert_eq!(state.active_rule_id.as_deref(), Some("r1"));
    assert_eq!(state.pre_game_profile_id.as_deref(), Some("Q"));

    // the same game keeps running: idle
    let current = Some("P".to_string());
    let (state, action) = watcher_tick(&state, &config, &current, &processes);
    assert!(matches!(action, WatcherAction::Idle));
    assert_eq!(state.active_rule_id.as_deref(), Some("r1"));

    // the game exits: revert to Q and forget everything
    let (state, action) = watcher_tick(&state, &config, &current, &vec![]);
    assert!(matches!(action, WatcherAction::Revert(Some(ref p)) if p == "Q"));
    assert!(state.active_rule_id.is_none());
    assert!(state.pre_game_profile_id.is_none());
}

#[test]
fn auto_switch_between_two_games() {
    let config = config_with(
        vec![profile("P", RoutingMode::Minimal, vec![]), profile("R", RoutingMode::Minimal, vec![])],
        vec![rule("r1", "one.exe", "P", true), rule("r2", "two.exe", "R", true)],
    );
    let state = WatcherState::new();
    let (state, _) = watcher_tick(&state, &config, &None, &vec!["one.exe".to_string()]);
    assert_eq!(state.active_rule_id.as_deref(), Some("r1"));
    // a different rule matches: switch, keeping the pre-game memory
    let (state, action) = watcher_tick(&state, &config, &None, &vec!["two.exe".to_string()]);
    assert!(matches!(action, WatcherAction::Activate(ref p) if p == "R"));
    assert_eq!(state.active_rule_id.as_deref(), Some("r2"));
}

#[test]
fn watcher_skips_disabled_rules_and_missing_profiles() {
    let config = config_with(
        vec![profile("P", RoutingMode::Minimal, vec![])],
        vec![rule("r1", "game.exe", "P", false), rule("r2", "game.exe", "ghost", true)],
    );
    let processes = vec!["game.exe".to_string()];
    // the disabled rule never matches; the enabled one points nowhere
    let found = find_matching_rule(&config.game_rules, &processes);
    assert_eq!(found.map(|r| r.id.as_str()), Some("r2"));
    let state = WatcherState::new();
    let (state, action) = watcher_tick(&state, &config, &None, &processes);
    assert!(matches!(action, WatcherAction::Idle));
    assert!(state.active_rule_id.is_none());
}

#[test]
fn activate_profile_loads_assignments() {
    let p = profile("p1", RoutingMode::Minimal, vec![assignment("a", 1, true)]);
    let mut inner = inner_with(vec![device("a", "PA", None)], config_with(vec![p], vec![]));
    let loaded = inner.activate_profile(&"p1".to_string()).unwrap();
    assert_eq!(loaded.len(), 1);
    assert_eq!(inner.assignments.len(), 1);
    assert_eq!(inner.assignments[0].device_id, "a");
    assert_eq!(inner.config.settings.active_profile_id.as_deref(), Some("p1"));

    let err = inner.activate_profile(&"ghost".to_string()).unwrap_err();
    assert!(matches!(err, PadSwitchError::Config(_)));
    assert_eq!(inner.config.settings.active_profile_id.as_deref(), Some("p1"));
}

#[test]
fn apply_assignments_validates() {
    let mut inner = inner_with(vec![], config_with(vec![], vec![]));
    assert!(inner.apply_assignments(vec![assignment("a", 0, true)]).is_ok());
    assert_eq!(inner.assignments.len(), 1);
    let err = inner
        .apply_assignments(vec![assignment("a", 0, true), assignment("b", 0, true)])
        .unwrap_err();
    assert!(matches!(err, PadSwitchError::Config(_)));
    assert_eq!(inner.assignments.len(), 1);
}

#[test]
fn toggle_device_plan_follows_routing_mode() {
    let p_force = profile("pf", RoutingMode::Force, vec![]);
    let mut inner = inner_with(vec![device("a", "PA", None)], config_with(vec![p_force], vec![]));

    // no profile active: Minimal is the default mode
    let action = inner.toggle_device_plan(&"a".to_string(), true).unwrap();
    assert!(matches!(action, EngineAction::DisableDevice(ref p) if p == "PA"));
    let action = inner.toggle_device_plan(&"a".to_string(), false).unwrap();
    assert!(matches!(action, EngineAction::EnableDevice(ref p) if p == "PA"));

    // with a Force profile active the hiding driver does the work
    inner.config.settings.active_profile_id = Some("pf".to_string());
    let action = inner.toggle_device_plan(&"a".to_string(), true).unwrap();
    assert!(matches!(action, EngineAction::HideDevice(ref p) if p == "PA"));
    let action = inner.toggle_device_plan(&"a".to_string(), false).unwrap();
    assert!(matches!(action, EngineAction::UnhideDevice(ref p) if p == "PA"));

    let err = inner.toggle_device_plan(&"ghost".to_string(), true).unwrap_err();
    assert!(matches!(err, PadSwitchError::DeviceNotFound(_)));

    inner.set_device_hidden(&"a".to_string(), true);
    assert!(inner.devices[0].hidden);
}

#[test]
fn confirm_device_slot_records_discovery() {
    let mut inner = inner_with(
        vec![device("a", "PA", None), device("b", "PB", None)],
        config_with(vec![], vec![]),
    );
    inner.confirm_device_slot(&"b".to_string(), 2);
    assert_eq!(inner.devices[0].xinput_slot, None);
    assert_eq!(inner.devices[1].xinput_slot, Some(2));
}

#[test]
fn error_detail_carries_the_message() {
    let e = PadSwitchError::DriverNotInstalled("the hiding driver is absent".to_string());
    assert_eq!(e.detail(), "the hiding driver is absent");
}

#[test]
fn development_backend_mock_data() {
    let platform = MacOSPlatform::new();
    let devices = platform.enumerate_devices().unwrap();
    assert_eq!(devices.len(), 3);
    assert_eq!(devices[0].id, "mock-wooting-60he");
    assert_eq!(devices[1].xinput_slot, Some(1));
    assert_eq!(devices[2].device_type, DeviceType::DirectInput);
    let drivers = platform.check_drivers().unwrap();
    assert!(drivers.hidhide_installed && drivers.vigembus_installed);
    assert!(platform.hide_device("/mock/xbox").is_ok());
    assert!(platform.enable_device("/mock/xbox").is_ok());
    assert!(matches!(
        platform.create_virtual_controller(),
        Err(PadSwitchError::PlatformNotSupported(_))
    ));
    let state = platform.read_gamepad_state("/mock/xbox").unwrap();
    assert_eq!(state.buttons, 0);
}
