//! The authoritative in-memory state and its transitions: profile
//! activation, forwarding start/stop, the reset sweep and crash recovery.
//!
//! The record here is what the single application lock protects.  Every
//! transition is a pure state change plus, where privileged OS work is
//! owed, a plan of engine actions for the embedding program to execute
//! outside the lock.

use vstd::prelude::*;
use vstd::string::StringExecFns;

use crate::config::{
    assignments_wf, enabled_slots_distinct, spec_find_profile, AppConfig, Profile, RoutingMode,
};
use crate::device::{DriverStatus, PhysicalDevice, SlotAssignment};
use crate::error::PadSwitchError;
use crate::input_loop::{spec_is_synthetic_chars, is_synthetic_path, EngineAction, ResolvedAssignment};
use crate::text::string_eq;

verus! {

/// The record behind the application lock: the device table, the working
/// assignment set, cached driver status, the forwarding flag and the
/// persisted configuration.
#[derive(Debug)]
pub struct Inner {
    pub devices: Vec<PhysicalDevice>,
    pub assignments: Vec<SlotAssignment>,
    pub driver_status: DriverStatus,
    pub forwarding_active: bool,
    pub config: AppConfig,
}

/// The first device with the given stable id, if any.
pub open spec fn spec_find_device(devices: Seq<PhysicalDevice>, id: Seq<char>) -> Option<
    PhysicalDevice,
>
    decreases devices.len(),
{
    if devices.len() == 0 {
        None
    } else if devices[0].id@ == id {
        Some(devices[0])
    } else {
        spec_find_device(devices.drop_first(), id)
    }
}

/// Look a device up by its stable id; the result borrows the first match.
pub fn find_device<'a>(devices: &'a Vec<PhysicalDevice>, device_id: &String) -> (r: Option<
    &'a PhysicalDevice,
>)
    ensures
        match r {
            Some(d) => spec_find_device(devices@, device_id@) == Some(*d),
            None => spec_find_device(devices@, device_id@) is None,
        },
{
    let n = devices.len();
    let mut i: usize = 0;
    proof {
        assert(devices@.subrange(0, n as int) =~= devices@);
    }
    while i < n
        invariant
            i <= n == devices@.len(),
            spec_find_device(devices@, device_id@) == spec_find_device(
                devices@.subrange(i as int, n as int),
                device_id@,
            ),
        decreases n - i,
    {
        proof {
            let rest = devices@.subrange(i as int, n as int);
            assert(rest[0] == devices@[i as int]);
            assert(rest.drop_first() =~= devices@.subrange(i + 1, n as int));
        }
        if string_eq(&devices[i].id, device_id) {
            return Some(&devices[i]);
        }
        i += 1;
    }
    proof {
        assert(devices@.subrange(n as int, n as int) =~= Seq::<PhysicalDevice>::empty());
    }
    None
}

/// What one assignment contributes to the resolved list: nothing when it
/// is disabled, references an unknown device, or references a synthetic
/// slot marker; otherwise the resolved entry.
pub open spec fn spec_resolve_one(a: SlotAssignment, devices: Seq<PhysicalDevice>) -> Seq<
    ResolvedAssignment,
> {
    if a.enabled {
        match spec_find_device(devices, a.device_id@) {
            Some(d) => if !spec_is_synthetic_chars(d.instance_path@) {
                seq![
                    ResolvedAssignment {
                        instance_path: d.instance_path,
                        xinput_slot: d.xinput_slot,
                        target_slot: a.slot,
                    },
                ]
            } else {
                Seq::empty()
            },
            None => Seq::empty(),
        }
    } else {
        Seq::empty()
    }
}

/// The resolved assignment list: enabled assignments joined with the
/// device table, in order, dropping unknown devices and synthetic paths.
pub open spec fn spec_resolve(
    assignments: Seq<SlotAssignment>,
    devices: Seq<PhysicalDevice>,
) -> Seq<ResolvedAssignment>
    decreases assignments.len(),
{
    if assignments.len() == 0 {
        Seq::empty()
    } else {
        spec_resolve_one(assignments[0], devices) + spec_resolve(assignments.drop_first(), devices)
    }
}

/// Resolution distributes over concatenation of assignment lists.
pub proof fn lemma_resolve_concat(
    s: Seq<SlotAssignment>,
    t: Seq<SlotAssignment>,
    devices: Seq<PhysicalDevice>,
)
    ensures
        spec_resolve(s + t, devices) == spec_resolve(s, devices) + spec_resolve(t, devices),
    decreases s.len(),
{
    if s.len() == 0 {
        assert(s + t =~= t);
        assert(spec_resolve(s, devices) + spec_resolve(t, devices) =~= spec_resolve(t, devices));
    } else {
        assert((s + t).drop_first() =~= s.drop_first() + t);
        assert((s + t)[0] == s[0]);
        lemma_resolve_concat(s.drop_first(), t, devices);
        assert(spec_resolve_one(s[0], devices) + (spec_resolve(s.drop_first(), devices)
            + spec_resolve(t, devices)) =~= spec_resolve(s, devices) + spec_resolve(t, devices));
    }
}

/// Every target slot in the resolved list is the slot of some enabled
/// assignment.
proof fn lemma_resolve_slots_from_enabled(
    assignments: Seq<SlotAssignment>,
    devices: Seq<PhysicalDevice>,
)
    ensures
        forall|k: int|
            0 <= k < spec_resolve(assignments, devices).len() ==> exists|i: int|
                0 <= i < assignments.len() && (#[trigger] assignments[i]).enabled
                    && assignments[i].slot == (#[trigger] spec_resolve(assignments, devices)[
                k]).target_slot,
    decreases assignments.len(),
{
    if assignments.len() > 0 {
        lemma_resolve_slots_from_enabled(assignments.drop_first(), devices);
        let head = spec_resolve_one(assignments[0], devices);
        let rest = spec_resolve(assignments.drop_first(), devices);
        assert forall|k: int|
            0 <= k < spec_resolve(assignments, devices).len() implies exists|i: int|
            0 <= i < assignments.len() && (#[trigger] assignments[i]).enabled && assignments[i].slot
                == (#[trigger] spec_resolve(assignments, devices)[k]).target_slot by {
            if k < head.len() {
                assert(assignments[0].enabled);
                assert(assignments[0].slot == spec_resolve(assignments, devices)[k].target_slot);
            } else {
                let k2 = k - head.len();
                assert(rest[k2] == spec_resolve(assignments, devices)[k]);
                let dropped = assignments.drop_first();
                let i2 = choose|i2: int|
                    0 <= i2 < dropped.len() && (#[trigger] dropped[i2]).enabled && dropped[i2].slot
                        == rest[k2].target_slot;
                assert(assignments[i2 + 1] == assignments.drop_first()[i2]);
            }
        }
    }
}

/// Resolving a well-formed assignment set yields pairwise distinct target
/// slots: no two resolved entries compete for one slot.
pub proof fn lemma_resolve_slots_distinct(
    assignments: Seq<SlotAssignment>,
    devices: Seq<PhysicalDevice>,
)
    requires
        enabled_slots_distinct(assignments),
    ensures
        forall|i: int, j: int|
            0 <= i < j < spec_resolve(assignments, devices).len() ==> (#[trigger] spec_resolve(
                assignments,
                devices,
            )[i]).target_slot != (#[trigger] spec_resolve(assignments, devices)[j]).target_slot,
    decreases assignments.len(),
{
    if assignments.len() > 0 {
        let rest_a = assignments.drop_first();
        assert forall|i: int, j: int|
            0 <= i < j < rest_a.len() && (#[trigger] rest_a[i]).enabled
                && (#[trigger] rest_a[j]).enabled implies rest_a[i].slot != rest_a[j].slot by {
            assert(assignments[i + 1] == rest_a[i]);
            assert(assignments[j + 1] == rest_a[j]);
        }
        lemma_resolve_slots_distinct(rest_a, devices);
        lemma_resolve_slots_from_enabled(rest_a, devices);
        let head = spec_resolve_one(assignments[0], devices);
        let rest = spec_resolve(rest_a, devices);
        let full = spec_resolve(assignments, devices);
        assert forall|i: int, j: int|
            0 <= i < j < full.len() implies (#[trigger] full[i]).target_slot
                != (#[trigger] full[j]).target_slot by {
            if head.len() == 1 && i == 0 {
                assert(assignments[0].enabled);
                assert(full[0].target_slot == assignments[0].slot);
                let k2 = j - 1;
                assert(rest[k2] == full[j]);
                let i2 = choose|i2: int|
                    0 <= i2 < rest_a.len() && (#[trigger] rest_a[i2]).enabled && rest_a[i2].slot
                        == rest[k2].target_slot;
                assert(assignments[i2 + 1] == rest_a[i2]);
                assert(assignments[0].slot != assignments[i2 + 1].slot);
            } else {
                assert(rest[i - head.len()] == full[i]);
                assert(rest[j - head.len()] == full[j]);
            }
        }
    }
}

impl Inner {
    /// The profile the active-profile marker names, if it exists.
    pub open spec fn spec_active_profile(self) -> Option<Profile> {
        match self.config.settings.active_profile_id {
            Some(id) => spec_find_profile(self.config.profiles@, id@),
            None => None,
        }
    }

    /// The routing mode of the active profile; Minimal when none is
    /// active.
    pub open spec fn spec_active_routing_mode(self) -> RoutingMode {
        match self.spec_active_profile() {
            Some(p) => p.routing_mode,
            None => RoutingMode::Minimal,
        }
    }

    /// The currently active profile, if any.
    pub fn active_profile(&self) -> (r: Option<&Profile>)
        ensures
            match r {
                Some(p) => self.spec_active_profile() == Some(*p),
                None => self.spec_active_profile() is None,
            },
    {
        match &self.config.settings.active_profile_id {
            Some(id) => self.config.find_profile(id),
            None => None,
        }
    }

    /// The routing mode of the active profile (Minimal when none).
    pub fn active_routing_mode(&self) -> (r: RoutingMode)
        ensures
            r == self.spec_active_routing_mode(),
    {
        match self.active_profile() {
            Some(p) => p.routing_mode,
            None => RoutingMode::Minimal,
        }
    }

    /// Resolve the working assignments against the device table: enabled
    /// assignments only, joined on the device id, with unknown devices
    /// and synthetic slot markers dropped.
    pub fn resolve_assignments(&self) -> (r: Vec<ResolvedAssignment>)
        ensures
            r@ == spec_resolve(self.assignments@, self.devices@),
    {
        let mut r: Vec<ResolvedAssignment> = Vec::new();
        let n = self.assignments.len();
        let mut i: usize = 0;
        proof {
            assert(self.assignments@.subrange(0, 0) =~= Seq::<SlotAssignment>::empty());
            assert(r@ =~= spec_resolve(self.assignments@.subrange(0, 0), self.devices@));
        }
        while i < n
            invariant
                i <= n == self.assignments@.len(),
                r@ == spec_resolve(self.assignments@.subrange(0, i as int), self.devices@),
            decreases n - i,
        {
            let a = &self.assignments[i];
            proof {
                assert(self.assignments@.subrange(0, i + 1) =~= self.assignments@.subrange(
                    0,
                    i as int,
                ) + seq![self.assignments@[i as int]]);
                lemma_resolve_concat(
                    self.assignments@.subrange(0, i as int),
                    seq![self.assignments@[i as int]],
                    self.devices@,
                );
                let single = seq![self.assignments@[i as int]];
                assert(single.drop_first() =~= Seq::<SlotAssignment>::empty());
                assert(spec_resolve(Seq::<SlotAssignment>::empty(), self.devices@)
                    =~= Seq::<ResolvedAssignment>::empty());
                assert(spec_resolve(single, self.devices@) =~= spec_resolve_one(
                    self.assignments@[i as int],
                    self.devices@,
                ));
            }
            if a.enabled {
                match find_device(&self.devices, &a.device_id) {
                    Some(d) => {
                        if !is_synthetic_path(d.instance_path.as_str()) {
                            r.push(
                                ResolvedAssignment {
                                    instance_path: d.instance_path.clone(),
                                    xinput_slot: d.xinput_slot,
                                    target_slot: a.slot,
                                },
                            );
                        }
                    },
                    None => {},
                }
            }
            i += 1;
            proof {
                assert(r@ =~= spec_resolve(
                    self.assignments@.subrange(0, i as int),
                    self.devices@,
                ));
            }
        }
        proof {
            assert(self.assignments@.subrange(0, n as int) =~= self.assignments@);
        }
        r
    }
}

/// What a successful forwarding start asks the embedding program to do.
#[derive(Debug)]
pub enum ForwardingStart {
    /// Forwarding was already running: nothing to do.
    AlreadyActive,
    /// Spawn the worker for this mode with these resolved assignments.
    Begin { mode: RoutingMode, resolved: Vec<ResolvedAssignment> },
}

/// Whether a routing mode may start: Minimal needs platform support and an
/// elevated process; Force needs both external drivers installed.
pub open spec fn spec_preflight_ok(
    mode: RoutingMode,
    elevated: bool,
    minimal_supported: bool,
    drivers: DriverStatus,
) -> bool {
    match mode {
        RoutingMode::Minimal => minimal_supported && elevated,
        RoutingMode::Force => drivers.hidhide_installed && drivers.vigembus_installed,
    }
}

/// Check the preconditions of a routing mode before any resource is
/// touched.
pub fn preflight_check(
    mode: RoutingMode,
    elevated: bool,
    minimal_supported: bool,
    drivers: &DriverStatus,
) -> (r: Result<(), PadSwitchError>)
    ensures
        r is Ok <==> spec_preflight_ok(mode, elevated, minimal_supported, *drivers),
        r is Err ==> (match r->Err_0 {
            PadSwitchError::PlatformNotSupported(_) => mode == RoutingMode::Minimal
                && !minimal_supported,
            PadSwitchError::Platform(_) => mode == RoutingMode::Minimal && minimal_supported
                && !elevated,
            PadSwitchError::DriverNotInstalled(_) => mode == RoutingMode::Force && !(
            drivers.hidhide_installed && drivers.vigembus_installed),
            _ => false,
        }),
{
    match mode {
        RoutingMode::Minimal => {
            if !minimal_supported {
                Err(
                    PadSwitchError::PlatformNotSupported(
                        String::from_str("Minimal mode is not supported on this platform"),
                    ),
                )
            } else if !elevated {
                Err(
                    PadSwitchError::Platform(
                        String::from_str(
                            "Minimal mode requires administrator privileges; restart elevated",
                        ),
                    ),
                )
            } else {
                Ok(())
            }
        },
        RoutingMode::Force => {
            if !drivers.hidhide_installed {
                Err(
                    PadSwitchError::DriverNotInstalled(
                        String::from_str("The hiding driver is required for Force mode"),
                    ),
                )
            } else if !drivers.vigembus_installed {
                Err(
                    PadSwitchError::DriverNotInstalled(
                        String::from_str("The virtual bus driver is required for Force mode"),
                    ),
                )
            } else {
                Ok(())
            }
        },
    }
}

/// The per-device half of the reset sweep: enable then unhide, device by
/// device.
pub open spec fn spec_reset_pairs(devices: Seq<PhysicalDevice>) -> Seq<EngineAction> {
    Seq::new(
        2 * devices.len(),
        |i: int|
            if i % 2 == 0 {
                EngineAction::EnableDevice(devices[i / 2].instance_path)
            } else {
                EngineAction::UnhideDevice(devices[i / 2].instance_path)
            },
    )
}

/// The full reset sweep: enable and unhide every known device, then
/// switch the hiding driver off globally.
pub open spec fn spec_reset_plan(devices: Seq<PhysicalDevice>) -> Seq<EngineAction> {
    spec_reset_pairs(devices) + seq![EngineAction::SetHidingActive(false)]
}

/// Build the reset sweep for a device table.  The same sweep serves the
/// user-requested reset and the recovery after a dirty shutdown.
pub fn recovery_plan(devices: &Vec<PhysicalDevice>) -> (r: Vec<EngineAction>)
    ensures
        r@ == spec_reset_plan(devices@),
{
    let mut r: Vec<EngineAction> = Vec::new();
    let n = devices.len();
    let mut i: usize = 0;
    proof {
        assert(r@ =~= spec_reset_pairs(devices@).subrange(0, 0));
    }
    while i < n
        invariant
            i <= n == devices@.len(),
            r@ == spec_reset_pairs(devices@).subrange(0, 2 * i),
        decreases n - i,
    {
        r.push(EngineAction::EnableDevice(devices[i].instance_path.clone()));
        r.push(EngineAction::UnhideDevice(devices[i].instance_path.clone()));
        i += 1;
        proof {
            assert(r@ =~= spec_reset_pairs(devices@).subrange(0, 2 * i));
        }
    }
    r.push(EngineAction::SetHidingActive(false));
    proof {
        assert(spec_reset_pairs(devices@).subrange(0, 2 * devices@.len() as int) =~= spec_reset_pairs(
            devices@,
        ));
        assert(r@ =~= spec_reset_plan(devices@));
    }
    r
}

/// The reset sweep attempts an enable and an unhide for every known
/// device, and ends by switching hiding off.
pub proof fn lemma_reset_plan_covers(devices: Seq<PhysicalDevice>)
    ensures
        forall|i: int|
            0 <= i < devices.len() ==> spec_reset_plan(devices).contains(
                EngineAction::EnableDevice((#[trigger] devices[i]).instance_path),
            ) && spec_reset_plan(devices).contains(
                EngineAction::UnhideDevice(devices[i].instance_path),
            ),
        spec_reset_plan(devices).contains(EngineAction::SetHidingActive(false)),
{
    let plan = spec_reset_plan(devices);
    assert forall|i: int| 0 <= i < devices.len() implies plan.contains(
        EngineAction::EnableDevice((#[trigger] devices[i]).instance_path),
    ) && plan.contains(EngineAction::UnhideDevice(devices[i].instance_path)) by {
        assert(plan[2 * i] == EngineAction::EnableDevice(devices[i].instance_path));
        assert(plan[2 * i + 1] == EngineAction::UnhideDevice(devices[i].instance_path));
    }
    assert(plan[2 * devices.len() as int] == EngineAction::SetHidingActive(false));
}

impl Inner {
    /// Decide a forwarding start.  A start while active is a success that
    /// does nothing.  Otherwise the mode's preflight must pass and the
    /// resolved assignment list must be non-empty; then the forwarding
    /// flag is set and the worker's inputs are handed back.  On any error
    /// the state is untouched and the flag stays clear.
    pub fn start_forwarding(
        &mut self,
        elevated: bool,
        minimal_supported: bool,
        drivers: &DriverStatus,
    ) -> (r: Result<ForwardingStart, PadSwitchError>)
        ensures
            r is Ok ==> final(self).forwarding_active,
            match r {
                Ok(ForwardingStart::AlreadyActive) => old(self).forwarding_active && *final(self)
                    == *old(self),
                Ok(ForwardingStart::Begin { mode, resolved }) => {
                    &&& !old(self).forwarding_active
                    &&& mode == old(self).spec_active_routing_mode()
                    &&& spec_preflight_ok(mode, elevated, minimal_supported, *drivers)
                    &&& resolved@ == spec_resolve(old(self).assignments@, old(self).devices@)
                    &&& resolved@.len() > 0
                    &&& final(self).forwarding_active == true
                    &&& final(self).devices == old(self).devices
                    &&& final(self).assignments == old(self).assignments
                    &&& final(self).driver_status == old(self).driver_status
                    &&& final(self).config == old(self).config
                },
                Err(e) => {
                    &&& !old(self).forwarding_active
                    &&& *final(self) == *old(self)
                    &&& ({
                        let mode = old(self).spec_active_routing_mode();
                        if !spec_preflight_ok(mode, elevated, minimal_supported, *drivers) {
                            match e {
                                PadSwitchError::PlatformNotSupported(_) => mode
                                    == RoutingMode::Minimal && !minimal_supported,
                                PadSwitchError::Platform(_) => mode == RoutingMode::Minimal
                                    && minimal_supported && !elevated,
                                PadSwitchError::DriverNotInstalled(_) => mode == RoutingMode::Force,
                                _ => false,
                            }
                        } else {
                            e is Forwarding && spec_resolve(
                                old(self).assignments@,
                                old(self).devices@,
                            ).len() == 0
                        }
                    })
                },
            },
    {
        if self.forwarding_active {
            return Ok(ForwardingStart::AlreadyActive);
        }
        let mode = self.active_routing_mode();
        match preflight_check(mode, elevated, minimal_supported, drivers) {
            Ok(()) => {},
            Err(e) => {
                return Err(e);
            },
        }
        let resolved = self.resolve_assignments();
        if resolved.len() == 0 {
            return Err(
                PadSwitchError::Forwarding(
                    String::from_str("No valid device assignments to forward"),
                ),
            );
        }
        self.forwarding_active = true;
        Ok(ForwardingStart::Begin { mode, resolved })
    }

    /// Clear the forwarding flag.  The result says whether a worker was
    /// running and must now be stopped and joined.
    pub fn stop_forwarding(&mut self) -> (r: bool)
        ensures
            r == old(self).forwarding_active,
            final(self).forwarding_active == false,
            final(self).devices == old(self).devices,
            final(self).assignments == old(self).assignments,
            final(self).driver_status == old(self).driver_status,
            final(self).config == old(self).config,
    {
        let was = self.forwarding_active;
        self.forwarding_active = false;
        was
    }

    /// Stop then start.  The boolean says whether a worker must be joined
    /// before the new one is spawned; the result is the new start's
    /// decision, never a no-op.
    pub fn restart_forwarding(
        &mut self,
        elevated: bool,
        minimal_supported: bool,
        drivers: &DriverStatus,
    ) -> (r: (bool, Result<ForwardingStart, PadSwitchError>))
        ensures
            r.0 == old(self).forwarding_active,
            match r.1 {
                Ok(ForwardingStart::AlreadyActive) => false,
                Ok(ForwardingStart::Begin { mode, resolved }) => {
                    &&& mode == old(self).spec_active_routing_mode()
                    &&& spec_preflight_ok(mode, elevated, minimal_supported, *drivers)
                    &&& resolved@ == spec_resolve(old(self).assignments@, old(self).devices@)
                    &&& resolved@.len() > 0
                    &&& final(self).forwarding_active == true
                    &&& final(self).devices == old(self).devices
                    &&& final(self).assignments == old(self).assignments
                    &&& final(self).driver_status == old(self).driver_status
                    &&& final(self).config == old(self).config
                },
                Err(e) => {
                    &&& final(self).forwarding_active == false
                    &&& final(self).devices == old(self).devices
                    &&& final(self).assignments == old(self).assignments
                    &&& final(self).driver_status == old(self).driver_status
                    &&& final(self).config == old(self).config
                    &&& ({
                        let mode = old(self).spec_active_routing_mode();
                        if !spec_preflight_ok(mode, elevated, minimal_supported, *drivers) {
                            match e {
                                PadSwitchError::PlatformNotSupported(_) => mode
                                    == RoutingMode::Minimal && !minimal_supported,
                                PadSwitchError::Platform(_) => mode == RoutingMode::Minimal
                                    && minimal_supported && !elevated,
                                PadSwitchError::DriverNotInstalled(_) => mode == RoutingMode::Force,
                                _ => false,
                            }
                        } else {
                            e is Forwarding && spec_resolve(
                                old(self).assignments@,
                                old(self).devices@,
                            ).len() == 0
                        }
                    })
                },
            },
    {
        let was = self.stop_forwarding();
        let started = self.start_forwarding(elevated, minimal_supported, drivers);
        (was, started)
    }

    /// Replace the working assignment set.  Rejects a set whose enabled
    /// entries collide on a slot or name a slot beyond the last one.
    pub fn apply_assignments(&mut self, assignments: Vec<SlotAssignment>) -> (r: Result<
        (),
        PadSwitchError,
    >)
        ensures
            match r {
                Ok(_) => {
                    &&& assignments_wf(assignments@)
                    &&& final(self).assignments == assignments
                    &&& final(self).devices == old(self).devices
                    &&& final(self).driver_status == old(self).driver_status
                    &&& final(self).forwarding_active == old(self).forwarding_active
                    &&& final(self).config == old(self).config
                },
                Err(e) => {
                    &&& !assignments_wf(assignments@)
                    &&& e is Config
                    &&& *final(self) == *old(self)
                },
            },
    {
        if !crate::config::validate_assignments(&assignments) {
            return Err(
                PadSwitchError::Config(
                    String::from_str("Assignments collide on a target slot"),
                ),
            );
        }
        self.assignments = assignments;
        Ok(())
    }

    /// Make a profile active: set the marker and load its assignments
    /// into the working set.  The loaded copy is handed back.  An unknown
    /// profile id is a configuration error and changes nothing.
    pub fn activate_profile(&mut self, profile_id: &String) -> (r: Result<
        Vec<SlotAssignment>,
        PadSwitchError,
    >)
        ensures
            match r {
                Ok(loaded) => {
                    &&& spec_find_profile(old(self).config.profiles@, profile_id@) matches Some(p)
                        && loaded@ == p.assignments@ && final(self).assignments@ == p.assignments@
                    &&& final(self).config.settings.active_profile_id == Some(*profile_id)
                    &&& final(self).devices == old(self).devices
                    &&& final(self).driver_status == old(self).driver_status
                    &&& final(self).forwarding_active == old(self).forwarding_active
                    &&& final(self).config.profiles == old(self).config.profiles
                    &&& final(self).config.game_rules == old(self).config.game_rules
                    &&& final(self).config.settings.auto_start == old(
                        self,
                    ).config.settings.auto_start
                    &&& final(self).config.settings.start_minimized == old(
                        self,
                    ).config.settings.start_minimized
                    &&& final(self).config.settings.auto_forward_on_launch == old(
                        self,
                    ).config.settings.auto_forward_on_launch
                    &&& final(self).config.settings.auto_switch == old(
                        self,
                    ).config.settings.auto_switch
                },
                Err(e) => {
                    &&& spec_find_profile(old(self).config.profiles@, profile_id@) is None
                    &&& e is Config
                    &&& *final(self) == *old(self)
                },
            },
    {
        let loaded: Vec<SlotAssignment>;
        match self.config.find_profile(profile_id) {
            Some(p) => {
                loaded = p.assignments.clone();
                proof {
                    assert(loaded@ =~= p.assignments@);
                }
            },
            None => {
                return Err(PadSwitchError::Config(String::from_str("Profile not found")));
            },
        }
        self.config.settings.active_profile_id = Some(profile_id.clone());
        self.assignments = loaded.clone();
        proof {
            assert(self.assignments@ =~= loaded@);
        }
        Ok(loaded)
    }

    /// Record the OS slot a device was identified to occupy.
    pub fn confirm_device_slot(&mut self, device_id: &String, xinput_slot: u32)
        ensures
            final(self).devices@.len() == old(self).devices@.len(),
            forall|i: int|
                0 <= i < old(self).devices@.len() ==> {
                    let was = old(self).devices@[i];
                    #[trigger] final(self).devices@[i] == if was.id@ == device_id@ {
                        PhysicalDevice {
                            xinput_slot: Some(xinput_slot),
                            id: was.id,
                            name: was.name,
                            instance_path: was.instance_path,
                            device_type: was.device_type,
                            hidden: was.hidden,
                            connected: was.connected,
                            vendor_id: was.vendor_id,
                            product_id: was.product_id,
                        }
                    } else {
                        was
                    }
                },
            final(self).assignments == old(self).assignments,
            final(self).driver_status == old(self).driver_status,
            final(self).forwarding_active == old(self).forwarding_active,
            final(self).config == old(self).config,
    {
        let n = self.devices.len();
        let mut updated: Vec<PhysicalDevice> = Vec::new();
        let mut i: usize = 0;
        while i < n
            invariant
                i <= n == self.devices@.len(),
                self.devices == old(self).devices,
                self.assignments == old(self).assignments,
                self.driver_status == old(self).driver_status,
                self.forwarding_active == old(self).forwarding_active,
                self.config == old(self).config,
                updated@.len() == i,
                forall|k: int|
                    0 <= k < i ==> {
                        let was = old(self).devices@[k];
                        #[trigger] updated@[k] == if was.id@ == device_id@ {
                            PhysicalDevice {
                                xinput_slot: Some(xinput_slot),
                                id: was.id,
                                name: was.name,
                                instance_path: was.instance_path,
                                device_type: was.device_type,
                                hidden: was.hidden,
                                connected: was.connected,
                                vendor_id: was.vendor_id,
                                product_id: was.product_id,
                            }
                        } else {
                            was
                        }
                    },
            decreases n - i,
        {
            let mut device = self.devices[i].clone();
            if string_eq(&device.id, device_id) {
                device.xinput_slot = Some(xinput_slot);
            }
            updated.push(device);
            i += 1;
        }
        self.devices = updated;
    }

    /// Record whether a device is hidden or disabled.
    pub fn set_device_hidden(&mut self, device_id: &String, hidden: bool)
        ensures
            final(self).devices@.len() == old(self).devices@.len(),
            forall|i: int|
                0 <= i < old(self).devices@.len() ==> {
                    let was = old(self).devices@[i];
                    #[trigger] final(self).devices@[i] == if was.id@ == device_id@ {
                        PhysicalDevice {
                            hidden,
                            id: was.id,
                            name: was.name,
                            instance_path: was.instance_path,
                            device_type: was.device_type,
                            connected: was.connected,
                            vendor_id: was.vendor_id,
                            product_id: was.product_id,
                            xinput_slot: was.xinput_slot,
                        }
                    } else {
                        was
                    }
                },
            final(self).assignments == old(self).assignments,
            final(self).driver_status == old(self).driver_status,
            final(self).forwarding_active == old(self).forwarding_active,
            final(self).config == old(self).config,
    {
        let n = self.devices.len();
        let mut updated: Vec<PhysicalDevice> = Vec::new();
        let mut i: usize = 0;
        while i < n
            invariant
                i <= n == self.devices@.len(),
                self.devices == old(self).devices,
                self.assignments == old(self).assignments,
                self.driver_status == old(self).driver_status,
                self.forwarding_active == old(self).forwarding_active,
                self.config == old(self).config,
                updated@.len() == i,
                forall|k: int|
                    0 <= k < i ==> {
                        let was = old(self).devices@[k];
                        #[trigger] updated@[k] == if was.id@ == device_id@ {
                            PhysicalDevice {
                                hidden,
                                id: was.id,
                                name: was.name,
                                instance_path: was.instance_path,
                                device_type: was.device_type,
                                connected: was.connected,
                                vendor_id: was.vendor_id,
                                product_id: was.product_id,
                                xinput_slot: was.xinput_slot,
                            }
                        } else {
                            was
                        }
                    },
            decreases n - i,
        {
            let mut device = self.devices[i].clone();
            if string_eq(&device.id, device_id) {
                device.hidden = hidden;
            }
            updated.push(device);
            i += 1;
        }
        self.devices = updated;
    }

    /// Decide which privileged action toggles a device's visibility: the
    /// Minimal mode disables and enables through the OS installer, the
    /// Force mode hides and unhides through the hiding driver.
    pub fn toggle_device_plan(&self, device_id: &String, hidden: bool) -> (r: Result<
        EngineAction,
        PadSwitchError,
    >)
        ensures
            match r {
                Ok(a) => match spec_find_device(self.devices@, device_id@) {
                    Some(d) => a == (match self.spec_active_routing_mode() {
                        RoutingMode::Minimal => if hidden {
                            EngineAction::DisableDevice(d.instance_path)
                        } else {
                            EngineAction::EnableDevice(d.instance_path)
                        },
                        RoutingMode::Force => if hidden {
                            EngineAction::HideDevice(d.instance_path)
                        } else {
                            EngineAction::UnhideDevice(d.instance_path)
                        },
                    }),
                    None => false,
                },
                Err(e) => spec_find_device(self.devices@, device_id@) is None
                    && e is DeviceNotFound,
            },
    {
        let path: String;
        match find_device(&self.devices, device_id) {
            Some(d) => {
                path = d.instance_path.clone();
            },
            None => {
                return Err(PadSwitchError::DeviceNotFound(device_id.clone()));
            },
        }
        let mode = self.active_routing_mode();
        let action = match mode {
            RoutingMode::Minimal => if hidden {
                EngineAction::DisableDevice(path)
            } else {
                EngineAction::EnableDevice(path)
            },
            RoutingMode::Force => if hidden {
                EngineAction::HideDevice(path)
            } else {
                EngineAction::UnhideDevice(path)
            },
        };
        Ok(action)
    }

    /// The reset sweep's state half: stop forwarding, clear the working
    /// assignments and the active-profile marker, and hand back the plan
    /// that enables and unhides every known device and switches hiding
    /// off.  The embedding program stops the watcher and the worker, then
    /// executes the plan, swallowing per-device failures.
    pub fn reset_all(&mut self) -> (r: Vec<EngineAction>)
        ensures
            r@ == spec_reset_plan(old(self).devices@),
            final(self).forwarding_active == false,
            final(self).assignments@.len() == 0,
            final(self).config.settings.active_profile_id is None,
            final(self).devices == old(self).devices,
            final(self).driver_status == old(self).driver_status,
            final(self).config.profiles == old(self).config.profiles,
            final(self).config.game_rules == old(self).config.game_rules,
            final(self).config.settings.auto_start == old(self).config.settings.auto_start,
            final(self).config.settings.start_minimized == old(
                self,
            ).config.settings.start_minimized,
            final(self).config.settings.auto_forward_on_launch == old(
                self,
            ).config.settings.auto_forward_on_launch,
            final(self).config.settings.auto_switch == old(self).config.settings.auto_switch,
    {
        self.forwarding_active = false;
        self.assignments = Vec::new();
        self.config.settings.active_profile_id = None;
        recovery_plan(&self.devices)
    }

    /// The state half of dirty-shutdown recovery: the active-profile
    /// marker may name a profile that was mid-operation when the previous
    /// session died, so it is cleared.
    pub fn apply_recovery(&mut self)
        ensures
            final(self).config.settings.active_profile_id is None,
            final(self).devices == old(self).devices,
            final(self).assignments == old(self).assignments,
            final(self).driver_status == old(self).driver_status,
            final(self).forwarding_active == old(self).forwarding_active,
            final(self).config.profiles == old(self).config.profiles,
            final(self).config.game_rules == old(self).config.game_rules,
            final(self).config.settings.auto_start == old(self).config.settings.auto_start,
            final(self).config.settings.start_minimized == old(
                self,
            ).config.settings.start_minimized,
            final(self).config.settings.auto_forward_on_launch == old(
                self,
            ).config.settings.auto_forward_on_launch,
            final(self).config.settings.auto_switch == old(self).config.settings.auto_switch,
    {
        self.config.settings.active_profile_id = None;
    }
}

} // verus!
