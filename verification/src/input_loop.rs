//! The routing engine: plans of privileged device actions for the two
//! routing modes.
//!
//! The engine never touches the OS itself.  For each mode it computes the
//! exact ordered sequence of actions the dedicated worker must perform —
//! disables, enables, hides, waits, virtual-bus steps — and the cleanup
//! sequence that releases every resource the start sequence acquired.  The
//! embedding program executes the actions one by one and may abort between
//! steps when the stop flag clears.

use vstd::prelude::*;
use vstd::string::StrSliceExecFns;
use vstd::string::StringSliceAdditionalSpecFns;

use crate::text::{
    ascii_upper_bytes, lemma_filter_push, starts_with_bytes, starts_with_seq, str_bytes,
    upper_bytes,
};

verus! {

/// A slot assignment resolved against the current device table: real
/// instance path, discovered OS slot, and the slot the user wants.
#[derive(Debug)]
pub struct ResolvedAssignment {
    /// Real device instance path.
    pub instance_path: String,
    /// The OS gamepad slot this device currently occupies, if known.
    pub xinput_slot: Option<u32>,
    /// Target slot, between zero and three.
    pub target_slot: u8,
}

impl Clone for ResolvedAssignment {
    /// An exact copy.
    fn clone(&self) -> (r: Self)
        ensures
            r == *self,
    {
        ResolvedAssignment {
            instance_path: self.instance_path.clone(),
            xinput_slot: self.xinput_slot,
            target_slot: self.target_slot,
        }
    }
}

/// One privileged step the worker performs on behalf of the engine.
#[derive(Debug)]
pub enum EngineAction {
    /// Disable the device at this path through the OS device installer.
    DisableDevice(String),
    /// Re-enable the device at this path.
    EnableDevice(String),
    /// Let the OS settle for this many milliseconds.
    SleepMillis(u64),
    /// Put the current executable on the hiding driver's whitelist.
    WhitelistSelf,
    /// Put this instance path on the hiding driver's blacklist.
    HideDevice(String),
    /// Take this instance path off the hiding driver's blacklist.
    UnhideDevice(String),
    /// Switch the hiding driver's global flag.
    SetHidingActive(bool),
    /// Connect to the virtual gamepad bus.
    ConnectVirtualBus,
    /// Plug one virtual controller; the payload is the target slot it is
    /// meant to occupy.  Plugs must complete in order.
    PlugVirtualTarget(u8),
}

impl Clone for EngineAction {
    /// An exact copy.
    fn clone(&self) -> (r: Self)
        ensures
            r == *self,
    {
        match self {
            EngineAction::DisableDevice(p) => EngineAction::DisableDevice(p.clone()),
            EngineAction::EnableDevice(p) => EngineAction::EnableDevice(p.clone()),
            EngineAction::SleepMillis(ms) => EngineAction::SleepMillis(*ms),
            EngineAction::WhitelistSelf => EngineAction::WhitelistSelf,
            EngineAction::HideDevice(p) => EngineAction::HideDevice(p.clone()),
            EngineAction::UnhideDevice(p) => EngineAction::UnhideDevice(p.clone()),
            EngineAction::SetHidingActive(b) => EngineAction::SetHidingActive(*b),
            EngineAction::ConnectVirtualBus => EngineAction::ConnectVirtualBus,
            EngineAction::PlugVirtualTarget(s) => EngineAction::PlugVirtualTarget(*s),
        }
    }
}

/// The assignments whose target slot is exactly `k`, in their given order.
pub open spec fn slot_bucket(s: Seq<ResolvedAssignment>, k: u8) -> Seq<ResolvedAssignment> {
    s.filter(|ra: ResolvedAssignment| ra.target_slot == k)
}

/// The assignments reordered by ascending target slot; assignments on the
/// same slot keep their given order.  A slot is always one of the four
/// the OS offers, so an assignment naming a slot beyond the last one is
/// invalid and takes part in no plan.
pub open spec fn sorted_by_slot(s: Seq<ResolvedAssignment>) -> Seq<ResolvedAssignment> {
    slot_bucket(s, 0) + slot_bucket(s, 1) + slot_bucket(s, 2) + slot_bucket(s, 3)
}

/// Append every assignment with target slot `k` to `out`, in order.
fn push_bucket(out: &mut Vec<ResolvedAssignment>, s: &Vec<ResolvedAssignment>, k: u8)
    ensures
        final(out)@ == old(out)@ + slot_bucket(s@, k),
{
    let mut i: usize = 0;
    proof {
        assert(s@.subrange(0, 0) =~= Seq::<ResolvedAssignment>::empty());
        reveal(Seq::filter);
        assert(old(out)@ + slot_bucket(s@.subrange(0, 0), k) =~= old(out)@);
    }
    while i < s.len()
        invariant
            i <= s@.len(),
            out@ == old(out)@ + slot_bucket(s@.subrange(0, i as int), k),
        decreases s@.len() - i,
    {
        proof {
            assert(s@.subrange(0, i + 1).drop_last() =~= s@.subrange(0, i as int));
            assert(s@.subrange(0, i + 1) =~= s@.subrange(0, i as int).push(s@[i as int]));
            lemma_filter_push(s@.subrange(0, i as int), |ra: ResolvedAssignment| ra.target_slot == k, s@[i as int]);
        }
        if s[i].target_slot == k {
            out.push(s[i].clone());
        }
        i += 1;
    }
    proof {
        assert(s@.subrange(0, s@.len() as int) =~= s@);
    }
}

/// Reorder assignments by ascending target slot, keeping the given order
/// within one slot.
pub fn sort_by_target_slot(s: &Vec<ResolvedAssignment>) -> (r: Vec<ResolvedAssignment>)
    ensures
        r@ == sorted_by_slot(s@),
{
    let mut r: Vec<ResolvedAssignment> = Vec::new();
    push_bucket(&mut r, s, 0);
    push_bucket(&mut r, s, 1);
    push_bucket(&mut r, s, 2);
    push_bucket(&mut r, s, 3);
    proof {
        assert(r@ =~= sorted_by_slot(s@));
    }
    r
}

/// Every entry of one slot bucket names exactly that slot.
proof fn lemma_bucket_slots(s: Seq<ResolvedAssignment>, k: u8)
    ensures
        forall|i: int|
            0 <= i < slot_bucket(s, k).len() ==> (#[trigger] slot_bucket(s, k)[i]).target_slot
                == k,
{
    assert forall|i: int|
        0 <= i < slot_bucket(s, k).len() implies (#[trigger] slot_bucket(s, k)[i]).target_slot
        == k by {
        s.lemma_filter_pred(|ra: ResolvedAssignment| ra.target_slot == k, i);
    }
}

/// The reordered assignments are in ascending target-slot order.
pub proof fn lemma_sorted_by_slot_ordered(s: Seq<ResolvedAssignment>)
    ensures
        forall|i: int, j: int|
            0 <= i < j < sorted_by_slot(s).len() ==> (#[trigger] sorted_by_slot(s)[i]).target_slot
                <= (#[trigger] sorted_by_slot(s)[j]).target_slot,
{
    lemma_bucket_slots(s, 0);
    lemma_bucket_slots(s, 1);
    lemma_bucket_slots(s, 2);
    lemma_bucket_slots(s, 3);
    let full = sorted_by_slot(s);
    let l0 = slot_bucket(s, 0).len() as int;
    let l1 = slot_bucket(s, 1).len() as int;
    let l2 = slot_bucket(s, 2).len() as int;
    assert forall|i: int| 0 <= i < full.len() implies (#[trigger] full[i]).target_slot == (if i
        < l0 {
        0u8
    } else if i < l0 + l1 {
        1u8
    } else if i < l0 + l1 + l2 {
        2u8
    } else {
        3u8
    }) by {
        if i < l0 {
            assert(full[i] == slot_bucket(s, 0)[i]);
        } else if i < l0 + l1 {
            assert(full[i] == slot_bucket(s, 1)[i - l0]);
        } else if i < l0 + l1 + l2 {
            assert(full[i] == slot_bucket(s, 2)[i - l0 - l1]);
        } else {
            assert(full[i] == slot_bucket(s, 3)[i - l0 - l1 - l2]);
        }
    }
}

/// No assignment on a valid slot is lost by the reordering.
pub proof fn lemma_sorted_by_slot_complete(s: Seq<ResolvedAssignment>)
    ensures
        forall|i: int|
            0 <= i < s.len() && (#[trigger] s[i]).target_slot < 4 ==> sorted_by_slot(s).contains(
                s[i],
            ),
{
    assert forall|i: int|
        0 <= i < s.len() && (#[trigger] s[i]).target_slot < 4 implies sorted_by_slot(s).contains(
        s[i],
    ) by {
        let k = s[i].target_slot;
        s.lemma_filter_contains(|ra: ResolvedAssignment| ra.target_slot == k, i);
        let bucket = slot_bucket(s, k);
        let w = choose|w: int| 0 <= w < bucket.len() && bucket[w] == s[i];
        let full = sorted_by_slot(s);
        let l0 = slot_bucket(s, 0).len() as int;
        let l1 = slot_bucket(s, 1).len() as int;
        let l2 = slot_bucket(s, 2).len() as int;
        if k == 0 {
            assert(full[w] == s[i]);
        } else if k == 1 {
            assert(full[l0 + w] == s[i]);
        } else if k == 2 {
            assert(full[l0 + l1 + w] == s[i]);
        } else {
            assert(full[l0 + l1 + l2 + w] == s[i]);
        }
    }
}

/// Whether a path is a fabricated slot marker rather than a real OS device
/// path.  Fabricated paths must never reach hide or disable.
pub open spec fn spec_is_synthetic_path(path_bytes: Seq<u8>) -> bool {
    starts_with_seq(upper_bytes(path_bytes), "XINPUT\\SLOT".spec_bytes())
}

/// The synthetic-path test stated over a character string.
pub open spec fn spec_is_synthetic_chars(s: Seq<char>) -> bool {
    spec_is_synthetic_path(vstd::utf8::encode_utf8(s))
}

/// Test whether a path is a fabricated slot marker (case-insensitively).
pub fn is_synthetic_path(path: &str) -> (r: bool)
    ensures
        r == spec_is_synthetic_path(path.spec_bytes()),
{
    let up = ascii_upper_bytes(&str_bytes(path));
    let prefix = str_bytes("XINPUT\\SLOT");
    starts_with_bytes(&up, &prefix)
}

/// One disable per assignment, in order.
pub open spec fn disable_actions(s: Seq<ResolvedAssignment>) -> Seq<EngineAction> {
    Seq::new(s.len(), |i: int| EngineAction::DisableDevice(s[i].instance_path))
}

/// One enable per assignment, in order.
pub open spec fn enable_actions(s: Seq<ResolvedAssignment>) -> Seq<EngineAction> {
    Seq::new(s.len(), |i: int| EngineAction::EnableDevice(s[i].instance_path))
}

/// One hide per assignment, in order.
pub open spec fn hide_actions(s: Seq<ResolvedAssignment>) -> Seq<EngineAction> {
    Seq::new(s.len(), |i: int| EngineAction::HideDevice(s[i].instance_path))
}

/// One unhide per assignment, in order.
pub open spec fn unhide_actions(s: Seq<ResolvedAssignment>) -> Seq<EngineAction> {
    Seq::new(s.len(), |i: int| EngineAction::UnhideDevice(s[i].instance_path))
}

/// One virtual-controller plug per assignment, in order.
pub open spec fn plug_actions(s: Seq<ResolvedAssignment>) -> Seq<EngineAction> {
    Seq::new(s.len(), |i: int| EngineAction::PlugVirtualTarget(s[i].target_slot))
}

/// The enables of the Minimal pipeline, with a settling pause between
/// consecutive enables (none after the last).
pub open spec fn staggered_enable_actions(s: Seq<ResolvedAssignment>) -> Seq<EngineAction> {
    Seq::new(
        if s.len() == 0 {
            0
        } else {
            (2 * s.len() - 1) as nat
        },
        |i: int|
            if i % 2 == 0 {
                EngineAction::EnableDevice(s[i / 2].instance_path)
            } else {
                EngineAction::SleepMillis(100)
            },
    )
}

/// The Minimal pipeline over an already sorted assignment list: disable
/// every device, wait for the OS to settle, then re-enable in target-slot
/// order with a pause between enables.  The enable order is what makes the
/// OS hand out slots deterministically.
pub open spec fn minimal_reorder_plan_spec(s: Seq<ResolvedAssignment>) -> Seq<EngineAction> {
    disable_actions(s) + seq![EngineAction::SleepMillis(200)] + staggered_enable_actions(s)
}

/// The Minimal cleanup over an already sorted assignment list: best-effort
/// re-enable of every touched device.
pub open spec fn minimal_cleanup_plan_spec(s: Seq<ResolvedAssignment>) -> Seq<EngineAction> {
    enable_actions(s)
}

/// The Force acquisition over an already sorted assignment list: whitelist
/// this process, hide every source device, switch hiding on, connect to
/// the virtual bus, then plug one virtual controller per assignment in
/// target-slot order.
pub open spec fn force_acquire_plan_spec(s: Seq<ResolvedAssignment>) -> Seq<EngineAction> {
    seq![EngineAction::WhitelistSelf] + hide_actions(s) + seq![
        EngineAction::SetHidingActive(true),
        EngineAction::ConnectVirtualBus,
    ] + plug_actions(s)
}

/// The Force cleanup over an already sorted assignment list: switch hiding
/// off globally, then unhide every touched device.  The virtual targets
/// are released by dropping them before this plan runs.
pub open spec fn force_cleanup_plan_spec(s: Seq<ResolvedAssignment>) -> Seq<EngineAction> {
    seq![EngineAction::SetHidingActive(false)] + unhide_actions(s)
}

/// Append one action per assignment, produced by `mk`, matching the spec
/// sequence `expect`.
fn push_per_assignment(
    out: &mut Vec<EngineAction>,
    s: &Vec<ResolvedAssignment>,
    kind: u8,
)
    requires
        kind < 4,
    ensures
        final(out)@ == old(out)@ + (if kind == 0 {
            disable_actions(s@)
        } else if kind == 1 {
            enable_actions(s@)
        } else if kind == 2 {
            hide_actions(s@)
        } else {
            unhide_actions(s@)
        }),
{
    let ghost expect: Seq<EngineAction> = if kind == 0 {
        disable_actions(s@)
    } else if kind == 1 {
        enable_actions(s@)
    } else if kind == 2 {
        hide_actions(s@)
    } else {
        unhide_actions(s@)
    };
    let mut i: usize = 0;
    proof {
        assert(out@ =~= old(out)@ + expect.subrange(0, 0));
    }
    while i < s.len()
        invariant
            i <= s@.len(),
            kind < 4,
            expect == (if kind == 0 {
                disable_actions(s@)
            } else if kind == 1 {
                enable_actions(s@)
            } else if kind == 2 {
                hide_actions(s@)
            } else {
                unhide_actions(s@)
            }),
            out@ == old(out)@ + expect.subrange(0, i as int),
        decreases s@.len() - i,
    {
        let path = s[i].instance_path.clone();
        if kind == 0 {
            out.push(EngineAction::DisableDevice(path));
        } else if kind == 1 {
            out.push(EngineAction::EnableDevice(path));
        } else if kind == 2 {
            out.push(EngineAction::HideDevice(path));
        } else {
            out.push(EngineAction::UnhideDevice(path));
        }
        i += 1;
        proof {
            assert(out@ =~= old(out)@ + expect.subrange(0, i as int));
        }
    }
    proof {
        assert(expect.subrange(0, s@.len() as int) =~= expect);
    }
}

/// Build the Minimal reordering plan for the given assignments; they are
/// sorted by target slot first.
pub fn minimal_reorder_plan(assignments: &Vec<ResolvedAssignment>) -> (r: Vec<EngineAction>)
    ensures
        r@ == minimal_reorder_plan_spec(sorted_by_slot(assignments@)),
{
    let sorted = sort_by_target_slot(assignments);
    let mut r: Vec<EngineAction> = Vec::new();
    push_per_assignment(&mut r, &sorted, 0);
    r.push(EngineAction::SleepMillis(200));
    let ghost head: Seq<EngineAction> = disable_actions(sorted@) + seq![
        EngineAction::SleepMillis(200),
    ];
    proof {
        assert(r@ =~= head + staggered_enable_actions(sorted@).subrange(0, 0));
    }
    let mut i: usize = 0;
    while i < sorted.len()
        invariant
            i <= sorted@.len(),
            head == disable_actions(sorted@) + seq![EngineAction::SleepMillis(200)],
            r@ == head + staggered_enable_actions(sorted@).subrange(
                0,
                if i == sorted@.len() && i > 0 {
                    2 * i - 1
                } else {
                    2 * i
                },
            ),
        decreases sorted@.len() - i,
    {
        r.push(EngineAction::EnableDevice(sorted[i].instance_path.clone()));
        if i + 1 < sorted.len() {
            r.push(EngineAction::SleepMillis(100));
        }
        i += 1;
        proof {
            let bound: int = if i == sorted@.len() && i > 0 {
                2 * i - 1
            } else {
                2 * i
            };
            assert(r@ =~= head + staggered_enable_actions(sorted@).subrange(0, bound));
        }
    }
    proof {
        let n = sorted@.len() as int;
        let full: int = if n == 0 {
            0
        } else {
            2 * n - 1
        };
        assert(staggered_enable_actions(sorted@).subrange(0, full) =~= staggered_enable_actions(
            sorted@,
        ));
        assert(r@ =~= minimal_reorder_plan_spec(sorted_by_slot(assignments@)));
    }
    r
}

/// Build the Minimal cleanup plan: re-enable every assigned device, in
/// target-slot order.
pub fn minimal_cleanup_plan(assignments: &Vec<ResolvedAssignment>) -> (r: Vec<EngineAction>)
    ensures
        r@ == minimal_cleanup_plan_spec(sorted_by_slot(assignments@)),
{
    let sorted = sort_by_target_slot(assignments);
    let mut r: Vec<EngineAction> = Vec::new();
    push_per_assignment(&mut r, &sorted, 1);
    proof {
        assert(r@ =~= minimal_cleanup_plan_spec(sorted_by_slot(assignments@)));
    }
    r
}

/// Build the Force acquisition plan for the given assignments; they are
/// sorted by target slot first.
pub fn force_acquire_plan(assignments: &Vec<ResolvedAssignment>) -> (r: Vec<EngineAction>)
    ensures
        r@ == force_acquire_plan_spec(sorted_by_slot(assignments@)),
{
    let sorted = sort_by_target_slot(assignments);
    let mut r: Vec<EngineAction> = Vec::new();
    r.push(EngineAction::WhitelistSelf);
    push_per_assignment(&mut r, &sorted, 2);
    r.push(EngineAction::SetHidingActive(true));
    r.push(EngineAction::ConnectVirtualBus);
    let ghost head: Seq<EngineAction> = seq![EngineAction::WhitelistSelf] + hide_actions(sorted@)
        + seq![EngineAction::SetHidingActive(true), EngineAction::ConnectVirtualBus];
    proof {
        assert(r@ =~= head + plug_actions(sorted@).subrange(0, 0));
    }
    let mut i: usize = 0;
    while i < sorted.len()
        invariant
            i <= sorted@.len(),
            head == seq![EngineAction::WhitelistSelf] + hide_actions(sorted@) + seq![
                EngineAction::SetHidingActive(true),
                EngineAction::ConnectVirtualBus,
            ],
            r@ == head + plug_actions(sorted@).subrange(0, i as int),
        decreases sorted@.len() - i,
    {
        r.push(EngineAction::PlugVirtualTarget(sorted[i].target_slot));
        i += 1;
        proof {
            assert(r@ =~= head + plug_actions(sorted@).subrange(0, i as int));
        }
    }
    proof {
        assert(plug_actions(sorted@).subrange(0, sorted@.len() as int) =~= plug_actions(sorted@));
        assert(r@ =~= force_acquire_plan_spec(sorted_by_slot(assignments@)));
    }
    r
}

/// Build the Force cleanup plan: switch hiding off, then unhide every
/// assigned device, in target-slot order.
pub fn force_cleanup_plan(assignments: &Vec<ResolvedAssignment>) -> (r: Vec<EngineAction>)
    ensures
        r@ == force_cleanup_plan_spec(sorted_by_slot(assignments@)),
{
    let sorted = sort_by_target_slot(assignments);
    let mut r: Vec<EngineAction> = Vec::new();
    r.push(EngineAction::SetHidingActive(false));
    push_per_assignment(&mut r, &sorted, 3);
    proof {
        assert(r@ =~= force_cleanup_plan_spec(sorted_by_slot(assignments@)));
    }
    r
}

/// Every assignment on a valid slot is disabled and re-enabled by the
/// Minimal reordering plan.
pub proof fn lemma_minimal_plan_covers(s: Seq<ResolvedAssignment>)
    ensures
        forall|i: int|
            0 <= i < s.len() && (#[trigger] s[i]).target_slot < 4 ==> minimal_reorder_plan_spec(
                sorted_by_slot(s),
            ).contains(EngineAction::DisableDevice(s[i].instance_path))
                && minimal_reorder_plan_spec(sorted_by_slot(s)).contains(
                EngineAction::EnableDevice(s[i].instance_path),
            ),
{
    lemma_sorted_by_slot_complete(s);
    let sorted = sorted_by_slot(s);
    let plan = minimal_reorder_plan_spec(sorted);
    let n = sorted.len() as int;
    assert forall|i: int|
        0 <= i < s.len() && (#[trigger] s[i]).target_slot < 4 implies plan.contains(
        EngineAction::DisableDevice(s[i].instance_path),
    ) && plan.contains(EngineAction::EnableDevice(s[i].instance_path)) by {
        let w = choose|w: int| 0 <= w < sorted.len() && sorted[w] == s[i];
        assert(plan[w] == EngineAction::DisableDevice(s[i].instance_path));
        assert(staggered_enable_actions(sorted)[2 * w] == EngineAction::EnableDevice(
            s[i].instance_path,
        ));
        assert(plan[n + 1 + 2 * w] == EngineAction::EnableDevice(s[i].instance_path));
    }
}

/// Every assignment on a valid slot is hidden, and gets its virtual
/// controller plugged, by the Force acquisition plan.
pub proof fn lemma_force_plan_covers(s: Seq<ResolvedAssignment>)
    ensures
        forall|i: int|
            0 <= i < s.len() && (#[trigger] s[i]).target_slot < 4 ==> force_acquire_plan_spec(
                sorted_by_slot(s),
            ).contains(EngineAction::HideDevice(s[i].instance_path))
                && force_acquire_plan_spec(sorted_by_slot(s)).contains(
                EngineAction::PlugVirtualTarget(s[i].target_slot),
            ),
{
    lemma_sorted_by_slot_complete(s);
    let sorted = sorted_by_slot(s);
    let plan = force_acquire_plan_spec(sorted);
    let n = sorted.len() as int;
    assert forall|i: int|
        0 <= i < s.len() && (#[trigger] s[i]).target_slot < 4 implies plan.contains(
        EngineAction::HideDevice(s[i].instance_path),
    ) && plan.contains(EngineAction::PlugVirtualTarget(s[i].target_slot)) by {
        let w = choose|w: int| 0 <= w < sorted.len() && sorted[w] == s[i];
        assert(plan[1 + w] == EngineAction::HideDevice(s[i].instance_path));
        assert(plan[n + 3 + w] == EngineAction::PlugVirtualTarget(s[i].target_slot));
    }
}

/// Every device the Force acquisition hides, the Force cleanup unhides:
/// a failed start can always release what it acquired.
pub proof fn lemma_force_cleanup_covers(s: Seq<ResolvedAssignment>)
    ensures
        forall|p: String|
            force_acquire_plan_spec(s).contains(EngineAction::HideDevice(p))
                ==> #[trigger] force_cleanup_plan_spec(s).contains(EngineAction::UnhideDevice(p)),
{
    let acq = force_acquire_plan_spec(s);
    let cln = force_cleanup_plan_spec(s);
    assert forall|p: String|
        acq.contains(EngineAction::HideDevice(p)) implies #[trigger] cln.contains(
        EngineAction::UnhideDevice(p),
    ) by {
        let i = choose|i: int| 0 <= i < acq.len() && acq[i] == EngineAction::HideDevice(p);
        assert(1 <= i < 1 + s.len());
        assert(s[i - 1].instance_path == p);
        assert(cln[i] == EngineAction::UnhideDevice(p));
    }
}

} // verus!
