//! The auto-switch watcher: a pure transition function from the running
//! process list to profile activations.
//!
//! A background thread of the embedding program polls the OS process table,
//! hands each snapshot to `watcher_tick`, and performs the activation the
//! tick decides.  All rule matching and the launch/exit/switch transition
//! table live here, verified.

use vstd::prelude::*;
use vstd::string::StringSliceAdditionalSpecFns;
use vstd::utf8::encode_utf8;

use crate::config::{spec_find_profile, AppConfig, GameRule};
use crate::text::{eq_ignore_ascii_case, string_eq, upper_bytes};

verus! {

/// What the watcher remembers between ticks: the rule whose game is
/// currently running, and the profile that was active before it launched.
#[derive(Debug)]
pub struct WatcherState {
    pub active_rule_id: Option<String>,
    pub pre_game_profile_id: Option<String>,
}

impl Clone for WatcherState {
    /// An exact copy.
    fn clone(&self) -> (r: Self)
        ensures
            r == *self,
    {
        WatcherState {
            active_rule_id: match &self.active_rule_id {
                Some(s) => Some(s.clone()),
                None => None,
            },
            pre_game_profile_id: match &self.pre_game_profile_id {
                Some(s) => Some(s.clone()),
                None => None,
            },
        }
    }
}

impl WatcherState {
    /// The initial state: no game running, nothing to revert to.
    pub fn new() -> (r: Self)
        ensures
            r.active_rule_id is None,
            r.pre_game_profile_id is None,
    {
        WatcherState { active_rule_id: None, pre_game_profile_id: None }
    }
}

/// What one tick asks the embedding program to do.
#[derive(Debug)]
pub enum WatcherAction {
    /// Nothing changed.
    Idle,
    /// Activate the profile with this id (a game launched or changed).
    Activate(String),
    /// A game exited: activate the remembered profile, or clear the
    /// active profile when there is none to return to.
    Revert(Option<String>),
}

/// Two character strings agree up to ASCII case.
pub open spec fn chars_eq_ci(a: Seq<char>, b: Seq<char>) -> bool {
    upper_bytes(encode_utf8(a)) == upper_bytes(encode_utf8(b))
}

/// Whether a rule's executable name occurs in the process list, compared
/// case-insensitively.
pub open spec fn spec_rule_matches(rule: GameRule, processes: Seq<String>) -> bool {
    exists|i: int| 0 <= i < processes.len() && chars_eq_ci((#[trigger] processes[i])@, rule.exe_name@)
}

/// The first enabled rule whose executable is running, if any.
pub open spec fn spec_find_rule(rules: Seq<GameRule>, processes: Seq<String>) -> Option<GameRule>
    decreases rules.len(),
{
    if rules.len() == 0 {
        None
    } else if rules[0].enabled && spec_rule_matches(rules[0], processes) {
        Some(rules[0])
    } else {
        spec_find_rule(rules.drop_first(), processes)
    }
}

/// Whether this process list contains the executable name, compared
/// case-insensitively.
fn any_process_matches(processes: &Vec<String>, exe_name: &String) -> (r: bool)
    ensures
        r == exists|i: int|
            0 <= i < processes@.len() && chars_eq_ci((#[trigger] processes@[i])@, exe_name@),
{
    let mut i: usize = 0;
    while i < processes.len()
        invariant
            i <= processes@.len(),
            forall|k: int| 0 <= k < i ==> !chars_eq_ci((#[trigger] processes@[k])@, exe_name@),
        decreases processes@.len() - i,
    {
        if eq_ignore_ascii_case(processes[i].as_str(), exe_name.as_str()) {
            return true;
        }
        i += 1;
    }
    false
}

/// Find the first enabled rule whose executable is running.
pub fn find_matching_rule<'a>(rules: &'a Vec<GameRule>, processes: &Vec<String>) -> (r: Option<
    &'a GameRule,
>)
    ensures
        match r {
            Some(rule) => spec_find_rule(rules@, processes@) == Some(*rule),
            None => spec_find_rule(rules@, processes@) is None,
        },
{
    let n = rules.len();
    let mut i: usize = 0;
    proof {
        assert(rules@.subrange(0, n as int) =~= rules@);
    }
    while i < n
        invariant
            i <= n == rules@.len(),
            spec_find_rule(rules@, processes@) == spec_find_rule(
                rules@.subrange(i as int, n as int),
                processes@,
            ),
        decreases n - i,
    {
        proof {
            let rest = rules@.subrange(i as int, n as int);
            assert(rest[0] == rules@[i as int]);
            assert(rest.drop_first() =~= rules@.subrange(i + 1, n as int));
        }
        if rules[i].enabled && any_process_matches(processes, &rules[i].exe_name) {
            return Some(&rules[i]);
        }
        i += 1;
    }
    proof {
        assert(rules@.subrange(n as int, n as int) =~= Seq::<GameRule>::empty());
    }
    None
}

/// One watcher tick: match the process list against the rules and apply
/// the transition table.
///
/// - No game was running and none is: idle.
/// - A game launched: remember the profile that was active, activate the
///   rule's profile, remember the rule.
/// - The game exited: revert to the remembered profile and forget the rule.
/// - The same game keeps running: idle.
/// - A different game matched: activate its profile and remember its rule;
///   the pre-game profile stays remembered.
///
/// An activation is only decided when the rule's profile actually exists
/// in the configuration; a rule pointing nowhere leaves the state alone.
pub fn watcher_tick(
    state: &WatcherState,
    config: &AppConfig,
    current_profile_id: &Option<String>,
    processes: &Vec<String>,
) -> (r: (WatcherState, WatcherAction))
    ensures
        ({
            let matched = spec_find_rule(config.game_rules@, processes@);
            match (state.active_rule_id, matched) {
                (Option::None, Option::None) => r.0 == *state && r.1 is Idle,
                (Option::None, Option::Some(rule)) => {
                    if spec_find_profile(config.profiles@, rule.profile_id@) is Some {
                        &&& r.0.active_rule_id == Some(rule.id)
                        &&& r.0.pre_game_profile_id == *current_profile_id
                        &&& r.1 == WatcherAction::Activate(rule.profile_id)
                    } else {
                        r.0 == *state && r.1 is Idle
                    }
                },
                (Option::Some(_), Option::None) => {
                    &&& r.0.active_rule_id is None
                    &&& r.0.pre_game_profile_id is None
                    &&& r.1 == WatcherAction::Revert(state.pre_game_profile_id)
                },
                (Option::Some(cur), Option::Some(rule)) => {
                    if cur@ == rule.id@ {
                        r.0 == *state && r.1 is Idle
                    } else if spec_find_profile(config.profiles@, rule.profile_id@) is Some {
                        &&& r.0.active_rule_id == Some(rule.id)
                        &&& r.0.pre_game_profile_id == state.pre_game_profile_id
                        &&& r.1 == WatcherAction::Activate(rule.profile_id)
                    } else {
                        r.0 == *state && r.1 is Idle
                    }
                },
            }
        }),
{
    let matched = find_matching_rule(&config.game_rules, processes);
    match (&state.active_rule_id, matched) {
        (Option::None, Option::None) => (state.clone(), WatcherAction::Idle),
        (Option::None, Option::Some(rule)) => {
            if config.profile_exists(&rule.profile_id) {
                let new_state = WatcherState {
                    active_rule_id: Some(rule.id.clone()),
                    pre_game_profile_id: match current_profile_id {
                        Some(p) => Some(p.clone()),
                        None => None,
                    },
                };
                (new_state, WatcherAction::Activate(rule.profile_id.clone()))
            } else {
                (state.clone(), WatcherAction::Idle)
            }
        },
        (Option::Some(_), Option::None) => {
            let previous = match &state.pre_game_profile_id {
                Some(p) => Some(p.clone()),
                None => None,
            };
            (
                WatcherState { active_rule_id: None, pre_game_profile_id: None },
                WatcherAction::Revert(previous),
            )
        },
        (Option::Some(cur), Option::Some(rule)) => {
            if string_eq(cur, &rule.id) {
                (state.clone(), WatcherAction::Idle)
            } else if config.profile_exists(&rule.profile_id) {
                let new_state = WatcherState {
                    active_rule_id: Some(rule.id.clone()),
                    pre_game_profile_id: match &state.pre_game_profile_id {
                        Some(p) => Some(p.clone()),
                        None => None,
                    },
                };
                (new_state, WatcherAction::Activate(rule.profile_id.clone()))
            } else {
                (state.clone(), WatcherAction::Idle)
            }
        },
    }
}

} // verus!
