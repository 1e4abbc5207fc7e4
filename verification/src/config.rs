//! Persisted configuration: routing profiles, game rules and settings.
//!
//! The configuration record is mutated only through the methods here, which
//! keep every stored profile well formed: enabled assignments within one
//! profile never share a target slot.  Reading and writing the document on
//! disk is the embedding program's job.

use vstd::prelude::*;
use vstd::string::StringExecFns;

use crate::device::{random_uuid_string, SlotAssignment};
use crate::error::PadSwitchError;
use crate::text::{lemma_filter_push, string_eq};

verus! {

/// The strategy by which the engine imposes a slot order.
#[derive(Debug, Clone, Copy, PartialEq, Eq, Structural)]
pub enum RoutingMode {
    /// Reorder the real devices by disabling and re-enabling them.
    Minimal,
    /// Hide the real devices and publish virtual controllers.
    Force,
}

impl Default for RoutingMode {
    /// Minimal is the default routing mode.
    fn default() -> (r: Self)
        ensures
            r == RoutingMode::Minimal,
    {
        RoutingMode::Minimal
    }
}

/// The historical default of a rule's enabled flag.
pub fn default_true() -> (r: bool)
    ensures
        r == true,
{
    true
}

/// A named set of slot assignments plus a routing mode.
#[derive(Debug)]
pub struct Profile {
    pub id: String,
    pub name: String,
    pub assignments: Vec<SlotAssignment>,
    pub routing_mode: RoutingMode,
}

/// Two profiles carry the same contents: every field agrees, the
/// assignment vectors element by element.
pub open spec fn profile_eq(a: Profile, b: Profile) -> bool {
    &&& a.id == b.id
    &&& a.name == b.name
    &&& a.assignments@ == b.assignments@
    &&& a.routing_mode == b.routing_mode
}

/// Two profile sequences agree element by element on their contents.
pub open spec fn profiles_eq(a: Seq<Profile>, b: Seq<Profile>) -> bool {
    a.len() == b.len() && forall|i: int| 0 <= i < a.len() ==> profile_eq(#[trigger] a[i], b[i])
}

impl Clone for Profile {
    /// A copy with the same contents.
    fn clone(&self) -> (r: Self)
        ensures
            profile_eq(r, *self),
    {
        let assignments = self.assignments.clone();
        proof {
            assert(assignments@ =~= self.assignments@);
        }
        Profile {
            id: self.id.clone(),
            name: self.name.clone(),
            assignments,
            routing_mode: self.routing_mode,
        }
    }
}

/// A rule that activates a profile while a named executable is running.
#[derive(Debug)]
pub struct GameRule {
    pub id: String,
    /// Executable filename to match, compared case-insensitively.
    pub exe_name: String,
    /// Which profile to activate while the executable runs.
    pub profile_id: String,
    /// Whether this rule takes part in auto-switching.
    pub enabled: bool,
}

impl Clone for GameRule {
    /// An exact copy.
    fn clone(&self) -> (r: Self)
        ensures
            r == *self,
    {
        GameRule {
            id: self.id.clone(),
            exe_name: self.exe_name.clone(),
            profile_id: self.profile_id.clone(),
            enabled: self.enabled,
        }
    }
}

/// User preferences and the active profile marker.
#[derive(Debug)]
pub struct Settings {
    pub auto_start: bool,
    pub start_minimized: bool,
    pub auto_forward_on_launch: bool,
    /// Whether the process watcher auto-switches profiles.
    pub auto_switch: bool,
    pub active_profile_id: Option<String>,
}

impl Clone for Settings {
    /// An exact copy.
    fn clone(&self) -> (r: Self)
        ensures
            r == *self,
    {
        Settings {
            auto_start: self.auto_start,
            start_minimized: self.start_minimized,
            auto_forward_on_launch: self.auto_forward_on_launch,
            auto_switch: self.auto_switch,
            active_profile_id: match &self.active_profile_id {
                Some(s) => Some(s.clone()),
                None => None,
            },
        }
    }
}

impl Default for Settings {
    /// Everything off, no active profile.
    fn default() -> (r: Self)
        ensures
            r.auto_start == false,
            r.start_minimized == false,
            r.auto_forward_on_launch == false,
            r.auto_switch == false,
            r.active_profile_id is None,
    {
        Settings {
            auto_start: false,
            start_minimized: false,
            auto_forward_on_launch: false,
            auto_switch: false,
            active_profile_id: None,
        }
    }
}

/// The whole persisted document: settings, profiles and game rules.
#[derive(Debug)]
pub struct AppConfig {
    pub settings: Settings,
    pub profiles: Vec<Profile>,
    pub game_rules: Vec<GameRule>,
}

impl Clone for AppConfig {
    /// A copy with the same contents.
    fn clone(&self) -> (r: Self)
        ensures
            r.settings == self.settings,
            profiles_eq(r.profiles@, self.profiles@),
            r.game_rules@ == self.game_rules@,
    {
        let profiles = self.profiles.clone();
        let game_rules = self.game_rules.clone();
        proof {
            assert(game_rules@ =~= self.game_rules@);
        }
        AppConfig { settings: self.settings.clone(), profiles, game_rules }
    }
}

impl Default for AppConfig {
    /// Default settings, no profiles, no game rules.
    fn default() -> (r: Self)
        ensures
            r.settings.auto_start == false,
            r.settings.start_minimized == false,
            r.settings.auto_forward_on_launch == false,
            r.settings.auto_switch == false,
            r.settings.active_profile_id is None,
            r.profiles@.len() == 0,
            r.game_rules@.len() == 0,
    {
        AppConfig { settings: Settings::default(), profiles: Vec::new(), game_rules: Vec::new() }
    }
}

/// No two enabled assignments claim the same target slot.
pub open spec fn enabled_slots_distinct(s: Seq<SlotAssignment>) -> bool {
    forall|i: int, j: int|
        0 <= i < j < s.len() && (#[trigger] s[i]).enabled && (#[trigger] s[j]).enabled ==> s[i].slot
            != s[j].slot
}

/// A well-formed assignment set: every slot is below four and enabled
/// assignments are pairwise distinct on their slots.
pub open spec fn assignments_wf(s: Seq<SlotAssignment>) -> bool {
    &&& forall|i: int| 0 <= i < s.len() ==> (#[trigger] s[i]).slot < 4
    &&& enabled_slots_distinct(s)
}

/// Check an assignment set for well-formedness.
pub fn validate_assignments(v: &Vec<SlotAssignment>) -> (r: bool)
    ensures
        r == assignments_wf(v@),
{
    let mut i: usize = 0;
    while i < v.len()
        invariant
            i <= v@.len(),
            forall|k: int| 0 <= k < i ==> (#[trigger] v@[k]).slot < 4,
            forall|k: int, l: int|
                0 <= k < l < i && (#[trigger] v@[k]).enabled && (#[trigger] v@[l]).enabled
                    ==> v@[k].slot != v@[l].slot,
        decreases v@.len() - i,
    {
        if v[i].slot >= 4 {
            return false;
        }
        if v[i].enabled {
            let mut j: usize = 0;
            while j < i
                invariant
                    j <= i < v@.len(),
                    v@[i as int].enabled,
                    forall|k: int|
                        0 <= k < j && (#[trigger] v@[k]).enabled ==> v@[k].slot
                            != v@[i as int].slot,
                decreases i - j,
            {
                if v[j].enabled && v[j].slot == v[i].slot {
                    return false;
                }
                j += 1;
            }
        }
        i += 1;
    }
    true
}

/// The first profile with the given id, if any.
pub open spec fn spec_find_profile(profiles: Seq<Profile>, id: Seq<char>) -> Option<Profile>
    decreases profiles.len(),
{
    if profiles.len() == 0 {
        None
    } else if profiles[0].id@ == id {
        Some(profiles[0])
    } else {
        spec_find_profile(profiles.drop_first(), id)
    }
}

impl AppConfig {
    /// Look up a profile by id; the result borrows the first match.
    pub fn find_profile(&self, profile_id: &String) -> (r: Option<&Profile>)
        ensures
            match r {
                Some(p) => spec_find_profile(self.profiles@, profile_id@) == Some(*p),
                None => spec_find_profile(self.profiles@, profile_id@) is None,
            },
    {
        let n = self.profiles.len();
        let mut i: usize = 0;
        proof {
            assert(self.profiles@.subrange(0, n as int) =~= self.profiles@);
        }
        while i < n
            invariant
                i <= n == self.profiles@.len(),
                spec_find_profile(self.profiles@, profile_id@) == spec_find_profile(
                    self.profiles@.subrange(i as int, n as int),
                    profile_id@,
                ),
            decreases n - i,
        {
            proof {
                let rest = self.profiles@.subrange(i as int, n as int);
                assert(rest[0] == self.profiles@[i as int]);
                assert(rest.drop_first() =~= self.profiles@.subrange(i + 1, n as int));
            }
            if string_eq(&self.profiles[i].id, profile_id) {
                return Some(&self.profiles[i]);
            }
            i += 1;
        }
        proof {
            assert(self.profiles@.subrange(n as int, n as int) =~= Seq::<Profile>::empty());
        }
        None
    }

    /// Whether a profile with this id exists.
    pub fn profile_exists(&self, profile_id: &String) -> (r: bool)
        ensures
            r == (spec_find_profile(self.profiles@, profile_id@) is Some),
    {
        self.find_profile(profile_id).is_some()
    }

    /// Create a profile with a freshly drawn id and append it.  Rejects an
    /// assignment set whose enabled entries collide on a slot or name a
    /// slot beyond the last one.
    pub fn save_profile(
        &mut self,
        name: String,
        assignments: Vec<SlotAssignment>,
        routing_mode: Option<RoutingMode>,
    ) -> (r: Result<Profile, PadSwitchError>)
        ensures
            match r {
                Ok(p) => {
                    &&& assignments_wf(assignments@)
                    &&& p.id@.len() == 36
                    &&& p.name == name
                    &&& p.assignments == assignments
                    &&& p.routing_mode == (match routing_mode {
                        Some(m) => m,
                        None => RoutingMode::Minimal,
                    })
                    &&& final(self).profiles@.len() == old(self).profiles@.len() + 1
                    &&& final(self).profiles@.drop_last() == old(self).profiles@
                    &&& profile_eq(final(self).profiles@.last(), p)
                    &&& final(self).settings == old(self).settings
                    &&& final(self).game_rules == old(self).game_rules
                },
                Err(e) => {
                    &&& !assignments_wf(assignments@)
                    &&& e is Config
                    &&& *final(self) == *old(self)
                },
            },
    {
        if !validate_assignments(&assignments) {
            return Err(
                PadSwitchError::Config(
                    String::from_str("Profile assignments collide on a target slot"),
                ),
            );
        }
        let id = random_uuid_string();
        let mode = match routing_mode {
            Some(m) => m,
            None => RoutingMode::Minimal,
        };
        let stored = Profile {
            id: id.clone(),
            name: name.clone(),
            assignments: assignments.clone(),
            routing_mode: mode,
        };
        proof {
            assert(stored.assignments@ =~= assignments@);
        }
        self.profiles.push(stored);
        proof {
            assert(self.profiles@.drop_last() =~= old(self).profiles@);
        }
        Ok(Profile { id, name, assignments, routing_mode: mode })
    }

    /// Remove the profile with this id, every game rule that references
    /// it, and the active-profile marker when it pointed there.
    pub fn delete_profile(&mut self, profile_id: &String)
        ensures
            profiles_eq(
                final(self).profiles@,
                old(self).profiles@.filter(|p: Profile| p.id@ != profile_id@),
            ),
            final(self).game_rules@ == old(self).game_rules@.filter(
                |r: GameRule| r.profile_id@ != profile_id@,
            ),
            final(self).settings.active_profile_id == (match old(self).settings.active_profile_id {
                Some(a) => if a@ == profile_id@ {
                    None
                } else {
                    Some(a)
                },
                None => None::<String>,
            }),
            final(self).settings.auto_start == old(self).settings.auto_start,
            final(self).settings.start_minimized == old(self).settings.start_minimized,
            final(self).settings.auto_forward_on_launch == old(
                self,
            ).settings.auto_forward_on_launch,
            final(self).settings.auto_switch == old(self).settings.auto_switch,
    {
        let ghost orig_profiles = self.profiles@;
        let n = self.profiles.len();
        let mut kept: Vec<Profile> = Vec::new();
        let mut i: usize = 0;
        proof {
            assert(orig_profiles.subrange(0, 0) =~= Seq::<Profile>::empty());
            reveal(Seq::filter);
        }
        while i < n
            invariant
                i <= n == orig_profiles.len(),
                self.profiles@ == orig_profiles,
                self.game_rules@ == old(self).game_rules@,
                self.settings == old(self).settings,
                profiles_eq(
                    kept@,
                    orig_profiles.subrange(0, i as int).filter(|p: Profile| p.id@ != profile_id@),
                ),
            decreases n - i,
        {
            proof {
                assert(orig_profiles.subrange(0, i + 1) =~= orig_profiles.subrange(
                    0,
                    i as int,
                ).push(orig_profiles[i as int]));
                lemma_filter_push(
                    orig_profiles.subrange(0, i as int),
                    |p: Profile| p.id@ != profile_id@,
                    orig_profiles[i as int],
                );
            }
            if !string_eq(&self.profiles[i].id, profile_id) {
                kept.push(self.profiles[i].clone());
            }
            i += 1;
        }
        proof {
            assert(orig_profiles.subrange(0, n as int) =~= orig_profiles);
        }
        self.profiles = kept;

        let ghost orig_rules = self.game_rules@;
        let m = self.game_rules.len();
        let mut kept_rules: Vec<GameRule> = Vec::new();
        let mut j: usize = 0;
        proof {
            assert(orig_rules.subrange(0, 0) =~= Seq::<GameRule>::empty());
            reveal(Seq::filter);
        }
        while j < m
            invariant
                j <= m == orig_rules.len(),
                self.game_rules@ == orig_rules,
                self.settings == old(self).settings,
                kept_rules@ == orig_rules.subrange(0, j as int).filter(
                    |r: GameRule| r.profile_id@ != profile_id@,
                ),
            decreases m - j,
        {
            proof {
                assert(orig_rules.subrange(0, j + 1) =~= orig_rules.subrange(0, j as int).push(
                    orig_rules[j as int],
                ));
                lemma_filter_push(
                    orig_rules.subrange(0, j as int),
                    |r: GameRule| r.profile_id@ != profile_id@,
                    orig_rules[j as int],
                );
            }
            if !string_eq(&self.game_rules[j].profile_id, profile_id) {
                kept_rules.push(self.game_rules[j].clone());
            }
            j += 1;
        }
        proof {
            assert(orig_rules.subrange(0, m as int) =~= orig_rules);
        }
        self.game_rules = kept_rules;

        let clear = match &self.settings.active_profile_id {
            Some(a) => string_eq(a, profile_id),
            None => false,
        };
        if clear {
            self.settings.active_profile_id = None;
        }
    }

    /// Add a game rule for an executable, enabled, with a freshly drawn
    /// id.  Rejects a profile id that does not exist.
    pub fn add_game_rule(&mut self, exe_name: String, profile_id: String) -> (r: Result<
        GameRule,
        PadSwitchError,
    >)
        ensures
            match r {
                Ok(rule) => {
                    &&& spec_find_profile(old(self).profiles@, profile_id@) is Some
                    &&& rule.id@.len() == 36
                    &&& rule.exe_name == exe_name
                    &&& rule.profile_id == profile_id
                    &&& rule.enabled == true
                    &&& final(self).game_rules@ == old(self).game_rules@.push(rule)
                    &&& final(self).profiles == old(self).profiles
                    &&& final(self).settings == old(self).settings
                },
                Err(e) => {
                    &&& spec_find_profile(old(self).profiles@, profile_id@) is None
                    &&& e is Config
                    &&& *final(self) == *old(self)
                },
            },
    {
        if !self.profile_exists(&profile_id) {
            return Err(
                PadSwitchError::Config(String::from_str("The referenced profile does not exist")),
            );
        }
        let rule = GameRule { id: random_uuid_string(), exe_name, profile_id, enabled: true };
        let copy = rule.clone();
        self.game_rules.push(rule);
        Ok(copy)
    }

    /// Remove the game rule with this id.
    pub fn delete_game_rule(&mut self, rule_id: &String)
        ensures
            final(self).game_rules@ == old(self).game_rules@.filter(
                |r: GameRule| r.id@ != rule_id@,
            ),
            final(self).profiles == old(self).profiles,
            final(self).settings == old(self).settings,
    {
        let ghost orig_rules = self.game_rules@;
        let m = self.game_rules.len();
        let mut kept: Vec<GameRule> = Vec::new();
        let mut j: usize = 0;
        proof {
            assert(orig_rules.subrange(0, 0) =~= Seq::<GameRule>::empty());
            reveal(Seq::filter);
        }
        while j < m
            invariant
                j <= m == orig_rules.len(),
                self.game_rules@ == orig_rules,
                self.profiles == old(self).profiles,
                self.settings == old(self).settings,
                kept@ == orig_rules.subrange(0, j as int).filter(|r: GameRule| r.id@ != rule_id@),
            decreases m - j,
        {
            proof {
                assert(orig_rules.subrange(0, j + 1) =~= orig_rules.subrange(0, j as int).push(
                    orig_rules[j as int],
                ));
                lemma_filter_push(
                    orig_rules.subrange(0, j as int),
                    |r: GameRule| r.id@ != rule_id@,
                    orig_rules[j as int],
                );
            }
            if !string_eq(&self.game_rules[j].id, rule_id) {
                kept.push(self.game_rules[j].clone());
            }
            j += 1;
        }
        proof {
            assert(orig_rules.subrange(0, m as int) =~= orig_rules);
        }
        self.game_rules = kept;
    }

    /// Set the enabled flag of every rule carrying this id; other rules
    /// are untouched.
    pub fn toggle_game_rule(&mut self, rule_id: &String, enabled: bool)
        ensures
            final(self).game_rules@.len() == old(self).game_rules@.len(),
            forall|i: int|
                0 <= i < old(self).game_rules@.len() ==> {
                    let was = old(self).game_rules@[i];
                    #[trigger] final(self).game_rules@[i] == if was.id@ == rule_id@ {
                        GameRule {
                            enabled,
                            id: was.id,
                            exe_name: was.exe_name,
                            profile_id: was.profile_id,
                        }
                    } else {
                        was
                    }
                },
            final(self).profiles == old(self).profiles,
            final(self).settings == old(self).settings,
    {
        let m = self.game_rules.len();
        let mut updated: Vec<GameRule> = Vec::new();
        let mut j: usize = 0;
        while j < m
            invariant
                j <= m == self.game_rules@.len(),
                self.game_rules == old(self).game_rules,
                self.profiles == old(self).profiles,
                self.settings == old(self).settings,
                updated@.len() == j,
                forall|i: int|
                    0 <= i < j ==> {
                        let was = old(self).game_rules@[i];
                        #[trigger] updated@[i] == if was.id@ == rule_id@ {
                            GameRule {
                                enabled,
                                id: was.id,
                                exe_name: was.exe_name,
                                profile_id: was.profile_id,
                            }
                        } else {
                            was
                        }
                    },
            decreases m - j,
        {
            let mut rule = self.game_rules[j].clone();
            if string_eq(&rule.id, rule_id) {
                rule.enabled = enabled;
            }
            updated.push(rule);
            j += 1;
        }
        self.game_rules = updated;
    }

    /// Replace the settings wholesale.
    pub fn update_settings(&mut self, settings: Settings)
        ensures
            final(self).settings == settings,
            final(self).profiles == old(self).profiles,
            final(self).game_rules == old(self).game_rules,
    {
        self.settings = settings;
    }
}

} // verus!
