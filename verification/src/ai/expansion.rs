//! When the opponent expands: the trigger, what blocks saving for a new city centre, and the
//! escort bookkeeping of the expansion party.
use crate::ai::kinds::EntityKind;
use crate::ai::model::{
    AiFacts, AiProfile, EntitySummary, ExpansionPolicy, Observation, ProfileId,
};
use crate::ai::keyed::{distinct_keys, entry_map};
use crate::ai::ranking::{keyed_sorted, sort_keyed};
use vstd::prelude::*;

verus! {

/// The expansion policy is in force once steel or supply reaches its trigger.
pub open spec fn active_expansion_spec(obs: &Observation, profile: &AiProfile) -> Option<ExpansionPolicy> {
    match profile.expansion {
        Some(e) => if obs.economy.steel >= e.trigger_steel || obs.economy.supply_used
            >= e.trigger_supply_used {
            Some(e)
        } else {
            None
        },
        None => None,
    }
}

/// The expansion policy is in force as soon as either trigger is reached, whatever the other
/// resource: supply used at or above its trigger, or steel at or above its trigger; below both
/// it is not. More steel or more supply never takes it out of force.
pub proof fn law_expansion_starts_at_either_trigger(obs: &Observation, profile: &AiProfile, more: &Observation)
    requires
        more.economy.steel >= obs.economy.steel,
        more.economy.supply_used >= obs.economy.supply_used,
    ensures
        match profile.expansion {
            None => active_expansion_spec(obs, profile) is None,
            Some(e) => {
                &&& obs.economy.supply_used >= e.trigger_supply_used ==> active_expansion_spec(obs, profile)
                    == Some(e)
                &&& obs.economy.steel >= e.trigger_steel ==> active_expansion_spec(obs, profile) == Some(e)
                &&& obs.economy.supply_used < e.trigger_supply_used && obs.economy.steel < e.trigger_steel
                    ==> active_expansion_spec(obs, profile) is None
            },
        },
        active_expansion_spec(obs, profile) is Some ==> active_expansion_spec(more, profile)
            == active_expansion_spec(obs, profile),
{
}

pub fn active_expansion(observation: &Observation, profile: &AiProfile) -> (r: Option<ExpansionPolicy>)
    ensures
        r == active_expansion_spec(observation, profile),
{
    match profile.expansion {
        Some(e) => if observation.economy.steel >= e.trigger_steel
            || observation.economy.supply_used >= e.trigger_supply_used {
            Some(e)
        } else {
            None
        },
        None => None,
    }
}

/// An active expansion that blocks the tech path does so until the target number of city
/// centres exists.
pub open spec fn expansion_blocks_tech_path_spec(obs: &Observation, facts: &AiFacts, profile: &AiProfile) -> bool {
    match active_expansion_spec(obs, profile) {
        Some(e) => e.blocks_tech_path && facts.building_count_spec(EntityKind::CityCentre)
            < e.target_city_centres,
        None => false,
    }
}

pub fn expansion_blocks_tech_path(observation: &Observation, facts: &AiFacts, profile: &AiProfile) -> (r: bool)
    requires
        facts.wf(),
    ensures
        r == expansion_blocks_tech_path_spec(observation, facts, profile),
{
    match active_expansion(observation, profile) {
        Some(e) => e.blocks_tech_path && facts.building_count(EntityKind::CityCentre)
            < e.target_city_centres,
        None => false,
    }
}

pub open spec fn expansion_prerequisites_met_spec(facts: &AiFacts, e: ExpansionPolicy) -> bool {
    facts.complete_building_count_spec(e.required_complete_building) > 0
        && facts.unit_count_spec(e.defensive_unit) >= e.defensive_unit_count
}

/// The required building is complete and the defensive units exist.
pub fn expansion_prerequisites_met(facts: &AiFacts, expansion: ExpansionPolicy) -> (r: bool)
    requires
        facts.wf(),
    ensures
        r == expansion_prerequisites_met_spec(facts, expansion),
{
    facts.complete_building_count(expansion.required_complete_building) > 0 && facts.unit_count(
        expansion.defensive_unit,
    ) >= expansion.defensive_unit_count
}

pub open spec fn should_save_for_expansion_spec(obs: &Observation, facts: &AiFacts, profile: &AiProfile) -> bool {
    match active_expansion_spec(obs, profile) {
        Some(e) => facts.building_count_spec(EntityKind::CityCentre) < e.target_city_centres
            && expansion_prerequisites_met_spec(facts, e),
        None => false,
    }
}

/// Save for the next city centre while below the target with the prerequisites met.
pub fn should_save_for_expansion(observation: &Observation, facts: &AiFacts, profile: &AiProfile) -> (r: bool)
    requires
        facts.wf(),
    ensures
        r == should_save_for_expansion_spec(observation, facts, profile),
{
    match active_expansion(observation, profile) {
        Some(e) => facts.building_count(EntityKind::CityCentre) < e.target_city_centres
            && expansion_prerequisites_met(facts, e),
        None => false,
    }
}

/// The opponent saves for a city centre exactly when its expansion is in force (either
/// trigger reached), it has fewer city centres than the target, the required building is
/// complete and the defensive units exist; an expansion that blocks the tech path does so
/// exactly while it is in force and the city centres are below the target.
pub proof fn law_expansion_saving_and_blocking(obs: &Observation, facts: &AiFacts, profile: &AiProfile)
    ensures
        match profile.expansion {
            None => !should_save_for_expansion_spec(obs, facts, profile)
                && !expansion_blocks_tech_path_spec(obs, facts, profile),
            Some(e) => {
                let due = obs.economy.steel >= e.trigger_steel || obs.economy.supply_used
                    >= e.trigger_supply_used;
                let below = facts.building_count_spec(EntityKind::CityCentre) < e.target_city_centres;
                &&& should_save_for_expansion_spec(obs, facts, profile) <==> (due && below
                    && facts.complete_building_count_spec(e.required_complete_building) > 0
                    && facts.unit_count_spec(e.defensive_unit) >= e.defensive_unit_count)
                &&& expansion_blocks_tech_path_spec(obs, facts, profile) <==> (due && below
                    && e.blocks_tech_path)
            },
        },
{
}

/// Why the opponent is not saving for an expansion this think, in declaration order.
#[derive(Clone, Copy, PartialEq, Eq, Structural, Debug)]
pub enum ExpansionBlocker {
    NotDue,
    DefensivePanic,
    MissingRequiredBuilding,
    MissingDefensiveUnits,
    RequirementNotMet,
    AlreadyAtTarget,
    MaxPending,
    NoCandidateResources,
    NoValidSite,
}

/// The expansion decision of one think.
pub struct ExpansionPlan {
    pub policy: Option<ExpansionPolicy>,
    pub should_save: bool,
    pub blocks_tech_path: bool,
    pub blockers: Vec<ExpansionBlocker>,
}

/// What the expansion plan reads beyond observation, facts and profile: city centres under
/// construction or intended, whether the rulebook allows a city centre now, and whether any
/// unclaimed steel or oil lies away from the players' starts.
#[derive(Clone, Copy)]
pub struct ExpansionInputs {
    pub pending_city_centres: usize,
    pub city_centre_requirement_met: bool,
    pub has_candidate_resources: bool,
}

/// The blockers of an active expansion, in declaration order.
pub open spec fn expansion_blockers_spec(
    facts: &AiFacts,
    profile: &AiProfile,
    e: ExpansionPolicy,
    inputs: ExpansionInputs,
) -> Seq<ExpansionBlocker> {
    let s0 = Seq::<ExpansionBlocker>::empty();
    let s1 = if facts.complete_building_count_spec(e.required_complete_building) == 0 {
        s0.push(ExpansionBlocker::MissingRequiredBuilding)
    } else {
        s0
    };
    let s2 = if facts.unit_count_spec(e.defensive_unit) < e.defensive_unit_count {
        s1.push(ExpansionBlocker::MissingDefensiveUnits)
    } else {
        s1
    };
    let s3 = if !inputs.city_centre_requirement_met {
        s2.push(ExpansionBlocker::RequirementNotMet)
    } else {
        s2
    };
    let s4 = if facts.building_count_spec(EntityKind::CityCentre) >= e.target_city_centres {
        s3.push(ExpansionBlocker::AlreadyAtTarget)
    } else {
        s3
    };
    let s5 = if inputs.pending_city_centres >= profile.buildings.max_pending_per_kind {
        s4.push(ExpansionBlocker::MaxPending)
    } else {
        s4
    };
    if !inputs.has_candidate_resources {
        s5.push(ExpansionBlocker::NoCandidateResources)
    } else {
        s5
    }
}

/// Plans the expansion: a defensive panic or an inactive policy blocks it outright; otherwise
/// it saves exactly when no blocker applies.
pub fn plan_expansion(
    observation: &Observation,
    facts: &AiFacts,
    profile: &AiProfile,
    defensive_panic_active: bool,
    inputs: ExpansionInputs,
) -> (r: ExpansionPlan)
    requires
        facts.wf(),
    ensures
        defensive_panic_active ==> r.policy is None && !r.should_save && !r.blocks_tech_path
            && r.blockers@ == seq![ExpansionBlocker::DefensivePanic],
        !defensive_panic_active && active_expansion_spec(observation, profile) is None ==> r.policy is None
            && !r.should_save && !r.blocks_tech_path && r.blockers@ == seq![ExpansionBlocker::NotDue],
        !defensive_panic_active && active_expansion_spec(observation, profile) is Some ==> ({
            let e = active_expansion_spec(observation, profile)->0;
            &&& r.policy == Some(e)
            &&& r.blockers@ == expansion_blockers_spec(facts, profile, e, inputs)
            &&& r.should_save == (r.blockers@.len() == 0)
            &&& r.blocks_tech_path == (e.blocks_tech_path && facts.building_count_spec(
                EntityKind::CityCentre,
            ) < e.target_city_centres)
        }),
{
    if defensive_panic_active {
        let mut blockers = Vec::new();
        blockers.push(ExpansionBlocker::DefensivePanic);
        assert(blockers@ =~= seq![ExpansionBlocker::DefensivePanic]);
        return ExpansionPlan { policy: None, should_save: false, blocks_tech_path: false, blockers };
    }
    let e = match active_expansion(observation, profile) {
        Some(e) => e,
        None => {
            let mut blockers = Vec::new();
            blockers.push(ExpansionBlocker::NotDue);
            assert(blockers@ =~= seq![ExpansionBlocker::NotDue]);
            return ExpansionPlan { policy: None, should_save: false, blocks_tech_path: false, blockers };
        },
    };
    let city_centres = facts.building_count(EntityKind::CityCentre);
    let blocks_tech_path = e.blocks_tech_path && city_centres < e.target_city_centres;
    let mut blockers: Vec<ExpansionBlocker> = Vec::new();
    if facts.complete_building_count(e.required_complete_building) == 0 {
        blockers.push(ExpansionBlocker::MissingRequiredBuilding);
    }
    if facts.unit_count(e.defensive_unit) < e.defensive_unit_count {
        blockers.push(ExpansionBlocker::MissingDefensiveUnits);
    }
    if !inputs.city_centre_requirement_met {
        blockers.push(ExpansionBlocker::RequirementNotMet);
    }
    if city_centres >= e.target_city_centres {
        blockers.push(ExpansionBlocker::AlreadyAtTarget);
    }
    if inputs.pending_city_centres >= profile.buildings.max_pending_per_kind {
        blockers.push(ExpansionBlocker::MaxPending);
    }
    if !inputs.has_candidate_resources {
        blockers.push(ExpansionBlocker::NoCandidateResources);
    }
    assert(blockers@ =~= expansion_blockers_spec(facts, profile, e, inputs));
    let should_save = blockers.len() == 0;
    ExpansionPlan { policy: Some(e), should_save, blocks_tech_path, blockers }
}

/// Saving for an expansion never happens while any blocker applies, and the saving rule
/// agrees with `should_save_for_expansion` whenever the rulebook allows a city centre, the
/// pending limit is not reached and candidate resources exist.
pub proof fn law_expansion_plan_agrees_with_saving_rule(
    obs: &Observation,
    facts: &AiFacts,
    profile: &AiProfile,
    inputs: ExpansionInputs,
)
    requires
        active_expansion_spec(obs, profile) is Some,
        inputs.city_centre_requirement_met,
        inputs.has_candidate_resources,
        inputs.pending_city_centres < profile.buildings.max_pending_per_kind,
    ensures
        (expansion_blockers_spec(facts, profile, active_expansion_spec(obs, profile)->0, inputs).len()
            == 0) == should_save_for_expansion_spec(obs, facts, profile),
{
}

// ---------------------------------------------------------------- expansion security

/// Bookkeeping of the party that secures the next expansion site.
pub struct ExpansionSecurity {
    pub site: Option<(u32, u32)>,
    pub riflemen: Vec<u32>,
    pub secure_since: Option<u32>,
    pub build_attempt_tick: Option<u32>,
    pub build_attempt_worker: Option<u32>,
    pub retry_builder: Option<u32>,
    /// Sites given up after a build attempt there timed out, each once.
    pub rejected_sites: Vec<(u32, u32)>,
    /// Each member's post, a number below the party size.
    pub slots: Vec<(u32, usize)>,
    /// Each escort's progress toward its post.
    pub progress: Vec<(u32, EscortProgress)>,
    /// Riflemen that stalled, each with the tick from which it may be recruited again.
    pub retry_after: Vec<(u32, u32)>,
}

/// Guards kept at a site once its depot stands.
pub const REQUIRED_GUARDS: usize = 2;

/// Seconds a build order may go without its depot appearing before the site is given up.
pub const BUILD_START_TIMEOUT_SECONDS: u64 = 3;

/// Seconds the party must hold the site, uncontested, before it counts as secure.
pub const SECURE_SECONDS: u64 = 3;

/// Seconds an escort may make no progress toward its post before it is replaced.
pub const ESCORT_STALL_SECONDS: u64 = 10;

/// Progress toward a post counts only when the escort gets closer by more than this many
/// thousandths of a tile.
pub const ESCORT_PROGRESS_EPSILON_MILLI_TILES: u32 = 250;

/// At least `seconds` seconds (`tick_hz` ticks each) have passed from `since` to `tick`.
pub open spec fn elapsed_at_least(tick: u32, since: u32, seconds: u64, tick_hz: u32) -> bool {
    (if since <= tick {
        tick - since
    } else {
        0
    }) >= seconds * tick_hz
}

fn has_elapsed(tick: u32, since: u32, seconds: u64, tick_hz: u32) -> (r: bool)
    requires
        seconds <= 10,
    ensures
        r == elapsed_at_least(tick, since, seconds, tick_hz),
{
    assert(seconds * (tick_hz as u64) <= 10 * 0xffff_ffffu64) by (nonlinear_arith)
        requires
            seconds <= 10,
            tick_hz <= 0xffff_ffffu32,
    ;
    (tick.saturating_sub(since) as u64) >= seconds * (tick_hz as u64)
}

/// How a security party's bookkeeping is left by the depot count at `tick`: once a second depot
/// stands, the build attempt is settled; while it does not, an attempt that has waited out the
/// timeout gives the site up (it is rejected, the party is dismissed) and hands its worker back
/// as the builder to retry with.
pub open spec fn settled_security(
    s: ExpansionSecurityView,
    tick: u32,
    active_depots: usize,
    tick_hz: u32,
) -> ExpansionSecurityView {
    if active_depots >= 2 {
        ExpansionSecurityView {
            build_attempt_tick: None,
            build_attempt_worker: None,
            retry_builder: None,
            ..s
        }
    } else {
        match s.build_attempt_tick {
            Some(t) => if elapsed_at_least(tick, t, BUILD_START_TIMEOUT_SECONDS, tick_hz) {
                ExpansionSecurityView {
                    site: None,
                    riflemen: Seq::empty(),
                    secure_since: None,
                    build_attempt_tick: None,
                    build_attempt_worker: None,
                    retry_builder: s.build_attempt_worker,
                    rejected_sites: match s.site {
                        Some(site) => s.rejected_sites.insert(site),
                        None => s.rejected_sites,
                    },
                    slots: Map::empty(),
                    progress: s.progress,
                    retry_after: s.retry_after,
                }
            } else {
                s
            },
            None => s,
        }
    }
}

/// The party's bookkeeping as plain values; the rejected sites as a set.
pub struct ExpansionSecurityView {
    pub site: Option<(u32, u32)>,
    pub riflemen: Seq<u32>,
    pub secure_since: Option<u32>,
    pub build_attempt_tick: Option<u32>,
    pub build_attempt_worker: Option<u32>,
    pub retry_builder: Option<u32>,
    pub rejected_sites: Set<(u32, u32)>,
    pub slots: Map<u32, usize>,
    pub progress: Map<u32, EscortProgress>,
    pub retry_after: Map<u32, u32>,
}

/// The party's watch over its site at `tick`: while it has arrived and no enemy contests the
/// site, the watch starts (or goes on from when it started) and the site is secure once it has
/// lasted the secure time; otherwise the watch is reset and the site is not secure.
pub open spec fn watched_security(
    secure_since: Option<u32>,
    tick: u32,
    arrived: bool,
    contested: bool,
    tick_hz: u32,
) -> (Option<u32>, bool) {
    if arrived && !contested {
        let since = match secure_since {
            Some(t) => t,
            None => tick,
        };
        (Some(since), elapsed_at_least(tick, since, SECURE_SECONDS, tick_hz))
    } else {
        (None, false)
    }
}

/// An escort's best distance to its post so far, and the tick it last got closer.
#[derive(Clone, Copy, PartialEq, Eq, Structural, Debug)]
pub struct EscortProgress {
    pub best_distance_milli_tiles: u32,
    pub last_progress_tick: u32,
}

/// An escort `distance` thousandths of a tile from its post at `tick`: its first report, or one
/// closer by more than the epsilon, is a new best; otherwise the record stays, and the escort has
/// stalled once the record is as old as the stall time.
pub open spec fn escort_progress_spec(
    progress: Option<EscortProgress>,
    distance: u32,
    tick: u32,
    tick_hz: u32,
) -> (EscortProgress, bool) {
    let p = match progress {
        Some(p) => p,
        None => EscortProgress { best_distance_milli_tiles: distance, last_progress_tick: tick },
    };
    let reach = if distance + ESCORT_PROGRESS_EPSILON_MILLI_TILES > u32::MAX {
        u32::MAX as int
    } else {
        distance + ESCORT_PROGRESS_EPSILON_MILLI_TILES
    };
    if reach < p.best_distance_milli_tiles {
        (EscortProgress { best_distance_milli_tiles: distance, last_progress_tick: tick }, false)
    } else {
        (p, elapsed_at_least(tick, p.last_progress_tick, ESCORT_STALL_SECONDS, tick_hz))
    }
}

pub fn escort_progress(progress: Option<EscortProgress>, distance: u32, tick: u32, tick_hz: u32) -> (r: (
    EscortProgress,
    bool,
))
    ensures
        r == escort_progress_spec(progress, distance, tick, tick_hz),
{
    let p = match progress {
        Some(p) => p,
        None => EscortProgress { best_distance_milli_tiles: distance, last_progress_tick: tick },
    };
    if distance.saturating_add(ESCORT_PROGRESS_EPSILON_MILLI_TILES) < p.best_distance_milli_tiles {
        (EscortProgress { best_distance_milli_tiles: distance, last_progress_tick: tick }, false)
    } else {
        (p, has_elapsed(tick, p.last_progress_tick, ESCORT_STALL_SECONDS, tick_hz))
    }
}

/// `r` is `guards` ordered by their distance keys, ids breaking ties, and cut to the required
/// guards.
pub open spec fn nearest_guards(guards: Seq<u32>, keys: Seq<u64>, r: Seq<u32>) -> bool {
    exists|s: Seq<((u64, u64, u64, u64), u32)>|
        {
            &&& keyed_sorted(s)
            &&& s.to_multiset() == guard_entries(guards, keys).to_multiset()
            &&& r == s.take(REQUIRED_GUARDS as int).map_values(|e: ((u64, u64, u64, u64), u32)| e.1)
        }
}

/// Each guard with its key: its distance key, then its id.
pub open spec fn guard_entries(guards: Seq<u32>, keys: Seq<u64>) -> Seq<((u64, u64, u64, u64), u32)> {
    Seq::new(guards.len(), |i: int| ((keys[i], guards[i] as u64, 0u64, 0u64), guards[i]))
}

impl ExpansionSecurity {
    pub open spec fn view(&self) -> ExpansionSecurityView {
        ExpansionSecurityView {
            site: self.site,
            riflemen: self.riflemen@,
            secure_since: self.secure_since,
            build_attempt_tick: self.build_attempt_tick,
            build_attempt_worker: self.build_attempt_worker,
            retry_builder: self.retry_builder,
            rejected_sites: self.rejected_sites@.to_set(),
            slots: entry_map(self.slots@),
            progress: entry_map(self.progress@),
            retry_after: entry_map(self.retry_after@),
        }
    }

    /// No site is rejected twice, and no rifleman has two slots, progress records or retry
    /// ticks.
    pub open spec fn wf(&self) -> bool {
        &&& self.rejected_sites@.no_duplicates()
        &&& distinct_keys(self.slots@)
        &&& distinct_keys(self.progress@)
        &&& distinct_keys(self.retry_after@)
    }

    pub fn new() -> (r: Self)
        ensures
            r.wf(),
            r.site is None,
            r.riflemen@.len() == 0,
            r.secure_since is None,
            r.build_attempt_tick is None,
            r.build_attempt_worker is None,
            r.retry_builder is None,
            r.rejected_sites@.len() == 0,
            r.slots@.len() == 0,
            r.progress@.len() == 0,
            r.retry_after@.len() == 0,
    {
        ExpansionSecurity {
            site: None,
            riflemen: Vec::new(),
            secure_since: None,
            build_attempt_tick: None,
            build_attempt_worker: None,
            retry_builder: None,
            rejected_sites: Vec::new(),
            slots: Vec::new(),
            progress: Vec::new(),
            retry_after: Vec::new(),
        }
    }

    /// Records that `worker` was ordered to build at `tick`; a pending retry is dropped.
    pub fn note_build_attempt(&mut self, tick: u32, worker: u32)
        ensures
            final(self).view() == (ExpansionSecurityView {
                build_attempt_tick: Some(tick),
                build_attempt_worker: Some(worker),
                retry_builder: None,
                ..old(self).view()
            }),
            final(self).rejected_sites@ == old(self).rejected_sites@,
    {
        self.build_attempt_tick = Some(tick);
        self.build_attempt_worker = Some(worker);
        self.retry_builder = None;
    }

    /// The worker to send again after a build attempt timed out.
    pub fn retry_builder(&self) -> (r: Option<u32>)
        ensures
            r == self.retry_builder,
    {
        self.retry_builder
    }

    /// Settles the build attempt against the `active_depots` standing at `tick` (`tick_hz`
    /// ticks to the second): see `settled_security`.
    pub fn settle_build_attempt(&mut self, tick: u32, active_depots: usize, tick_hz: u32)
        requires
            old(self).wf(),
        ensures
            final(self).wf(),
            final(self).view() == settled_security(old(self).view(), tick, active_depots, tick_hz),
    {
        if active_depots >= 2 {
            self.build_attempt_tick = None;
            self.build_attempt_worker = None;
            self.retry_builder = None;
            return;
        }
        let timed_out = match self.build_attempt_tick {
            Some(t) => has_elapsed(tick, t, BUILD_START_TIMEOUT_SECONDS, tick_hz),
            None => false,
        };
        if timed_out {
            let ghost before = self.rejected_sites@;
            match self.site {
                Some(site) => {
                    let mut known = false;
                    let mut i: usize = 0;
                    while i < self.rejected_sites.len()
                        invariant
                            i <= self.rejected_sites.len(),
                            self.rejected_sites@ == before,
                            known == before.take(i as int).contains(site),
                        decreases self.rejected_sites.len() - i,
                    {
                        let r = self.rejected_sites[i];
                        if r.0 == site.0 && r.1 == site.1 {
                            known = true;
                        }
                        proof {
                            let t = before.take(i as int);
                            let t1 = before.take(i + 1);
                            assert(t1 =~= t.push(before[i as int]));
                            if t.contains(site) {
                                let k = choose|k: int| 0 <= k < t.len() && t[k] == site;
                                assert(t1[k] == site);
                            }
                            if before[i as int] == site {
                                assert(t1[i as int] == site);
                            }
                            if t1.contains(site) {
                                let k = choose|k: int| 0 <= k < t1.len() && t1[k] == site;
                                if k < i {
                                    assert(t[k] == site);
                                }
                            }
                        }
                        i = i + 1;
                    }
                    assert(before.take(before.len() as int) =~= before);
                    if !known {
                        self.rejected_sites.push(site);
                        proof {
                            assert(self.rejected_sites@ == before.push(site));
                            assert(self.rejected_sites@.to_set() =~= before.to_set().insert(site)) by {
                                broadcast use vstd::seq_lib::group_seq_properties;
                            }
                            assert(self.rejected_sites@.no_duplicates());
                        }
                    } else {
                        proof {
                            broadcast use vstd::seq_lib::group_seq_properties;
                            assert(before.to_set().contains(site));
                            assert(before.to_set().insert(site) =~= before.to_set());
                        }
                    }
                },
                None => {},
            }
            self.site = None;
            self.riflemen.clear();
            self.slots.clear();
            proof {
                assert(entry_map(self.slots@) =~= Map::<u32, usize>::empty());
            }
            self.secure_since = None;
            self.build_attempt_tick = None;
            self.retry_builder = self.build_attempt_worker;
            self.build_attempt_worker = None;
        }
    }

    /// Once the depot stands, keeps only the required guards nearest the site: `keys[i]` is the
    /// distance key of `riflemen[i]` (ordered as the distances are), ids breaking ties. A party
    /// no larger than that is kept as it is.
    pub fn keep_nearest_guards(&mut self, keys: &Vec<u64>)
        requires
            keys@.len() == old(self).riflemen@.len(),
        ensures
            old(self).riflemen@.len() <= REQUIRED_GUARDS ==> final(self).riflemen@ == old(self).riflemen@,
            old(self).riflemen@.len() > REQUIRED_GUARDS ==> nearest_guards(
                old(self).riflemen@,
                keys@,
                final(self).riflemen@,
            ),
            final(self).view() == (ExpansionSecurityView {
                riflemen: final(self).riflemen@,
                ..old(self).view()
            }),
            final(self).rejected_sites@ == old(self).rejected_sites@,
    {
        if self.riflemen.len() <= REQUIRED_GUARDS {
            return;
        }
        let mut entries: Vec<((u64, u64, u64, u64), u32)> = Vec::new();
        let mut i: usize = 0;
        while i < self.riflemen.len()
            invariant
                i <= self.riflemen.len(),
                keys@.len() == self.riflemen@.len(),
                entries@ == guard_entries(self.riflemen@, keys@).take(i as int),
            decreases self.riflemen.len() - i,
        {
            let id = self.riflemen[i];
            entries.push(((keys[i], id as u64, 0u64, 0u64), id));
            proof {
                assert(guard_entries(self.riflemen@, keys@).take(i + 1) =~= guard_entries(
                    self.riflemen@,
                    keys@,
                ).take(i as int).push(((keys@[i as int], id as u64, 0u64, 0u64), id)));
            }
            i = i + 1;
        }
        assert(guard_entries(self.riflemen@, keys@).take(self.riflemen@.len() as int) =~= guard_entries(
            self.riflemen@,
            keys@,
        ));
        let ghost guards = self.riflemen@;
        let sorted = sort_keyed(entries);
        let mut kept: Vec<u32> = Vec::new();
        let mut j: usize = 0;
        while j < REQUIRED_GUARDS
            invariant
                j <= REQUIRED_GUARDS,
                sorted@.len() > REQUIRED_GUARDS,
                kept@ == sorted@.take(j as int).map_values(|e: ((u64, u64, u64, u64), u32)| e.1),
            decreases REQUIRED_GUARDS - j,
        {
            kept.push(sorted[j].1);
            proof {
                assert(sorted@.take(j + 1).map_values(|e: ((u64, u64, u64, u64), u32)| e.1) =~= sorted@.take(
                    j as int,
                ).map_values(|e: ((u64, u64, u64, u64), u32)| e.1).push(sorted@[j as int].1));
            }
            j = j + 1;
        }
        self.riflemen = kept;
        assert(nearest_guards(guards, keys@, self.riflemen@));
    }

    /// Updates the watch over the site at `tick` and says whether the site is secure: see
    /// `watched_security`. A contested site, or a party that has not arrived, resets the watch.
    pub fn watch_site(&mut self, tick: u32, arrived: bool, contested: bool, tick_hz: u32) -> (secured: bool)
        ensures
            (final(self).secure_since, secured) == watched_security(
                old(self).secure_since,
                tick,
                arrived,
                contested,
                tick_hz,
            ),
            final(self).view() == (ExpansionSecurityView {
                secure_since: final(self).secure_since,
                ..old(self).view()
            }),
            final(self).rejected_sites@ == old(self).rejected_sites@,
    {
        if arrived && !contested {
            let since = match self.secure_since {
                Some(t) => t,
                None => tick,
            };
            self.secure_since = Some(since);
            has_elapsed(tick, since, SECURE_SECONDS, tick_hz)
        } else {
            self.secure_since = None;
            false
        }
    }
}

pub open spec fn live_resource_depots(owned: Seq<EntitySummary>) -> nat
    decreases owned.len(),
{
    if owned.len() == 0 {
        0
    } else {
        live_resource_depots(owned.drop_last()) + if owned.last().kind
            == EntityKind::ResourceDepot && owned.last().hp > 0 {
            1nat
        } else {
            0nat
        }
    }
}

pub open spec fn factory_producing_tank(owned: Seq<EntitySummary>) -> bool {
    exists|i: int|
        0 <= i < owned.len() && (#[trigger] owned[i]).kind == EntityKind::Factory
            && owned[i].production_kind == Some(EntityKind::Tank) && match owned[i].production_queue_len {
            Some(n) => n > 0,
            None => false,
        }
}

/// For the named profile the expansion is the next milestone once a factory is complete and
/// a tank exists or is queued, while fewer than two resource depots stand.
pub open spec fn expansion_is_next_spec(obs: &Observation, facts: &AiFacts, profile: &AiProfile) -> bool {
    profile.id == ProfileId::JeffsAi && live_resource_depots(obs.owned@) < 2
        && facts.complete_building_count_spec(EntityKind::Factory) > 0 && (facts.unit_count_spec(
        EntityKind::Tank,
    ) > 0 || factory_producing_tank(obs.owned@))
}

pub fn count_live_resource_depots(owned: &Vec<EntitySummary>) -> (r: usize)
    ensures
        r == live_resource_depots(owned@),
{
    let mut n: usize = 0;
    let mut i: usize = 0;
    while i < owned.len()
        invariant
            i <= owned.len(),
            n == live_resource_depots(owned@.take(i as int)),
            n <= i,
        decreases owned.len() - i,
    {
        proof {
            assert(owned@.take(i + 1).drop_last() =~= owned@.take(i as int));
            assert(owned@.take(i + 1).last() == owned@[i as int]);
        }
        if owned[i].kind == EntityKind::ResourceDepot && owned[i].hp > 0 {
            n = n + 1;
        }
        i = i + 1;
    }
    assert(owned@.take(owned@.len() as int) =~= owned@);
    n
}

fn any_factory_producing_tank(owned: &Vec<EntitySummary>) -> (r: bool)
    ensures
        r == factory_producing_tank(owned@),
{
    let mut i: usize = 0;
    while i < owned.len()
        invariant
            i <= owned.len(),
            forall|j: int|
                0 <= j < i ==> !((#[trigger] owned@[j]).kind == EntityKind::Factory
                    && owned@[j].production_kind == Some(EntityKind::Tank) && match owned@[j].production_queue_len {
                    Some(n) => n > 0,
                    None => false,
                }),
        decreases owned.len() - i,
    {
        let e = owned[i];
        let queued = match e.production_queue_len {
            Some(n) => n > 0,
            None => false,
        };
        if e.kind == EntityKind::Factory && e.production_kind == Some(EntityKind::Tank) && queued {
            assert(owned@[i as int].kind == EntityKind::Factory);
            return true;
        }
        i = i + 1;
    }
    false
}

pub fn expansion_is_next(observation: &Observation, facts: &AiFacts, profile: &AiProfile) -> (r: bool)
    requires
        facts.wf(),
    ensures
        r == expansion_is_next_spec(observation, facts, profile),
{
    profile.id == ProfileId::JeffsAi && count_live_resource_depots(&observation.owned) < 2
        && facts.complete_building_count(EntityKind::Factory) > 0 && (facts.unit_count(
        EntityKind::Tank,
    ) > 0 || any_factory_producing_tank(&observation.owned))
}

/// On the 166-tile river map, the two side starts predict where the natural expansion lies.
pub fn predicts_natural_from_opening(observation: &Observation) -> (r: bool)
    ensures
        r == (observation.map.width == 166 && observation.map.height == 166 && (
        observation.own_start_tile == (157u32, 47u32) || observation.own_start_tile == (
            8u32,
            47u32,
        ))),
{
    observation.map.width == 166 && observation.map.height == 166 && ((
    observation.own_start_tile.0 == 157 && observation.own_start_tile.1 == 47) || (
    observation.own_start_tile.0 == 8 && observation.own_start_tile.1 == 47))
}


/// A resource near which an expansion might stand: its id and kind, the estimated tile of the
/// city centre that would serve it (none where no estimate could be made), and a key that
/// grows with the distance from that tile's centre to the own base.
#[derive(Clone, Copy)]
pub struct AnchorCandidate {
    pub resource_id: u32,
    pub kind: EntityKind,
    pub tile: Option<(u32, u32)>,
    pub distance_key: u64,
}

/// The rank of an anchor: nearest to the own base first, then lower resource id, then the
/// lower tile.
pub open spec fn anchor_key(c: AnchorCandidate, tile: (u32, u32)) -> (u64, u64, u64, u64) {
    (c.distance_key, c.resource_id as u64, tile.0 as u64, tile.1 as u64)
}

/// The steel resources with an estimated tile, each with its rank and tile, in input order.
pub open spec fn anchor_entries(cands: Seq<AnchorCandidate>) -> Seq<((u64, u64, u64, u64), (u32, u32))>
    decreases cands.len(),
{
    if cands.len() == 0 {
        Seq::empty()
    } else {
        let rest = anchor_entries(cands.drop_last());
        let c = cands.last();
        match c.tile {
            Some(t) => if c.kind == EntityKind::Steel {
                rest.push((anchor_key(c, t), t))
            } else {
                rest
            },
            None => rest,
        }
    }
}

/// The tiles of `s` with each run of equal consecutive tiles kept once.
pub open spec fn dedup_tiles(s: Seq<((u64, u64, u64, u64), (u32, u32))>) -> Seq<(u32, u32)>
    decreases s.len(),
{
    if s.len() == 0 {
        Seq::empty()
    } else {
        let d = dedup_tiles(s.drop_last());
        if s.len() >= 2 && s[s.len() - 2].1 == s.last().1 {
            d
        } else {
            d.push(s.last().1)
        }
    }
}

proof fn lemma_dedup_tiles_last(s: Seq<((u64, u64, u64, u64), (u32, u32))>)
    requires
        s.len() > 0,
    ensures
        dedup_tiles(s).len() > 0,
        dedup_tiles(s).last() == s.last().1,
    decreases s.len(),
{
    if s.len() >= 2 && s[s.len() - 2].1 == s.last().1 {
        lemma_dedup_tiles_last(s.drop_last());
    }
}

/// The tiles where expansions could stand, nearest first: the estimated tiles of the steel
/// resources in rank order, a tile repeated by the next candidate kept once. A map whose tile
/// size is zero has none.
pub fn expansion_anchor_tiles(tile_size: u32, candidates: &Vec<AnchorCandidate>) -> (r: Vec<(u32, u32)>)
    ensures
        tile_size == 0 ==> r@.len() == 0,
        tile_size > 0 ==> exists|s: Seq<((u64, u64, u64, u64), (u32, u32))>|
            {
                &&& keyed_sorted(s)
                &&& s.to_multiset() == anchor_entries(candidates@).to_multiset()
                &&& r@ == dedup_tiles(s)
            },
{
    if tile_size == 0 {
        return Vec::new();
    }
    let mut entries: Vec<((u64, u64, u64, u64), (u32, u32))> = Vec::new();
    let mut i: usize = 0;
    while i < candidates.len()
        invariant
            i <= candidates.len(),
            entries@ == anchor_entries(candidates@.take(i as int)),
        decreases candidates.len() - i,
    {
        assert(candidates@.take(i + 1).drop_last() =~= candidates@.take(i as int));
        let c = candidates[i];
        match c.tile {
            Some(t) => {
                if c.kind == EntityKind::Steel {
                    entries.push(((c.distance_key, c.resource_id as u64, t.0 as u64, t.1 as u64), t));
                }
            },
            None => {},
        }
        i = i + 1;
    }
    assert(candidates@.take(candidates@.len() as int) =~= candidates@);
    let sorted = sort_keyed(entries);
    let mut r: Vec<(u32, u32)> = Vec::new();
    let mut j: usize = 0;
    while j < sorted.len()
        invariant
            j <= sorted@.len(),
            r@ == dedup_tiles(sorted@.take(j as int)),
        decreases sorted@.len() - j,
    {
        let t = sorted[j].1;
        proof {
            assert(sorted@.take(j + 1).drop_last() =~= sorted@.take(j as int));
            if j > 0 {
                lemma_dedup_tiles_last(sorted@.take(j as int));
            }
        }
        let prev = if j == 0 { None } else { Some(sorted[j - 1].1) };
        let repeated = match prev {
            Some(p) => p.0 == t.0 && p.1 == t.1,
            None => false,
        };
        if !repeated {
            r.push(t);
        }
        j = j + 1;
    }
    assert(sorted@.take(sorted@.len() as int) =~= sorted@);
    r
}


/// The anchor list never names the same tile twice in a row.
pub proof fn law_anchor_tiles_have_no_adjacent_repeats(s: Seq<((u64, u64, u64, u64), (u32, u32))>)
    ensures
        forall|i: int| 0 <= i < dedup_tiles(s).len() - 1 ==> #[trigger] dedup_tiles(s)[i] != dedup_tiles(s)[i + 1],
    decreases s.len(),
{
    if s.len() > 0 {
        let p = s.drop_last();
        law_anchor_tiles_have_no_adjacent_repeats(p);
        let d = dedup_tiles(p);
        if !(s.len() >= 2 && s[s.len() - 2].1 == s.last().1) && d.len() > 0 {
            lemma_dedup_tiles_last(p);
            assert(p.last() == s[s.len() - 2]);
            assert forall|i: int| 0 <= i < d.push(s.last().1).len() - 1 implies #[trigger] d.push(
                s.last().1,
            )[i] != d.push(s.last().1)[i + 1] by {
                if i + 1 < d.len() {
                    assert(d[i] != d[i + 1]);
                }
            }
        }
    }
}

} // verus!
