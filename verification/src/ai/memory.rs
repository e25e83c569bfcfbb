//! What the opponent remembers from one think to the next: the profile it plays, the size
//! and timing of its attack waves, the course of a defensive panic, and a few rosters.
use crate::ai::defense::{
    DefensivePanic, DefensivePanicResponse, DEFENSIVE_PANIC_GRACE_TICKS,
    DEFENSIVE_PANIC_SUSTAINED_TICKS,
};
use crate::ai::ids::{contains_id, sorted_unique_ids, strictly_sorted_ids};
use crate::ai::keyed::{
    distinct_keys, entry_of, filter_entries, lemma_entry_absent, lemma_entry_index,
    lemma_entry_present, lemma_filter_entries, lookup_entry, upsert_entry,
};
use crate::ai::kinds::EntityKind;
use crate::ai::production::{count_queued_units, queued_units};
use crate::ai::model::{
    AiProfile, AttackPolicy, EntityState, EntitySummary, Observation, ProfileId, UpgradeKind,
};
use vstd::prelude::*;

verus! {

/// `a - b`, or zero when `b` is larger.
pub open spec fn ticks_since(a: u32, b: u32) -> u32 {
    if b <= a {
        (a - b) as u32
    } else {
        0
    }
}

/// The attack bookkeeping: the first wave size it was set up for, the size of the next wave,
/// the tick of the last attack, and the units launched with a frontal wave (unit, tick).
pub struct AttackMemory {
    pub first_size: Option<usize>,
    pub next_size: usize,
    pub last_tick: Option<u32>,
    pub launched_units: Vec<(u32, u32)>,
}

/// The course of a defensive panic: when it started, when a threat was last seen, and what
/// it builds.
#[derive(Clone, Copy, PartialEq, Eq, Structural)]
pub struct PanicMemory {
    pub started_tick: Option<u32>,
    pub last_tick: Option<u32>,
    pub response: DefensivePanicResponse,
}

/// A resource depot under construction: its hit points when last seen and the last tick
/// at which they dropped.
#[derive(Clone, Copy, PartialEq, Eq, Structural)]
pub struct DepotMemory {
    pub hp: u32,
    pub last_damage_tick: u32,
}

/// The bookkeeping of a containment push and the enemy bases it watches.
pub struct ContainmentMemory {
    pub stationary_since: Option<u32>,
    pub wave_launched: bool,
    pub opening_tanks: Vec<u32>,
    pub recovery_active: bool,
    pub active_tanks: Vec<u32>,
    pub active_scout: Option<u32>,
    pub repush_count: usize,
    pub home_defensive_tank: Option<u32>,
    pub home_defensive_tank_assigned_once: bool,
    pub enemy_natural_resource_depot: Option<u32>,
    pub enemy_natural_destroyed: bool,
    pub enemy_main_resource_depot: Option<u32>,
    pub enemy_main_destroyed: bool,
    pub endgame_search_waypoint: usize,
}

/// No containment push yet.
pub open spec fn containment_is_fresh(c: &ContainmentMemory) -> bool {
    &&& c.stationary_since is None
    &&& !c.wave_launched
    &&& c.opening_tanks@.len() == 0
    &&& !c.recovery_active
    &&& c.active_tanks@.len() == 0
    &&& c.active_scout is None
    &&& c.repush_count == 0
    &&& c.home_defensive_tank is None
    &&& !c.home_defensive_tank_assigned_once
    &&& c.enemy_natural_resource_depot is None
    &&& !c.enemy_natural_destroyed
    &&& c.enemy_main_resource_depot is None
    &&& !c.enemy_main_destroyed
    &&& c.endgame_search_waypoint == 0
}

fn fresh_containment() -> (r: ContainmentMemory)
    ensures
        containment_is_fresh(&r),
{
    ContainmentMemory {
        stationary_since: None,
        wave_launched: false,
        opening_tanks: Vec::new(),
        recovery_active: false,
        active_tanks: Vec::new(),
        active_scout: None,
        repush_count: 0,
        home_defensive_tank: None,
        home_defensive_tank_assigned_once: false,
        enemy_natural_resource_depot: None,
        enemy_natural_destroyed: false,
        enemy_main_resource_depot: None,
        enemy_main_destroyed: false,
        endgame_search_waypoint: 0,
    }
}

/// The opponent's memory between thinks.
pub struct AiDecisionMemory {
    pub profile_id: Option<ProfileId>,
    pub attack: AttackMemory,
    pub panic: PanicMemory,
    pub turtle_opening_riflemen_ordered: usize,
    pub incomplete_resource_depots: Vec<(u32, DepotMemory)>,
    pub jeff_breakthrough_units: Vec<u32>,
    pub jeff_breakthrough_last_tick: Option<u32>,
    /// Researches ordered and not yet seen completed.
    pub pending_upgrades: Vec<UpgradeKind>,
    pub containment: ContainmentMemory,
}

/// No panic: nothing seen, riflemen as the default response.
pub open spec fn calm_panic() -> PanicMemory {
    PanicMemory { started_tick: None, last_tick: None, response: DefensivePanicResponse::Riflemen }
}

/// The attack bookkeeping as plain values.
pub open spec fn attack_view(a: &AttackMemory) -> (Option<usize>, usize, Option<u32>, Seq<(u32, u32)>) {
    (a.first_size, a.next_size, a.last_tick, a.launched_units@)
}

/// Attack bookkeeping set up afresh for a policy.
pub open spec fn fresh_attack(attack: AttackPolicy) -> (Option<usize>, usize, Option<u32>, Seq<(u32, u32)>) {
    (Some(attack.first_attack_size), attack.first_attack_size, None, Seq::empty())
}

/// Everything but the attack bookkeeping is as a new memory for `profile` has it.
pub open spec fn rest_is_fresh(m: &AiDecisionMemory, profile: &AiProfile) -> bool {
    &&& m.profile_id == Some(profile.id)
    &&& m.panic == calm_panic()
    &&& m.turtle_opening_riflemen_ordered == 0
    &&& m.incomplete_resource_depots@.len() == 0
    &&& m.jeff_breakthrough_units@.len() == 0
    &&& m.jeff_breakthrough_last_tick is None
    &&& m.pending_upgrades@.len() == 0
    &&& containment_is_fresh(&m.containment)
}

/// `m` is a new memory for `profile`.
pub open spec fn is_fresh_for(m: &AiDecisionMemory, profile: &AiProfile) -> bool {
    rest_is_fresh(m, profile) && attack_view(&m.attack) == fresh_attack(profile.attack)
}

/// Everything but the attack bookkeeping is the same in `a` and `b`.
pub open spec fn same_rest(a: &AiDecisionMemory, b: &AiDecisionMemory) -> bool {
    &&& a.profile_id == b.profile_id
    &&& a.panic == b.panic
    &&& a.turtle_opening_riflemen_ordered == b.turtle_opening_riflemen_ordered
    &&& a.incomplete_resource_depots@ == b.incomplete_resource_depots@
    &&& a.jeff_breakthrough_units@ == b.jeff_breakthrough_units@
    &&& a.jeff_breakthrough_last_tick == b.jeff_breakthrough_last_tick
    &&& a.pending_upgrades@ == b.pending_upgrades@
    &&& a.containment == b.containment
}

/// The memory already belongs to `profile` and has a wave size set.
pub open spec fn plays_profile(m: &AiDecisionMemory, profile: &AiProfile) -> bool {
    m.profile_id == Some(profile.id) && m.attack.next_size != 0
}

/// The attack bookkeeping once the profile and then the attack policy are checked: kept
/// where it already belongs to them, started afresh otherwise.
pub open spec fn ensured_attack(
    m: &AiDecisionMemory,
    profile: &AiProfile,
    attack: AttackPolicy,
) -> (Option<usize>, usize, Option<u32>, Seq<(u32, u32)>) {
    let base = if plays_profile(m, profile) {
        attack_view(&m.attack)
    } else {
        fresh_attack(profile.attack)
    };
    if base.0 == Some(attack.first_attack_size) && base.1 != 0 {
        base
    } else {
        fresh_attack(attack)
    }
}

/// What the profile check leaves of everything but the attack bookkeeping.
pub open spec fn rest_after_profile_check(
    old: &AiDecisionMemory,
    new: &AiDecisionMemory,
    profile: &AiProfile,
) -> bool {
    if plays_profile(old, profile) {
        same_rest(old, new)
    } else {
        rest_is_fresh(new, profile)
    }
}

/// The panic after a think at `tick` that saw `threat`.
pub open spec fn panic_after(p: PanicMemory, threat: Option<DefensivePanicResponse>, tick: u32) -> PanicMemory {
    let seen = match threat {
        Some(response) => PanicMemory {
            started_tick: match p.last_tick {
                Some(last) => if ticks_since(tick, last) > DEFENSIVE_PANIC_GRACE_TICKS {
                    Some(tick)
                } else {
                    p.started_tick
                },
                None => Some(tick),
            },
            last_tick: Some(tick),
            response,
        },
        None => p,
    };
    if panic_active(seen, tick) {
        seen
    } else {
        PanicMemory {
            started_tick: None,
            last_tick: seen.last_tick,
            response: DefensivePanicResponse::Riflemen,
        }
    }
}

/// A threat was seen no more than the grace period before `tick`.
pub open spec fn panic_active(p: PanicMemory, tick: u32) -> bool {
    match p.last_tick {
        Some(last) => ticks_since(tick, last) <= DEFENSIVE_PANIC_GRACE_TICKS,
        None => false,
    }
}

/// The panic as reported after a think at `tick` that saw `threat`.
pub open spec fn panic_report(p: PanicMemory, threat: Option<DefensivePanicResponse>, tick: u32) -> DefensivePanic {
    let q = panic_after(p, threat, tick);
    let active = panic_active(q, tick);
    DefensivePanic {
        active,
        sustained: active && match q.started_tick {
            Some(started) => ticks_since(tick, started) >= DEFENSIVE_PANIC_SUSTAINED_TICKS,
            None => false,
        },
        response: q.response,
    }
}



/// How many entities of `kind` are in `owned`, complete or not.
pub open spec fn count_of_kind(owned: Seq<EntitySummary>, kind: EntityKind) -> nat
    decreases owned.len(),
{
    if owned.len() == 0 {
        0
    } else {
        count_of_kind(owned.drop_last(), kind) + if owned.last().kind == kind {
            1nat
        } else {
            0nat
        }
    }
}

/// `a + b`, saturated at `usize::MAX`.
pub open spec fn sat_add_usize(a: int, b: int) -> int {
    if a + b > usize::MAX {
        usize::MAX as int
    } else {
        a + b
    }
}

/// The hit points of the incomplete resource depot `site` in `owned` (the last one listed
/// with that id).
pub open spec fn active_depot_hp(owned: Seq<EntitySummary>, site: u32) -> Option<u32>
    decreases owned.len(),
{
    if owned.len() == 0 {
        None
    } else {
        let e = owned.last();
        if e.kind == EntityKind::ResourceDepot && !e.is_complete && e.id == site {
            Some(e.hp)
        } else {
            active_depot_hp(owned.drop_last(), site)
        }
    }
}

/// A depot site seen with `hp` at `tick`: a drop of hit points, or a first sighting, marks
/// this tick as the last damage.
pub open spec fn depot_after(prev: Option<DepotMemory>, hp: u32, tick: u32) -> DepotMemory {
    match prev {
        Some(p) => DepotMemory {
            hp,
            last_damage_tick: if hp < p.hp {
                tick
            } else {
                p.last_damage_tick
            },
        },
        None => DepotMemory { hp, last_damage_tick: tick },
    }
}

/// Some entity of `owned` has this id, hit points left, stands idle and targets nothing.
pub open spec fn settled(owned: Seq<EntitySummary>, id: u32) -> bool {
    exists|i: int|
        0 <= i < owned.len() && #[trigger] owned[i].id == id && owned[i].hp > 0 && owned[i].state
            == EntityState::Idle && owned[i].target_id is None
}

/// Some entity of `owned` has this id and hit points left.
pub open spec fn alive(owned: Seq<EntitySummary>, id: u32) -> bool {
    exists|i: int| 0 <= i < owned.len() && #[trigger] owned[i].id == id && owned[i].hp > 0
}

fn count_kind(owned: &Vec<EntitySummary>, kind: EntityKind) -> (r: usize)
    ensures
        r == count_of_kind(owned@, kind),
{
    let mut n: usize = 0;
    let mut i: usize = 0;
    while i < owned.len()
        invariant
            i <= owned.len(),
            n == count_of_kind(owned@.take(i as int), kind),
            n <= i,
        decreases owned.len() - i,
    {
        assert(owned@.take(i + 1).drop_last() =~= owned@.take(i as int));
        if owned[i].kind == kind {
            n = n + 1;
        }
        i = i + 1;
    }
    assert(owned@.take(owned@.len() as int) =~= owned@);
    n
}

/// Entities of `kind` owned, complete or not, plus those queued in completed buildings,
/// saturated at `usize::MAX`.
pub fn unit_and_queue_count(observation: &Observation, kind: EntityKind) -> (r: usize)
    requires
        queued_units(observation.owned@, kind) <= usize::MAX,
    ensures
        r == sat_add_usize(
            count_of_kind(observation.owned@, kind) as int,
            queued_units(observation.owned@, kind) as int,
        ),
{
    let units = count_kind(&observation.owned, kind);
    let queued = count_queued_units(&observation.owned, kind, 0);
    units.saturating_add(queued)
}

fn is_alive(owned: &Vec<EntitySummary>, id: u32) -> (r: bool)
    ensures
        r == alive(owned@, id),
{
    let mut i: usize = 0;
    while i < owned.len()
        invariant
            i <= owned.len(),
            forall|j: int| 0 <= j < i ==> !(#[trigger] owned@[j].id == id && owned@[j].hp > 0),
        decreases owned.len() - i,
    {
        if owned[i].id == id && owned[i].hp > 0 {
            return true;
        }
        i = i + 1;
    }
    false
}

fn is_settled(owned: &Vec<EntitySummary>, id: u32) -> (r: bool)
    ensures
        r == settled(owned@, id),
{
    let mut i: usize = 0;
    while i < owned.len()
        invariant
            i <= owned.len(),
            forall|j: int|
                0 <= j < i ==> !(#[trigger] owned@[j].id == id && owned@[j].hp > 0 && owned@[j].state
                    == EntityState::Idle && owned@[j].target_id is None),
        decreases owned.len() - i,
    {
        let e = owned[i];
        let idle = match e.state {
            EntityState::Idle => true,
            _ => false,
        };
        if e.id == id && e.hp > 0 && idle && e.target_id.is_none() {
            return true;
        }
        i = i + 1;
    }
    false
}

impl AiDecisionMemory {
    /// Each launched unit and each depot site recorded once; the breakthrough roster in
    /// ascending order without repeats.
    pub open spec fn wf(&self) -> bool {
        &&& distinct_keys(self.attack.launched_units@)
        &&& distinct_keys(self.incomplete_resource_depots@)
        &&& strictly_sorted_ids(self.jeff_breakthrough_units@)
    }
}

impl AiDecisionMemory {
    /// A new memory for `profile`.
    pub fn for_profile(profile: &AiProfile) -> (r: Self)
        ensures
            is_fresh_for(&r, profile),
            r.wf(),
    {
        AiDecisionMemory {
            profile_id: Some(profile.id),
            attack: AttackMemory {
                first_size: Some(profile.attack.first_attack_size),
                next_size: profile.attack.first_attack_size,
                last_tick: None,
                launched_units: Vec::new(),
            },
            panic: PanicMemory {
                started_tick: None,
                last_tick: None,
                response: DefensivePanicResponse::Riflemen,
            },
            turtle_opening_riflemen_ordered: 0,
            incomplete_resource_depots: Vec::new(),
            jeff_breakthrough_units: Vec::new(),
            jeff_breakthrough_last_tick: None,
            pending_upgrades: Vec::new(),
            containment: fresh_containment(),
        }
    }

    /// Starts afresh for `profile` unless the memory already plays it.
    pub fn ensure_profile(&mut self, profile: &AiProfile)
        requires
            old(self).wf(),
        ensures
            final(self).wf(),
            plays_profile(old(self), profile) ==> (same_rest(old(self), final(self)) && attack_view(
                &final(self).attack,
            ) == attack_view(&old(self).attack)),
            !plays_profile(old(self), profile) ==> is_fresh_for(final(self), profile),
    {
        let current = match self.profile_id {
            Some(id) => id == profile.id,
            None => false,
        };
        if current && self.attack.next_size != 0 {
            return;
        }
        self.profile_id = Some(profile.id);
        self.attack.first_size = Some(profile.attack.first_attack_size);
        self.attack.next_size = profile.attack.first_attack_size;
        self.attack.last_tick = None;
        self.attack.launched_units.clear();
        self.panic = PanicMemory {
            started_tick: None,
            last_tick: None,
            response: DefensivePanicResponse::Riflemen,
        };
        self.turtle_opening_riflemen_ordered = 0;
        self.incomplete_resource_depots.clear();
        self.jeff_breakthrough_units.clear();
        self.jeff_breakthrough_last_tick = None;
        self.pending_upgrades.clear();
        self.containment = fresh_containment();
    }

    fn ensure_attack_policy(&mut self, profile: &AiProfile, attack: AttackPolicy)
        requires
            old(self).wf(),
        ensures
            final(self).wf(),
            rest_after_profile_check(old(self), final(self), profile),
            attack_view(&final(self).attack) == ensured_attack(old(self), profile, attack),
    {
        self.ensure_profile(profile);
        let same_first = match self.attack.first_size {
            Some(first) => first == attack.first_attack_size,
            None => false,
        };
        if same_first && self.attack.next_size != 0 {
            return;
        }
        self.attack.first_size = Some(attack.first_attack_size);
        self.attack.next_size = attack.first_attack_size;
        self.attack.last_tick = None;
        self.attack.launched_units.clear();
    }

    /// The size of the next wave under `attack`: back to the first size once the last
    /// attack lies `regroup_reset_ticks` or more in the past.
    pub fn desired_attack_size_for(&mut self, profile: &AiProfile, attack: AttackPolicy, tick: u32) -> (r: usize)
        requires
            old(self).wf(),
        ensures
            final(self).wf(),
            rest_after_profile_check(old(self), final(self), profile),
            ({
                let e = ensured_attack(old(self), profile, attack);
                let reset = match e.2 {
                    Some(last) => ticks_since(tick, last) >= attack.regroup_reset_ticks,
                    None => false,
                };
                attack_view(&final(self).attack) == (
                    e.0,
                    if reset {
                        attack.first_attack_size
                    } else {
                        e.1
                    },
                    e.2,
                    e.3,
                )
            }),
            r == final(self).attack.next_size,
    {
        self.ensure_attack_policy(profile, attack);
        let reset = match self.attack.last_tick {
            Some(last) => tick.saturating_sub(last) >= attack.regroup_reset_ticks,
            None => false,
        };
        if reset {
            self.attack.next_size = attack.first_attack_size;
        }
        self.attack.next_size
    }

    /// The size of the next wave under the profile's own attack policy.
    pub fn desired_attack_size(&mut self, profile: &AiProfile, tick: u32) -> (r: usize)
        requires
            old(self).wf(),
        ensures
            final(self).wf(),
            rest_after_profile_check(old(self), final(self), profile),
            ({
                let e = ensured_attack(old(self), profile, profile.attack);
                let reset = match e.2 {
                    Some(last) => ticks_since(tick, last) >= profile.attack.regroup_reset_ticks,
                    None => false,
                };
                attack_view(&final(self).attack) == (
                    e.0,
                    if reset {
                        profile.attack.first_attack_size
                    } else {
                        e.1
                    },
                    e.2,
                    e.3,
                )
            }),
            r == final(self).attack.next_size,
    {
        self.desired_attack_size_for(profile, profile.attack, tick)
    }

    /// Whether an attack order is due: none was given yet, or the last one lies the
    /// reissue cadence or more in the past.
    pub fn attack_due_for(&mut self, profile: &AiProfile, attack: AttackPolicy, tick: u32) -> (r: bool)
        requires
            old(self).wf(),
        ensures
            final(self).wf(),
            rest_after_profile_check(old(self), final(self), profile),
            attack_view(&final(self).attack) == ensured_attack(old(self), profile, attack),
            r == match final(self).attack.last_tick {
                Some(last) => ticks_since(tick, last) >= attack.reissue_cadence_ticks,
                None => true,
            },
    {
        self.ensure_attack_policy(profile, attack);
        match self.attack.last_tick {
            Some(last) => tick.saturating_sub(last) >= attack.reissue_cadence_ticks,
            None => true,
        }
    }


    /// Records an attack at `tick` by `units`: the next wave grows by the policy's growth,
    /// and where the profile keeps launched units out of later waves, each unit is recorded
    /// with this tick.
    pub fn note_attack_for(
        &mut self,
        profile: &AiProfile,
        attack: AttackPolicy,
        tick: u32,
        units: &[u32],
    )
        requires
            old(self).wf(),
        ensures
            final(self).wf(),
            rest_after_profile_check(old(self), final(self), profile),
            ({
                let e = ensured_attack(old(self), profile, attack);
                &&& final(self).attack.first_size == e.0
                &&& final(self).attack.next_size == if e.1 + attack.wave_growth > usize::MAX {
                    usize::MAX as int
                } else {
                    e.1 + attack.wave_growth
                }
                &&& final(self).attack.last_tick == Some(tick)
                &&& profile.frontal_wave.exclude_launched_ticks is None
                    ==> final(self).attack.launched_units@ == e.3
                &&& profile.frontal_wave.exclude_launched_ticks is Some ==> forall|w: u32|
                    #[trigger] entry_of(final(self).attack.launched_units@, w) == if units@.contains(
                        w,
                    ) {
                        Some(tick)
                    } else {
                        entry_of(e.3, w)
                    }
            }),
    {
        self.ensure_attack_policy(profile, attack);
        let ghost e3 = self.attack.launched_units@;
        self.attack.last_tick = Some(tick);
        self.attack.next_size = self.attack.next_size.saturating_add(attack.wave_growth);
        let ghost mid: AiDecisionMemory = *self;
        if profile.frontal_wave.exclude_launched_ticks.is_some() {
            let mut i: usize = 0;
            while i < units.len()
                invariant
                    i <= units@.len(),
                    same_rest(&mid, self),
                    mid.wf(),
                    self.attack.first_size == mid.attack.first_size,
                    self.attack.next_size == mid.attack.next_size,
                    self.attack.last_tick == mid.attack.last_tick,
                    distinct_keys(self.attack.launched_units@),
                    forall|w: u32|
                        #[trigger] entry_of(self.attack.launched_units@, w) == if units@.take(
                            i as int,
                        ).contains(w) {
                            Some(tick)
                        } else {
                            entry_of(e3, w)
                        },
                decreases units@.len() - i,
            {
                let ghost prev = self.attack.launched_units@;
                let ghost pre = units@.take(i as int);
                let ghost post = units@.take(i + 1);
                let updated = upsert_entry(&self.attack.launched_units, units[i], tick);
                self.attack.launched_units = updated;
                proof {
                    assert forall|w: u32| #[trigger] entry_of(self.attack.launched_units@, w)
                        == if units@.take(i + 1).contains(w) {
                        Some(tick)
                    } else {
                        entry_of(e3, w)
                    } by {
                        assert(post =~= pre.push(units@[i as int]));
                        if w != units@[i as int] {
                            assert(entry_of(self.attack.launched_units@, w) == entry_of(prev, w));
                            if post.contains(w) {
                                let k = choose|k: int| 0 <= k < post.len() && post[k] == w;
                                assert(pre[k] == w);
                            }
                        } else {
                            assert(post[i as int] == w);
                        }
                    }
                }
                i = i + 1;
            }
            assert(units@.take(units@.len() as int) =~= units@);
        }
    }

    /// The units to keep out of the next frontal wave: those launched less than the
    /// exclusion window ago that are still owned. Older or lost units are forgotten; a
    /// profile without such a window forgets them all. Ascending, each once.
    pub fn launched_frontal_unit_exclusions(
        &mut self,
        profile: &AiProfile,
        tick: u32,
        owned_units: &Vec<u32>,
    ) -> (r: Vec<u32>)
        requires
            old(self).wf(),
        ensures
            final(self).wf(),
            same_rest(old(self), final(self)),
            final(self).attack.first_size == old(self).attack.first_size,
            final(self).attack.next_size == old(self).attack.next_size,
            final(self).attack.last_tick == old(self).attack.last_tick,
            strictly_sorted_ids(r@),
            forall|w: u32| r@.contains(w) <==> entry_of(final(self).attack.launched_units@, w) is Some,
            forall|w: u32|
                #[trigger] entry_of(final(self).attack.launched_units@, w) == match profile.frontal_wave.exclude_launched_ticks {
                    None => None,
                    Some(window) => match entry_of(old(self).attack.launched_units@, w) {
                        Some(t) => if owned_units@.contains(w) && ticks_since(tick, t) < window {
                            Some(t)
                        } else {
                            None
                        },
                        None => None,
                    },
                },
    {
        let window = match profile.frontal_wave.exclude_launched_ticks {
            None => {
                self.attack.launched_units.clear();
                proof {
                    assert forall|w: u32| #[trigger] entry_of(self.attack.launched_units@, w) is None by {
                        lemma_entry_absent(self.attack.launched_units@, w);
                    }
                }
                return Vec::new();
            },
            Some(x) => x,
        };
        let ghost s = self.attack.launched_units@;
        let ghost keep = |e: (u32, u32)| owned_units@.contains(e.0) && ticks_since(tick, e.1) < window;
        let mut kept: Vec<(u32, u32)> = Vec::new();
        let mut keys: Vec<u32> = Vec::new();
        let mut i: usize = 0;
        while i < self.attack.launched_units.len()
            invariant
                i <= s.len(),
                s == self.attack.launched_units@,
                keep == (|e: (u32, u32)| owned_units@.contains(e.0) && ticks_since(tick, e.1) < window),
                kept@ == filter_entries(s.take(i as int), keep),
                keys@ == kept@.map_values(|e: (u32, u32)| e.0),
            decreases s.len() - i,
        {
            assert(s.take(i + 1).drop_last() =~= s.take(i as int));
            let e = self.attack.launched_units[i];
            let stays = contains_id(owned_units, e.0) && tick.saturating_sub(e.1) < window;
            assert(s.take(i + 1).last() == e);
            assert(stays == keep(e));
            if stays {
                kept.push(e);
                keys.push(e.0);
                assert(keys@ =~= kept@.map_values(|e: (u32, u32)| e.0));
            }
            i = i + 1;
        }
        assert(s.take(s.len() as int) =~= s);
        proof {
            assert forall|w: u32| true implies #[trigger] entry_of(kept@, w) == match entry_of(s, w) {
                Some(t) => if owned_units@.contains(w) && ticks_since(tick, t) < window {
                    Some(t)
                } else {
                    None
                },
                None => None,
            } by {
                lemma_filter_entries(s, keep, w);
            }
            lemma_filter_entries(s, keep, 0);
        }
        self.attack.launched_units = kept;
        let r = sorted_unique_ids(&keys);
        proof {
            assert forall|w: u32| r@.contains(w) <==> entry_of(kept@, w) is Some by {
                if keys@.contains(w) {
                    let k = choose|k: int| 0 <= k < keys@.len() && keys@[k] == w;
                    assert(kept@[k].0 == w);
                    lemma_entry_present(kept@, k);
                }
                if entry_of(kept@, w) is Some {
                    let k = lemma_entry_index(kept@, w);
                    assert(keys@[k] == w);
                }
            }
        }
        r
    }


    /// Tracks the riflemen ordered in a turtle opening: at least those owned or queued, at
    /// most the opening's count; zero for a profile without a turtle opening.
    pub fn sync_turtle_opening(&mut self, profile: &AiProfile, observation: &Observation)
        requires
            old(self).wf(),
            queued_units(observation.owned@, EntityKind::Rifleman) <= usize::MAX,
        ensures
            final(self).wf(),
            final(self).turtle_opening_riflemen_ordered == match profile.turtle_defense {
                None => 0,
                Some(policy) => {
                    let seen = sat_add_usize(
                        count_of_kind(observation.owned@, EntityKind::Rifleman) as int,
                        queued_units(observation.owned@, EntityKind::Rifleman) as int,
                    );
                    let at_least = if old(self).turtle_opening_riflemen_ordered >= seen {
                        old(self).turtle_opening_riflemen_ordered as int
                    } else {
                        seen
                    };
                    if at_least <= policy.opening_riflemen {
                        at_least
                    } else {
                        policy.opening_riflemen as int
                    }
                },
            },
            final(self).profile_id == old(self).profile_id,
            final(self).panic == old(self).panic,
            attack_view(&final(self).attack) == attack_view(&old(self).attack),
            final(self).incomplete_resource_depots@ == old(self).incomplete_resource_depots@,
            final(self).jeff_breakthrough_units@ == old(self).jeff_breakthrough_units@,
            final(self).jeff_breakthrough_last_tick == old(self).jeff_breakthrough_last_tick,
            final(self).pending_upgrades@ == old(self).pending_upgrades@,
            final(self).containment == old(self).containment,
    {
        match profile.turtle_defense {
            None => {
                self.turtle_opening_riflemen_ordered = 0;
            },
            Some(policy) => {
                let seen = unit_and_queue_count(observation, EntityKind::Rifleman);
                let at_least = if self.turtle_opening_riflemen_ordered >= seen {
                    self.turtle_opening_riflemen_ordered
                } else {
                    seen
                };
                self.turtle_opening_riflemen_ordered = if at_least <= policy.opening_riflemen {
                    at_least
                } else {
                    policy.opening_riflemen
                };
            },
        }
    }

    /// Counts one more opening rifleman ordered, up to the opening's count.
    pub fn note_turtle_train(&mut self, profile: &AiProfile, unit: EntityKind)
        requires
            old(self).wf(),
        ensures
            final(self).wf(),
            final(self).turtle_opening_riflemen_ordered == match profile.turtle_defense {
                Some(policy) => if unit == EntityKind::Rifleman {
                    let more = sat_add_usize(old(self).turtle_opening_riflemen_ordered as int, 1);
                    if more <= policy.opening_riflemen {
                        more
                    } else {
                        policy.opening_riflemen as int
                    }
                } else {
                    old(self).turtle_opening_riflemen_ordered as int
                },
                None => old(self).turtle_opening_riflemen_ordered as int,
            },
            final(self).profile_id == old(self).profile_id,
            final(self).panic == old(self).panic,
            attack_view(&final(self).attack) == attack_view(&old(self).attack),
            final(self).incomplete_resource_depots@ == old(self).incomplete_resource_depots@,
            final(self).jeff_breakthrough_units@ == old(self).jeff_breakthrough_units@,
            final(self).jeff_breakthrough_last_tick == old(self).jeff_breakthrough_last_tick,
            final(self).pending_upgrades@ == old(self).pending_upgrades@,
            final(self).containment == old(self).containment,
    {
        match profile.turtle_defense {
            Some(policy) => {
                if unit == EntityKind::Rifleman {
                    let more = self.turtle_opening_riflemen_ordered.saturating_add(1);
                    self.turtle_opening_riflemen_ordered = if more <= policy.opening_riflemen {
                        more
                    } else {
                        policy.opening_riflemen
                    };
                }
            },
            None => {},
        }
    }

    /// Follows the resource depots under construction: sites no longer under construction
    /// are forgotten, new ones recorded as just damaged, and a drop of hit points marks the
    /// current tick as the last damage.
    pub fn sync_incomplete_resource_depots(&mut self, observation: &Observation)
        requires
            old(self).wf(),
        ensures
            final(self).wf(),
            forall|site: u32|
                #[trigger] entry_of(final(self).incomplete_resource_depots@, site) == match active_depot_hp(
                    observation.owned@,
                    site,
                ) {
                    None => None,
                    Some(hp) => Some(
                        depot_after(
                            entry_of(old(self).incomplete_resource_depots@, site),
                            hp,
                            observation.tick,
                        ),
                    ),
                },
            final(self).profile_id == old(self).profile_id,
            final(self).panic == old(self).panic,
            attack_view(&final(self).attack) == attack_view(&old(self).attack),
            final(self).turtle_opening_riflemen_ordered == old(self).turtle_opening_riflemen_ordered,
            final(self).jeff_breakthrough_units@ == old(self).jeff_breakthrough_units@,
            final(self).jeff_breakthrough_last_tick == old(self).jeff_breakthrough_last_tick,
            final(self).pending_upgrades@ == old(self).pending_upgrades@,
            final(self).containment == old(self).containment,
    {
        let tick = observation.tick;
        let owned = &observation.owned;
        let mut next: Vec<(u32, DepotMemory)> = Vec::new();
        let mut i: usize = 0;
        while i < owned.len()
            invariant
                i <= owned.len(),
                owned == &observation.owned,
                tick == observation.tick,
                distinct_keys(next@),
                forall|site: u32|
                    #[trigger] entry_of(next@, site) == match active_depot_hp(owned@.take(i as int), site) {
                        None => None,
                        Some(hp) => Some(
                            depot_after(entry_of(self.incomplete_resource_depots@, site), hp, tick),
                        ),
                    },
            decreases owned.len() - i,
        {
            assert(owned@.take(i + 1).drop_last() =~= owned@.take(i as int));
            let e = owned[i];
            let incomplete_depot = match e.kind {
                EntityKind::ResourceDepot => !e.is_complete,
                _ => false,
            };
            if incomplete_depot {
                let prev = lookup_entry(&self.incomplete_resource_depots, e.id);
                let d = match prev {
                    Some(p) => DepotMemory {
                        hp: e.hp,
                        last_damage_tick: if e.hp < p.hp {
                            tick
                        } else {
                            p.last_damage_tick
                        },
                    },
                    None => DepotMemory { hp: e.hp, last_damage_tick: tick },
                };
                next = upsert_entry(&next, e.id, d);
            }
            i = i + 1;
        }
        assert(owned@.take(owned@.len() as int) =~= owned@);
        self.incomplete_resource_depots = next;
    }

    /// A depot site may be resumed once it took no damage for three seconds of play
    /// (`tick_hz` ticks to the second); a site not under watch may not.
    pub fn resource_depot_is_safe_to_resume(&self, site_id: u32, tick: u32, tick_hz: u32) -> (r: bool)
        ensures
            r == match entry_of(self.incomplete_resource_depots@, site_id) {
                Some(d) => ticks_since(tick, d.last_damage_tick) >= 3 * tick_hz,
                None => false,
            },
    {
        match lookup_entry(&self.incomplete_resource_depots, site_id) {
            Some(d) => (tick.saturating_sub(d.last_damage_tick) as u64) >= 3 * (tick_hz as u64),
            None => false,
        }
    }

    /// Adds `units` to the breakthrough roster and notes `tick` as its last order.
    pub fn note_jeff_breakthrough_units(&mut self, units: &[u32], tick: u32)
        requires
            old(self).wf(),
        ensures
            final(self).wf(),
            forall|id: u32|
                final(self).jeff_breakthrough_units@.contains(id) <==> (old(
                    self,
                ).jeff_breakthrough_units@.contains(id) || units@.contains(id)),
            final(self).jeff_breakthrough_last_tick == Some(tick),
            final(self).profile_id == old(self).profile_id,
            final(self).panic == old(self).panic,
            attack_view(&final(self).attack) == attack_view(&old(self).attack),
            final(self).turtle_opening_riflemen_ordered == old(self).turtle_opening_riflemen_ordered,
            final(self).incomplete_resource_depots@ == old(self).incomplete_resource_depots@,
            final(self).pending_upgrades@ == old(self).pending_upgrades@,
            final(self).containment == old(self).containment,
    {
        let mut all: Vec<u32> = Vec::new();
        let mut i: usize = 0;
        while i < self.jeff_breakthrough_units.len()
            invariant
                i <= self.jeff_breakthrough_units@.len(),
                all@ == self.jeff_breakthrough_units@.take(i as int),
            decreases self.jeff_breakthrough_units@.len() - i,
        {
            all.push(self.jeff_breakthrough_units[i]);
            assert(all@ =~= self.jeff_breakthrough_units@.take(i + 1));
            i = i + 1;
        }
        let ghost roster = self.jeff_breakthrough_units@;
        assert(all@ =~= roster);
        let mut j: usize = 0;
        while j < units.len()
            invariant
                j <= units@.len(),
                all@ == roster + units@.take(j as int),
            decreases units@.len() - j,
        {
            all.push(units[j]);
            assert(all@ =~= roster + units@.take(j + 1));
            j = j + 1;
        }
        assert(units@.take(units@.len() as int) =~= units@);
        let merged = sorted_unique_ids(&all);
        proof {
            assert forall|id: u32| all@.contains(id) <==> (roster.contains(id) || units@.contains(id)) by {
                if all@.contains(id) {
                    let k = choose|k: int| 0 <= k < all@.len() && all@[k] == id;
                    if k < roster.len() {
                        assert(roster[k] == id);
                    } else {
                        assert(units@[k - roster.len()] == id);
                    }
                }
                if roster.contains(id) {
                    let k = choose|k: int| 0 <= k < roster.len() && roster[k] == id;
                    assert(all@[k] == id);
                }
                if units@.contains(id) {
                    let k = choose|k: int| 0 <= k < units@.len() && units@[k] == id;
                    assert(all@[roster.len() + k] == id);
                }
            }
        }
        self.jeff_breakthrough_units = merged;
        self.jeff_breakthrough_last_tick = Some(tick);
    }

    /// Drops from the breakthrough roster the units no longer owned with hit points left.
    pub fn retain_live_jeff_breakthrough_units(&mut self, observation: &Observation)
        requires
            old(self).wf(),
        ensures
            final(self).wf(),
            forall|id: u32|
                final(self).jeff_breakthrough_units@.contains(id) <==> (old(
                    self,
                ).jeff_breakthrough_units@.contains(id) && alive(observation.owned@, id)),
            final(self).jeff_breakthrough_last_tick == old(self).jeff_breakthrough_last_tick,
            final(self).profile_id == old(self).profile_id,
            final(self).panic == old(self).panic,
            attack_view(&final(self).attack) == attack_view(&old(self).attack),
            final(self).turtle_opening_riflemen_ordered == old(self).turtle_opening_riflemen_ordered,
            final(self).incomplete_resource_depots@ == old(self).incomplete_resource_depots@,
            final(self).pending_upgrades@ == old(self).pending_upgrades@,
            final(self).containment == old(self).containment,
    {
        let ghost roster = self.jeff_breakthrough_units@;
        let mut kept: Vec<u32> = Vec::new();
        let mut i: usize = 0;
        while i < self.jeff_breakthrough_units.len()
            invariant
                i <= roster.len(),
                roster == self.jeff_breakthrough_units@,
                strictly_sorted_ids(roster),
                strictly_sorted_ids(kept@),
                forall|k: int|
                    0 <= k < kept@.len() ==> exists|j: int|
                        0 <= j < i && roster[j] == #[trigger] kept@[k],
                forall|id: u32|
                    kept@.contains(id) <==> (roster.take(i as int).contains(id) && alive(
                        observation.owned@,
                        id,
                    )),
            decreases roster.len() - i,
        {
            let id = self.jeff_breakthrough_units[i];
            let ghost before = kept@;
            let ghost pre = roster.take(i as int);
            let ghost post = roster.take(i + 1);
            proof {
                assert(post =~= pre.push(id));
            }
            if is_alive(&observation.owned, id) {
                kept.push(id);
                proof {
                    assert forall|a: int, b: int| 0 <= a < b < kept@.len() implies kept@[a] < kept@[b] by {
                        if b == before.len() {
                            let j = choose|j: int| 0 <= j < i && roster[j] == #[trigger] before[a];
                        }
                    }
                    assert forall|k: int| 0 <= k < kept@.len() implies exists|j: int|
                        0 <= j < i + 1 && roster[j] == #[trigger] kept@[k] by {
                        if k == before.len() {
                            assert(roster[i as int] == kept@[k]);
                        } else {
                            let j = choose|j: int| 0 <= j < i && roster[j] == #[trigger] before[k];
                            assert(roster[j] == kept@[k]);
                        }
                    }
                }
            }
            proof {
                assert forall|x: u32| kept@.contains(x) <==> (post.contains(x) && alive(
                    observation.owned@,
                    x,
                )) by {
                    if kept@.contains(x) && x != id {
                        let k = choose|k: int| 0 <= k < kept@.len() && kept@[k] == x;
                        assert(before[k] == x);
                        assert(before.contains(x));
                        assert(pre.contains(x));
                        let m = choose|m: int| 0 <= m < pre.len() && pre[m] == x;
                        assert(post[m] == x);
                    }
                    if post.contains(x) && x != id {
                        let k = choose|k: int| 0 <= k < post.len() && post[k] == x;
                        assert(pre[k] == x);
                        if alive(observation.owned@, x) {
                            assert(before.contains(x));
                            let m = choose|m: int| 0 <= m < before.len() && before[m] == x;
                            assert(kept@[m] == x);
                        }
                    }
                    if x == id {
                        assert(post[i as int] == id);
                        if alive(observation.owned@, x) {
                            assert(kept@[kept@.len() - 1] == x);
                        } else if before.contains(x) {
                            assert(pre.contains(x));
                            let k = choose|k: int| 0 <= k < pre.len() && pre[k] == x;
                            assert(roster[k] < roster[i as int]);
                        }
                    }
                }
            }
            i = i + 1;
        }
        assert(roster.take(roster.len() as int) =~= roster);
        self.jeff_breakthrough_units = kept;
    }

    /// Empties the breakthrough roster.
    pub fn clear_jeff_breakthrough_units(&mut self)
        requires
            old(self).wf(),
        ensures
            final(self).wf(),
            final(self).jeff_breakthrough_units@.len() == 0,
            final(self).jeff_breakthrough_last_tick is None,
            final(self).profile_id == old(self).profile_id,
            final(self).panic == old(self).panic,
            attack_view(&final(self).attack) == attack_view(&old(self).attack),
            final(self).turtle_opening_riflemen_ordered == old(self).turtle_opening_riflemen_ordered,
            final(self).incomplete_resource_depots@ == old(self).incomplete_resource_depots@,
            final(self).pending_upgrades@ == old(self).pending_upgrades@,
            final(self).containment == old(self).containment,
    {
        self.jeff_breakthrough_units.clear();
        self.jeff_breakthrough_last_tick = None;
    }

    /// The breakthrough units may be released: no breakthrough was ordered, or three
    /// seconds passed and every roster unit stands idle with no target, or thirty seconds
    /// passed (`tick_hz` ticks to the second).
    pub fn jeff_breakthrough_should_release(&self, observation: &Observation, tick_hz: u32) -> (r: bool)
        ensures
            r == match self.jeff_breakthrough_last_tick {
                None => true,
                Some(last) => {
                    let elapsed = ticks_since(observation.tick, last);
                    (elapsed >= 3 * tick_hz && forall|k: int|
                        0 <= k < self.jeff_breakthrough_units@.len() ==> settled(
                            observation.owned@,
                            #[trigger] self.jeff_breakthrough_units@[k],
                        )) || elapsed > 30 * tick_hz
                },
            },
    {
        let last = match self.jeff_breakthrough_last_tick {
            None => {
                return true;
            },
            Some(last) => last,
        };
        let elapsed = observation.tick.saturating_sub(last) as u64;
        let mut all_settled = true;
        let mut i: usize = 0;
        while i < self.jeff_breakthrough_units.len()
            invariant
                i <= self.jeff_breakthrough_units@.len(),
                all_settled == forall|k: int|
                    0 <= k < i ==> settled(
                        observation.owned@,
                        #[trigger] self.jeff_breakthrough_units@[k],
                    ),
            decreases self.jeff_breakthrough_units@.len() - i,
        {
            if !is_settled(&observation.owned, self.jeff_breakthrough_units[i]) {
                all_settled = false;
            }
            i = i + 1;
        }
        (elapsed >= 3 * (tick_hz as u64) && all_settled) || elapsed > 30 * (tick_hz as u64)
    }

    /// Updates the panic with what this think saw and reports it: a threat (re)starts the
    /// panic unless one was seen within the grace period; without threats for longer than
    /// that it ends and falls back to riflemen; it is sustained from its sustained mark on.
    pub fn defensive_panic(&mut self, threat: Option<DefensivePanicResponse>, tick: u32) -> (r: DefensivePanic)
        requires
            old(self).wf(),
        ensures
            final(self).wf(),
            final(self).panic == panic_after(old(self).panic, threat, tick),
            r == panic_report(old(self).panic, threat, tick),
            same_rest_but_panic(old(self), final(self)),
            attack_view(&final(self).attack) == attack_view(&old(self).attack),
    {
        match threat {
            Some(response) => {
                let restart = match self.panic.last_tick {
                    Some(last) => tick.saturating_sub(last) > DEFENSIVE_PANIC_GRACE_TICKS,
                    None => true,
                };
                if restart {
                    self.panic.started_tick = Some(tick);
                }
                self.panic.last_tick = Some(tick);
                self.panic.response = response;
            },
            None => {},
        }
        let active = match self.panic.last_tick {
            Some(last) => tick.saturating_sub(last) <= DEFENSIVE_PANIC_GRACE_TICKS,
            None => false,
        };
        if !active {
            self.panic.started_tick = None;
            self.panic.response = DefensivePanicResponse::Riflemen;
        }
        let sustained = active && match self.panic.started_tick {
            Some(started) => tick.saturating_sub(started) >= DEFENSIVE_PANIC_SUSTAINED_TICKS,
            None => false,
        };
        DefensivePanic { active, sustained, response: self.panic.response }
    }
}

/// Everything but the panic is the same in `a` and `b` (the attack bookkeeping aside).
pub open spec fn same_rest_but_panic(a: &AiDecisionMemory, b: &AiDecisionMemory) -> bool {
    &&& a.profile_id == b.profile_id
    &&& a.turtle_opening_riflemen_ordered == b.turtle_opening_riflemen_ordered
    &&& a.incomplete_resource_depots@ == b.incomplete_resource_depots@
    &&& a.jeff_breakthrough_units@ == b.jeff_breakthrough_units@
    &&& a.jeff_breakthrough_last_tick == b.jeff_breakthrough_last_tick
    &&& a.pending_upgrades@ == b.pending_upgrades@
    &&& a.containment == b.containment
}


/// `owned[i]` may be kept home as the defensive tank: a tank that either was not part of
/// the containment opening or comes after a home tank was once assigned.
pub open spec fn home_tank_eligible(owned: Seq<EntitySummary>, c: &ContainmentMemory, i: int) -> bool {
    owned[i].kind == EntityKind::Tank && (c.home_defensive_tank_assigned_once
        || !c.opening_tanks@.contains(owned[i].id))
}

/// `r` is the eligible tank nearest the own base (`home_keys[i]` grows with the distance
/// of `owned[i]`), the lower id on a tie, or none when no tank is eligible.
pub open spec fn is_home_tank_choice(
    owned: Seq<EntitySummary>,
    home_keys: Seq<u64>,
    c: &ContainmentMemory,
    r: Option<u32>,
) -> bool {
    match r {
        Some(id) => exists|i: int|
            0 <= i < owned.len() && #[trigger] owned[i].id == id && home_tank_eligible(owned, c, i)
                && forall|j: int|
                0 <= j < owned.len() && home_tank_eligible(owned, c, j) ==> !(home_keys[j]
                    < home_keys[i] || (home_keys[j] == home_keys[i] && #[trigger] owned[j].id
                    < owned[i].id)),
        None => forall|i: int| 0 <= i < owned.len() ==> !#[trigger] home_tank_eligible(owned, c, i),
    }
}

/// A tank with this id is owned.
pub open spec fn owns_tank(owned: Seq<EntitySummary>, id: u32) -> bool {
    exists|i: int| 0 <= i < owned.len() && #[trigger] owned[i].id == id && owned[i].kind == EntityKind::Tank
}

fn owns_tank_exec(owned: &Vec<EntitySummary>, id: u32) -> (r: bool)
    ensures
        r == owns_tank(owned@, id),
{
    let mut i: usize = 0;
    while i < owned.len()
        invariant
            i <= owned.len(),
            forall|j: int| 0 <= j < i ==> !(#[trigger] owned@[j].id == id && owned@[j].kind == EntityKind::Tank),
        decreases owned.len() - i,
    {
        if owned[i].id == id && owned[i].kind == EntityKind::Tank {
            return true;
        }
        i = i + 1;
    }
    false
}

/// A tank that may go to the forward base: complete, alive, free for combat, and neither
/// the home tank nor part of the containment push or its opening.
pub open spec fn surplus_tank_candidate(e: EntitySummary, c: &ContainmentMemory) -> bool {
    &&& e.kind == EntityKind::Tank
    &&& e.is_complete
    &&& e.hp > 0
    &&& e.free_for_combat
    &&& c.home_defensive_tank != Some(e.id)
    &&& !c.active_tanks@.contains(e.id)
    &&& !c.opening_tanks@.contains(e.id)
}

/// The lowest-id surplus tank, none while a containment push is recovering.
pub fn surplus_tank_for_forward_base(owned: &Vec<EntitySummary>, memory: &AiDecisionMemory) -> (r: Option<u32>)
    ensures
        memory.containment.recovery_active ==> r is None,
        !memory.containment.recovery_active ==> match r {
            Some(id) => exists|i: int|
                0 <= i < owned@.len() && #[trigger] owned@[i].id == id && surplus_tank_candidate(
                    owned@[i],
                    &memory.containment,
                ) && forall|j: int|
                    0 <= j < owned@.len() && surplus_tank_candidate(#[trigger] owned@[j], &memory.containment)
                        ==> id <= owned@[j].id,
            None => forall|j: int|
                0 <= j < owned@.len() ==> !surplus_tank_candidate(#[trigger] owned@[j], &memory.containment),
        },
{
    if memory.containment.recovery_active {
        return None;
    }
    let c = &memory.containment;
    let mut best: Option<usize> = None;
    let mut i: usize = 0;
    while i < owned.len()
        invariant
            i <= owned.len(),
            c == &memory.containment,
            match best {
                Some(b) => b < i && surplus_tank_candidate(owned@[b as int], c) && forall|j: int|
                    0 <= j < i && surplus_tank_candidate(#[trigger] owned@[j], c) ==> owned@[b as int].id
                        <= owned@[j].id,
                None => forall|j: int| 0 <= j < i ==> !surplus_tank_candidate(#[trigger] owned@[j], c),
            },
        decreases owned.len() - i,
    {
        let e = owned[i];
        let not_home = match c.home_defensive_tank {
            Some(h) => h != e.id,
            None => true,
        };
        let candidate = e.kind == EntityKind::Tank && e.is_complete && e.hp > 0 && e.free_for_combat
            && not_home && !contains_id(&c.active_tanks, e.id) && !contains_id(&c.opening_tanks, e.id);
        assert(candidate == surplus_tank_candidate(owned@[i as int], c));
        if candidate {
            match best {
                None => {
                    best = Some(i);
                },
                Some(b) => {
                    if e.id < owned[b].id {
                        best = Some(i);
                    }
                },
            }
        }
        i = i + 1;
    }
    match best {
        Some(b) => Some(owned[b].id),
        None => None,
    }
}

/// A containment push is under way or recovering and needs its orders.
pub fn containment_wave_needs_control(memory: &AiDecisionMemory) -> (r: bool)
    ensures
        r == (memory.containment.wave_launched || memory.containment.recovery_active
            || memory.containment.active_tanks@.len() > 0),
{
    memory.containment.wave_launched || memory.containment.recovery_active
        || memory.containment.active_tanks.len() > 0
}

impl AiDecisionMemory {
    /// Keeps one tank home once a containment push has launched, where the profile keeps
    /// anti-tank defence at home: the current home tank while it lives, else the eligible
    /// tank nearest the own base.
    pub fn sync_home_defensive_tank(
        &mut self,
        owned: &Vec<EntitySummary>,
        home_distance_keys: &Vec<u64>,
        profile: &AiProfile,
    )
        requires
            old(self).wf(),
            home_distance_keys@.len() == owned@.len(),
        ensures
            final(self).wf(),
            (profile.home_anti_tank is None || !old(self).containment.wave_launched) ==> (
            final(self).containment.home_defensive_tank is None
                && final(self).containment.home_defensive_tank_assigned_once
                == old(self).containment.home_defensive_tank_assigned_once),
            (profile.home_anti_tank is Some && old(self).containment.wave_launched && (match old(
                self,
            ).containment.home_defensive_tank {
                Some(id) => owns_tank(owned@, id),
                None => false,
            })) ==> (final(self).containment.home_defensive_tank
                == old(self).containment.home_defensive_tank
                && final(self).containment.home_defensive_tank_assigned_once
                == old(self).containment.home_defensive_tank_assigned_once),
            (profile.home_anti_tank is Some && old(self).containment.wave_launched && !(match old(
                self,
            ).containment.home_defensive_tank {
                Some(id) => owns_tank(owned@, id),
                None => false,
            })) ==> (is_home_tank_choice(
                owned@,
                home_distance_keys@,
                &old(self).containment,
                final(self).containment.home_defensive_tank,
            ) && final(self).containment.home_defensive_tank_assigned_once
                == (final(self).containment.home_defensive_tank is Some)),
            final(self).containment.wave_launched == old(self).containment.wave_launched,
            final(self).containment.opening_tanks@ == old(self).containment.opening_tanks@,
            final(self).containment.active_tanks@ == old(self).containment.active_tanks@,
            final(self).containment.recovery_active == old(self).containment.recovery_active,
            final(self).containment.active_scout == old(self).containment.active_scout,
            final(self).containment.repush_count == old(self).containment.repush_count,
            final(self).containment.stationary_since == old(self).containment.stationary_since,
            final(self).containment.enemy_natural_resource_depot
                == old(self).containment.enemy_natural_resource_depot,
            final(self).containment.enemy_natural_destroyed == old(self).containment.enemy_natural_destroyed,
            final(self).containment.enemy_main_resource_depot
                == old(self).containment.enemy_main_resource_depot,
            final(self).containment.enemy_main_destroyed == old(self).containment.enemy_main_destroyed,
            final(self).containment.endgame_search_waypoint == old(self).containment.endgame_search_waypoint,
            same_rest_but_containment(old(self), final(self)),
            attack_view(&final(self).attack) == attack_view(&old(self).attack),
    {
        if profile.home_anti_tank.is_none() || !self.containment.wave_launched {
            self.containment.home_defensive_tank = None;
            return;
        }
        let alive = match self.containment.home_defensive_tank {
            Some(id) => owns_tank_exec(owned, id),
            None => false,
        };
        if alive {
            return;
        }
        let ghost c0 = self.containment;
        let assigned_once = self.containment.home_defensive_tank_assigned_once;
        let mut best: Option<usize> = None;
        let mut i: usize = 0;
        while i < owned.len()
            invariant
                i <= owned.len(),
                home_distance_keys@.len() == owned@.len(),
                c0.home_defensive_tank_assigned_once == assigned_once,
                c0.opening_tanks@ == self.containment.opening_tanks@,
                match best {
                    Some(b) => b < i && home_tank_eligible(owned@, &c0, b as int) && forall|j: int|
                        0 <= j < i && home_tank_eligible(owned@, &c0, j) ==> !(home_distance_keys@[j]
                            < home_distance_keys@[b as int] || (home_distance_keys@[j]
                            == home_distance_keys@[b as int] && #[trigger] owned@[j].id
                            < owned@[b as int].id)),
                    None => forall|j: int| 0 <= j < i ==> !#[trigger] home_tank_eligible(owned@, &c0, j),
                },
            decreases owned.len() - i,
        {
            let e = owned[i];
            let eligible = e.kind == EntityKind::Tank && (assigned_once || !contains_id(
                &self.containment.opening_tanks,
                e.id,
            ));
            assert(eligible == home_tank_eligible(owned@, &c0, i as int));
            if eligible {
                match best {
                    None => {
                        best = Some(i);
                    },
                    Some(b) => {
                        let kb = home_distance_keys[b];
                        let ki = home_distance_keys[i];
                        if ki < kb || (ki == kb && e.id < owned[b].id) {
                            best = Some(i);
                        }
                    },
                }
            }
            i = i + 1;
        }
        let choice = match best {
            Some(b) => Some(owned[b].id),
            None => None,
        };
        self.containment.home_defensive_tank = choice;
        self.containment.home_defensive_tank_assigned_once = choice.is_some();
    }
}


/// The lowest id of `ids`.
pub open spec fn min_id(ids: Seq<u32>) -> Option<u32> {
    if ids.len() == 0 {
        None
    } else {
        Some(choose|m: u32| ids.contains(m) && forall|k: int| 0 <= k < ids.len() ==> m <= #[trigger] ids[k])
    }
}

fn lowest_id(ids: &Vec<u32>) -> (r: Option<u32>)
    ensures
        r == min_id(ids@),
        r matches Some(m) ==> ids@.contains(m) && forall|k: int| 0 <= k < ids@.len() ==> m <= #[trigger] ids@[k],
{
    if ids.len() == 0 {
        return None;
    }
    let mut m = ids[0];
    let mut i: usize = 1;
    while i < ids.len()
        invariant
            1 <= i <= ids@.len(),
            ids@.contains(m),
            forall|k: int| 0 <= k < i ==> m <= #[trigger] ids@[k],
        decreases ids@.len() - i,
    {
        if ids[i] < m {
            m = ids[i];
            assert(ids@[i as int] == m);
        }
        i = i + 1;
    }
    proof {
        let c = choose|c: u32| ids@.contains(c) && forall|k: int| 0 <= k < ids@.len() ==> c <= #[trigger] ids@[k];
        let ci = choose|ci: int| 0 <= ci < ids@.len() && ids@[ci] == c;
        let mi = choose|mi: int| 0 <= mi < ids@.len() && ids@[mi] == m;
        assert(c <= ids@[mi]);
        assert(m <= ids@[ci]);
    }
    Some(m)
}

impl AiDecisionMemory {
    /// Watches the enemy main: the lowest-id resource depot seen there is remembered; once
    /// one was seen and the push's tanks or scouts reach the site without seeing any, the
    /// main counts as destroyed and the end-game search starts over. A destroyed main stays so.
    pub fn update_enemy_main_state(&mut self, main_depot_ids: &Vec<u32>, force_confirms_site: bool)
        requires
            old(self).wf(),
        ensures
            final(self).wf(),
            ({
                let c = &old(self).containment;
                let n = &final(self).containment;
                if c.enemy_main_destroyed {
                    *n == *c
                } else if main_depot_ids@.len() > 0 {
                    n.enemy_main_resource_depot == min_id(main_depot_ids@) && !n.enemy_main_destroyed
                        && n.endgame_search_waypoint == c.endgame_search_waypoint && n.stationary_since
                        == c.stationary_since
                } else if c.enemy_main_resource_depot is None || !force_confirms_site {
                    *n == *c
                } else {
                    n.enemy_main_destroyed && n.endgame_search_waypoint == 0 && n.stationary_since is None
                        && n.enemy_main_resource_depot == c.enemy_main_resource_depot
                }
            }),
            final(self).containment.wave_launched == old(self).containment.wave_launched,
            final(self).containment.opening_tanks@ == old(self).containment.opening_tanks@,
            final(self).containment.active_tanks@ == old(self).containment.active_tanks@,
            final(self).containment.home_defensive_tank == old(self).containment.home_defensive_tank,
            final(self).containment.enemy_natural_resource_depot
                == old(self).containment.enemy_natural_resource_depot,
            final(self).containment.enemy_natural_destroyed == old(self).containment.enemy_natural_destroyed,
            final(self).containment.recovery_active == old(self).containment.recovery_active,
            final(self).containment.active_scout == old(self).containment.active_scout,
            final(self).containment.repush_count == old(self).containment.repush_count,
            final(self).containment.home_defensive_tank_assigned_once
                == old(self).containment.home_defensive_tank_assigned_once,
            same_rest_but_containment(old(self), final(self)),
            attack_view(&final(self).attack) == attack_view(&old(self).attack),
    {
        if self.containment.enemy_main_destroyed {
            return;
        }
        match lowest_id(main_depot_ids) {
            Some(id) => {
                self.containment.enemy_main_resource_depot = Some(id);
                return;
            },
            None => {},
        }
        if self.containment.enemy_main_resource_depot.is_none() {
            return;
        }
        if force_confirms_site {
            self.containment.enemy_main_destroyed = true;
            self.containment.endgame_search_waypoint = 0;
            self.containment.stationary_since = None;
        }
    }

    /// Watches the enemy natural: the lowest-id resource depot seen there is remembered;
    /// when none is seen and a scout stands at the site, the natural counts as destroyed.
    /// A destroyed natural stays so.
    pub fn update_enemy_natural_state(&mut self, natural_depot_ids: &Vec<u32>, scout_confirms_site: bool)
        requires
            old(self).wf(),
        ensures
            final(self).wf(),
            ({
                let c = &old(self).containment;
                let n = &final(self).containment;
                if c.enemy_natural_destroyed {
                    *n == *c
                } else if natural_depot_ids@.len() > 0 {
                    n.enemy_natural_resource_depot == min_id(natural_depot_ids@)
                        && !n.enemy_natural_destroyed && n.stationary_since == c.stationary_since
                } else if !scout_confirms_site {
                    *n == *c
                } else {
                    n.enemy_natural_destroyed && n.stationary_since is None
                        && n.enemy_natural_resource_depot == c.enemy_natural_resource_depot
                }
            }),
            final(self).containment.wave_launched == old(self).containment.wave_launched,
            final(self).containment.opening_tanks@ == old(self).containment.opening_tanks@,
            final(self).containment.active_tanks@ == old(self).containment.active_tanks@,
            final(self).containment.home_defensive_tank == old(self).containment.home_defensive_tank,
            final(self).containment.enemy_main_resource_depot == old(self).containment.enemy_main_resource_depot,
            final(self).containment.enemy_main_destroyed == old(self).containment.enemy_main_destroyed,
            final(self).containment.endgame_search_waypoint == old(self).containment.endgame_search_waypoint,
            final(self).containment.recovery_active == old(self).containment.recovery_active,
            final(self).containment.active_scout == old(self).containment.active_scout,
            final(self).containment.repush_count == old(self).containment.repush_count,
            final(self).containment.home_defensive_tank_assigned_once
                == old(self).containment.home_defensive_tank_assigned_once,
            same_rest_but_containment(old(self), final(self)),
            attack_view(&final(self).attack) == attack_view(&old(self).attack),
    {
        if self.containment.enemy_natural_destroyed {
            return;
        }
        match lowest_id(natural_depot_ids) {
            Some(id) => {
                self.containment.enemy_natural_resource_depot = Some(id);
                return;
            },
            None => {},
        }
        if scout_confirms_site {
            self.containment.enemy_natural_destroyed = true;
            self.containment.stationary_since = None;
        }
    }
}

/// Everything but the containment bookkeeping is the same in `a` and `b` (the attack
/// bookkeeping aside).
pub open spec fn same_rest_but_containment(a: &AiDecisionMemory, b: &AiDecisionMemory) -> bool {
    &&& a.profile_id == b.profile_id
    &&& a.panic == b.panic
    &&& a.turtle_opening_riflemen_ordered == b.turtle_opening_riflemen_ordered
    &&& a.incomplete_resource_depots@ == b.incomplete_resource_depots@
    &&& a.jeff_breakthrough_units@ == b.jeff_breakthrough_units@
    &&& a.jeff_breakthrough_last_tick == b.jeff_breakthrough_last_tick
    &&& a.pending_upgrades@ == b.pending_upgrades@
}

/// A panic set off at `tick` stays active, with the response of the threat, through every
/// calm think in the grace period that follows.
pub proof fn law_panic_outlasts_its_threat_by_the_grace_period(
    p: PanicMemory,
    response: DefensivePanicResponse,
    tick: u32,
    later: u32,
)
    requires
        tick <= later,
        later - tick <= DEFENSIVE_PANIC_GRACE_TICKS,
    ensures
        panic_report(panic_after(p, Some(response), tick), None, later).active,
        panic_report(panic_after(p, Some(response), tick), None, later).response == response,
{
}

/// A calm think more than the grace period after the last threat ends the panic and falls
/// back to riflemen.
pub proof fn law_panic_ends_after_the_grace_period(
    p: PanicMemory,
    response: DefensivePanicResponse,
    tick: u32,
    later: u32,
)
    requires
        tick <= later,
        later - tick > DEFENSIVE_PANIC_GRACE_TICKS,
    ensures
        !panic_report(panic_after(p, Some(response), tick), None, later).active,
        !panic_report(panic_after(p, Some(response), tick), None, later).sustained,
        panic_report(panic_after(p, Some(response), tick), None, later).response
            == DefensivePanicResponse::Riflemen,
        panic_after(panic_after(p, Some(response), tick), None, later).started_tick is None,
{
}

/// Only an active panic is sustained, and only once it has lasted the sustained mark.
pub proof fn law_sustained_panic_is_active_and_old(
    p: PanicMemory,
    threat: Option<DefensivePanicResponse>,
    tick: u32,
)
    ensures
        panic_report(p, threat, tick).sustained ==> panic_report(p, threat, tick).active,
        panic_report(p, threat, tick).sustained ==> ({
            let q = panic_after(p, threat, tick);
            q.started_tick is Some && ticks_since(tick, q.started_tick->0)
                >= DEFENSIVE_PANIC_SUSTAINED_TICKS
        }),
{
}

/// Threats that keep coming within the grace period never restart the panic, so it
/// becomes sustained once the sustained mark has passed since it began.
pub proof fn law_fed_panic_becomes_sustained(
    p: PanicMemory,
    response: DefensivePanicResponse,
    tick: u32,
)
    requires
        p.started_tick is Some,
        p.last_tick is Some,
        p.last_tick->0 <= tick,
        tick - p.last_tick->0 <= DEFENSIVE_PANIC_GRACE_TICKS,
        p.started_tick->0 <= tick,
        tick - p.started_tick->0 >= DEFENSIVE_PANIC_SUSTAINED_TICKS,
    ensures
        panic_report(p, Some(response), tick).sustained,
        panic_after(p, Some(response), tick).started_tick == p.started_tick,
{
}

/// A depot site whose hit points drop at `tick` is not safe to resume until three seconds
/// of play have passed.
pub proof fn law_damaged_depot_waits_before_resuming(
    prev: DepotMemory,
    hp: u32,
    tick: u32,
    later: u32,
    tick_hz: u32,
)
    requires
        hp < prev.hp,
        tick <= later,
        later - tick < 3 * tick_hz,
    ensures
        !(ticks_since(later, depot_after(Some(prev), hp, tick).last_damage_tick) >= 3 * tick_hz),
{
}


/// Attack bookkeeping that already belongs to the profile and to the attack policy is kept
/// as it is by the checks every attack query makes, so a wave size grown by an attack
/// stands until the regroup reset.
pub proof fn law_attack_bookkeeping_survives_its_own_checks(
    m: &AiDecisionMemory,
    profile: &AiProfile,
    attack: AttackPolicy,
)
    requires
        m.profile_id == Some(profile.id),
        m.attack.next_size != 0,
        m.attack.first_size == Some(attack.first_attack_size),
    ensures
        ensured_attack(m, profile, attack) == attack_view(&m.attack),
{
}

} // verus!
