//! How a profile's unit priorities are adjusted for the think: researches not yet done,
//! a fast tank timing, a turtle opening and defensive machine gunners; the caps production
//! keeps; and the turtle profile's tech and barracks rules.
use crate::ai::defense::DefensivePanicPlan;
use crate::ai::kinds::EntityKind;
use crate::ai::memory::AiDecisionMemory;
use crate::ai::model::{AiFacts, AiProfile, UpgradeKind};
use crate::ai::resources::OilDemandSignal;
use vstd::prelude::*;

verus! {

/// The kinds of `s` that satisfy `keep`, in order.
pub open spec fn filter_kinds(s: Seq<EntityKind>, keep: spec_fn(EntityKind) -> bool) -> Seq<EntityKind>
    decreases s.len(),
{
    if s.len() == 0 {
        Seq::empty()
    } else if keep(s.last()) {
        filter_kinds(s.drop_last(), keep).push(s.last())
    } else {
        filter_kinds(s.drop_last(), keep)
    }
}

proof fn lemma_filter_kinds_keeps_only_kept(s: Seq<EntityKind>, keep: spec_fn(EntityKind) -> bool)
    ensures
        forall|k: EntityKind| #[trigger] filter_kinds(s, keep).contains(k) ==> s.contains(k) && keep(k),
        (forall|i: int| 0 <= i < s.len() ==> keep(#[trigger] s[i])) ==> filter_kinds(s, keep) == s,
    decreases s.len(),
{
    if s.len() > 0 {
        let p = s.drop_last();
        lemma_filter_kinds_keeps_only_kept(p, keep);
        assert forall|k: EntityKind| #[trigger] filter_kinds(s, keep).contains(k) implies s.contains(k)
            && keep(k) by {
            let f = filter_kinds(p, keep);
            if keep(s.last()) {
                let j = choose|j: int| 0 <= j < f.push(s.last()).len() && f.push(s.last())[j] == k;
                if j < f.len() {
                    assert(f[j] == k);
                    assert(f.contains(k));
                    let m = choose|m: int| 0 <= m < p.len() && p[m] == k;
                    assert(s[m] == k);
                } else {
                    assert(s[s.len() - 1] == k);
                }
            } else {
                assert(f.contains(k));
                let m = choose|m: int| 0 <= m < p.len() && p[m] == k;
                assert(s[m] == k);
            }
        }
        if forall|i: int| 0 <= i < s.len() ==> keep(#[trigger] s[i]) {
            assert forall|i: int| 0 <= i < p.len() implies keep(#[trigger] p[i]) by {
                assert(p[i] == s[i]);
            }
            assert(keep(s[s.len() - 1]));
            assert(s =~= p.push(s.last()));
        }
    } else {
        assert(filter_kinds(s, keep) =~= s);
    }
}

fn filter_kinds_exec(s: &[EntityKind], keep: Ghost<spec_fn(EntityKind) -> bool>, decide: &Vec<bool>) -> (r: Vec<EntityKind>)
    requires
        decide@.len() == s@.len(),
        forall|i: int| 0 <= i < s@.len() ==> decide@[i] == (keep@)(#[trigger] s@[i]),
    ensures
        r@ == filter_kinds(s@, keep@),
{
    let mut r: Vec<EntityKind> = Vec::new();
    let mut i: usize = 0;
    while i < s.len()
        invariant
            i <= s@.len(),
            decide@.len() == s@.len(),
            forall|k: int| 0 <= k < s@.len() ==> decide@[k] == (keep@)(#[trigger] s@[k]),
            r@ == filter_kinds(s@.take(i as int), keep@),
        decreases s@.len() - i,
    {
        assert(s@.take(i + 1).drop_last() =~= s@.take(i as int));
        assert(s@.take(i + 1).last() == s@[i as int]);
        if decide[i] {
            r.push(s[i]);
        }
        i = i + 1;
    }
    assert(s@.take(s@.len() as int) =~= s@);
    r
}

fn copy_kinds(s: &[EntityKind]) -> (r: Vec<EntityKind>)
    ensures
        r@ == s@,
{
    let mut r: Vec<EntityKind> = Vec::new();
    let mut i: usize = 0;
    while i < s.len()
        invariant
            i <= s@.len(),
            r@ == s@.take(i as int),
        decreases s@.len() - i,
    {
        r.push(s[i]);
        assert(r@ =~= s@.take(i + 1));
        i = i + 1;
    }
    assert(s@.take(s@.len() as int) =~= s@);
    r
}

fn has_upgrade(upgrades: &Vec<UpgradeKind>, upgrade: UpgradeKind) -> (r: bool)
    ensures
        r == upgrades@.contains(upgrade),
{
    let mut i: usize = 0;
    while i < upgrades.len()
        invariant
            i <= upgrades@.len(),
            forall|k: int| 0 <= k < i ==> upgrades@[k] != upgrade,
        decreases upgrades@.len() - i,
    {
        if upgrades[i] == upgrade {
            assert(upgrades@[i as int] == upgrade);
            return true;
        }
        i = i + 1;
    }
    false
}

fn has_kind(kinds: &[EntityKind], kind: EntityKind) -> (r: bool)
    ensures
        r == kinds@.contains(kind),
{
    let mut i: usize = 0;
    while i < kinds.len()
        invariant
            i <= kinds@.len(),
            forall|k: int| 0 <= k < i ==> kinds@[k] != kind,
        decreases kinds@.len() - i,
    {
        if kinds[i] == kind {
            assert(kinds@[i as int] == kind);
            return true;
        }
        i = i + 1;
    }
    false
}

/// Without a fast tank timing, tanks wait for the stimulant research.
pub fn effective_unit_priorities_for_upgrades(
    profile: &AiProfile,
    unit_priorities: &[EntityKind],
    completed_upgrades: &Vec<UpgradeKind>,
) -> (r: Vec<EntityKind>)
    ensures
        profile.fast_tank_timing is Some ==> r@ == unit_priorities@,
        profile.fast_tank_timing is None ==> r@ == filter_kinds(
            unit_priorities@,
            |u: EntityKind| u != EntityKind::Tank || completed_upgrades@.contains(UpgradeKind::Methamphetamines),
        ),
        profile.fast_tank_timing is None && !completed_upgrades@.contains(UpgradeKind::Methamphetamines)
            ==> !r@.contains(EntityKind::Tank) && (forall|k: EntityKind| #[trigger] r@.contains(k)
            ==> unit_priorities@.contains(k)),
        completed_upgrades@.contains(UpgradeKind::Methamphetamines) ==> r@ == unit_priorities@,
{
    if profile.fast_tank_timing.is_some() {
        return copy_kinds(unit_priorities);
    }
    let ready = has_upgrade(completed_upgrades, UpgradeKind::Methamphetamines);
    let ghost keep = |u: EntityKind| u != EntityKind::Tank || completed_upgrades@.contains(
        UpgradeKind::Methamphetamines,
    );
    let mut decide: Vec<bool> = Vec::new();
    let mut i: usize = 0;
    while i < unit_priorities.len()
        invariant
            i <= unit_priorities@.len(),
            decide@.len() == i,
            ready == completed_upgrades@.contains(UpgradeKind::Methamphetamines),
            keep == (|u: EntityKind| u != EntityKind::Tank || completed_upgrades@.contains(
                UpgradeKind::Methamphetamines,
            )),
            forall|k: int| 0 <= k < i ==> decide@[k] == keep(#[trigger] unit_priorities@[k]),
        decreases unit_priorities@.len() - i,
    {
        decide.push(unit_priorities[i] != EntityKind::Tank || ready);
        i = i + 1;
    }
    proof {
        lemma_filter_kinds_keeps_only_kept(unit_priorities@, keep);
    }
    filter_kinds_exec(unit_priorities, Ghost(keep), &decide)
}

/// Under a fast tank timing, scout cars wait for the timing's tank count and, once it is
/// reached and scout cars are short, come first (the others keep their order).
pub fn effective_unit_priorities_for_fast_tank_timing(
    profile: &AiProfile,
    facts: &AiFacts,
    unit_priorities: &[EntityKind],
) -> (r: Vec<EntityKind>)
    requires
        facts.wf(),
    ensures
        match profile.fast_tank_timing {
            None => r@ == unit_priorities@,
            Some(timing) => {
                let tanks_enough = facts.unit_count_spec(EntityKind::Tank) >= timing.tanks_before_scout_car;
                let kept = filter_kinds(
                    unit_priorities@,
                    |u: EntityKind| u != EntityKind::ScoutCar || tanks_enough,
                );
                if tanks_enough && facts.unit_count_spec(EntityKind::ScoutCar) < timing.scout_car_target {
                    r@ == filter_kinds(kept, |u: EntityKind| u == EntityKind::ScoutCar) + filter_kinds(
                        kept,
                        |u: EntityKind| u != EntityKind::ScoutCar,
                    )
                } else {
                    r@ == kept
                }
            },
        },
{
    let timing = match profile.fast_tank_timing {
        None => {
            return copy_kinds(unit_priorities);
        },
        Some(t) => t,
    };
    let tanks_enough = facts.unit_count(EntityKind::Tank) >= timing.tanks_before_scout_car;
    let ghost keep = |u: EntityKind| u != EntityKind::ScoutCar || tanks_enough;
    let mut decide: Vec<bool> = Vec::new();
    let mut i: usize = 0;
    while i < unit_priorities.len()
        invariant
            i <= unit_priorities@.len(),
            decide@.len() == i,
            keep == (|u: EntityKind| u != EntityKind::ScoutCar || tanks_enough),
            forall|k: int| 0 <= k < i ==> decide@[k] == keep(#[trigger] unit_priorities@[k]),
        decreases unit_priorities@.len() - i,
    {
        decide.push(unit_priorities[i] != EntityKind::ScoutCar || tanks_enough);
        i = i + 1;
    }
    let kept = filter_kinds_exec(unit_priorities, Ghost(keep), &decide);
    if !(tanks_enough && facts.unit_count(EntityKind::ScoutCar) < timing.scout_car_target) {
        return kept;
    }
    let ghost scouts_first = |u: EntityKind| u == EntityKind::ScoutCar;
    let ghost others = |u: EntityKind| u != EntityKind::ScoutCar;
    let mut first: Vec<bool> = Vec::new();
    let mut rest: Vec<bool> = Vec::new();
    let mut j: usize = 0;
    while j < kept.len()
        invariant
            j <= kept@.len(),
            first@.len() == j,
            rest@.len() == j,
            scouts_first == (|u: EntityKind| u == EntityKind::ScoutCar),
            others == (|u: EntityKind| u != EntityKind::ScoutCar),
            forall|k: int| 0 <= k < j ==> first@[k] == scouts_first(#[trigger] kept@[k]),
            forall|k: int| 0 <= k < j ==> rest@[k] == others(#[trigger] kept@[k]),
        decreases kept@.len() - j,
    {
        first.push(kept[j] == EntityKind::ScoutCar);
        rest.push(kept[j] != EntityKind::ScoutCar);
        j = j + 1;
    }
    let mut out = filter_kinds_exec(kept.as_slice(), Ghost(scouts_first), &first);
    let tail = filter_kinds_exec(kept.as_slice(), Ghost(others), &rest);
    let ghost head = out@;
    let mut k: usize = 0;
    while k < tail.len()
        invariant
            k <= tail@.len(),
            out@ == head + tail@.take(k as int),
        decreases tail@.len() - k,
    {
        out.push(tail[k]);
        assert(out@ =~= head + tail@.take(k + 1));
        k = k + 1;
    }
    assert(tail@.take(tail@.len() as int) =~= tail@);
    out
}

/// The entrenchment research is done or on order.
pub open spec fn entrenchment_started_or_done(memory: &AiDecisionMemory, facts: &AiFacts) -> bool {
    facts.completed_upgrades@.contains(UpgradeKind::Entrenchment) || memory.pending_upgrades@.contains(
        UpgradeKind::Entrenchment,
    )
}

pub fn turtle_entrenchment_started_or_done(memory: &AiDecisionMemory, facts: &AiFacts) -> (r: bool)
    ensures
        r == entrenchment_started_or_done(memory, facts),
{
    has_upgrade(&facts.completed_upgrades, UpgradeKind::Entrenchment) || has_upgrade(
        &memory.pending_upgrades,
        UpgradeKind::Entrenchment,
    )
}

/// Which kinds a turtle profile trains now: riflemen until its opening is ordered, then
/// anti-tank guns once entrenchment is under way, and machine gunners as well while their
/// lines are not yet staffed (`machine_gunner_lines_staffed`, read from the map).
pub open spec fn turtle_keeps(
    kind: EntityKind,
    opening_done: bool,
    entrenching: bool,
    machine_gunner_lines_staffed: bool,
) -> bool {
    match kind {
        EntityKind::Rifleman => !opening_done,
        EntityKind::MachineGunner => opening_done && entrenching && !machine_gunner_lines_staffed,
        EntityKind::AntiTankGun => opening_done && entrenching,
        _ => true,
    }
}

pub fn effective_unit_priorities_for_turtle(
    profile: &AiProfile,
    memory: &AiDecisionMemory,
    facts: &AiFacts,
    machine_gunner_lines_staffed: bool,
    unit_priorities: &[EntityKind],
) -> (r: Vec<EntityKind>)
    ensures
        match profile.turtle_defense {
            None => r@ == unit_priorities@,
            Some(policy) => r@ == filter_kinds(
                unit_priorities@,
                |u: EntityKind|
                    turtle_keeps(
                        u,
                        memory.turtle_opening_riflemen_ordered >= policy.opening_riflemen,
                        entrenchment_started_or_done(memory, facts),
                        machine_gunner_lines_staffed,
                    ),
            ),
        },
{
    let policy = match profile.turtle_defense {
        None => {
            return copy_kinds(unit_priorities);
        },
        Some(p) => p,
    };
    let opening_done = memory.turtle_opening_riflemen_ordered >= policy.opening_riflemen;
    let entrenching = turtle_entrenchment_started_or_done(memory, facts);
    let ghost keep = |u: EntityKind|
        turtle_keeps(u, opening_done, entrenching, machine_gunner_lines_staffed);
    let mut decide: Vec<bool> = Vec::new();
    let mut i: usize = 0;
    while i < unit_priorities.len()
        invariant
            i <= unit_priorities@.len(),
            decide@.len() == i,
            keep == (|u: EntityKind|
                turtle_keeps(u, opening_done, entrenching, machine_gunner_lines_staffed)),
            forall|k: int| 0 <= k < i ==> decide@[k] == keep(#[trigger] unit_priorities@[k]),
        decreases unit_priorities@.len() - i,
    {
        let keeps = match unit_priorities[i] {
            EntityKind::Rifleman => !opening_done,
            EntityKind::MachineGunner => opening_done && entrenching && !machine_gunner_lines_staffed,
            EntityKind::AntiTankGun => opening_done && entrenching,
            _ => true,
        };
        decide.push(keeps);
        i = i + 1;
    }
    filter_kinds_exec(unit_priorities, Ghost(keep), &decide)
}

/// The position of the first `kind` in `s`.
pub open spec fn first_index_of(s: Seq<EntityKind>, kind: EntityKind) -> Option<int>
    decreases s.len(),
{
    if s.len() == 0 {
        None
    } else {
        match first_index_of(s.drop_last(), kind) {
            Some(i) => Some(i),
            None => if s.last() == kind {
                Some(s.len() - 1)
            } else {
                None
            },
        }
    }
}

/// A profile with defensive machine gunners adds them to production once a training centre
/// stands: right after the first tank, or first of all without tanks.
pub fn effective_unit_priorities_for_defensive_machine_gunners(
    profile: &AiProfile,
    facts: &AiFacts,
    unit_priorities: &[EntityKind],
) -> (r: Vec<EntityKind>)
    requires
        facts.wf(),
    ensures
        match profile.defensive_machine_gunners {
            Some(policy) => if policy.target_count == 0 || facts.complete_building_count_spec(
                EntityKind::TrainingCentre,
            ) == 0 || unit_priorities@.contains(EntityKind::MachineGunner) {
                r@ == unit_priorities@
            } else {
                r@ == unit_priorities@.insert(
                    match first_index_of(unit_priorities@, EntityKind::Tank) {
                        Some(i) => i + 1,
                        None => 0,
                    },
                    EntityKind::MachineGunner,
                )
            },
            None => r@ == unit_priorities@,
        },
{
    let mut priorities = copy_kinds(unit_priorities);
    let policy = match profile.defensive_machine_gunners {
        None => {
            return priorities;
        },
        Some(p) => p,
    };
    if policy.target_count == 0 || facts.complete_building_count(EntityKind::TrainingCentre) == 0 {
        return priorities;
    }
    if has_kind(unit_priorities, EntityKind::MachineGunner) {
        return priorities;
    }
    let mut at: usize = 0;
    let mut i: usize = 0;
    let mut found = false;
    while i < unit_priorities.len()
        invariant
            i <= unit_priorities@.len(),
            !found ==> first_index_of(unit_priorities@.take(i as int), EntityKind::Tank) is None,
            found ==> first_index_of(unit_priorities@, EntityKind::Tank) == Some(at as int),
            found ==> at < unit_priorities@.len(),
        decreases unit_priorities@.len() - i,
    {
        proof {
            assert(unit_priorities@.take(i + 1).drop_last() =~= unit_priorities@.take(i as int));
        }
        if !found && unit_priorities[i] == EntityKind::Tank {
            proof {
                assert(first_index_of(unit_priorities@.take(i + 1), EntityKind::Tank) == Some(i as int));
                lemma_first_index_extends(unit_priorities@, i as int + 1, EntityKind::Tank);
            }
            at = i;
            found = true;
        }
        i = i + 1;
    }
    proof {
        assert(unit_priorities@.take(unit_priorities@.len() as int) =~= unit_priorities@);
    }
    let pos = if found {
        at + 1
    } else {
        0
    };
    priorities.insert(pos, EntityKind::MachineGunner);
    priorities
}

proof fn lemma_first_index_extends(s: Seq<EntityKind>, k: int, kind: EntityKind)
    requires
        0 <= k <= s.len(),
        first_index_of(s.take(k), kind) is Some,
    ensures
        first_index_of(s, kind) == first_index_of(s.take(k), kind),
    decreases s.len() - k,
{
    if k < s.len() {
        assert(s.take(k + 1).drop_last() =~= s.take(k));
        lemma_first_index_extends(s, k + 1, kind);
    } else {
        assert(s.take(k) =~= s);
    }
}

/// The caps production keeps per kind, in this order: the defensive machine-gunner target;
/// a turtle's opening riflemen and its machine gunners (per staffed choke, the chokes being
/// those `available_chokes` finds, or the policy's count where the map was not analysed);
/// the fast timing's scout cars; the home anti-tank guns.
pub open spec fn production_max_counts_spec(
    profile: &AiProfile,
    available_chokes: Option<usize>,
) -> Seq<(EntityKind, usize)> {
    let a = match profile.defensive_machine_gunners {
        Some(policy) => seq![(EntityKind::MachineGunner, policy.target_count)],
        None => Seq::empty(),
    };
    let b = match profile.turtle_defense {
        Some(policy) => {
            let chokes = match available_chokes {
                Some(n) => if n <= policy.machine_gunner_target_chokes {
                    n
                } else {
                    policy.machine_gunner_target_chokes
                },
                None => policy.machine_gunner_target_chokes,
            };
            let guns = if chokes * policy.machine_gunners_per_choke > usize::MAX {
                usize::MAX
            } else {
                (chokes * policy.machine_gunners_per_choke) as usize
            };
            a.push((EntityKind::Rifleman, policy.opening_riflemen)).push((EntityKind::MachineGunner, guns))
        },
        None => a,
    };
    let c = match profile.fast_tank_timing {
        Some(timing) => b.push((EntityKind::ScoutCar, timing.scout_car_target)),
        None => b,
    };
    match profile.home_anti_tank {
        Some(policy) => c.push((EntityKind::AntiTankGun, policy.target_guns)),
        None => c,
    }
}

pub fn production_max_counts(profile: &AiProfile, available_chokes: Option<usize>) -> (r: Vec<(EntityKind, usize)>)
    ensures
        r@ == production_max_counts_spec(profile, available_chokes),
{
    let mut counts: Vec<(EntityKind, usize)> = Vec::new();
    match profile.defensive_machine_gunners {
        Some(policy) => counts.push((EntityKind::MachineGunner, policy.target_count)),
        None => {},
    }
    match profile.turtle_defense {
        Some(policy) => {
            counts.push((EntityKind::Rifleman, policy.opening_riflemen));
            let chokes = match available_chokes {
                Some(n) => if n <= policy.machine_gunner_target_chokes {
                    n
                } else {
                    policy.machine_gunner_target_chokes
                },
                None => policy.machine_gunner_target_chokes,
            };
            let guns = match chokes.checked_mul(policy.machine_gunners_per_choke) {
                Some(v) => v,
                None => usize::MAX,
            };
            counts.push((EntityKind::MachineGunner, guns));
        },
        None => {},
    }
    match profile.fast_tank_timing {
        Some(timing) => counts.push((EntityKind::ScoutCar, timing.scout_car_target)),
        None => {},
    }
    match profile.home_anti_tank {
        Some(policy) => counts.push((EntityKind::AntiTankGun, policy.target_guns)),
        None => {},
    }
    proof {
        assert(counts@ =~= production_max_counts_spec(profile, available_chokes));
    }
    counts
}

/// A turtle profile holds back tech other than barracks and the training centre until the
/// training centre stands and entrenchment is under way.
pub open spec fn turtle_should_delay_tech_spec(
    profile: &AiProfile,
    memory: &AiDecisionMemory,
    facts: &AiFacts,
    kind: EntityKind,
) -> bool {
    &&& profile.turtle_defense is Some
    &&& kind != EntityKind::Barracks && kind != EntityKind::TrainingCentre
    &&& (facts.complete_building_count_spec(EntityKind::TrainingCentre) == 0
        || !entrenchment_started_or_done(memory, facts))
}

pub fn turtle_should_delay_tech_for_entrenchment(
    profile: &AiProfile,
    memory: &AiDecisionMemory,
    facts: &AiFacts,
    kind: EntityKind,
) -> (r: bool)
    requires
        facts.wf(),
    ensures
        r == turtle_should_delay_tech_spec(profile, memory, facts, kind),
{
    if profile.turtle_defense.is_none() {
        return false;
    }
    match kind {
        EntityKind::Barracks | EntityKind::TrainingCentre => {
            return false;
        },
        _ => {},
    }
    if facts.complete_building_count(EntityKind::TrainingCentre) == 0 {
        return true;
    }
    !turtle_entrenchment_started_or_done(memory, facts)
}

/// Barracks a turtle profile wants: one until the training centre stands, then at least its
/// support count.
pub fn turtle_barracks_target(profile: &AiProfile, facts: &AiFacts, base_target: usize) -> (r: usize)
    requires
        facts.wf(),
    ensures
        r == match profile.turtle_defense {
            None => base_target,
            Some(policy) => if facts.complete_building_count_spec(EntityKind::TrainingCentre) == 0 {
                if base_target <= 1 {
                    base_target
                } else {
                    1
                }
            } else if base_target >= policy.support_barracks_target {
                base_target
            } else {
                policy.support_barracks_target
            },
        },
{
    let policy = match profile.turtle_defense {
        None => {
            return base_target;
        },
        Some(p) => p,
    };
    if facts.complete_building_count(EntityKind::TrainingCentre) == 0 {
        return if base_target <= 1 {
            base_target
        } else {
            1
        };
    }
    if base_target >= policy.support_barracks_target {
        base_target
    } else {
        policy.support_barracks_target
    }
}

/// The turtle opening still has riflemen to order.
pub open spec fn turtle_opening_pending_spec(profile: &AiProfile, memory: &AiDecisionMemory) -> bool {
    match profile.turtle_defense {
        Some(policy) => memory.turtle_opening_riflemen_ordered < policy.opening_riflemen,
        None => false,
    }
}

pub fn turtle_opening_pending(profile: &AiProfile, memory: &AiDecisionMemory) -> (r: bool)
    ensures
        r == turtle_opening_pending_spec(profile, memory),
{
    match profile.turtle_defense {
        Some(policy) => memory.turtle_opening_riflemen_ordered < policy.opening_riflemen,
        None => false,
    }
}

/// The oil workers asked for: one while a turtle opening is still being ordered, else the
/// panic plan's count during a panic, else the profile's own rule.
pub fn oil_demand_signal(
    profile: &AiProfile,
    memory: &AiDecisionMemory,
    panic_plan: Option<DefensivePanicPlan>,
) -> (r: OilDemandSignal)
    ensures
        r == if turtle_opening_pending_spec(profile, memory) {
            OilDemandSignal::ExactWorkers(1)
        } else {
            match panic_plan {
                Some(plan) => OilDemandSignal::ExactWorkers(plan.oil_workers),
                None => OilDemandSignal::ProfileDefault,
            }
        },
{
    if turtle_opening_pending(profile, memory) {
        return OilDemandSignal::ExactWorkers(1);
    }
    match panic_plan {
        Some(plan) => OilDemandSignal::ExactWorkers(plan.oil_workers),
        None => OilDemandSignal::ProfileDefault,
    }
}

/// Whether the stimulant research no longer holds a wave back: a fast tank timing never
/// waits for it, and only waves with tanks need it.
pub fn methamphetamines_ready(
    profile: &AiProfile,
    attack_unit_kinds: &[EntityKind],
    completed_upgrades: &Vec<UpgradeKind>,
) -> (r: bool)
    ensures
        r == (profile.fast_tank_timing is Some || !attack_unit_kinds@.contains(EntityKind::Tank)
            || completed_upgrades@.contains(UpgradeKind::Methamphetamines)),
{
    profile.fast_tank_timing.is_some() || !has_kind(attack_unit_kinds, EntityKind::Tank)
        || has_upgrade(completed_upgrades, UpgradeKind::Methamphetamines)
}

} // verus!
