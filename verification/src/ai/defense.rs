//! Home defence: the emergency production plan, the defensive machine-gunner roster, the
//! split of defenders over approaches, and how many interceptors answer a threat.
use crate::ai::budget::{sat_add_u32, unit_value, CostTable};
use crate::ai::ids::{
    contains_id, ids_where, keep_ids, sort_ids, sorted_ids, sorted_unique_ids, strictly_sorted_ids,
};
use crate::ai::targets::EnemyContact;
use crate::ai::ranking::{keyed_sorted, sort_keyed};
use crate::ai::kinds::{is_unit_spec, EntityKind};
use crate::ai::model::{
    AiFacts, AiProfile, DefensiveMachineGunnerPolicy, EntitySummary, ProductionPolicy,
};
use vstd::multiset::Multiset;
use vstd::prelude::*;

verus! {

/// Ticks after the last threat during which a defensive panic stays active.
pub const DEFENSIVE_PANIC_GRACE_TICKS: u32 = 90;

/// Ticks after its start from which an active defensive panic counts as sustained.
pub const DEFENSIVE_PANIC_SUSTAINED_TICKS: u32 = 180;

/// Barracks kept while a defensive panic lasts beyond the grace period.
pub const DEFENSIVE_PANIC_SUSTAINED_BARRACKS: usize = 2;

/// Oil workers kept during a machine-gun, anti-tank or mixed panic response.
pub const DEFENSIVE_PANIC_OIL_WORKERS: usize = 2;

/// What a defensive panic builds.
#[derive(Clone, Copy, PartialEq, Eq, Structural, Debug)]
pub enum DefensivePanicResponse {
    Riflemen,
    MachineGunners,
    AntiTankGuns,
    SupportMix,
}

#[derive(Clone, Copy)]
pub struct DefensivePanic {
    pub active: bool,
    pub sustained: bool,
    pub response: DefensivePanicResponse,
}

/// Barracks wanted during a panic: two once it is sustained, else one.
pub fn defensive_panic_barracks_target(panic: DefensivePanic) -> (r: usize)
    ensures
        r == if panic.sustained {
            DEFENSIVE_PANIC_SUSTAINED_BARRACKS
        } else {
            1
        },
{
    if panic.sustained {
        DEFENSIVE_PANIC_SUSTAINED_BARRACKS
    } else {
        1
    }
}

/// The production that replaces the profile's own while a panic lasts.
#[derive(Clone, Copy)]
pub struct DefensivePanicPlan {
    pub required_tech_path: &'static [EntityKind],
    pub production: ProductionPolicy,
    pub oil_workers: usize,
}

pub open spec fn plan_matches(
    plan: DefensivePanicPlan,
    units: Seq<EntityKind>,
    balance: bool,
    oil_workers: usize,
) -> bool {
    &&& plan.required_tech_path@ == seq![EntityKind::Barracks]
    &&& plan.production.queue_depth == 3
    &&& plan.production.unit_priorities@ == units
    &&& plan.production.save_for_first_tech_unit is None
    &&& plan.production.balance_unit_priorities == balance
    &&& plan.oil_workers == oil_workers
}

/// Riflemen only, from barracks, with no oil workers.
pub fn defensive_panic_rifle_plan() -> (r: DefensivePanicPlan)
    ensures
        plan_matches(r, seq![EntityKind::Rifleman], false, 0),
{
    let r = DefensivePanicPlan {
        required_tech_path: &[EntityKind::Barracks],
        production: ProductionPolicy {
            queue_depth: 3,
            unit_priorities: &[EntityKind::Rifleman],
            save_for_first_tech_unit: None,
            balance_unit_priorities: false,
        },
        oil_workers: 0,
    };
    assert(r.required_tech_path@ =~= seq![EntityKind::Barracks]);
    assert(r.production.unit_priorities@ =~= seq![EntityKind::Rifleman]);
    r
}

/// The panic plan for a response: machine gunners need a complete training centre, anti-tank
/// guns a complete gun works, the support mix a training centre; without the tech the panic
/// falls back to riflemen.
pub open spec fn defensive_panic_plan_matches(
    response: DefensivePanicResponse,
    facts: &AiFacts,
    plan: DefensivePanicPlan,
) -> bool {
    let mg_ready = facts.complete_building_count_spec(EntityKind::TrainingCentre) > 0;
    let at_ready = facts.complete_building_count_spec(EntityKind::Steelworks) > 0;
    if response == DefensivePanicResponse::MachineGunners && mg_ready {
        plan_matches(
            plan,
            seq![EntityKind::MachineGunner, EntityKind::Rifleman],
            false,
            DEFENSIVE_PANIC_OIL_WORKERS,
        )
    } else if response == DefensivePanicResponse::AntiTankGuns && at_ready {
        plan_matches(
            plan,
            seq![EntityKind::AntiTankGun, EntityKind::Rifleman],
            false,
            DEFENSIVE_PANIC_OIL_WORKERS,
        )
    } else if response == DefensivePanicResponse::SupportMix && mg_ready {
        plan_matches(
            plan,
            seq![EntityKind::AntiTankGun, EntityKind::MachineGunner, EntityKind::Rifleman],
            true,
            DEFENSIVE_PANIC_OIL_WORKERS,
        )
    } else {
        plan_matches(plan, seq![EntityKind::Rifleman], false, 0)
    }
}

pub fn defensive_panic_plan(response: DefensivePanicResponse, facts: &AiFacts) -> (r:
    DefensivePanicPlan)
    requires
        facts.wf(),
    ensures
        defensive_panic_plan_matches(response, facts, r),
{
    let mg_ready = facts.complete_building_count(EntityKind::TrainingCentre) > 0;
    let at_ready = facts.complete_building_count(EntityKind::Steelworks) > 0;
    let units: &'static [EntityKind] = match response {
        DefensivePanicResponse::MachineGunners if mg_ready => &[
            EntityKind::MachineGunner,
            EntityKind::Rifleman,
        ],
        DefensivePanicResponse::AntiTankGuns if at_ready => &[
            EntityKind::AntiTankGun,
            EntityKind::Rifleman,
        ],
        DefensivePanicResponse::SupportMix if mg_ready => &[
            EntityKind::AntiTankGun,
            EntityKind::MachineGunner,
            EntityKind::Rifleman,
        ],
        _ => {
            return defensive_panic_rifle_plan();
        },
    };
    let balance = response == DefensivePanicResponse::SupportMix;
    let r = DefensivePanicPlan {
        required_tech_path: &[EntityKind::Barracks],
        production: ProductionPolicy {
            queue_depth: 3,
            unit_priorities: units,
            save_for_first_tech_unit: None,
            balance_unit_priorities: balance,
        },
        oil_workers: DEFENSIVE_PANIC_OIL_WORKERS,
    };
    assert(r.required_tech_path@ =~= seq![EntityKind::Barracks]);
    proof {
        if response == DefensivePanicResponse::MachineGunners {
            assert(units@ =~= seq![EntityKind::MachineGunner, EntityKind::Rifleman]);
        } else if response == DefensivePanicResponse::AntiTankGuns {
            assert(units@ =~= seq![EntityKind::AntiTankGun, EntityKind::Rifleman]);
        } else {
            assert(units@ =~= seq![EntityKind::AntiTankGun, EntityKind::MachineGunner, EntityKind::Rifleman]);
        }
    }
    r
}

/// A local fight is a panic when enemies are present and their value is at least three
/// quarters of the defenders' value.
pub open spec fn panic_outnumbered_spec(enemy_value: u32, own_value: u32) -> bool {
    enemy_value > 0 && enemy_value * 4 >= own_value * 3
}

pub fn panic_outnumbered(enemy_value: u32, own_value: u32) -> (r: bool)
    ensures
        r == panic_outnumbered_spec(enemy_value, own_value),
{
    if enemy_value == 0 {
        return false;
    }
    (enemy_value as u64) * 4 >= (own_value as u64) * 3
}

/// A local fight is a panic exactly when enemies are present and four times their value
/// reaches three times the defenders' value; more enemy value, or less of our own, never
/// ends a panic.
pub proof fn law_panic_at_three_quarters(enemy: u32, own: u32, more_enemy: u32, less_own: u32)
    requires
        more_enemy >= enemy,
        less_own <= own,
    ensures
        panic_outnumbered_spec(enemy, own) <==> (enemy > 0 && 4 * enemy >= 3 * own),
        panic_outnumbered_spec(enemy, own) ==> panic_outnumbered_spec(more_enemy, less_own),
{
}

/// Every panic plan recruits riflemen from barracks, whatever the response and the tech.
pub proof fn law_every_panic_plan_trains_riflemen_at_barracks(
    response: DefensivePanicResponse,
    facts: &AiFacts,
    plan: DefensivePanicPlan,
)
    requires
        defensive_panic_plan_matches(response, facts, plan),
    ensures
        plan.production.unit_priorities@.contains(EntityKind::Rifleman),
        plan.required_tech_path@ == seq![EntityKind::Barracks],
        plan.production.queue_depth == 3,
{
    let p = plan.production.unit_priorities@;
    assert(p[p.len() - 1] == EntityKind::Rifleman);
}

/// A panic builds its response's guns exactly when their tech is complete, and nothing else
/// decides it: anti-tank guns (then riflemen) when a gun works (Steelworks) is complete,
/// whether or not a training centre is; machine gunners (then riflemen) when a training
/// centre is complete, whether or not a gun works is; the support mix of anti-tank guns,
/// machine gunners and riflemen, balanced, when a training centre is complete. Those plans
/// keep two oil workers; otherwise the panic trains riflemen only and keeps no oil workers.
pub proof fn law_panic_plan_follows_its_tech(
    response: DefensivePanicResponse,
    facts: &AiFacts,
    plan: DefensivePanicPlan,
)
    requires
        defensive_panic_plan_matches(response, facts, plan),
    ensures
        ({
            let training_centre = facts.complete_building_count_spec(EntityKind::TrainingCentre) > 0;
            let gun_works = facts.complete_building_count_spec(EntityKind::Steelworks) > 0;
            let units = plan.production.unit_priorities@;
            let guns = plan.oil_workers == 2 && plan.production.save_for_first_tech_unit is None;
            let riflemen_only = units == seq![EntityKind::Rifleman] && plan.oil_workers == 0
                && !plan.production.balance_unit_priorities;
            &&& response == DefensivePanicResponse::AntiTankGuns ==> if gun_works {
                units == seq![EntityKind::AntiTankGun, EntityKind::Rifleman] && guns
                    && !plan.production.balance_unit_priorities
            } else {
                riflemen_only
            }
            &&& response == DefensivePanicResponse::MachineGunners ==> if training_centre {
                units == seq![EntityKind::MachineGunner, EntityKind::Rifleman] && guns
                    && !plan.production.balance_unit_priorities
            } else {
                riflemen_only
            }
            &&& response == DefensivePanicResponse::SupportMix ==> if training_centre {
                units == seq![EntityKind::AntiTankGun, EntityKind::MachineGunner, EntityKind::Rifleman]
                    && guns && plan.production.balance_unit_priorities
            } else {
                riflemen_only
            }
            &&& response == DefensivePanicResponse::Riflemen ==> riflemen_only
        }),
{
}

// ---------------------------------------------------------------- machine gunners

/// A machine gunner is healthy enough when its hp is at least `threshold` percent of
/// `max_hp` (both sides saturate at `u32::MAX`).
pub open spec fn meets_replacement_health_spec(hp: u32, threshold: u8, max_hp: u32) -> bool {
    let lhs = if hp * 100 > u32::MAX { u32::MAX as int } else { hp * 100 };
    let rhs = if max_hp * threshold > u32::MAX { u32::MAX as int } else { max_hp * threshold };
    lhs >= rhs
}

pub fn machine_gunner_meets_replacement_health(hp: u32, threshold: u8, max_hp: u32) -> (r: bool)
    ensures
        r == meets_replacement_health_spec(hp, threshold, max_hp),
{
    sat_mul_u32(hp, 100) >= sat_mul_u32(max_hp, threshold as u32)
}

/// `a * b`, saturated at `u32::MAX`.
pub fn sat_mul_u32(a: u32, b: u32) -> (r: u32)
    ensures
        r == if a * b > u32::MAX {
            u32::MAX as int
        } else {
            a * b
        },
{
    assert((a as int) * (b as int) <= (u32::MAX as int) * (u32::MAX as int)) by (nonlinear_arith)
        requires
            a <= u32::MAX,
            b <= u32::MAX,
    ;
    let p = (a as u64) * (b as u64);
    if p > u32::MAX as u64 {
        u32::MAX
    } else {
        p as u32
    }
}

pub open spec fn defensive_mg_candidate(e: EntitySummary, require_free_for_combat: bool) -> bool {
    e.kind == EntityKind::MachineGunner && e.hp > 0 && e.is_complete && (!require_free_for_combat
        || e.free_for_combat)
}

pub open spec fn some_entity_healthy(owned: Seq<EntitySummary>, id: u32, threshold: u8, max_hp: u32) -> bool {
    exists|k: int|
        0 <= k < owned.len() && (#[trigger] owned[k]).id == id && meets_replacement_health_spec(
            owned[k].hp,
            threshold,
            max_hp,
        )
}

fn some_entity_healthy_exec(owned: &Vec<EntitySummary>, id: u32, threshold: u8, max_hp: u32) -> (r: bool)
    ensures
        r == some_entity_healthy(owned@, id, threshold, max_hp),
{
    let mut k: usize = 0;
    while k < owned.len()
        invariant
            k <= owned.len(),
            forall|j: int|
                0 <= j < k ==> !((#[trigger] owned@[j]).id == id && meets_replacement_health_spec(
                    owned@[j].hp,
                    threshold,
                    max_hp,
                )),
        decreases owned.len() - k,
    {
        if owned[k].id == id && machine_gunner_meets_replacement_health(owned[k].hp, threshold, max_hp) {
            assert(owned@[k as int].id == id);
            return true;
        }
        k = k + 1;
    }
    false
}

/// A machine gunner that a profile keeping `policy` counts on for the home defence: alive,
/// complete, free for combat when `require_free_for_combat` (a build clearance does not ask
/// it: firing, holding or entrenched gunners count too), and, when the policy sets a
/// replacement health, at or above it (judged by the owned entities that carry its id).
pub open spec fn eligible_defensive_gunner(
    owned: Seq<EntitySummary>,
    e: EntitySummary,
    require_free_for_combat: bool,
    policy: DefensiveMachineGunnerPolicy,
    max_hp: u32,
) -> bool {
    defensive_mg_candidate(e, require_free_for_combat) && match policy.replacement_health_percent {
        Some(t) => some_entity_healthy(owned, e.id, t, max_hp),
        None => true,
    }
}

/// The ids of the eligible defensive machine gunners, each as often as an owned entity
/// carries it.
pub open spec fn eligible_gunner_ids(
    owned: Seq<EntitySummary>,
    require_free_for_combat: bool,
    policy: DefensiveMachineGunnerPolicy,
    max_hp: u32,
) -> Multiset<u32> {
    ids_where(
        owned,
        |e: EntitySummary| eligible_defensive_gunner(owned, e, require_free_for_combat, policy, max_hp),
    ).to_multiset()
}

/// `r` is the `n` lowest ids of `pool` (all of them when it holds fewer), in ascending order:
/// every id of `pool` that `r` leaves out is at least every id that `r` holds.
pub open spec fn lowest_ids_of(r: Seq<u32>, pool: Multiset<u32>, n: usize) -> bool {
    &&& sorted_ids(r)
    &&& r.len() == if pool.len() <= n {
        pool.len() as int
    } else {
        n as int
    }
    &&& r.to_multiset().subset_of(pool)
    &&& forall|i: int, x: u32|
        0 <= i < r.len() && #[trigger] r.to_multiset().count(x) < pool.count(x) ==> #[trigger] r[i]
            <= x
}

proof fn lemma_keep_ids_count(s: Seq<u32>, keep: spec_fn(u32) -> bool)
    ensures
        forall|x: u32|
            #[trigger] keep_ids(s, keep).to_multiset().count(x) == if keep(x) {
                s.to_multiset().count(x)
            } else {
                0
            },
    decreases s.len(),
{
    broadcast use vstd::seq_lib::group_to_multiset_ensures;

    broadcast use vstd::multiset::group_multiset_axioms;

    if s.len() > 0 {
        let init = s.drop_last();
        let l = s.last();
        lemma_keep_ids_count(init, keep);
        assert(s =~= init.push(l));
        assert(s.to_multiset() =~= init.to_multiset().insert(l));
        if keep(l) {
            assert(keep_ids(s, keep).to_multiset() =~= keep_ids(init, keep).to_multiset().insert(l));
        }
    } else {
        assert(keep_ids(s, keep) =~= Seq::<u32>::empty());
    }
}

proof fn lemma_keep_ids_sorted(s: Seq<u32>, keep: spec_fn(u32) -> bool)
    requires
        sorted_ids(s),
    ensures
        sorted_ids(keep_ids(s, keep)),
    decreases s.len(),
{
    broadcast use vstd::seq_lib::group_to_multiset_ensures;

    if s.len() > 0 {
        let init = s.drop_last();
        lemma_keep_ids_sorted(init, keep);
        lemma_keep_ids_count(init, keep);
        let k = keep_ids(init, keep);
        assert forall|j: int| 0 <= j < k.len() implies k[j] <= s.last() by {
            assert(k.to_multiset().count(k[j]) > 0);
            assert(init.contains(k[j]));
            let m = choose|m: int| 0 <= m < init.len() && init[m] == k[j];
            assert(s[m] <= s[s.len() - 1]);
        }
    }
}

proof fn lemma_ids_where_refined(
    owned: Seq<EntitySummary>,
    p: spec_fn(EntitySummary) -> bool,
    q: spec_fn(EntitySummary) -> bool,
    h: spec_fn(u32) -> bool,
)
    requires
        forall|e: EntitySummary| #[trigger] q(e) == (p(e) && h(e.id)),
    ensures
        forall|x: u32|
            #[trigger] ids_where(owned, q).to_multiset().count(x) == if h(x) {
                ids_where(owned, p).to_multiset().count(x)
            } else {
                0
            },
    decreases owned.len(),
{
    broadcast use vstd::seq_lib::group_to_multiset_ensures;

    broadcast use vstd::multiset::group_multiset_axioms;

    if owned.len() > 0 {
        let init = owned.drop_last();
        let l = owned.last();
        lemma_ids_where_refined(init, p, q, h);
        assert(q(l) == (p(l) && h(l.id)));
        if p(l) {
            assert(ids_where(owned, p).to_multiset() =~= ids_where(init, p).to_multiset().insert(l.id));
        }
        if q(l) {
            assert(ids_where(owned, q).to_multiset() =~= ids_where(init, q).to_multiset().insert(l.id));
        }
        assert forall|x: u32|
            #[trigger] ids_where(owned, q).to_multiset().count(x) == if h(x) {
                ids_where(owned, p).to_multiset().count(x)
            } else {
                0
            } by {
            assert(ids_where(init, q).to_multiset().count(x) == if h(x) {
                ids_where(init, p).to_multiset().count(x)
            } else {
                0
            });
            if !p(l) {
                assert(ids_where(owned, p) == ids_where(init, p));
            }
            if !q(l) {
                assert(ids_where(owned, q) == ids_where(init, q));
            }
        }
    } else {
        assert(ids_where(owned, q) =~= Seq::<u32>::empty());
        assert(ids_where(owned, p) =~= Seq::<u32>::empty());
    }
}

/// The first `k` ids of an ascending sequence are its `k` lowest.
proof fn lemma_sorted_prefix_is_lowest(kept: Seq<u32>, pool: Multiset<u32>, n: usize)
    requires
        sorted_ids(kept),
        kept.to_multiset() == pool,
    ensures
        lowest_ids_of(
            kept.take(
                if kept.len() <= n {
                    kept.len() as int
                } else {
                    n as int
                },
            ),
            pool,
            n,
        ),
{
    broadcast use vstd::seq_lib::group_to_multiset_ensures;

    let k: int = if kept.len() <= n {
        kept.len() as int
    } else {
        n as int
    };
    let r = kept.take(k);
    let rest = kept.skip(k);
    assert(kept =~= r + rest);
    vstd::seq_lib::lemma_multiset_commutative(r, rest);
    assert forall|i: int, x: u32|
        0 <= i < r.len() && #[trigger] r.to_multiset().count(x) < pool.count(x) implies #[trigger] r[i]
        <= x by {
        assert(rest.to_multiset().count(x) > 0);
        assert(rest.contains(x));
        let j = choose|j: int| 0 <= j < rest.len() && rest[j] == x;
        assert(kept[k + j] == x);
        assert(kept[i] <= kept[k + j]);
    }
}

/// The gunners kept before the cut to the target count are the eligible ones, ascending.
proof fn lemma_matching_gunners_are_eligible(
    owned: Seq<EntitySummary>,
    require_free_for_combat: bool,
    policy: DefensiveMachineGunnerPolicy,
    max_hp: u32,
    sorted: Seq<u32>,
    kept: Seq<u32>,
)
    requires
        sorted_ids(sorted),
        sorted.to_multiset() == ids_where(
            owned,
            |e: EntitySummary| defensive_mg_candidate(e, require_free_for_combat),
        ).to_multiset(),
        kept == match policy.replacement_health_percent {
            Some(t) => keep_ids(sorted, |id: u32| some_entity_healthy(owned, id, t, max_hp)),
            None => sorted,
        },
    ensures
        sorted_ids(kept),
        kept.to_multiset() == eligible_gunner_ids(owned, require_free_for_combat, policy, max_hp),
{
    let cand = |e: EntitySummary| defensive_mg_candidate(e, require_free_for_combat);
    let elig = |e: EntitySummary|
        eligible_defensive_gunner(owned, e, require_free_for_combat, policy, max_hp);
    let pool = eligible_gunner_ids(owned, require_free_for_combat, policy, max_hp);
    match policy.replacement_health_percent {
        Some(t) => {
            let h = |id: u32| some_entity_healthy(owned, id, t, max_hp);
            lemma_keep_ids_sorted(sorted, h);
            lemma_keep_ids_count(sorted, h);
            lemma_ids_where_refined(owned, cand, elig, h);
            assert(kept.to_multiset() =~= pool);
        },
        None => {
            let h = |id: u32| true;
            lemma_ids_where_refined(owned, cand, elig, h);
            assert(kept.to_multiset() =~= pool);
        },
    }
}

/// The machine gunners that hold the home defence for a profile that keeps them: the lowest
/// ids, up to the policy's target count, of the eligible gunners. `max_hp` is the machine
/// gunner's full hit points.
pub fn defensive_machine_gunner_units_matching(
    owned: &Vec<EntitySummary>,
    profile: &AiProfile,
    require_free_for_combat: bool,
    max_hp: u32,
) -> (r: Vec<u32>)
    ensures
        profile.defensive_machine_gunners is None ==> r@.len() == 0,
        profile.defensive_machine_gunners matches Some(p) ==> lowest_ids_of(
            r@,
            eligible_gunner_ids(owned@, require_free_for_combat, p, max_hp),
            p.target_count,
        ),
{
    let policy = match profile.defensive_machine_gunners {
        None => {
            return Vec::new();
        },
        Some(p) => p,
    };
    let mut found: Vec<u32> = Vec::new();
    let mut i: usize = 0;
    while i < owned.len()
        invariant
            i <= owned.len(),
            found@ == ids_where(
                owned@.take(i as int),
                |e: EntitySummary| defensive_mg_candidate(e, require_free_for_combat),
            ),
        decreases owned.len() - i,
    {
        proof {
            assert(owned@.take(i + 1).drop_last() =~= owned@.take(i as int));
            assert(owned@.take(i + 1).last() == owned@[i as int]);
        }
        let e = owned[i];
        if e.kind == EntityKind::MachineGunner && e.hp > 0 && e.is_complete && (
        !require_free_for_combat || e.free_for_combat) {
            found.push(e.id);
        }
        i = i + 1;
    }
    assert(owned@.take(owned@.len() as int) =~= owned@);
    let sorted = sort_ids(found);
    let ghost sorted_view = sorted@;
    let mut kept: Vec<u32> = Vec::new();
    match policy.replacement_health_percent {
        Some(t) => {
            let mut j: usize = 0;
            while j < sorted.len()
                invariant
                    j <= sorted.len(),
                    kept@ == keep_ids(
                        sorted@.take(j as int),
                        |id: u32| some_entity_healthy(owned@, id, t, max_hp),
                    ),
                decreases sorted.len() - j,
            {
                proof {
                    assert(sorted@.take(j + 1).drop_last() =~= sorted@.take(j as int));
                    assert(sorted@.take(j + 1).last() == sorted@[j as int]);
                }
                if some_entity_healthy_exec(owned, sorted[j], t, max_hp) {
                    kept.push(sorted[j]);
                }
                j = j + 1;
            }
            assert(sorted@.take(sorted@.len() as int) =~= sorted@);
        },
        None => {
            kept = sorted;
        },
    }
    proof {
        lemma_matching_gunners_are_eligible(
            owned@,
            require_free_for_combat,
            policy,
            max_hp,
            sorted_view,
            kept@,
        );
    }
    let ghost kept_full = kept@;
    if kept.len() > policy.target_count {
        kept.truncate(policy.target_count);
    } else {
        assert(kept@.take(kept@.len() as int) =~= kept@);
    }
    proof {
        lemma_sorted_prefix_is_lowest(
            kept_full,
            eligible_gunner_ids(owned@, require_free_for_combat, policy, max_hp),
            policy.target_count,
        );
    }
    kept
}

/// The defensive machine gunners that are free for combat.
pub fn defensive_machine_gunner_units(owned: &Vec<EntitySummary>, profile: &AiProfile, max_hp: u32) -> (r: Vec<u32>)
    ensures
        profile.defensive_machine_gunners is None ==> r@.len() == 0,
        profile.defensive_machine_gunners matches Some(p) ==> lowest_ids_of(
            r@,
            eligible_gunner_ids(owned@, true, p, max_hp),
            p.target_count,
        ),
{
    defensive_machine_gunner_units_matching(owned, profile, true, max_hp)
}

/// The defensive machine gunners a building site may move, engaged or not.
pub fn defensive_machine_gunner_units_for_build_clearance(
    owned: &Vec<EntitySummary>,
    profile: &AiProfile,
    max_hp: u32,
) -> (r: Vec<u32>)
    ensures
        profile.defensive_machine_gunners is None ==> r@.len() == 0,
        profile.defensive_machine_gunners matches Some(p) ==> lowest_ids_of(
            r@,
            eligible_gunner_ids(owned@, false, p, max_hp),
            p.target_count,
        ),
{
    defensive_machine_gunner_units_matching(owned, profile, false, max_hp)
}

// ---------------------------------------------------------------- approaches and threats

/// Units `0..unit_count` are dealt out in order over `approach_count` approaches (at least
/// one): each approach gets `unit_count / approach_count`, and the first
/// `unit_count % approach_count` approaches one more. Unit `index` gets its approach and its
/// place within that approach's group.
pub open spec fn approach_group_start(unit_count: int, approach_count: int, approach: int) -> int {
    let base = unit_count / approach_count;
    let rem = unit_count % approach_count;
    approach * base + if approach < rem {
        approach
    } else {
        rem
    }
}

pub open spec fn approach_group_size(unit_count: int, approach_count: int, approach: int) -> int {
    unit_count / approach_count + if approach < unit_count % approach_count {
        1int
    } else {
        0int
    }
}

pub open spec fn effective_approaches(approach_count: usize) -> int {
    if approach_count == 0 {
        1
    } else {
        approach_count as int
    }
}

pub fn balanced_approach_slot(index: usize, unit_count: usize, approach_count: usize) -> (r: (
    usize,
    usize,
))
    ensures
        ({
            let a = effective_approaches(approach_count);
            if index < unit_count {
                &&& r.0 < a
                &&& approach_group_start(unit_count as int, a, r.0 as int) + r.1 == index
                &&& r.1 < approach_group_size(unit_count as int, a, r.0 as int)
            } else {
                r == ((a - 1) as usize, 0usize)
            }
        }),
{
    let approaches: usize = if approach_count == 0 {
        1
    } else {
        approach_count
    };
    let base = unit_count / approaches;
    let remainder = unit_count % approaches;
    let mut start: usize = 0;
    let mut approach: usize = 0;
    while approach < approaches
        invariant
            approach <= approaches,
            approaches as int == effective_approaches(approach_count),
            approaches >= 1,
            base == unit_count / approaches,
            remainder == unit_count % approaches,
            start as int == approach_group_start(unit_count as int, approaches as int, approach as int),
            index >= start,
            start <= unit_count,
        decreases approaches - approach,
    {
        proof {
            lemma_group_start_bounds(unit_count as int, approaches as int, approach as int);
        }
        let count: usize = if approach < remainder {
            base + 1
        } else {
            base
        };
        if index < start + count {
            return (approach, index - start);
        }
        start = start + count;
        approach = approach + 1;
    }
    proof {
        lemma_group_start_bounds(unit_count as int, approaches as int, approaches as int);
    }
    (approaches - 1, 0)
}

proof fn lemma_group_start_bounds(unit_count: int, approach_count: int, approach: int)
    requires
        unit_count >= 0,
        approach_count >= 1,
        0 <= approach <= approach_count,
    ensures
        approach_group_start(unit_count, approach_count, approach) + approach_group_size(
            unit_count,
            approach_count,
            approach,
        ) == approach_group_start(unit_count, approach_count, approach + 1),
        approach_group_start(unit_count, approach_count, approach) >= 0,
        approach < approach_count ==> approach_group_start(unit_count, approach_count, approach)
            + approach_group_size(unit_count, approach_count, approach) <= unit_count,
        approach_group_start(unit_count, approach_count, approach_count) == unit_count,
{
    let base = unit_count / approach_count;
    let rem = unit_count % approach_count;
    assert(unit_count == approach_count * base + rem) by (nonlinear_arith)
        requires
            approach_count >= 1,
            base == unit_count / approach_count,
            rem == unit_count % approach_count,
    ;
    assert(0 <= rem < approach_count);
    assert(base >= 0) by (nonlinear_arith)
        requires
            unit_count >= 0,
            approach_count >= 1,
            base == unit_count / approach_count,
    ;
    assert((approach + 1) * base == approach * base + base) by (nonlinear_arith);
    assert(approach * base >= 0) by (nonlinear_arith)
        requires
            approach >= 0,
            base >= 0,
    ;
    assert(approach_count * base == (approach_count - approach) * base + approach * base)
        by (nonlinear_arith);
    assert((approach_count - approach) * base >= 0) by (nonlinear_arith)
        requires
            approach_count - approach >= 0,
            base >= 0,
    ;
    if approach < approach_count {
        assert((approach_count - approach) * base >= base) by (nonlinear_arith)
            requires
                approach_count - approach >= 1,
                base >= 0,
        ;
    }
}

/// Every unit lands on exactly one slot: two different units never share approach and place.
pub proof fn law_balanced_slots_are_distinct(unit_count: usize, approach_count: usize, i: usize, j: usize, ri: (usize, usize), rj: (usize, usize))
    requires
        i < unit_count,
        j < unit_count,
        i != j,
        ({
            let a = effective_approaches(approach_count);
            &&& ri.0 < a
            &&& approach_group_start(unit_count as int, a, ri.0 as int) + ri.1 == i
            &&& rj.0 < a
            &&& approach_group_start(unit_count as int, a, rj.0 as int) + rj.1 == j
        }),
    ensures
        ri != rj,
{
}

/// The threat value of the enemies in one sector: each unit counts its price (at least 1),
/// each building counts 1.
pub open spec fn sector_threat_value_spec(costs: &CostTable, kinds: Seq<EntityKind>) -> int
    decreases kinds.len(),
{
    if kinds.len() == 0 {
        0
    } else {
        sector_threat_value_spec(costs, kinds.drop_last()) + if is_unit_spec(kinds.last()) {
            let v = sat_add_u32(costs.cost_spec(kinds.last()).0, costs.cost_spec(kinds.last()).1);
            if v >= 1 {
                v as int
            } else {
                1int
            }
        } else {
            1int
        }
    }
}

/// Sums the sector's threat; `None` when the sum does not fit in a `u32`.
pub fn sector_threat_value(costs: &CostTable, kinds: &Vec<EntityKind>) -> (r: Option<u32>)
    requires
        costs.wf(),
    ensures
        match r {
            Some(v) => v == sector_threat_value_spec(costs, kinds@),
            None => sector_threat_value_spec(costs, kinds@) > u32::MAX,
        },
{
    let mut total: u32 = 0;
    let mut i: usize = 0;
    while i < kinds.len()
        invariant
            i <= kinds.len(),
            costs.wf(),
            total == sector_threat_value_spec(costs, kinds@.take(i as int)),
        decreases kinds.len() - i,
    {
        proof {
            assert(kinds@.take(i + 1).drop_last() =~= kinds@.take(i as int));
            assert(kinds@.take(i + 1).last() == kinds@[i as int]);
            lemma_threat_value_monotone(costs, kinds@, (i + 1) as int);
        }
        let k = kinds[i];
        let v = if k.is_unit() {
            let u = unit_value(costs, k);
            if u >= 1 {
                u
            } else {
                1
            }
        } else {
            1
        };
        if total > u32::MAX - v {
            return None;
        }
        total = total + v;
        i = i + 1;
    }
    assert(kinds@.take(kinds@.len() as int) =~= kinds@);
    Some(total)
}

proof fn lemma_threat_value_monotone(costs: &CostTable, kinds: Seq<EntityKind>, n: int)
    requires
        0 <= n <= kinds.len(),
    ensures
        sector_threat_value_spec(costs, kinds.take(n)) <= sector_threat_value_spec(costs, kinds),
    decreases kinds.len() - n,
{
    if n < kinds.len() {
        lemma_threat_value_monotone(costs, kinds, n + 1);
        assert(kinds.take(n + 1).drop_last() =~= kinds.take(n));
    } else {
        assert(kinds.take(n) =~= kinds);
    }
}

/// How many of the ordered candidates answer a threat: candidates are taken in order, each
/// adding its value (at least 1), until the total reaches twice the threat value (at least 1).
pub open spec fn interceptor_total(values: Seq<u32>) -> int
    decreases values.len(),
{
    if values.len() == 0 {
        0
    } else {
        interceptor_total(values.drop_last()) + if values.last() >= 1 {
            values.last() as int
        } else {
            1int
        }
    }
}

pub open spec fn required_interceptor_value(threat_value: u32) -> int {
    let doubled = if threat_value * 2 > u32::MAX {
        u32::MAX as int
    } else {
        threat_value * 2
    };
    if doubled >= 1 {
        doubled
    } else {
        1
    }
}

/// The length of the shortest prefix of `values` whose total reaches the required value, or all
/// of them when none does.
pub fn interceptor_count(values: &Vec<u32>, threat_value: u32) -> (r: usize)
    ensures
        r <= values.len(),
        r == values.len() || interceptor_total(values@.take(r as int)) >= required_interceptor_value(
            threat_value,
        ),
        forall|k: int| 0 <= k < r ==> interceptor_total(values@.take(k)) < required_interceptor_value(threat_value),
{
    let required = {
        let d = sat_mul_u32(threat_value, 2);
        if d >= 1 {
            d
        } else {
            1
        }
    };
    let mut total: u32 = 0;
    let mut i: usize = 0;
    while i < values.len()
        invariant
            i <= values.len(),
            required == required_interceptor_value(threat_value),
            total as int == interceptor_total(values@.take(i as int)) || (total == u32::MAX
                && interceptor_total(values@.take(i as int)) >= u32::MAX),
            forall|k: int| 0 <= k <= i ==> interceptor_total(values@.take(k)) < required,
        decreases values.len() - i,
    {
        proof {
            assert(values@.take(i + 1).drop_last() =~= values@.take(i as int));
            assert(values@.take(i + 1).last() == values@[i as int]);
        }
        let v = if values[i] >= 1 {
            values[i]
        } else {
            1
        };
        total = total.saturating_add(v);
        if total >= required {
            return i + 1;
        }
        i = i + 1;
    }
    values.len()
}


/// The ids of the entities of `owned` that are ready and inside the home defence area
/// (`in_local_area[i]` for `owned[i]`), in observation order.
pub open spec fn local_units_spec(
    owned: Seq<EntitySummary>,
    in_local_area: Seq<bool>,
    ready: Seq<u32>,
) -> Seq<u32>
    decreases owned.len(),
{
    if owned.len() == 0 {
        Seq::empty()
    } else {
        let n = owned.len() - 1;
        let rest = local_units_spec(owned.drop_last(), in_local_area.take(n), ready);
        if ready.contains(owned.last().id) && in_local_area[n] {
            rest.push(owned.last().id)
        } else {
            rest
        }
    }
}

/// The ready units that stand inside the home defence area.
pub fn local_defense_units(
    owned: &Vec<EntitySummary>,
    in_local_area: &Vec<bool>,
    ready_units: &Vec<u32>,
) -> (r: Vec<u32>)
    requires
        in_local_area@.len() == owned@.len(),
    ensures
        r@ == local_units_spec(owned@, in_local_area@, ready_units@),
{
    let mut r: Vec<u32> = Vec::new();
    let mut i: usize = 0;
    while i < owned.len()
        invariant
            i <= owned.len(),
            in_local_area@.len() == owned@.len(),
            r@ == local_units_spec(owned@.take(i as int), in_local_area@.take(i as int), ready_units@),
        decreases owned.len() - i,
    {
        proof {
            assert(owned@.take(i + 1).drop_last() =~= owned@.take(i as int));
            assert(in_local_area@.take(i + 1).take(i as int) =~= in_local_area@.take(i as int));
        }
        let e = owned[i];
        if contains_id(ready_units, e.id) && in_local_area[i] {
            r.push(e.id);
        }
        i = i + 1;
    }
    proof {
        assert(owned@.take(owned@.len() as int) =~= owned@);
        assert(in_local_area@.take(owned@.len() as int) =~= in_local_area@);
    }
    r
}

/// The visible enemies inside the home defence area, by ascending id, each once.
pub fn local_defense_targets(contacts: &Vec<EnemyContact>) -> (r: Vec<u32>)
    ensures
        strictly_sorted_ids(r@),
        forall|id: u32|
            r@.contains(id) <==> exists|i: int|
                0 <= i < contacts@.len() && #[trigger] contacts@[i].id == id
                    && contacts@[i].in_local_area,
{
    let mut ids: Vec<u32> = Vec::new();
    let mut i: usize = 0;
    while i < contacts.len()
        invariant
            i <= contacts.len(),
            forall|id: u32|
                ids@.contains(id) <==> exists|k: int|
                    0 <= k < i && #[trigger] contacts@[k].id == id && contacts@[k].in_local_area,
        decreases contacts.len() - i,
    {
        let c = contacts[i];
        let ghost old_ids = ids@;
        if c.in_local_area {
            ids.push(c.id);
            assert forall|id: u32|
                ids@.contains(id) <==> exists|k: int|
                    0 <= k < i + 1 && #[trigger] contacts@[k].id == id
                        && contacts@[k].in_local_area by {
                if ids@.contains(id) && id != c.id {
                    let m = choose|m: int| 0 <= m < ids@.len() && ids@[m] == id;
                    assert(old_ids[m] == id);
                    assert(old_ids.contains(id));
                }
                if id == c.id {
                    assert(ids@[ids@.len() - 1] == id);
                }
                if exists|k: int|
                    0 <= k < i + 1 && #[trigger] contacts@[k].id == id && contacts@[k].in_local_area {
                    let k = choose|k: int|
                        0 <= k < i + 1 && #[trigger] contacts@[k].id == id
                            && contacts@[k].in_local_area;
                    if k < i {
                        assert(old_ids.contains(id));
                        let m = choose|m: int| 0 <= m < old_ids.len() && old_ids[m] == id;
                        assert(ids@[m] == id);
                    } else {
                        assert(ids@[ids@.len() - 1] == id);
                    }
                }
            }
        } else {
            assert forall|id: u32|
                ids@.contains(id) <==> exists|k: int|
                    0 <= k < i + 1 && #[trigger] contacts@[k].id == id
                        && contacts@[k].in_local_area by {
                if exists|k: int|
                    0 <= k < i + 1 && #[trigger] contacts@[k].id == id && contacts@[k].in_local_area {
                    let k = choose|k: int|
                        0 <= k < i + 1 && #[trigger] contacts@[k].id == id
                            && contacts@[k].in_local_area;
                    assert(k < i);
                }
            }
        }
        i = i + 1;
    }
    sorted_unique_ids(&ids)
}

/// Whether `owned` holds a rifleman, machine gunner or scout car with this id.
pub open spec fn is_light_defender(owned: Seq<EntitySummary>, id: u32) -> bool {
    exists|i: int|
        0 <= i < owned.len() && #[trigger] owned[i].id == id && (owned[i].kind
            == EntityKind::Rifleman || owned[i].kind == EntityKind::MachineGunner || owned[i].kind
            == EntityKind::ScoutCar)
}

/// The elements of `ids` that satisfy `keep`, in order.
pub open spec fn filter_ids(ids: Seq<u32>, keep: spec_fn(u32) -> bool) -> Seq<u32>
    decreases ids.len(),
{
    if ids.len() == 0 {
        Seq::empty()
    } else if keep(ids.last()) {
        filter_ids(ids.drop_last(), keep).push(ids.last())
    } else {
        filter_ids(ids.drop_last(), keep)
    }
}

fn light_defender(owned: &Vec<EntitySummary>, id: u32) -> (r: bool)
    ensures
        r == is_light_defender(owned@, id),
{
    let mut i: usize = 0;
    while i < owned.len()
        invariant
            i <= owned.len(),
            forall|j: int|
                0 <= j < i ==> !(#[trigger] owned@[j].id == id && (owned@[j].kind
                    == EntityKind::Rifleman || owned@[j].kind == EntityKind::MachineGunner
                    || owned@[j].kind == EntityKind::ScoutCar)),
        decreases owned.len() - i,
    {
        let e = owned[i];
        if e.id == id {
            match e.kind {
                EntityKind::Rifleman | EntityKind::MachineGunner | EntityKind::ScoutCar => {
                    return true;
                },
                _ => {},
            }
        }
        i = i + 1;
    }
    false
}

/// The local defenders that may intercept: those of `candidates` (the local defenders
/// without a standing assignment) that are riflemen, machine gunners or scout cars.
pub fn eligible_local_defenders(owned: &Vec<EntitySummary>, candidates: &Vec<u32>) -> (r: Vec<u32>)
    ensures
        r@ == filter_ids(candidates@, |id: u32| is_light_defender(owned@, id)),
{
    let mut r: Vec<u32> = Vec::new();
    let mut i: usize = 0;
    while i < candidates.len()
        invariant
            i <= candidates.len(),
            r@ == filter_ids(candidates@.take(i as int), |id: u32| is_light_defender(owned@, id)),
        decreases candidates.len() - i,
    {
        proof {
            assert(candidates@.take(i + 1).drop_last() =~= candidates@.take(i as int));
        }
        let id = candidates[i];
        if light_defender(owned, id) {
            r.push(id);
        }
        i = i + 1;
    }
    assert(candidates@.take(candidates@.len() as int) =~= candidates@);
    r
}


/// A candidate interceptor: its id, a key that grows with the time it needs to leave its
/// entrenchment, and a key that grows with its distance from the contact.
#[derive(Clone, Copy)]
pub struct InterceptorCandidate {
    pub id: u32,
    pub entrenchment_key: u64,
    pub distance_key: u64,
}

/// Candidates ranked least entrenched first, then nearest, then lowest id.
pub open spec fn interceptor_entries(cands: Seq<InterceptorCandidate>) -> Seq<((u64, u64, u64, u64), u32)> {
    cands.map_values(|c: InterceptorCandidate| ((c.entrenchment_key, c.distance_key, c.id as u64, 0u64), c.id))
}

/// The ids of `s` with each run of equal consecutive ids kept once.
pub open spec fn dedup_entry_ids(s: Seq<((u64, u64, u64, u64), u32)>) -> Seq<u32>
    decreases s.len(),
{
    if s.len() == 0 {
        Seq::empty()
    } else {
        let d = dedup_entry_ids(s.drop_last());
        if s.len() >= 2 && s[s.len() - 2].1 == s.last().1 {
            d
        } else {
            d.push(s.last().1)
        }
    }
}

proof fn lemma_dedup_entry_ids_last(s: Seq<((u64, u64, u64, u64), u32)>)
    requires
        s.len() > 0,
    ensures
        dedup_entry_ids(s).len() > 0,
        dedup_entry_ids(s).last() == s.last().1,
    decreases s.len(),
{
    if s.len() >= 2 && s[s.len() - 2].1 == s.last().1 {
        lemma_dedup_entry_ids_last(s.drop_last());
    }
}

/// The kind of the entity of `owned` with this id (the last one listed with it).
pub open spec fn owned_kind(owned: Seq<EntitySummary>, id: u32) -> Option<EntityKind>
    decreases owned.len(),
{
    if owned.len() == 0 {
        None
    } else if owned.last().id == id {
        Some(owned.last().kind)
    } else {
        owned_kind(owned.drop_last(), id)
    }
}

fn lookup_owned_kind(owned: &Vec<EntitySummary>, id: u32) -> (r: Option<EntityKind>)
    ensures
        r == owned_kind(owned@, id),
{
    let mut found: Option<EntityKind> = None;
    let mut i: usize = 0;
    while i < owned.len()
        invariant
            i <= owned.len(),
            found == owned_kind(owned@.take(i as int), id),
        decreases owned.len() - i,
    {
        assert(owned@.take(i + 1).drop_last() =~= owned@.take(i as int));
        if owned[i].id == id {
            found = Some(owned[i].kind);
        }
        i = i + 1;
    }
    assert(owned@.take(owned@.len() as int) =~= owned@);
    found
}

/// The ids of `ids` that name an owned entity, in order.
pub open spec fn owned_ids(owned: Seq<EntitySummary>, ids: Seq<u32>) -> Seq<u32>
    decreases ids.len(),
{
    if ids.len() == 0 {
        Seq::empty()
    } else if owned_kind(owned, ids.last()) is Some {
        owned_ids(owned, ids.drop_last()).push(ids.last())
    } else {
        owned_ids(owned, ids.drop_last())
    }
}

/// The value each of `ids` adds to an interception: its kind's price, steel and oil together.
pub open spec fn interceptor_values(owned: Seq<EntitySummary>, costs: CostTable, ids: Seq<u32>) -> Seq<u32> {
    ids.map_values(|id: u32| sat_add_u32(costs.cost_spec(owned_kind(owned, id)->0).0, costs.cost_spec(owned_kind(owned, id)->0).1))
}

/// The interceptors sent against a threat of `threat_value`: the candidates ranked least
/// entrenched, then nearest, then by id, each once, skipping ids no longer owned, taken in
/// that order until their value reaches twice the threat's (or all of them).
pub fn select_defensive_interceptors(
    owned: &Vec<EntitySummary>,
    costs: &CostTable,
    candidates: &Vec<InterceptorCandidate>,
    threat_value: u32,
) -> (r: Vec<u32>)
    requires
        costs.wf(),
    ensures
        exists|s: Seq<((u64, u64, u64, u64), u32)>|
            {
                &&& keyed_sorted(s)
                &&& s.to_multiset() == interceptor_entries(candidates@).to_multiset()
                &&& ({
                    let kept = owned_ids(owned@, dedup_entry_ids(s));
                    let values = interceptor_values(owned@, *costs, kept);
                    &&& r@.len() <= kept.len()
                    &&& r@ == kept.take(r@.len() as int)
                    &&& (r@.len() == kept.len() || interceptor_total(values.take(r@.len() as int))
                        >= required_interceptor_value(threat_value))
                    &&& forall|k: int|
                        0 <= k < r@.len() ==> interceptor_total(values.take(k))
                            < required_interceptor_value(threat_value)
                })
            },
{
    let mut entries: Vec<((u64, u64, u64, u64), u32)> = Vec::new();
    let mut i: usize = 0;
    while i < candidates.len()
        invariant
            i <= candidates.len(),
            entries@ == interceptor_entries(candidates@.take(i as int)),
        decreases candidates.len() - i,
    {
        let c = candidates[i];
        entries.push(((c.entrenchment_key, c.distance_key, c.id as u64, 0u64), c.id));
        assert(entries@ =~= interceptor_entries(candidates@.take(i + 1)));
        i = i + 1;
    }
    assert(candidates@.take(candidates@.len() as int) =~= candidates@);
    let sorted = sort_keyed(entries);
    let mut unique: Vec<u32> = Vec::new();
    let mut j: usize = 0;
    while j < sorted.len()
        invariant
            j <= sorted@.len(),
            unique@ == dedup_entry_ids(sorted@.take(j as int)),
        decreases sorted@.len() - j,
    {
        let id = sorted[j].1;
        proof {
            assert(sorted@.take(j + 1).drop_last() =~= sorted@.take(j as int));
            if j > 0 {
                lemma_dedup_entry_ids_last(sorted@.take(j as int));
            }
        }
        let repeated = j > 0 && sorted[j - 1].1 == id;
        if !repeated {
            unique.push(id);
        }
        j = j + 1;
    }
    assert(sorted@.take(sorted@.len() as int) =~= sorted@);
    let mut kept: Vec<u32> = Vec::new();
    let mut values: Vec<u32> = Vec::new();
    let mut k: usize = 0;
    while k < unique.len()
        invariant
            k <= unique@.len(),
            costs.wf(),
            kept@ == owned_ids(owned@, unique@.take(k as int)),
            values@ == interceptor_values(owned@, *costs, kept@),
        decreases unique@.len() - k,
    {
        assert(unique@.take(k + 1).drop_last() =~= unique@.take(k as int));
        let id = unique[k];
        match lookup_owned_kind(owned, id) {
            Some(kind) => {
                kept.push(id);
                values.push(unit_value(costs, kind));
                assert(values@ =~= interceptor_values(owned@, *costs, kept@));
            },
            None => {},
        }
        k = k + 1;
    }
    assert(unique@.take(unique@.len() as int) =~= unique@);
    let n = interceptor_count(&values, threat_value);
    let mut r: Vec<u32> = Vec::new();
    let mut m: usize = 0;
    while m < n
        invariant
            m <= n,
            n <= kept@.len(),
            kept@.len() == values@.len(),
            r@ == kept@.take(m as int),
        decreases n - m,
    {
        r.push(kept[m]);
        assert(r@ =~= kept@.take(m + 1));
        m = m + 1;
    }
    r
}

} // verus!
