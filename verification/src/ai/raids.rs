//! Rifle raids: which attack policies are raids and which riflemen take part.
use crate::ai::ids::{contains_id, ids_where, sort_ids, sorted_ids};
use crate::ai::targets::{is_best_target, select_target, EnemyContact, TargetRule};
use crate::ai::kinds::EntityKind;
use crate::ai::model::{AttackPolicy, EntityState, EntitySummary};
use vstd::prelude::*;

verus! {

/// An attack policy is a rifle raid when it sends riflemen alone, one at a time, with no
/// required unit and no wave growth.
pub open spec fn is_rifle_raid_policy_spec(attack: AttackPolicy) -> bool {
    attack.unit_kinds@ == seq![EntityKind::Rifleman] && attack.required_unit is None
        && attack.first_attack_size <= 1 && attack.wave_growth == 0
}

pub fn is_rifle_raid_policy(attack: AttackPolicy) -> (r: bool)
    ensures
        r == is_rifle_raid_policy_spec(attack),
{
    let only_riflemen = attack.unit_kinds.len() == 1 && attack.unit_kinds[0]
        == EntityKind::Rifleman;
    proof {
        if only_riflemen {
            assert(attack.unit_kinds@ =~= seq![EntityKind::Rifleman]);
        }
    }
    only_riflemen && attack.required_unit.is_none() && attack.first_attack_size <= 1
        && attack.wave_growth == 0
}

/// A completed rifleman that is free for combat or already moving or attacking.
pub open spec fn rifle_raider(e: EntitySummary) -> bool {
    e.kind == EntityKind::Rifleman && e.is_complete && (e.free_for_combat || e.state
        == EntityState::Move || e.state == EntityState::Attack)
}

/// The riflemen of a raid, in ascending id order.
pub fn select_rifle_raid_units(owned: &Vec<EntitySummary>) -> (r: Vec<u32>)
    ensures
        sorted_ids(r@),
        r@.to_multiset() == ids_where(owned@, |e: EntitySummary| rifle_raider(e)).to_multiset(),
{
    let mut units: Vec<u32> = Vec::new();
    let mut i: usize = 0;
    while i < owned.len()
        invariant
            i <= owned.len(),
            units@ == ids_where(owned@.take(i as int), |e: EntitySummary| rifle_raider(e)),
        decreases owned.len() - i,
    {
        proof {
            assert(owned@.take(i + 1).drop_last() =~= owned@.take(i as int));
            assert(owned@.take(i + 1).last() == owned@[i as int]);
        }
        let e = owned[i];
        let engaged = match e.state {
            EntityState::Move | EntityState::Attack => true,
            _ => false,
        };
        if e.kind == EntityKind::Rifleman && e.is_complete && (e.free_for_combat || engaged) {
            units.push(e.id);
        }
        i = i + 1;
    }
    assert(owned@.take(owned@.len() as int) =~= owned@);
    sort_ids(units)
}


/// Some member of the raid stands still near the enemy steel line: `near_steel_line[i]`
/// says whether `owned[i]` is within the raid radius of that line.
pub open spec fn raid_ready_to_burn_buildings(
    owned: Seq<EntitySummary>,
    near_steel_line: Seq<bool>,
    raid_units: Seq<u32>,
) -> bool {
    exists|i: int|
        0 <= i < owned.len() && raid_units.contains(#[trigger] owned[i].id) && owned[i].state
            != EntityState::Move && near_steel_line[i]
}

/// The enemy building a rifle raid burns once it has no unit left to fight: none until a
/// raider stands still near the enemy steel line, then the nearest building to the raid's
/// centre (`contacts` carry their distance from it) that is not already excluded.
pub fn rifle_raid_building_fallback_target(
    owned: &Vec<EntitySummary>,
    near_steel_line: &Vec<bool>,
    raid_units: &Vec<u32>,
    contacts: &Vec<EnemyContact>,
    excluded: &Vec<u32>,
) -> (r: Option<u32>)
    requires
        near_steel_line@.len() == owned@.len(),
    ensures
        !raid_ready_to_burn_buildings(owned@, near_steel_line@, raid_units@) ==> r is None,
        raid_ready_to_burn_buildings(owned@, near_steel_line@, raid_units@) ==> is_best_target(
            TargetRule::RaidBuildingFallback,
            contacts@,
            excluded@,
            0,
            r,
        ),
{
    let mut ready = false;
    let mut i: usize = 0;
    while i < owned.len()
        invariant
            i <= owned.len(),
            near_steel_line@.len() == owned@.len(),
            !ready ==> forall|j: int|
                0 <= j < i ==> !(raid_units@.contains(#[trigger] owned@[j].id) && owned@[j].state
                    != EntityState::Move && near_steel_line@[j]),
            ready ==> raid_ready_to_burn_buildings(owned@, near_steel_line@, raid_units@),
        decreases owned.len() - i,
    {
        let e = owned[i];
        let moving = match e.state {
            EntityState::Move => true,
            _ => false,
        };
        if !ready && contains_id(raid_units, e.id) && !moving && near_steel_line[i] {
            assert(raid_units@.contains(owned@[i as int].id));
            ready = true;
        }
        i = i + 1;
    }
    if !ready {
        return None;
    }
    select_target(TargetRule::RaidBuildingFallback, contacts, excluded, 0)
}


/// Whether `owned[i]` resumes the raid: a raid member that is moving or attacking, or idle
/// and free for combat where `idle_far_enough[i]` says it stands beyond the home clearance
/// along the raid line and away from the raid's destination.
pub open spec fn resumes_raid(e: EntitySummary, idle_far_enough: bool, raid_units: Seq<u32>) -> bool {
    raid_units.contains(e.id) && match e.state {
        EntityState::Move | EntityState::Attack => true,
        EntityState::Idle => e.free_for_combat && idle_far_enough,
        _ => false,
    }
}

/// The ids of `owned` that resume the raid, in observation order.
pub open spec fn resuming_ids(owned: Seq<EntitySummary>, idle_far_enough: Seq<bool>, raid_units: Seq<u32>) -> Seq<u32>
    decreases owned.len(),
{
    if owned.len() == 0 {
        Seq::empty()
    } else {
        let n = owned.len() - 1;
        let rest = resuming_ids(owned.drop_last(), idle_far_enough.take(n), raid_units);
        if resumes_raid(owned.last(), idle_far_enough[n], raid_units) {
            rest.push(owned.last().id)
        } else {
            rest
        }
    }
}

/// The raid members to send on again, in ascending id order.
pub fn rifle_raid_units_to_resume(
    owned: &Vec<EntitySummary>,
    idle_far_enough: &Vec<bool>,
    raid_units: &Vec<u32>,
) -> (r: Vec<u32>)
    requires
        idle_far_enough@.len() == owned@.len(),
    ensures
        sorted_ids(r@),
        r@.to_multiset() == resuming_ids(owned@, idle_far_enough@, raid_units@).to_multiset(),
{
    let mut units: Vec<u32> = Vec::new();
    let mut i: usize = 0;
    while i < owned.len()
        invariant
            i <= owned.len(),
            idle_far_enough@.len() == owned@.len(),
            units@ == resuming_ids(owned@.take(i as int), idle_far_enough@.take(i as int), raid_units@),
        decreases owned.len() - i,
    {
        proof {
            assert(owned@.take(i + 1).drop_last() =~= owned@.take(i as int));
            assert(idle_far_enough@.take(i + 1).take(i as int) =~= idle_far_enough@.take(i as int));
        }
        let e = owned[i];
        let state_ok = match e.state {
            EntityState::Move | EntityState::Attack => true,
            EntityState::Idle => e.free_for_combat && idle_far_enough[i],
            _ => false,
        };
        if contains_id(raid_units, e.id) && state_ok {
            units.push(e.id);
        }
        i = i + 1;
    }
    proof {
        assert(owned@.take(owned@.len() as int) =~= owned@);
        assert(idle_far_enough@.take(owned@.len() as int) =~= idle_far_enough@);
    }
    sort_ids(units)
}

} // verus!
