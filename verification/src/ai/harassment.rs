//! Harassment raids: which units of the harassing kind are sent.
use crate::ai::kinds::EntityKind;
use crate::ai::model::{AiProfile, EntityState, EntitySummary, HarassmentPolicy};
use crate::ai::ranking::{keyed_sorted, sort_keyed};
use vstd::prelude::*;

verus! {

/// A completed unit of the harassing kind that is free for combat or already moving or
/// attacking.
pub open spec fn harassment_candidate(e: EntitySummary, unit_kind: EntityKind) -> bool {
    e.kind == unit_kind && e.is_complete && (e.free_for_combat || e.state == EntityState::Move
        || e.state == EntityState::Attack)
}

/// The rank of a candidate: units already moving or attacking first, then the farthest from
/// the own base (`home_key` grows with that distance), then the lower id.
pub open spec fn harassment_key(e: EntitySummary, home_key: u64) -> (u64, u64, u64, u64) {
    (
        if e.state == EntityState::Move || e.state == EntityState::Attack {
            0u64
        } else {
            1u64
        },
        (u64::MAX - home_key) as u64,
        e.id as u64,
        0u64,
    )
}

/// The candidates of `owned`, each with its rank and id, in observation order.
pub open spec fn harassment_candidates(
    owned: Seq<EntitySummary>,
    home_keys: Seq<u64>,
    unit_kind: EntityKind,
) -> Seq<((u64, u64, u64, u64), u32)>
    decreases owned.len(),
{
    if owned.len() == 0 {
        Seq::empty()
    } else {
        let n = owned.len() - 1;
        let rest = harassment_candidates(owned.drop_last(), home_keys.take(n), unit_kind);
        if harassment_candidate(owned.last(), unit_kind) {
            rest.push((harassment_key(owned.last(), home_keys[n]), owned.last().id))
        } else {
            rest
        }
    }
}

/// The harassment group: the first `group_size` candidates in rank order, by id.
/// `home_distance_keys[i]` grows with the distance of `owned[i]` from the own base.
pub fn select_harassment_units(
    owned: &Vec<EntitySummary>,
    home_distance_keys: &Vec<u64>,
    policy: HarassmentPolicy,
) -> (r: Vec<u32>)
    requires
        home_distance_keys@.len() == owned@.len(),
    ensures
        exists|s: Seq<((u64, u64, u64, u64), u32)>|
            {
                &&& keyed_sorted(s)
                &&& s.to_multiset() == harassment_candidates(
                    owned@,
                    home_distance_keys@,
                    policy.unit_kind,
                ).to_multiset()
                &&& r@ == s.take(
                    if policy.group_size < s.len() {
                        policy.group_size as int
                    } else {
                        s.len() as int
                    },
                ).map_values(|c: ((u64, u64, u64, u64), u32)| c.1)
            },
{
    let mut candidates: Vec<((u64, u64, u64, u64), u32)> = Vec::new();
    let mut i: usize = 0;
    while i < owned.len()
        invariant
            i <= owned.len(),
            home_distance_keys@.len() == owned@.len(),
            candidates@ == harassment_candidates(
                owned@.take(i as int),
                home_distance_keys@.take(i as int),
                policy.unit_kind,
            ),
        decreases owned.len() - i,
    {
        proof {
            assert(owned@.take(i + 1).drop_last() =~= owned@.take(i as int));
            assert(home_distance_keys@.take(i + 1).take(i as int) =~= home_distance_keys@.take(
                i as int,
            ));
        }
        let e = owned[i];
        let engaged = match e.state {
            EntityState::Move | EntityState::Attack => true,
            _ => false,
        };
        if e.kind == policy.unit_kind && e.is_complete && (e.free_for_combat || engaged) {
            let rank: u64 = if engaged {
                0
            } else {
                1
            };
            let key = (rank, u64::MAX - home_distance_keys[i], e.id as u64, 0u64);
            candidates.push((key, e.id));
        }
        i = i + 1;
    }
    proof {
        assert(owned@.take(owned@.len() as int) =~= owned@);
        assert(home_distance_keys@.take(owned@.len() as int) =~= home_distance_keys@);
    }
    let sorted = sort_keyed(candidates);
    let n = if policy.group_size < sorted.len() {
        policy.group_size
    } else {
        sorted.len()
    };
    let mut r: Vec<u32> = Vec::new();
    let mut j: usize = 0;
    while j < n
        invariant
            j <= n,
            n <= sorted@.len(),
            r@ == sorted@.take(j as int).map_values(|c: ((u64, u64, u64, u64), u32)| c.1),
        decreases n - j,
    {
        proof {
            assert(sorted@.take(j + 1) =~= sorted@.take(j as int).push(sorted@[j as int]));
        }
        r.push(sorted[j].1);
        proof {
            assert(r@ =~= sorted@.take(j + 1).map_values(|c: ((u64, u64, u64, u64), u32)| c.1));
        }
        j = j + 1;
    }
    r
}


/// A scout-car harassment for this think: the units reserved for it, where they would go
/// (a point in the caller's coordinates), the threat they would answer, and whether an
/// order is due.
pub struct HarassmentPlan<P> {
    pub reserved_units: Vec<u32>,
    pub move_target: Option<P>,
    pub visible_threat: Option<u32>,
    pub attack_due: bool,
}

impl<P> HarassmentPlan<P> {
    /// No harassment.
    pub fn inactive() -> (r: Self)
        ensures
            r.reserved_units@.len() == 0,
            r.move_target is None,
            r.visible_threat is None,
            !r.attack_due,
    {
        HarassmentPlan { reserved_units: Vec::new(), move_target: None, visible_threat: None, attack_due: false }
    }

    pub open spec fn should_issue_spec(&self) -> bool {
        self.reserved_units@.len() > 0 && (self.visible_threat is Some || (self.attack_due
            && self.move_target is Some))
    }

    /// An order goes out when units are reserved and there is a threat to answer, or an
    /// order is due and there is somewhere to go.
    pub fn should_issue(&self) -> (r: bool)
        ensures
            r == self.should_issue_spec(),
    {
        self.reserved_units.len() > 0 && (self.visible_threat.is_some() || (self.attack_due
            && self.move_target.is_some()))
    }
}

/// The profile harasses with scout cars, in groups of at least one.
pub open spec fn scout_harassment_enabled(profile: &AiProfile) -> bool {
    match profile.harassment {
        Some(policy) => policy.unit_kind == EntityKind::ScoutCar && policy.group_size > 0,
        None => false,
    }
}

/// This think's scout-car harassment: inactive for a profile without scout-car harassment
/// or when no unit can be reserved; otherwise the reserved group (`select_harassment_units`
/// under the profile's policy), with the threat (`visible_threat`, chosen around that
/// group), the destination (`move_target`, none without a known enemy base) and whether an
/// order is due, as the caller found them.
pub fn plan_scout_car_harassment<P>(
    profile: &AiProfile,
    reserved_units: Vec<u32>,
    visible_threat: Option<u32>,
    move_target: Option<P>,
    attack_due: bool,
) -> (r: HarassmentPlan<P>)
    ensures
        (!scout_harassment_enabled(profile) || reserved_units@.len() == 0) ==> (r.reserved_units@.len() == 0
            && r.move_target is None && r.visible_threat is None && !r.attack_due),
        (scout_harassment_enabled(profile) && reserved_units@.len() > 0) ==> (r.reserved_units@
            == reserved_units@ && r.move_target == move_target && r.visible_threat == visible_threat
            && r.attack_due == attack_due),
{
    let enabled = match profile.harassment {
        Some(policy) => match policy.unit_kind {
            EntityKind::ScoutCar => policy.group_size > 0,
            _ => false,
        },
        None => false,
    };
    if !enabled || reserved_units.len() == 0 {
        return HarassmentPlan::inactive();
    }
    HarassmentPlan { reserved_units, move_target, visible_threat, attack_due }
}

} // verus!
