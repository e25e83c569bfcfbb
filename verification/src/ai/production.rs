//! Production rules: which building trains a unit, in what order production buildings are
//! wanted, and when to add extra factories or gun works.
use crate::ai::defense::{machine_gunner_meets_replacement_health, meets_replacement_health_spec};
use crate::ai::kinds::EntityKind;
use crate::ai::model::{
    AiFacts, AiProfile, EntitySummary, MapSummary, Observation, ProductionPolicy, ProfileId,
};
use vstd::prelude::*;

verus! {

/// The training table of the rulebook: `(building, unit)` pairs, one per unit a building
/// can train.
pub struct TrainingRules {
    pub pairs: Vec<(EntityKind, EntityKind)>,
}

pub open spec fn can_train_spec(pairs: Seq<(EntityKind, EntityKind)>, building: EntityKind, unit: EntityKind) -> bool {
    pairs.contains((building, unit))
}

impl TrainingRules {
    pub fn can_train(&self, building: EntityKind, unit: EntityKind) -> (r: bool)
        ensures
            r == can_train_spec(self.pairs@, building, unit),
    {
        let mut i: usize = 0;
        while i < self.pairs.len()
            invariant
                i <= self.pairs.len(),
                forall|j: int| 0 <= j < i ==> self.pairs@[j] != (building, unit),
            decreases self.pairs.len() - i,
        {
            let (b, u) = self.pairs[i];
            if b == building && u == unit {
                assert(self.pairs@[i as int] == (building, unit));
                return true;
            }
            i = i + 1;
        }
        false
    }
}

/// The first production building that can train `unit`.
pub open spec fn producer_spec(pairs: Seq<(EntityKind, EntityKind)>, unit: EntityKind) -> Option<EntityKind> {
    if can_train_spec(pairs, EntityKind::Factory, unit) {
        Some(EntityKind::Factory)
    } else if can_train_spec(pairs, EntityKind::Steelworks, unit) {
        Some(EntityKind::Steelworks)
    } else if can_train_spec(pairs, EntityKind::Barracks, unit) {
        Some(EntityKind::Barracks)
    } else if can_train_spec(pairs, EntityKind::ResourceDepot, unit) {
        Some(EntityKind::ResourceDepot)
    } else {
        None
    }
}

pub fn producer_for_unit(rules: &TrainingRules, unit: EntityKind) -> (r: Option<EntityKind>)
    ensures
        r == producer_spec(rules.pairs@, unit),
{
    if rules.can_train(EntityKind::Factory, unit) {
        Some(EntityKind::Factory)
    } else if rules.can_train(EntityKind::Steelworks, unit) {
        Some(EntityKind::Steelworks)
    } else if rules.can_train(EntityKind::Barracks, unit) {
        Some(EntityKind::Barracks)
    } else if rules.can_train(EntityKind::ResourceDepot, unit) {
        Some(EntityKind::ResourceDepot)
    } else {
        None
    }
}

/// Producers of `units`, each listed once, in the order of first need.
pub open spec fn producers_in_order(pairs: Seq<(EntityKind, EntityKind)>, units: Seq<EntityKind>) -> Seq<EntityKind>
    decreases units.len(),
{
    if units.len() == 0 {
        Seq::empty()
    } else {
        let prev = producers_in_order(pairs, units.drop_last());
        match producer_spec(pairs, units.last()) {
            Some(b) => if prev.contains(b) {
                prev
            } else {
                prev.push(b)
            },
            None => prev,
        }
    }
}

/// `s` without any occurrence of `k`, order kept.
pub open spec fn without_kind(s: Seq<EntityKind>, k: EntityKind) -> Seq<EntityKind>
    decreases s.len(),
{
    if s.len() == 0 {
        Seq::empty()
    } else if s.last() == k {
        without_kind(s.drop_last(), k)
    } else {
        without_kind(s.drop_last(), k).push(s.last())
    }
}

/// The production buildings the unit priorities call for, in priority order, each once,
/// leaving out the resource depot (which is built for the economy, not for production).
pub fn production_building_order(rules: &TrainingRules, unit_priorities: &[EntityKind]) -> (r: Vec<EntityKind>)
    ensures
        r@ == without_kind(producers_in_order(rules.pairs@, unit_priorities@), EntityKind::ResourceDepot),
{
    let mut order: Vec<EntityKind> = Vec::new();
    let mut i: usize = 0;
    while i < unit_priorities.len()
        invariant
            i <= unit_priorities@.len(),
            order@ == producers_in_order(rules.pairs@, unit_priorities@.take(i as int)),
        decreases unit_priorities@.len() - i,
    {
        proof {
            assert(unit_priorities@.take(i + 1).drop_last() =~= unit_priorities@.take(i as int));
            assert(unit_priorities@.take(i + 1).last() == unit_priorities@[i as int]);
        }
        if let Some(building) = producer_for_unit(rules, unit_priorities[i]) {
            if !crate::ai::policies::kinds_contain(order.as_slice(), building) {
                order.push(building);
            }
        }
        i = i + 1;
    }
    assert(unit_priorities@.take(unit_priorities@.len() as int) =~= unit_priorities@);
    let mut kept: Vec<EntityKind> = Vec::new();
    let mut j: usize = 0;
    while j < order.len()
        invariant
            j <= order.len(),
            kept@ == without_kind(order@.take(j as int), EntityKind::ResourceDepot),
        decreases order.len() - j,
    {
        proof {
            assert(order@.take(j + 1).drop_last() =~= order@.take(j as int));
            assert(order@.take(j + 1).last() == order@[j as int]);
        }
        if order[j] != EntityKind::ResourceDepot {
            kept.push(order[j]);
        }
        j = j + 1;
    }
    assert(order@.take(order@.len() as int) =~= order@);
    kept
}

/// Whether some unit of the production policy is trained at `building`.
pub open spec fn production_uses_building_spec(
    pairs: Seq<(EntityKind, EntityKind)>,
    production: ProductionPolicy,
    building: EntityKind,
) -> bool {
    exists|i: int|
        0 <= i < production.unit_priorities@.len() && producer_spec(
            pairs,
            #[trigger] production.unit_priorities@[i],
        ) == Some(building)
}

pub fn production_uses_building(rules: &TrainingRules, production: ProductionPolicy, building: EntityKind) -> (r: bool)
    ensures
        r == production_uses_building_spec(rules.pairs@, production, building),
{
    let units = production.unit_priorities;
    let mut i: usize = 0;
    while i < units.len()
        invariant
            i <= units@.len(),
            units == production.unit_priorities,
            forall|j: int| 0 <= j < i ==> producer_spec(rules.pairs@, #[trigger] units@[j]) != Some(building),
        decreases units@.len() - i,
    {
        if producer_for_unit(rules, units[i]) == Some(building) {
            assert(producer_spec(rules.pairs@, units@[i as int]) == Some(building));
            return true;
        }
        i = i + 1;
    }
    false
}

/// Save for the first tech unit while none exists and its producer already stands.
pub open spec fn should_save_for_first_tech_unit_spec(
    pairs: Seq<(EntityKind, EntityKind)>,
    facts: &AiFacts,
    production: ProductionPolicy,
) -> bool {
    match production.save_for_first_tech_unit {
        None => false,
        Some(unit) => facts.unit_count_spec(unit) == 0 && match producer_spec(pairs, unit) {
            Some(producer) => facts.building_count_spec(producer) > 0,
            None => false,
        },
    }
}

pub fn should_save_for_first_tech_unit(rules: &TrainingRules, facts: &AiFacts, production: ProductionPolicy) -> (r: bool)
    requires
        facts.wf(),
    ensures
        r == should_save_for_first_tech_unit_spec(rules.pairs@, facts, production),
{
    let unit = match production.save_for_first_tech_unit {
        None => {
            return false;
        },
        Some(u) => u,
    };
    if facts.unit_count(unit) > 0 {
        return false;
    }
    match producer_for_unit(rules, unit) {
        Some(producer) => facts.building_count(producer) > 0,
        None => false,
    }
}

/// The named profiles that keep a home rifle screen.
pub fn uses_home_rifle_coverage(profile_id: ProfileId) -> (r: bool)
    ensures
        r == (profile_id == ProfileId::JeffsAi || profile_id == ProfileId::JeffsAiBeta || profile_id
            == ProfileId::JeffsAiPreDefenseEnvelope),
{
    match profile_id {
        ProfileId::JeffsAi | ProfileId::JeffsAiBeta | ProfileId::JeffsAiPreDefenseEnvelope => true,
        ProfileId::Other(_) => false,
    }
}

/// The named profiles that run the current home defence.
pub fn uses_current_jeff_defense(profile_id: ProfileId) -> (r: bool)
    ensures
        r == (profile_id == ProfileId::JeffsAi || profile_id == ProfileId::JeffsAiBeta),
{
    match profile_id {
        ProfileId::JeffsAi | ProfileId::JeffsAiBeta => true,
        _ => false,
    }
}

pub open spec fn is_upper_left_diagonal_start_spec(map: MapSummary, start: (u32, u32)) -> bool {
    start.0 == start.1 && start.0 < map.width / 2 && start.1 < map.height / 2
}

/// A start on the map's main diagonal, in its upper-left half.
pub fn is_upper_left_diagonal_start(map: MapSummary, start: (u32, u32)) -> (r: bool)
    ensures
        r == is_upper_left_diagonal_start_spec(map, start),
{
    start.0 == start.1 && start.0 < map.width / 2 && start.1 < map.height / 2
}

/// The named profiles mirror their opponent's layout from an upper-left diagonal start.
pub fn uses_jeff_opposite_spawn_layout(observation: &Observation, profile: &AiProfile) -> (r: bool)
    ensures
        r == ((profile.id == ProfileId::JeffsAi || profile.id == ProfileId::JeffsAiBeta)
            && is_upper_left_diagonal_start_spec(observation.map, observation.own_start_tile)),
{
    uses_current_jeff_defense(profile.id) && is_upper_left_diagonal_start(
        observation.map,
        observation.own_start_tile,
    )
}

/// An extra factory is wanted once enough prerequisite units exist, both resources are
/// above the float, and the factories built and planned are below the target.
pub open spec fn should_build_extra_factory_spec(
    observation: &Observation,
    facts: &AiFacts,
    profile: &AiProfile,
    planned_factories: usize,
) -> bool {
    match profile.extra_factories {
        None => false,
        Some(p) => facts.unit_count_spec(p.prerequisite_unit) >= p.minimum_units
            && observation.economy.steel > p.resource_float.steel && observation.economy.oil
            > p.resource_float.oil && sat_add(
            facts.building_count_spec(EntityKind::Factory),
            planned_factories,
        ) < p.target_count,
    }
}

pub open spec fn sat_add(a: usize, b: usize) -> usize {
    if a + b > usize::MAX {
        usize::MAX
    } else {
        (a + b) as usize
    }
}

pub fn should_build_extra_factory(
    observation: &Observation,
    facts: &AiFacts,
    profile: &AiProfile,
    planned_factories: usize,
) -> (r: bool)
    requires
        facts.wf(),
    ensures
        r == should_build_extra_factory_spec(observation, facts, profile, planned_factories),
{
    let policy = match profile.extra_factories {
        None => {
            return false;
        },
        Some(p) => p,
    };
    if facts.unit_count(policy.prerequisite_unit) < policy.minimum_units {
        return false;
    }
    if observation.economy.steel <= policy.resource_float.steel || observation.economy.oil
        <= policy.resource_float.oil {
        return false;
    }
    facts.building_count(EntityKind::Factory).saturating_add(planned_factories) < policy.target_count
}

/// A unit is produced where it can be trained, preferring a factory, then a gun works
/// (Steelworks), then barracks, then a resource depot; a unit none of these trains has no
/// producer.
pub proof fn law_producer_preference(pairs: Seq<(EntityKind, EntityKind)>, unit: EntityKind)
    ensures
        ({
            let p = producer_spec(pairs, unit);
            let trains = |b: EntityKind| pairs.contains((b, unit));
            &&& p matches Some(b) ==> trains(b)
            &&& trains(EntityKind::Factory) ==> p == Some(EntityKind::Factory)
            &&& !trains(EntityKind::Factory) && trains(EntityKind::Steelworks) ==> p == Some(
                EntityKind::Steelworks,
            )
            &&& !trains(EntityKind::Factory) && !trains(EntityKind::Steelworks) && trains(
                EntityKind::Barracks,
            ) ==> p == Some(EntityKind::Barracks)
            &&& !trains(EntityKind::Factory) && !trains(EntityKind::Steelworks) && !trains(
                EntityKind::Barracks,
            ) && trains(EntityKind::ResourceDepot) ==> p == Some(EntityKind::ResourceDepot)
            &&& p is None <==> !trains(EntityKind::Factory) && !trains(EntityKind::Steelworks)
                && !trains(EntityKind::Barracks) && !trains(EntityKind::ResourceDepot)
        }),
{
}

/// The opponent saves for its first tech unit exactly while it has none of that unit and a
/// building that produces it stands.
pub proof fn law_save_for_first_tech_unit(
    pairs: Seq<(EntityKind, EntityKind)>,
    facts: &AiFacts,
    production: ProductionPolicy,
)
    ensures
        should_save_for_first_tech_unit_spec(pairs, facts, production) <==> (production.save_for_first_tech_unit
            matches Some(u) && facts.unit_count_spec(u) == 0 && (producer_spec(pairs, u) matches Some(
            b) && facts.building_count_spec(b) > 0)),
{
}

/// An extra factory is never wanted while steel or oil is at or below the policy's float, nor
/// before enough prerequisite units exist, nor once the factories built and planned reach the
/// target, nor without the policy; with all of these met it is wanted. Raising steel, oil or
/// the prerequisite units never withdraws it.
pub proof fn law_extra_factory_needs_both_resources_above_the_float(
    observation: &Observation,
    facts: &AiFacts,
    profile: &AiProfile,
    planned_factories: usize,
    richer: &Observation,
)
    requires
        richer.economy.steel >= observation.economy.steel,
        richer.economy.oil >= observation.economy.oil,
    ensures
        match profile.extra_factories {
            None => !should_build_extra_factory_spec(observation, facts, profile, planned_factories),
            Some(p) => should_build_extra_factory_spec(observation, facts, profile, planned_factories) <==> (
            observation.economy.steel > p.resource_float.steel && observation.economy.oil
                > p.resource_float.oil && facts.unit_count_spec(p.prerequisite_unit) >= p.minimum_units
                && facts.building_count_spec(EntityKind::Factory) + planned_factories < p.target_count),
        },
        should_build_extra_factory_spec(observation, facts, profile, planned_factories)
            ==> should_build_extra_factory_spec(richer, facts, profile, planned_factories),
{
}

/// Extra gun works are never wanted while steel or oil is at or below the gun-works float, nor
/// before a gun works is complete, nor once those built and planned reach the target; with
/// all of these met they are wanted.
pub proof fn law_extra_gun_works_need_both_resources_above_the_float(
    observation: &Observation,
    facts: &AiFacts,
    profile: &AiProfile,
    planned_gun_works: usize,
)
    ensures
        match profile.turtle_defense {
            None => !should_build_extra_turtle_gun_works_spec(observation, facts, profile, planned_gun_works),
            Some(p) => should_build_extra_turtle_gun_works_spec(observation, facts, profile, planned_gun_works)
                <==> (observation.economy.steel > p.gun_works_resource_float.steel
                && observation.economy.oil > p.gun_works_resource_float.oil
                && facts.complete_building_count_spec(EntityKind::Steelworks) > 0
                && facts.building_count_spec(EntityKind::Steelworks) + planned_gun_works < p.gun_works_target),
        },
{
}

/// A turtle profile adds gun works when both resources are above its float, one gun works is
/// complete, and the gun works built and planned are below the target.
pub open spec fn should_build_extra_turtle_gun_works_spec(
    observation: &Observation,
    facts: &AiFacts,
    profile: &AiProfile,
    planned_gun_works: usize,
) -> bool {
    match profile.turtle_defense {
        None => false,
        Some(p) => observation.economy.steel > p.gun_works_resource_float.steel
            && observation.economy.oil > p.gun_works_resource_float.oil
            && facts.complete_building_count_spec(EntityKind::Steelworks) > 0 && sat_add(
            facts.building_count_spec(EntityKind::Steelworks),
            planned_gun_works,
        ) < p.gun_works_target,
    }
}

pub fn should_build_extra_turtle_gun_works(
    observation: &Observation,
    facts: &AiFacts,
    profile: &AiProfile,
    planned_gun_works: usize,
) -> (r: bool)
    requires
        facts.wf(),
    ensures
        r == should_build_extra_turtle_gun_works_spec(observation, facts, profile, planned_gun_works),
{
    let policy = match profile.turtle_defense {
        None => {
            return false;
        },
        Some(p) => p,
    };
    if observation.economy.steel <= policy.gun_works_resource_float.steel
        || observation.economy.oil <= policy.gun_works_resource_float.oil {
        return false;
    }
    facts.complete_building_count(EntityKind::Steelworks) > 0 && facts.building_count(
        EntityKind::Steelworks,
    ).saturating_add(planned_gun_works) < policy.gun_works_target
}

/// A proxy-barracks profile sends its first barracks forward.
pub fn should_use_proxy_barracks(facts: &AiFacts, profile: &AiProfile) -> (r: bool)
    requires
        facts.wf(),
    ensures
        r == (profile.buildings.proxy_barracks && facts.building_count_spec(EntityKind::Barracks)
            == 0),
{
    profile.buildings.proxy_barracks && facts.building_count(EntityKind::Barracks) == 0
}

/// The order lists every producer at most once, and never the resource depot.
pub proof fn law_production_order_has_no_repeats(
    pairs: Seq<(EntityKind, EntityKind)>,
    units: Seq<EntityKind>,
)
    ensures
        no_repeats(producers_in_order(pairs, units)),
        no_repeats(without_kind(producers_in_order(pairs, units), EntityKind::ResourceDepot)),
        !without_kind(producers_in_order(pairs, units), EntityKind::ResourceDepot).contains(
            EntityKind::ResourceDepot,
        ),
{
    lemma_producers_no_repeats(pairs, units);
    lemma_without_kind(producers_in_order(pairs, units), EntityKind::ResourceDepot);
}

pub open spec fn no_repeats(s: Seq<EntityKind>) -> bool {
    forall|i: int, j: int| 0 <= i < j < s.len() ==> s[i] != s[j]
}

proof fn lemma_producers_no_repeats(pairs: Seq<(EntityKind, EntityKind)>, units: Seq<EntityKind>)
    ensures
        no_repeats(producers_in_order(pairs, units)),
    decreases units.len(),
{
    if units.len() > 0 {
        lemma_producers_no_repeats(pairs, units.drop_last());
    }
}

proof fn lemma_without_kind(s: Seq<EntityKind>, k: EntityKind)
    requires
        no_repeats(s),
    ensures
        no_repeats(without_kind(s, k)),
        !without_kind(s, k).contains(k),
        forall|x: EntityKind| #[trigger] without_kind(s, k).contains(x) ==> s.contains(x),
    decreases s.len(),
{
    if s.len() > 0 {
        let d = s.drop_last();
        assert(no_repeats(d));
        lemma_without_kind(d, k);
        let w = without_kind(d, k);
        if s.last() != k {
            assert forall|x: EntityKind| #[trigger] w.push(s.last()).contains(x) implies s.contains(x) by {
                if x != s.last() {
                    let i = choose|i: int| 0 <= i < w.push(s.last()).len() && w.push(s.last())[i] == x;
                    assert(w.contains(x));
                    assert(d.contains(x));
                    let j = choose|j: int| 0 <= j < d.len() && d[j] == x;
                    assert(s[j] == x);
                } else {
                    assert(s[s.len() - 1] == x);
                }
            }
            assert forall|i: int, j: int| 0 <= i < j < w.push(s.last()).len() implies w.push(s.last())[i] != w.push(s.last())[j] by {
                if j == w.len() {
                    if w[i] == s.last() {
                        assert(w.contains(s.last()));
                        assert(d.contains(s.last()));
                        let m = choose|m: int| 0 <= m < d.len() && d[m] == s.last();
                        assert(s[m] == s[s.len() - 1]);
                    }
                }
            }
        } else {
            assert forall|x: EntityKind| #[trigger] w.contains(x) implies s.contains(x) by {
                let j = choose|j: int| 0 <= j < d.len() && d[j] == x;
                assert(s[j] == x);
            }
        }
    }
}


/// Machine gunners of `owned` whose health meets the replacement threshold.
pub open spec fn healthy_machine_gunners(owned: Seq<EntitySummary>, threshold: u8, max_hp: u32) -> nat
    decreases owned.len(),
{
    if owned.len() == 0 {
        0
    } else {
        let e = owned.last();
        healthy_machine_gunners(owned.drop_last(), threshold, max_hp) + if e.kind
            == EntityKind::MachineGunner && meets_replacement_health_spec(e.hp, threshold, max_hp) {
            1nat
        } else {
            0nat
        }
    }
}

/// Units of `kind` queued in the completed buildings of `owned` that are producing that kind.
pub open spec fn queued_units(owned: Seq<EntitySummary>, kind: EntityKind) -> nat
    decreases owned.len(),
{
    if owned.len() == 0 {
        0
    } else {
        let e = owned.last();
        queued_units(owned.drop_last(), kind) + if e.is_complete && e.production_kind == Some(kind) {
            match e.production_queue_len {
                Some(n) => n as nat,
                None => 0nat,
            }
        } else {
            0nat
        }
    }
}

/// How many of `kind` already stand: the fact count, except that a profile that replaces
/// wounded machine gunners counts only the healthy ones.
pub open spec fn standing_units(
    owned: Seq<EntitySummary>,
    facts: &AiFacts,
    profile: &AiProfile,
    kind: EntityKind,
    mg_max_hp: u32,
) -> nat {
    match profile.defensive_machine_gunners {
        Some(policy) => match policy.replacement_health_percent {
            Some(threshold) => if kind == EntityKind::MachineGunner {
                healthy_machine_gunners(owned, threshold, mg_max_hp)
            } else {
                facts.unit_count_spec(kind) as nat
            },
            None => facts.unit_count_spec(kind) as nat,
        },
        None => facts.unit_count_spec(kind) as nat,
    }
}

/// The count production compares against its target for `kind`: standing plus queued.
pub open spec fn priority_unit_count(
    owned: Seq<EntitySummary>,
    facts: &AiFacts,
    profile: &AiProfile,
    kind: EntityKind,
    mg_max_hp: u32,
) -> nat {
    standing_units(owned, facts, profile, kind, mg_max_hp) + queued_units(owned, kind)
}

fn count_healthy_machine_gunners(owned: &Vec<EntitySummary>, threshold: u8, max_hp: u32) -> (r: usize)
    ensures
        r == healthy_machine_gunners(owned@, threshold, max_hp),
{
    let mut n: usize = 0;
    let mut i: usize = 0;
    while i < owned.len()
        invariant
            i <= owned.len(),
            n == healthy_machine_gunners(owned@.take(i as int), threshold, max_hp),
            n <= i,
        decreases owned.len() - i,
    {
        assert(owned@.take(i + 1).drop_last() =~= owned@.take(i as int));
        let e = owned[i];
        if e.kind == EntityKind::MachineGunner && machine_gunner_meets_replacement_health(
            e.hp,
            threshold,
            max_hp,
        ) {
            n = n + 1;
        }
        i = i + 1;
    }
    assert(owned@.take(owned@.len() as int) =~= owned@);
    n
}

/// `base` plus the units of `kind` queued in completed buildings.
pub fn count_queued_units(owned: &Vec<EntitySummary>, kind: EntityKind, base: usize) -> (r: usize)
    requires
        base + queued_units(owned@, kind) <= usize::MAX,
    ensures
        r == base + queued_units(owned@, kind),
{
    let mut n: usize = base;
    let mut i: usize = 0;
    proof {
        lemma_queued_units_prefix_bounded(owned@, kind, 0);
    }
    while i < owned.len()
        invariant
            i <= owned.len(),
            n == base + queued_units(owned@.take(i as int), kind),
            base + queued_units(owned@, kind) <= usize::MAX,
        decreases owned.len() - i,
    {
        assert(owned@.take(i + 1).drop_last() =~= owned@.take(i as int));
        proof {
            lemma_queued_units_prefix_bounded(owned@, kind, i + 1);
        }
        let e = owned[i];
        if e.is_complete && e.production_kind == Some(kind) {
            match e.production_queue_len {
                Some(q) => {
                    n = n + q;
                },
                None => {},
            }
        }
        i = i + 1;
    }
    assert(owned@.take(owned@.len() as int) =~= owned@);
    n
}

proof fn lemma_queued_units_prefix_bounded(owned: Seq<EntitySummary>, kind: EntityKind, k: int)
    requires
        0 <= k <= owned.len(),
    ensures
        queued_units(owned.take(k), kind) <= queued_units(owned, kind),
    decreases owned.len() - k,
{
    if k < owned.len() {
        lemma_queued_units_prefix_bounded(owned, kind, k + 1);
        assert(owned.take(k + 1).drop_last() =~= owned.take(k));
    } else {
        assert(owned.take(k) =~= owned);
    }
}

/// Each priority unit with the count production weighs it by: those standing (healthy ones
/// only, for machine gunners under a replacement threshold) plus those queued in completed
/// buildings. `mg_max_hp` is the rulebook's full health of a machine gunner.
pub fn unit_counts_for_priorities(
    observation: &Observation,
    facts: &AiFacts,
    profile: &AiProfile,
    unit_priorities: &[EntityKind],
    mg_max_hp: u32,
) -> (r: Vec<(EntityKind, usize)>)
    requires
        facts.wf(),
        forall|i: int|
            0 <= i < unit_priorities@.len() ==> priority_unit_count(
                observation.owned@,
                facts,
                profile,
                #[trigger] unit_priorities@[i],
                mg_max_hp,
            ) <= usize::MAX,
    ensures
        r@.len() == unit_priorities@.len(),
        forall|i: int|
            0 <= i < r@.len() ==> #[trigger] r@[i] == (
                unit_priorities@[i],
                priority_unit_count(observation.owned@, facts, profile, unit_priorities@[i], mg_max_hp)
                    as usize,
            ),
{
    let owned = &observation.owned;
    let healthy: Option<usize> = match profile.defensive_machine_gunners {
        Some(policy) => match policy.replacement_health_percent {
            Some(threshold) => Some(count_healthy_machine_gunners(owned, threshold, mg_max_hp)),
            None => None,
        },
        None => None,
    };
    let mut out: Vec<(EntityKind, usize)> = Vec::new();
    let mut i: usize = 0;
    while i < unit_priorities.len()
        invariant
            i <= unit_priorities@.len(),
            out@.len() == i,
            facts.wf(),
            owned == &observation.owned,
            healthy == match profile.defensive_machine_gunners {
                Some(policy) => match policy.replacement_health_percent {
                    Some(threshold) => Some(
                        healthy_machine_gunners(owned@, threshold, mg_max_hp) as usize,
                    ),
                    None => None,
                },
                None => None,
            },
            forall|j: int|
                0 <= j < unit_priorities@.len() ==> priority_unit_count(
                    observation.owned@,
                    facts,
                    profile,
                    #[trigger] unit_priorities@[j],
                    mg_max_hp,
                ) <= usize::MAX,
            forall|j: int|
                0 <= j < i ==> #[trigger] out@[j] == (
                    unit_priorities@[j],
                    priority_unit_count(observation.owned@, facts, profile, unit_priorities@[j], mg_max_hp)
                        as usize,
                ),
        decreases unit_priorities@.len() - i,
    {
        let kind = unit_priorities[i];
        let standing = match healthy {
            Some(n) => if kind == EntityKind::MachineGunner {
                n
            } else {
                facts.unit_count(kind)
            },
            None => facts.unit_count(kind),
        };
        assert(standing == standing_units(owned@, facts, profile, kind, mg_max_hp));
        let total = count_queued_units(owned, kind, standing);
        out.push((kind, total));
        i = i + 1;
    }
    out
}

} // verus!
