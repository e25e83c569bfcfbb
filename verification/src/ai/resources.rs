//! The economy: worker counts per resource, worker targets, and the economy manager's
//! proposals.
use crate::ai::budget::CostTable;
use crate::ai::kinds::EntityKind;
use crate::ai::model::{AiFacts, AiProfile, EntitySummary, Observation, ResourceNode};
use crate::ai::expansion::{
    active_expansion, active_expansion_spec, expansion_blocks_tech_path,
    expansion_blocks_tech_path_spec,
};
use vstd::prelude::*;

verus! {

/// The kind of the first resource node with id `id`.
pub open spec fn node_kind(resources: Seq<ResourceNode>, id: u32) -> Option<EntityKind>
    decreases resources.len(),
{
    if resources.len() == 0 {
        None
    } else if resources[0].id == id {
        Some(resources[0].kind)
    } else {
        node_kind(resources.drop_first(), id)
    }
}

/// Workers latched to a node of kind `kind`.
pub open spec fn workers_on(owned: Seq<EntitySummary>, resources: Seq<ResourceNode>, kind: EntityKind) -> nat
    decreases owned.len(),
{
    if owned.len() == 0 {
        0
    } else {
        let e = owned.last();
        workers_on(owned.drop_last(), resources, kind) + if e.kind == EntityKind::Worker && match e.latched_node {
            Some(n) => node_kind(resources, n) == Some(kind),
            None => false,
        } {
            1nat
        } else {
            0nat
        }
    }
}

fn find_node_kind(resources: &Vec<ResourceNode>, id: u32) -> (r: Option<EntityKind>)
    ensures
        r == node_kind(resources@, id),
{
    let mut i: usize = 0;
    assert(resources@.skip(0) =~= resources@);
    while i < resources.len()
        invariant
            i <= resources.len(),
            node_kind(resources@, id) == node_kind(resources@.skip(i as int), id),
        decreases resources.len() - i,
    {
        proof {
            assert(resources@.skip(i as int).drop_first() =~= resources@.skip(i + 1));
        }
        if resources[i].id == id {
            return Some(resources[i].kind);
        }
        i = i + 1;
    }
    None
}

/// `(steel workers, oil workers)`: workers latched to a steel or an oil node.
pub fn resource_worker_counts(observation: &Observation) -> (r: (usize, usize))
    ensures
        r.0 == workers_on(observation.owned@, observation.resources@, EntityKind::Steel),
        r.1 == workers_on(observation.owned@, observation.resources@, EntityKind::Oil),
{
    let owned = &observation.owned;
    let mut steel: usize = 0;
    let mut oil: usize = 0;
    let mut i: usize = 0;
    while i < owned.len()
        invariant
            i <= owned.len(),
            owned == &observation.owned,
            steel == workers_on(owned@.take(i as int), observation.resources@, EntityKind::Steel),
            oil == workers_on(owned@.take(i as int), observation.resources@, EntityKind::Oil),
            steel <= i,
            oil <= i,
        decreases owned.len() - i,
    {
        proof {
            assert(owned@.take(i + 1).drop_last() =~= owned@.take(i as int));
            assert(owned@.take(i + 1).last() == owned@[i as int]);
        }
        let e = owned[i];
        if e.kind == EntityKind::Worker {
            if let Some(node) = e.latched_node {
                match find_node_kind(&observation.resources, node) {
                    Some(EntityKind::Steel) => {
                        steel = steel + 1;
                    },
                    Some(EntityKind::Oil) => {
                        oil = oil + 1;
                    },
                    _ => {},
                }
            }
        }
        i = i + 1;
    }
    assert(owned@.take(owned@.len() as int) =~= owned@);
    (steel, oil)
}

/// Steel workers for a profile: the base target until the expansion's city centres are
/// complete (capped before the expansion), then at least the saturation of the completed
/// centres, capped after the expansion if the policy says so.
pub open spec fn target_steel_workers_spec(
    obs: &Observation,
    facts: &AiFacts,
    profile: &AiProfile,
    base_target: usize,
    saturation_target: usize,
) -> usize {
    match active_expansion_spec(obs, profile) {
        None => base_target,
        Some(e) => if facts.complete_building_count_spec(EntityKind::CityCentre)
            < e.target_city_centres {
            if base_target <= e.pre_expansion_steel_worker_cap {
                base_target
            } else {
                e.pre_expansion_steel_worker_cap
            }
        } else {
            let expanded = if base_target >= saturation_target {
                base_target
            } else {
                saturation_target
            };
            match e.post_expansion_steel_worker_cap {
                Some(cap) => if expanded <= cap {
                    expanded
                } else {
                    cap
                },
                None => expanded,
            }
        },
    }
}

/// `saturation_target` is the steel saturation of the completed city centres.
pub fn target_steel_workers_for_profile(
    observation: &Observation,
    facts: &AiFacts,
    profile: &AiProfile,
    base_target: usize,
    saturation_target: usize,
) -> (r: usize)
    requires
        facts.wf(),
    ensures
        r == target_steel_workers_spec(observation, facts, profile, base_target, saturation_target),
{
    let e = match active_expansion(observation, profile) {
        None => {
            return base_target;
        },
        Some(e) => e,
    };
    if facts.complete_building_count(EntityKind::CityCentre) < e.target_city_centres {
        return if base_target <= e.pre_expansion_steel_worker_cap {
            base_target
        } else {
            e.pre_expansion_steel_worker_cap
        };
    }
    let expanded = if base_target >= saturation_target {
        base_target
    } else {
        saturation_target
    };
    match e.post_expansion_steel_worker_cap {
        Some(cap) => if expanded <= cap {
            expanded
        } else {
            cap
        },
        None => expanded,
    }
}

/// Steel and oil to bank for the next step toward tanks.
#[derive(Clone, Copy, PartialEq, Eq, Structural, Debug)]
pub struct ResourceGoal {
    pub steel: u32,
    pub oil: u32,
}

pub open spec fn sat_mul_spec(a: u32, b: u32) -> u32 {
    if a * b > u32::MAX {
        u32::MAX
    } else {
        (a * b) as u32
    }
}

/// The next building on the tank path that is not complete, else the tank itself.
pub open spec fn next_tank_step(facts: &AiFacts) -> EntityKind {
    if facts.complete_building_count_spec(EntityKind::TrainingCentre) == 0 {
        EntityKind::TrainingCentre
    } else if facts.complete_building_count_spec(EntityKind::ResearchComplex) == 0 {
        EntityKind::ResearchComplex
    } else if facts.complete_building_count_spec(EntityKind::Factory) == 0 {
        EntityKind::Factory
    } else if facts.complete_building_count_spec(EntityKind::Steelworks) == 0 {
        EntityKind::Steelworks
    } else {
        EntityKind::Tank
    }
}

/// For a profile that saves for its first tank: the price of the next step, and for tanks the
/// price of one per complete factory (at least one).
pub open spec fn next_tank_resource_goal_spec(facts: &AiFacts, profile: &AiProfile, costs: &CostTable) -> Option<ResourceGoal> {
    if profile.production.save_for_first_tech_unit != Some(EntityKind::Tank) {
        None
    } else {
        let kind = next_tank_step(facts);
        let factories = facts.complete_building_count_spec(EntityKind::Factory);
        let scale: u32 = if kind == EntityKind::Tank {
            if factories >= 1 {
                factories as u32
            } else {
                1u32
            }
        } else {
            1u32
        };
        Some(
            ResourceGoal {
                steel: sat_mul_spec(costs.cost_spec(kind).0, scale),
                oil: sat_mul_spec(costs.cost_spec(kind).1, scale),
            },
        )
    }
}

pub fn next_tank_resource_goal(facts: &AiFacts, profile: &AiProfile, costs: &CostTable) -> (r: Option<ResourceGoal>)
    requires
        facts.wf(),
        costs.wf(),
    ensures
        r == next_tank_resource_goal_spec(facts, profile, costs),
{
    if profile.production.save_for_first_tech_unit != Some(EntityKind::Tank) {
        return None;
    }
    let kind = if facts.complete_building_count(EntityKind::TrainingCentre) == 0 {
        EntityKind::TrainingCentre
    } else if facts.complete_building_count(EntityKind::ResearchComplex) == 0 {
        EntityKind::ResearchComplex
    } else if facts.complete_building_count(EntityKind::Factory) == 0 {
        EntityKind::Factory
    } else if facts.complete_building_count(EntityKind::Steelworks) == 0 {
        EntityKind::Steelworks
    } else {
        EntityKind::Tank
    };
    let (steel, oil) = costs.cost(kind);
    let scale: u32 = if kind == EntityKind::Tank {
        let factories = facts.complete_building_count(EntityKind::Factory);
        if factories >= 1 {
            factories as u32
        } else {
            1
        }
    } else {
        1
    };
    Some(
        ResourceGoal {
            steel: crate::ai::defense::sat_mul_u32(steel, scale),
            oil: crate::ai::defense::sat_mul_u32(oil, scale),
        },
    )
}

/// A profile that saves for its first tank banks the price of the first missing step of the
/// tank path, taken in the fixed order training centre, research complex, factory, gun works
/// (Steelworks), tank: a step is skipped only when one of its buildings is complete. Once all
/// four stand it banks a tank for every complete factory (saturating; stated for factory
/// counts that fit a `u32`). Other profiles bank nothing for it.
pub proof fn law_tank_goal_follows_the_tank_path(facts: &AiFacts, profile: &AiProfile, costs: &CostTable)
    ensures
        ({
            let goal = next_tank_resource_goal_spec(facts, profile, costs);
            let done = |k: EntityKind| facts.complete_building_count_spec(k) > 0;
            let price = |k: EntityKind| Some(ResourceGoal { steel: costs.cost_spec(k).0, oil: costs.cost_spec(k).1 });
            let factories = facts.complete_building_count_spec(EntityKind::Factory);
            &&& profile.production.save_for_first_tech_unit != Some(EntityKind::Tank) ==> goal is None
            &&& profile.production.save_for_first_tech_unit == Some(EntityKind::Tank) ==> {
                &&& !done(EntityKind::TrainingCentre) ==> goal == price(EntityKind::TrainingCentre)
                &&& done(EntityKind::TrainingCentre) && !done(EntityKind::ResearchComplex) ==> goal
                    == price(EntityKind::ResearchComplex)
                &&& done(EntityKind::TrainingCentre) && done(EntityKind::ResearchComplex) && !done(
                    EntityKind::Factory,
                ) ==> goal == price(EntityKind::Factory)
                &&& done(EntityKind::TrainingCentre) && done(EntityKind::ResearchComplex) && done(
                    EntityKind::Factory,
                ) && !done(EntityKind::Steelworks) ==> goal == price(EntityKind::Steelworks)
                &&& done(EntityKind::TrainingCentre) && done(EntityKind::ResearchComplex) && done(
                    EntityKind::Factory,
                ) && done(EntityKind::Steelworks) && factories <= u32::MAX ==> (goal matches Some(g) && g.steel == if costs.cost_spec(
                    EntityKind::Tank,
                ).0 * factories > u32::MAX {
                    u32::MAX as int
                } else {
                    costs.cost_spec(EntityKind::Tank).0 * factories
                } && g.oil == if costs.cost_spec(EntityKind::Tank).1 * factories > u32::MAX {
                    u32::MAX as int
                } else {
                    costs.cost_spec(EntityKind::Tank).1 * factories
                })
            }
        }),
{
    let goal = next_tank_resource_goal_spec(facts, profile, costs);
    if profile.production.save_for_first_tech_unit == Some(EntityKind::Tank) {
        let t = costs.cost_spec(EntityKind::TrainingCentre);
        assert(t.0 * 1 == t.0 && t.1 * 1 == t.1);
        let r = costs.cost_spec(EntityKind::ResearchComplex);
        assert(r.0 * 1 == r.0 && r.1 * 1 == r.1);
        let f = costs.cost_spec(EntityKind::Factory);
        assert(f.0 * 1 == f.0 && f.1 * 1 == f.1);
        let g = costs.cost_spec(EntityKind::Steelworks);
        assert(g.0 * 1 == g.0 && g.1 * 1 == g.1);
    }
}

/// Steel workers for a profile: the base target without an active expansion; while the
/// expansion's city centres are not all complete, the base target capped by the
/// pre-expansion cap; once they are, the larger of the base target and the saturation of the
/// centres, capped by the post-expansion cap when there is one.
pub proof fn law_steel_workers_follow_the_expansion(
    obs: &Observation,
    facts: &AiFacts,
    profile: &AiProfile,
    base: usize,
    saturation: usize,
)
    ensures
        ({
            let r = target_steel_workers_spec(obs, facts, profile, base, saturation);
            match active_expansion_spec(obs, profile) {
                None => r == base,
                Some(e) => if facts.complete_building_count_spec(EntityKind::CityCentre)
                    < e.target_city_centres {
                    r <= base && r <= e.pre_expansion_steel_worker_cap && (r == base || r
                        == e.pre_expansion_steel_worker_cap)
                } else {
                    let grown = r >= base && r >= saturation && (r == base || r == saturation);
                    match e.post_expansion_steel_worker_cap {
                        None => grown,
                        Some(cap) => r <= cap && (r == cap || grown),
                    }
                },
            }
        }),
{
}

/// No oil workers are wanted without extra oil workers in the profile, without free mineable
/// oil, while the expansion blocks the tech path, or while the steel workers are below their
/// floor; a profile that does not adapt to tanks otherwise wants exactly its extra oil
/// workers.
pub proof fn law_oil_workers_wait_for_their_conditions(
    obs: &Observation,
    facts: &AiFacts,
    profile: &AiProfile,
    costs: &CostTable,
    target_steel: usize,
    current_steel: usize,
    free_oil: bool,
)
    ensures
        ({
            let r = desired_oil_workers_spec(obs, facts, profile, costs, target_steel, current_steel, free_oil);
            &&& (profile.workers.extra_oil_workers == 0 || !free_oil || expansion_blocks_tech_path_spec(
                obs,
                facts,
                profile,
            )) ==> r == 0
            &&& !oil_floor_met(facts, profile, obs, target_steel, current_steel) ==> r == 0
            &&& (profile.workers.extra_oil_workers > 0 && free_oil && !expansion_blocks_tech_path_spec(
                obs,
                facts,
                profile,
            ) && oil_floor_met(facts, profile, obs, target_steel, current_steel)
                && profile.resources.tank_adaptive is None) ==> r == profile.workers.extra_oil_workers
        }),
{
}

/// Oil workers before deficits are weighed: none without extra oil workers, free oil, or
/// while the expansion blocks the tech path, or while steel is below its floor; the extra
/// oil workers when the profile does not adapt to tanks; else one group per factory (at least
/// one), bounded by the adaptive cap.
pub open spec fn oil_floor_met(
    facts: &AiFacts,
    profile: &AiProfile,
    obs: &Observation,
    target_steel_workers: usize,
    current_steel_workers: usize,
) -> bool {
    let oil_first = match active_expansion_spec(obs, profile) {
        Some(e) => e.oil_before_steel_in_expansion && facts.complete_building_count_spec(
            EntityKind::CityCentre,
        ) >= e.target_city_centres,
        None => false,
    };
    let floor = if oil_first {
        0
    } else if profile.resources.oil_after_full_steel_saturation {
        target_steel_workers
    } else if target_steel_workers <= profile.resources.oil_after_steel_workers {
        target_steel_workers
    } else {
        profile.resources.oil_after_steel_workers
    };
    current_steel_workers >= floor
}

pub open spec fn min_usize(a: usize, b: usize) -> usize {
    if a <= b {
        a
    } else {
        b
    }
}

pub open spec fn sat_sub_u32(a: u32, b: u32) -> u32 {
    if a >= b {
        (a - b) as u32
    } else {
        0
    }
}

pub open spec fn sat_sub_usize(a: usize, b: usize) -> usize {
    if a >= b {
        (a - b) as usize
    } else {
        0
    }
}

/// The oil-worker target of a tank-adaptive profile: one group per complete factory (at least
/// one factory), clamped to `[1, max]`; then more when oil lags the next tank goal, fewer when
/// steel lags, one fewer when oil is twice covered.
pub open spec fn adaptive_oil_target(
    factories: usize,
    per_factory: usize,
    response: usize,
    max: usize,
    goal: Option<ResourceGoal>,
    steel: u32,
    oil: u32,
) -> usize {
    let f = if factories >= 1 {
        factories
    } else {
        1
    };
    let raw = if f * per_factory > usize::MAX {
        usize::MAX
    } else {
        (f * per_factory) as usize
    };
    let base = if raw < 1 {
        1
    } else if raw > max {
        max
    } else {
        raw
    };
    let adjusted = match goal {
        None => base,
        Some(g) => {
            let steel_deficit = sat_sub_u32(g.steel, steel);
            let oil_deficit = sat_sub_u32(g.oil, oil);
            if oil_deficit > steel_deficit / 2 {
                min_usize(
                    if base + response > usize::MAX {
                        usize::MAX
                    } else {
                        (base + response) as usize
                    },
                    max,
                )
            } else if steel_deficit > sat_mul_spec(oil_deficit, 2) {
                sat_sub_usize(base, response)
            } else if oil_deficit == 0 && oil >= sat_mul_spec(g.oil, 2) {
                sat_sub_usize(base, 1)
            } else {
                base
            }
        },
    };
    min_usize(adjusted, max)
}

pub open spec fn desired_oil_workers_spec(
    obs: &Observation,
    facts: &AiFacts,
    profile: &AiProfile,
    costs: &CostTable,
    target_steel_workers: usize,
    current_steel_workers: usize,
    has_free_mineable_oil: bool,
) -> usize {
    if profile.workers.extra_oil_workers == 0 || !has_free_mineable_oil
        || expansion_blocks_tech_path_spec(obs, facts, profile) || !oil_floor_met(
        facts,
        profile,
        obs,
        target_steel_workers,
        current_steel_workers,
    ) {
        0
    } else {
        match profile.resources.tank_adaptive {
            None => profile.workers.extra_oil_workers,
            Some(p) => {
                let max = min_usize(profile.workers.extra_oil_workers, p.max_oil_workers);
                if max == 0 {
                    0
                } else {
                    adaptive_oil_target(
                        facts.complete_building_count_spec(EntityKind::Factory),
                        p.oil_workers_per_factory,
                        p.deficit_response_workers,
                        max,
                        next_tank_resource_goal_spec(facts, profile, costs),
                        obs.economy.steel,
                        obs.economy.oil,
                    )
                }
            },
        }
    }
}

fn sat_mul_usize(a: usize, b: usize) -> (r: usize)
    ensures
        r == if a * b > usize::MAX {
            usize::MAX
        } else {
            (a * b) as usize
        },
{
    if a == 0 || b <= usize::MAX / a {
        proof {
            if a > 0 {
                assert(a * b <= usize::MAX) by (nonlinear_arith)
                    requires
                        a > 0,
                        b <= usize::MAX / a,
                ;
            }
        }
        a * b
    } else {
        proof {
            assert(a * b > usize::MAX) by (nonlinear_arith)
                requires
                    a > 0,
                    b > usize::MAX / a,
            ;
        }
        usize::MAX
    }
}

/// How many workers to put on oil. `current_steel_workers` are the workers now on steel and
/// `has_free_mineable_oil` whether an oil node is free to take.
pub fn desired_oil_workers(
    observation: &Observation,
    facts: &AiFacts,
    profile: &AiProfile,
    costs: &CostTable,
    target_steel_workers: usize,
    current_steel_workers: usize,
    has_free_mineable_oil: bool,
) -> (r: usize)
    requires
        facts.wf(),
        costs.wf(),
    ensures
        r == desired_oil_workers_spec(
            observation,
            facts,
            profile,
            costs,
            target_steel_workers,
            current_steel_workers,
            has_free_mineable_oil,
        ),
{
    if profile.workers.extra_oil_workers == 0 || !has_free_mineable_oil {
        return 0;
    }
    if expansion_blocks_tech_path(observation, facts, profile) {
        return 0;
    }
    let oil_first = match active_expansion(observation, profile) {
        Some(e) => e.oil_before_steel_in_expansion && facts.complete_building_count(
            EntityKind::CityCentre,
        ) >= e.target_city_centres,
        None => false,
    };
    let floor = if oil_first {
        0
    } else if profile.resources.oil_after_full_steel_saturation {
        target_steel_workers
    } else if target_steel_workers <= profile.resources.oil_after_steel_workers {
        target_steel_workers
    } else {
        profile.resources.oil_after_steel_workers
    };
    if current_steel_workers < floor {
        return 0;
    }
    let policy = match profile.resources.tank_adaptive {
        None => {
            return profile.workers.extra_oil_workers;
        },
        Some(p) => p,
    };
    let max = if profile.workers.extra_oil_workers <= policy.max_oil_workers {
        profile.workers.extra_oil_workers
    } else {
        policy.max_oil_workers
    };
    if max == 0 {
        return 0;
    }
    let built = facts.complete_building_count(EntityKind::Factory);
    let factories = if built >= 1 {
        built
    } else {
        1
    };
    let raw = sat_mul_usize(factories, policy.oil_workers_per_factory);
    let mut target = if raw < 1 {
        1
    } else if raw > max {
        max
    } else {
        raw
    };
    match next_tank_resource_goal(facts, profile, costs) {
        Some(goal) => {
            let steel_deficit = goal.steel.saturating_sub(observation.economy.steel);
            let oil_deficit = goal.oil.saturating_sub(observation.economy.oil);
            if oil_deficit > steel_deficit / 2 {
                let raised = target.saturating_add(policy.deficit_response_workers);
                target = if raised <= max {
                    raised
                } else {
                    max
                };
            } else if steel_deficit > crate::ai::defense::sat_mul_u32(oil_deficit, 2) {
                target = target.saturating_sub(policy.deficit_response_workers);
            } else if oil_deficit == 0 && observation.economy.oil >= crate::ai::defense::sat_mul_u32(
                goal.oil,
                2,
            ) {
                target = target.saturating_sub(1);
            }
        },
        None => {},
    }
    if target <= max {
        target
    } else {
        max
    }
}

/// The oil workers asked for never exceed the profile's extra oil workers.
pub proof fn law_oil_workers_within_profile_allowance(
    obs: &Observation,
    facts: &AiFacts,
    profile: &AiProfile,
    costs: &CostTable,
    target_steel_workers: usize,
    current_steel_workers: usize,
    has_free_mineable_oil: bool,
)
    ensures
        desired_oil_workers_spec(
            obs,
            facts,
            profile,
            costs,
            target_steel_workers,
            current_steel_workers,
            has_free_mineable_oil,
        ) <= profile.workers.extra_oil_workers,
{
}

// ---------------------------------------------------------------- economy manager

/// What the oil-worker demand follows this think.
#[derive(Clone, Copy, PartialEq, Eq, Structural, Debug)]
pub enum OilDemandSignal {
    ProfileDefault,
    ExactWorkers(usize),
    HoldCurrent,
}

#[derive(Clone, Copy)]
pub struct EconomyManagerSignals {
    pub oil_demand: OilDemandSignal,
    pub defer_worker_training_for_tech: bool,
}

#[derive(Clone, Copy, PartialEq, Eq, Structural, Debug)]
pub enum EconomyProposal {
    BuildExpansionResourceDepot,
    TrainWorker,
}

/// The worker targets of the economy plan.
#[derive(Clone, Copy)]
pub struct EconomyPlan {
    pub target_steel_workers: usize,
    pub desired_oil_workers: usize,
    pub target_workers: usize,
    pub current_steel_workers: usize,
    pub current_oil_workers: usize,
}

pub struct EconomyManagerOutput {
    pub plan: EconomyPlan,
    pub proposals: Vec<EconomyProposal>,
}

impl EconomyManagerOutput {
    pub fn proposes(&self, proposal: EconomyProposal) -> (r: bool)
        ensures
            r == self.proposals@.contains(proposal),
    {
        let mut i: usize = 0;
        while i < self.proposals.len()
            invariant
                i <= self.proposals.len(),
                forall|j: int| 0 <= j < i ==> self.proposals@[j] != proposal,
            decreases self.proposals.len() - i,
        {
            if self.proposals[i] == proposal {
                return true;
            }
            i = i + 1;
        }
        false
    }
}

/// The economy manager's turn: it holds oil demand at the current workers when told to,
/// keeps one engineer plus the profile's extra builders, proposes the expansion depot when
/// the expansion plan saves for it, and a worker when fewer exist than the target and
/// training is not deferred.
pub fn propose_economy(
    plan: EconomyPlan,
    signals: EconomyManagerSignals,
    expansion_should_save: bool,
    worker_count: usize,
    extra_builder_workers: usize,
) -> (r: EconomyManagerOutput)
    ensures
        r.plan.target_steel_workers == plan.target_steel_workers,
        r.plan.current_steel_workers == plan.current_steel_workers,
        r.plan.current_oil_workers == plan.current_oil_workers,
        r.plan.desired_oil_workers == if signals.oil_demand == OilDemandSignal::HoldCurrent {
            plan.current_oil_workers
        } else {
            plan.desired_oil_workers
        },
        r.plan.target_workers == if 1 + extra_builder_workers > usize::MAX {
            usize::MAX
        } else {
            (1 + extra_builder_workers) as usize
        },
        r.proposals@ == {
            let s = if expansion_should_save {
                seq![EconomyProposal::BuildExpansionResourceDepot]
            } else {
                Seq::empty()
            };
            if !signals.defer_worker_training_for_tech && worker_count < r.plan.target_workers {
                s.push(EconomyProposal::TrainWorker)
            } else {
                s
            }
        },
{
    let mut plan = plan;
    if signals.oil_demand == OilDemandSignal::HoldCurrent {
        plan.desired_oil_workers = plan.current_oil_workers;
    }
    plan.target_workers = 1usize.saturating_add(extra_builder_workers);
    let mut proposals: Vec<EconomyProposal> = Vec::new();
    if expansion_should_save {
        proposals.push(EconomyProposal::BuildExpansionResourceDepot);
    }
    if !signals.defer_worker_training_for_tech && worker_count < plan.target_workers {
        proposals.push(EconomyProposal::TrainWorker);
    }
    proof {
        let s = if expansion_should_save {
            seq![EconomyProposal::BuildExpansionResourceDepot]
        } else {
            Seq::empty()
        };
        assert(s =~= if expansion_should_save {
            seq![EconomyProposal::BuildExpansionResourceDepot]
        } else {
            Seq::<EconomyProposal>::empty()
        });
    }
    EconomyManagerOutput { plan, proposals }
}

} // verus!
