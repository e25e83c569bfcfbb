//! Which of a profile's policies is in force: its tech transition takes over once the
//! resource float is banked or the transition's tech path has been started.
use crate::ai::kinds::EntityKind;
use crate::ai::model::{
    AiProfile, AttackPolicy, EntitySummary, ExpansionPolicy, Observation, ProductionPolicy,
    ResourcePolicy, TechTransitionPolicy, WorkerPolicy,
};
use vstd::prelude::*;

verus! {

pub fn kinds_contain(kinds: &[EntityKind], kind: EntityKind) -> (r: bool)
    ensures
        r == kinds@.contains(kind),
{
    let mut i: usize = 0;
    while i < kinds.len()
        invariant
            i <= kinds@.len(),
            forall|j: int| 0 <= j < i ==> kinds@[j] != kind,
        decreases kinds@.len() - i,
    {
        if kinds[i] == kind {
            return true;
        }
        i = i + 1;
    }
    false
}

pub open spec fn owns_kind(owned: Seq<EntitySummary>, kind: EntityKind) -> bool {
    exists|i: int| 0 <= i < owned.len() && #[trigger] owned[i].kind == kind
}

pub fn owned_has_kind(owned: &Vec<EntitySummary>, kind: EntityKind) -> (r: bool)
    ensures
        r == owns_kind(owned@, kind),
{
    let mut i: usize = 0;
    while i < owned.len()
        invariant
            i <= owned.len(),
            forall|j: int| 0 <= j < i ==> owned@[j].kind != kind,
        decreases owned.len() - i,
    {
        if owned[i].kind == kind {
            assert(owned@[i as int].kind == kind);
            return true;
        }
        i = i + 1;
    }
    false
}

pub open spec fn resource_float_met_spec(obs: &Observation, t: TechTransitionPolicy) -> bool {
    obs.economy.steel >= t.resource_float.steel && obs.economy.oil >= t.resource_float.oil
}

/// The economy has banked the transition's resource float.
pub fn resource_float_met(observation: &Observation, transition: TechTransitionPolicy) -> (r: bool)
    ensures
        r == resource_float_met_spec(observation, transition),
{
    observation.economy.steel >= transition.resource_float.steel && observation.economy.oil
        >= transition.resource_float.oil
}

/// Some building of the transition's own tech path (one the base path lacks) is owned or
/// being built.
pub open spec fn transition_tech_path_started_spec(
    obs: &Observation,
    profile: &AiProfile,
    t: TechTransitionPolicy,
) -> bool {
    exists|i: int|
        0 <= i < t.required_tech_path@.len() && !profile.buildings.required_tech_path@.contains(
            #[trigger] t.required_tech_path@[i],
        ) && (owns_kind(obs.owned@, t.required_tech_path@[i]) || obs.pending_builds@.contains(
            t.required_tech_path@[i],
        ))
}

pub fn transition_tech_path_started(
    observation: &Observation,
    profile: &AiProfile,
    transition: TechTransitionPolicy,
) -> (r: bool)
    ensures
        r == transition_tech_path_started_spec(observation, profile, transition),
{
    let path = transition.required_tech_path;
    let mut i: usize = 0;
    while i < path.len()
        invariant
            i <= path@.len(),
            path == transition.required_tech_path,
            forall|j: int|
                0 <= j < i ==> !(!profile.buildings.required_tech_path@.contains(#[trigger] path@[j])
                    && (owns_kind(observation.owned@, path@[j])
                    || observation.pending_builds@.contains(path@[j]))),
        decreases path@.len() - i,
    {
        let kind = path[i];
        if !kinds_contain(profile.buildings.required_tech_path, kind) {
            if owned_has_kind(&observation.owned, kind) || kinds_contain(
                observation.pending_builds.as_slice(),
                kind,
            ) {
                assert(path@[i as int] == kind);
                return true;
            }
        }
        i = i + 1;
    }
    false
}

/// The profile's tech transition when it is in force.
pub open spec fn active_tech_transition_spec(obs: &Observation, profile: &AiProfile) -> Option<
    TechTransitionPolicy,
> {
    match profile.tech_transition {
        Some(t) => if resource_float_met_spec(obs, t) || transition_tech_path_started_spec(
            obs,
            profile,
            t,
        ) {
            Some(t)
        } else {
            None
        },
        None => None,
    }
}

pub fn active_tech_transition(observation: &Observation, profile: &AiProfile) -> (r: Option<
    TechTransitionPolicy,
>)
    ensures
        r == active_tech_transition_spec(observation, profile),
{
    match profile.tech_transition {
        Some(t) => if resource_float_met(observation, t) || transition_tech_path_started(
            observation,
            profile,
            t,
        ) {
            Some(t)
        } else {
            None
        },
        None => None,
    }
}

/// The tech path in force: the transition's while it is active, else the profile's own.
pub fn active_required_tech_path(observation: &Observation, profile: &AiProfile) -> (r:
    &'static [EntityKind])
    ensures
        r@ == match active_tech_transition_spec(observation, profile) {
            Some(t) => t.required_tech_path@,
            None => profile.buildings.required_tech_path@,
        },
{
    match active_tech_transition(observation, profile) {
        Some(t) => t.required_tech_path,
        None => profile.buildings.required_tech_path,
    }
}

/// The production policy in force.
pub fn active_production_policy(observation: &Observation, profile: &AiProfile) -> (r:
    ProductionPolicy)
    ensures
        r == match active_tech_transition_spec(observation, profile) {
            Some(t) => t.production,
            None => profile.production,
        },
{
    match active_tech_transition(observation, profile) {
        Some(t) => t.production,
        None => profile.production,
    }
}

/// The attack policy in force.
pub fn active_attack_policy(observation: &Observation, profile: &AiProfile) -> (r: AttackPolicy)
    ensures
        r == match active_tech_transition_spec(observation, profile) {
            Some(t) => t.attack,
            None => profile.attack,
        },
{
    match active_tech_transition(observation, profile) {
        Some(t) => t.attack,
        None => profile.attack,
    }
}

pub fn active_worker_policy(profile: &AiProfile) -> (r: WorkerPolicy)
    ensures
        r == profile.workers,
{
    profile.workers
}

pub fn active_resource_policy(profile: &AiProfile) -> (r: ResourcePolicy)
    ensures
        r == profile.resources,
{
    profile.resources
}

pub fn active_expansion_policy(profile: &AiProfile) -> (r: Option<ExpansionPolicy>)
    ensures
        r == profile.expansion,
{
    profile.expansion
}

/// Once the transition's float is banked, its tech path, production and attack policies are
/// all in force together; a profile without a transition always keeps its own.
pub proof fn law_transition_switches_every_policy_together(obs: &Observation, profile: &AiProfile)
    ensures
        profile.tech_transition is Some && resource_float_met_spec(obs, profile.tech_transition->0)
            ==> active_tech_transition_spec(obs, profile) == profile.tech_transition,
        profile.tech_transition is None ==> active_tech_transition_spec(obs, profile) is None,
{
}

} // verus!
