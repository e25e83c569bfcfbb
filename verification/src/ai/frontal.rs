//! The frontal attack wave: what keeps it from launching, and the size of containment pushes.
use crate::ai::ids::contains_id;
use crate::ai::kinds::EntityKind;
use crate::ai::model::{EntitySummary, ExpansionContainmentPolicy, ProfileId};
use vstd::prelude::*;

verus! {

/// What holds a frontal wave back, in declaration (and report) order.
#[derive(Clone, Copy, PartialEq, Eq, Structural, Debug)]
pub enum FrontalWaveBlocker {
    WaitingForUnits,
    WaitingForTank,
    WaitingForMethamphetamines,
    Staging,
    AttackCadence,
}

/// The frontal wave decision of one think.
pub struct FrontalWavePlan {
    pub ready_units: Vec<u32>,
    pub desired_size: usize,
    pub attack_due: bool,
    pub required_unit_ready: bool,
    pub methamphetamines_ready: bool,
    pub blockers: Vec<FrontalWaveBlocker>,
}

impl FrontalWavePlan {
    /// The wave attacks when nothing blocks it.
    pub fn should_attack(&self) -> (r: bool)
        ensures
            r == (self.blockers@.len() == 0),
    {
        self.blockers.len() == 0
    }

    /// The wave stages while it has units but may not attack yet.
    pub fn should_stage(&self) -> (r: bool)
        ensures
            r == (self.ready_units@.len() > 0 && self.blockers@.len() > 0),
    {
        self.ready_units.len() > 0 && !self.should_attack()
    }
}

/// The blockers, each once, in declaration order: too few ready units (or a missing
/// required unit other than a tank), a missing required tank, the stimulant upgrade not yet
/// researched, the attack cadence not yet due.
pub open spec fn frontal_wave_blockers_spec(
    ready_count: nat,
    desired_size: nat,
    required_unit: Option<EntityKind>,
    required_unit_ready: bool,
    methamphetamines_ready: bool,
    attack_due: bool,
) -> Seq<FrontalWaveBlocker> {
    let waiting_tank = !required_unit_ready && required_unit == Some(EntityKind::Tank);
    let waiting_units = ready_count < desired_size || (!required_unit_ready && !waiting_tank);
    let s1 = if waiting_units {
        seq![FrontalWaveBlocker::WaitingForUnits]
    } else {
        Seq::empty()
    };
    let s2 = if waiting_tank {
        s1.push(FrontalWaveBlocker::WaitingForTank)
    } else {
        s1
    };
    let s3 = if !methamphetamines_ready {
        s2.push(FrontalWaveBlocker::WaitingForMethamphetamines)
    } else {
        s2
    };
    if !attack_due {
        s3.push(FrontalWaveBlocker::AttackCadence)
    } else {
        s3
    }
}

pub open spec fn required_unit_ready_spec(
    owned: Seq<EntitySummary>,
    ready_units: Seq<u32>,
    required_unit: Option<EntityKind>,
) -> bool {
    match required_unit {
        None => true,
        Some(kind) => exists|i: int|
            0 <= i < owned.len() && (#[trigger] owned[i]).kind == kind && ready_units.contains(
                owned[i].id,
            ),
    }
}

/// Whether a ready unit is of the attack's required kind (true when none is required).
pub fn required_unit_ready(
    owned: &Vec<EntitySummary>,
    ready_units: &Vec<u32>,
    required_unit: Option<EntityKind>,
) -> (r: bool)
    ensures
        r == required_unit_ready_spec(owned@, ready_units@, required_unit),
{
    let kind = match required_unit {
        None => {
            return true;
        },
        Some(k) => k,
    };
    let mut i: usize = 0;
    while i < owned.len()
        invariant
            i <= owned.len(),
            required_unit == Some(kind),
            forall|j: int|
                0 <= j < i ==> !((#[trigger] owned@[j]).kind == kind && ready_units@.contains(
                    owned@[j].id,
                )),
        decreases owned.len() - i,
    {
        if owned[i].kind == kind && contains_id(ready_units, owned[i].id) {
            assert(owned@[i as int].kind == kind);
            return true;
        }
        i = i + 1;
    }
    false
}

/// Assembles the wave plan from the units ready to go and the readiness signals.
pub fn plan_frontal_wave(
    ready_units: Vec<u32>,
    desired_size: usize,
    attack_due: bool,
    required_unit: Option<EntityKind>,
    required_unit_ready: bool,
    methamphetamines_ready: bool,
) -> (r: FrontalWavePlan)
    ensures
        r.ready_units@ == ready_units@,
        r.desired_size == desired_size,
        r.attack_due == attack_due,
        r.required_unit_ready == required_unit_ready,
        r.methamphetamines_ready == methamphetamines_ready,
        r.blockers@ == frontal_wave_blockers_spec(
            ready_units@.len(),
            desired_size as nat,
            required_unit,
            required_unit_ready,
            methamphetamines_ready,
            attack_due,
        ),
{
    let waiting_tank = !required_unit_ready && required_unit == Some(EntityKind::Tank);
    let waiting_units = ready_units.len() < desired_size || (!required_unit_ready && !waiting_tank);
    let mut blockers: Vec<FrontalWaveBlocker> = Vec::new();
    if waiting_units {
        blockers.push(FrontalWaveBlocker::WaitingForUnits);
    }
    if waiting_tank {
        blockers.push(FrontalWaveBlocker::WaitingForTank);
    }
    if !methamphetamines_ready {
        blockers.push(FrontalWaveBlocker::WaitingForMethamphetamines);
    }
    if !attack_due {
        blockers.push(FrontalWaveBlocker::AttackCadence);
    }
    assert(blockers@ =~= frontal_wave_blockers_spec(
        ready_units@.len(),
        desired_size as nat,
        required_unit,
        required_unit_ready,
        methamphetamines_ready,
        attack_due,
    ));
    FrontalWavePlan {
        ready_units,
        desired_size,
        attack_due,
        required_unit_ready,
        methamphetamines_ready,
        blockers,
    }
}

/// A wave attacks exactly when it is big enough, its required unit is ready, the stimulant
/// is researched where needed and the cadence is due; it never both attacks and stages.
pub proof fn law_wave_attacks_only_when_every_condition_holds(
    ready_count: nat,
    desired_size: nat,
    required_unit: Option<EntityKind>,
    required_unit_ready: bool,
    methamphetamines_ready: bool,
    attack_due: bool,
)
    ensures
        (frontal_wave_blockers_spec(
            ready_count,
            desired_size,
            required_unit,
            required_unit_ready,
            methamphetamines_ready,
            attack_due,
        ).len() == 0) == (ready_count >= desired_size && required_unit_ready
            && methamphetamines_ready && attack_due),
{
}

/// Containment uses the cohesive formation except for the beta profile; the named profile
/// uses it only on the river layout.
pub fn uses_cohesive_containment(profile_id: ProfileId, uses_river_layout: bool) -> (r: bool)
    ensures
        r == match profile_id {
            ProfileId::JeffsAi => uses_river_layout,
            ProfileId::JeffsAiBeta => false,
            _ => true,
        },
{
    match profile_id {
        ProfileId::JeffsAi => uses_river_layout,
        ProfileId::JeffsAiBeta => false,
        _ => true,
    }
}

pub open spec fn sat_usize(x: int) -> usize {
    if x > usize::MAX {
        usize::MAX
    } else {
        x as usize
    }
}

/// Tanks needed to continue a containment after `repush_count` pushes: the recovery size, plus
/// the per-push increment for every push after the first (saturating).
pub open spec fn containment_repush_tank_count_spec(
    policy: ExpansionContainmentPolicy,
    repush_count: usize,
) -> usize {
    let extra = sat_usize(
        (if repush_count >= 1 {
            repush_count - 1
        } else {
            0
        }) * policy.additional_tanks_per_repush,
    );
    sat_usize(policy.recovery_tanks_to_continue + extra)
}

pub fn containment_repush_tank_count(policy: ExpansionContainmentPolicy, repush_count: usize) -> (r:
    usize)
    ensures
        r == containment_repush_tank_count_spec(policy, repush_count),
{
    let pushes = repush_count.saturating_sub(1);
    let extra = if pushes == 0 || policy.additional_tanks_per_repush <= usize::MAX / pushes {
        proof {
            if pushes > 0 {
                assert(pushes * policy.additional_tanks_per_repush <= usize::MAX) by (nonlinear_arith)
                    requires
                        pushes > 0,
                        policy.additional_tanks_per_repush <= usize::MAX / pushes,
                ;
            }
        }
        pushes * policy.additional_tanks_per_repush
    } else {
        proof {
            assert(pushes * policy.additional_tanks_per_repush > usize::MAX) by (nonlinear_arith)
                requires
                    pushes > 0,
                    policy.additional_tanks_per_repush > usize::MAX / pushes,
            ;
        }
        usize::MAX
    };
    policy.recovery_tanks_to_continue.saturating_add(extra)
}

/// Each further push asks for at least as many tanks as the one before.
pub proof fn law_repush_size_never_shrinks(policy: ExpansionContainmentPolicy, n: usize)
    requires
        n < usize::MAX,
    ensures
        containment_repush_tank_count_spec(policy, n) <= containment_repush_tank_count_spec(
            policy,
            (n + 1) as usize,
        ),
{
    let a = policy.additional_tanks_per_repush as int;
    let p = if n >= 1 {
        n - 1
    } else {
        0
    };
    assert(p * a <= (n as int) * a) by (nonlinear_arith)
        requires
            0 <= p <= n,
            a >= 0,
    ;
}

// ---------------------------------------------------------------- carrying out a wave

/// A containment is under way once its wave launched, while it recovers, or while it holds
/// tanks.
pub fn containment_active(wave_launched: bool, recovery_active: bool, active_tanks: usize) -> (r: bool)
    ensures
        r == (wave_launched || recovery_active || active_tanks > 0),
{
    wave_launched || recovery_active || active_tanks > 0
}

/// A containment may start before the wave could attack: none is under way, the attack is
/// due, the required unit and methamphetamines are ready, and three more units than a
/// containment needs to go on are ready.
pub fn relaxed_containment_start(
    containment_active: bool,
    plan: &FrontalWavePlan,
    policy: ExpansionContainmentPolicy,
) -> (r: bool)
    requires
        policy.minimum_tanks_to_continue <= usize::MAX - 3,
    ensures
        r == (!containment_active && plan.attack_due && plan.required_unit_ready
            && plan.methamphetamines_ready && plan.ready_units@.len()
            >= policy.minimum_tanks_to_continue + 3),
{
    !containment_active && plan.attack_due && plan.required_unit_ready && plan.methamphetamines_ready
        && plan.ready_units.len() >= policy.minimum_tanks_to_continue + 3
}

/// The ways of carrying out a frontal wave, tried in order until one issues orders.
#[derive(Clone, Copy, PartialEq, Eq, Structural, Debug)]
pub enum WaveRoute {
    /// Pull the containment back toward the recall target.
    Recall,
    /// The containment wave of the profile without the cohesive formation.
    LegacyContainment,
    /// The cohesive containment wave.
    CohesiveContainment,
    /// Attack the enemy base with the ready units.
    Attack,
    /// Stage the ready units on the defensive line.
    StageLine,
    /// Stage the ready units toward their own base.
    StageTowardBase,
}

/// What a frontal wave tries this think, and whether it drops a finished recall.
pub struct WaveRoutes {
    pub routes: Vec<WaveRoute>,
    /// The recall is over: its flag, its last formation order and its route are reset.
    pub clear_recall: bool,
}

/// The situation a frontal wave is carried out in.
#[derive(Clone, Copy)]
pub struct WaveSituation {
    pub has_containment_policy: bool,
    pub cohesive_containment: bool,
    pub recall_target: bool,
    pub recall_active: bool,
    pub containment_active: bool,
    pub relaxed_start: bool,
    pub should_attack: bool,
    pub should_stage: bool,
    pub line_staging: bool,
}

pub open spec fn containment_routes(w: WaveSituation) -> Seq<WaveRoute> {
    if !w.has_containment_policy {
        Seq::empty()
    } else {
        (if w.cohesive_containment && w.recall_target {
            seq![WaveRoute::Recall]
        } else {
            Seq::empty()
        }) + if !w.cohesive_containment && w.should_attack {
            seq![WaveRoute::LegacyContainment]
        } else if w.cohesive_containment && (w.should_attack || w.relaxed_start
            || w.containment_active) {
            seq![WaveRoute::CohesiveContainment]
        } else {
            Seq::empty()
        }
    }
}

/// The routes in order: with a containment policy, a cohesive containment first recalls when
/// it has a target; then the legacy containment when the wave attacks without the cohesive
/// formation, or the cohesive one when the wave attacks, may start early or is under way; then
/// the attack, or else, while staging, the line or the way home.
pub open spec fn wave_routes_spec(w: WaveSituation) -> Seq<WaveRoute> {
    containment_routes(w) + if w.should_attack {
        seq![WaveRoute::Attack]
    } else if w.should_stage {
        seq![if w.line_staging {
            WaveRoute::StageLine
        } else {
            WaveRoute::StageTowardBase
        }]
    } else {
        Seq::empty()
    }
}

pub fn wave_routes(w: WaveSituation) -> (r: WaveRoutes)
    ensures
        r.routes@ == wave_routes_spec(w),
        r.clear_recall == (w.has_containment_policy && w.cohesive_containment && !w.recall_target
            && w.recall_active),
{
    let mut routes: Vec<WaveRoute> = Vec::new();
    let mut clear_recall = false;
    if w.has_containment_policy {
        if w.cohesive_containment {
            if w.recall_target {
                routes.push(WaveRoute::Recall);
            } else if w.recall_active {
                clear_recall = true;
            }
        }
        if !w.cohesive_containment && w.should_attack {
            routes.push(WaveRoute::LegacyContainment);
        } else if w.cohesive_containment && (w.should_attack || w.relaxed_start
            || w.containment_active) {
            routes.push(WaveRoute::CohesiveContainment);
        }
    }
    assert(routes@ =~= containment_routes(w));
    if w.should_attack {
        routes.push(WaveRoute::Attack);
    } else if w.should_stage {
        if w.line_staging {
            routes.push(WaveRoute::StageLine);
        } else {
            routes.push(WaveRoute::StageTowardBase);
        }
    }
    assert(routes@ =~= wave_routes_spec(w));
    WaveRoutes { routes, clear_recall }
}

} // verus!
