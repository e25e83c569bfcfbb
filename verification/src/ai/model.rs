//! The opponent's view of the game held as plain values: what it observes, the counts it
//! derives, and the policies of a profile.
use crate::ai::kinds::{kind_index, kind_index_spec, EntityKind, KIND_COUNT};
use vstd::prelude::*;

verus! {

/// What an owned or visible entity is doing.
#[derive(Clone, Copy, PartialEq, Eq, Structural, Debug)]
pub enum EntityState {
    Idle,
    Move,
    Attack,
    Build,
    Construct,
    Gather,
    Train,
}

/// The researches the decision rules look at.
#[derive(Clone, Copy, PartialEq, Eq, Structural, Debug)]
pub enum UpgradeKind {
    Methamphetamines,
    Entrenchment,
    TankUnlock,
    AntiTankGunUnlock,
    SmokePlus,
}

/// One entity as the opponent sees it (positions are kept by the caller).
#[derive(Clone, Copy)]
pub struct EntitySummary {
    pub id: u32,
    pub kind: EntityKind,
    pub hp: u32,
    pub state: EntityState,
    pub is_complete: bool,
    pub production_queue_len: Option<usize>,
    pub production_kind: Option<EntityKind>,
    pub latched_node: Option<u32>,
    pub target_id: Option<u32>,
    pub free_for_combat: bool,
}

/// A completed, idle, unhurt building that trains nothing.
pub fn complete_building(id: u32, kind: EntityKind) -> (r: EntitySummary)
    ensures
        r == (EntitySummary {
            id,
            kind,
            hp: 100,
            state: EntityState::Idle,
            is_complete: true,
            production_queue_len: None,
            production_kind: None,
            latched_node: None,
            target_id: None,
            free_for_combat: false,
        }),
{
    EntitySummary {
        id,
        kind,
        hp: 100,
        state: EntityState::Idle,
        is_complete: true,
        production_queue_len: None,
        production_kind: None,
        latched_node: None,
        target_id: None,
        free_for_combat: false,
    }
}

/// A completed, idle, unhurt building with `queue_len` entries in its production queue.
pub fn production_building(id: u32, kind: EntityKind, queue_len: usize) -> (r: EntitySummary)
    ensures
        r == (EntitySummary {
            id,
            kind,
            hp: 100,
            state: EntityState::Idle,
            is_complete: true,
            production_queue_len: Some(queue_len),
            production_kind: None,
            latched_node: None,
            target_id: None,
            free_for_combat: false,
        }),
{
    EntitySummary {
        id,
        kind,
        hp: 100,
        state: EntityState::Idle,
        is_complete: true,
        production_queue_len: Some(queue_len),
        production_kind: None,
        latched_node: None,
        target_id: None,
        free_for_combat: false,
    }
}

#[derive(Clone, Copy)]
pub struct Economy {
    pub steel: u32,
    pub oil: u32,
    pub supply_used: u32,
    pub supply_cap: u32,
}

#[derive(Clone, Copy)]
pub struct MapSummary {
    pub width: u32,
    pub height: u32,
    pub tile_size: u32,
}

/// A resource node: its id and whether it is steel or oil.
#[derive(Clone, Copy)]
pub struct ResourceNode {
    pub id: u32,
    pub kind: EntityKind,
    pub remaining: u32,
}

/// One think's observation of the game.
pub struct Observation {
    pub tick: u32,
    pub map: MapSummary,
    pub economy: Economy,
    pub own_start_tile: (u32, u32),
    pub owned: Vec<EntitySummary>,
    pub resources: Vec<ResourceNode>,
    pub pending_builds: Vec<EntityKind>,
}

/// Counts derived from an observation, one table entry per entity kind.
pub struct AiFacts {
    pub unit_counts: Vec<usize>,
    pub building_counts: Vec<usize>,
    pub complete_building_counts: Vec<usize>,
    pub worker_count: usize,
    pub committed_steel: u32,
    pub completed_upgrades: Vec<UpgradeKind>,
}

impl AiFacts {
    pub open spec fn wf(&self) -> bool {
        &&& self.unit_counts.len() == KIND_COUNT
        &&& self.building_counts.len() == KIND_COUNT
        &&& self.complete_building_counts.len() == KIND_COUNT
    }

    pub open spec fn unit_count_spec(&self, kind: EntityKind) -> usize {
        self.unit_counts@[kind_index_spec(kind)]
    }

    pub open spec fn building_count_spec(&self, kind: EntityKind) -> usize {
        self.building_counts@[kind_index_spec(kind)]
    }

    pub open spec fn complete_building_count_spec(&self, kind: EntityKind) -> usize {
        self.complete_building_counts@[kind_index_spec(kind)]
    }

    /// Facts with every count zero.
    pub fn empty() -> (r: Self)
        ensures
            r.wf(),
            forall|k: EntityKind|
                r.unit_count_spec(k) == 0 && r.building_count_spec(k) == 0
                    && r.complete_building_count_spec(k) == 0,
            r.worker_count == 0,
            r.committed_steel == 0,
            r.completed_upgrades@.len() == 0,
    {
        let mut units = Vec::new();
        let mut buildings = Vec::new();
        let mut complete = Vec::new();
        let mut i: usize = 0;
        while i < KIND_COUNT
            invariant
                i <= KIND_COUNT,
                units.len() == i,
                buildings.len() == i,
                complete.len() == i,
                forall|j: int| 0 <= j < i ==> units@[j] == 0 && buildings@[j] == 0 && complete@[j] == 0,
            decreases KIND_COUNT - i,
        {
            units.push(0);
            buildings.push(0);
            complete.push(0);
            i = i + 1;
        }
        let r = AiFacts {
            unit_counts: units,
            building_counts: buildings,
            complete_building_counts: complete,
            worker_count: 0,
            committed_steel: 0,
            completed_upgrades: Vec::new(),
        };
        assert forall|k: EntityKind|
            r.unit_count_spec(k) == 0 && r.building_count_spec(k) == 0
                && r.complete_building_count_spec(k) == 0 by {
            crate::ai::kinds::law_kind_index_is_injective(k, k);
        }
        r
    }

    pub fn unit_count(&self, kind: EntityKind) -> (r: usize)
        requires
            self.wf(),
        ensures
            r == self.unit_count_spec(kind),
    {
        self.unit_counts[kind_index(kind)]
    }

    pub fn building_count(&self, kind: EntityKind) -> (r: usize)
        requires
            self.wf(),
        ensures
            r == self.building_count_spec(kind),
    {
        self.building_counts[kind_index(kind)]
    }

    pub fn complete_building_count(&self, kind: EntityKind) -> (r: usize)
        requires
            self.wf(),
        ensures
            r == self.complete_building_count_spec(kind),
    {
        self.complete_building_counts[kind_index(kind)]
    }

    /// Sets the three counts of one kind.
    pub fn set_counts(
        &mut self,
        kind: EntityKind,
        units: usize,
        buildings: usize,
        complete_buildings: usize,
    )
        requires
            old(self).wf(),
        ensures
            final(self).wf(),
            final(self).worker_count == old(self).worker_count,
            final(self).committed_steel == old(self).committed_steel,
            final(self).unit_count_spec(kind) == units,
            final(self).building_count_spec(kind) == buildings,
            final(self).complete_building_count_spec(kind) == complete_buildings,
            forall|k: EntityKind|
                k != kind ==> final(self).unit_count_spec(k) == old(self).unit_count_spec(k)
                    && final(self).building_count_spec(k) == old(self).building_count_spec(k)
                    && final(self).complete_building_count_spec(k)
                    == old(self).complete_building_count_spec(k),
    {
        let i = kind_index(kind);
        self.unit_counts.set(i, units);
        self.building_counts.set(i, buildings);
        self.complete_building_counts.set(i, complete_buildings);
        assert forall|k: EntityKind| k != kind implies final(self).unit_count_spec(k)
            == old(self).unit_count_spec(k) && final(self).building_count_spec(k)
            == old(self).building_count_spec(k) && final(self).complete_building_count_spec(k)
            == old(self).complete_building_count_spec(k) by {
            crate::ai::kinds::law_kind_index_is_injective(k, kind);
        }
    }
}

// ---------------------------------------------------------------- profile policies

#[derive(Clone, Copy)]
pub struct ResourceFloat {
    pub steel: u32,
    pub oil: u32,
}

#[derive(Clone, Copy)]
pub struct ProductionPolicy {
    pub queue_depth: usize,
    pub unit_priorities: &'static [EntityKind],
    pub save_for_first_tech_unit: Option<EntityKind>,
    pub balance_unit_priorities: bool,
}

#[derive(Clone, Copy)]
pub struct AttackPolicy {
    pub unit_kinds: &'static [EntityKind],
    pub required_unit: Option<EntityKind>,
    pub first_attack_size: usize,
    pub wave_growth: usize,
    /// Ticks without an attack after which the wave size starts again from the first size.
    pub regroup_reset_ticks: u32,
    /// Ticks between two orders of the same attack.
    pub reissue_cadence_ticks: u32,
}

#[derive(Clone, Copy)]
pub struct WorkerPolicy {
    pub extra_builder_workers: usize,
    pub extra_oil_workers: usize,
}

#[derive(Clone, Copy)]
pub struct TankAdaptiveOilPolicy {
    pub max_oil_workers: usize,
    pub oil_workers_per_factory: usize,
    pub deficit_response_workers: usize,
}

#[derive(Clone, Copy)]
pub struct ResourcePolicy {
    pub oil_after_full_steel_saturation: bool,
    pub oil_after_steel_workers: usize,
    pub tank_adaptive: Option<TankAdaptiveOilPolicy>,
}

#[derive(Clone, Copy)]
pub struct BuildingPolicy {
    pub required_tech_path: &'static [EntityKind],
    pub max_pending_per_kind: usize,
    pub proxy_barracks: bool,
}

#[derive(Clone, Copy)]
pub struct ExpansionPolicy {
    pub trigger_steel: u32,
    pub trigger_supply_used: u32,
    pub target_city_centres: usize,
    pub blocks_tech_path: bool,
    pub required_complete_building: EntityKind,
    pub defensive_unit: EntityKind,
    pub defensive_unit_count: usize,
    pub pre_expansion_steel_worker_cap: usize,
    pub post_expansion_steel_worker_cap: Option<usize>,
    pub remote_worker_assignment_fallback: bool,
    pub oil_before_steel_in_expansion: bool,
}

#[derive(Clone, Copy)]
pub struct TechTransitionPolicy {
    pub resource_float: ResourceFloat,
    pub required_tech_path: &'static [EntityKind],
    pub production: ProductionPolicy,
    pub attack: AttackPolicy,
}

#[derive(Clone, Copy)]
pub struct ExtraFactoryPolicy {
    pub prerequisite_unit: EntityKind,
    pub minimum_units: usize,
    pub resource_float: ResourceFloat,
    pub target_count: usize,
}

#[derive(Clone, Copy)]
pub struct TurtleDefensePolicy {
    pub gun_works_resource_float: ResourceFloat,
    pub gun_works_target: usize,
    /// Riflemen ordered in the opening before anything else.
    pub opening_riflemen: usize,
    /// Barracks kept once the training centre stands.
    pub support_barracks_target: usize,
    /// Base chokes looked at when placing machine-gun lines.
    pub max_chokes: usize,
    /// Chokes that get a machine-gun line.
    pub machine_gunner_target_chokes: usize,
    /// Machine gunners per staffed choke.
    pub machine_gunners_per_choke: usize,
}

/// A fast tank timing: scout cars only after enough tanks, up to a target.
#[derive(Clone, Copy)]
pub struct FastTankTimingPolicy {
    pub tanks_before_scout_car: usize,
    pub scout_car_target: usize,
}

/// Anti-tank guns kept at home.
#[derive(Clone, Copy)]
pub struct HomeAntiTankPolicy {
    pub target_guns: usize,
}

/// How frontal waves treat units already sent.
#[derive(Clone, Copy)]
pub struct FrontalWavePolicy {
    /// Ticks during which a launched unit is kept out of the next wave; none keeps no record.
    pub exclude_launched_ticks: Option<u32>,
}

#[derive(Clone, Copy)]
pub struct DefensiveMachineGunnerPolicy {
    pub target_count: usize,
    pub replacement_health_percent: Option<u8>,
}

#[derive(Clone, Copy)]
pub struct HarassmentPolicy {
    pub unit_kind: EntityKind,
    pub group_size: usize,
}

#[derive(Clone, Copy)]
pub struct ExpansionContainmentPolicy {
    pub recovery_tanks_to_continue: usize,
    pub additional_tanks_per_repush: usize,
    pub minimum_tanks_to_continue: usize,
}

/// The named opponents whose rules differ from the generic ones.
#[derive(Clone, Copy, PartialEq, Eq, Structural, Debug)]
pub enum ProfileId {
    JeffsAi,
    JeffsAiBeta,
    JeffsAiPreDefenseEnvelope,
    /// A profile with no rules of its own, told apart from the others by its number.
    Other(u32),
}

/// An opponent profile: the policies the decision rules read.
#[derive(Clone, Copy)]
pub struct AiProfile {
    pub id: ProfileId,
    pub production: ProductionPolicy,
    pub attack: AttackPolicy,
    pub frontal_wave: FrontalWavePolicy,
    pub workers: WorkerPolicy,
    pub resources: ResourcePolicy,
    pub buildings: BuildingPolicy,
    pub expansion: Option<ExpansionPolicy>,
    pub tech_transition: Option<TechTransitionPolicy>,
    pub extra_factories: Option<ExtraFactoryPolicy>,
    pub turtle_defense: Option<TurtleDefensePolicy>,
    pub defensive_machine_gunners: Option<DefensiveMachineGunnerPolicy>,
    pub harassment: Option<HarassmentPolicy>,
    pub expansion_containment: Option<ExpansionContainmentPolicy>,
    pub fast_tank_timing: Option<FastTankTimingPolicy>,
    pub home_anti_tank: Option<HomeAntiTankPolicy>,
}

} // verus!
