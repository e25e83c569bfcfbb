use bewegungskrieg::ai::budget::{budget_from_observation, unit_value, CostTable, SpendBudget};
use bewegungskrieg::ai::defense::{
    balanced_approach_slot, defensive_machine_gunner_units,
    defensive_machine_gunner_units_for_build_clearance, defensive_panic_barracks_target,
    defensive_panic_plan, interceptor_count, machine_gunner_meets_replacement_health,
    eligible_local_defenders, local_defense_targets, local_defense_units, panic_outnumbered,
    select_defensive_interceptors, InterceptorCandidate,
    sector_threat_value, DefensivePanic, DefensivePanicResponse,
};
use bewegungskrieg::ai::expansion::{
    active_expansion, expansion_is_next, plan_expansion, predicts_natural_from_opening,
    escort_progress, expansion_anchor_tiles, should_save_for_expansion, AnchorCandidate,
    EscortProgress, ExpansionBlocker, ExpansionInputs, ExpansionSecurity,
};
use bewegungskrieg::ai::harassment::{plan_scout_car_harassment, select_harassment_units, HarassmentPlan};
use bewegungskrieg::ai::memory::{
    containment_wave_needs_control, surplus_tank_for_forward_base, unit_and_queue_count,
    AiDecisionMemory,
};
use bewegungskrieg::ai::priorities::{
    effective_unit_priorities_for_defensive_machine_gunners,
    effective_unit_priorities_for_fast_tank_timing, effective_unit_priorities_for_turtle,
    effective_unit_priorities_for_upgrades, methamphetamines_ready, oil_demand_signal,
    production_max_counts, turtle_barracks_target, turtle_entrenchment_started_or_done,
    turtle_opening_pending, turtle_should_delay_tech_for_entrenchment,
};
use bewegungskrieg::ai::frontal::{
    containment_active, containment_repush_tank_count, plan_frontal_wave, relaxed_containment_start,
    required_unit_ready, uses_cohesive_containment, wave_routes, FrontalWaveBlocker,
    FrontalWavePlan, WaveRoute, WaveSituation,
};
use bewegungskrieg::ai::ids::{sort_ids, sorted_unique_ids};
use bewegungskrieg::ai::kinds::{
    harassment_threat_priority, outbound_wave_target_priority, rifle_raid_unit_priority,
    stationary_tank_target_priority, EntityKind,
};
use bewegungskrieg::ai::model::{
    complete_building, production_building, FastTankTimingPolicy, HarassmentPolicy,
    HomeAntiTankPolicy, TurtleDefensePolicy, UpgradeKind, AiFacts, AiProfile, AttackPolicy, BuildingPolicy, DefensiveMachineGunnerPolicy, Economy,
    EntityState, EntitySummary, ExpansionContainmentPolicy, FrontalWavePolicy, ExpansionPolicy, ExtraFactoryPolicy,
    MapSummary, Observation, ProductionPolicy, ProfileId, ResourceFloat, ResourceNode,
    ResourcePolicy, TankAdaptiveOilPolicy, TechTransitionPolicy, WorkerPolicy,
};
use bewegungskrieg::ai::policies::{
    active_attack_policy, active_production_policy, active_required_tech_path,
    active_tech_transition,
};
use bewegungskrieg::ai::production::{
    is_upper_left_diagonal_start, producer_for_unit, production_building_order,
    production_uses_building, should_build_extra_factory, should_save_for_first_tech_unit,
    should_use_proxy_barracks, unit_counts_for_priorities, uses_jeff_opposite_spawn_layout,
    TrainingRules,
};
use bewegungskrieg::ai::raids::{
    is_rifle_raid_policy, rifle_raid_building_fallback_target, rifle_raid_units_to_resume,
    select_rifle_raid_units,
};
use bewegungskrieg::ai::resources::{
    desired_oil_workers, next_tank_resource_goal, propose_economy, resource_worker_counts,
    target_steel_workers_for_profile, EconomyManagerSignals, EconomyPlan, EconomyProposal,
    OilDemandSignal, ResourceGoal,
};
use bewegungskrieg::ai::targets::{
    local_defense_target, rifle_raid_unit_target, visible_combat_target_for_wave,
    visible_threat_for_harassment, EnemyContact,
};

fn entity(id: u32, kind: EntityKind) -> EntitySummary {
    EntitySummary {
        id,
        kind,
        hp: 100,
        state: EntityState::Idle,
        is_complete: true,
        production_queue_len: None,
        production_kind: None,
        latched_node: None,
        target_id: None,
        free_for_combat: false,
    }
}

fn observation(steel: u32, oil: u32, owned: Vec<EntitySummary>) -> Observation {
    Observation {
        tick: 0,
        map: MapSummary {
            width: 32,
            height: 32,
            tile_size: 32,
        },
        economy: Economy {
            steel,
            oil,
            supply_used: 0,
            supply_cap: 10,
        },
        own_start_tile: (8, 8),
        owned,
        resources: Vec::new(),
        pending_builds: Vec::new(),
    }
}

fn attack(kinds: &'static [EntityKind]) -> AttackPolicy {
    AttackPolicy {
        unit_kinds: kinds,
        required_unit: None,
        first_attack_size: 1,
        wave_growth: 0,
        regroup_reset_ticks: 600,
        reissue_cadence_ticks: 40,
    }
}

fn production(units: &'static [EntityKind]) -> ProductionPolicy {
    ProductionPolicy {
        queue_depth: 2,
        unit_priorities: units,
        save_for_first_tech_unit: None,
        balance_unit_priorities: false,
    }
}

fn profile() -> AiProfile {
    AiProfile {
        id: ProfileId::Other(0),
        production: production(&[EntityKind::Rifleman]),
        attack: attack(&[EntityKind::Rifleman]),
        frontal_wave: FrontalWavePolicy {
            exclude_launched_ticks: None,
        },
        workers: WorkerPolicy {
            extra_builder_workers: 1,
            extra_oil_workers: 3,
        },
        resources: ResourcePolicy {
            oil_after_full_steel_saturation: false,
            oil_after_steel_workers: 4,
            tank_adaptive: None,
        },
        buildings: BuildingPolicy {
            required_tech_path: &[EntityKind::Barracks],
            max_pending_per_kind: 1,
            proxy_barracks: false,
        },
        expansion: None,
        tech_transition: None,
        extra_factories: None,
        turtle_defense: None,
        defensive_machine_gunners: None,
        harassment: None,
        expansion_containment: None,
        fast_tank_timing: None,
        home_anti_tank: None,
    }
}

fn expansion_policy() -> ExpansionPolicy {
    ExpansionPolicy {
        trigger_steel: 400,
        trigger_supply_used: 30,
        target_city_centres: 2,
        blocks_tech_path: true,
        required_complete_building: EntityKind::Barracks,
        defensive_unit: EntityKind::Rifleman,
        defensive_unit_count: 2,
        pre_expansion_steel_worker_cap: 6,
        post_expansion_steel_worker_cap: Some(12),
        remote_worker_assignment_fallback: false,
        oil_before_steel_in_expansion: false,
    }
}

fn facts_with(entries: &[(EntityKind, usize, usize, usize)]) -> AiFacts {
    let mut facts = AiFacts::empty();
    for (kind, units, buildings, complete) in entries {
        facts.set_counts(*kind, *units, *buildings, *complete);
    }
    facts
}

fn costs() -> CostTable {
    CostTable::from_prices(&vec![
        (EntityKind::Depot, 100, 0),
        (EntityKind::Rifleman, 50, 0),
        (EntityKind::Tank, 150, 100),
        (EntityKind::TrainingCentre, 150, 0),
        (EntityKind::ResearchComplex, 150, 50),
        (EntityKind::Factory, 200, 100),
        (EntityKind::Steelworks, 150, 50),
    ])
}

fn rules() -> TrainingRules {
    TrainingRules {
        pairs: vec![
            (EntityKind::Barracks, EntityKind::Rifleman),
            (EntityKind::Barracks, EntityKind::MachineGunner),
            (EntityKind::Steelworks, EntityKind::AntiTankGun),
            (EntityKind::Factory, EntityKind::Tank),
            (EntityKind::Factory, EntityKind::ScoutCar),
            (EntityKind::ResourceDepot, EntityKind::Worker),
        ],
    }
}

fn contact(id: u32, kind: EntityKind, distance_key: u32) -> EnemyContact {
    EnemyContact {
        id,
        kind,
        distance_key,
        in_local_area: true,
    }
}

// ---------------------------------------------------------------- budget

#[test]
fn committed_steel_is_reserved_from_budget() {
    let budget = SpendBudget::with_committed_steel(150, 0, 0, 10, 100);

    assert_eq!(budget.steel, 50);
    assert!(!budget.can_afford_building(EntityKind::Depot, &costs()));
}

#[test]
fn budget_affords_exact_price_and_saturates_commitment() {
    let budget = SpendBudget::new(100, 0, 0, 10);
    assert!(budget.can_afford_building(EntityKind::Depot, &costs()));
    assert!(!budget.can_afford_building(EntityKind::Tank, &costs()));
    assert_eq!(SpendBudget::with_committed_steel(10, 5, 1, 2, 50).steel, 0);
    assert_eq!(unit_value(&costs(), EntityKind::Tank), 250);
    assert_eq!(unit_value(&costs(), EntityKind::Worker), 0);
}

#[test]
fn cost_table_last_price_wins() {
    let table = CostTable::from_prices(&vec![(EntityKind::Tank, 1, 2), (EntityKind::Tank, 3, 4)]);
    assert_eq!(table.cost(EntityKind::Tank), (3, 4));
    assert_eq!(table.cost(EntityKind::Depot), (0, 0));
}

// ---------------------------------------------------------------- priorities and targets

#[test]
fn anti_armor_threats_outrank_every_economic_target() {
    assert_eq!(outbound_wave_target_priority(EntityKind::Tank), 0);
    assert_eq!(outbound_wave_target_priority(EntityKind::AntiTankGun), 0);
    assert_eq!(outbound_wave_target_priority(EntityKind::Panzerfaust), 0);
    assert!(
        outbound_wave_target_priority(EntityKind::MachineGunner)
            > outbound_wave_target_priority(EntityKind::Tank)
    );
    assert!(
        outbound_wave_target_priority(EntityKind::Worker)
            > outbound_wave_target_priority(EntityKind::Panzerfaust)
    );
}

#[test]
fn unit_priority_tables() {
    assert_eq!(rifle_raid_unit_priority(EntityKind::Worker), 0);
    assert_eq!(rifle_raid_unit_priority(EntityKind::AntiTankGun), 1);
    assert_eq!(rifle_raid_unit_priority(EntityKind::Tank), 2);
    assert_eq!(rifle_raid_unit_priority(EntityKind::Barracks), 3);
    assert_eq!(harassment_threat_priority(EntityKind::Tank), 0);
    assert_eq!(harassment_threat_priority(EntityKind::Rifleman), 2);
    assert_eq!(stationary_tank_target_priority(EntityKind::AntiTankGun), 0);
    assert_eq!(stationary_tank_target_priority(EntityKind::MortarTeam), 3);
    assert_eq!(stationary_tank_target_priority(EntityKind::Worker), 6);
}

#[test]
fn rifle_raid_prefers_workers_then_distance_then_id() {
    let contacts = vec![
        contact(5, EntityKind::Rifleman, 1),
        contact(9, EntityKind::Worker, 50),
        contact(7, EntityKind::Worker, 50),
        contact(3, EntityKind::Barracks, 0),
    ];
    assert_eq!(rifle_raid_unit_target(&contacts, &vec![]), Some(7));
    assert_eq!(rifle_raid_unit_target(&contacts, &vec![7, 9]), Some(5));
    assert_eq!(rifle_raid_unit_target(&contacts, &vec![5, 7, 9]), None);
}

#[test]
fn harassment_and_wave_targets_respect_the_radius() {
    let contacts = vec![
        contact(1, EntityKind::Tank, 900),
        contact(2, EntityKind::Rifleman, 10),
        contact(3, EntityKind::Worker, 1),
    ];
    assert_eq!(visible_threat_for_harassment(&contacts, 1000), Some(1));
    assert_eq!(visible_threat_for_harassment(&contacts, 100), Some(2));
    assert_eq!(visible_threat_for_harassment(&contacts, 5), None);
    assert_eq!(visible_combat_target_for_wave(&contacts, 1000), Some(1));
    let mut outside = contact(4, EntityKind::Factory, 0);
    outside.in_local_area = false;
    let local = vec![outside, contact(6, EntityKind::Depot, 30), contact(5, EntityKind::Rifleman, 30)];
    assert_eq!(local_defense_target(&local), Some(5));
}

// ---------------------------------------------------------------- production

#[test]
fn mirrored_layout_scope_excludes_off_diagonal_crossroads_start() {
    let map = MapSummary {
        width: 126,
        height: 126,
        tile_size: 32,
    };

    assert!(is_upper_left_diagonal_start(map, (9, 9)));
    assert!(!is_upper_left_diagonal_start(map, (47, 8)));
    assert!(!is_upper_left_diagonal_start(map, (116, 116)));
}

#[test]
fn opposite_spawn_layout_needs_a_named_profile() {
    let mut obs = observation(0, 0, vec![]);
    obs.map = MapSummary {
        width: 126,
        height: 126,
        tile_size: 32,
    };
    obs.own_start_tile = (9, 9);
    let mut p = profile();
    assert!(!uses_jeff_opposite_spawn_layout(&obs, &p));
    p.id = ProfileId::JeffsAiBeta;
    assert!(uses_jeff_opposite_spawn_layout(&obs, &p));
}

#[test]
fn producers_and_building_order() {
    let rules = rules();
    assert_eq!(producer_for_unit(&rules, EntityKind::Tank), Some(EntityKind::Factory));
    assert_eq!(producer_for_unit(&rules, EntityKind::Worker), Some(EntityKind::ResourceDepot));
    assert_eq!(producer_for_unit(&rules, EntityKind::Artillery), None);
    assert_eq!(
        production_building_order(
            &rules,
            &[
                EntityKind::Worker,
                EntityKind::Rifleman,
                EntityKind::Tank,
                EntityKind::MachineGunner,
                EntityKind::ScoutCar
            ]
        ),
        vec![EntityKind::Barracks, EntityKind::Factory]
    );
    assert!(production_uses_building(
        &rules,
        production(&[EntityKind::Rifleman, EntityKind::AntiTankGun]),
        EntityKind::Steelworks
    ));
    assert!(!production_uses_building(&rules, production(&[EntityKind::Rifleman]), EntityKind::Factory));
}

#[test]
fn saving_for_the_first_tech_unit() {
    let rules = rules();
    let mut policy = production(&[EntityKind::Tank]);
    policy.save_for_first_tech_unit = Some(EntityKind::Tank);
    assert!(!should_save_for_first_tech_unit(&rules, &facts_with(&[]), policy));
    let with_factory = facts_with(&[(EntityKind::Factory, 0, 1, 0)]);
    assert!(should_save_for_first_tech_unit(&rules, &with_factory, policy));
    let with_tank = facts_with(&[(EntityKind::Factory, 0, 1, 1), (EntityKind::Tank, 1, 0, 0)]);
    assert!(!should_save_for_first_tech_unit(&rules, &with_tank, policy));
}

#[test]
fn extra_factory_needs_units_float_and_room() {
    let mut p = profile();
    p.extra_factories = Some(ExtraFactoryPolicy {
        prerequisite_unit: EntityKind::Tank,
        minimum_units: 2,
        resource_float: ResourceFloat { steel: 300, oil: 100 },
        target_count: 3,
    });
    let facts = facts_with(&[(EntityKind::Tank, 2, 0, 0), (EntityKind::Factory, 0, 1, 1)]);
    assert!(should_build_extra_factory(&observation(301, 101, vec![]), &facts, &p, 1));
    assert!(!should_build_extra_factory(&observation(300, 101, vec![]), &facts, &p, 1));
    assert!(!should_build_extra_factory(&observation(301, 101, vec![]), &facts, &p, 2));
    assert!(!should_build_extra_factory(&observation(301, 101, vec![]), &facts, &profile(), 0));
}

#[test]
fn proxy_barracks_only_before_the_first_barracks() {
    let mut p = profile();
    p.buildings.proxy_barracks = true;
    assert!(should_use_proxy_barracks(&facts_with(&[]), &p));
    assert!(!should_use_proxy_barracks(&facts_with(&[(EntityKind::Barracks, 0, 1, 0)]), &p));
}

// ---------------------------------------------------------------- policies

#[test]
fn tech_transition_takes_over_on_float_or_started_path() {
    let mut p = profile();
    p.tech_transition = Some(TechTransitionPolicy {
        resource_float: ResourceFloat { steel: 500, oil: 200 },
        required_tech_path: &[EntityKind::Barracks, EntityKind::Factory],
        production: production(&[EntityKind::Tank]),
        attack: attack(&[EntityKind::Tank]),
    });
    let idle = observation(100, 0, vec![]);
    assert!(active_tech_transition(&idle, &p).is_none());
    assert_eq!(active_required_tech_path(&idle, &p), &[EntityKind::Barracks]);
    let banked = observation(500, 200, vec![]);
    assert!(active_tech_transition(&banked, &p).is_some());
    assert_eq!(active_production_policy(&banked, &p).unit_priorities, &[EntityKind::Tank]);
    assert_eq!(active_attack_policy(&banked, &p).unit_kinds, &[EntityKind::Tank]);
    let mut started = observation(0, 0, vec![]);
    started.pending_builds.push(EntityKind::Factory);
    assert_eq!(
        active_required_tech_path(&started, &p),
        &[EntityKind::Barracks, EntityKind::Factory]
    );
    let base_only = observation(0, 0, vec![entity(1, EntityKind::Barracks)]);
    assert!(active_tech_transition(&base_only, &p).is_none());
}

// ---------------------------------------------------------------- raids

#[test]
fn rifle_raid_policy_and_raiders() {
    assert!(is_rifle_raid_policy(attack(&[EntityKind::Rifleman])));
    assert!(!is_rifle_raid_policy(attack(&[EntityKind::Rifleman, EntityKind::Tank])));
    let mut growing = attack(&[EntityKind::Rifleman]);
    growing.wave_growth = 1;
    assert!(!is_rifle_raid_policy(growing));

    let mut free = entity(30, EntityKind::Rifleman);
    free.free_for_combat = true;
    let mut moving = entity(10, EntityKind::Rifleman);
    moving.state = EntityState::Move;
    let idle = entity(20, EntityKind::Rifleman);
    let mut unfinished = entity(5, EntityKind::Rifleman);
    unfinished.is_complete = false;
    unfinished.free_for_combat = true;
    let mut tank = entity(1, EntityKind::Tank);
    tank.free_for_combat = true;
    assert_eq!(
        select_rifle_raid_units(&vec![free, moving, idle, unfinished, tank]),
        vec![10, 30]
    );
}

#[test]
fn sort_ids_orders_with_duplicates() {
    assert_eq!(sort_ids(vec![5, 1, 4, 1, 3]), vec![1, 1, 3, 4, 5]);
    assert_eq!(sort_ids(vec![]), Vec::<u32>::new());
}

// ---------------------------------------------------------------- defense

#[test]
fn defense_machine_gunner_below_half_health_requires_replacement() {
    for max_hp in [1u32, 7, 80, 101, 150] {
        let half_or_above = max_hp.div_ceil(2);
        assert!(machine_gunner_meets_replacement_health(half_or_above, 50, max_hp));
        assert!(!machine_gunner_meets_replacement_health(half_or_above - 1, 50, max_hp));
    }
}

#[test]
fn tests_machine_gunner_below_half_health_requires_replacement() {
    for max_hp in [1u32, 7, 80, 101, 150] {
        let half_or_above = max_hp.div_ceil(2);
        assert!(machine_gunner_meets_replacement_health(half_or_above, 50, max_hp));
        assert!(!machine_gunner_meets_replacement_health(half_or_above - 1, 50, max_hp));
    }
}

#[test]
fn panic_plans_follow_available_tech() {
    let none = facts_with(&[]);
    let trained = facts_with(&[(EntityKind::TrainingCentre, 0, 1, 1)]);
    let rifle = defensive_panic_plan(DefensivePanicResponse::MachineGunners, &none);
    assert_eq!(rifle.production.unit_priorities, &[EntityKind::Rifleman]);
    assert_eq!(rifle.oil_workers, 0);
    let mg = defensive_panic_plan(DefensivePanicResponse::MachineGunners, &trained);
    assert_eq!(mg.production.unit_priorities, &[EntityKind::MachineGunner, EntityKind::Rifleman]);
    assert_eq!(mg.oil_workers, 2);
    let mix = defensive_panic_plan(DefensivePanicResponse::SupportMix, &trained);
    assert!(mix.production.balance_unit_priorities);
    assert_eq!(mix.production.unit_priorities.len(), 3);
    assert_eq!(mix.required_tech_path, &[EntityKind::Barracks]);
    let sustained = DefensivePanic {
        active: true,
        sustained: true,
        response: DefensivePanicResponse::Riflemen,
    };
    assert_eq!(defensive_panic_barracks_target(sustained), 2);
    assert_eq!(
        defensive_panic_barracks_target(DefensivePanic { sustained: false, ..sustained }),
        1
    );
}

#[test]
fn panic_needs_three_quarters_of_local_value() {
    assert!(!panic_outnumbered(0, 0));
    assert!(panic_outnumbered(75, 100));
    assert!(!panic_outnumbered(74, 100));
    assert!(panic_outnumbered(u32::MAX, u32::MAX));
}

#[test]
fn defensive_machine_gunner_roster() {
    let mut p = profile();
    p.defensive_machine_gunners = Some(DefensiveMachineGunnerPolicy {
        target_count: 2,
        replacement_health_percent: Some(50),
    });
    let mut a = entity(30, EntityKind::MachineGunner);
    a.free_for_combat = true;
    let mut b = entity(10, EntityKind::MachineGunner);
    b.free_for_combat = true;
    b.hp = 40;
    let mut c = entity(20, EntityKind::MachineGunner);
    c.free_for_combat = true;
    let d = entity(5, EntityKind::MachineGunner);
    let owned = vec![a, b, c, d];
    assert_eq!(defensive_machine_gunner_units(&owned, &p, 100), vec![20, 30]);
    assert_eq!(defensive_machine_gunner_units_for_build_clearance(&owned, &p, 100), vec![5, 20]);
    assert!(defensive_machine_gunner_units(&owned, &profile(), 100).is_empty());
}

#[test]
fn approaches_share_units_evenly() {
    let slots: Vec<_> = (0..7).map(|i| balanced_approach_slot(i, 7, 3)).collect();
    assert_eq!(slots, vec![(0, 0), (0, 1), (0, 2), (1, 0), (1, 1), (2, 0), (2, 1)]);
    assert_eq!(balanced_approach_slot(0, 2, 0), (0, 0));
    assert_eq!(balanced_approach_slot(9, 2, 4), (3, 0));
}

#[test]
fn sector_threat_and_interceptors() {
    let table = costs();
    assert_eq!(
        sector_threat_value(&table, &vec![EntityKind::Tank, EntityKind::Worker, EntityKind::Factory]),
        Some(252)
    );
    assert_eq!(interceptor_count(&vec![50, 50, 50], 40), 2);
    assert_eq!(interceptor_count(&vec![0, 0], 0), 1);
    assert_eq!(interceptor_count(&vec![10, 10], 100), 2);
}

// ---------------------------------------------------------------- expansion

#[test]
fn expansion_trigger_and_saving() {
    let mut p = profile();
    p.expansion = Some(expansion_policy());
    assert!(active_expansion(&observation(399, 0, vec![]), &p).is_none());
    assert!(active_expansion(&observation(400, 0, vec![]), &p).is_some());
    let ready = facts_with(&[(EntityKind::Barracks, 0, 1, 1), (EntityKind::Rifleman, 2, 0, 0)]);
    assert!(should_save_for_expansion(&observation(400, 0, vec![]), &ready, &p));
    let unready = facts_with(&[(EntityKind::Rifleman, 2, 0, 0)]);
    assert!(!should_save_for_expansion(&observation(400, 0, vec![]), &unready, &p));
}

#[test]
fn expansion_plan_lists_blockers_in_order() {
    let mut p = profile();
    p.expansion = Some(expansion_policy());
    let obs = observation(500, 0, vec![]);
    let inputs = ExpansionInputs {
        pending_city_centres: 1,
        city_centre_requirement_met: false,
        has_candidate_resources: true,
    };
    let plan = plan_expansion(&obs, &facts_with(&[]), &p, false, inputs);
    assert_eq!(
        plan.blockers,
        vec![
            ExpansionBlocker::MissingRequiredBuilding,
            ExpansionBlocker::MissingDefensiveUnits,
            ExpansionBlocker::RequirementNotMet,
            ExpansionBlocker::MaxPending
        ]
    );
    assert!(!plan.should_save);
    assert!(plan.blocks_tech_path);
    let panic = plan_expansion(&obs, &facts_with(&[]), &p, true, inputs);
    assert_eq!(panic.blockers, vec![ExpansionBlocker::DefensivePanic]);
    let not_due = plan_expansion(&observation(0, 0, vec![]), &facts_with(&[]), &p, false, inputs);
    assert_eq!(not_due.blockers, vec![ExpansionBlocker::NotDue]);
}

#[test]
fn expansion_security_and_milestone() {
    let mut security = ExpansionSecurity::new();
    security.retry_builder = Some(4);
    security.note_build_attempt(90, 7);
    assert_eq!(security.build_attempt_tick, Some(90));
    assert_eq!(security.build_attempt_worker, Some(7));
    assert_eq!(security.retry_builder(), None);

    let mut p = profile();
    p.id = ProfileId::JeffsAi;
    let facts = facts_with(&[(EntityKind::Factory, 0, 1, 1)]);
    let mut factory = entity(3, EntityKind::Factory);
    factory.production_kind = Some(EntityKind::Tank);
    factory.production_queue_len = Some(1);
    let obs = observation(0, 0, vec![entity(1, EntityKind::ResourceDepot), factory]);
    assert!(expansion_is_next(&obs, &facts, &p));
    let two_depots = observation(
        0,
        0,
        vec![entity(1, EntityKind::ResourceDepot), entity(2, EntityKind::ResourceDepot), factory],
    );
    assert!(!expansion_is_next(&two_depots, &facts, &p));

    let mut river = observation(0, 0, vec![]);
    river.map = MapSummary {
        width: 166,
        height: 166,
        tile_size: 32,
    };
    river.own_start_tile = (8, 47);
    assert!(predicts_natural_from_opening(&river));
    river.own_start_tile = (47, 8);
    assert!(!predicts_natural_from_opening(&river));
}

// ---------------------------------------------------------------- frontal wave

#[test]
fn frontal_wave_blockers_are_sorted_and_unique() {
    let plan = plan_frontal_wave(vec![1, 2], 3, false, Some(EntityKind::Tank), false, false);
    assert_eq!(
        plan.blockers,
        vec![
            FrontalWaveBlocker::WaitingForUnits,
            FrontalWaveBlocker::WaitingForTank,
            FrontalWaveBlocker::WaitingForMethamphetamines,
            FrontalWaveBlocker::AttackCadence
        ]
    );
    assert!(plan.should_stage());
    assert!(!plan.should_attack());
    let missing_scout = plan_frontal_wave(vec![1, 2, 3], 3, true, Some(EntityKind::ScoutCar), false, true);
    assert_eq!(missing_scout.blockers, vec![FrontalWaveBlocker::WaitingForUnits]);
    let go = plan_frontal_wave(vec![1, 2, 3], 3, true, None, true, true);
    assert!(go.should_attack());
    assert!(!go.should_stage());
}

#[test]
fn required_unit_must_be_among_ready_units() {
    let owned = vec![entity(1, EntityKind::Tank), entity(2, EntityKind::Rifleman)];
    assert!(required_unit_ready(&owned, &vec![1, 2], Some(EntityKind::Tank)));
    assert!(!required_unit_ready(&owned, &vec![2], Some(EntityKind::Tank)));
    assert!(required_unit_ready(&owned, &vec![], None));
}

#[test]
fn containment_rules() {
    assert!(uses_cohesive_containment(ProfileId::Other(0), false));
    assert!(!uses_cohesive_containment(ProfileId::JeffsAiBeta, true));
    assert!(uses_cohesive_containment(ProfileId::JeffsAi, true));
    assert!(!uses_cohesive_containment(ProfileId::JeffsAi, false));
    let policy = ExpansionContainmentPolicy {
        recovery_tanks_to_continue: 3,
        additional_tanks_per_repush: 1,
        minimum_tanks_to_continue: 2,
    };
    assert_eq!(containment_repush_tank_count(policy, 0), 3);
    assert_eq!(containment_repush_tank_count(policy, 1), 3);
    assert_eq!(containment_repush_tank_count(policy, 4), 6);
    let huge = ExpansionContainmentPolicy {
        additional_tanks_per_repush: usize::MAX,
        ..policy
    };
    assert_eq!(containment_repush_tank_count(huge, 3), usize::MAX);
}

#[test]
fn each_repush_adds_one_tank_to_the_grouped_cohort() {
    let policy = ExpansionContainmentPolicy {
        recovery_tanks_to_continue: 3,
        additional_tanks_per_repush: 1,
        minimum_tanks_to_continue: 2,
    };
    assert_eq!(containment_repush_tank_count(policy, 1), 3);
    assert_eq!(containment_repush_tank_count(policy, 2), 4);
    assert_eq!(containment_repush_tank_count(policy, 3), 5);
}

// ---------------------------------------------------------------- economy

#[test]
fn worker_counts_per_resource() {
    let mut steel_worker = entity(1, EntityKind::Worker);
    steel_worker.latched_node = Some(100);
    let mut oil_worker = entity(2, EntityKind::Worker);
    oil_worker.latched_node = Some(200);
    let mut lost = entity(3, EntityKind::Worker);
    lost.latched_node = Some(999);
    let mut not_worker = entity(4, EntityKind::Rifleman);
    not_worker.latched_node = Some(100);
    let mut obs = observation(0, 0, vec![steel_worker, oil_worker, lost, not_worker]);
    obs.resources = vec![
        ResourceNode { id: 100, kind: EntityKind::Steel, remaining: 10 },
        ResourceNode { id: 200, kind: EntityKind::Oil, remaining: 10 },
    ];
    assert_eq!(resource_worker_counts(&obs), (1, 1));
}

#[test]
fn steel_worker_targets_follow_the_expansion() {
    let mut p = profile();
    p.expansion = Some(expansion_policy());
    let obs = observation(500, 0, vec![]);
    let before = facts_with(&[(EntityKind::CityCentre, 0, 1, 1)]);
    assert_eq!(target_steel_workers_for_profile(&obs, &before, &p, 10, 16), 6);
    let after = facts_with(&[(EntityKind::CityCentre, 0, 2, 2)]);
    assert_eq!(target_steel_workers_for_profile(&obs, &after, &p, 10, 16), 12);
    assert_eq!(target_steel_workers_for_profile(&observation(0, 0, vec![]), &after, &p, 10, 16), 10);
}

#[test]
fn oil_workers_adapt_to_the_next_tank_goal() {
    let mut p = profile();
    p.production.save_for_first_tech_unit = Some(EntityKind::Tank);
    p.resources.tank_adaptive = Some(TankAdaptiveOilPolicy {
        max_oil_workers: 3,
        oil_workers_per_factory: 1,
        deficit_response_workers: 1,
    });
    let facts = facts_with(&[]);
    assert_eq!(
        next_tank_resource_goal(&facts, &p, &costs()),
        Some(ResourceGoal { steel: 150, oil: 0 })
    );
    // Steel short, oil covered: one fewer than the single factory group, down to zero.
    assert_eq!(desired_oil_workers(&observation(0, 0, vec![]), &facts, &p, &costs(), 4, 4, true), 0);
    let tech = facts_with(&[
        (EntityKind::TrainingCentre, 0, 1, 1),
        (EntityKind::ResearchComplex, 0, 1, 1),
        (EntityKind::Factory, 0, 2, 2),
        (EntityKind::Steelworks, 0, 1, 1),
    ]);
    assert_eq!(
        next_tank_resource_goal(&tech, &p, &costs()),
        Some(ResourceGoal { steel: 300, oil: 200 })
    );
    // Oil short: two factory groups plus the response, capped at three.
    assert_eq!(desired_oil_workers(&observation(300, 0, vec![]), &tech, &p, &costs(), 4, 4, true), 3);
    assert_eq!(desired_oil_workers(&observation(300, 0, vec![]), &tech, &p, &costs(), 4, 3, true), 0);
    assert_eq!(desired_oil_workers(&observation(300, 0, vec![]), &tech, &p, &costs(), 4, 4, false), 0);
    assert_eq!(desired_oil_workers(&observation(0, 0, vec![]), &tech, &profile(), &costs(), 4, 4, true), 3);
}

#[test]
fn economy_manager_proposals() {
    let plan = EconomyPlan {
        target_steel_workers: 8,
        desired_oil_workers: 3,
        target_workers: 11,
        current_steel_workers: 8,
        current_oil_workers: 1,
    };
    let hold = EconomyManagerSignals {
        oil_demand: OilDemandSignal::HoldCurrent,
        defer_worker_training_for_tech: false,
    };
    let out = propose_economy(plan, hold, true, 1, 1);
    assert_eq!(out.plan.desired_oil_workers, 1);
    assert_eq!(out.plan.target_workers, 2);
    assert_eq!(
        out.proposals,
        vec![EconomyProposal::BuildExpansionResourceDepot, EconomyProposal::TrainWorker]
    );
    assert!(out.proposes(EconomyProposal::TrainWorker));
    let defer = EconomyManagerSignals {
        oil_demand: OilDemandSignal::ExactWorkers(2),
        defer_worker_training_for_tech: true,
    };
    let quiet = propose_economy(plan, defer, false, 0, 1);
    assert_eq!(quiet.plan.desired_oil_workers, 3);
    assert!(quiet.proposals.is_empty());
}

// ---------------------------------------------------------------- rosters and rankings

fn at(mut e: EntitySummary, state: EntityState) -> EntitySummary {
    e.state = state;
    e
}

#[test]
fn unit_counts_add_queued_units_and_count_healthy_machine_gunners() {
    let mut factory = production_building(10, EntityKind::Barracks, 3);
    factory.production_kind = Some(EntityKind::Rifleman);
    let mut wounded = entity(21, EntityKind::MachineGunner);
    wounded.hp = 40;
    let healthy = entity(22, EntityKind::MachineGunner);
    let obs = observation(0, 0, vec![factory, wounded, healthy]);
    let facts = facts_with(&[
        (EntityKind::Rifleman, 2, 0, 0),
        (EntityKind::MachineGunner, 2, 0, 0),
    ]);
    let priorities = [EntityKind::Rifleman, EntityKind::MachineGunner, EntityKind::Tank];

    let plain = unit_counts_for_priorities(&obs, &facts, &profile(), &priorities, 100);
    assert_eq!(
        plain,
        vec![
            (EntityKind::Rifleman, 5),
            (EntityKind::MachineGunner, 2),
            (EntityKind::Tank, 0)
        ]
    );

    let mut p = profile();
    p.defensive_machine_gunners = Some(DefensiveMachineGunnerPolicy {
        target_count: 2,
        replacement_health_percent: Some(50),
    });
    let counted = unit_counts_for_priorities(&obs, &facts, &p, &priorities, 100);
    assert_eq!(counted[1], (EntityKind::MachineGunner, 1));
    assert_eq!(counted[0], (EntityKind::Rifleman, 5));
}

#[test]
fn harassment_sends_committed_then_farthest_units() {
    let mut idle_far = entity(1, EntityKind::ScoutCar);
    idle_far.free_for_combat = true;
    let moving_near = at(entity(2, EntityKind::ScoutCar), EntityState::Move);
    let mut idle_near = entity(3, EntityKind::ScoutCar);
    idle_near.free_for_combat = true;
    let busy = entity(4, EntityKind::ScoutCar);
    let rifle = at(entity(5, EntityKind::Rifleman), EntityState::Attack);
    let owned = vec![idle_far, moving_near, idle_near, busy, rifle];
    let keys = vec![900, 100, 200, 1000, 5];
    let policy = HarassmentPolicy {
        unit_kind: EntityKind::ScoutCar,
        group_size: 2,
    };
    assert_eq!(select_harassment_units(&owned, &keys, policy), vec![2, 1]);
    let all = HarassmentPolicy {
        unit_kind: EntityKind::ScoutCar,
        group_size: 10,
    };
    assert_eq!(select_harassment_units(&owned, &keys, all), vec![2, 1, 3]);
}

#[test]
fn expansion_anchors_are_nearest_first_with_repeats_merged() {
    let cands = vec![
        AnchorCandidate {
            resource_id: 7,
            kind: EntityKind::Steel,
            tile: Some((40, 40)),
            distance_key: 50,
        },
        AnchorCandidate {
            resource_id: 3,
            kind: EntityKind::Steel,
            tile: Some((40, 40)),
            distance_key: 50,
        },
        AnchorCandidate {
            resource_id: 4,
            kind: EntityKind::Oil,
            tile: Some((1, 1)),
            distance_key: 1,
        },
        AnchorCandidate {
            resource_id: 5,
            kind: EntityKind::Steel,
            tile: None,
            distance_key: 0,
        },
        AnchorCandidate {
            resource_id: 9,
            kind: EntityKind::Steel,
            tile: Some((20, 60)),
            distance_key: 10,
        },
    ];
    assert_eq!(expansion_anchor_tiles(32, &cands), vec![(20, 60), (40, 40)]);
    assert!(expansion_anchor_tiles(0, &cands).is_empty());
}

#[test]
fn sorted_unique_ids_drop_repeats() {
    assert_eq!(sorted_unique_ids(&vec![5, 1, 5, 3, 1]), vec![1, 3, 5]);
    assert!(sorted_unique_ids(&Vec::new()).is_empty());
}

#[test]
fn local_defense_rosters_and_targets() {
    let owned = vec![
        entity(1, EntityKind::Rifleman),
        entity(2, EntityKind::Tank),
        entity(3, EntityKind::ScoutCar),
        entity(4, EntityKind::MachineGunner),
    ];
    let in_area = vec![true, true, false, true];
    assert_eq!(local_defense_units(&owned, &in_area, &vec![4, 2, 3]), vec![2, 4]);

    let mut outside = contact(8, EntityKind::Tank, 5);
    outside.in_local_area = false;
    let contacts = vec![
        contact(9, EntityKind::Rifleman, 1),
        outside,
        contact(2, EntityKind::Barracks, 3),
        contact(9, EntityKind::Rifleman, 1),
    ];
    assert_eq!(local_defense_targets(&contacts), vec![2, 9]);

    assert_eq!(eligible_local_defenders(&owned, &vec![2, 4, 1, 3, 77]), vec![4, 1, 3]);
}

#[test]
fn raid_burns_buildings_only_once_a_raider_holds_the_steel_line() {
    let owned = vec![
        at(entity(1, EntityKind::Rifleman), EntityState::Move),
        at(entity(2, EntityKind::Rifleman), EntityState::Attack),
    ];
    let contacts = vec![
        contact(30, EntityKind::Barracks, 9),
        contact(31, EntityKind::Depot, 4),
        contact(32, EntityKind::Worker, 1),
    ];
    let raid = vec![1, 2];
    assert_eq!(
        rifle_raid_building_fallback_target(&owned, &vec![true, false], &raid, &contacts, &Vec::new()),
        None
    );
    assert_eq!(
        rifle_raid_building_fallback_target(&owned, &vec![false, true], &raid, &contacts, &Vec::new()),
        Some(31)
    );
    assert_eq!(
        rifle_raid_building_fallback_target(&owned, &vec![false, true], &raid, &contacts, &vec![31]),
        Some(30)
    );
}

#[test]
fn building_fixtures_and_budget_from_observation() {
    let b = complete_building(5, EntityKind::Barracks);
    assert_eq!(b.id, 5);
    assert!(b.is_complete);
    assert_eq!(b.production_queue_len, None);
    let p = production_building(6, EntityKind::Factory, 2);
    assert_eq!(p.production_queue_len, Some(2));
    assert_eq!(p.hp, 100);
    let budget = budget_from_observation(&observation(120, 30, Vec::new()));
    assert_eq!(budget.steel, 120);
    assert_eq!(budget.oil, 30);
    assert_eq!(budget.supply_cap, 10);
}

// ---------------------------------------------------------------- memory

#[test]
fn attack_waves_grow_and_reset_after_regrouping() {
    let mut p = profile();
    p.attack.first_attack_size = 3;
    p.attack.wave_growth = 2;
    let mut memory = AiDecisionMemory::for_profile(&p);
    assert_eq!(memory.desired_attack_size(&p, 0), 3);
    assert!(memory.attack_due_for(&p, p.attack, 0));
    memory.note_attack_for(&p, p.attack, 100, &[1, 2, 3]);
    assert!(!memory.attack_due_for(&p, p.attack, 120));
    assert!(memory.attack_due_for(&p, p.attack, 140));
    assert_eq!(memory.desired_attack_size(&p, 200), 5);
    assert_eq!(memory.desired_attack_size(&p, 700), 3);
}

#[test]
fn launched_units_stay_excluded_for_the_window() {
    let mut p = profile();
    p.frontal_wave = FrontalWavePolicy {
        exclude_launched_ticks: Some(50),
    };
    let mut memory = AiDecisionMemory::for_profile(&p);
    memory.note_attack_for(&p, p.attack, 10, &[7, 3, 7]);
    memory.note_attack_for(&p, p.attack, 40, &[5]);
    assert_eq!(
        memory.launched_frontal_unit_exclusions(&p, 55, &vec![3, 5, 7]),
        vec![3, 5, 7]
    );
    assert_eq!(memory.launched_frontal_unit_exclusions(&p, 70, &vec![3, 5]), vec![5]);
    assert!(memory.launched_frontal_unit_exclusions(&p, 95, &vec![5]).is_empty());
    let plain = profile();
    let mut other = AiDecisionMemory::for_profile(&plain);
    other.note_attack_for(&plain, plain.attack, 10, &[1]);
    assert!(other.launched_frontal_unit_exclusions(&plain, 10, &vec![1]).is_empty());
}

#[test]
fn defensive_panic_lives_through_the_grace_period() {
    let mut memory = AiDecisionMemory::for_profile(&profile());
    let calm = memory.defensive_panic(None, 0);
    assert!(!calm.active);
    let started = memory.defensive_panic(Some(DefensivePanicResponse::AntiTankGuns), 100);
    assert!(started.active);
    assert!(!started.sustained);
    assert_eq!(started.response, DefensivePanicResponse::AntiTankGuns);
    let held = memory.defensive_panic(None, 190);
    assert!(held.active);
    assert_eq!(held.response, DefensivePanicResponse::AntiTankGuns);
    let switched = memory.defensive_panic(Some(DefensivePanicResponse::MachineGunners), 190);
    assert!(switched.active);
    assert!(!switched.sustained);
    assert_eq!(switched.response, DefensivePanicResponse::MachineGunners);
    let fed = memory.defensive_panic(Some(DefensivePanicResponse::MachineGunners), 280);
    assert!(fed.active);
    assert!(fed.sustained);
    let over = memory.defensive_panic(None, 371);
    assert!(!over.active);
    assert!(!over.sustained);
    assert_eq!(over.response, DefensivePanicResponse::Riflemen);
    let again = memory.defensive_panic(Some(DefensivePanicResponse::Riflemen), 400);
    assert!(again.active);
    assert!(!again.sustained);
}

#[test]
fn turtle_opening_counts_ordered_riflemen_up_to_the_opening() {
    let mut p = profile();
    p.turtle_defense = Some(TurtleDefensePolicy {
        gun_works_resource_float: ResourceFloat { steel: 0, oil: 0 },
        gun_works_target: 1,
        opening_riflemen: 3,
        support_barracks_target: 2,
        max_chokes: 2,
        machine_gunner_target_chokes: 2,
        machine_gunners_per_choke: 2,
    });
    let mut memory = AiDecisionMemory::for_profile(&p);
    let mut barracks = production_building(9, EntityKind::Barracks, 1);
    barracks.production_kind = Some(EntityKind::Rifleman);
    let obs = observation(0, 0, vec![entity(1, EntityKind::Rifleman), barracks]);
    memory.sync_turtle_opening(&p, &obs);
    assert_eq!(memory.turtle_opening_riflemen_ordered, 2);
    memory.note_turtle_train(&p, EntityKind::Rifleman);
    memory.note_turtle_train(&p, EntityKind::Rifleman);
    assert_eq!(memory.turtle_opening_riflemen_ordered, 3);
    memory.note_turtle_train(&p, EntityKind::Tank);
    assert_eq!(memory.turtle_opening_riflemen_ordered, 3);
    memory.sync_turtle_opening(&profile(), &obs);
    assert_eq!(memory.turtle_opening_riflemen_ordered, 0);
    assert_eq!(unit_and_queue_count(&obs, EntityKind::Rifleman), 2);
}

#[test]
fn depot_sites_resume_only_after_damage_stops() {
    let mut memory = AiDecisionMemory::for_profile(&profile());
    let mut site = entity(40, EntityKind::ResourceDepot);
    site.is_complete = false;
    site.hp = 300;
    let mut obs = observation(0, 0, vec![site]);
    obs.tick = 100;
    memory.sync_incomplete_resource_depots(&obs);
    assert!(!memory.resource_depot_is_safe_to_resume(40, 150, 20));
    assert!(memory.resource_depot_is_safe_to_resume(40, 160, 20));
    obs.tick = 200;
    obs.owned[0].hp = 250;
    memory.sync_incomplete_resource_depots(&obs);
    assert!(!memory.resource_depot_is_safe_to_resume(40, 250, 20));
    obs.tick = 210;
    obs.owned[0].hp = 280;
    memory.sync_incomplete_resource_depots(&obs);
    assert!(memory.resource_depot_is_safe_to_resume(40, 260, 20));
    obs.owned[0].is_complete = true;
    memory.sync_incomplete_resource_depots(&obs);
    assert!(!memory.resource_depot_is_safe_to_resume(40, 10_000, 20));
}

#[test]
fn breakthrough_roster_release_rules() {
    let mut memory = AiDecisionMemory::for_profile(&profile());
    let mut obs = observation(0, 0, vec![entity(1, EntityKind::Rifleman), entity(2, EntityKind::Rifleman)]);
    assert!(memory.jeff_breakthrough_should_release(&obs, 20));
    memory.note_jeff_breakthrough_units(&[2, 1], 100);
    memory.note_jeff_breakthrough_units(&[3, 2], 100);
    assert_eq!(memory.jeff_breakthrough_units, vec![1, 2, 3]);
    memory.retain_live_jeff_breakthrough_units(&obs);
    assert_eq!(memory.jeff_breakthrough_units, vec![1, 2]);
    obs.tick = 150;
    assert!(!memory.jeff_breakthrough_should_release(&obs, 20));
    obs.tick = 160;
    assert!(memory.jeff_breakthrough_should_release(&obs, 20));
    obs.owned[0].state = EntityState::Attack;
    assert!(!memory.jeff_breakthrough_should_release(&obs, 20));
    obs.tick = 701;
    assert!(memory.jeff_breakthrough_should_release(&obs, 20));
    memory.clear_jeff_breakthrough_units();
    assert!(memory.jeff_breakthrough_units.is_empty());
    assert_eq!(memory.jeff_breakthrough_last_tick, None);
}

#[test]
fn switching_profiles_starts_the_memory_afresh() {
    let p = profile();
    let mut memory = AiDecisionMemory::for_profile(&p);
    memory.defensive_panic(Some(DefensivePanicResponse::SupportMix), 5);
    memory.note_jeff_breakthrough_units(&[4], 5);
    memory.ensure_profile(&p);
    assert_eq!(memory.panic.last_tick, Some(5));
    let mut q = profile();
    q.id = ProfileId::Other(1);
    q.attack.first_attack_size = 4;
    memory.ensure_profile(&q);
    assert_eq!(memory.profile_id, Some(ProfileId::Other(1)));
    assert_eq!(memory.panic.last_tick, None);
    assert!(memory.jeff_breakthrough_units.is_empty());
    assert_eq!(memory.attack.next_size, 4);
}

#[test]
fn harassment_plan_needs_scout_cars_units_and_a_reason() {
    let mut p = profile();
    let none: HarassmentPlan<(f32, f32)> =
        plan_scout_car_harassment(&p, vec![1, 2], Some(9), Some((1.0, 2.0)), true);
    assert!(none.reserved_units.is_empty());
    assert!(!none.should_issue());
    p.harassment = Some(HarassmentPolicy {
        unit_kind: EntityKind::ScoutCar,
        group_size: 2,
    });
    let threat = plan_scout_car_harassment(&p, vec![1, 2], Some(9), None::<(f32, f32)>, false);
    assert!(threat.should_issue());
    let idle = plan_scout_car_harassment(&p, vec![1], None, Some((5.0, 5.0)), false);
    assert!(!idle.should_issue());
    let due = plan_scout_car_harassment(&p, vec![1], None, Some((5.0, 5.0)), true);
    assert!(due.should_issue());
    assert_eq!(due.move_target, Some((5.0, 5.0)));
    let empty = plan_scout_car_harassment(&p, Vec::new(), Some(9), Some((5.0, 5.0)), true);
    assert!(!empty.should_issue());
    assert_eq!(empty.visible_threat, None);
    p.harassment = Some(HarassmentPolicy {
        unit_kind: EntityKind::Rifleman,
        group_size: 2,
    });
    assert!(!plan_scout_car_harassment(&p, vec![1], Some(9), None::<(f32, f32)>, true).should_issue());
    let inactive: HarassmentPlan<u8> = HarassmentPlan::inactive();
    assert!(!inactive.should_issue());
}

// ---------------------------------------------------------------- unit priorities

fn turtle_policy() -> TurtleDefensePolicy {
    TurtleDefensePolicy {
        gun_works_resource_float: ResourceFloat { steel: 0, oil: 0 },
        gun_works_target: 1,
        opening_riflemen: 3,
        support_barracks_target: 3,
        max_chokes: 2,
        machine_gunner_target_chokes: 2,
        machine_gunners_per_choke: 2,
    }
}

#[test]
fn tanks_wait_for_the_stimulant_research_without_a_fast_timing() {
    let priorities = [EntityKind::Tank, EntityKind::Rifleman, EntityKind::Tank];
    let p = profile();
    assert_eq!(
        effective_unit_priorities_for_upgrades(&p, &priorities, &Vec::new()),
        vec![EntityKind::Rifleman]
    );
    assert_eq!(
        effective_unit_priorities_for_upgrades(&p, &priorities, &vec![UpgradeKind::Methamphetamines]),
        priorities.to_vec()
    );
    let mut fast = profile();
    fast.fast_tank_timing = Some(FastTankTimingPolicy {
        tanks_before_scout_car: 2,
        scout_car_target: 1,
    });
    assert_eq!(
        effective_unit_priorities_for_upgrades(&fast, &priorities, &Vec::new()),
        priorities.to_vec()
    );
    assert!(methamphetamines_ready(&fast, &[EntityKind::Tank], &Vec::new()));
    assert!(!methamphetamines_ready(&p, &[EntityKind::Tank], &Vec::new()));
    assert!(methamphetamines_ready(&p, &[EntityKind::Rifleman], &Vec::new()));
}

#[test]
fn fast_timing_puts_scout_cars_first_once_tanks_are_out() {
    let mut p = profile();
    p.fast_tank_timing = Some(FastTankTimingPolicy {
        tanks_before_scout_car: 2,
        scout_car_target: 1,
    });
    let priorities = [EntityKind::Tank, EntityKind::Rifleman, EntityKind::ScoutCar];
    let early = facts_with(&[(EntityKind::Tank, 1, 0, 0)]);
    assert_eq!(
        effective_unit_priorities_for_fast_tank_timing(&p, &early, &priorities),
        vec![EntityKind::Tank, EntityKind::Rifleman]
    );
    let later = facts_with(&[(EntityKind::Tank, 2, 0, 0)]);
    assert_eq!(
        effective_unit_priorities_for_fast_tank_timing(&p, &later, &priorities),
        vec![EntityKind::ScoutCar, EntityKind::Tank, EntityKind::Rifleman]
    );
    let enough = facts_with(&[(EntityKind::Tank, 2, 0, 0), (EntityKind::ScoutCar, 1, 0, 0)]);
    assert_eq!(
        effective_unit_priorities_for_fast_tank_timing(&p, &enough, &priorities),
        priorities.to_vec()
    );
}

#[test]
fn turtle_priorities_follow_the_opening_and_entrenchment() {
    let mut p = profile();
    p.turtle_defense = Some(turtle_policy());
    let priorities = [
        EntityKind::Rifleman,
        EntityKind::MachineGunner,
        EntityKind::AntiTankGun,
        EntityKind::Tank,
    ];
    let mut memory = AiDecisionMemory::for_profile(&p);
    let mut facts = facts_with(&[]);
    assert_eq!(
        effective_unit_priorities_for_turtle(&p, &memory, &facts, false, &priorities),
        vec![EntityKind::Rifleman, EntityKind::Tank]
    );
    memory.turtle_opening_riflemen_ordered = 3;
    assert_eq!(
        effective_unit_priorities_for_turtle(&p, &memory, &facts, false, &priorities),
        vec![EntityKind::Tank]
    );
    memory.pending_upgrades.push(UpgradeKind::Entrenchment);
    assert!(turtle_entrenchment_started_or_done(&memory, &facts));
    assert_eq!(
        effective_unit_priorities_for_turtle(&p, &memory, &facts, false, &priorities),
        vec![EntityKind::MachineGunner, EntityKind::AntiTankGun, EntityKind::Tank]
    );
    assert_eq!(
        effective_unit_priorities_for_turtle(&p, &memory, &facts, true, &priorities),
        vec![EntityKind::AntiTankGun, EntityKind::Tank]
    );
    assert!(turtle_should_delay_tech_for_entrenchment(&p, &memory, &facts, EntityKind::Factory));
    facts.set_counts(EntityKind::TrainingCentre, 0, 1, 1);
    assert!(!turtle_should_delay_tech_for_entrenchment(&p, &memory, &facts, EntityKind::Factory));
    assert!(!turtle_should_delay_tech_for_entrenchment(&p, &memory, &facts, EntityKind::Barracks));
    assert_eq!(turtle_barracks_target(&p, &facts, 1), 3);
    assert_eq!(turtle_barracks_target(&p, &facts, 5), 5);
    assert_eq!(turtle_barracks_target(&p, &facts_with(&[]), 5), 1);
    assert_eq!(turtle_barracks_target(&profile(), &facts, 5), 5);
    assert!(!turtle_opening_pending(&p, &memory));
}

#[test]
fn defensive_machine_gunners_slot_in_after_the_first_tank() {
    let mut p = profile();
    p.defensive_machine_gunners = Some(DefensiveMachineGunnerPolicy {
        target_count: 2,
        replacement_health_percent: None,
    });
    let with_centre = facts_with(&[(EntityKind::TrainingCentre, 0, 1, 1)]);
    assert_eq!(
        effective_unit_priorities_for_defensive_machine_gunners(
            &p,
            &with_centre,
            &[EntityKind::Rifleman, EntityKind::Tank, EntityKind::Tank]
        ),
        vec![
            EntityKind::Rifleman,
            EntityKind::Tank,
            EntityKind::MachineGunner,
            EntityKind::Tank
        ]
    );
    assert_eq!(
        effective_unit_priorities_for_defensive_machine_gunners(&p, &with_centre, &[EntityKind::Rifleman]),
        vec![EntityKind::MachineGunner, EntityKind::Rifleman]
    );
    assert_eq!(
        effective_unit_priorities_for_defensive_machine_gunners(&p, &facts_with(&[]), &[EntityKind::Rifleman]),
        vec![EntityKind::Rifleman]
    );
}

#[test]
fn production_caps_and_oil_demand() {
    let mut p = profile();
    p.defensive_machine_gunners = Some(DefensiveMachineGunnerPolicy {
        target_count: 2,
        replacement_health_percent: None,
    });
    p.turtle_defense = Some(turtle_policy());
    p.fast_tank_timing = Some(FastTankTimingPolicy {
        tanks_before_scout_car: 2,
        scout_car_target: 1,
    });
    p.home_anti_tank = Some(HomeAntiTankPolicy { target_guns: 4 });
    assert_eq!(
        production_max_counts(&p, Some(1)),
        vec![
            (EntityKind::MachineGunner, 2),
            (EntityKind::Rifleman, 3),
            (EntityKind::MachineGunner, 2),
            (EntityKind::ScoutCar, 1),
            (EntityKind::AntiTankGun, 4)
        ]
    );
    assert_eq!(production_max_counts(&p, None)[2], (EntityKind::MachineGunner, 4));
    assert!(production_max_counts(&profile(), None).is_empty());

    let memory = AiDecisionMemory::for_profile(&p);
    assert!(turtle_opening_pending(&p, &memory));
    assert_eq!(oil_demand_signal(&p, &memory, None), OilDemandSignal::ExactWorkers(1));
    let plain = profile();
    let plain_memory = AiDecisionMemory::for_profile(&plain);
    assert_eq!(oil_demand_signal(&plain, &plain_memory, None), OilDemandSignal::ProfileDefault);
    let plan = defensive_panic_plan(DefensivePanicResponse::Riflemen, &facts_with(&[]));
    assert_eq!(
        oil_demand_signal(&plain, &plain_memory, Some(plan)),
        OilDemandSignal::ExactWorkers(0)
    );
}

#[test]
fn interceptors_leave_entrenched_units_and_stop_at_twice_the_threat() {
    let owned = vec![
        entity(1, EntityKind::Rifleman),
        entity(2, EntityKind::Rifleman),
        entity(3, EntityKind::Tank),
        entity(4, EntityKind::Rifleman),
    ];
    let candidates = vec![
        InterceptorCandidate { id: 3, entrenchment_key: 5, distance_key: 1 },
        InterceptorCandidate { id: 2, entrenchment_key: 0, distance_key: 9 },
        InterceptorCandidate { id: 1, entrenchment_key: 0, distance_key: 4 },
        InterceptorCandidate { id: 1, entrenchment_key: 0, distance_key: 4 },
        InterceptorCandidate { id: 8, entrenchment_key: 0, distance_key: 0 },
        InterceptorCandidate { id: 4, entrenchment_key: 0, distance_key: 9 },
    ];
    // Riflemen are worth 50 each: a threat of 50 needs 100.
    assert_eq!(select_defensive_interceptors(&owned, &costs(), &candidates, 50), vec![1, 2]);
    assert_eq!(select_defensive_interceptors(&owned, &costs(), &candidates, 0), vec![1]);
    assert_eq!(
        select_defensive_interceptors(&owned, &costs(), &candidates, 1000),
        vec![1, 2, 4, 3]
    );
}

#[test]
fn home_tank_stays_until_lost_then_the_nearest_eligible_tank_takes_over() {
    let mut p = profile();
    let mut memory = AiDecisionMemory::for_profile(&p);
    let owned = vec![
        entity(1, EntityKind::Tank),
        entity(2, EntityKind::Tank),
        entity(3, EntityKind::Tank),
        entity(4, EntityKind::Rifleman),
    ];
    let keys = vec![50, 10, 10, 0];
    memory.containment.wave_launched = true;
    memory.sync_home_defensive_tank(&owned, &keys, &p);
    assert_eq!(memory.containment.home_defensive_tank, None);
    p.home_anti_tank = Some(HomeAntiTankPolicy { target_guns: 1 });
    memory.containment.opening_tanks = vec![2];
    memory.sync_home_defensive_tank(&owned, &keys, &p);
    assert_eq!(memory.containment.home_defensive_tank, Some(3));
    assert!(memory.containment.home_defensive_tank_assigned_once);
    memory.sync_home_defensive_tank(&owned, &vec![0, 0, 99, 0], &p);
    assert_eq!(memory.containment.home_defensive_tank, Some(3));
    let without_three = vec![owned[0], owned[1], owned[3]];
    memory.sync_home_defensive_tank(&without_three, &vec![50, 10, 0], &p);
    assert_eq!(memory.containment.home_defensive_tank, Some(2));
    memory.containment.wave_launched = false;
    memory.sync_home_defensive_tank(&without_three, &vec![50, 10, 0], &p);
    assert_eq!(memory.containment.home_defensive_tank, None);
}

#[test]
fn surplus_tank_is_the_lowest_free_tank_outside_the_push() {
    let p = profile();
    let mut memory = AiDecisionMemory::for_profile(&p);
    let free = |id: u32| {
        let mut e = entity(id, EntityKind::Tank);
        e.free_for_combat = true;
        e
    };
    let owned = vec![free(9), free(4), free(6), free(2)];
    memory.containment.home_defensive_tank = Some(2);
    memory.containment.active_tanks = vec![4];
    assert_eq!(surplus_tank_for_forward_base(&owned, &memory), Some(6));
    memory.containment.opening_tanks = vec![6];
    assert_eq!(surplus_tank_for_forward_base(&owned, &memory), Some(9));
    assert!(containment_wave_needs_control(&memory));
    memory.containment.recovery_active = true;
    assert_eq!(surplus_tank_for_forward_base(&owned, &memory), None);
    assert!(!containment_wave_needs_control(&AiDecisionMemory::for_profile(&p)));
}

#[test]
fn enemy_bases_count_as_destroyed_only_after_being_seen_and_checked() {
    let mut memory = AiDecisionMemory::for_profile(&profile());
    memory.update_enemy_main_state(&Vec::new(), true);
    assert!(!memory.containment.enemy_main_destroyed);
    memory.update_enemy_main_state(&vec![31, 12, 40], false);
    assert_eq!(memory.containment.enemy_main_resource_depot, Some(12));
    memory.containment.endgame_search_waypoint = 5;
    memory.containment.stationary_since = Some(70);
    memory.update_enemy_main_state(&Vec::new(), false);
    assert!(!memory.containment.enemy_main_destroyed);
    memory.update_enemy_main_state(&Vec::new(), true);
    assert!(memory.containment.enemy_main_destroyed);
    assert_eq!(memory.containment.endgame_search_waypoint, 0);
    assert_eq!(memory.containment.stationary_since, None);
    memory.update_enemy_main_state(&vec![1], false);
    assert_eq!(memory.containment.enemy_main_resource_depot, Some(12));

    memory.update_enemy_natural_state(&vec![8, 6], false);
    assert_eq!(memory.containment.enemy_natural_resource_depot, Some(6));
    memory.update_enemy_natural_state(&vec![5], true);
    assert!(!memory.containment.enemy_natural_destroyed);
    memory.update_enemy_natural_state(&Vec::new(), true);
    assert!(memory.containment.enemy_natural_destroyed);
}

#[test]
fn raid_resumes_moving_members_and_idle_ones_out_in_the_field() {
    let mut idle_free = entity(7, EntityKind::Rifleman);
    idle_free.free_for_combat = true;
    let mut idle_home = entity(3, EntityKind::Rifleman);
    idle_home.free_for_combat = true;
    let owned = vec![
        at(entity(9, EntityKind::Rifleman), EntityState::Move),
        idle_free,
        idle_home,
        at(entity(5, EntityKind::Rifleman), EntityState::Attack),
        at(entity(4, EntityKind::Rifleman), EntityState::Gather),
        at(entity(11, EntityKind::Rifleman), EntityState::Move),
    ];
    let far = vec![false, true, false, false, true, true];
    assert_eq!(
        rifle_raid_units_to_resume(&owned, &far, &vec![9, 7, 3, 5, 4]),
        vec![5, 7, 9]
    );
}

#[test]
fn expansion_build_attempt_times_out_and_rejects_the_site() {
    let hz = 20;
    let mut security = ExpansionSecurity::new();
    security.site = Some((40, 12));
    security.riflemen = vec![3, 4];
    security.secure_since = Some(50);
    security.note_build_attempt(100, 9);
    security.settle_build_attempt(159, 1, hz);
    assert_eq!(security.site, Some((40, 12)));
    assert_eq!(security.build_attempt_tick, Some(100));
    security.settle_build_attempt(160, 1, hz);
    assert_eq!(security.site, None);
    assert!(security.riflemen.is_empty());
    assert_eq!(security.secure_since, None);
    assert_eq!(security.build_attempt_tick, None);
    assert_eq!(security.build_attempt_worker, None);
    assert_eq!(security.retry_builder(), Some(9));
    assert_eq!(security.rejected_sites, vec![(40, 12)]);

    security.site = Some((40, 12));
    security.note_build_attempt(200, 5);
    security.settle_build_attempt(400, 1, hz);
    assert_eq!(security.rejected_sites, vec![(40, 12)]);
    assert_eq!(security.retry_builder(), Some(5));
}

#[test]
fn expansion_depot_settles_the_attempt_and_keeps_the_nearest_guards() {
    let mut security = ExpansionSecurity::new();
    security.site = Some((40, 12));
    security.riflemen = vec![8, 3, 5, 6];
    security.note_build_attempt(100, 9);
    security.settle_build_attempt(1000, 2, 20);
    assert_eq!(security.build_attempt_tick, None);
    assert_eq!(security.build_attempt_worker, None);
    assert_eq!(security.retry_builder(), None);
    assert_eq!(security.site, Some((40, 12)));
    assert!(security.rejected_sites.is_empty());
    security.keep_nearest_guards(&vec![30, 70, 10, 30]);
    assert_eq!(security.riflemen, vec![5, 6]);
    security.keep_nearest_guards(&vec![1, 1]);
    assert_eq!(security.riflemen, vec![5, 6]);
}

#[test]
fn expansion_site_watch_resets_on_contact() {
    let mut security = ExpansionSecurity::new();
    assert!(!security.watch_site(100, true, false, 20));
    assert_eq!(security.secure_since, Some(100));
    assert!(!security.watch_site(159, true, false, 20));
    assert!(security.watch_site(160, true, false, 20));
    assert_eq!(security.secure_since, Some(100));
    assert!(!security.watch_site(170, true, true, 20));
    assert_eq!(security.secure_since, None);
    assert!(!security.watch_site(180, false, false, 20));
    assert_eq!(security.secure_since, None);
}

#[test]
fn escort_progress_needs_more_than_a_quarter_tile() {
    let (first, stalled) = escort_progress(None, 5000, 100, 20);
    assert_eq!(first, EscortProgress { best_distance_milli_tiles: 5000, last_progress_tick: 100 });
    assert!(!stalled);
    let (same, stalled) = escort_progress(Some(first), 4750, 250, 20);
    assert_eq!(same, first);
    assert!(!stalled);
    let (_, stalled) = escort_progress(Some(first), 4750, 300, 20);
    assert!(stalled);
    let (closer, stalled) = escort_progress(Some(first), 4749, 300, 20);
    assert_eq!(closer, EscortProgress { best_distance_milli_tiles: 4749, last_progress_tick: 300 });
    assert!(!stalled);
}

#[test]
fn escort_party_recruits_beyond_the_home_reserve_nearest_first() {
    let mut security = ExpansionSecurity::new();
    security.site = Some((40, 12));
    security.riflemen = vec![9, 30];
    security.slots = vec![(9, 2), (30, 0)];
    security.progress = vec![(30, EscortProgress { best_distance_milli_tiles: 900, last_progress_tick: 5 })];
    security.retry_after = vec![(7, 150), (8, 90)];
    // 30 is gone; 1..4 stay home; 7 still waits; 8's wait ran out.
    let rifles = vec![6, 2, 9, 1, 8, 3, 4, 5, 7];
    let keys = vec![50, 0, 0, 0, 10, 0, 0, 20, 1];
    security.recruit_party(100, &rifles, &keys);
    assert_eq!(security.riflemen, vec![9, 8, 5, 6]);
    assert_eq!(security.retry_after, vec![(7, 150)]);
    assert!(security.progress.is_empty());
    let mut slots = security.slots.clone();
    slots.sort();
    assert_eq!(slots, vec![(5, 1), (6, 3), (8, 0), (9, 2)]);
}

#[test]
fn escort_party_drops_stalled_escorts_for_the_retry_time() {
    let mut security = ExpansionSecurity::new();
    security.riflemen = vec![5, 6, 7];
    security.slots = vec![(5, 0), (6, 1), (7, 2)];
    security.progress = vec![(6, EscortProgress { best_distance_milli_tiles: 400, last_progress_tick: 1 })];
    security.drop_stalled(100, &vec![6], 20);
    assert_eq!(security.riflemen, vec![5, 7]);
    assert_eq!(security.slots, vec![(5, 0), (7, 2)]);
    assert!(security.progress.is_empty());
    assert_eq!(security.retry_after, vec![(6, 300)]);
    security.drop_stalled(u32::MAX - 5, &vec![5], 20);
    assert_eq!(security.retry_after, vec![(6, 300), (5, u32::MAX)]);
    assert_eq!(security.riflemen, vec![7]);
}

#[test]
fn escort_progress_records_and_a_blocked_site_resets() {
    let mut security = ExpansionSecurity::new();
    security.riflemen = vec![5];
    assert!(!security.note_escort(5, false, 5000, 100, 20));
    assert_eq!(
        security.progress,
        vec![(5, EscortProgress { best_distance_milli_tiles: 5000, last_progress_tick: 100 })]
    );
    assert!(security.note_escort(5, false, 4900, 300, 20));
    assert!(!security.note_escort(5, true, 4900, 300, 20));
    assert!(security.progress.is_empty());

    security.site = Some((1, 2));
    security.rejected_sites = vec![(3, 4)];
    security.slots = vec![(5, 0)];
    security.retry_after = vec![(6, 10)];
    security.reset_blocked_site(false);
    assert_eq!(security.site, Some((1, 2)));
    security.reset_blocked_site(true);
    assert_eq!(security.site, None);
    assert!(security.riflemen.is_empty() && security.slots.is_empty());
    assert!(security.retry_after.is_empty());
    assert_eq!(security.rejected_sites, vec![(3, 4)]);
    security.riflemen = vec![2, 4];
    assert_eq!(security.without_party(&vec![1, 2, 3, 4]), vec![1, 3]);
}

#[test]
fn frontal_wave_routes_follow_the_containment_then_the_attack() {
    assert!(containment_active(false, false, 1));
    assert!(!containment_active(false, false, 0));
    let plan = FrontalWavePlan {
        ready_units: vec![1, 2, 3, 4, 5],
        desired_size: 5,
        attack_due: true,
        required_unit_ready: true,
        methamphetamines_ready: true,
        blockers: vec![FrontalWaveBlocker::Staging],
    };
    let policy = ExpansionContainmentPolicy {
        recovery_tanks_to_continue: 3,
        additional_tanks_per_repush: 1,
        minimum_tanks_to_continue: 2,
    };
    assert!(relaxed_containment_start(false, &plan, policy));
    assert!(!relaxed_containment_start(true, &plan, policy));
    let tight = ExpansionContainmentPolicy { minimum_tanks_to_continue: 3, ..policy };
    assert!(!relaxed_containment_start(false, &plan, tight));

    let base = WaveSituation {
        has_containment_policy: true,
        cohesive_containment: true,
        recall_target: true,
        recall_active: true,
        containment_active: false,
        relaxed_start: true,
        should_attack: false,
        should_stage: true,
        line_staging: true,
    };
    let routes = wave_routes(base);
    assert_eq!(
        routes.routes,
        vec![WaveRoute::Recall, WaveRoute::CohesiveContainment, WaveRoute::StageLine]
    );
    assert!(!routes.clear_recall);
    let routes = wave_routes(WaveSituation { recall_target: false, relaxed_start: false, ..base });
    assert_eq!(routes.routes, vec![WaveRoute::StageLine]);
    assert!(routes.clear_recall);
    let routes = wave_routes(WaveSituation {
        cohesive_containment: false,
        should_attack: true,
        ..base
    });
    assert_eq!(routes.routes, vec![WaveRoute::LegacyContainment, WaveRoute::Attack]);
    assert!(!routes.clear_recall);
    let routes = wave_routes(WaveSituation {
        has_containment_policy: false,
        should_stage: false,
        ..base
    });
    assert!(routes.routes.is_empty());
    let routes = wave_routes(WaveSituation {
        has_containment_policy: false,
        line_staging: false,
        ..base
    });
    assert_eq!(routes.routes, vec![WaveRoute::StageTowardBase]);
}
