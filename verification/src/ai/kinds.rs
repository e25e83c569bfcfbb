//! Entity kinds of the game and the target rankings the opponent uses.
use vstd::prelude::*;

verus! {

/// Every kind of entity the opponent observes: units, buildings and resource nodes.
#[derive(Clone, Copy, PartialEq, Eq, Structural, Debug)]
pub enum EntityKind {
    Worker,
    Rifleman,
    MachineGunner,
    AntiTankGun,
    Panzerfaust,
    MortarTeam,
    Artillery,
    ScoutCar,
    Tank,
    CityCentre,
    ResourceDepot,
    Depot,
    Barracks,
    Factory,
    Steelworks,
    TrainingCentre,
    ResearchComplex,
    EngineeringComplex,
    PumpJack,
    Steel,
    Oil,
}

/// Number of entity kinds.
pub const KIND_COUNT: usize = 21;

/// The position of a kind in declaration order, used to index per-kind tables.
pub open spec fn kind_index_spec(kind: EntityKind) -> int {
    match kind {
        EntityKind::Worker => 0,
        EntityKind::Rifleman => 1,
        EntityKind::MachineGunner => 2,
        EntityKind::AntiTankGun => 3,
        EntityKind::Panzerfaust => 4,
        EntityKind::MortarTeam => 5,
        EntityKind::Artillery => 6,
        EntityKind::ScoutCar => 7,
        EntityKind::Tank => 8,
        EntityKind::CityCentre => 9,
        EntityKind::ResourceDepot => 10,
        EntityKind::Depot => 11,
        EntityKind::Barracks => 12,
        EntityKind::Factory => 13,
        EntityKind::Steelworks => 14,
        EntityKind::TrainingCentre => 15,
        EntityKind::ResearchComplex => 16,
        EntityKind::EngineeringComplex => 17,
        EntityKind::PumpJack => 18,
        EntityKind::Steel => 19,
        EntityKind::Oil => 20,
    }
}

pub fn kind_index(kind: EntityKind) -> (r: usize)
    ensures
        r == kind_index_spec(kind),
        r < KIND_COUNT,
{
    match kind {
        EntityKind::Worker => 0,
        EntityKind::Rifleman => 1,
        EntityKind::MachineGunner => 2,
        EntityKind::AntiTankGun => 3,
        EntityKind::Panzerfaust => 4,
        EntityKind::MortarTeam => 5,
        EntityKind::Artillery => 6,
        EntityKind::ScoutCar => 7,
        EntityKind::Tank => 8,
        EntityKind::CityCentre => 9,
        EntityKind::ResourceDepot => 10,
        EntityKind::Depot => 11,
        EntityKind::Barracks => 12,
        EntityKind::Factory => 13,
        EntityKind::Steelworks => 14,
        EntityKind::TrainingCentre => 15,
        EntityKind::ResearchComplex => 16,
        EntityKind::EngineeringComplex => 17,
        EntityKind::PumpJack => 18,
        EntityKind::Steel => 19,
        EntityKind::Oil => 20,
    }
}

/// Different kinds have different table positions.
pub proof fn law_kind_index_is_injective(a: EntityKind, b: EntityKind)
    ensures
        kind_index_spec(a) == kind_index_spec(b) <==> a == b,
        0 <= kind_index_spec(a) < KIND_COUNT,
{
}

/// Units: everything that moves and fights or works.
pub open spec fn is_unit_spec(kind: EntityKind) -> bool {
    kind_index_spec(kind) <= 8
}

/// Buildings: everything that is constructed on a footprint.
pub open spec fn is_building_spec(kind: EntityKind) -> bool {
    9 <= kind_index_spec(kind) <= 18
}

impl EntityKind {
    pub fn is_unit(self) -> (r: bool)
        ensures
            r == is_unit_spec(self),
    {
        kind_index(self) <= 8
    }

    pub fn is_building(self) -> (r: bool)
        ensures
            r == is_building_spec(self),
    {
        let i = kind_index(self);
        9 <= i && i <= 18
    }
}

/// Rank of an enemy for a rifle raid: workers first, then infantry guns, then tanks.
pub open spec fn rifle_raid_unit_priority_spec(kind: EntityKind) -> u8 {
    match kind {
        EntityKind::Worker => 0,
        EntityKind::Rifleman | EntityKind::MachineGunner | EntityKind::AntiTankGun => 1,
        EntityKind::Tank => 2,
        _ => 3,
    }
}

pub fn rifle_raid_unit_priority(kind: EntityKind) -> (r: u8)
    ensures
        r == rifle_raid_unit_priority_spec(kind),
{
    match kind {
        EntityKind::Worker => 0,
        EntityKind::Rifleman | EntityKind::MachineGunner | EntityKind::AntiTankGun => 1,
        EntityKind::Tank => 2,
        _ => 3,
    }
}

/// Rank of a threat to a scout-car harassment group: tanks, then anti-armour and machine
/// guns, then light units.
pub open spec fn harassment_threat_priority_spec(kind: EntityKind) -> u8 {
    match kind {
        EntityKind::Tank => 0,
        EntityKind::AntiTankGun | EntityKind::MachineGunner => 1,
        EntityKind::ScoutCar | EntityKind::Rifleman => 2,
        _ => 3,
    }
}

pub fn harassment_threat_priority(kind: EntityKind) -> (r: u8)
    ensures
        r == harassment_threat_priority_spec(kind),
{
    match kind {
        EntityKind::Tank => 0,
        EntityKind::AntiTankGun | EntityKind::MachineGunner => 1,
        EntityKind::ScoutCar | EntityKind::Rifleman => 2,
        _ => 3,
    }
}

/// Rank of a target for tanks that fire while standing still.
pub open spec fn stationary_tank_target_priority_spec(kind: EntityKind) -> u8 {
    match kind {
        EntityKind::AntiTankGun => 0,
        EntityKind::Tank => 1,
        EntityKind::Panzerfaust => 2,
        EntityKind::Artillery | EntityKind::MortarTeam => 3,
        EntityKind::MachineGunner => 4,
        EntityKind::ScoutCar | EntityKind::Rifleman => 5,
        _ => 6,
    }
}

pub fn stationary_tank_target_priority(kind: EntityKind) -> (r: u8)
    ensures
        r == stationary_tank_target_priority_spec(kind),
{
    match kind {
        EntityKind::AntiTankGun => 0,
        EntityKind::Tank => 1,
        EntityKind::Panzerfaust => 2,
        EntityKind::Artillery | EntityKind::MortarTeam => 3,
        EntityKind::MachineGunner => 4,
        EntityKind::ScoutCar | EntityKind::Rifleman => 5,
        _ => 6,
    }
}

/// Rank of a target for an outbound attack wave: anti-armour threats before artillery,
/// artillery before other combat units, everything else last.
pub open spec fn outbound_wave_target_priority_spec(kind: EntityKind) -> u8 {
    match kind {
        EntityKind::Tank | EntityKind::AntiTankGun | EntityKind::Panzerfaust => 0,
        EntityKind::Artillery | EntityKind::MortarTeam => 1,
        EntityKind::MachineGunner | EntityKind::Rifleman | EntityKind::ScoutCar => 2,
        _ => 3,
    }
}

pub fn outbound_wave_target_priority(kind: EntityKind) -> (r: u8)
    ensures
        r == outbound_wave_target_priority_spec(kind),
{
    match kind {
        EntityKind::Tank | EntityKind::AntiTankGun | EntityKind::Panzerfaust => 0,
        EntityKind::Artillery | EntityKind::MortarTeam => 1,
        EntityKind::MachineGunner | EntityKind::Rifleman | EntityKind::ScoutCar => 2,
        _ => 3,
    }
}

/// For an outbound wave, anti-armour threats rank strictly before every target that is not
/// one (economic targets, buildings and other units alike).
pub proof fn law_anti_armor_threats_outrank_everything_else(threat: EntityKind, other: EntityKind)
    requires
        threat == EntityKind::Tank || threat == EntityKind::AntiTankGun || threat
            == EntityKind::Panzerfaust,
        !(other == EntityKind::Tank || other == EntityKind::AntiTankGun || other
            == EntityKind::Panzerfaust),
    ensures
        outbound_wave_target_priority_spec(threat) < outbound_wave_target_priority_spec(other),
{
}

} // verus!
