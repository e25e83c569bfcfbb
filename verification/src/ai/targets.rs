//! Choice of one enemy to attack: the best-ranked eligible contact, nearest first within a
//! rank, lowest id on a tie.
use crate::ai::kinds::{
    harassment_threat_priority, harassment_threat_priority_spec, is_building_spec, is_unit_spec,
    outbound_wave_target_priority, outbound_wave_target_priority_spec, rifle_raid_unit_priority,
    rifle_raid_unit_priority_spec, EntityKind,
};
use crate::ai::ids::contains_id;
use vstd::prelude::*;

verus! {

/// A visible enemy as the target choice sees it. `distance_key` orders contacts by their
/// distance from the acting group (a larger key is farther); `in_local_area` says whether
/// the contact is inside the home defence area.
#[derive(Clone, Copy)]
pub struct EnemyContact {
    pub id: u32,
    pub kind: EntityKind,
    pub distance_key: u32,
    pub in_local_area: bool,
}

/// The rule by which contacts are filtered and ranked.
#[derive(Clone, Copy, PartialEq, Eq, Structural)]
pub enum TargetRule {
    /// Rifle raid: any enemy unit not yet excluded; workers first.
    RifleRaid,
    /// Scout-car harassment: combat units within the threat radius; tanks first.
    Harassment,
    /// Outbound attack wave: combat units within the wave radius; anti-armour first.
    OutboundWave,
    /// Home defence: units and buildings inside the home defence area; nearest first.
    LocalDefense,
    /// Rifle raid with no unit left to fight: buildings not yet excluded; nearest first.
    RaidBuildingFallback,
}

pub open spec fn rule_priority(rule: TargetRule, kind: EntityKind) -> u8 {
    match rule {
        TargetRule::RifleRaid => rifle_raid_unit_priority_spec(kind),
        TargetRule::Harassment => harassment_threat_priority_spec(kind),
        TargetRule::OutboundWave => outbound_wave_target_priority_spec(kind),
        TargetRule::LocalDefense | TargetRule::RaidBuildingFallback => 0,
    }
}

pub open spec fn rule_eligible(
    rule: TargetRule,
    c: EnemyContact,
    excluded: Seq<u32>,
    max_distance_key: u32,
) -> bool {
    match rule {
        TargetRule::RifleRaid => is_unit_spec(c.kind) && !excluded.contains(c.id),
        TargetRule::Harassment | TargetRule::OutboundWave => is_unit_spec(c.kind) && c.kind
            != EntityKind::Worker && c.distance_key <= max_distance_key,
        TargetRule::LocalDefense => (is_unit_spec(c.kind) || is_building_spec(c.kind))
            && c.in_local_area,
        TargetRule::RaidBuildingFallback => is_building_spec(c.kind) && !excluded.contains(c.id),
    }
}

/// Contact `a` ranks before contact `b`: by priority, then distance, then id.
pub open spec fn ranks_before(rule: TargetRule, a: EnemyContact, b: EnemyContact) -> bool {
    let pa = rule_priority(rule, a.kind);
    let pb = rule_priority(rule, b.kind);
    ||| pa < pb
    ||| pa == pb && a.distance_key < b.distance_key
    ||| pa == pb && a.distance_key == b.distance_key && a.id < b.id
}

/// `target` is the id of an eligible contact that no eligible contact ranks before, or
/// `None` exactly when no contact is eligible.
pub open spec fn is_best_target(
    rule: TargetRule,
    contacts: Seq<EnemyContact>,
    excluded: Seq<u32>,
    max_distance_key: u32,
    target: Option<u32>,
) -> bool {
    match target {
        Some(id) => exists|i: int|
            #![trigger contacts[i]]
            0 <= i < contacts.len() && contacts[i].id == id && rule_eligible(
                rule,
                contacts[i],
                excluded,
                max_distance_key,
            ) && forall|j: int|
                0 <= j < contacts.len() && rule_eligible(
                    rule,
                    #[trigger] contacts[j],
                    excluded,
                    max_distance_key,
                ) ==> !ranks_before(rule, contacts[j], contacts[i]),
        None => forall|i: int|
            0 <= i < contacts.len() ==> !rule_eligible(
                rule,
                #[trigger] contacts[i],
                excluded,
                max_distance_key,
            ),
    }
}

fn priority_of(rule: TargetRule, kind: EntityKind) -> (r: u8)
    ensures
        r == rule_priority(rule, kind),
{
    match rule {
        TargetRule::RifleRaid => rifle_raid_unit_priority(kind),
        TargetRule::Harassment => harassment_threat_priority(kind),
        TargetRule::OutboundWave => outbound_wave_target_priority(kind),
        TargetRule::LocalDefense | TargetRule::RaidBuildingFallback => 0,
    }
}

fn eligible(rule: TargetRule, c: EnemyContact, excluded: &Vec<u32>, max_distance_key: u32) -> (r:
    bool)
    ensures
        r == rule_eligible(rule, c, excluded@, max_distance_key),
{
    match rule {
        TargetRule::RifleRaid => c.kind.is_unit() && !contains_id(excluded, c.id),
        TargetRule::Harassment | TargetRule::OutboundWave => c.kind.is_unit() && c.kind
            != EntityKind::Worker && c.distance_key <= max_distance_key,
        TargetRule::LocalDefense => (c.kind.is_unit() || c.kind.is_building())
            && c.in_local_area,
        TargetRule::RaidBuildingFallback => c.kind.is_building() && !contains_id(excluded, c.id),
    }
}

fn before(rule: TargetRule, a: EnemyContact, b: EnemyContact) -> (r: bool)
    ensures
        r == ranks_before(rule, a, b),
{
    let pa = priority_of(rule, a.kind);
    let pb = priority_of(rule, b.kind);
    pa < pb || (pa == pb && a.distance_key < b.distance_key) || (pa == pb && a.distance_key
        == b.distance_key && a.id < b.id)
}

/// The best eligible contact under `rule`.
pub fn select_target(
    rule: TargetRule,
    contacts: &Vec<EnemyContact>,
    excluded: &Vec<u32>,
    max_distance_key: u32,
) -> (r: Option<u32>)
    ensures
        is_best_target(rule, contacts@, excluded@, max_distance_key, r),
{
    let mut best: Option<usize> = None;
    let mut i: usize = 0;
    while i < contacts.len()
        invariant
            i <= contacts.len(),
            match best {
                Some(b) => b < i && rule_eligible(rule, contacts@[b as int], excluded@, max_distance_key)
                    && forall|j: int|
                    0 <= j < i && rule_eligible(rule, #[trigger] contacts@[j], excluded@, max_distance_key)
                        ==> !ranks_before(rule, contacts@[j], contacts@[b as int]),
                None => forall|j: int|
                    0 <= j < i ==> !rule_eligible(rule, #[trigger] contacts@[j], excluded@, max_distance_key),
            },
        decreases contacts.len() - i,
    {
        let c = contacts[i];
        if eligible(rule, c, excluded, max_distance_key) {
            match best {
                None => {
                    best = Some(i);
                },
                Some(b) => {
                    if before(rule, c, contacts[b]) {
                        best = Some(i);
                    }
                },
            }
        }
        i = i + 1;
    }
    match best {
        Some(b) => {
            assert(contacts@[b as int].id == contacts[b as int].id);
            Some(contacts[b].id)
        },
        None => None,
    }
}

/// The enemy unit a rifle raid attacks, skipping targets already handled.
pub fn rifle_raid_unit_target(contacts: &Vec<EnemyContact>, excluded: &Vec<u32>) -> (r: Option<
    u32,
>)
    ensures
        is_best_target(TargetRule::RifleRaid, contacts@, excluded@, 0, r),
{
    select_target(TargetRule::RifleRaid, contacts, excluded, 0)
}

/// The threat a scout-car harassment group answers, within `radius_key` of the group.
pub fn visible_threat_for_harassment(contacts: &Vec<EnemyContact>, radius_key: u32) -> (r: Option<
    u32,
>)
    ensures
        is_best_target(TargetRule::Harassment, contacts@, Seq::empty(), radius_key, r),
{
    let none = Vec::new();
    select_target(TargetRule::Harassment, contacts, &none, radius_key)
}

/// The combat unit an attacking wave engages, within `radius_key` of the wave.
pub fn visible_combat_target_for_wave(contacts: &Vec<EnemyContact>, radius_key: u32) -> (r: Option<
    u32,
>)
    ensures
        is_best_target(TargetRule::OutboundWave, contacts@, Seq::empty(), radius_key, r),
{
    let none = Vec::new();
    select_target(TargetRule::OutboundWave, contacts, &none, radius_key)
}

/// The nearest enemy unit or building inside the home defence area.
pub fn local_defense_target(contacts: &Vec<EnemyContact>) -> (r: Option<u32>)
    ensures
        is_best_target(TargetRule::LocalDefense, contacts@, Seq::empty(), 0, r),
{
    let none = Vec::new();
    select_target(TargetRule::LocalDefense, contacts, &none, 0)
}

/// A rifle raid never passes over an eligible enemy worker for another kind of target.
pub proof fn law_rifle_raids_prefer_workers(
    contacts: Seq<EnemyContact>,
    excluded: Seq<u32>,
    target: Option<u32>,
    w: int,
)
    requires
        is_best_target(TargetRule::RifleRaid, contacts, excluded, 0, target),
        0 <= w < contacts.len(),
        contacts[w].kind == EntityKind::Worker,
        !excluded.contains(contacts[w].id),
    ensures
        target is Some,
        exists|i: int|
            0 <= i < contacts.len() && contacts[i].id == target->0 && contacts[i].kind
                == EntityKind::Worker,
{
    assert(rule_eligible(TargetRule::RifleRaid, contacts[w], excluded, 0));
    let id = target->0;
    let i = choose|i: int|
        #![trigger contacts[i]]
        0 <= i < contacts.len() && contacts[i].id == id && rule_eligible(
            TargetRule::RifleRaid,
            contacts[i],
            excluded,
            0,
        ) && forall|j: int|
            0 <= j < contacts.len() && rule_eligible(
                TargetRule::RifleRaid,
                #[trigger] contacts[j],
                excluded,
                0,
            ) ==> !ranks_before(TargetRule::RifleRaid, contacts[j], contacts[i]);
    assert(!ranks_before(TargetRule::RifleRaid, contacts[w], contacts[i]));
}

/// The chosen contact of a best target beats every eligible contact: none ranks before it.
proof fn lemma_best_target_beats(
    rule: TargetRule,
    contacts: Seq<EnemyContact>,
    excluded: Seq<u32>,
    max_distance_key: u32,
    target: Option<u32>,
    w: int,
) -> (i: int)
    requires
        is_best_target(rule, contacts, excluded, max_distance_key, target),
        0 <= w < contacts.len(),
        rule_eligible(rule, contacts[w], excluded, max_distance_key),
    ensures
        target is Some,
        0 <= i < contacts.len(),
        contacts[i].id == target->0,
        rule_eligible(rule, contacts[i], excluded, max_distance_key),
        !ranks_before(rule, contacts[w], contacts[i]),
{
    match target {
        Some(id) => {
            let i = choose|i: int|
                #![trigger contacts[i]]
                0 <= i < contacts.len() && contacts[i].id == id && rule_eligible(
                    rule,
                    contacts[i],
                    excluded,
                    max_distance_key,
                ) && forall|j: int|
                    0 <= j < contacts.len() && rule_eligible(
                        rule,
                        #[trigger] contacts[j],
                        excluded,
                        max_distance_key,
                    ) ==> !ranks_before(rule, contacts[j], contacts[i]);
            assert(!ranks_before(rule, contacts[w], contacts[i]));
            i
        },
        None => {
            assert(!rule_eligible(rule, contacts[w], excluded, max_distance_key));
            0
        },
    }
}

/// A chosen threat is at least as bad as `other` for a scout-car harassment group: a tank is
/// answered before anything else; an anti-tank gun or a machine gunner (alike) before any
/// rifleman or scout car (alike); and within one of these classes the nearer is answered.
pub open spec fn harassment_answers(chosen: EnemyContact, other: EnemyContact) -> bool {
    let k = chosen.kind;
    let o = other.kind;
    let nearer = chosen.distance_key <= other.distance_key;
    &&& o == EntityKind::Tank ==> k == EntityKind::Tank && nearer
    &&& (o == EntityKind::AntiTankGun || o == EntityKind::MachineGunner) ==> (k == EntityKind::Tank
        || ((k == EntityKind::AntiTankGun || k == EntityKind::MachineGunner) && nearer))
    &&& (o == EntityKind::ScoutCar || o == EntityKind::Rifleman) ==> (k == EntityKind::Tank || k
        == EntityKind::AntiTankGun || k == EntityKind::MachineGunner || ((k == EntityKind::ScoutCar
        || k == EntityKind::Rifleman) && nearer))
}

/// Scout-car harassment answers the worst threat in reach: whenever some combat unit is within
/// the radius, a threat is chosen, and it is at least as bad as every other one in reach (see
/// `harassment_answers`).
pub proof fn law_harassment_answers_the_worst_threat(
    contacts: Seq<EnemyContact>,
    radius_key: u32,
    target: Option<u32>,
    w: int,
)
    requires
        is_best_target(TargetRule::Harassment, contacts, Seq::empty(), radius_key, target),
        0 <= w < contacts.len(),
        is_unit_spec(contacts[w].kind),
        contacts[w].kind != EntityKind::Worker,
        contacts[w].distance_key <= radius_key,
    ensures
        target is Some,
        exists|i: int|
            0 <= i < contacts.len() && contacts[i].id == target->0 && contacts[i].distance_key
                <= radius_key && harassment_answers(#[trigger] contacts[i], contacts[w]),
{
    let i = lemma_best_target_beats(TargetRule::Harassment, contacts, Seq::empty(), radius_key, target, w);
    assert(harassment_answers(contacts[i], contacts[w]));
}

/// A chosen target is at least as urgent as `other` for an outbound wave: anti-armour (tanks,
/// anti-tank guns, panzerfausts, alike) before artillery and mortars (alike), those before
/// machine gunners, riflemen and scout cars (alike); within one class the nearer.
pub open spec fn wave_engages(chosen: EnemyContact, other: EnemyContact) -> bool {
    let k = chosen.kind;
    let o = other.kind;
    let nearer = chosen.distance_key <= other.distance_key;
    let armour = |x: EntityKind|
        x == EntityKind::Tank || x == EntityKind::AntiTankGun || x == EntityKind::Panzerfaust;
    let support = |x: EntityKind| x == EntityKind::Artillery || x == EntityKind::MortarTeam;
    let light = |x: EntityKind|
        x == EntityKind::MachineGunner || x == EntityKind::Rifleman || x == EntityKind::ScoutCar;
    &&& armour(o) ==> armour(k) && nearer
    &&& support(o) ==> armour(k) || (support(k) && nearer)
    &&& light(o) ==> armour(k) || support(k) || (light(k) && nearer)
}

/// An outbound wave engages the most urgent combat unit in reach (see `wave_engages`), and
/// always engages one when any is in reach.
pub proof fn law_wave_engages_anti_armour_first(
    contacts: Seq<EnemyContact>,
    radius_key: u32,
    target: Option<u32>,
    w: int,
)
    requires
        is_best_target(TargetRule::OutboundWave, contacts, Seq::empty(), radius_key, target),
        0 <= w < contacts.len(),
        is_unit_spec(contacts[w].kind),
        contacts[w].kind != EntityKind::Worker,
        contacts[w].distance_key <= radius_key,
    ensures
        target is Some,
        exists|i: int|
            0 <= i < contacts.len() && contacts[i].id == target->0 && contacts[i].distance_key
                <= radius_key && wave_engages(#[trigger] contacts[i], contacts[w]),
{
    let i = lemma_best_target_beats(TargetRule::OutboundWave, contacts, Seq::empty(), radius_key, target, w);
    assert(wave_engages(contacts[i], contacts[w]));
}

/// A chosen unit is at least as good a raid target as `other`: workers first, then riflemen,
/// machine gunners and anti-tank guns (alike), then tanks; within one class the nearer.
pub open spec fn raid_prefers(chosen: EnemyContact, other: EnemyContact) -> bool {
    let k = chosen.kind;
    let o = other.kind;
    let nearer = chosen.distance_key <= other.distance_key;
    let infantry = |x: EntityKind|
        x == EntityKind::Rifleman || x == EntityKind::MachineGunner || x == EntityKind::AntiTankGun;
    &&& o == EntityKind::Worker ==> k == EntityKind::Worker && nearer
    &&& infantry(o) ==> k == EntityKind::Worker || (infantry(k) && nearer)
    &&& o == EntityKind::Tank ==> k == EntityKind::Worker || infantry(k) || (k == EntityKind::Tank
        && nearer)
}

/// A rifle raid attacks the best unit not yet handled (see `raid_prefers`), and attacks one
/// whenever any is left.
pub proof fn law_rifle_raid_order(contacts: Seq<EnemyContact>, excluded: Seq<u32>, target: Option<u32>, w: int)
    requires
        is_best_target(TargetRule::RifleRaid, contacts, excluded, 0, target),
        0 <= w < contacts.len(),
        is_unit_spec(contacts[w].kind),
        !excluded.contains(contacts[w].id),
    ensures
        target is Some,
        exists|i: int|
            0 <= i < contacts.len() && contacts[i].id == target->0 && !excluded.contains(
                contacts[i].id,
            ) && raid_prefers(#[trigger] contacts[i], contacts[w]),
{
    let i = lemma_best_target_beats(TargetRule::RifleRaid, contacts, excluded, 0, target, w);
    assert(raid_prefers(contacts[i], contacts[w]));
}

/// Home defence engages the nearest enemy unit or building inside the home defence area, and
/// always one when any is there; a tie in distance goes to the lower id.
pub proof fn law_local_defense_engages_the_nearest(contacts: Seq<EnemyContact>, target: Option<u32>, w: int)
    requires
        is_best_target(TargetRule::LocalDefense, contacts, Seq::empty(), 0, target),
        0 <= w < contacts.len(),
        is_unit_spec(contacts[w].kind) || is_building_spec(contacts[w].kind),
        contacts[w].in_local_area,
    ensures
        target is Some,
        exists|i: int|
            0 <= i < contacts.len() && contacts[i].id == target->0 && (#[trigger] contacts[i]).in_local_area
                && (contacts[i].distance_key < contacts[w].distance_key || (contacts[i].distance_key
                == contacts[w].distance_key && contacts[i].id <= contacts[w].id)),
{
    let i = lemma_best_target_beats(TargetRule::LocalDefense, contacts, Seq::empty(), 0, target, w);
    assert(contacts[i].in_local_area);
}

/// A raid with no unit left to fight attacks the nearest building not yet handled, and always
/// one when any is left.
pub proof fn law_raid_fallback_attacks_the_nearest_building(
    contacts: Seq<EnemyContact>,
    excluded: Seq<u32>,
    target: Option<u32>,
    w: int,
)
    requires
        is_best_target(TargetRule::RaidBuildingFallback, contacts, excluded, 0, target),
        0 <= w < contacts.len(),
        is_building_spec(contacts[w].kind),
        !excluded.contains(contacts[w].id),
    ensures
        target is Some,
        exists|i: int|
            0 <= i < contacts.len() && contacts[i].id == target->0 && is_building_spec(
                (#[trigger] contacts[i]).kind,
            ) && !excluded.contains(contacts[i].id) && contacts[i].distance_key
                <= contacts[w].distance_key,
{
    let i = lemma_best_target_beats(TargetRule::RaidBuildingFallback, contacts, excluded, 0, target, w);
    assert(is_building_spec(contacts[i].kind));
}

} // verus!
