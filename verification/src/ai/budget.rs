//! What things cost, and the resources a think may still spend.
use crate::ai::kinds::{kind_index, kind_index_spec, EntityKind, KIND_COUNT};
use crate::ai::model::Observation;
use vstd::prelude::*;

verus! {

/// The rulebook's price list: `(steel, oil)` for each entity kind, by table position.
pub struct CostTable {
    pub costs: Vec<(u32, u32)>,
}

impl CostTable {
    pub open spec fn wf(&self) -> bool {
        self.costs.len() == KIND_COUNT
    }

    pub open spec fn cost_spec(&self, kind: EntityKind) -> (u32, u32) {
        self.costs@[kind_index_spec(kind)]
    }

    /// A table where everything listed in `prices` costs what it says (the last entry for a
    /// kind wins) and everything else is free.
    pub fn from_prices(prices: &Vec<(EntityKind, u32, u32)>) -> (r: Self)
        ensures
            r.wf(),
            forall|k: EntityKind|
                (forall|i: int| 0 <= i < prices.len() ==> (#[trigger] prices@[i]).0 != k) ==> r.cost_spec(k) == (0u32, 0u32),
            forall|i: int|
                0 <= i < prices.len() && (forall|j: int| i < j < prices.len() ==> (#[trigger] prices@[j]).0 != prices@[i].0)
                    ==> r.cost_spec((#[trigger] prices@[i]).0) == (prices@[i].1, prices@[i].2),
    {
        let mut costs: Vec<(u32, u32)> = Vec::new();
        let mut n: usize = 0;
        while n < KIND_COUNT
            invariant
                n <= KIND_COUNT,
                costs.len() == n,
                forall|j: int| 0 <= j < n ==> costs@[j] == (0u32, 0u32),
            decreases KIND_COUNT - n,
        {
            costs.push((0, 0));
            n = n + 1;
        }
        let mut i: usize = 0;
        while i < prices.len()
            invariant
                i <= prices.len(),
                costs.len() == KIND_COUNT,
                forall|k: EntityKind|
                    (forall|m: int| 0 <= m < i ==> (#[trigger] prices@[m]).0 != k) ==> costs@[kind_index_spec(k)] == (0u32, 0u32),
                forall|m: int|
                    0 <= m < i && (forall|j: int| m < j < i ==> (#[trigger] prices@[j]).0 != prices@[m].0)
                        ==> costs@[kind_index_spec((#[trigger] prices@[m]).0)] == (prices@[m].1, prices@[m].2),
            decreases prices.len() - i,
        {
            let (kind, steel, oil) = prices[i];
            let idx = kind_index(kind);
            costs.set(idx, (steel, oil));
            assert forall|k: EntityKind|
                (forall|m: int| 0 <= m < i + 1 ==> (#[trigger] prices@[m]).0 != k) implies costs@[kind_index_spec(k)] == (0u32, 0u32) by {
                assert(prices@[i as int].0 != k);
                crate::ai::kinds::law_kind_index_is_injective(k, kind);
            }
            assert forall|m: int|
                0 <= m < i + 1 && (forall|j: int| m < j < i + 1 ==> (#[trigger] prices@[j]).0 != prices@[m].0)
                    implies costs@[kind_index_spec((#[trigger] prices@[m]).0)] == (prices@[m].1, prices@[m].2) by {
                if m < i {
                    assert(prices@[i as int].0 != prices@[m].0);
                    crate::ai::kinds::law_kind_index_is_injective(prices@[m].0, kind);
                }
            }
            i = i + 1;
        }
        CostTable { costs }
    }

    pub fn cost(&self, kind: EntityKind) -> (r: (u32, u32))
        requires
            self.wf(),
        ensures
            r == self.cost_spec(kind),
    {
        self.costs[kind_index(kind)]
    }
}

pub open spec fn sat_add_u32(a: u32, b: u32) -> u32 {
    if a + b > u32::MAX {
        u32::MAX
    } else {
        (a + b) as u32
    }
}

/// The worth of a unit when forces are compared: its steel and oil price together.
pub fn unit_value(costs: &CostTable, kind: EntityKind) -> (r: u32)
    requires
        costs.wf(),
    ensures
        r == sat_add_u32(costs.cost_spec(kind).0, costs.cost_spec(kind).1),
{
    let (steel, oil) = costs.cost(kind);
    steel.saturating_add(oil)
}

/// The resources and supply one think may still commit.
#[derive(Clone, Copy)]
pub struct SpendBudget {
    pub steel: u32,
    pub oil: u32,
    pub supply_used: u32,
    pub supply_cap: u32,
}

impl SpendBudget {
    pub fn new(steel: u32, oil: u32, supply_used: u32, supply_cap: u32) -> (r: Self)
        ensures
            r.steel == steel,
            r.oil == oil,
            r.supply_used == supply_used,
            r.supply_cap == supply_cap,
    {
        SpendBudget { steel, oil, supply_used, supply_cap }
    }

    /// A budget in which steel already promised to started builds is no longer available.
    pub fn with_committed_steel(
        steel: u32,
        oil: u32,
        supply_used: u32,
        supply_cap: u32,
        committed_steel: u32,
    ) -> (r: Self)
        ensures
            r.steel == if committed_steel <= steel {
                steel - committed_steel
            } else {
                0
            },
            r.oil == oil,
            r.supply_used == supply_used,
            r.supply_cap == supply_cap,
    {
        SpendBudget { steel: steel.saturating_sub(committed_steel), oil, supply_used, supply_cap }
    }

    pub open spec fn can_afford_spec(&self, cost: (u32, u32)) -> bool {
        self.steel >= cost.0 && self.oil >= cost.1
    }

    pub fn can_afford(&self, cost: (u32, u32)) -> (r: bool)
        ensures
            r == self.can_afford_spec(cost),
    {
        self.steel >= cost.0 && self.oil >= cost.1
    }

    /// Whether the budget covers the price of `kind`.
    pub fn can_afford_building(&self, kind: EntityKind, costs: &CostTable) -> (r: bool)
        requires
            costs.wf(),
        ensures
            r == self.can_afford_spec(costs.cost_spec(kind)),
    {
        self.can_afford(costs.cost(kind))
    }
}

/// Committed steel is never spent twice: whatever a committed budget can afford, the
/// uncommitted budget could afford too.
pub proof fn law_committed_steel_only_narrows(
    steel: u32,
    oil: u32,
    committed_steel: u32,
    cost: (u32, u32),
)
    ensures
        ({
            let left = if committed_steel <= steel {
                (steel - committed_steel) as u32
            } else {
                0u32
            };
            (left >= cost.0 && oil >= cost.1) ==> (steel >= cost.0 && oil >= cost.1)
        }),
{
}

/// The whole economy of an observation, nothing held back.
pub fn budget_from_observation(observation: &Observation) -> (r: SpendBudget)
    ensures
        r.steel == observation.economy.steel,
        r.oil == observation.economy.oil,
        r.supply_used == observation.economy.supply_used,
        r.supply_cap == observation.economy.supply_cap,
{
    SpendBudget::new(
        observation.economy.steel,
        observation.economy.oil,
        observation.economy.supply_used,
        observation.economy.supply_cap,
    )
}


} // verus!
