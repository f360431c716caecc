//! Fuel: the host-controlled unit of computation that bounds one invocation
//! of a control program.
//!
//! The host charges the budget at every checkpoint of the program. A charge
//! that the budget cannot pay exhausts it, and the invocation ends there.
//! Fuel counts work, never wall-clock time, so that a simulation replays the
//! same on every host.

use vstd::prelude::*;

verus! {

/// Reported when an invocation needed more fuel than its budget held.
#[derive(Clone, Copy, Debug, PartialEq, Eq, Structural)]
pub struct FuelExhausted;

/// A budget as a mathematical value.
pub struct FuelState {
    /// The fuel left; `None` for a budget without a limit.
    pub remaining: Option<nat>,
    /// Whether a charge was refused.
    pub exhausted: bool,
}

impl FuelState {
    /// A fresh budget of `limit` units, or one without a limit.
    pub open spec fn fresh(limit: Option<nat>) -> FuelState {
        FuelState { remaining: limit, exhausted: false }
    }

    /// Whether the budget can pay `units`. An exhausted budget pays nothing.
    pub open spec fn affords(self, units: nat) -> bool {
        !self.exhausted && match self.remaining {
            Some(left) => units <= left,
            None => true,
        }
    }

    /// The budget after it was charged `units`: reduced if it can pay, and
    /// empty and exhausted if it cannot.
    pub open spec fn charged(self, units: nat) -> FuelState {
        if self.affords(units) {
            FuelState {
                remaining: match self.remaining {
                    Some(left) => Some((left - units) as nat),
                    None => None,
                },
                exhausted: false,
            }
        } else {
            FuelState {
                remaining: match self.remaining {
                    Some(_) => Some(0),
                    None => None,
                },
                exhausted: true,
            }
        }
    }

    /// The budget after it was charged each of `costs` in turn.
    pub open spec fn charged_all(self, costs: Seq<nat>) -> FuelState
        decreases costs.len(),
    {
        if costs.len() == 0 {
            self
        } else {
            self.charged_all(costs.drop_last()).charged(costs.last())
        }
    }
}

/// The sum of `costs`.
pub open spec fn total_cost(costs: Seq<nat>) -> nat
    decreases costs.len(),
{
    if costs.len() == 0 {
        0
    } else {
        total_cost(costs.drop_last()) + costs.last()
    }
}

/// How many of `costs`, taken in order from the first, a budget pays before
/// it refuses one: the number of checkpoints that an invocation passes.
pub open spec fn checkpoints_passed(budget: FuelState, costs: Seq<nat>) -> nat
    decreases costs.len(),
{
    if costs.len() == 0 || !budget.affords(costs[0]) {
        0
    } else {
        1 + checkpoints_passed(budget.charged(costs[0]), costs.drop_first())
    }
}

/// Adding a cost at the end adds it to the total.
pub proof fn lemma_total_cost_push(costs: Seq<nat>, cost: nat)
    ensures
        total_cost(costs.push(cost)) == total_cost(costs) + cost,
{
    assert(costs.push(cost).drop_last() =~= costs);
}

/// Taking a cost from the front takes it from the total.
pub proof fn lemma_total_cost_front(costs: Seq<nat>)
    requires
        costs.len() > 0,
    ensures
        total_cost(costs) == costs[0] + total_cost(costs.drop_first()),
    decreases costs.len(),
{
    if costs.len() == 1 {
        assert(total_cost(costs.drop_last()) == 0);
    } else {
        lemma_total_cost_front(costs.drop_last());
        assert(costs.drop_last().drop_first() =~= costs.drop_first().drop_last());
    }
}

/// A budget without a limit passes every checkpoint.
pub proof fn lemma_unlimited_passes_all(costs: Seq<nat>)
    ensures
        checkpoints_passed(FuelState::fresh(None), costs) == costs.len(),
    decreases costs.len(),
{
    if costs.len() > 0 {
        lemma_unlimited_passes_all(costs.drop_first());
    }
}

/// Fuel enforcement: with a budget of `limit` units an invocation passes
/// all its checkpoints if and only if its work costs at most `limit` in
/// total. Otherwise it is stopped at the first checkpoint at which the work
/// so far would exceed `limit`: the checkpoints before cost at most `limit`
/// together, and with the one that stopped it more.
pub proof fn lemma_budget_bounds_work(limit: nat, costs: Seq<nat>)
    ensures
        checkpoints_passed(FuelState::fresh(Some(limit)), costs) <= costs.len(),
        checkpoints_passed(FuelState::fresh(Some(limit)), costs) == costs.len() <==> total_cost(
            costs,
        ) <= limit,
        ({
            let passed = checkpoints_passed(FuelState::fresh(Some(limit)), costs) as int;
            &&& total_cost(costs.take(passed)) <= limit
            &&& passed < costs.len() ==> total_cost(costs.take(passed + 1)) > limit
        }),
    decreases costs.len(),
{
    let budget = FuelState::fresh(Some(limit));
    if costs.len() == 0 {
    } else if !budget.affords(costs[0]) {
        lemma_total_cost_push(Seq::<nat>::empty(), costs[0]);
        lemma_total_cost_front(costs);
    } else {
        let rest = costs.drop_first();
        let left = (limit - costs[0]) as nat;
        lemma_budget_bounds_work(left, rest);
        lemma_total_cost_front(costs);
        let passed = checkpoints_passed(FuelState::fresh(Some(left)), rest) as int;
        assert(costs.take(passed + 1).drop_first() =~= rest.take(passed));
        lemma_total_cost_front(costs.take(passed + 1));
        if passed < rest.len() {
            assert(costs.take(passed + 2).drop_first() =~= rest.take(passed + 1));
            lemma_total_cost_front(costs.take(passed + 2));
        }
    }
}

/// Countdown of the fuel that one invocation may still use.
#[derive(Clone, Copy, Debug)]
pub struct FuelBudget {
    remaining: Option<u64>,
    exhausted: bool,
}

impl FuelBudget {
    /// The budget as a mathematical value.
    pub closed spec fn view(&self) -> FuelState {
        FuelState {
            remaining: match self.remaining {
                Some(left) => Some(left as nat),
                None => None,
            },
            exhausted: self.exhausted,
        }
    }

    /// A fresh budget of `limit` units, or one without a limit for `None`.
    pub fn new(limit: Option<u64>) -> (budget: Self)
        ensures
            budget@ == FuelState::fresh(
                match limit {
                    Some(units) => Some(units as nat),
                    None => None,
                },
            ),
    {
        FuelBudget { remaining: limit, exhausted: false }
    }

    /// Charges the budget at a checkpoint. If it cannot pay, it is left
    /// empty and exhausted, and the invocation is to end.
    pub fn consume(&mut self, units: u64) -> (result: Result<(), FuelExhausted>)
        ensures
            result is Ok <==> old(self)@.affords(units as nat),
            final(self)@ == old(self)@.charged(units as nat),
    {
        match self.remaining {
            None => if self.exhausted {
                Err(FuelExhausted)
            } else {
                Ok(())
            },
            Some(left) => {
                if !self.exhausted && units <= left {
                    self.remaining = Some(left - units);
                    Ok(())
                } else {
                    self.remaining = Some(0);
                    self.exhausted = true;
                    Err(FuelExhausted)
                }
            },
        }
    }

    /// The fuel left; `None` for a budget without a limit.
    pub fn remaining(&self) -> (left: Option<u64>)
        ensures
            match left {
                Some(units) => self@.remaining == Some(units as nat),
                None => self@.remaining == None::<nat>,
            },
    {
        self.remaining
    }

    /// Whether a charge was refused.
    pub fn is_exhausted(&self) -> (exhausted: bool)
        ensures
            exhausted == self@.exhausted,
    {
        self.exhausted
    }
}

} // verus!
