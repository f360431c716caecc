//! The execution budget enforcer: bounds what a control program may compute
//! in one invocation, and decides what becomes of a program that ran out.
//!
//! A program is set up once and then updated every tick, each under a budget
//! of its own. The enforcer never looks at what a program did, only at how
//! much work it was allowed to do.

use crate::config::WasmControlConfig;
use crate::fuel::{checkpoints_passed, lemma_budget_bounds_work, lemma_unlimited_passes_all};
use crate::fuel::{total_cost, FuelBudget, FuelExhausted, FuelState};
use crate::register_map::{RegisterError, RegisterMap, RegisterMapView, Value};
use vstd::prelude::*;

verus! {

/// The two kinds of invocation of a control program.
#[derive(Clone, Copy, Debug, PartialEq, Eq, Structural)]
pub enum Phase {
    /// The one-time setup.
    Setup,
    /// The per-tick update.
    Update,
}

/// Where a control program stands.
#[derive(Clone, Copy, Debug, PartialEq, Eq, Structural)]
pub enum Lifecycle {
    /// Loaded afresh: the setup is due.
    Unloaded,
    /// Set up: an update is due every tick.
    Running,
    /// Out of fuel for good: the unit gets no further updates.
    Halted,
}

/// What became of an invocation that was asked for.
#[derive(Clone, Copy, Debug, PartialEq, Eq, Structural)]
pub enum Invocation {
    /// The program is halted and was not run.
    Skipped,
    /// The program ran to its end.
    Completed(Phase),
    /// The program ran out of fuel and was stopped.
    Exhausted(Phase),
}

impl Lifecycle {
    /// The invocation that is due, if any.
    pub open spec fn due(self) -> Option<Phase> {
        match self {
            Lifecycle::Unloaded => Some(Phase::Setup),
            Lifecycle::Running => Some(Phase::Update),
            Lifecycle::Halted => None,
        }
    }

    /// Where the program stands after the invocation that was due ended.
    /// One that completed leaves the program running. One that ran out of
    /// fuel has the program loaded afresh where `reload` is set, and halts
    /// it for good where not. A halted program stays halted.
    pub open spec fn after(self, completed: bool, reload: bool) -> Lifecycle {
        if self == Lifecycle::Halted {
            Lifecycle::Halted
        } else if completed {
            Lifecycle::Running
        } else if reload {
            Lifecycle::Unloaded
        } else {
            Lifecycle::Halted
        }
    }
}

/// One step of a control program as the host meters it: the work it takes
/// to get there, charged at a checkpoint, and then a register write.
#[derive(Clone, Copy, Debug)]
pub struct Step {
    /// The fuel charged before the write.
    pub cost: u64,
    pub module: u32,
    pub register: u32,
    pub value: Value,
}

/// The costs of the steps, in order.
pub open spec fn costs_of(steps: Seq<Step>) -> Seq<nat> {
    Seq::new(steps.len(), |i: int| steps[i].cost as nat)
}

/// The register map after the writes of `steps` were made in order. A write
/// that the map refuses changes nothing.
pub open spec fn writes_applied(map: RegisterMapView, steps: Seq<Step>) -> RegisterMapView
    decreases steps.len(),
{
    if steps.len() == 0 {
        map
    } else {
        let last = steps.last();
        writes_applied(map, steps.drop_last()).written(last.module, last.register, last.value)
    }
}

/// Runs a control program, given as its metered steps, under a budget. Each
/// step is charged at a checkpoint and then makes its write. The program
/// completes if the budget pays every step, and is stopped with
/// `FuelExhausted` at the first step that it cannot pay. The writes of the
/// steps before that one stand; no later write is made.
///
/// For a budget that was not exhausted before, the program completes exactly
/// if its total cost is within the budget, and then all its writes stand.
pub fn run_metered(budget: &mut FuelBudget, steps: &Vec<Step>, registers: &mut RegisterMap) -> (result:
    Result<(), FuelExhausted>)
    requires
        old(registers).wf(),
    ensures
        final(registers).wf(),
        result is Ok <==> checkpoints_passed(old(budget)@, costs_of(steps@)) == steps@.len(),
        final(registers)@ == writes_applied(
            old(registers)@,
            steps@.take(checkpoints_passed(old(budget)@, costs_of(steps@)) as int),
        ),
        final(budget)@ == old(budget)@.charged_all(
            costs_of(steps@).take(
                if result is Ok {
                    steps@.len() as int
                } else {
                    checkpoints_passed(old(budget)@, costs_of(steps@)) as int + 1
                },
            ),
        ),
        !old(budget)@.exhausted ==> (result is Ok <==> match old(budget)@.remaining {
            Some(limit) => total_cost(costs_of(steps@)) <= limit,
            None => true,
        }),
        result is Ok ==> final(registers)@ == writes_applied(old(registers)@, steps@),
{
    let ghost costs = costs_of(steps@);
    let ghost passed = checkpoints_passed(old(budget)@, costs);
    proof {
        if !old(budget)@.exhausted {
            match old(budget)@.remaining {
                Some(limit) => {
                    lemma_budget_bounds_work(limit, costs);
                },
                None => {
                    lemma_unlimited_passes_all(costs);
                },
            }
        }
    }
    assert(costs.skip(0) =~= costs);
    let mut i: usize = 0;
    while i < steps.len()
        invariant
            i <= steps@.len(),
            costs == costs_of(steps@),
            !old(budget)@.exhausted ==> (passed == steps@.len() <==> match old(budget)@.remaining {
                Some(limit) => total_cost(costs) <= limit,
                None => true,
            }),
            passed == checkpoints_passed(old(budget)@, costs),
            passed == i + checkpoints_passed(budget@, costs.skip(i as int)),
            budget@ == old(budget)@.charged_all(costs.take(i as int)),
            registers.wf(),
            registers@ == writes_applied(old(registers)@, steps@.take(i as int)),
        decreases steps@.len() - i,
    {
        let step = steps[i];
        assert(costs.take(i + 1).drop_last() =~= costs.take(i as int));
        match budget.consume(step.cost) {
            Err(exhausted) => {
                return Err(exhausted);
            },
            Ok(()) => {},
        }
        let _ = registers.write(step.module, step.register, step.value);
        proof {
            assert(costs.skip(i as int).drop_first() =~= costs.skip(i + 1));
            assert(steps@.take(i + 1).drop_last() =~= steps@.take(i as int));
        }
        i += 1;
    }
    proof {
        assert(steps@.take(steps@.len() as int) =~= steps@);
    }
    Ok(())
}

/// Keeps the budgets of one control program and follows its lifecycle.
#[derive(Clone, Copy, Debug)]
pub struct BudgetEnforcer {
    fuel_for_setup: Option<u64>,
    fuel_per_update: Option<u64>,
    reload: bool,
    lifecycle: Lifecycle,
}

/// A limit as a mathematical value.
pub open spec fn limit_of(limit: Option<u64>) -> Option<nat> {
    match limit {
        Some(units) => Some(units as nat),
        None => None,
    }
}

impl BudgetEnforcer {
    /// Where the program stands.
    pub closed spec fn lifecycle(&self) -> Lifecycle {
        self.lifecycle
    }

    /// The fuel that an invocation of this phase starts with.
    pub closed spec fn limit(&self, phase: Phase) -> Option<u64> {
        match phase {
            Phase::Setup => self.fuel_for_setup,
            Phase::Update => self.fuel_per_update,
        }
    }

    /// Whether a program that ran out of fuel is loaded afresh.
    pub closed spec fn reloads(&self) -> bool {
        self.reload
    }

    /// The enforcer for a program that was just loaded: the setup is due.
    pub fn new(config: &WasmControlConfig) -> (enforcer: Self)
        ensures
            enforcer.lifecycle() == Lifecycle::Unloaded,
            enforcer.limit(Phase::Setup) == config.fuel_for_setup,
            enforcer.limit(Phase::Update) == config.fuel_per_update,
            enforcer.reloads() == config.reload,
    {
        BudgetEnforcer {
            fuel_for_setup: config.fuel_for_setup,
            fuel_per_update: config.fuel_per_update,
            reload: config.reload,
            lifecycle: Lifecycle::Unloaded,
        }
    }

    /// Whether the unit gets no further invocations.
    pub fn is_halted(&self) -> (halted: bool)
        ensures
            halted == (self.lifecycle() == Lifecycle::Halted),
    {
        match self.lifecycle {
            Lifecycle::Halted => true,
            _ => false,
        }
    }

    /// The invocation that is due, with a fresh budget for it; `None` for a
    /// halted program.
    pub fn begin(&self) -> (due: Option<(Phase, FuelBudget)>)
        ensures
            match due {
                Some((phase, budget)) => self.lifecycle().due() == Some(phase) && budget@
                    == FuelState::fresh(limit_of(self.limit(phase))),
                None => self.lifecycle().due() == None::<Phase>,
            },
    {
        match self.lifecycle {
            Lifecycle::Unloaded => Some((Phase::Setup, FuelBudget::new(self.fuel_for_setup))),
            Lifecycle::Running => Some((Phase::Update, FuelBudget::new(self.fuel_per_update))),
            Lifecycle::Halted => None,
        }
    }

    /// Records how the invocation that was due ended.
    pub fn conclude(&mut self, outcome: Result<(), FuelExhausted>)
        ensures
            final(self).lifecycle() == old(self).lifecycle().after(outcome is Ok, old(self).reloads()),
            final(self).reloads() == old(self).reloads(),
            forall|phase: Phase| final(self).limit(phase) == old(self).limit(phase),
    {
        self.lifecycle = match self.lifecycle {
            Lifecycle::Halted => Lifecycle::Halted,
            _ => match outcome {
                Ok(()) => Lifecycle::Running,
                Err(_) => if self.reload {
                    Lifecycle::Unloaded
                } else {
                    Lifecycle::Halted
                },
            },
        };
    }

    /// Runs the invocation that is due on `program`, the metered steps of
    /// the control program for that invocation, under a fresh budget, and
    /// records how it ended. A halted program is not run, and the registers
    /// stay as they are.
    pub fn invoke(&mut self, program: &Vec<Step>, registers: &mut RegisterMap) -> (invocation:
        Invocation)
        requires
            old(registers).wf(),
        ensures
            final(registers).wf(),
            final(self).reloads() == old(self).reloads(),
            forall|phase: Phase| final(self).limit(phase) == old(self).limit(phase),
            match old(self).lifecycle().due() {
                None => {
                    &&& invocation == Invocation::Skipped
                    &&& final(self).lifecycle() == Lifecycle::Halted
                    &&& final(registers)@ == old(registers)@
                },
                Some(phase) => {
                    let budget = FuelState::fresh(limit_of(old(self).limit(phase)));
                    let passed = checkpoints_passed(budget, costs_of(program@));
                    let completed = match old(self).limit(phase) {
                        Some(limit) => total_cost(costs_of(program@)) <= limit,
                        None => true,
                    };
                    &&& completed <==> passed == program@.len()
                    &&& invocation == if completed {
                        Invocation::Completed(phase)
                    } else {
                        Invocation::Exhausted(phase)
                    }
                    &&& final(self).lifecycle() == old(self).lifecycle().after(
                        completed,
                        old(self).reloads(),
                    )
                    &&& final(registers)@ == writes_applied(
                        old(registers)@,
                        program@.take(passed as int),
                    )
                },
            },
    {
        match self.begin() {
            None => Invocation::Skipped,
            Some((phase, budget)) => {
                let mut budget = budget;
                let outcome = run_metered(&mut budget, program, registers);
                self.conclude(outcome);
                match outcome {
                    Ok(()) => Invocation::Completed(phase),
                    Err(_) => Invocation::Exhausted(phase),
                }
            },
        }
    }
}

/// A control program as the host holds it: the budgets and the lifecycle,
/// and the metered steps of its setup and of its update.
pub struct MeteredProgram {
    pub enforcer: BudgetEnforcer,
    pub setup: Vec<Step>,
    pub update: Vec<Step>,
}

impl MeteredProgram {
    /// The steps of the invocation that is due: those of the setup for a
    /// program that was loaded afresh, and those of the update otherwise.
    pub open spec fn due_steps(&self) -> Seq<Step> {
        if self.enforcer.lifecycle() == Lifecycle::Unloaded {
            self.setup@
        } else {
            self.update@
        }
    }

    /// `after`, `registers_after` and `invocation` are what one tick of this
    /// program on `registers` leaves. The invocation that is due is run on
    /// its own steps under a fresh budget of its own. Work within the budget
    /// completes, and every write of the invocation stands. Work above it is
    /// halted at the first checkpoint that the budget cannot pay and
    /// reported as exhausted; the writes before that checkpoint stand. A
    /// halted program is skipped. Steps, budgets and the reload flag never
    /// change.
    pub open spec fn ticked(
        &self,
        after: &MeteredProgram,
        registers: RegisterMapView,
        registers_after: RegisterMapView,
        invocation: Invocation,
    ) -> bool {
        &&& after.setup@ == self.setup@
        &&& after.update@ == self.update@
        &&& after.enforcer.reloads() == self.enforcer.reloads()
        &&& forall|phase: Phase| after.enforcer.limit(phase) == self.enforcer.limit(phase)
        &&& match self.enforcer.lifecycle().due() {
            None => {
                &&& invocation == Invocation::Skipped
                &&& after.enforcer.lifecycle() == Lifecycle::Halted
                &&& registers_after == registers
            },
            Some(phase) => {
                let steps = self.due_steps();
                let budget = FuelState::fresh(limit_of(self.enforcer.limit(phase)));
                let passed = checkpoints_passed(budget, costs_of(steps));
                let completed = match self.enforcer.limit(phase) {
                    Some(limit) => total_cost(costs_of(steps)) <= limit,
                    None => true,
                };
                &&& completed <==> passed == steps.len()
                &&& invocation == if completed {
                    Invocation::Completed(phase)
                } else {
                    Invocation::Exhausted(phase)
                }
                &&& after.enforcer.lifecycle() == self.enforcer.lifecycle().after(
                    completed,
                    self.enforcer.reloads(),
                )
                &&& registers_after == writes_applied(registers, steps.take(passed as int))
                &&& completed ==> registers_after == writes_applied(registers, steps)
            },
        }
    }

    /// One tick of the program on the registers of its unit.
    pub fn tick(&mut self, registers: &mut RegisterMap) -> (invocation: Invocation)
        requires
            old(registers).wf(),
        ensures
            final(registers).wf(),
            old(self).ticked(final(self), old(registers)@, final(registers)@, invocation),
    {
        match self.enforcer.begin() {
            Some((Phase::Setup, _)) => {
                assert(self.setup@.take(self.setup@.len() as int) =~= self.setup@);
                self.enforcer.invoke(&self.setup, registers)
            },
            Some((Phase::Update, _)) => {
                assert(self.update@.take(self.update@.len() as int) =~= self.update@);
                self.enforcer.invoke(&self.update, registers)
            },
            None => Invocation::Skipped,
        }
    }
}

/// Fuel enforcement, for work above the budget: an invocation whose steps
/// cost more than its budget of `limit` units is halted before its end. The
/// steps that it passed cost at most `limit`, the step that halted it would
/// have taken the cost above `limit`, and the registers hold the writes of
/// the steps passed and of no other.
pub proof fn lemma_work_above_budget_is_halted(limit: nat, steps: Seq<Step>)
    requires
        total_cost(costs_of(steps)) > limit,
    ensures
        ({
            let passed = checkpoints_passed(FuelState::fresh(Some(limit)), costs_of(steps)) as int;
            &&& passed < steps.len()
            &&& total_cost(costs_of(steps).take(passed)) <= limit
            &&& total_cost(costs_of(steps).take(passed + 1)) > limit
        }),
{
    lemma_budget_bounds_work(limit, costs_of(steps));
}

/// Fuel enforcement, for work within the budget: an invocation whose steps
/// cost at most its budget of `limit` units passes every checkpoint, and
/// the registers hold the writes of all its steps.
pub proof fn lemma_work_within_budget_completes(
    limit: nat,
    steps: Seq<Step>,
    registers: RegisterMapView,
)
    requires
        total_cost(costs_of(steps)) <= limit,
    ensures
        checkpoints_passed(FuelState::fresh(Some(limit)), costs_of(steps)) == steps.len(),
        writes_applied(
            registers,
            steps.take(checkpoints_passed(FuelState::fresh(Some(limit)), costs_of(steps)) as int),
        ) == writes_applied(registers, steps),
{
    lemma_budget_bounds_work(limit, costs_of(steps));
    assert(steps.take(steps.len() as int) =~= steps);
}

/// No write is lost or rolled back: after the writes of `steps`, a
/// register holds the value of the last step that wrote it, if the map
/// accepted that write. Step `last` is that step if no later step names
/// the same register.
pub proof fn lemma_last_write_stands(registers: RegisterMapView, steps: Seq<Step>, last: int)
    requires
        0 <= last < steps.len(),
        writes_applied(registers, steps.take(last)).check_write(
            steps[last].module,
            steps[last].register,
            steps[last].value,
        ) is Ok,
        forall|later: int|
            last < later < steps.len() ==> (#[trigger] steps[later]).module != steps[last].module
                || steps[later].register != steps[last].register,
    ensures
        writes_applied(registers, steps).peek(steps[last].module, steps[last].register) == Ok::<
            Value,
            RegisterError,
        >(steps[last].value),
    decreases steps.len(),
{
    let written = steps[last];
    if last == steps.len() - 1 {
        assert(steps.drop_last() =~= steps.take(last));
    } else {
        let before = steps.drop_last();
        assert(before.take(last) =~= steps.take(last));
        lemma_last_write_stands(registers, before, last);
        let final_step = steps.last();
        writes_applied(registers, before).lemma_write_frame(
            final_step.module,
            final_step.register,
            final_step.value,
            written.module,
            written.register,
        );
    }
}

/// A program that is not reloaded stays halted once it ran out of fuel, and
/// a program that is reloaded is never halted.
pub proof fn lemma_exhaustion_policy(lifecycle: Lifecycle, completed: bool, reload: bool)
    ensures
        Lifecycle::Halted.after(completed, reload) == Lifecycle::Halted,
        Lifecycle::Halted.due() == None::<Phase>,
        lifecycle != Lifecycle::Halted && reload ==> lifecycle.after(completed, reload)
            != Lifecycle::Halted,
        lifecycle != Lifecycle::Halted && !reload && !completed ==> lifecycle.after(
            completed,
            reload,
        ) == Lifecycle::Halted,
        lifecycle != Lifecycle::Halted && !completed && reload ==> lifecycle.after(
            completed,
            reload,
        ).due() == Some(Phase::Setup),
{
}

} // verus!
