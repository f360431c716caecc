//! The control phase of a tick, over all units of a construct.
//!
//! In every tick each unit's control program is invoked once on the
//! registers of its own unit, one unit after the other. What a program does,
//! and whether it fails, touches its own unit only: a program that is
//! refused a register or runs out of fuel is reported, and the units after
//! it get their turn all the same.

use crate::control::{costs_of, writes_applied, Invocation, Lifecycle, MeteredProgram, Phase};
use crate::fuel::{checkpoints_passed, lemma_budget_bounds_work, total_cost, FuelState};
use crate::register_map::{RegisterError, RegisterMap};
use crate::tank_swivel_shoot::{after_update, TankSwivelShoot};
use vstd::prelude::*;

verus! {

/// What controls a unit.
pub enum Controller {
    /// The built-in program that swivels and shoots.
    SwivelShoot(TankSwivelShoot),
    /// A program under a fuel budget.
    Metered(MeteredProgram),
}

/// How the control of a unit went in a tick.
#[derive(Clone, Copy, Debug, PartialEq, Eq, Structural)]
pub enum ControlReport {
    /// The built-in program ended well.
    Done,
    /// The built-in program was refused a register and ended there.
    Refused(RegisterError),
    /// The metered program completed, ran out of fuel, or was skipped.
    Program(Invocation),
}

/// A unit as the control phase sees it: its control program and its
/// registers.
pub struct ControlledUnit {
    pub controller: Controller,
    pub registers: RegisterMap,
}

impl ControlledUnit {
    /// `after` and `report` are what one invocation of the unit's control
    /// program leaves of the unit. Nothing but the unit itself has a say in
    /// it.
    pub open spec fn controlled(&self, after: &ControlledUnit, report: ControlReport) -> bool {
        match self.controller {
            Controller::SwivelShoot(_) => {
                &&& after.controller is SwivelShoot
                &&& report == match after_update(self.registers@).result {
                    Ok(_) => ControlReport::Done,
                    Err(error) => ControlReport::Refused(error),
                }
                &&& after.registers@ == after_update(self.registers@).registers
            },
            Controller::Metered(program) => {
                &&& after.controller matches Controller::Metered(next)
                &&& report matches ControlReport::Program(invocation)
                &&& program.ticked(&next, self.registers@, after.registers@, invocation)
            },
        }
    }

    /// Invokes the control program of the unit once.
    pub fn control(&mut self) -> (report: ControlReport)
        requires
            old(self).registers.wf(),
        ensures
            final(self).registers.wf(),
            old(self).controlled(final(self), report),
    {
        match &mut self.controller {
            Controller::SwivelShoot(program) => match program.update(&mut self.registers) {
                Ok(()) => ControlReport::Done,
                Err(error) => ControlReport::Refused(error),
            },
            Controller::Metered(program) => ControlReport::Program(
                program.tick(&mut self.registers),
            ),
        }
    }
}

/// The units of a construct with their control programs.
pub struct Construct {
    pub units: Vec<ControlledUnit>,
}

impl Construct {
    /// The registers of every unit are well formed.
    pub open spec fn wf(&self) -> bool {
        forall|i: int| 0 <= i < self.units@.len() ==> (#[trigger] self.units@[i]).registers.wf()
    }

    /// A construct without units.
    pub fn new() -> (construct: Self)
        ensures
            construct.wf(),
            construct.units@.len() == 0,
    {
        Construct { units: Vec::new() }
    }

    /// Adds a unit and returns its number.
    pub fn add_unit(&mut self, unit: ControlledUnit) -> (number: usize)
        requires
            old(self).wf(),
            unit.registers.wf(),
        ensures
            final(self).wf(),
            number == old(self).units@.len(),
            final(self).units@ == old(self).units@.push(unit),
    {
        self.units.push(unit);
        self.units.len() - 1
    }

    /// The control phase of one tick: every unit's control program is
    /// invoked once, in the order of the units, and the reports are returned
    /// in that order. Each unit ends as its own program leaves it, whatever
    /// became of the others: a program that was refused a register or ran
    /// out of fuel is reported as that, and the pass goes on.
    pub fn update(&mut self) -> (reports: Vec<ControlReport>)
        requires
            old(self).wf(),
        ensures
            final(self).wf(),
            final(self).units@.len() == old(self).units@.len(),
            reports@.len() == old(self).units@.len(),
            forall|i: int|
                0 <= i < old(self).units@.len() ==> (#[trigger] old(self).units@[i]).controlled(
                    &final(self).units@[i],
                    reports@[i],
                ),
    {
        let mut reports: Vec<ControlReport> = Vec::new();
        let mut i: usize = 0;
        while i < self.units.len()
            invariant
                i <= self.units@.len(),
                self.units@.len() == old(self).units@.len(),
                reports@.len() == i,
                self.wf(),
                forall|j: int|
                    0 <= j < i ==> (#[trigger] old(self).units@[j]).controlled(
                        &self.units@[j],
                        reports@[j],
                    ),
                forall|j: int| i <= j < self.units@.len() ==> self.units@[j] == old(self).units@[j],
            decreases self.units@.len() - i,
        {
            let report = self.units[i].control();
            reports.push(report);
            i += 1;
        }
        reports
    }
}

/// Fuel enforcement in the control phase. Take a unit whose metered
/// program is set up and has `limit` units of fuel for an update. If the
/// steps of the update cost more than `limit`, the invocation is halted and
/// reported as exhausted, never as completed, and the registers hold the
/// writes of the steps before the halt, which cost at most `limit`. If they
/// cost at most `limit`, the invocation is reported as completed and the
/// registers hold the writes of all its steps.
pub proof fn lemma_fuel_enforced_in_update(
    unit: ControlledUnit,
    after: ControlledUnit,
    report: ControlReport,
    limit: u64,
)
    requires
        unit.controller matches Controller::Metered(program) && program.enforcer.lifecycle()
            == Lifecycle::Running && program.enforcer.limit(Phase::Update) == Some(limit),
        unit.controlled(&after, report),
    ensures
        ({
            let steps = unit.controller->Metered_0.update@;
            let passed = checkpoints_passed(
                FuelState::fresh(Some(limit as nat)),
                costs_of(steps),
            ) as int;
            &&& after.registers@ == writes_applied(unit.registers@, steps.take(passed))
            &&& total_cost(costs_of(steps).take(passed)) <= limit
            &&& total_cost(costs_of(steps)) > limit ==> {
                &&& report == ControlReport::Program(Invocation::Exhausted(Phase::Update))
                &&& passed < steps.len()
            }
            &&& total_cost(costs_of(steps)) <= limit ==> {
                &&& report == ControlReport::Program(Invocation::Completed(Phase::Update))
                &&& after.registers@ == writes_applied(unit.registers@, steps)
            }
        }),
{
    let steps = unit.controller->Metered_0.update@;
    lemma_budget_bounds_work(limit as nat, costs_of(steps));
}

} // verus!
