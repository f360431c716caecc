use battleground_construct::config::WasmControlConfig;
use battleground_construct::construct::{Construct, ControlReport, ControlledUnit, Controller};
use battleground_construct::control::{BudgetEnforcer, Invocation, MeteredProgram, Phase, Step};
use battleground_construct::kinematics::KinematicTree;
use battleground_construct::modules::REG_REVOLUTE_VELOCITY_CMD;
use battleground_construct::register_map::{RegisterError, RegisterMap, Value};
use battleground_construct::tank::{spawn_tank, MODULE_TANK_REVOLUTE_BARREL};
use battleground_construct::tank::MODULE_TANK_REVOLUTE_TURRET;
use battleground_construct::tank_swivel_shoot::TankSwivelShoot;

fn tank_registers() -> RegisterMap {
    spawn_tank(&mut KinematicTree::new(), 0).registers
}

fn command(cost: u64, module: u32, velocity: f32) -> Step {
    Step { cost, module, register: REG_REVOLUTE_VELOCITY_CMD, value: Value::F32(velocity.to_bits()) }
}

fn metered(fuel_per_update: Option<u64>, reload: bool, update: Vec<Step>) -> ControlledUnit {
    let config =
        WasmControlConfig { path: String::new(), fuel_per_update, fuel_for_setup: None, reload };
    ControlledUnit {
        controller: Controller::Metered(MeteredProgram {
            enforcer: BudgetEnforcer::new(&config),
            setup: vec![],
            update,
        }),
        registers: tank_registers(),
    }
}

fn turret_cmd(construct: &Construct, unit: usize) -> f32 {
    let registers = &construct.units[unit].registers;
    f32::from_bits(registers.get_f32(MODULE_TANK_REVOLUTE_TURRET, REG_REVOLUTE_VELOCITY_CMD).unwrap())
}

fn barrel_cmd(construct: &Construct, unit: usize) -> f32 {
    let registers = &construct.units[unit].registers;
    f32::from_bits(registers.get_f32(MODULE_TANK_REVOLUTE_BARREL, REG_REVOLUTE_VELOCITY_CMD).unwrap())
}

#[test]
fn an_empty_construct_has_nothing_to_control() {
    let mut construct = Construct::new();
    assert_eq!(construct.update(), vec![]);
    assert_eq!(construct.units.len(), 0);
}

#[test]
fn work_above_the_budget_is_halted_and_reported_and_the_tick_completes() {
    let mut construct = Construct::new();
    let program = vec![
        command(4, MODULE_TANK_REVOLUTE_TURRET, 1.0),
        command(4, MODULE_TANK_REVOLUTE_BARREL, 2.0),
        command(4, MODULE_TANK_REVOLUTE_TURRET, 3.0),
    ];
    assert_eq!(construct.add_unit(metered(Some(10), true, program.clone())), 0);
    assert_eq!(construct.add_unit(metered(Some(12), true, program)), 1);
    // The setup of both.
    assert_eq!(
        construct.update(),
        vec![ControlReport::Program(Invocation::Completed(Phase::Setup)); 2]
    );
    // The update: 12 units of work on 10 and on 12 units of fuel.
    assert_eq!(
        construct.update(),
        vec![
            ControlReport::Program(Invocation::Exhausted(Phase::Update)),
            ControlReport::Program(Invocation::Completed(Phase::Update)),
        ]
    );
    // The halted program's writes before the halt stand; its last does not.
    assert_eq!(turret_cmd(&construct, 0), 1.0);
    assert_eq!(barrel_cmd(&construct, 0), 2.0);
    // The other program's writes all stand, the last value in each register.
    assert_eq!(turret_cmd(&construct, 1), 3.0);
    assert_eq!(barrel_cmd(&construct, 1), 2.0);
}

#[test]
fn a_failing_unit_does_not_keep_the_others_from_their_tick() {
    let mut construct = Construct::new();
    // A built-in program on a unit without registers.
    construct.add_unit(ControlledUnit {
        controller: Controller::SwivelShoot(TankSwivelShoot {}),
        registers: RegisterMap::new(),
    });
    // A program that runs out of fuel for good.
    construct.add_unit(metered(Some(0), false, vec![command(1, MODULE_TANK_REVOLUTE_TURRET, 9.0)]));
    // A built-in program on a tank.
    construct.add_unit(ControlledUnit {
        controller: Controller::SwivelShoot(TankSwivelShoot {}),
        registers: tank_registers(),
    });
    assert_eq!(
        construct.update(),
        vec![
            ControlReport::Refused(RegisterError::UnknownModule),
            ControlReport::Program(Invocation::Completed(Phase::Setup)),
            ControlReport::Done,
        ]
    );
    assert_eq!(
        construct.update(),
        vec![
            ControlReport::Refused(RegisterError::UnknownModule),
            ControlReport::Program(Invocation::Exhausted(Phase::Update)),
            ControlReport::Done,
        ]
    );
    assert_eq!(
        construct.update(),
        vec![
            ControlReport::Refused(RegisterError::UnknownModule),
            ControlReport::Program(Invocation::Skipped),
            ControlReport::Done,
        ]
    );
    assert_eq!(construct.units[0].registers.list_modules(), Vec::<u32>::new());
    assert_eq!(turret_cmd(&construct, 1), 0.0);
    assert_eq!(turret_cmd(&construct, 2), 0.3);
    assert_eq!(barrel_cmd(&construct, 2), -0.1);
}
