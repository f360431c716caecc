use battleground_construct::kinematics::KinematicTree;
use battleground_construct::modules::{REG_CANNON_FIRING, REG_CANNON_RELOAD_TIME};
use battleground_construct::modules::{REG_CLOCK_ELAPSED, REG_REVOLUTE_VELOCITY_CMD};
use battleground_construct::register_map::{RegisterError, Value};
use battleground_construct::tank::{spawn_tank, MODULE_TANK_CANNON, MODULE_TANK_CLOCK};
use battleground_construct::tank::{MODULE_TANK_DIFF_DRIVE, MODULE_TANK_REVOLUTE_BARREL};
use battleground_construct::tank::MODULE_TANK_REVOLUTE_TURRET;

#[test]
fn module_ids_of_the_tank() {
    assert_eq!(MODULE_TANK_CLOCK, 0x0100);
    assert_eq!(MODULE_TANK_DIFF_DRIVE, 0x1000);
    assert_eq!(MODULE_TANK_REVOLUTE_TURRET, 0x1100);
    assert_eq!(MODULE_TANK_REVOLUTE_BARREL, 0x1200);
    assert_eq!(MODULE_TANK_CANNON, 0x1300);
}

#[test]
fn tank_has_its_modules() {
    let mut tree = KinematicTree::new();
    let tank = spawn_tank(&mut tree, 1.0f32.to_bits());
    let registers = tank.registers;
    assert_eq!(registers.list_modules(), vec![0x0100, 0x1000, 0x1100, 0x1200, 0x1300]);
    assert_eq!(registers.module_name(0x0100), Ok("clock".to_string()));
    assert_eq!(registers.module_name(0x1000), Ok("base".to_string()));
    assert_eq!(registers.module_name(0x1100), Ok("turret".to_string()));
    assert_eq!(registers.module_name(0x1200), Ok("barrel".to_string()));
    assert_eq!(registers.module_name(0x1300), Ok("cannon".to_string()));
    assert_eq!(registers.list_registers(0x0100), Ok(vec![0]));
    assert_eq!(registers.list_registers(0x1000), Ok(vec![0, 1, 2, 3]));
    assert_eq!(registers.list_registers(0x1100), Ok(vec![0, 1, 4]));
    assert_eq!(registers.list_registers(0x1200), Ok(vec![0, 1, 4]));
    assert_eq!(registers.list_registers(0x1300), Ok(vec![0, 1, 2]));
    assert_eq!(
        registers.read(MODULE_TANK_CANNON, REG_CANNON_RELOAD_TIME),
        Ok(Value::F32(1.0f32.to_bits()))
    );
    assert_eq!(registers.read(MODULE_TANK_CLOCK, REG_CLOCK_ELAPSED), Ok(Value::F32(0)));
    assert_eq!(registers.read(MODULE_TANK_CANNON, REG_CANNON_FIRING), Ok(Value::I32(0)));
    assert_eq!(
        registers.read(MODULE_TANK_REVOLUTE_BARREL, REG_REVOLUTE_VELOCITY_CMD),
        Ok(Value::F32(0))
    );
    assert_eq!(registers.read(0x1400, 0), Err(RegisterError::UnknownModule));
}

#[test]
fn tank_bodies_form_a_tree() {
    let mut tree = KinematicTree::new();
    let tank = spawn_tank(&mut tree, 0).entities;
    assert_eq!(tree.entity_count(), 5);
    assert_eq!(
        (tank.vehicle, tank.turret, tank.barrel, tank.nozzle, tank.flag),
        (0, 1, 2, 3, 4)
    );
    assert_eq!(tree.parent(tank.vehicle), None);
    assert_eq!(tree.parent(tank.turret), Some(tank.vehicle));
    assert_eq!(tree.parent(tank.barrel), Some(tank.turret));
    assert_eq!(tree.parent(tank.nozzle), Some(tank.barrel));
    assert_eq!(tree.parent(tank.flag), Some(tank.vehicle));
    assert_eq!(
        tree.world_chain(tank.nozzle),
        Ok(vec![tank.nozzle, tank.barrel, tank.turret, tank.vehicle])
    );
    assert_eq!(tree.world_chain(tank.flag), Ok(vec![tank.flag, tank.vehicle]));
}

#[test]
fn a_second_tank_gets_bodies_of_its_own() {
    let mut tree = KinematicTree::new();
    tree.add_entity();
    let first = spawn_tank(&mut tree, 0).entities;
    let second = spawn_tank(&mut tree, 0).entities;
    assert_eq!(first.vehicle, 1);
    assert_eq!(second.vehicle, 6);
    assert_eq!(tree.entity_count(), 11);
    assert_eq!(
        tree.world_chain(second.nozzle),
        Ok(vec![second.nozzle, second.barrel, second.turret, second.vehicle])
    );
    assert_eq!(
        tree.world_chain(first.nozzle),
        Ok(vec![first.nozzle, first.barrel, first.turret, first.vehicle])
    );
}

#[test]
fn modules_are_bound_to_their_bodies() {
    let mut tree = KinematicTree::new();
    tree.add_entity();
    tree.add_entity();
    let tank = spawn_tank(&mut tree, 0);
    let bodies = tank.entities;
    assert_eq!(tank.body_of(MODULE_TANK_CLOCK), None);
    assert_eq!(tank.body_of(MODULE_TANK_DIFF_DRIVE), Some(bodies.vehicle));
    assert_eq!(tank.body_of(MODULE_TANK_REVOLUTE_TURRET), Some(bodies.turret));
    assert_eq!(tank.body_of(MODULE_TANK_REVOLUTE_BARREL), Some(bodies.barrel));
    assert_eq!(tank.body_of(MODULE_TANK_CANNON), Some(bodies.nozzle));
    assert_eq!(tank.body_of(0x1400), None);
    assert_eq!(
        (bodies.vehicle, bodies.turret, bodies.barrel, bodies.nozzle),
        (2, 3, 4, 5)
    );
    // Every module that the tank offers is the clock or bound to a body.
    for module in tank.registers.list_modules() {
        assert_eq!(tank.body_of(module).is_none(), module == MODULE_TANK_CLOCK);
    }
}
