//! The tank: its bodies, and the modules that its control program sees.

use crate::kinematics::{chain_of, root_at, KinematicTree};
use crate::modules::{add_cannon_module, add_clock_module, add_diff_drive_module};
use crate::modules::add_revolute_module;
use crate::register_map::{RegisterMap, RegisterMapView};
use vstd::prelude::*;

verus! {

/// Module id of the clock.
pub const MODULE_TANK_CLOCK: u32 = 0x0100;

/// Module id of the drivetrain.
pub const MODULE_TANK_DIFF_DRIVE: u32 = 0x1000;

/// Module id of the joint that turns the turret.
pub const MODULE_TANK_REVOLUTE_TURRET: u32 = 0x1100;

/// Module id of the joint that lifts the barrel.
pub const MODULE_TANK_REVOLUTE_BARREL: u32 = 0x1200;

/// Module id of the cannon.
pub const MODULE_TANK_CANNON: u32 = 0x1300;

/// The bodies of one tank.
#[derive(Clone, Copy, Debug)]
pub struct TankEntities {
    /// The hull, root of the tank.
    pub vehicle: usize,
    /// The turret, on the hull.
    pub turret: usize,
    /// The barrel, on the turret.
    pub barrel: usize,
    /// The muzzle, on the barrel; it carries the cannon.
    pub nozzle: usize,
    /// The flag, on the hull.
    pub flag: usize,
}

/// A tank as it was assembled.
pub struct Tank {
    pub entities: TankEntities,
    /// The register map of the tank's control program.
    pub registers: RegisterMap,
}

/// The body whose part a module of the tank controls: the drivetrain moves
/// the hull, each joint its own body, and the cannon sits on the muzzle. The
/// clock belongs to no body, and other ids name no module of the tank.
pub open spec fn spec_body_of(entities: TankEntities, module: u32) -> Option<usize> {
    if module == MODULE_TANK_DIFF_DRIVE {
        Some(entities.vehicle)
    } else if module == MODULE_TANK_REVOLUTE_TURRET {
        Some(entities.turret)
    } else if module == MODULE_TANK_REVOLUTE_BARREL {
        Some(entities.barrel)
    } else if module == MODULE_TANK_CANNON {
        Some(entities.nozzle)
    } else {
        None
    }
}

impl TankEntities {
    /// The body whose part a module of the tank controls, if it controls
    /// one.
    pub fn body_of(&self, module: u32) -> (body: Option<usize>)
        ensures
            body == spec_body_of(*self, module),
    {
        if module == MODULE_TANK_DIFF_DRIVE {
            Some(self.vehicle)
        } else if module == MODULE_TANK_REVOLUTE_TURRET {
            Some(self.turret)
        } else if module == MODULE_TANK_REVOLUTE_BARREL {
            Some(self.barrel)
        } else if module == MODULE_TANK_CANNON {
            Some(self.nozzle)
        } else {
            None
        }
    }
}

impl Tank {
    /// The body whose part a module of the tank controls, if it controls
    /// one.
    pub fn body_of(&self, module: u32) -> (body: Option<usize>)
        ensures
            body == spec_body_of(self.entities, module),
    {
        self.entities.body_of(module)
    }
}

/// The register map of a tank whose cannon has the reload time, in seconds,
/// with the bit pattern `reload_time`.
pub open spec fn tank_registers(reload_time: u32) -> RegisterMapView {
    RegisterMapView::empty().with_clock(MODULE_TANK_CLOCK, "clock"@).with_diff_drive(
        MODULE_TANK_DIFF_DRIVE,
        "base"@,
    ).with_revolute(MODULE_TANK_REVOLUTE_TURRET, "turret"@).with_revolute(
        MODULE_TANK_REVOLUTE_BARREL,
        "barrel"@,
    ).with_cannon(MODULE_TANK_CANNON, "cannon"@, reload_time)
}

/// The parent table with the five bodies of a tank added.
pub open spec fn with_tank(parents: Seq<Option<usize>>) -> Seq<Option<usize>> {
    let vehicle = parents.len() as usize;
    let turret = (parents.len() + 1) as usize;
    let barrel = (parents.len() + 2) as usize;
    parents.push(None).push(Some(vehicle)).push(Some(turret)).push(Some(barrel)).push(
        Some(vehicle),
    )
}

/// Assembles a tank: adds its bodies to the kinematic tree, the hull as the
/// root, turret, barrel and muzzle in a chain above it and the flag on the
/// hull, and builds its register map with the modules of clock, drivetrain,
/// turret joint, barrel joint and cannon under their fixed ids. The
/// drivetrain is bound to the hull, each joint to its body, and the cannon
/// to the muzzle.
pub fn spawn_tank(tree: &mut KinematicTree, reload_time: u32) -> (tank: Tank)
    ensures
        final(tree)@ == with_tank(old(tree)@),
        tank.entities.vehicle == old(tree)@.len(),
        tank.entities.turret == old(tree)@.len() + 1,
        tank.entities.barrel == old(tree)@.len() + 2,
        tank.entities.nozzle == old(tree)@.len() + 3,
        tank.entities.flag == old(tree)@.len() + 4,
        root_at(final(tree)@, tank.entities.nozzle, 3),
        chain_of(final(tree)@, tank.entities.nozzle, 4) == seq![
            tank.entities.nozzle,
            tank.entities.barrel,
            tank.entities.turret,
            tank.entities.vehicle,
        ],
        tank.registers.wf(),
        tank.registers@ == tank_registers(reload_time),
        spec_body_of(tank.entities, MODULE_TANK_CLOCK) == None::<usize>,
        spec_body_of(tank.entities, MODULE_TANK_DIFF_DRIVE) == Some(tank.entities.vehicle),
        spec_body_of(tank.entities, MODULE_TANK_REVOLUTE_TURRET) == Some(tank.entities.turret),
        spec_body_of(tank.entities, MODULE_TANK_REVOLUTE_BARREL) == Some(tank.entities.barrel),
        spec_body_of(tank.entities, MODULE_TANK_CANNON) == Some(tank.entities.nozzle),
{
    // Create the base tank, root element with the health.
    let vehicle = tree.add_entity();
    // Add the turret entity.
    let turret = tree.add_entity();
    tree.set_parent(turret, vehicle);
    // Add the barrel entity.
    let barrel = tree.add_entity();
    tree.set_parent(barrel, turret);
    // The nozzle carries the cannon.
    let nozzle = tree.add_entity();
    tree.set_parent(nozzle, barrel);
    let flag = tree.add_entity();
    tree.set_parent(flag, vehicle);
    proof {
        assert(tree@ =~= with_tank(old(tree)@));
        let parents = tree@;
        reveal_with_fuel(crate::kinematics::ancestor, 5);
        assert(crate::kinematics::ancestor(parents, nozzle, 0) == Some(nozzle));
        assert(crate::kinematics::ancestor(parents, nozzle, 1) == Some(barrel));
        assert(crate::kinematics::ancestor(parents, nozzle, 2) == Some(turret));
        assert(crate::kinematics::ancestor(parents, nozzle, 3) == Some(vehicle));
        assert(chain_of(parents, nozzle, 4) =~= seq![nozzle, barrel, turret, vehicle]);
    }

    let mut registers = RegisterMap::new();
    add_clock_module(&mut registers, "clock", MODULE_TANK_CLOCK);
    add_diff_drive_module(&mut registers, "base", MODULE_TANK_DIFF_DRIVE);
    add_revolute_module(&mut registers, "turret", MODULE_TANK_REVOLUTE_TURRET);
    add_revolute_module(&mut registers, "barrel", MODULE_TANK_REVOLUTE_BARREL);
    add_cannon_module(&mut registers, "cannon", MODULE_TANK_CANNON, reload_time);

    Tank { entities: TankEntities { vehicle, turret, barrel, nozzle, flag }, registers }
}

} // verus!
