//! A built-in control program for the tank: it keeps the trigger pulled and
//! swivels turret and barrel back and forth.
//!
//! Like every control program it sees the unit through the register map
//! alone. Floats are read, compared and written as bit patterns.

use crate::float_bits::{float_gt, float_lt, float_neg, less, negated};
use crate::modules::{REG_CANNON_FIRING, REG_CLOCK_ELAPSED, REG_REVOLUTE_POSITION};
use crate::modules::{REG_REVOLUTE_VELOCITY, REG_REVOLUTE_VELOCITY_CMD};
use crate::register_map::{expect_float_bits, RegisterError, RegisterMap, RegisterMapView};
use crate::register_map::{Value, ValueType};
use crate::tank::{tank_registers, MODULE_TANK_CANNON, MODULE_TANK_CLOCK};
use crate::tank::{MODULE_TANK_REVOLUTE_BARREL, MODULE_TANK_REVOLUTE_TURRET};
use vstd::prelude::*;

verus! {

/// 0.1: the seconds after the start during which the joints are set going.
pub const STARTUP_SECONDS: u32 = 0x3DCC_CCCD;

/// 0.3: the velocity that sets the turret going.
pub const TURRET_START_VELOCITY: u32 = 0x3E99_999A;

/// -0.1: the velocity that sets the barrel going.
pub const BARREL_START_VELOCITY: u32 = 0xBDCC_CCCD;

/// π.
pub const PI: u32 = 0x4049_0FDB;

/// π / 8.
pub const PI_EIGHTH: u32 = 0x3EC9_0FDB;

/// 2π - π / 8.
pub const TURN_LESS_PI_EIGHTH: u32 = 0x40BC_7EDD;

/// The turret turns back when it has left the arc of π / 8 to either side
/// of straight ahead.
pub open spec fn turret_turns_back(position: u32) -> bool {
    (less(PI, position) && less(position, TURN_LESS_PI_EIGHTH)) || (less(PI_EIGHTH, position)
        && less(position, PI))
}

/// The barrel turns back when it is below the last π / 8 of the turn.
pub open spec fn barrel_turns_back(position: u32) -> bool {
    less(position, TURN_LESS_PI_EIGHTH) || less(position, PI_EIGHTH)
}

/// The float that a control program reads from a register, zero where the
/// read is refused.
pub open spec fn reading(map: RegisterMapView, module: u32, register: u32) -> u32 {
    match expect_float_bits(map.read(module, register)) {
        Ok(bits) => bits,
        Err(_) => 0,
    }
}

/// The map with the joint of `module` sent the other way: its commanded
/// velocity is the opposite of its velocity.
pub open spec fn reversed(map: RegisterMapView, module: u32) -> RegisterMapView {
    map.written(
        module,
        REG_REVOLUTE_VELOCITY_CMD,
        Value::F32(negated(reading(map, module, REG_REVOLUTE_VELOCITY))),
    )
}

/// The registers of a joint that the program uses.
pub open spec fn joint_offered(map: RegisterMapView, module: u32) -> bool {
    &&& map.offers(module, REG_REVOLUTE_POSITION, ValueType::F32, true, false)
    &&& map.offers(module, REG_REVOLUTE_VELOCITY, ValueType::F32, true, false)
    &&& map.offers(module, REG_REVOLUTE_VELOCITY_CMD, ValueType::F32, false, true)
}

/// The unit offers what the program uses: the trigger of the cannon, the
/// clock, and position, velocity and commanded velocity of both joints.
pub open spec fn controllable(map: RegisterMapView) -> bool {
    &&& map.offers(MODULE_TANK_CANNON, REG_CANNON_FIRING, ValueType::I32, false, true)
    &&& map.offers(MODULE_TANK_CLOCK, REG_CLOCK_ELAPSED, ValueType::F32, true, false)
    &&& joint_offered(map, MODULE_TANK_REVOLUTE_TURRET)
    &&& joint_offered(map, MODULE_TANK_REVOLUTE_BARREL)
}

/// The registers after one update of the program on a unit that offers what
/// the program uses. The trigger is pulled.
/// During the first tenth of a second the turret is set going at 0.3 and the
/// barrel at -0.1. After that each joint that is to turn back is commanded
/// the opposite of its velocity, the turret first.
pub open spec fn commanded(map: RegisterMapView) -> RegisterMapView {
    let armed = map.written(MODULE_TANK_CANNON, REG_CANNON_FIRING, Value::I32(1));
    if less(reading(armed, MODULE_TANK_CLOCK, REG_CLOCK_ELAPSED), STARTUP_SECONDS) {
        armed.written(
            MODULE_TANK_REVOLUTE_TURRET,
            REG_REVOLUTE_VELOCITY_CMD,
            Value::F32(TURRET_START_VELOCITY),
        ).written(
            MODULE_TANK_REVOLUTE_BARREL,
            REG_REVOLUTE_VELOCITY_CMD,
            Value::F32(BARREL_START_VELOCITY),
        )
    } else {
        let turret = if turret_turns_back(
            reading(armed, MODULE_TANK_REVOLUTE_TURRET, REG_REVOLUTE_POSITION),
        ) {
            reversed(armed, MODULE_TANK_REVOLUTE_TURRET)
        } else {
            armed
        };
        if barrel_turns_back(reading(turret, MODULE_TANK_REVOLUTE_BARREL, REG_REVOLUTE_POSITION)) {
            reversed(turret, MODULE_TANK_REVOLUTE_BARREL)
        } else {
            turret
        }
    }
}

/// What one update leaves behind: its result, and the registers.
pub struct Outcome {
    pub result: Result<(), RegisterError>,
    pub registers: RegisterMapView,
}

/// The float that the program reads from a register, or why it gets none.
pub open spec fn float_read(map: RegisterMapView, module: u32, register: u32) -> Result<
    u32,
    RegisterError,
> {
    expect_float_bits(map.read(module, register))
}

/// The update ended at a refused access, with the registers as they stood.
pub open spec fn stopped(error: RegisterError, registers: RegisterMapView) -> Outcome {
    Outcome { result: Err(error), registers }
}

/// The update ended well.
pub open spec fn finished(registers: RegisterMapView) -> Outcome {
    Outcome { result: Ok(()), registers }
}

/// The program writes one register.
pub open spec fn after_write(
    map: RegisterMapView,
    module: u32,
    register: u32,
    value: Value,
) -> Outcome {
    Outcome {
        result: map.check_write(module, register, value),
        registers: map.written(module, register, value),
    }
}

/// The program sends a joint the other way: it reads the velocity and
/// commands its opposite.
pub open spec fn after_reverse(map: RegisterMapView, module: u32) -> Outcome {
    match float_read(map, module, REG_REVOLUTE_VELOCITY) {
        Err(error) => stopped(error, map),
        Ok(velocity) => after_write(
            map,
            module,
            REG_REVOLUTE_VELOCITY_CMD,
            Value::F32(negated(velocity)),
        ),
    }
}

/// The program sets both joints going, the turret first.
pub open spec fn after_startup(map: RegisterMapView) -> Outcome {
    let turret = after_write(
        map,
        MODULE_TANK_REVOLUTE_TURRET,
        REG_REVOLUTE_VELOCITY_CMD,
        Value::F32(TURRET_START_VELOCITY),
    );
    if turret.result is Err {
        turret
    } else {
        after_write(
            turret.registers,
            MODULE_TANK_REVOLUTE_BARREL,
            REG_REVOLUTE_VELOCITY_CMD,
            Value::F32(BARREL_START_VELOCITY),
        )
    }
}

/// The program looks at the turret and turns it back if it is to.
pub open spec fn after_turret(map: RegisterMapView) -> Outcome {
    match float_read(map, MODULE_TANK_REVOLUTE_TURRET, REG_REVOLUTE_POSITION) {
        Err(error) => stopped(error, map),
        Ok(position) => if turret_turns_back(position) {
            after_reverse(map, MODULE_TANK_REVOLUTE_TURRET)
        } else {
            finished(map)
        },
    }
}

/// The program looks at the barrel and turns it back if it is to.
pub open spec fn after_barrel(map: RegisterMapView) -> Outcome {
    match float_read(map, MODULE_TANK_REVOLUTE_BARREL, REG_REVOLUTE_POSITION) {
        Err(error) => stopped(error, map),
        Ok(position) => if barrel_turns_back(position) {
            after_reverse(map, MODULE_TANK_REVOLUTE_BARREL)
        } else {
            finished(map)
        },
    }
}

/// One update of the program on any unit. The program pulls the trigger
/// and reads the clock. During the first tenth of a second it sets the
/// joints going and touches nothing else. After that it looks at the
/// turret and then at the barrel. The first access that the unit refuses
/// ends the update with that error; what was written before stands.
pub open spec fn after_update(map: RegisterMapView) -> Outcome {
    let armed = after_write(map, MODULE_TANK_CANNON, REG_CANNON_FIRING, Value::I32(1));
    if armed.result is Err {
        armed
    } else {
        match float_read(armed.registers, MODULE_TANK_CLOCK, REG_CLOCK_ELAPSED) {
            Err(error) => stopped(error, armed.registers),
            Ok(clock) => if less(clock, STARTUP_SECONDS) {
                after_startup(armed.registers)
            } else {
                let turret = after_turret(armed.registers);
                if turret.result is Err {
                    turret
                } else {
                    after_barrel(turret.registers)
                }
            },
        }
    }
}

/// A write keeps everything that the unit offers: it changes a value, never
/// a type or an access mode.
pub proof fn lemma_write_keeps_controllable(
    map: RegisterMapView,
    module: u32,
    register: u32,
    value: Value,
)
    ensures
        controllable(map) ==> controllable(map.written(module, register, value)),
{
    map.lemma_write_frame(module, register, value, MODULE_TANK_CANNON, REG_CANNON_FIRING);
    map.lemma_write_frame(module, register, value, MODULE_TANK_CLOCK, REG_CLOCK_ELAPSED);
    map.lemma_write_frame(module, register, value, MODULE_TANK_REVOLUTE_TURRET, REG_REVOLUTE_POSITION);
    map.lemma_write_frame(module, register, value, MODULE_TANK_REVOLUTE_TURRET, REG_REVOLUTE_VELOCITY);
    map.lemma_write_frame(
        module,
        register,
        value,
        MODULE_TANK_REVOLUTE_TURRET,
        REG_REVOLUTE_VELOCITY_CMD,
    );
    map.lemma_write_frame(module, register, value, MODULE_TANK_REVOLUTE_BARREL, REG_REVOLUTE_POSITION);
    map.lemma_write_frame(module, register, value, MODULE_TANK_REVOLUTE_BARREL, REG_REVOLUTE_VELOCITY);
    map.lemma_write_frame(
        module,
        register,
        value,
        MODULE_TANK_REVOLUTE_BARREL,
        REG_REVOLUTE_VELOCITY_CMD,
    );
}

/// A joint of a unit that offers what the program uses is sent the other
/// way without a refusal.
proof fn lemma_reverse_succeeds(map: RegisterMapView, module: u32)
    requires
        controllable(map),
        module == MODULE_TANK_REVOLUTE_TURRET || module == MODULE_TANK_REVOLUTE_BARREL,
    ensures
        after_reverse(map, module) == finished(reversed(map, module)),
        controllable(reversed(map, module)),
{
    lemma_write_keeps_controllable(
        map,
        module,
        REG_REVOLUTE_VELOCITY_CMD,
        Value::F32(negated(reading(map, module, REG_REVOLUTE_VELOCITY))),
    );
}

/// On a unit that offers what the program uses, no access is refused: the
/// update ends well, with the registers commanded, and the unit goes on to
/// offer what the program uses.
pub proof fn lemma_update_succeeds(map: RegisterMapView)
    requires
        controllable(map),
    ensures
        after_update(map) == finished(commanded(map)),
        controllable(commanded(map)),
{
    let trigger = Value::I32(1);
    let armed = map.written(MODULE_TANK_CANNON, REG_CANNON_FIRING, trigger);
    lemma_write_keeps_controllable(map, MODULE_TANK_CANNON, REG_CANNON_FIRING, trigger);
    if less(reading(armed, MODULE_TANK_CLOCK, REG_CLOCK_ELAPSED), STARTUP_SECONDS) {
        let turret = armed.written(
            MODULE_TANK_REVOLUTE_TURRET,
            REG_REVOLUTE_VELOCITY_CMD,
            Value::F32(TURRET_START_VELOCITY),
        );
        lemma_write_keeps_controllable(
            armed,
            MODULE_TANK_REVOLUTE_TURRET,
            REG_REVOLUTE_VELOCITY_CMD,
            Value::F32(TURRET_START_VELOCITY),
        );
        lemma_write_keeps_controllable(
            turret,
            MODULE_TANK_REVOLUTE_BARREL,
            REG_REVOLUTE_VELOCITY_CMD,
            Value::F32(BARREL_START_VELOCITY),
        );
    } else {
        let turret = if turret_turns_back(
            reading(armed, MODULE_TANK_REVOLUTE_TURRET, REG_REVOLUTE_POSITION),
        ) {
            lemma_reverse_succeeds(armed, MODULE_TANK_REVOLUTE_TURRET);
            reversed(armed, MODULE_TANK_REVOLUTE_TURRET)
        } else {
            armed
        };
        if barrel_turns_back(reading(turret, MODULE_TANK_REVOLUTE_BARREL, REG_REVOLUTE_POSITION)) {
            lemma_reverse_succeeds(turret, MODULE_TANK_REVOLUTE_BARREL);
        }
    }
}

/// A tank as it is assembled offers what the program uses.
pub proof fn lemma_tank_is_controllable(reload_time: u32)
    ensures
        controllable(tank_registers(reload_time)),
{
}

/// Whatever an adapter exposes, the unit goes on to offer what the program
/// uses: exposing changes values, never types or access modes.
pub proof fn lemma_expose_keeps_controllable(
    map: RegisterMapView,
    module: u32,
    register: u32,
    value: Value,
)
    ensures
        controllable(map) ==> controllable(map.exposed(module, register, value)),
{
}

/// The control program.
pub struct TankSwivelShoot {}

impl TankSwivelShoot {
    /// Whether the unit offers everything that the program may use.
    pub fn can_control(interface: &RegisterMap) -> (able: bool)
        requires
            interface.wf(),
        ensures
            able == controllable(interface@),
    {
        interface.offers(MODULE_TANK_CANNON, REG_CANNON_FIRING, ValueType::I32, false, true)
            && interface.offers(MODULE_TANK_CLOCK, REG_CLOCK_ELAPSED, ValueType::F32, true, false)
            && Self::joint_usable(interface, MODULE_TANK_REVOLUTE_TURRET) && Self::joint_usable(
            interface,
            MODULE_TANK_REVOLUTE_BARREL,
        )
    }

    fn joint_usable(interface: &RegisterMap, module: u32) -> (able: bool)
        requires
            interface.wf(),
        ensures
            able == joint_offered(interface@, module),
    {
        interface.offers(module, REG_REVOLUTE_POSITION, ValueType::F32, true, false)
            && interface.offers(module, REG_REVOLUTE_VELOCITY, ValueType::F32, true, false)
            && interface.offers(module, REG_REVOLUTE_VELOCITY_CMD, ValueType::F32, false, true)
    }

    /// Sends the joint of `module` the other way.
    fn reverse(interface: &mut RegisterMap, module: u32) -> (result: Result<(), RegisterError>)
        requires
            old(interface).wf(),
        ensures
            final(interface).wf(),
            result == after_reverse(old(interface)@, module).result,
            final(interface)@ == after_reverse(old(interface)@, module).registers,
    {
        let velocity = interface.get_f32(module, REG_REVOLUTE_VELOCITY)?;
        interface.set_f32(module, REG_REVOLUTE_VELOCITY_CMD, float_neg(velocity))
    }

    /// One update of the program. On a unit that offers what the program
    /// uses it ends well and leaves the registers commanded. On any other
    /// unit it goes as far as the unit lets it: the first access that is
    /// refused ends the update with that error, and what was written before
    /// stands.
    pub fn update(&mut self, interface: &mut RegisterMap) -> (result: Result<(), RegisterError>)
        requires
            old(interface).wf(),
        ensures
            final(interface).wf(),
            result == after_update(old(interface)@).result,
            final(interface)@ == after_update(old(interface)@).registers,
            controllable(old(interface)@) ==> result is Ok && final(interface)@ == commanded(
                old(interface)@,
            ) && controllable(final(interface)@),
    {
        proof {
            if controllable(interface@) {
                lemma_update_succeeds(interface@);
            }
        }
        interface.set_i32(MODULE_TANK_CANNON, REG_CANNON_FIRING, 1)?;

        let clock = interface.get_f32(MODULE_TANK_CLOCK, REG_CLOCK_ELAPSED)?;
        if float_lt(clock, STARTUP_SECONDS) {
            interface.set_f32(
                MODULE_TANK_REVOLUTE_TURRET,
                REG_REVOLUTE_VELOCITY_CMD,
                TURRET_START_VELOCITY,
            )?;
            return interface.set_f32(
                MODULE_TANK_REVOLUTE_BARREL,
                REG_REVOLUTE_VELOCITY_CMD,
                BARREL_START_VELOCITY,
            );
        }

        let turret_pos = interface.get_f32(MODULE_TANK_REVOLUTE_TURRET, REG_REVOLUTE_POSITION)?;
        if (float_gt(turret_pos, PI) && float_lt(turret_pos, TURN_LESS_PI_EIGHTH)) || (float_gt(
            turret_pos,
            PI_EIGHTH,
        ) && float_lt(turret_pos, PI)) {
            Self::reverse(interface, MODULE_TANK_REVOLUTE_TURRET)?;
        }

        let barrel_pos = interface.get_f32(MODULE_TANK_REVOLUTE_BARREL, REG_REVOLUTE_POSITION)?;
        if float_lt(barrel_pos, TURN_LESS_PI_EIGHTH) || float_lt(barrel_pos, PI_EIGHTH) {
            Self::reverse(interface, MODULE_TANK_REVOLUTE_BARREL)?;
        }
        Ok(())
    }
}

} // verus!
