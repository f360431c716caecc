//! The module adapters: the thin layer between the state of a unit's parts
//! and the registers that its control program sees.
//!
//! Each adapter declares the registers of its module once, at assembly. Every
//! tick it exposes the state of its part into the registers before the
//! control program runs, and afterwards hands what the program commanded
//! back to the part. Floats pass through as bit patterns; an adapter copies
//! values and never computes with them. Adapters of different modules touch
//! different registers, so the order in which they run does not matter.

use crate::gun_battery::{BatteryState, GunBattery};
use crate::register_map::{expect_float_bits, expect_i32};
use crate::register_map::{Access, RegisterError, RegisterMap, RegisterMapView, Value};
use vstd::prelude::*;

verus! {

/// Clock: the elapsed simulation time in seconds, float, read-only.
pub const REG_CLOCK_ELAPSED: u32 = 0;

/// Drivetrain: the velocity of the left track, float, read-only.
pub const REG_DIFF_DRIVE_LEFT_VEL: u32 = 0;

/// Drivetrain: the velocity of the right track, float, read-only.
pub const REG_DIFF_DRIVE_RIGHT_VEL: u32 = 1;

/// Drivetrain: the commanded velocity of the left track, float.
pub const REG_DIFF_DRIVE_LEFT_CMD: u32 = 2;

/// Drivetrain: the commanded velocity of the right track, float.
pub const REG_DIFF_DRIVE_RIGHT_CMD: u32 = 3;

/// Joint: the position in radians, float, read-only.
pub const REG_REVOLUTE_POSITION: u32 = 0;

/// Joint: the velocity in radians per second, float, read-only.
pub const REG_REVOLUTE_VELOCITY: u32 = 1;

/// Joint: the commanded velocity, float.
pub const REG_REVOLUTE_VELOCITY_CMD: u32 = 4;

/// Denotes if the cannon is firing, boolean value.
pub const REG_CANNON_FIRING: u32 = 0;

/// Denotes if the cannon is ready to fire, boolean value.
pub const REG_CANNON_READY: u32 = 1;

/// Provides the reload time in seconds, float value.
pub const REG_CANNON_RELOAD_TIME: u32 = 2;

/// The first of two results that is an error, if any.
pub open spec fn first_error(
    first: Result<(), RegisterError>,
    second: Result<(), RegisterError>,
) -> Result<(), RegisterError> {
    if first is Err {
        first
    } else {
        second
    }
}

/// A boolean as registers carry it: one for true, zero for false.
pub open spec fn flag(value: bool) -> Value {
    Value::I32(
        if value {
            1i32
        } else {
            0i32
        },
    )
}

/// The first of two results that is an error, if any.
fn both(first: Result<(), RegisterError>, second: Result<(), RegisterError>) -> (result: Result<
    (),
    RegisterError,
>)
    ensures
        result == first_error(first, second),
{
    match first {
        Err(e) => Err(e),
        Ok(()) => second,
    }
}

/// A boolean as registers carry it.
fn flag_value(value: bool) -> (carried: Value)
    ensures
        carried == flag(value),
{
    if value {
        Value::I32(1)
    } else {
        Value::I32(0)
    }
}

impl RegisterMapView {
    /// The map with a clock module under `module`.
    pub open spec fn with_clock(self, module: u32, name: Seq<char>) -> Self {
        self.with_module(module, name).with_register(
            module,
            REG_CLOCK_ELAPSED,
            "elapsed"@,
            Access::ReadOnly,
            Value::F32(0),
        )
    }

    /// The map with a drivetrain module under `module`.
    pub open spec fn with_diff_drive(self, module: u32, name: Seq<char>) -> Self {
        self.with_module(module, name).with_register(
            module,
            REG_DIFF_DRIVE_LEFT_VEL,
            "left_wheel_vel"@,
            Access::ReadOnly,
            Value::F32(0),
        ).with_register(
            module,
            REG_DIFF_DRIVE_RIGHT_VEL,
            "right_wheel_vel"@,
            Access::ReadOnly,
            Value::F32(0),
        ).with_register(
            module,
            REG_DIFF_DRIVE_LEFT_CMD,
            "left_wheel_cmd"@,
            Access::ReadWrite,
            Value::F32(0),
        ).with_register(
            module,
            REG_DIFF_DRIVE_RIGHT_CMD,
            "right_wheel_cmd"@,
            Access::ReadWrite,
            Value::F32(0),
        )
    }

    /// The map with a joint module under `module`.
    pub open spec fn with_revolute(self, module: u32, name: Seq<char>) -> Self {
        self.with_module(module, name).with_register(
            module,
            REG_REVOLUTE_POSITION,
            "position"@,
            Access::ReadOnly,
            Value::F32(0),
        ).with_register(
            module,
            REG_REVOLUTE_VELOCITY,
            "velocity"@,
            Access::ReadOnly,
            Value::F32(0),
        ).with_register(
            module,
            REG_REVOLUTE_VELOCITY_CMD,
            "velocity_cmd"@,
            Access::ReadWrite,
            Value::F32(0),
        )
    }

    /// The map with a cannon module under `module`, for a cannon whose
    /// reload time in seconds has the bit pattern `reload_time`.
    pub open spec fn with_cannon(self, module: u32, name: Seq<char>, reload_time: u32) -> Self {
        self.with_module(module, name).with_register(
            module,
            REG_CANNON_FIRING,
            "firing"@,
            Access::ReadWrite,
            Value::I32(0),
        ).with_register(
            module,
            REG_CANNON_READY,
            "ready"@,
            Access::ReadOnly,
            Value::I32(0),
        ).with_register(
            module,
            REG_CANNON_RELOAD_TIME,
            "reload_time"@,
            Access::ReadOnly,
            Value::F32(reload_time),
        )
    }
}

/// Declares a clock module: one read-only float register for the elapsed
/// time.
pub fn add_clock_module(map: &mut RegisterMap, name: &str, module: u32)
    requires
        old(map).wf(),
    ensures
        final(map).wf(),
        final(map)@ == old(map)@.with_clock(module, name@),
{
    map.add_module(name, module);
    let _ = map.add_register(
        module,
        REG_CLOCK_ELAPSED,
        "elapsed",
        Access::ReadOnly,
        Value::F32(0),
    );
}

/// Exposes the elapsed time, given as the bit pattern of the seconds.
pub fn expose_clock(map: &mut RegisterMap, module: u32, elapsed: u32) -> (result: Result<
    (),
    RegisterError,
>)
    requires
        old(map).wf(),
    ensures
        final(map).wf(),
        result == old(map)@.check_expose(module, REG_CLOCK_ELAPSED, Value::F32(elapsed)),
        final(map)@ == old(map)@.exposed(module, REG_CLOCK_ELAPSED, Value::F32(elapsed)),
{
    map.expose(module, REG_CLOCK_ELAPSED, Value::F32(elapsed))
}

/// Declares a drivetrain module: the velocities of the two tracks,
/// read-only, and the commanded velocities.
pub fn add_diff_drive_module(map: &mut RegisterMap, name: &str, module: u32)
    requires
        old(map).wf(),
    ensures
        final(map).wf(),
        final(map)@ == old(map)@.with_diff_drive(module, name@),
{
    map.add_module(name, module);
    let _ = map.add_register(
        module,
        REG_DIFF_DRIVE_LEFT_VEL,
        "left_wheel_vel",
        Access::ReadOnly,
        Value::F32(0),
    );
    let _ = map.add_register(
        module,
        REG_DIFF_DRIVE_RIGHT_VEL,
        "right_wheel_vel",
        Access::ReadOnly,
        Value::F32(0),
    );
    let _ = map.add_register(
        module,
        REG_DIFF_DRIVE_LEFT_CMD,
        "left_wheel_cmd",
        Access::ReadWrite,
        Value::F32(0),
    );
    let _ = map.add_register(
        module,
        REG_DIFF_DRIVE_RIGHT_CMD,
        "right_wheel_cmd",
        Access::ReadWrite,
        Value::F32(0),
    );
}

/// Exposes the velocities of the two tracks. Both registers are attempted;
/// the result is the first refusal, if there was one.
pub fn expose_diff_drive(map: &mut RegisterMap, module: u32, left: u32, right: u32) -> (result:
    Result<(), RegisterError>)
    requires
        old(map).wf(),
    ensures
        final(map).wf(),
        final(map)@ == old(map)@.exposed(module, REG_DIFF_DRIVE_LEFT_VEL, Value::F32(left)).exposed(
            module,
            REG_DIFF_DRIVE_RIGHT_VEL,
            Value::F32(right),
        ),
        result == first_error(
            old(map)@.check_expose(module, REG_DIFF_DRIVE_LEFT_VEL, Value::F32(left)),
            old(map)@.exposed(module, REG_DIFF_DRIVE_LEFT_VEL, Value::F32(left)).check_expose(
                module,
                REG_DIFF_DRIVE_RIGHT_VEL,
                Value::F32(right),
            ),
        ),
{
    let first = map.expose(module, REG_DIFF_DRIVE_LEFT_VEL, Value::F32(left));
    let second = map.expose(module, REG_DIFF_DRIVE_RIGHT_VEL, Value::F32(right));
    both(first, second)
}

/// The track velocities that the control program commanded, left and right.
pub fn commanded_track_velocities(map: &RegisterMap, module: u32) -> (result: Result<
    (u32, u32),
    RegisterError,
>)
    requires
        map.wf(),
    ensures
        result == match expect_float_bits(map@.peek(module, REG_DIFF_DRIVE_LEFT_CMD)) {
            Err(e) => Err::<(u32, u32), RegisterError>(e),
            Ok(left) => match expect_float_bits(map@.peek(module, REG_DIFF_DRIVE_RIGHT_CMD)) {
                Err(e) => Err::<(u32, u32), RegisterError>(e),
                Ok(right) => Ok::<(u32, u32), RegisterError>((left, right)),
            },
        },
{
    let left = match peek_float(map, module, REG_DIFF_DRIVE_LEFT_CMD) {
        Ok(bits) => bits,
        Err(e) => {
            return Err(e);
        },
    };
    match peek_float(map, module, REG_DIFF_DRIVE_RIGHT_CMD) {
        Ok(right) => Ok((left, right)),
        Err(e) => Err(e),
    }
}

/// The float that a register holds, as an adapter sees it.
fn peek_float(map: &RegisterMap, module: u32, register: u32) -> (result: Result<u32, RegisterError>)
    requires
        map.wf(),
    ensures
        result == expect_float_bits(map@.peek(module, register)),
{
    match map.peek(module, register) {
        Ok(Value::F32(bits)) => Ok(bits),
        Ok(_) => Err(RegisterError::TypeMismatch),
        Err(e) => Err(e),
    }
}

/// Declares a joint module: position and velocity, read-only, and the
/// commanded velocity.
pub fn add_revolute_module(map: &mut RegisterMap, name: &str, module: u32)
    requires
        old(map).wf(),
    ensures
        final(map).wf(),
        final(map)@ == old(map)@.with_revolute(module, name@),
{
    map.add_module(name, module);
    let _ = map.add_register(
        module,
        REG_REVOLUTE_POSITION,
        "position",
        Access::ReadOnly,
        Value::F32(0),
    );
    let _ = map.add_register(
        module,
        REG_REVOLUTE_VELOCITY,
        "velocity",
        Access::ReadOnly,
        Value::F32(0),
    );
    let _ = map.add_register(
        module,
        REG_REVOLUTE_VELOCITY_CMD,
        "velocity_cmd",
        Access::ReadWrite,
        Value::F32(0),
    );
}

/// Exposes the position and the velocity of a joint. Both registers are
/// attempted; the result is the first refusal, if there was one.
pub fn expose_revolute(map: &mut RegisterMap, module: u32, position: u32, velocity: u32) -> (result:
    Result<(), RegisterError>)
    requires
        old(map).wf(),
    ensures
        final(map).wf(),
        final(map)@ == old(map)@.exposed(module, REG_REVOLUTE_POSITION, Value::F32(position)).exposed(
            module,
            REG_REVOLUTE_VELOCITY,
            Value::F32(velocity),
        ),
        result == first_error(
            old(map)@.check_expose(module, REG_REVOLUTE_POSITION, Value::F32(position)),
            old(map)@.exposed(module, REG_REVOLUTE_POSITION, Value::F32(position)).check_expose(
                module,
                REG_REVOLUTE_VELOCITY,
                Value::F32(velocity),
            ),
        ),
{
    let first = map.expose(module, REG_REVOLUTE_POSITION, Value::F32(position));
    let second = map.expose(module, REG_REVOLUTE_VELOCITY, Value::F32(velocity));
    both(first, second)
}

/// The joint velocity that the control program commanded.
pub fn commanded_joint_velocity(map: &RegisterMap, module: u32) -> (result: Result<
    u32,
    RegisterError,
>)
    requires
        map.wf(),
    ensures
        result == expect_float_bits(map@.peek(module, REG_REVOLUTE_VELOCITY_CMD)),
{
    peek_float(map, module, REG_REVOLUTE_VELOCITY_CMD)
}

/// Declares a cannon module: the trigger, the readiness, read-only, and the
/// reload time in seconds, read-only, given as its bit pattern.
pub fn add_cannon_module(map: &mut RegisterMap, name: &str, module: u32, reload_time: u32)
    requires
        old(map).wf(),
    ensures
        final(map).wf(),
        final(map)@ == old(map)@.with_cannon(module, name@, reload_time),
{
    map.add_module(name, module);
    let _ = map.add_register(module, REG_CANNON_FIRING, "firing", Access::ReadWrite, Value::I32(0));
    let _ = map.add_register(module, REG_CANNON_READY, "ready", Access::ReadOnly, Value::I32(0));
    let _ = map.add_register(
        module,
        REG_CANNON_RELOAD_TIME,
        "reload_time",
        Access::ReadOnly,
        Value::F32(reload_time),
    );
}

/// Exposes the trigger and the readiness of a battery. Both registers are
/// attempted; the result is the first refusal, if there was one.
pub fn expose_cannon<P, E>(map: &mut RegisterMap, module: u32, battery: &GunBattery<P, E>) -> (result:
    Result<(), RegisterError>)
    requires
        old(map).wf(),
    ensures
        final(map).wf(),
        final(map)@ == old(map)@.exposed(
            module,
            REG_CANNON_FIRING,
            flag(battery@.is_triggered),
        ).exposed(module, REG_CANNON_READY, flag(battery@.is_ready)),
        result == first_error(
            old(map)@.check_expose(module, REG_CANNON_FIRING, flag(battery@.is_triggered)),
            old(map)@.exposed(
                module,
                REG_CANNON_FIRING,
                flag(battery@.is_triggered),
            ).check_expose(module, REG_CANNON_READY, flag(battery@.is_ready)),
        ),
{
    let first = map.expose(module, REG_CANNON_FIRING, flag_value(battery.is_triggered()));
    let second = map.expose(module, REG_CANNON_READY, flag_value(battery.is_ready()));
    both(first, second)
}

/// Hands the trigger that the control program commanded to the battery: set
/// for any value but zero. If the register cannot be had, the battery stays
/// as it is.
pub fn apply_cannon<P, E>(map: &RegisterMap, module: u32, battery: &mut GunBattery<P, E>) -> (result:
    Result<(), RegisterError>)
    requires
        map.wf(),
    ensures
        final(battery).config() == old(battery).config(),
        old(battery).wf() ==> final(battery).wf(),
        match expect_i32(map@.peek(module, REG_CANNON_FIRING)) {
            Ok(trigger) => result is Ok && final(battery)@ == (BatteryState {
                is_triggered: trigger != 0,
                ..old(battery)@
            }),
            Err(e) => result == Err::<(), RegisterError>(e) && final(battery)@ == old(battery)@,
        },
{
    match map.peek(module, REG_CANNON_FIRING) {
        Ok(Value::I32(trigger)) => {
            battery.set_trigger(trigger != 0);
            Ok(())
        },
        Ok(_) => Err(RegisterError::TypeMismatch),
        Err(e) => Err(e),
    }
}

} // verus!
