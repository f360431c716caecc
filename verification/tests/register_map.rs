use battleground_construct::register_map::{Access, RegisterError, RegisterMap, Value, ValueType};

fn turret_map() -> RegisterMap {
    let mut map = RegisterMap::new();
    map.add_module("turret", 0x1100);
    map.add_module("clock", 0x0100);
    map.add_module("cannon", 0x1300);
    assert_eq!(
        map.add_register(0x1100, 4, "velocity_cmd", Access::ReadWrite, Value::F32(0)),
        Ok(())
    );
    assert_eq!(
        map.add_register(0x1100, 0, "position", Access::ReadOnly, Value::F32(1.5f32.to_bits())),
        Ok(())
    );
    assert_eq!(
        map.add_register(0x1300, 0, "trigger", Access::WriteOnly, Value::I32(0)),
        Ok(())
    );
    assert_eq!(
        map.add_register(0x1300, 1, "ready", Access::ReadOnly, Value::Bool(true)),
        Ok(())
    );
    map
}

#[test]
fn value_types() {
    assert_eq!(Value::Bool(true).value_type(), ValueType::Bool);
    assert_eq!(Value::I32(-3).value_type(), ValueType::I32);
    assert_eq!(Value::F32(0).value_type(), ValueType::F32);
}

#[test]
fn access_modes() {
    assert!(Access::ReadOnly.readable());
    assert!(!Access::ReadOnly.writable());
    assert!(!Access::WriteOnly.readable());
    assert!(Access::WriteOnly.writable());
    assert!(Access::ReadWrite.readable());
    assert!(Access::ReadWrite.writable());
}

#[test]
fn empty_map_has_no_modules() {
    let map = RegisterMap::new();
    assert_eq!(map.list_modules(), Vec::<u32>::new());
    assert_eq!(map.module_name(1), Err(RegisterError::UnknownModule));
    assert_eq!(map.list_registers(1), Err(RegisterError::UnknownModule));
    assert_eq!(map.read(1, 1), Err(RegisterError::UnknownModule));
}

#[test]
fn modules_and_registers_are_listed_ascending() {
    let map = turret_map();
    assert_eq!(map.list_modules(), vec![0x0100, 0x1100, 0x1300]);
    assert_eq!(map.list_registers(0x1100), Ok(vec![0, 4]));
    assert_eq!(map.list_registers(0x0100), Ok(vec![]));
    assert_eq!(map.list_registers(0x1300), Ok(vec![0, 1]));
    assert_eq!(map.list_registers(0x1400), Err(RegisterError::UnknownModule));
}

#[test]
fn names_are_kept() {
    let map = turret_map();
    assert_eq!(map.module_name(0x1100), Ok("turret".to_string()));
    assert_eq!(map.module_name(0x0100), Ok("clock".to_string()));
    assert_eq!(map.module_name(0x0101), Err(RegisterError::UnknownModule));
    assert_eq!(map.register_name(0x1100, 4), Ok("velocity_cmd".to_string()));
    assert_eq!(map.register_name(0x1100, 0), Ok("position".to_string()));
    assert_eq!(map.register_name(0x1100, 1), Err(RegisterError::UnknownRegister));
    assert_eq!(map.register_name(0x1101, 0), Err(RegisterError::UnknownModule));
}

#[test]
fn write_then_read_round_trip() {
    let mut map = turret_map();
    let value = Value::F32((-0.25f32).to_bits());
    assert_eq!(map.write(0x1100, 4, value), Ok(()));
    assert_eq!(map.read(0x1100, 4), Ok(value));
    // A NaN comes back bit for bit.
    let nan = Value::F32(0x7FC0_1234);
    assert_eq!(map.write(0x1100, 4, nan), Ok(()));
    assert_eq!(map.read(0x1100, 4), Ok(nan));
}

#[test]
fn mistyped_write_is_refused_and_changes_nothing() {
    let mut map = turret_map();
    assert_eq!(map.write(0x1100, 4, Value::F32(77)), Ok(()));
    assert_eq!(map.write(0x1100, 4, Value::I32(5)), Err(RegisterError::TypeMismatch));
    assert_eq!(map.write(0x1100, 4, Value::Bool(true)), Err(RegisterError::TypeMismatch));
    assert_eq!(map.read(0x1100, 4), Ok(Value::F32(77)));
}

#[test]
fn reading_a_write_only_register_is_denied() {
    let mut map = turret_map();
    assert_eq!(map.read(0x1300, 0), Err(RegisterError::AccessDenied));
    assert_eq!(map.write(0x1300, 0, Value::I32(1)), Ok(()));
    assert_eq!(map.read(0x1300, 0), Err(RegisterError::AccessDenied));
    assert_eq!(map.peek(0x1300, 0), Ok(Value::I32(1)));
}

#[test]
fn writing_a_read_only_register_is_denied() {
    let mut map = turret_map();
    assert_eq!(map.write(0x1100, 0, Value::F32(0)), Err(RegisterError::AccessDenied));
    // Access is judged before the type.
    assert_eq!(map.write(0x1100, 0, Value::I32(0)), Err(RegisterError::AccessDenied));
    assert_eq!(map.read(0x1100, 0), Ok(Value::F32(1.5f32.to_bits())));
}

#[test]
fn unknown_addresses_are_reported() {
    let mut map = turret_map();
    assert_eq!(map.read(0x2000, 0), Err(RegisterError::UnknownModule));
    assert_eq!(map.read(0x1100, 9), Err(RegisterError::UnknownRegister));
    assert_eq!(map.write(0x2000, 0, Value::I32(0)), Err(RegisterError::UnknownModule));
    assert_eq!(map.write(0x1100, 9, Value::I32(0)), Err(RegisterError::UnknownRegister));
    assert_eq!(map.peek(0x2000, 0), Err(RegisterError::UnknownModule));
    assert_eq!(map.peek(0x0100, 0), Err(RegisterError::UnknownRegister));
    assert_eq!(map.expose(0x2000, 0, Value::I32(0)), Err(RegisterError::UnknownModule));
    assert_eq!(map.expose(0x1100, 9, Value::I32(0)), Err(RegisterError::UnknownRegister));
}

#[test]
fn a_write_leaves_the_other_registers_alone() {
    let mut map = turret_map();
    assert_eq!(map.write(0x1100, 4, Value::F32(5)), Ok(()));
    assert_eq!(map.read(0x1100, 0), Ok(Value::F32(1.5f32.to_bits())));
    assert_eq!(map.read(0x1300, 1), Ok(Value::Bool(true)));
    assert_eq!(map.peek(0x1300, 0), Ok(Value::I32(0)));
    assert_eq!(map.list_modules(), vec![0x0100, 0x1100, 0x1300]);
    assert_eq!(map.list_registers(0x1100), Ok(vec![0, 4]));
    assert_eq!(map.register_name(0x1100, 4), Ok("velocity_cmd".to_string()));
}

#[test]
fn adapters_expose_into_read_only_registers() {
    let mut map = turret_map();
    assert_eq!(map.expose(0x1100, 0, Value::F32(9)), Ok(()));
    assert_eq!(map.read(0x1100, 0), Ok(Value::F32(9)));
    assert_eq!(map.expose(0x1100, 0, Value::I32(9)), Err(RegisterError::TypeMismatch));
    assert_eq!(map.read(0x1100, 0), Ok(Value::F32(9)));
    assert_eq!(map.expose(0x1300, 1, Value::Bool(false)), Ok(()));
    assert_eq!(map.read(0x1300, 1), Ok(Value::Bool(false)));
}

#[test]
fn exposing_is_idempotent_and_independent_of_order() {
    let mut one = turret_map();
    let mut other = turret_map();
    assert_eq!(one.expose(0x1100, 0, Value::F32(3)), Ok(()));
    assert_eq!(one.expose(0x1300, 1, Value::Bool(false)), Ok(()));
    assert_eq!(other.expose(0x1300, 1, Value::Bool(false)), Ok(()));
    assert_eq!(other.expose(0x1100, 0, Value::F32(3)), Ok(()));
    assert_eq!(other.expose(0x1100, 0, Value::F32(3)), Ok(()));
    for (module, register) in [(0x1100, 0), (0x1100, 4), (0x1300, 0), (0x1300, 1)] {
        assert_eq!(one.peek(module, register), other.peek(module, register));
    }
    assert_eq!(one.peek(0x1100, 0), Ok(Value::F32(3)));
}

#[test]
fn typed_access() {
    let mut map = turret_map();
    assert_eq!(map.set_f32(0x1100, 4, 0.3f32.to_bits()), Ok(()));
    assert_eq!(map.get_f32(0x1100, 4), Ok(0.3f32.to_bits()));
    assert_eq!(map.get_i32(0x1100, 4), Err(RegisterError::TypeMismatch));
    assert_eq!(map.set_i32(0x1100, 4, 1), Err(RegisterError::TypeMismatch));
    assert_eq!(map.set_i32(0x1300, 0, 1), Ok(()));
    assert_eq!(map.get_i32(0x1300, 0), Err(RegisterError::AccessDenied));
    assert_eq!(map.get_f32(0x1300, 1), Err(RegisterError::TypeMismatch));
    assert_eq!(map.get_i32(0x1300, 7), Err(RegisterError::UnknownRegister));
    assert_eq!(map.get_f32(0x1301, 7), Err(RegisterError::UnknownModule));
    assert_eq!(map.set_f32(0x1100, 0, 0), Err(RegisterError::AccessDenied));
}

#[test]
fn adding_a_register_to_an_unknown_module_fails() {
    let mut map = turret_map();
    assert_eq!(
        map.add_register(0x9999, 0, "x", Access::ReadWrite, Value::I32(0)),
        Err(RegisterError::UnknownModule)
    );
    assert_eq!(map.list_modules(), vec![0x0100, 0x1100, 0x1300]);
}

#[test]
fn adding_again_replaces() {
    let mut map = turret_map();
    assert_eq!(
        map.add_register(0x1100, 4, "cmd", Access::ReadOnly, Value::I32(3)),
        Ok(())
    );
    assert_eq!(map.list_registers(0x1100), Ok(vec![0, 4]));
    assert_eq!(map.register_name(0x1100, 4), Ok("cmd".to_string()));
    assert_eq!(map.read(0x1100, 4), Ok(Value::I32(3)));
    assert_eq!(map.write(0x1100, 4, Value::I32(4)), Err(RegisterError::AccessDenied));
    map.add_module("tower", 0x1100);
    assert_eq!(map.module_name(0x1100), Ok("tower".to_string()));
    assert_eq!(map.list_registers(0x1100), Ok(vec![]));
    assert_eq!(map.list_modules(), vec![0x0100, 0x1100, 0x1300]);
}

#[test]
fn offers_tells_type_and_access() {
    let map = turret_map();
    assert!(map.offers(0x1100, 4, ValueType::F32, true, true));
    assert!(!map.offers(0x1100, 4, ValueType::I32, true, true));
    assert!(map.offers(0x1100, 0, ValueType::F32, true, false));
    assert!(!map.offers(0x1100, 0, ValueType::F32, true, true));
    assert!(map.offers(0x1300, 0, ValueType::I32, false, true));
    assert!(!map.offers(0x1300, 0, ValueType::I32, true, false));
    assert!(!map.offers(0x1300, 5, ValueType::I32, false, false));
    assert!(!map.offers(0x1301, 0, ValueType::I32, false, false));
}

#[test]
fn many_modules_in_any_order() {
    let mut map = RegisterMap::new();
    for id in [50u32, 10, 40, 20, 30, 0, u32::MAX, 25] {
        map.add_module("m", id);
        assert_eq!(
            map.add_register(id, id / 2, "r", Access::ReadWrite, Value::I32(id as i32)),
            Ok(())
        );
    }
    assert_eq!(map.list_modules(), vec![0, 10, 20, 25, 30, 40, 50, u32::MAX]);
    for id in [50u32, 10, 40, 20, 30, 0, u32::MAX, 25] {
        assert_eq!(map.read(id, id / 2), Ok(Value::I32(id as i32)));
        assert_eq!(map.list_registers(id), Ok(vec![id / 2]));
    }
}
