use battleground_construct::config::{Unit, WasmControlConfig};

#[test]
fn default_control_config_reloads_and_sets_no_limits() {
    let config = WasmControlConfig::default();
    assert_eq!(
        config,
        WasmControlConfig {
            path: "".to_owned(),
            fuel_per_update: None,
            fuel_for_setup: None,
            reload: true,
        }
    );
}

#[test]
fn default_unit_is_a_tank() {
    assert_eq!(Unit::default(), Unit::Tank);
    assert_ne!(Unit::default(), Unit::Artillery);
}
