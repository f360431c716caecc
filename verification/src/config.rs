//! Configuration of a scenario, as far as the simulation core reads it.

use vstd::prelude::*;

verus! {

/// How a WebAssembly control program is loaded and budgeted.
#[derive(Debug, Clone, PartialEq, Eq)]
pub struct WasmControlConfig {
    /// Where the program is found.
    pub path: String,
    /// Fuel for each per-tick update; `None` sets no limit.
    pub fuel_per_update: Option<u64>,
    /// Fuel for the one-time setup; `None` sets no limit.
    pub fuel_for_setup: Option<u64>,
    /// Whether a program that ran out of fuel is reloaded and tried again on
    /// the next tick. If not, running out of fuel is fatal to the unit.
    pub reload: bool,
}

impl Default for WasmControlConfig {
    /// No path, no limits, and reloading switched on.
    fn default() -> (config: Self)
        ensures
            config.path@ == Seq::<char>::empty(),
            config.fuel_per_update == None::<u64>,
            config.fuel_for_setup == None::<u64>,
            config.reload,
    {
        Self { path: String::new(), fuel_per_update: None, fuel_for_setup: None, reload: true }
    }
}

/// The kinds of unit that a scenario can spawn.
#[derive(Debug, Copy, Clone, PartialEq, Eq, Structural)]
pub enum Unit {
    Tank,
    Artillery,
}

impl Default for Unit {
    /// A tank.
    fn default() -> (unit: Self)
        ensures
            unit == Unit::Tank,
    {
        Unit::Tank
    }
}

} // verus!
