//! Core of a simulator of articulated units: vehicles built from a tree of
//! rigid bodies, driven by control programs that see their unit through
//! numbered registers and nothing else.
//!
//! - [`kinematics`] walks the parent chain of a body, from the body to the
//!   root of its tree, and tells a chain that ends from one that runs into a
//!   cycle.
//! - [`register_map`] holds the modules and registers of a unit, with their
//!   types and access modes.
//! - [`modules`] has the adapters that carry the state of a unit's parts into
//!   registers and the commands of the control program back.
//! - [`gun_battery`] schedules the guns of a weapon: reloads, spacing, and
//!   the round-robin order of fire.
//! - [`fuel`] and [`control`] bound what a control program may compute in
//!   one invocation.
//! - [`construct`] runs the control phase of a tick over all units.
//! - [`match_logic`] decides when a match is over.
//! - [`tank`] assembles a tank, and [`tank_swivel_shoot`] is a control
//!   program for it.
//!
//! Two conventions hold throughout. Time is counted in ticks of the
//! simulation clock, as integers. Floats, which the register protocol
//! carries, are held as their IEEE-754 bit patterns; [`float_bits`] orders
//! and negates them as the floats they stand for.

pub mod config;
pub mod construct;
pub mod control;
pub mod float_bits;
pub mod fuel;
pub mod gun_battery;
pub mod kinematics;
pub mod match_logic;
pub mod modules;
pub mod register_map;
pub mod tank;
pub mod tank_swivel_shoot;
