//! TypeState mode markers and capability traits.
//!
//! The iRobot OI defines four modes. They are encoded as zero-sized marker
//! types so the compiler prevents invalid operations at each mode.

use vstd::prelude::*;
use sealed::{ActuateCapable, FullCapable, Sealed, SensorCapable};

mod sealed;


verus! {

/// Zero-sized marker: robot is not connected.
#[derive(Debug, Clone, Copy, Default)]
pub struct Off;

/// Zero-sized marker: robot is in Passive mode (sensors only).
#[derive(Debug, Clone, Copy, Default)]
pub struct Passive;

/// Zero-sized marker: robot is in Safe mode (sensors + actuators, with safety).
#[derive(Debug, Clone, Copy, Default)]
pub struct Safe;

/// Zero-sized marker: robot is in Full mode (sensors + actuators, no safety).
#[derive(Debug, Clone, Copy, Default)]
pub struct Full;

/// Trait implemented by all OI mode markers.
///
/// This is sealed — external code cannot implement additional modes.
pub trait Mode: Sealed + core::fmt::Debug + Copy + Send + Sync + 'static {
    /// Human-readable name of this mode.
    fn name() -> &'static str;
}

impl Sealed for Off {}
impl Sealed for Passive {}
impl Sealed for Safe {}
impl Sealed for Full {}

impl Mode for Off {
    fn name() -> (s: &'static str)
        ensures
            s == "Off",
    {
        "Off"
    }
}

impl Mode for Passive {
    fn name() -> (s: &'static str)
        ensures
            s == "Passive",
    {
        "Passive"
    }
}

impl Mode for Safe {
    fn name() -> (s: &'static str)
        ensures
            s == "Safe",
    {
        "Safe"
    }
}

impl Mode for Full {
    fn name() -> (s: &'static str)
        ensures
            s == "Full",
    {
        "Full"
    }
}

/// Modes where sensor reading is available: Passive, Safe, Full.
pub trait SensorReadable: Mode + SensorCapable {}

impl SensorCapable for Passive {}
impl SensorCapable for Safe {}
impl SensorCapable for Full {}

impl SensorReadable for Passive {}
impl SensorReadable for Safe {}
impl SensorReadable for Full {}

/// Modes where actuator commands are available: Safe, Full.
pub trait Actuatable: SensorReadable + ActuateCapable {}

impl ActuateCapable for Safe {}
impl ActuateCapable for Full {}

impl Actuatable for Safe {}
impl Actuatable for Full {}

/// Modes where Full-control commands are available: Full only.
///
/// Commands in this category can override all safety checks and affect
/// robot scheduling or simulated inputs.
pub trait FullControl: Actuatable + FullCapable {}

impl FullCapable for Full {}

impl FullControl for Full {}

} // verus!
