//! The settings that the controller reads and changes.

use vstd::prelude::*;

verus! {

/// Limits put on the processor while a fan level is in use.
#[derive(Clone, Copy, Debug, PartialEq, Eq, Structural)]
pub struct PowerProfile {
    /// Lowest performance, in percent.
    pub min_percentage: u8,
    /// Highest performance, in percent.
    pub max_percentage: u8,
    /// Turbo frequencies are off.
    pub no_turbo: bool,
}

/// One profile for each fan level.
#[derive(Clone, Copy, Debug, PartialEq, Eq, Structural)]
pub struct ModePerformance {
    pub normal: PowerProfile,
    pub boost: PowerProfile,
    pub silent: PowerProfile,
}

/// The settings that outlive the process.
#[derive(Debug, PartialEq, Eq)]
pub struct Config {
    /// Number of the fan level.
    pub fan_mode: u8,
    /// Brightness of the keyboard LEDs.
    pub brightness: u8,
    /// The first bytes of the packet that selected the LED mode; the fourth
    /// of them names the mode.
    pub current_mode: Vec<u8>,
    /// Processor limits for each fan level.
    pub mode_performance: ModePerformance,
}

} // verus!
