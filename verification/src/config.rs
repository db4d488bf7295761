//! The tunables of a simulation, and the check that they make sense.

use crate::entities::Traits;
use vstd::prelude::*;

verus! {

/// The tunables of a simulation, as a host hands them in. Rates are per
/// second; chances and weights are in thousandths.
#[derive(Clone, Copy, Debug, PartialEq, Eq, Structural)]
pub struct Config {
    /// How far an animal sees, in cells.
    pub vision_range: i64,
    /// Chance per second that a plant grows.
    pub growth_rate: i64,
    /// Chance that a growing plant grows along an axis.
    pub cardinal_weight: i64,
    /// Energy that an animal loses per second.
    pub drain_rate: i64,
    /// Energy from which on an animal may breed.
    pub breeding_threshold: i64,
    /// Energy that breeding costs each parent.
    pub breeding_cost: i64,
    /// Side of a cell of the spatial grid.
    pub cell_size: i64,
    /// Turning rate of an animal.
    pub turn_speed: i64,
    /// Top speed of an animal.
    pub max_speed: i64,
}

/// Why a configuration is turned down.
#[derive(Clone, Copy, Debug, PartialEq, Eq, Structural)]
pub enum ConfigError {
    /// The vision range is negative or beyond 32 bits.
    VisionRange,
    /// The growth rate is negative or beyond 32 bits.
    GrowthRate,
    /// The cardinal weight is not a chance: negative or above one thousand.
    CardinalWeight,
    /// The drain rate is negative.
    DrainRate,
    /// The breeding threshold is negative.
    BreedingThreshold,
    /// The breeding cost is negative.
    BreedingCost,
    /// The cell size is zero, negative or beyond 32 bits.
    CellSize,
    /// The turning rate is negative or beyond 32 bits.
    TurnSpeed,
    /// The top speed is negative or beyond 32 bits.
    MaxSpeed,
}

/// Whether `v` is a count that fits in 32 bits.
pub open spec fn fits_u32(v: i64) -> bool {
    0 <= v <= u32::MAX
}

impl Config {
    /// The first fault of the configuration, in the order of its fields, if
    /// it has one.
    pub open spec fn fault(self) -> Option<ConfigError> {
        if !fits_u32(self.vision_range) {
            Some(ConfigError::VisionRange)
        } else if !fits_u32(self.growth_rate) {
            Some(ConfigError::GrowthRate)
        } else if !(0 <= self.cardinal_weight <= 1000) {
            Some(ConfigError::CardinalWeight)
        } else if self.drain_rate < 0 {
            Some(ConfigError::DrainRate)
        } else if self.breeding_threshold < 0 {
            Some(ConfigError::BreedingThreshold)
        } else if self.breeding_cost < 0 {
            Some(ConfigError::BreedingCost)
        } else if !(0 < self.cell_size <= i32::MAX) {
            Some(ConfigError::CellSize)
        } else if !fits_u32(self.turn_speed) {
            Some(ConfigError::TurnSpeed)
        } else if !fits_u32(self.max_speed) {
            Some(ConfigError::MaxSpeed)
        } else {
            None
        }
    }

    /// Whether a simulation can run on this configuration.
    pub open spec fn valid(self) -> bool {
        self.fault() is None
    }

    /// The traits of an animal that was given none of its own.
    pub open spec fn traits(self) -> Traits {
        Traits { max_speed: self.max_speed as u32, turn_speed: self.turn_speed as u32 }
    }

    /// Checks the configuration before a simulation starts, and names its
    /// first fault.
    pub fn validate(&self) -> (r: Result<(), ConfigError>)
        ensures
            r is Ok <==> self.valid(),
            r matches Err(e) ==> self.fault() == Some(e),
    {
        if self.vision_range < 0 || self.vision_range > u32::MAX as i64 {
            Err(ConfigError::VisionRange)
        } else if self.growth_rate < 0 || self.growth_rate > u32::MAX as i64 {
            Err(ConfigError::GrowthRate)
        } else if self.cardinal_weight < 0 || self.cardinal_weight > 1000 {
            Err(ConfigError::CardinalWeight)
        } else if self.drain_rate < 0 {
            Err(ConfigError::DrainRate)
        } else if self.breeding_threshold < 0 {
            Err(ConfigError::BreedingThreshold)
        } else if self.breeding_cost < 0 {
            Err(ConfigError::BreedingCost)
        } else if self.cell_size <= 0 || self.cell_size > i32::MAX as i64 {
            Err(ConfigError::CellSize)
        } else if self.turn_speed < 0 || self.turn_speed > u32::MAX as i64 {
            Err(ConfigError::TurnSpeed)
        } else if self.max_speed < 0 || self.max_speed > u32::MAX as i64 {
            Err(ConfigError::MaxSpeed)
        } else {
            Ok(())
        }
    }

    /// The configuration with which the simulation is tuned by default.
    pub fn standard() -> (c: Config)
        ensures
            c.valid(),
            c == (Config {
                vision_range: 10,
                growth_rate: 3_000,
                cardinal_weight: 900,
                drain_rate: 5_000,
                breeding_threshold: 30_000,
                breeding_cost: 20_000,
                cell_size: 10_000,
                turn_speed: 10_000,
                max_speed: 80_000,
            }),
    {
        Config {
            vision_range: 10,
            growth_rate: 3_000,
            cardinal_weight: 900,
            drain_rate: 5_000,
            breeding_threshold: 30_000,
            breeding_cost: 20_000,
            cell_size: 10_000,
            turn_speed: 10_000,
            max_speed: 80_000,
        }
    }
}

} // verus!
