//! Engineering units of analog values.

use vstd::prelude::*;

verus! {

/// The unit an analog value is measured in.
#[derive(Debug, Clone, Copy, PartialEq, Eq, Structural)]
pub enum EngineeringUnits {
    DegreesCelsius,
    DegreesFahrenheit,
    NoUnits,
    PartsPerMillion,
    Percent,
    PercentRelativeHumidity,
    Watts,
    /// A number without a name here.
    Other(u32),
}

impl EngineeringUnits {
    /// The number that stands for this unit on the wire.
    pub open spec fn number(self) -> u32 {
        match self {
            EngineeringUnits::DegreesCelsius => 62,
            EngineeringUnits::DegreesFahrenheit => 64,
            EngineeringUnits::NoUnits => 95,
            EngineeringUnits::PartsPerMillion => 96,
            EngineeringUnits::Percent => 98,
            EngineeringUnits::PercentRelativeHumidity => 29,
            EngineeringUnits::Watts => 47,
            EngineeringUnits::Other(number) => number,
        }
    }

    /// The number that stands for this unit on the wire.
    pub fn to_number(self) -> (number: u32)
        ensures
            number == self.number(),
    {
        match self {
            EngineeringUnits::DegreesCelsius => 62,
            EngineeringUnits::DegreesFahrenheit => 64,
            EngineeringUnits::NoUnits => 95,
            EngineeringUnits::PartsPerMillion => 96,
            EngineeringUnits::Percent => 98,
            EngineeringUnits::PercentRelativeHumidity => 29,
            EngineeringUnits::Watts => 47,
            EngineeringUnits::Other(number) => number,
        }
    }
}

} // verus!
