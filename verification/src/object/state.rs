//! Reliability and event state of an object.

use vstd::prelude::*;

verus! {

/// Whether an object's value can be trusted, and if not, why.
#[derive(Debug, Clone, Copy, PartialEq, Eq, Structural)]
pub enum Reliability {
    NoFaultDetected,
    NoSensor,
    OverRange,
    UnderRange,
    OpenLoop,
    ShortedLoop,
    NoOutput,
    UnreliableOther,
    ProcessError,
    MultiStateFault,
    ConfigurationError,
    CommunicationFailure,
    /// A number without a name here.
    Other(u32),
}

impl Reliability {
    /// The number that stands for this value on the wire.
    pub open spec fn number(self) -> u32 {
        match self {
            Reliability::NoFaultDetected => 0,
            Reliability::NoSensor => 1,
            Reliability::OverRange => 2,
            Reliability::UnderRange => 3,
            Reliability::OpenLoop => 4,
            Reliability::ShortedLoop => 5,
            Reliability::NoOutput => 6,
            Reliability::UnreliableOther => 7,
            Reliability::ProcessError => 8,
            Reliability::MultiStateFault => 9,
            Reliability::ConfigurationError => 10,
            Reliability::CommunicationFailure => 12,
            Reliability::Other(number) => number,
        }
    }

    /// The value that a number on the wire stands for.
    pub open spec fn of(number: u32) -> Reliability {
        if number == 0 {
            Reliability::NoFaultDetected
        } else if number == 1 {
            Reliability::NoSensor
        } else if number == 2 {
            Reliability::OverRange
        } else if number == 3 {
            Reliability::UnderRange
        } else if number == 4 {
            Reliability::OpenLoop
        } else if number == 5 {
            Reliability::ShortedLoop
        } else if number == 6 {
            Reliability::NoOutput
        } else if number == 7 {
            Reliability::UnreliableOther
        } else if number == 8 {
            Reliability::ProcessError
        } else if number == 9 {
            Reliability::MultiStateFault
        } else if number == 10 {
            Reliability::ConfigurationError
        } else if number == 12 {
            Reliability::CommunicationFailure
        } else {
            Reliability::Other(number)
        }
    }

    /// Whether this is the one value that its number stands for.
    pub open spec fn is_canonical(self) -> bool {
        Reliability::of(self.number()) == self
    }

    /// The number that stands for this value on the wire.
    pub fn to_number(self) -> (number: u32)
        ensures
            number == self.number(),
    {
        match self {
            Reliability::NoFaultDetected => 0,
            Reliability::NoSensor => 1,
            Reliability::OverRange => 2,
            Reliability::UnderRange => 3,
            Reliability::OpenLoop => 4,
            Reliability::ShortedLoop => 5,
            Reliability::NoOutput => 6,
            Reliability::UnreliableOther => 7,
            Reliability::ProcessError => 8,
            Reliability::MultiStateFault => 9,
            Reliability::ConfigurationError => 10,
            Reliability::CommunicationFailure => 12,
            Reliability::Other(number) => number,
        }
    }

    /// The value that `number` stands for.
    pub fn from_number(number: u32) -> (value: Reliability)
        ensures
            value == Reliability::of(number),
            value.number() == number,
            value.is_canonical(),
    {
        match number {
            0 => Reliability::NoFaultDetected,
            1 => Reliability::NoSensor,
            2 => Reliability::OverRange,
            3 => Reliability::UnderRange,
            4 => Reliability::OpenLoop,
            5 => Reliability::ShortedLoop,
            6 => Reliability::NoOutput,
            7 => Reliability::UnreliableOther,
            8 => Reliability::ProcessError,
            9 => Reliability::MultiStateFault,
            10 => Reliability::ConfigurationError,
            12 => Reliability::CommunicationFailure,
            _ => Reliability::Other(number),
        }
    }
}

impl vstd::std_specs::convert::FromSpecImpl<u32> for Reliability {
    open spec fn obeys_from_spec() -> bool {
        true
    }

    open spec fn from_spec(value: u32) -> Reliability {
        Reliability::of(value)
    }
}

impl From<u32> for Reliability {
    fn from(value: u32) -> (result: Reliability) {
        Reliability::from_number(value)
    }
}

impl vstd::std_specs::convert::FromSpecImpl<Reliability> for u32 {
    open spec fn obeys_from_spec() -> bool {
        true
    }

    open spec fn from_spec(value: Reliability) -> u32 {
        value.number()
    }
}

impl From<Reliability> for u32 {
    fn from(value: Reliability) -> (result: u32) {
        value.to_number()
    }
}

/// Every number survives being turned into a `Reliability` and back, and so does every
/// canonical `Reliability` the other way round.
pub proof fn law_reliability_numbers(number: u32, value: Reliability)
    ensures
        Reliability::of(number).number() == number,
        Reliability::of(number).is_canonical(),
        value.is_canonical() ==> Reliability::of(value.number()) == value,
        !(value is Other) ==> value.is_canonical(),
{
}

/// The event state of an object.
#[derive(Debug, Clone, Copy, PartialEq, Eq, Structural)]
pub enum EventState {
    Normal,
    Fault,
    Offnormal,
    HighLimit,
    LowLimit,
    LifeSafetyAlarm,
    /// A number without a name here.
    Other(u16),
}

impl EventState {
    /// The number that stands for this value on the wire.
    pub open spec fn number(self) -> u16 {
        match self {
            EventState::Normal => 0,
            EventState::Fault => 1,
            EventState::Offnormal => 2,
            EventState::HighLimit => 3,
            EventState::LowLimit => 4,
            EventState::LifeSafetyAlarm => 5,
            EventState::Other(number) => number,
        }
    }

    /// The value that a number on the wire stands for.
    pub open spec fn of(number: u16) -> EventState {
        if number == 0 {
            EventState::Normal
        } else if number == 1 {
            EventState::Fault
        } else if number == 2 {
            EventState::Offnormal
        } else if number == 3 {
            EventState::HighLimit
        } else if number == 4 {
            EventState::LowLimit
        } else if number == 5 {
            EventState::LifeSafetyAlarm
        } else {
            EventState::Other(number)
        }
    }

    /// Whether this is the one value that its number stands for.
    pub open spec fn is_canonical(self) -> bool {
        EventState::of(self.number()) == self
    }

    /// The number that stands for this value on the wire.
    pub fn to_number(self) -> (number: u16)
        ensures
            number == self.number(),
    {
        match self {
            EventState::Normal => 0,
            EventState::Fault => 1,
            EventState::Offnormal => 2,
            EventState::HighLimit => 3,
            EventState::LowLimit => 4,
            EventState::LifeSafetyAlarm => 5,
            EventState::Other(number) => number,
        }
    }

    /// The value that `number` stands for.
    pub fn from_number(number: u16) -> (value: EventState)
        ensures
            value == EventState::of(number),
            value.number() == number,
            value.is_canonical(),
    {
        match number {
            0 => EventState::Normal,
            1 => EventState::Fault,
            2 => EventState::Offnormal,
            3 => EventState::HighLimit,
            4 => EventState::LowLimit,
            5 => EventState::LifeSafetyAlarm,
            _ => EventState::Other(number),
        }
    }
}

impl vstd::std_specs::convert::FromSpecImpl<u16> for EventState {
    open spec fn obeys_from_spec() -> bool {
        true
    }

    open spec fn from_spec(value: u16) -> EventState {
        EventState::of(value)
    }
}

impl From<u16> for EventState {
    fn from(value: u16) -> (result: EventState) {
        EventState::from_number(value)
    }
}

impl vstd::std_specs::convert::FromSpecImpl<EventState> for u16 {
    open spec fn obeys_from_spec() -> bool {
        true
    }

    open spec fn from_spec(value: EventState) -> u16 {
        value.number()
    }
}

impl From<EventState> for u16 {
    fn from(value: EventState) -> (result: u16) {
        value.to_number()
    }
}

/// Every number survives being turned into an `EventState` and back, and so does every
/// canonical `EventState` the other way round.
pub proof fn law_event_state_numbers(number: u16, value: EventState)
    ensures
        EventState::of(number).number() == number,
        EventState::of(number).is_canonical(),
        value.is_canonical() ==> EventState::of(value.number()) == value,
        !(value is Other) ==> value.is_canonical(),
{
}

} // verus!
