//! The numbers by which types, properties and states are known on the wire.

use crate::object::identifier::{ObjectType, PropertyIdentifier};
use crate::object::state::{EventState, Reliability};
use crate::object::units::EngineeringUnits;
use vstd::prelude::*;

verus! {

/// The number of every object type that has a name.
pub proof fn law_object_types_have_their_numbers()
    ensures
        ObjectType::AnalogInput.number() == 0,
        ObjectType::of(0) == ObjectType::AnalogInput,
        ObjectType::AnalogOutput.number() == 1,
        ObjectType::of(1) == ObjectType::AnalogOutput,
        ObjectType::AnalogValue.number() == 2,
        ObjectType::of(2) == ObjectType::AnalogValue,
        ObjectType::BinaryInput.number() == 3,
        ObjectType::of(3) == ObjectType::BinaryInput,
        ObjectType::BinaryOutput.number() == 4,
        ObjectType::of(4) == ObjectType::BinaryOutput,
        ObjectType::BinaryValue.number() == 5,
        ObjectType::of(5) == ObjectType::BinaryValue,
        ObjectType::Calendar.number() == 6,
        ObjectType::of(6) == ObjectType::Calendar,
        ObjectType::Device.number() == 8,
        ObjectType::of(8) == ObjectType::Device,
        ObjectType::MultiStateInput.number() == 13,
        ObjectType::of(13) == ObjectType::MultiStateInput,
        ObjectType::MultiStateOutput.number() == 14,
        ObjectType::of(14) == ObjectType::MultiStateOutput,
        ObjectType::NotificationClass.number() == 15,
        ObjectType::of(15) == ObjectType::NotificationClass,
        ObjectType::Schedule.number() == 17,
        ObjectType::of(17) == ObjectType::Schedule,
        ObjectType::MultiStateValue.number() == 19,
        ObjectType::of(19) == ObjectType::MultiStateValue,
{
}

/// The number of every property that has a name.
pub proof fn law_properties_have_their_numbers()
    ensures
        PropertyIdentifier::AckedTransitions.number() == 0,
        PropertyIdentifier::of(0) == PropertyIdentifier::AckedTransitions,
        PropertyIdentifier::AckRequired.number() == 1,
        PropertyIdentifier::of(1) == PropertyIdentifier::AckRequired,
        PropertyIdentifier::ActiveText.number() == 4,
        PropertyIdentifier::of(4) == PropertyIdentifier::ActiveText,
        PropertyIdentifier::AlarmValue.number() == 6,
        PropertyIdentifier::of(6) == PropertyIdentifier::AlarmValue,
        PropertyIdentifier::AlarmValues.number() == 7,
        PropertyIdentifier::of(7) == PropertyIdentifier::AlarmValues,
        PropertyIdentifier::All.number() == 8,
        PropertyIdentifier::of(8) == PropertyIdentifier::All,
        PropertyIdentifier::NotificationClass.number() == 17,
        PropertyIdentifier::of(17) == PropertyIdentifier::NotificationClass,
        PropertyIdentifier::CovIncrement.number() == 22,
        PropertyIdentifier::of(22) == PropertyIdentifier::CovIncrement,
        PropertyIdentifier::DateList.number() == 23,
        PropertyIdentifier::of(23) == PropertyIdentifier::DateList,
        PropertyIdentifier::Deadband.number() == 25,
        PropertyIdentifier::of(25) == PropertyIdentifier::Deadband,
        PropertyIdentifier::Description.number() == 28,
        PropertyIdentifier::of(28) == PropertyIdentifier::Description,
        PropertyIdentifier::DeviceType.number() == 31,
        PropertyIdentifier::of(31) == PropertyIdentifier::DeviceType,
        PropertyIdentifier::EffectivePeriod.number() == 32,
        PropertyIdentifier::of(32) == PropertyIdentifier::EffectivePeriod,
        PropertyIdentifier::EventEnable.number() == 35,
        PropertyIdentifier::of(35) == PropertyIdentifier::EventEnable,
        PropertyIdentifier::EventState.number() == 36,
        PropertyIdentifier::of(36) == PropertyIdentifier::EventState,
        PropertyIdentifier::ExceptionSchedule.number() == 38,
        PropertyIdentifier::of(38) == PropertyIdentifier::ExceptionSchedule,
        PropertyIdentifier::HighLimit.number() == 45,
        PropertyIdentifier::of(45) == PropertyIdentifier::HighLimit,
        PropertyIdentifier::InactiveText.number() == 46,
        PropertyIdentifier::of(46) == PropertyIdentifier::InactiveText,
        PropertyIdentifier::LimitEnable.number() == 52,
        PropertyIdentifier::of(52) == PropertyIdentifier::LimitEnable,
        PropertyIdentifier::ListOfObjectPropertyReferences.number() == 54,
        PropertyIdentifier::of(54) == PropertyIdentifier::ListOfObjectPropertyReferences,
        PropertyIdentifier::LowLimit.number() == 59,
        PropertyIdentifier::of(59) == PropertyIdentifier::LowLimit,
        PropertyIdentifier::NotifyType.number() == 72,
        PropertyIdentifier::of(72) == PropertyIdentifier::NotifyType,
        PropertyIdentifier::NumberOfStates.number() == 74,
        PropertyIdentifier::of(74) == PropertyIdentifier::NumberOfStates,
        PropertyIdentifier::ObjectIdentifier.number() == 75,
        PropertyIdentifier::of(75) == PropertyIdentifier::ObjectIdentifier,
        PropertyIdentifier::ObjectList.number() == 76,
        PropertyIdentifier::of(76) == PropertyIdentifier::ObjectList,
        PropertyIdentifier::ObjectName.number() == 77,
        PropertyIdentifier::of(77) == PropertyIdentifier::ObjectName,
        PropertyIdentifier::ObjectType.number() == 79,
        PropertyIdentifier::of(79) == PropertyIdentifier::ObjectType,
        PropertyIdentifier::OutOfService.number() == 81,
        PropertyIdentifier::of(81) == PropertyIdentifier::OutOfService,
        PropertyIdentifier::PresentValue.number() == 85,
        PropertyIdentifier::of(85) == PropertyIdentifier::PresentValue,
        PropertyIdentifier::Priority.number() == 86,
        PropertyIdentifier::of(86) == PropertyIdentifier::Priority,
        PropertyIdentifier::PriorityArray.number() == 87,
        PropertyIdentifier::of(87) == PropertyIdentifier::PriorityArray,
        PropertyIdentifier::PriorityForWriting.number() == 88,
        PropertyIdentifier::of(88) == PropertyIdentifier::PriorityForWriting,
        PropertyIdentifier::ProtocolObjectTypesSupported.number() == 96,
        PropertyIdentifier::of(96) == PropertyIdentifier::ProtocolObjectTypesSupported,
        PropertyIdentifier::RecipientList.number() == 102,
        PropertyIdentifier::of(102) == PropertyIdentifier::RecipientList,
        PropertyIdentifier::Reliability.number() == 103,
        PropertyIdentifier::of(103) == PropertyIdentifier::Reliability,
        PropertyIdentifier::RelinquishDefault.number() == 104,
        PropertyIdentifier::of(104) == PropertyIdentifier::RelinquishDefault,
        PropertyIdentifier::StateText.number() == 110,
        PropertyIdentifier::of(110) == PropertyIdentifier::StateText,
        PropertyIdentifier::StatusFlags.number() == 111,
        PropertyIdentifier::of(111) == PropertyIdentifier::StatusFlags,
        PropertyIdentifier::TimeDelay.number() == 113,
        PropertyIdentifier::of(113) == PropertyIdentifier::TimeDelay,
        PropertyIdentifier::Units.number() == 117,
        PropertyIdentifier::of(117) == PropertyIdentifier::Units,
        PropertyIdentifier::WeeklySchedule.number() == 123,
        PropertyIdentifier::of(123) == PropertyIdentifier::WeeklySchedule,
        PropertyIdentifier::EventTimeStamps.number() == 130,
        PropertyIdentifier::of(130) == PropertyIdentifier::EventTimeStamps,
        PropertyIdentifier::ProtocolRevision.number() == 139,
        PropertyIdentifier::of(139) == PropertyIdentifier::ProtocolRevision,
        PropertyIdentifier::DatabaseRevision.number() == 155,
        PropertyIdentifier::of(155) == PropertyIdentifier::DatabaseRevision,
        PropertyIdentifier::ScheduleDefault.number() == 174,
        PropertyIdentifier::of(174) == PropertyIdentifier::ScheduleDefault,
        PropertyIdentifier::EventDetectionEnable.number() == 353,
        PropertyIdentifier::of(353) == PropertyIdentifier::EventDetectionEnable,
        PropertyIdentifier::TimeDelayNormal.number() == 356,
        PropertyIdentifier::of(356) == PropertyIdentifier::TimeDelayNormal,
{
}

/// The number of every reliability that has a name.
pub proof fn law_reliabilities_have_their_numbers()
    ensures
        Reliability::NoFaultDetected.number() == 0,
        Reliability::of(0) == Reliability::NoFaultDetected,
        Reliability::NoSensor.number() == 1,
        Reliability::of(1) == Reliability::NoSensor,
        Reliability::OverRange.number() == 2,
        Reliability::of(2) == Reliability::OverRange,
        Reliability::UnderRange.number() == 3,
        Reliability::of(3) == Reliability::UnderRange,
        Reliability::OpenLoop.number() == 4,
        Reliability::of(4) == Reliability::OpenLoop,
        Reliability::ShortedLoop.number() == 5,
        Reliability::of(5) == Reliability::ShortedLoop,
        Reliability::NoOutput.number() == 6,
        Reliability::of(6) == Reliability::NoOutput,
        Reliability::UnreliableOther.number() == 7,
        Reliability::of(7) == Reliability::UnreliableOther,
        Reliability::ProcessError.number() == 8,
        Reliability::of(8) == Reliability::ProcessError,
        Reliability::MultiStateFault.number() == 9,
        Reliability::of(9) == Reliability::MultiStateFault,
        Reliability::ConfigurationError.number() == 10,
        Reliability::of(10) == Reliability::ConfigurationError,
        Reliability::CommunicationFailure.number() == 12,
        Reliability::of(12) == Reliability::CommunicationFailure,
{
}

/// The number of every event state that has a name.
pub proof fn law_event_states_have_their_numbers()
    ensures
        EventState::Normal.number() == 0,
        EventState::of(0) == EventState::Normal,
        EventState::Fault.number() == 1,
        EventState::of(1) == EventState::Fault,
        EventState::Offnormal.number() == 2,
        EventState::of(2) == EventState::Offnormal,
        EventState::HighLimit.number() == 3,
        EventState::of(3) == EventState::HighLimit,
        EventState::LowLimit.number() == 4,
        EventState::of(4) == EventState::LowLimit,
        EventState::LifeSafetyAlarm.number() == 5,
        EventState::of(5) == EventState::LifeSafetyAlarm,
{
}

/// The number of every unit that has a name.
pub proof fn law_units_have_their_numbers()
    ensures
        EngineeringUnits::DegreesCelsius.number() == 62,
        EngineeringUnits::DegreesFahrenheit.number() == 64,
        EngineeringUnits::NoUnits.number() == 95,
        EngineeringUnits::PartsPerMillion.number() == 96,
        EngineeringUnits::Percent.number() == 98,
        EngineeringUnits::PercentRelativeHumidity.number() == 29,
        EngineeringUnits::Watts.number() == 47,
{
}

} // verus!
