//! Object and property identifiers.

use crate::text;
use crate::text::{decimal_text, with_number};
use vstd::prelude::*;

verus! {

/// Whether a type number has a name in [`ObjectType`].
pub open spec fn is_named(number: u32) -> bool {
    number <= 6 || number == 8 || number == 13 || number == 14 || number == 15 || number == 17
        || number == 19
}

/// A type number without a name in [`ObjectType`].
#[derive(Debug, Clone, Copy, PartialEq, Eq, Structural)]
pub struct UnnamedType {
    number: u32,
}

impl UnnamedType {
    #[verifier::type_invariant]
    spec fn inv(self) -> bool {
        !is_named(self.number)
    }

    /// The number.
    pub closed spec fn value(self) -> u32 {
        self.number
    }

    /// The type of an unnamed number.
    pub closed spec fn holding(number: u32) -> UnnamedType {
        UnnamedType { number }
    }

    /// The type of a number, where that has no name.
    pub fn new(number: u32) -> (unnamed: Option<UnnamedType>)
        ensures
            unnamed == if is_named(number) {
                None
            } else {
                Some(UnnamedType::holding(number))
            },
    {
        match number {
            0..=6 | 8 | 13 | 14 | 15 | 17 | 19 => None,
            _ => Some(UnnamedType { number }),
        }
    }

    /// The number.
    pub fn number(self) -> (number: u32)
        ensures
            number == self.value(),
            !is_named(number),
            self == UnnamedType::holding(number),
    {
        proof {
            use_type_invariant(self);
        }
        self.number
    }
}

/// The type of a BACnet object.
#[derive(Debug, Clone, Copy, PartialEq, Eq, Structural)]
pub enum ObjectType {
    AnalogInput,
    AnalogOutput,
    AnalogValue,
    BinaryInput,
    BinaryOutput,
    BinaryValue,
    Calendar,
    Device,
    MultiStateInput,
    MultiStateOutput,
    NotificationClass,
    Schedule,
    MultiStateValue,
    /// A number without a name here.
    Other(UnnamedType),
}

impl ObjectType {
    /// The number that stands for this value on the wire.
    pub open spec fn number(self) -> u32 {
        match self {
            ObjectType::AnalogInput => 0,
            ObjectType::AnalogOutput => 1,
            ObjectType::AnalogValue => 2,
            ObjectType::BinaryInput => 3,
            ObjectType::BinaryOutput => 4,
            ObjectType::BinaryValue => 5,
            ObjectType::Calendar => 6,
            ObjectType::Device => 8,
            ObjectType::MultiStateInput => 13,
            ObjectType::MultiStateOutput => 14,
            ObjectType::NotificationClass => 15,
            ObjectType::Schedule => 17,
            ObjectType::MultiStateValue => 19,
            ObjectType::Other(unnamed) => unnamed.value(),
        }
    }

    /// The value that a number on the wire stands for.
    pub open spec fn of(number: u32) -> ObjectType {
        if number == 0 {
            ObjectType::AnalogInput
        } else if number == 1 {
            ObjectType::AnalogOutput
        } else if number == 2 {
            ObjectType::AnalogValue
        } else if number == 3 {
            ObjectType::BinaryInput
        } else if number == 4 {
            ObjectType::BinaryOutput
        } else if number == 5 {
            ObjectType::BinaryValue
        } else if number == 6 {
            ObjectType::Calendar
        } else if number == 8 {
            ObjectType::Device
        } else if number == 13 {
            ObjectType::MultiStateInput
        } else if number == 14 {
            ObjectType::MultiStateOutput
        } else if number == 15 {
            ObjectType::NotificationClass
        } else if number == 17 {
            ObjectType::Schedule
        } else if number == 19 {
            ObjectType::MultiStateValue
        } else {
            ObjectType::Other(UnnamedType::holding(number))
        }
    }

    /// Whether this is the one value that its number stands for.
    pub open spec fn is_canonical(self) -> bool {
        ObjectType::of(self.number()) == self
    }

    /// The number that stands for this value on the wire. It stands for no other.
    pub fn to_number(self) -> (number: u32)
        ensures
            number == self.number(),
            self.is_canonical(),
    {
        match self {
            ObjectType::AnalogInput => 0,
            ObjectType::AnalogOutput => 1,
            ObjectType::AnalogValue => 2,
            ObjectType::BinaryInput => 3,
            ObjectType::BinaryOutput => 4,
            ObjectType::BinaryValue => 5,
            ObjectType::Calendar => 6,
            ObjectType::Device => 8,
            ObjectType::MultiStateInput => 13,
            ObjectType::MultiStateOutput => 14,
            ObjectType::NotificationClass => 15,
            ObjectType::Schedule => 17,
            ObjectType::MultiStateValue => 19,
            ObjectType::Other(unnamed) => unnamed.number(),
        }
    }

    /// The value that `number` stands for.
    pub fn from_number(number: u32) -> (value: ObjectType)
        ensures
            value == ObjectType::of(number),
            value.number() == number,
            value.is_canonical(),
    {
        match number {
            0 => ObjectType::AnalogInput,
            1 => ObjectType::AnalogOutput,
            2 => ObjectType::AnalogValue,
            3 => ObjectType::BinaryInput,
            4 => ObjectType::BinaryOutput,
            5 => ObjectType::BinaryValue,
            6 => ObjectType::Calendar,
            8 => ObjectType::Device,
            13 => ObjectType::MultiStateInput,
            14 => ObjectType::MultiStateOutput,
            15 => ObjectType::NotificationClass,
            17 => ObjectType::Schedule,
            19 => ObjectType::MultiStateValue,
            _ => ObjectType::Other(UnnamedType { number }),
        }
    }

    /// How the type is shown in a message: by its name, or by its number where it has
    /// none.
    pub open spec fn shown(self) -> Seq<char> {
        match self {
            ObjectType::AnalogInput => "AnalogInput"@,
            ObjectType::AnalogOutput => "AnalogOutput"@,
            ObjectType::AnalogValue => "AnalogValue"@,
            ObjectType::BinaryInput => "BinaryInput"@,
            ObjectType::BinaryOutput => "BinaryOutput"@,
            ObjectType::BinaryValue => "BinaryValue"@,
            ObjectType::Calendar => "Calendar"@,
            ObjectType::Device => "Device"@,
            ObjectType::MultiStateInput => "MultiStateInput"@,
            ObjectType::MultiStateOutput => "MultiStateOutput"@,
            ObjectType::NotificationClass => "NotificationClass"@,
            ObjectType::Schedule => "Schedule"@,
            ObjectType::MultiStateValue => "MultiStateValue"@,
            ObjectType::Other(unnamed) => "Other("@ + text::decimal(unnamed.value() as nat) + ")"@,
        }
    }

    /// Show the type in a message.
    pub fn show(self) -> (text: String)
        ensures
            text@ == self.shown(),
    {
        match self {
            ObjectType::AnalogInput => "AnalogInput".to_owned(),
            ObjectType::AnalogOutput => "AnalogOutput".to_owned(),
            ObjectType::AnalogValue => "AnalogValue".to_owned(),
            ObjectType::BinaryInput => "BinaryInput".to_owned(),
            ObjectType::BinaryOutput => "BinaryOutput".to_owned(),
            ObjectType::BinaryValue => "BinaryValue".to_owned(),
            ObjectType::Calendar => "Calendar".to_owned(),
            ObjectType::Device => "Device".to_owned(),
            ObjectType::MultiStateInput => "MultiStateInput".to_owned(),
            ObjectType::MultiStateOutput => "MultiStateOutput".to_owned(),
            ObjectType::NotificationClass => "NotificationClass".to_owned(),
            ObjectType::Schedule => "Schedule".to_owned(),
            ObjectType::MultiStateValue => "MultiStateValue".to_owned(),
            ObjectType::Other(unnamed) => {
                let mut text = with_number("Other(", unnamed.number());
                text.append(")");
                text
            },
        }
    }
}

impl vstd::std_specs::convert::FromSpecImpl<u32> for ObjectType {
    open spec fn obeys_from_spec() -> bool {
        true
    }

    open spec fn from_spec(value: u32) -> ObjectType {
        ObjectType::of(value)
    }
}

impl From<u32> for ObjectType {
    fn from(value: u32) -> (result: ObjectType) {
        ObjectType::from_number(value)
    }
}

impl vstd::std_specs::convert::FromSpecImpl<ObjectType> for u32 {
    open spec fn obeys_from_spec() -> bool {
        true
    }

    open spec fn from_spec(value: ObjectType) -> u32 {
        value.number()
    }
}

impl From<ObjectType> for u32 {
    fn from(value: ObjectType) -> (result: u32) {
        value.to_number()
    }
}

/// Every number survives being turned into an `ObjectType` and back, and so does every
/// canonical `ObjectType` the other way round.
pub proof fn law_object_type_numbers(number: u32, value: ObjectType)
    ensures
        ObjectType::of(number).number() == number,
        ObjectType::of(number).is_canonical(),
        value.is_canonical() ==> ObjectType::of(value.number()) == value,
        !(value is Other) ==> value.is_canonical(),
        is_named(number) == !(ObjectType::of(number) is Other),
{
}

/// A property of a BACnet object.
#[derive(Debug, Clone, Copy, PartialEq, Eq, Structural)]
pub enum PropertyIdentifier {
    AckedTransitions,
    AckRequired,
    ActiveText,
    AlarmValue,
    AlarmValues,
    All,
    NotificationClass,
    CovIncrement,
    DateList,
    Deadband,
    Description,
    DeviceType,
    EffectivePeriod,
    EventEnable,
    EventState,
    ExceptionSchedule,
    HighLimit,
    InactiveText,
    LimitEnable,
    ListOfObjectPropertyReferences,
    LowLimit,
    NotifyType,
    NumberOfStates,
    ObjectIdentifier,
    ObjectList,
    ObjectName,
    ObjectType,
    OutOfService,
    PresentValue,
    Priority,
    PriorityArray,
    PriorityForWriting,
    ProtocolObjectTypesSupported,
    RecipientList,
    Reliability,
    RelinquishDefault,
    StateText,
    StatusFlags,
    TimeDelay,
    Units,
    WeeklySchedule,
    EventTimeStamps,
    ProtocolRevision,
    DatabaseRevision,
    ScheduleDefault,
    EventDetectionEnable,
    TimeDelayNormal,
    /// A number without a name here.
    Other(u32),
}

impl PropertyIdentifier {
    /// The number that stands for this value on the wire.
    pub open spec fn number(self) -> u32 {
        match self {
            PropertyIdentifier::AckedTransitions => 0,
            PropertyIdentifier::AckRequired => 1,
            PropertyIdentifier::ActiveText => 4,
            PropertyIdentifier::AlarmValue => 6,
            PropertyIdentifier::AlarmValues => 7,
            PropertyIdentifier::All => 8,
            PropertyIdentifier::NotificationClass => 17,
            PropertyIdentifier::CovIncrement => 22,
            PropertyIdentifier::DateList => 23,
            PropertyIdentifier::Deadband => 25,
            PropertyIdentifier::Description => 28,
            PropertyIdentifier::DeviceType => 31,
            PropertyIdentifier::EffectivePeriod => 32,
            PropertyIdentifier::EventEnable => 35,
            PropertyIdentifier::EventState => 36,
            PropertyIdentifier::ExceptionSchedule => 38,
            PropertyIdentifier::HighLimit => 45,
            PropertyIdentifier::InactiveText => 46,
            PropertyIdentifier::LimitEnable => 52,
            PropertyIdentifier::ListOfObjectPropertyReferences => 54,
            PropertyIdentifier::LowLimit => 59,
            PropertyIdentifier::NotifyType => 72,
            PropertyIdentifier::NumberOfStates => 74,
            PropertyIdentifier::ObjectIdentifier => 75,
            PropertyIdentifier::ObjectList => 76,
            PropertyIdentifier::ObjectName => 77,
            PropertyIdentifier::ObjectType => 79,
            PropertyIdentifier::OutOfService => 81,
            PropertyIdentifier::PresentValue => 85,
            PropertyIdentifier::Priority => 86,
            PropertyIdentifier::PriorityArray => 87,
            PropertyIdentifier::PriorityForWriting => 88,
            PropertyIdentifier::ProtocolObjectTypesSupported => 96,
            PropertyIdentifier::RecipientList => 102,
            PropertyIdentifier::Reliability => 103,
            PropertyIdentifier::RelinquishDefault => 104,
            PropertyIdentifier::StateText => 110,
            PropertyIdentifier::StatusFlags => 111,
            PropertyIdentifier::TimeDelay => 113,
            PropertyIdentifier::Units => 117,
            PropertyIdentifier::WeeklySchedule => 123,
            PropertyIdentifier::EventTimeStamps => 130,
            PropertyIdentifier::ProtocolRevision => 139,
            PropertyIdentifier::DatabaseRevision => 155,
            PropertyIdentifier::ScheduleDefault => 174,
            PropertyIdentifier::EventDetectionEnable => 353,
            PropertyIdentifier::TimeDelayNormal => 356,
            PropertyIdentifier::Other(number) => number,
        }
    }

    /// The value that a number on the wire stands for.
    pub open spec fn of(number: u32) -> PropertyIdentifier {
        if number == 0 {
            PropertyIdentifier::AckedTransitions
        } else if number == 1 {
            PropertyIdentifier::AckRequired
        } else if number == 4 {
            PropertyIdentifier::ActiveText
        } else if number == 6 {
            PropertyIdentifier::AlarmValue
        } else if number == 7 {
            PropertyIdentifier::AlarmValues
        } else if number == 8 {
            PropertyIdentifier::All
        } else if number == 17 {
            PropertyIdentifier::NotificationClass
        } else if number == 22 {
            PropertyIdentifier::CovIncrement
        } else if number == 23 {
            PropertyIdentifier::DateList
        } else if number == 25 {
            PropertyIdentifier::Deadband
        } else if number == 28 {
            PropertyIdentifier::Description
        } else if number == 31 {
            PropertyIdentifier::DeviceType
        } else if number == 32 {
            PropertyIdentifier::EffectivePeriod
        } else if number == 35 {
            PropertyIdentifier::EventEnable
        } else if number == 36 {
            PropertyIdentifier::EventState
        } else if number == 38 {
            PropertyIdentifier::ExceptionSchedule
        } else if number == 45 {
            PropertyIdentifier::HighLimit
        } else if number == 46 {
            PropertyIdentifier::InactiveText
        } else if number == 52 {
            PropertyIdentifier::LimitEnable
        } else if number == 54 {
            PropertyIdentifier::ListOfObjectPropertyReferences
        } else if number == 59 {
            PropertyIdentifier::LowLimit
        } else if number == 72 {
            PropertyIdentifier::NotifyType
        } else if number == 74 {
            PropertyIdentifier::NumberOfStates
        } else if number == 75 {
            PropertyIdentifier::ObjectIdentifier
        } else if number == 76 {
            PropertyIdentifier::ObjectList
        } else if number == 77 {
            PropertyIdentifier::ObjectName
        } else if number == 79 {
            PropertyIdentifier::ObjectType
        } else if number == 81 {
            PropertyIdentifier::OutOfService
        } else if number == 85 {
            PropertyIdentifier::PresentValue
        } else if number == 86 {
            PropertyIdentifier::Priority
        } else if number == 87 {
            PropertyIdentifier::PriorityArray
        } else if number == 88 {
            PropertyIdentifier::PriorityForWriting
        } else if number == 96 {
            PropertyIdentifier::ProtocolObjectTypesSupported
        } else if number == 102 {
            PropertyIdentifier::RecipientList
        } else if number == 103 {
            PropertyIdentifier::Reliability
        } else if number == 104 {
            PropertyIdentifier::RelinquishDefault
        } else if number == 110 {
            PropertyIdentifier::StateText
        } else if number == 111 {
            PropertyIdentifier::StatusFlags
        } else if number == 113 {
            PropertyIdentifier::TimeDelay
        } else if number == 117 {
            PropertyIdentifier::Units
        } else if number == 123 {
            PropertyIdentifier::WeeklySchedule
        } else if number == 130 {
            PropertyIdentifier::EventTimeStamps
        } else if number == 139 {
            PropertyIdentifier::ProtocolRevision
        } else if number == 155 {
            PropertyIdentifier::DatabaseRevision
        } else if number == 174 {
            PropertyIdentifier::ScheduleDefault
        } else if number == 353 {
            PropertyIdentifier::EventDetectionEnable
        } else if number == 356 {
            PropertyIdentifier::TimeDelayNormal
        } else {
            PropertyIdentifier::Other(number)
        }
    }

    /// Whether this is the one value that its number stands for.
    pub open spec fn is_canonical(self) -> bool {
        PropertyIdentifier::of(self.number()) == self
    }

    /// The number that stands for this value on the wire.
    pub fn to_number(self) -> (number: u32)
        ensures
            number == self.number(),
    {
        match self {
            PropertyIdentifier::AckedTransitions => 0,
            PropertyIdentifier::AckRequired => 1,
            PropertyIdentifier::ActiveText => 4,
            PropertyIdentifier::AlarmValue => 6,
            PropertyIdentifier::AlarmValues => 7,
            PropertyIdentifier::All => 8,
            PropertyIdentifier::NotificationClass => 17,
            PropertyIdentifier::CovIncrement => 22,
            PropertyIdentifier::DateList => 23,
            PropertyIdentifier::Deadband => 25,
            PropertyIdentifier::Description => 28,
            PropertyIdentifier::DeviceType => 31,
            PropertyIdentifier::EffectivePeriod => 32,
            PropertyIdentifier::EventEnable => 35,
            PropertyIdentifier::EventState => 36,
            PropertyIdentifier::ExceptionSchedule => 38,
            PropertyIdentifier::HighLimit => 45,
            PropertyIdentifier::InactiveText => 46,
            PropertyIdentifier::LimitEnable => 52,
            PropertyIdentifier::ListOfObjectPropertyReferences => 54,
            PropertyIdentifier::LowLimit => 59,
            PropertyIdentifier::NotifyType => 72,
            PropertyIdentifier::NumberOfStates => 74,
            PropertyIdentifier::ObjectIdentifier => 75,
            PropertyIdentifier::ObjectList => 76,
            PropertyIdentifier::ObjectName => 77,
            PropertyIdentifier::ObjectType => 79,
            PropertyIdentifier::OutOfService => 81,
            PropertyIdentifier::PresentValue => 85,
            PropertyIdentifier::Priority => 86,
            PropertyIdentifier::PriorityArray => 87,
            PropertyIdentifier::PriorityForWriting => 88,
            PropertyIdentifier::ProtocolObjectTypesSupported => 96,
            PropertyIdentifier::RecipientList => 102,
            PropertyIdentifier::Reliability => 103,
            PropertyIdentifier::RelinquishDefault => 104,
            PropertyIdentifier::StateText => 110,
            PropertyIdentifier::StatusFlags => 111,
            PropertyIdentifier::TimeDelay => 113,
            PropertyIdentifier::Units => 117,
            PropertyIdentifier::WeeklySchedule => 123,
            PropertyIdentifier::EventTimeStamps => 130,
            PropertyIdentifier::ProtocolRevision => 139,
            PropertyIdentifier::DatabaseRevision => 155,
            PropertyIdentifier::ScheduleDefault => 174,
            PropertyIdentifier::EventDetectionEnable => 353,
            PropertyIdentifier::TimeDelayNormal => 356,
            PropertyIdentifier::Other(number) => number,
        }
    }

    /// The value that `number` stands for.
    pub fn from_number(number: u32) -> (value: PropertyIdentifier)
        ensures
            value == PropertyIdentifier::of(number),
            value.number() == number,
            value.is_canonical(),
    {
        match number {
            0 => PropertyIdentifier::AckedTransitions,
            1 => PropertyIdentifier::AckRequired,
            4 => PropertyIdentifier::ActiveText,
            6 => PropertyIdentifier::AlarmValue,
            7 => PropertyIdentifier::AlarmValues,
            8 => PropertyIdentifier::All,
            17 => PropertyIdentifier::NotificationClass,
            22 => PropertyIdentifier::CovIncrement,
            23 => PropertyIdentifier::DateList,
            25 => PropertyIdentifier::Deadband,
            28 => PropertyIdentifier::Description,
            31 => PropertyIdentifier::DeviceType,
            32 => PropertyIdentifier::EffectivePeriod,
            35 => PropertyIdentifier::EventEnable,
            36 => PropertyIdentifier::EventState,
            38 => PropertyIdentifier::ExceptionSchedule,
            45 => PropertyIdentifier::HighLimit,
            46 => PropertyIdentifier::InactiveText,
            52 => PropertyIdentifier::LimitEnable,
            54 => PropertyIdentifier::ListOfObjectPropertyReferences,
            59 => PropertyIdentifier::LowLimit,
            72 => PropertyIdentifier::NotifyType,
            74 => PropertyIdentifier::NumberOfStates,
            75 => PropertyIdentifier::ObjectIdentifier,
            76 => PropertyIdentifier::ObjectList,
            77 => PropertyIdentifier::ObjectName,
            79 => PropertyIdentifier::ObjectType,
            81 => PropertyIdentifier::OutOfService,
            85 => PropertyIdentifier::PresentValue,
            86 => PropertyIdentifier::Priority,
            87 => PropertyIdentifier::PriorityArray,
            88 => PropertyIdentifier::PriorityForWriting,
            96 => PropertyIdentifier::ProtocolObjectTypesSupported,
            102 => PropertyIdentifier::RecipientList,
            103 => PropertyIdentifier::Reliability,
            104 => PropertyIdentifier::RelinquishDefault,
            110 => PropertyIdentifier::StateText,
            111 => PropertyIdentifier::StatusFlags,
            113 => PropertyIdentifier::TimeDelay,
            117 => PropertyIdentifier::Units,
            123 => PropertyIdentifier::WeeklySchedule,
            130 => PropertyIdentifier::EventTimeStamps,
            139 => PropertyIdentifier::ProtocolRevision,
            155 => PropertyIdentifier::DatabaseRevision,
            174 => PropertyIdentifier::ScheduleDefault,
            353 => PropertyIdentifier::EventDetectionEnable,
            356 => PropertyIdentifier::TimeDelayNormal,
            _ => PropertyIdentifier::Other(number),
        }
    }
}

impl vstd::std_specs::convert::FromSpecImpl<u32> for PropertyIdentifier {
    open spec fn obeys_from_spec() -> bool {
        true
    }

    open spec fn from_spec(value: u32) -> PropertyIdentifier {
        PropertyIdentifier::of(value)
    }
}

impl From<u32> for PropertyIdentifier {
    fn from(value: u32) -> (result: PropertyIdentifier) {
        PropertyIdentifier::from_number(value)
    }
}

impl vstd::std_specs::convert::FromSpecImpl<PropertyIdentifier> for u32 {
    open spec fn obeys_from_spec() -> bool {
        true
    }

    open spec fn from_spec(value: PropertyIdentifier) -> u32 {
        value.number()
    }
}

impl From<PropertyIdentifier> for u32 {
    fn from(value: PropertyIdentifier) -> (result: u32) {
        value.to_number()
    }
}

/// Every number survives being turned into a `PropertyIdentifier` and back, and so does every
/// canonical `PropertyIdentifier` the other way round.
pub proof fn law_property_identifier_numbers(number: u32, value: PropertyIdentifier)
    ensures
        PropertyIdentifier::of(number).number() == number,
        PropertyIdentifier::of(number).is_canonical(),
        value.is_canonical() ==> PropertyIdentifier::of(value.number()) == value,
        !(value is Other) ==> value.is_canonical(),
{
}

/// The largest instance number an object identifier can carry.
pub const MAX_INSTANCE: u32 = 0x3F_FFFF;

/// The largest object type number an object identifier can carry.
pub const MAX_OBJECT_TYPE: u32 = 0x3FF;

/// How far the object type stands above the instance number.
pub const TYPE_SCALE: u32 = 0x40_0000;

/// The identity of one object: its type and its instance number.
#[derive(Debug, Clone, Copy, PartialEq, Eq, Structural)]
pub struct ObjectIdentifier {
    pub object_type: ObjectType,
    pub instance: u32,
}

impl ObjectIdentifier {
    /// Whether both parts fit the four octets of an encoded identifier.
    pub open spec fn is_encodable(self) -> bool {
        self.object_type.number() <= MAX_OBJECT_TYPE && self.instance <= MAX_INSTANCE
    }

    /// The number that an encodable identifier is written as.
    pub open spec fn packed(self) -> int {
        self.object_type.number() * TYPE_SCALE + self.instance
    }

    /// The identifier that an encoded number stands for.
    pub open spec fn unpacked(number: u32) -> ObjectIdentifier {
        ObjectIdentifier {
            object_type: ObjectType::of(number / TYPE_SCALE),
            instance: number % TYPE_SCALE,
        }
    }

    /// Name the object of `object_type` with the given instance number.
    pub fn new(object_type: ObjectType, instance: u32) -> (identifier: ObjectIdentifier)
        ensures
            identifier.object_type == object_type,
            identifier.instance == instance,
    {
        ObjectIdentifier { object_type, instance }
    }

    /// The number this identifier is written as, if it is encodable.
    pub fn pack(self) -> (packed: Option<u32>)
        ensures
            packed == if self.is_encodable() {
                Some(self.packed() as u32)
            } else {
                None
            },
            self.is_encodable() ==> 0 <= self.packed() <= u32::MAX,
    {
        let number: u32 = self.object_type.to_number();
        if number <= MAX_OBJECT_TYPE && self.instance <= MAX_INSTANCE {
            Some(number * TYPE_SCALE + self.instance)
        } else {
            None
        }
    }

    /// The identifier that an encoded number stands for.
    pub fn unpack(number: u32) -> (identifier: ObjectIdentifier)
        ensures
            identifier == ObjectIdentifier::unpacked(number),
            identifier.is_encodable(),
    {
        ObjectIdentifier {
            object_type: ObjectType::from_number(number / TYPE_SCALE),
            instance: number % TYPE_SCALE,
        }
    }

    /// How the identifier is shown in a message.
    pub open spec fn shown(self) -> Seq<char> {
        "ObjectIdentifier { object_type: "@ + self.object_type.shown() + ", instance: "@
            + text::decimal(self.instance as nat) + " }"@
    }

    /// Show the identifier in a message.
    pub fn show(self) -> (text: String)
        ensures
            text@ == self.shown(),
    {
        let mut text = "ObjectIdentifier { object_type: ".to_owned();
        text.append(self.object_type.show().as_str());
        text.append(", instance: ");
        text.append(decimal_text(self.instance).as_str());
        text.append(" }");
        text
    }
}

/// Unpacking gives back every encodable identifier with a canonical type, and
/// packing gives back every number.
pub proof fn law_identifier_packing(identifier: ObjectIdentifier, number: u32)
    ensures
        identifier.is_encodable() && identifier.object_type.is_canonical()
            ==> ObjectIdentifier::unpacked(identifier.packed() as u32) == identifier,
        ObjectIdentifier::unpacked(number).is_encodable(),
        ObjectIdentifier::unpacked(number).packed() == number,
{
    if identifier.is_encodable() && identifier.object_type.is_canonical() {
        let n = identifier.object_type.number() as int;
        let p = identifier.packed();
        assert(p == n * 0x40_0000 + identifier.instance);
        assert(p / 0x40_0000 == n);
        assert(p % 0x40_0000 == identifier.instance);
    }
}

} // verus!
