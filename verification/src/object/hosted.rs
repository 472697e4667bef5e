//! The objects that a database can host.

use crate::object::analog;
use crate::object::analog::{AnalogInput, AnalogOutput, AnalogValue};
use crate::object::base::BacnetObject;
use crate::object::binary::{BinaryInput, BinaryOutput, BinaryValue};
use crate::object::calendar::Calendar;
use crate::object::device::Device;
use crate::object::error::{ObjectError, ObjectErrorView};
use crate::object::hostable::Hostable;
use crate::object::identifier::{ObjectIdentifier, PropertyIdentifier};
use crate::object::intrinsic::{AlarmEvaluation, IntrinsicReporting};
use crate::object::multistate::{MultiStateInput, MultiStateOutput, MultiStateValue};
use crate::object::notification_class::NotificationClass;
use crate::object::schedule::Schedule;
use crate::object::state::EventState;
use crate::property::value::{PropertyValue, PropertyValueView};
use vstd::prelude::*;

verus! {

/// An object of any type that a database can host.
#[derive(Debug, Clone)]
pub enum HostedObject {
    Device(Device),
    AnalogInput(AnalogInput),
    AnalogOutput(AnalogOutput),
    AnalogValue(AnalogValue),
    BinaryInput(BinaryInput),
    BinaryOutput(BinaryOutput),
    BinaryValue(BinaryValue),
    MultiStateInput(MultiStateInput),
    MultiStateOutput(MultiStateOutput),
    MultiStateValue(MultiStateValue),
    NotificationClass(NotificationClass),
    Calendar(Calendar),
    Schedule(Schedule),
}

impl Hostable for HostedObject {
    open spec fn name(&self) -> Seq<char> {
        match *self {
            HostedObject::Device(object) => object.object_name@,
            HostedObject::AnalogInput(object) => object.object_name@,
            HostedObject::AnalogOutput(object) => object.object_name@,
            HostedObject::AnalogValue(object) => object.object_name@,
            HostedObject::BinaryInput(object) => object.object_name@,
            HostedObject::BinaryOutput(object) => object.object_name@,
            HostedObject::BinaryValue(object) => object.object_name@,
            HostedObject::MultiStateInput(object) => object.object_name@,
            HostedObject::MultiStateOutput(object) => object.object_name@,
            HostedObject::MultiStateValue(object) => object.object_name@,
            HostedObject::NotificationClass(object) => object.object_name@,
            HostedObject::Calendar(object) => object.object_name@,
            HostedObject::Schedule(object) => object.object_name@,
        }
    }

    fn object_name(&self) -> (name: &String) {
        match self {
            HostedObject::Device(object) => &object.object_name,
            HostedObject::AnalogInput(object) => &object.object_name,
            HostedObject::AnalogOutput(object) => &object.object_name,
            HostedObject::AnalogValue(object) => &object.object_name,
            HostedObject::BinaryInput(object) => &object.object_name,
            HostedObject::BinaryOutput(object) => &object.object_name,
            HostedObject::BinaryValue(object) => &object.object_name,
            HostedObject::MultiStateInput(object) => &object.object_name,
            HostedObject::MultiStateOutput(object) => &object.object_name,
            HostedObject::MultiStateValue(object) => &object.object_name,
            HostedObject::NotificationClass(object) => &object.object_name,
            HostedObject::Calendar(object) => &object.object_name,
            HostedObject::Schedule(object) => &object.object_name,
        }
    }

    open spec fn entered(&self, state: EventState) -> HostedObject {
        match *self {
            HostedObject::AnalogInput(object) => HostedObject::AnalogInput(
                AnalogInput { event_state: state, ..object },
            ),
            HostedObject::AnalogOutput(object) => HostedObject::AnalogOutput(
                AnalogOutput { event_state: state, ..object },
            ),
            HostedObject::AnalogValue(object) => HostedObject::AnalogValue(
                AnalogValue { event_state: state, ..object },
            ),
            HostedObject::BinaryInput(object) => HostedObject::BinaryInput(
                BinaryInput { event_state: state, ..object },
            ),
            HostedObject::BinaryOutput(object) => HostedObject::BinaryOutput(
                BinaryOutput { event_state: state, ..object },
            ),
            HostedObject::BinaryValue(object) => HostedObject::BinaryValue(
                BinaryValue { event_state: state, ..object },
            ),
            HostedObject::MultiStateInput(object) => HostedObject::MultiStateInput(
                MultiStateInput { event_state: state, ..object },
            ),
            HostedObject::MultiStateOutput(object) => HostedObject::MultiStateOutput(
                MultiStateOutput { event_state: state, ..object },
            ),
            HostedObject::MultiStateValue(object) => HostedObject::MultiStateValue(
                MultiStateValue { event_state: state, ..object },
            ),
            other => other,
        }
    }

    open spec fn with_reporting(&self, reporting: IntrinsicReporting) -> HostedObject {
        if self.reporting() is None {
            *self
        } else {
            match *self {
                HostedObject::AnalogInput(object) => HostedObject::AnalogInput(
                    AnalogInput { alarm: Some(reporting), ..object },
                ),
                HostedObject::AnalogOutput(object) => HostedObject::AnalogOutput(
                    AnalogOutput { alarm: Some(reporting), ..object },
                ),
                HostedObject::AnalogValue(object) => HostedObject::AnalogValue(
                    AnalogValue { alarm: Some(reporting), ..object },
                ),
                HostedObject::BinaryInput(object) => HostedObject::BinaryInput(
                    BinaryInput { alarm: Some(reporting), ..object },
                ),
                HostedObject::BinaryOutput(object) => HostedObject::BinaryOutput(
                    BinaryOutput { alarm: Some(reporting), ..object },
                ),
                HostedObject::BinaryValue(object) => HostedObject::BinaryValue(
                    BinaryValue { alarm: Some(reporting), ..object },
                ),
                HostedObject::MultiStateInput(object) => HostedObject::MultiStateInput(
                    MultiStateInput { alarm: Some(reporting), ..object },
                ),
                HostedObject::MultiStateOutput(object) => HostedObject::MultiStateOutput(
                    MultiStateOutput { alarm: Some(reporting), ..object },
                ),
                HostedObject::MultiStateValue(object) => HostedObject::MultiStateValue(
                    MultiStateValue { alarm: Some(reporting), ..object },
                ),
                other => other,
            }
        }
    }

    proof fn law_events_keep_identity(&self, state: EventState, reporting: IntrinsicReporting) {
    }

    /// Whether the object's deadband, where it has one, is a number that is not
    /// negative.
    open spec fn settles(&self) -> bool {
        match *self {
            HostedObject::AnalogInput(object) => object.deadband.is_distance(),
            HostedObject::AnalogOutput(object) => object.deadband.is_distance(),
            HostedObject::AnalogValue(object) => object.deadband.is_distance(),
            _ => true,
        }
    }

    proof fn law_entering_settles(
        &self,
        evaluation: AlarmEvaluation,
        reporting: IntrinsicReporting,
    ) {
        match *self {
            HostedObject::AnalogInput(object) => {
                analog::law_steady_value_keeps_its_state(
                    object.shown_value(),
                    object.high_limit,
                    object.low_limit,
                    object.deadband,
                    object.reliability,
                    object.event_state,
                    object.alarm,
                    evaluation,
                );
            },
            HostedObject::AnalogOutput(object) => {
                analog::law_steady_value_keeps_its_state(
                    object.shown_value(),
                    object.high_limit,
                    object.low_limit,
                    object.deadband,
                    object.reliability,
                    object.event_state,
                    object.alarm,
                    evaluation,
                );
            },
            HostedObject::AnalogValue(object) => {
                analog::law_steady_value_keeps_its_state(
                    object.shown_value(),
                    object.high_limit,
                    object.low_limit,
                    object.deadband,
                    object.reliability,
                    object.event_state,
                    object.alarm,
                    evaluation,
                );
            },
            _ => {},
        }
    }

    proof fn law_name_is_readable(&self) {
    }

    proof fn law_only_naming_renames(
        &self,
        after: HostedObject,
        property: PropertyIdentifier,
        value: PropertyValue,
        priority: Option<u8>,
        outcome: Result<(), ObjectErrorView>,
    ) {
        match (*self, after) {
            (HostedObject::Device(object), HostedObject::Device(other)) => {
                lemma_device_renames(object, other, property, value, priority, outcome);
            },
            (HostedObject::AnalogInput(object), HostedObject::AnalogInput(other)) => {
                lemma_analog_input_renames(object, other, property, value, priority, outcome);
            },
            (HostedObject::AnalogOutput(object), HostedObject::AnalogOutput(other)) => {
                lemma_analog_output_renames(object, other, property, value, priority, outcome);
            },
            (HostedObject::AnalogValue(object), HostedObject::AnalogValue(other)) => {
                lemma_analog_value_renames(object, other, property, value, priority, outcome);
            },
            (HostedObject::BinaryInput(object), HostedObject::BinaryInput(other)) => {
                lemma_binary_input_renames(object, other, property, value, priority, outcome);
            },
            (HostedObject::BinaryOutput(object), HostedObject::BinaryOutput(other)) => {
                lemma_binary_output_renames(object, other, property, value, priority, outcome);
            },
            (HostedObject::BinaryValue(object), HostedObject::BinaryValue(other)) => {
                lemma_binary_value_renames(object, other, property, value, priority, outcome);
            },
            (HostedObject::MultiStateInput(object), HostedObject::MultiStateInput(other)) => {
                lemma_multi_state_input_renames(object, other, property, value, priority, outcome);
            },
            (HostedObject::MultiStateOutput(object), HostedObject::MultiStateOutput(other)) => {
                lemma_multi_state_output_renames(object, other, property, value, priority, outcome);
            },
            (HostedObject::MultiStateValue(object), HostedObject::MultiStateValue(other)) => {
                lemma_multi_state_value_renames(object, other, property, value, priority, outcome);
            },
            (HostedObject::NotificationClass(object), HostedObject::NotificationClass(other)) => {
                lemma_notification_class_renames(object, other, property, value, priority, outcome);
            },
            (HostedObject::Calendar(object), HostedObject::Calendar(other)) => {
                lemma_calendar_renames(object, other, property, value, priority, outcome);
            },
            (HostedObject::Schedule(object), HostedObject::Schedule(other)) => {
                lemma_schedule_renames(object, other, property, value, priority, outcome);
            },
            _ => {},
        }
    }

    open spec fn hosting(device: Device) -> HostedObject {
        HostedObject::Device(device)
    }

    open spec fn as_schedule(&self) -> Option<Schedule> {
        match *self {
            HostedObject::Schedule(schedule) => Some(schedule),
            _ => None,
        }
    }

    open spec fn with_schedule(&self, schedule: Schedule) -> HostedObject {
        HostedObject::Schedule(schedule)
    }

    open spec fn as_calendar(&self) -> Option<Calendar> {
        match *self {
            HostedObject::Calendar(calendar) => Some(calendar),
            _ => None,
        }
    }

    open spec fn with_calendar(&self, calendar: Calendar) -> HostedObject {
        HostedObject::Calendar(calendar)
    }

    open spec fn as_notification_class(&self) -> Option<NotificationClass> {
        match *self {
            HostedObject::NotificationClass(class) => Some(class),
            _ => None,
        }
    }

    proof fn law_device_keeps_identity(device: Device) {
    }

    proof fn law_parts_can_be_replaced(&self, schedule: Schedule, calendar: Calendar) {
    }

    fn host(device: Device) -> (object: HostedObject) {
        HostedObject::Device(device)
    }

    fn schedule(&self) -> (schedule: Option<&Schedule>) {
        match self {
            HostedObject::Schedule(schedule) => Some(schedule),
            _ => None,
        }
    }

    fn schedule_mut(&mut self) -> (schedule: Option<&mut Schedule>) {
        match self {
            HostedObject::Schedule(schedule) => Some(schedule),
            _ => None,
        }
    }

    fn calendar_mut(&mut self) -> (calendar: Option<&mut Calendar>) {
        match self {
            HostedObject::Calendar(calendar) => Some(calendar),
            _ => None,
        }
    }

    fn notification_class(&self) -> (class: Option<&NotificationClass>) {
        match self {
            HostedObject::NotificationClass(class) => Some(class),
            _ => None,
        }
    }
}

proof fn lemma_device_renames(
    before: Device,
    after: Device,
    property: PropertyIdentifier,
    value: PropertyValue,
    priority: Option<u8>,
    outcome: Result<(), ObjectErrorView>,
)
    requires
        before.writing(after, property, value, priority, outcome),
    ensures
        property != PropertyIdentifier::ObjectName ==> after.object_name@ == before.object_name@,
        outcome is Err ==> after == before,
        property == PropertyIdentifier::ObjectName && outcome is Ok ==> (
        value matches PropertyValue::CharacterString(text) && after.object_name@ == text@),
        after.identifier == before.identifier,
{
}

proof fn lemma_analog_input_renames(
    before: AnalogInput,
    after: AnalogInput,
    property: PropertyIdentifier,
    value: PropertyValue,
    priority: Option<u8>,
    outcome: Result<(), ObjectErrorView>,
)
    requires
        before.writing(after, property, value, priority, outcome),
    ensures
        property != PropertyIdentifier::ObjectName ==> after.object_name@ == before.object_name@,
        outcome is Err ==> after == before,
        property == PropertyIdentifier::ObjectName && outcome is Ok ==> (
        value matches PropertyValue::CharacterString(text) && after.object_name@ == text@),
        after.identifier == before.identifier,
{
}

proof fn lemma_analog_output_renames(
    before: AnalogOutput,
    after: AnalogOutput,
    property: PropertyIdentifier,
    value: PropertyValue,
    priority: Option<u8>,
    outcome: Result<(), ObjectErrorView>,
)
    requires
        before.writing(after, property, value, priority, outcome),
    ensures
        property != PropertyIdentifier::ObjectName ==> after.object_name@ == before.object_name@,
        outcome is Err ==> after == before,
        property == PropertyIdentifier::ObjectName && outcome is Ok ==> (
        value matches PropertyValue::CharacterString(text) && after.object_name@ == text@),
        after.identifier == before.identifier,
{
}

proof fn lemma_analog_value_renames(
    before: AnalogValue,
    after: AnalogValue,
    property: PropertyIdentifier,
    value: PropertyValue,
    priority: Option<u8>,
    outcome: Result<(), ObjectErrorView>,
)
    requires
        before.writing(after, property, value, priority, outcome),
    ensures
        property != PropertyIdentifier::ObjectName ==> after.object_name@ == before.object_name@,
        outcome is Err ==> after == before,
        property == PropertyIdentifier::ObjectName && outcome is Ok ==> (
        value matches PropertyValue::CharacterString(text) && after.object_name@ == text@),
        after.identifier == before.identifier,
{
}

proof fn lemma_binary_input_renames(
    before: BinaryInput,
    after: BinaryInput,
    property: PropertyIdentifier,
    value: PropertyValue,
    priority: Option<u8>,
    outcome: Result<(), ObjectErrorView>,
)
    requires
        before.writing(after, property, value, priority, outcome),
    ensures
        property != PropertyIdentifier::ObjectName ==> after.object_name@ == before.object_name@,
        outcome is Err ==> after == before,
        property == PropertyIdentifier::ObjectName && outcome is Ok ==> (
        value matches PropertyValue::CharacterString(text) && after.object_name@ == text@),
        after.identifier == before.identifier,
{
}

proof fn lemma_binary_output_renames(
    before: BinaryOutput,
    after: BinaryOutput,
    property: PropertyIdentifier,
    value: PropertyValue,
    priority: Option<u8>,
    outcome: Result<(), ObjectErrorView>,
)
    requires
        before.writing(after, property, value, priority, outcome),
    ensures
        property != PropertyIdentifier::ObjectName ==> after.object_name@ == before.object_name@,
        outcome is Err ==> after == before,
        property == PropertyIdentifier::ObjectName && outcome is Ok ==> (
        value matches PropertyValue::CharacterString(text) && after.object_name@ == text@),
        after.identifier == before.identifier,
{
}

proof fn lemma_binary_value_renames(
    before: BinaryValue,
    after: BinaryValue,
    property: PropertyIdentifier,
    value: PropertyValue,
    priority: Option<u8>,
    outcome: Result<(), ObjectErrorView>,
)
    requires
        before.writing(after, property, value, priority, outcome),
    ensures
        property != PropertyIdentifier::ObjectName ==> after.object_name@ == before.object_name@,
        outcome is Err ==> after == before,
        property == PropertyIdentifier::ObjectName && outcome is Ok ==> (
        value matches PropertyValue::CharacterString(text) && after.object_name@ == text@),
        after.identifier == before.identifier,
{
}

proof fn lemma_multi_state_input_renames(
    before: MultiStateInput,
    after: MultiStateInput,
    property: PropertyIdentifier,
    value: PropertyValue,
    priority: Option<u8>,
    outcome: Result<(), ObjectErrorView>,
)
    requires
        before.writing(after, property, value, priority, outcome),
    ensures
        property != PropertyIdentifier::ObjectName ==> after.object_name@ == before.object_name@,
        outcome is Err ==> after == before,
        property == PropertyIdentifier::ObjectName && outcome is Ok ==> (
        value matches PropertyValue::CharacterString(text) && after.object_name@ == text@),
        after.identifier == before.identifier,
{
}

proof fn lemma_multi_state_output_renames(
    before: MultiStateOutput,
    after: MultiStateOutput,
    property: PropertyIdentifier,
    value: PropertyValue,
    priority: Option<u8>,
    outcome: Result<(), ObjectErrorView>,
)
    requires
        before.writing(after, property, value, priority, outcome),
    ensures
        property != PropertyIdentifier::ObjectName ==> after.object_name@ == before.object_name@,
        outcome is Err ==> after == before,
        property == PropertyIdentifier::ObjectName && outcome is Ok ==> (
        value matches PropertyValue::CharacterString(text) && after.object_name@ == text@),
        after.identifier == before.identifier,
{
}

proof fn lemma_multi_state_value_renames(
    before: MultiStateValue,
    after: MultiStateValue,
    property: PropertyIdentifier,
    value: PropertyValue,
    priority: Option<u8>,
    outcome: Result<(), ObjectErrorView>,
)
    requires
        before.writing(after, property, value, priority, outcome),
    ensures
        property != PropertyIdentifier::ObjectName ==> after.object_name@ == before.object_name@,
        outcome is Err ==> after == before,
        property == PropertyIdentifier::ObjectName && outcome is Ok ==> (
        value matches PropertyValue::CharacterString(text) && after.object_name@ == text@),
        after.identifier == before.identifier,
{
}

proof fn lemma_notification_class_renames(
    before: NotificationClass,
    after: NotificationClass,
    property: PropertyIdentifier,
    value: PropertyValue,
    priority: Option<u8>,
    outcome: Result<(), ObjectErrorView>,
)
    requires
        before.writing(after, property, value, priority, outcome),
    ensures
        property != PropertyIdentifier::ObjectName ==> after.object_name@ == before.object_name@,
        outcome is Err ==> after == before,
        property == PropertyIdentifier::ObjectName && outcome is Ok ==> (
        value matches PropertyValue::CharacterString(text) && after.object_name@ == text@),
        after.identifier == before.identifier,
{
}

proof fn lemma_calendar_renames(
    before: Calendar,
    after: Calendar,
    property: PropertyIdentifier,
    value: PropertyValue,
    priority: Option<u8>,
    outcome: Result<(), ObjectErrorView>,
)
    requires
        before.writing(after, property, value, priority, outcome),
    ensures
        property != PropertyIdentifier::ObjectName ==> after.object_name@ == before.object_name@,
        outcome is Err ==> after == before,
        property == PropertyIdentifier::ObjectName && outcome is Ok ==> (
        value matches PropertyValue::CharacterString(text) && after.object_name@ == text@),
        after.identifier == before.identifier,
{
}

proof fn lemma_schedule_renames(
    before: Schedule,
    after: Schedule,
    property: PropertyIdentifier,
    value: PropertyValue,
    priority: Option<u8>,
    outcome: Result<(), ObjectErrorView>,
)
    requires
        before.writing(after, property, value, priority, outcome),
    ensures
        property != PropertyIdentifier::ObjectName ==> after.object_name@ == before.object_name@,
        outcome is Err ==> after == before,
        property == PropertyIdentifier::ObjectName && outcome is Ok ==> (
        value matches PropertyValue::CharacterString(text) && after.object_name@ == text@),
        after.identifier == before.identifier,
{
}


impl BacnetObject for HostedObject {
    open spec fn identity(&self) -> ObjectIdentifier {
        match *self {
            HostedObject::Device(object) => object.identity(),
            HostedObject::AnalogInput(object) => object.identity(),
            HostedObject::AnalogOutput(object) => object.identity(),
            HostedObject::AnalogValue(object) => object.identity(),
            HostedObject::BinaryInput(object) => object.identity(),
            HostedObject::BinaryOutput(object) => object.identity(),
            HostedObject::BinaryValue(object) => object.identity(),
            HostedObject::MultiStateInput(object) => object.identity(),
            HostedObject::MultiStateOutput(object) => object.identity(),
            HostedObject::MultiStateValue(object) => object.identity(),
            HostedObject::NotificationClass(object) => object.identity(),
            HostedObject::Calendar(object) => object.identity(),
            HostedObject::Schedule(object) => object.identity(),
        }
    }

    open spec fn reading(&self, property: PropertyIdentifier) -> Result<
        PropertyValueView,
        ObjectErrorView,
    > {
        match *self {
            HostedObject::Device(object) => object.reading(property),
            HostedObject::AnalogInput(object) => object.reading(property),
            HostedObject::AnalogOutput(object) => object.reading(property),
            HostedObject::AnalogValue(object) => object.reading(property),
            HostedObject::BinaryInput(object) => object.reading(property),
            HostedObject::BinaryOutput(object) => object.reading(property),
            HostedObject::BinaryValue(object) => object.reading(property),
            HostedObject::MultiStateInput(object) => object.reading(property),
            HostedObject::MultiStateOutput(object) => object.reading(property),
            HostedObject::MultiStateValue(object) => object.reading(property),
            HostedObject::NotificationClass(object) => object.reading(property),
            HostedObject::Calendar(object) => object.reading(property),
            HostedObject::Schedule(object) => object.reading(property),
        }
    }

    open spec fn writing(
        &self,
        after: HostedObject,
        property: PropertyIdentifier,
        value: PropertyValue,
        priority: Option<u8>,
        outcome: Result<(), ObjectErrorView>,
    ) -> bool {
        match (*self, after) {
            (HostedObject::Device(object), HostedObject::Device(other)) => object.writing(other, property, value, priority, outcome),
            (HostedObject::AnalogInput(object), HostedObject::AnalogInput(other)) => object.writing(other, property, value, priority, outcome),
            (HostedObject::AnalogOutput(object), HostedObject::AnalogOutput(other)) => object.writing(other, property, value, priority, outcome),
            (HostedObject::AnalogValue(object), HostedObject::AnalogValue(other)) => object.writing(other, property, value, priority, outcome),
            (HostedObject::BinaryInput(object), HostedObject::BinaryInput(other)) => object.writing(other, property, value, priority, outcome),
            (HostedObject::BinaryOutput(object), HostedObject::BinaryOutput(other)) => object.writing(other, property, value, priority, outcome),
            (HostedObject::BinaryValue(object), HostedObject::BinaryValue(other)) => object.writing(other, property, value, priority, outcome),
            (HostedObject::MultiStateInput(object), HostedObject::MultiStateInput(other)) => object.writing(other, property, value, priority, outcome),
            (HostedObject::MultiStateOutput(object), HostedObject::MultiStateOutput(other)) => object.writing(other, property, value, priority, outcome),
            (HostedObject::MultiStateValue(object), HostedObject::MultiStateValue(other)) => object.writing(other, property, value, priority, outcome),
            (HostedObject::NotificationClass(object), HostedObject::NotificationClass(other)) => object.writing(other, property, value, priority, outcome),
            (HostedObject::Calendar(object), HostedObject::Calendar(other)) => object.writing(other, property, value, priority, outcome),
            (HostedObject::Schedule(object), HostedObject::Schedule(other)) => object.writing(other, property, value, priority, outcome),
            _ => false,
        }
    }

    open spec fn accepts(&self, property: PropertyIdentifier) -> bool {
        match *self {
            HostedObject::Device(object) => object.accepts(property),
            HostedObject::AnalogInput(object) => object.accepts(property),
            HostedObject::AnalogOutput(object) => object.accepts(property),
            HostedObject::AnalogValue(object) => object.accepts(property),
            HostedObject::BinaryInput(object) => object.accepts(property),
            HostedObject::BinaryOutput(object) => object.accepts(property),
            HostedObject::BinaryValue(object) => object.accepts(property),
            HostedObject::MultiStateInput(object) => object.accepts(property),
            HostedObject::MultiStateOutput(object) => object.accepts(property),
            HostedObject::MultiStateValue(object) => object.accepts(property),
            HostedObject::NotificationClass(object) => object.accepts(property),
            HostedObject::Calendar(object) => object.accepts(property),
            HostedObject::Schedule(object) => object.accepts(property),
        }
    }

    open spec fn listing(&self) -> Seq<PropertyIdentifier> {
        match *self {
            HostedObject::Device(object) => object.listing(),
            HostedObject::AnalogInput(object) => object.listing(),
            HostedObject::AnalogOutput(object) => object.listing(),
            HostedObject::AnalogValue(object) => object.listing(),
            HostedObject::BinaryInput(object) => object.listing(),
            HostedObject::BinaryOutput(object) => object.listing(),
            HostedObject::BinaryValue(object) => object.listing(),
            HostedObject::MultiStateInput(object) => object.listing(),
            HostedObject::MultiStateOutput(object) => object.listing(),
            HostedObject::MultiStateValue(object) => object.listing(),
            HostedObject::NotificationClass(object) => object.listing(),
            HostedObject::Calendar(object) => object.listing(),
            HostedObject::Schedule(object) => object.listing(),
        }
    }

    open spec fn sourcing(
        &self,
        after: HostedObject,
        value: PropertyValue,
        outcome: Result<(), ObjectErrorView>,
    ) -> bool {
        match (*self, after) {
            (HostedObject::Device(object), HostedObject::Device(other)) => object.sourcing(other, value, outcome),
            (HostedObject::AnalogInput(object), HostedObject::AnalogInput(other)) => object.sourcing(other, value, outcome),
            (HostedObject::AnalogOutput(object), HostedObject::AnalogOutput(other)) => object.sourcing(other, value, outcome),
            (HostedObject::AnalogValue(object), HostedObject::AnalogValue(other)) => object.sourcing(other, value, outcome),
            (HostedObject::BinaryInput(object), HostedObject::BinaryInput(other)) => object.sourcing(other, value, outcome),
            (HostedObject::BinaryOutput(object), HostedObject::BinaryOutput(other)) => object.sourcing(other, value, outcome),
            (HostedObject::BinaryValue(object), HostedObject::BinaryValue(other)) => object.sourcing(other, value, outcome),
            (HostedObject::MultiStateInput(object), HostedObject::MultiStateInput(other)) => object.sourcing(other, value, outcome),
            (HostedObject::MultiStateOutput(object), HostedObject::MultiStateOutput(other)) => object.sourcing(other, value, outcome),
            (HostedObject::MultiStateValue(object), HostedObject::MultiStateValue(other)) => object.sourcing(other, value, outcome),
            (HostedObject::NotificationClass(object), HostedObject::NotificationClass(other)) => object.sourcing(other, value, outcome),
            (HostedObject::Calendar(object), HostedObject::Calendar(other)) => object.sourcing(other, value, outcome),
            (HostedObject::Schedule(object), HostedObject::Schedule(other)) => object.sourcing(other, value, outcome),
            _ => false,
        }
    }

    open spec fn reporting(&self) -> Option<IntrinsicReporting> {
        match *self {
            HostedObject::Device(object) => object.reporting(),
            HostedObject::AnalogInput(object) => object.reporting(),
            HostedObject::AnalogOutput(object) => object.reporting(),
            HostedObject::AnalogValue(object) => object.reporting(),
            HostedObject::BinaryInput(object) => object.reporting(),
            HostedObject::BinaryOutput(object) => object.reporting(),
            HostedObject::BinaryValue(object) => object.reporting(),
            HostedObject::MultiStateInput(object) => object.reporting(),
            HostedObject::MultiStateOutput(object) => object.reporting(),
            HostedObject::MultiStateValue(object) => object.reporting(),
            HostedObject::NotificationClass(object) => object.reporting(),
            HostedObject::Calendar(object) => object.reporting(),
            HostedObject::Schedule(object) => object.reporting(),
        }
    }

    open spec fn reports_as(&self, after: HostedObject, reporting: IntrinsicReporting) -> bool {
        match (*self, after) {
            (HostedObject::Device(object), HostedObject::Device(other)) => object.reports_as(other, reporting),
            (HostedObject::AnalogInput(object), HostedObject::AnalogInput(other)) => object.reports_as(other, reporting),
            (HostedObject::AnalogOutput(object), HostedObject::AnalogOutput(other)) => object.reports_as(other, reporting),
            (HostedObject::AnalogValue(object), HostedObject::AnalogValue(other)) => object.reports_as(other, reporting),
            (HostedObject::BinaryInput(object), HostedObject::BinaryInput(other)) => object.reports_as(other, reporting),
            (HostedObject::BinaryOutput(object), HostedObject::BinaryOutput(other)) => object.reports_as(other, reporting),
            (HostedObject::BinaryValue(object), HostedObject::BinaryValue(other)) => object.reports_as(other, reporting),
            (HostedObject::MultiStateInput(object), HostedObject::MultiStateInput(other)) => object.reports_as(other, reporting),
            (HostedObject::MultiStateOutput(object), HostedObject::MultiStateOutput(other)) => object.reports_as(other, reporting),
            (HostedObject::MultiStateValue(object), HostedObject::MultiStateValue(other)) => object.reports_as(other, reporting),
            (HostedObject::NotificationClass(object), HostedObject::NotificationClass(other)) => object.reports_as(other, reporting),
            (HostedObject::Calendar(object), HostedObject::Calendar(other)) => object.reports_as(other, reporting),
            (HostedObject::Schedule(object), HostedObject::Schedule(other)) => object.reports_as(other, reporting),
            _ => false,
        }
    }

    open spec fn evaluation(&self) -> Option<AlarmEvaluation> {
        match *self {
            HostedObject::Device(object) => object.evaluation(),
            HostedObject::AnalogInput(object) => object.evaluation(),
            HostedObject::AnalogOutput(object) => object.evaluation(),
            HostedObject::AnalogValue(object) => object.evaluation(),
            HostedObject::BinaryInput(object) => object.evaluation(),
            HostedObject::BinaryOutput(object) => object.evaluation(),
            HostedObject::BinaryValue(object) => object.evaluation(),
            HostedObject::MultiStateInput(object) => object.evaluation(),
            HostedObject::MultiStateOutput(object) => object.evaluation(),
            HostedObject::MultiStateValue(object) => object.evaluation(),
            HostedObject::NotificationClass(object) => object.evaluation(),
            HostedObject::Calendar(object) => object.evaluation(),
            HostedObject::Schedule(object) => object.evaluation(),
        }
    }

    open spec fn enters(&self, after: HostedObject, state: EventState) -> bool {
        match (*self, after) {
            (HostedObject::Device(object), HostedObject::Device(other)) => object.enters(other, state),
            (HostedObject::AnalogInput(object), HostedObject::AnalogInput(other)) => object.enters(other, state),
            (HostedObject::AnalogOutput(object), HostedObject::AnalogOutput(other)) => object.enters(other, state),
            (HostedObject::AnalogValue(object), HostedObject::AnalogValue(other)) => object.enters(other, state),
            (HostedObject::BinaryInput(object), HostedObject::BinaryInput(other)) => object.enters(other, state),
            (HostedObject::BinaryOutput(object), HostedObject::BinaryOutput(other)) => object.enters(other, state),
            (HostedObject::BinaryValue(object), HostedObject::BinaryValue(other)) => object.enters(other, state),
            (HostedObject::MultiStateInput(object), HostedObject::MultiStateInput(other)) => object.enters(other, state),
            (HostedObject::MultiStateOutput(object), HostedObject::MultiStateOutput(other)) => object.enters(other, state),
            (HostedObject::MultiStateValue(object), HostedObject::MultiStateValue(other)) => object.enters(other, state),
            (HostedObject::NotificationClass(object), HostedObject::NotificationClass(other)) => object.enters(other, state),
            (HostedObject::Calendar(object), HostedObject::Calendar(other)) => object.enters(other, state),
            (HostedObject::Schedule(object), HostedObject::Schedule(other)) => object.enters(other, state),
            _ => false,
        }
    }

    open spec fn decoupled(&self) -> bool {
        match *self {
            HostedObject::Device(object) => object.decoupled(),
            HostedObject::AnalogInput(object) => object.decoupled(),
            HostedObject::AnalogOutput(object) => object.decoupled(),
            HostedObject::AnalogValue(object) => object.decoupled(),
            HostedObject::BinaryInput(object) => object.decoupled(),
            HostedObject::BinaryOutput(object) => object.decoupled(),
            HostedObject::BinaryValue(object) => object.decoupled(),
            HostedObject::MultiStateInput(object) => object.decoupled(),
            HostedObject::MultiStateOutput(object) => object.decoupled(),
            HostedObject::MultiStateValue(object) => object.decoupled(),
            HostedObject::NotificationClass(object) => object.decoupled(),
            HostedObject::Calendar(object) => object.decoupled(),
            HostedObject::Schedule(object) => object.decoupled(),
        }
    }

    fn identifier(&self) -> (identifier: ObjectIdentifier) {
        match self {
            HostedObject::Device(object) => object.identifier(),
            HostedObject::AnalogInput(object) => object.identifier(),
            HostedObject::AnalogOutput(object) => object.identifier(),
            HostedObject::AnalogValue(object) => object.identifier(),
            HostedObject::BinaryInput(object) => object.identifier(),
            HostedObject::BinaryOutput(object) => object.identifier(),
            HostedObject::BinaryValue(object) => object.identifier(),
            HostedObject::MultiStateInput(object) => object.identifier(),
            HostedObject::MultiStateOutput(object) => object.identifier(),
            HostedObject::MultiStateValue(object) => object.identifier(),
            HostedObject::NotificationClass(object) => object.identifier(),
            HostedObject::Calendar(object) => object.identifier(),
            HostedObject::Schedule(object) => object.identifier(),
        }
    }

    fn get_property(&self, property: PropertyIdentifier) -> (result: Result<
        PropertyValue,
        ObjectError,
    >) {
        match self {
            HostedObject::Device(object) => object.get_property(property),
            HostedObject::AnalogInput(object) => object.get_property(property),
            HostedObject::AnalogOutput(object) => object.get_property(property),
            HostedObject::AnalogValue(object) => object.get_property(property),
            HostedObject::BinaryInput(object) => object.get_property(property),
            HostedObject::BinaryOutput(object) => object.get_property(property),
            HostedObject::BinaryValue(object) => object.get_property(property),
            HostedObject::MultiStateInput(object) => object.get_property(property),
            HostedObject::MultiStateOutput(object) => object.get_property(property),
            HostedObject::MultiStateValue(object) => object.get_property(property),
            HostedObject::NotificationClass(object) => object.get_property(property),
            HostedObject::Calendar(object) => object.get_property(property),
            HostedObject::Schedule(object) => object.get_property(property),
        }
    }

    fn set_property(&mut self, property: PropertyIdentifier, value: PropertyValue) -> (result:
        Result<(), ObjectError>) {
        match self {
            HostedObject::Device(object) => object.set_property(property, value),
            HostedObject::AnalogInput(object) => object.set_property(property, value),
            HostedObject::AnalogOutput(object) => object.set_property(property, value),
            HostedObject::AnalogValue(object) => object.set_property(property, value),
            HostedObject::BinaryInput(object) => object.set_property(property, value),
            HostedObject::BinaryOutput(object) => object.set_property(property, value),
            HostedObject::BinaryValue(object) => object.set_property(property, value),
            HostedObject::MultiStateInput(object) => object.set_property(property, value),
            HostedObject::MultiStateOutput(object) => object.set_property(property, value),
            HostedObject::MultiStateValue(object) => object.set_property(property, value),
            HostedObject::NotificationClass(object) => object.set_property(property, value),
            HostedObject::Calendar(object) => object.set_property(property, value),
            HostedObject::Schedule(object) => object.set_property(property, value),
        }
    }

    fn set_property_with_priority(
        &mut self,
        property: PropertyIdentifier,
        value: PropertyValue,
        priority: Option<u8>,
    ) -> (result: Result<(), ObjectError>) {
        match self {
            HostedObject::Device(object) => object.set_property_with_priority(
                property,
                value,
                priority,
            ),
            HostedObject::AnalogInput(object) => object.set_property_with_priority(
                property,
                value,
                priority,
            ),
            HostedObject::AnalogOutput(object) => object.set_property_with_priority(
                property,
                value,
                priority,
            ),
            HostedObject::AnalogValue(object) => object.set_property_with_priority(
                property,
                value,
                priority,
            ),
            HostedObject::BinaryInput(object) => object.set_property_with_priority(
                property,
                value,
                priority,
            ),
            HostedObject::BinaryOutput(object) => object.set_property_with_priority(
                property,
                value,
                priority,
            ),
            HostedObject::BinaryValue(object) => object.set_property_with_priority(
                property,
                value,
                priority,
            ),
            HostedObject::MultiStateInput(object) => object.set_property_with_priority(
                property,
                value,
                priority,
            ),
            HostedObject::MultiStateOutput(object) => object.set_property_with_priority(
                property,
                value,
                priority,
            ),
            HostedObject::MultiStateValue(object) => object.set_property_with_priority(
                property,
                value,
                priority,
            ),
            HostedObject::NotificationClass(object) => object.set_property_with_priority(
                property,
                value,
                priority,
            ),
            HostedObject::Calendar(object) => object.set_property_with_priority(
                property,
                value,
                priority,
            ),
            HostedObject::Schedule(object) => object.set_property_with_priority(
                property,
                value,
                priority,
            ),
        }
    }

    fn is_property_writable(&self, property: PropertyIdentifier) -> (writable: bool) {
        match self {
            HostedObject::Device(object) => object.is_property_writable(property),
            HostedObject::AnalogInput(object) => object.is_property_writable(property),
            HostedObject::AnalogOutput(object) => object.is_property_writable(property),
            HostedObject::AnalogValue(object) => object.is_property_writable(property),
            HostedObject::BinaryInput(object) => object.is_property_writable(property),
            HostedObject::BinaryOutput(object) => object.is_property_writable(property),
            HostedObject::BinaryValue(object) => object.is_property_writable(property),
            HostedObject::MultiStateInput(object) => object.is_property_writable(property),
            HostedObject::MultiStateOutput(object) => object.is_property_writable(property),
            HostedObject::MultiStateValue(object) => object.is_property_writable(property),
            HostedObject::NotificationClass(object) => object.is_property_writable(property),
            HostedObject::Calendar(object) => object.is_property_writable(property),
            HostedObject::Schedule(object) => object.is_property_writable(property),
        }
    }

    fn property_list(&self) -> (properties: Vec<PropertyIdentifier>) {
        match self {
            HostedObject::Device(object) => object.property_list(),
            HostedObject::AnalogInput(object) => object.property_list(),
            HostedObject::AnalogOutput(object) => object.property_list(),
            HostedObject::AnalogValue(object) => object.property_list(),
            HostedObject::BinaryInput(object) => object.property_list(),
            HostedObject::BinaryOutput(object) => object.property_list(),
            HostedObject::BinaryValue(object) => object.property_list(),
            HostedObject::MultiStateInput(object) => object.property_list(),
            HostedObject::MultiStateOutput(object) => object.property_list(),
            HostedObject::MultiStateValue(object) => object.property_list(),
            HostedObject::NotificationClass(object) => object.property_list(),
            HostedObject::Calendar(object) => object.property_list(),
            HostedObject::Schedule(object) => object.property_list(),
        }
    }

    fn set_sourced_value(&mut self, value: PropertyValue) -> (result: Result<(), ObjectError>) {
        match self {
            HostedObject::Device(object) => object.set_sourced_value(value),
            HostedObject::AnalogInput(object) => object.set_sourced_value(value),
            HostedObject::AnalogOutput(object) => object.set_sourced_value(value),
            HostedObject::AnalogValue(object) => object.set_sourced_value(value),
            HostedObject::BinaryInput(object) => object.set_sourced_value(value),
            HostedObject::BinaryOutput(object) => object.set_sourced_value(value),
            HostedObject::BinaryValue(object) => object.set_sourced_value(value),
            HostedObject::MultiStateInput(object) => object.set_sourced_value(value),
            HostedObject::MultiStateOutput(object) => object.set_sourced_value(value),
            HostedObject::MultiStateValue(object) => object.set_sourced_value(value),
            HostedObject::NotificationClass(object) => object.set_sourced_value(value),
            HostedObject::Calendar(object) => object.set_sourced_value(value),
            HostedObject::Schedule(object) => object.set_sourced_value(value),
        }
    }

    fn intrinsic(&self) -> (reporting: Option<IntrinsicReporting>) {
        match self {
            HostedObject::Device(object) => object.intrinsic(),
            HostedObject::AnalogInput(object) => object.intrinsic(),
            HostedObject::AnalogOutput(object) => object.intrinsic(),
            HostedObject::AnalogValue(object) => object.intrinsic(),
            HostedObject::BinaryInput(object) => object.intrinsic(),
            HostedObject::BinaryOutput(object) => object.intrinsic(),
            HostedObject::BinaryValue(object) => object.intrinsic(),
            HostedObject::MultiStateInput(object) => object.intrinsic(),
            HostedObject::MultiStateOutput(object) => object.intrinsic(),
            HostedObject::MultiStateValue(object) => object.intrinsic(),
            HostedObject::NotificationClass(object) => object.intrinsic(),
            HostedObject::Calendar(object) => object.intrinsic(),
            HostedObject::Schedule(object) => object.intrinsic(),
        }
    }

    fn store_intrinsic(&mut self, reporting: IntrinsicReporting) {
        match self {
            HostedObject::Device(object) => object.store_intrinsic(reporting),
            HostedObject::AnalogInput(object) => object.store_intrinsic(reporting),
            HostedObject::AnalogOutput(object) => object.store_intrinsic(reporting),
            HostedObject::AnalogValue(object) => object.store_intrinsic(reporting),
            HostedObject::BinaryInput(object) => object.store_intrinsic(reporting),
            HostedObject::BinaryOutput(object) => object.store_intrinsic(reporting),
            HostedObject::BinaryValue(object) => object.store_intrinsic(reporting),
            HostedObject::MultiStateInput(object) => object.store_intrinsic(reporting),
            HostedObject::MultiStateOutput(object) => object.store_intrinsic(reporting),
            HostedObject::MultiStateValue(object) => object.store_intrinsic(reporting),
            HostedObject::NotificationClass(object) => object.store_intrinsic(reporting),
            HostedObject::Calendar(object) => object.store_intrinsic(reporting),
            HostedObject::Schedule(object) => object.store_intrinsic(reporting),
        }
    }

    fn evaluate_alarm(&self) -> (evaluation: Option<AlarmEvaluation>) {
        match self {
            HostedObject::Device(object) => object.evaluate_alarm(),
            HostedObject::AnalogInput(object) => object.evaluate_alarm(),
            HostedObject::AnalogOutput(object) => object.evaluate_alarm(),
            HostedObject::AnalogValue(object) => object.evaluate_alarm(),
            HostedObject::BinaryInput(object) => object.evaluate_alarm(),
            HostedObject::BinaryOutput(object) => object.evaluate_alarm(),
            HostedObject::BinaryValue(object) => object.evaluate_alarm(),
            HostedObject::MultiStateInput(object) => object.evaluate_alarm(),
            HostedObject::MultiStateOutput(object) => object.evaluate_alarm(),
            HostedObject::MultiStateValue(object) => object.evaluate_alarm(),
            HostedObject::NotificationClass(object) => object.evaluate_alarm(),
            HostedObject::Calendar(object) => object.evaluate_alarm(),
            HostedObject::Schedule(object) => object.evaluate_alarm(),
        }
    }

    fn apply_event_state(&mut self, state: EventState) {
        match self {
            HostedObject::Device(object) => object.apply_event_state(state),
            HostedObject::AnalogInput(object) => object.apply_event_state(state),
            HostedObject::AnalogOutput(object) => object.apply_event_state(state),
            HostedObject::AnalogValue(object) => object.apply_event_state(state),
            HostedObject::BinaryInput(object) => object.apply_event_state(state),
            HostedObject::BinaryOutput(object) => object.apply_event_state(state),
            HostedObject::BinaryValue(object) => object.apply_event_state(state),
            HostedObject::MultiStateInput(object) => object.apply_event_state(state),
            HostedObject::MultiStateOutput(object) => object.apply_event_state(state),
            HostedObject::MultiStateValue(object) => object.apply_event_state(state),
            HostedObject::NotificationClass(object) => object.apply_event_state(state),
            HostedObject::Calendar(object) => object.apply_event_state(state),
            HostedObject::Schedule(object) => object.apply_event_state(state),
        }
    }

    fn is_out_of_service(&self) -> (decoupled: bool) {
        match self {
            HostedObject::Device(object) => object.is_out_of_service(),
            HostedObject::AnalogInput(object) => object.is_out_of_service(),
            HostedObject::AnalogOutput(object) => object.is_out_of_service(),
            HostedObject::AnalogValue(object) => object.is_out_of_service(),
            HostedObject::BinaryInput(object) => object.is_out_of_service(),
            HostedObject::BinaryOutput(object) => object.is_out_of_service(),
            HostedObject::BinaryValue(object) => object.is_out_of_service(),
            HostedObject::MultiStateInput(object) => object.is_out_of_service(),
            HostedObject::MultiStateOutput(object) => object.is_out_of_service(),
            HostedObject::MultiStateValue(object) => object.is_out_of_service(),
            HostedObject::NotificationClass(object) => object.is_out_of_service(),
            HostedObject::Calendar(object) => object.is_out_of_service(),
            HostedObject::Schedule(object) => object.is_out_of_service(),
        }
    }
}

} // verus!
