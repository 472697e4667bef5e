//! Objects of two types in one database.

use crate::object::base::BacnetObject;
use crate::object::calendar::Calendar;
use crate::object::device::Device;
use crate::object::error::{ObjectError, ObjectErrorView};
use crate::object::hostable::Hostable;
use crate::object::identifier::{ObjectIdentifier, PropertyIdentifier};
use crate::object::intrinsic::{AlarmEvaluation, IntrinsicReporting};
use crate::object::notification_class::NotificationClass;
use crate::object::schedule::Schedule;
use crate::object::state::EventState;
use crate::property::value::{PropertyValue, PropertyValueView};
use vstd::prelude::*;

verus! {

/// An object of one of two types, so that a database can host both. The device is of
/// the first.
#[derive(Debug, Clone)]
pub enum EitherObject<A, B> {
    First(A),
    Second(B),
}

impl<A: BacnetObject, B: BacnetObject> BacnetObject for EitherObject<A, B> {
    open spec fn identity(&self) -> ObjectIdentifier {
        match *self {
            EitherObject::First(object) => object.identity(),
            EitherObject::Second(object) => object.identity(),
        }
    }

    open spec fn reading(&self, property: PropertyIdentifier) -> Result<
        PropertyValueView,
        ObjectErrorView,
    > {
        match *self {
            EitherObject::First(object) => object.reading(property),
            EitherObject::Second(object) => object.reading(property),
        }
    }

    open spec fn writing(
        &self,
        after: EitherObject<A, B>,
        property: PropertyIdentifier,
        value: PropertyValue,
        priority: Option<u8>,
        outcome: Result<(), ObjectErrorView>,
    ) -> bool {
        match (*self, after) {
            (EitherObject::First(object), EitherObject::First(other)) => object.writing(
                other,
                property,
                value,
                priority,
                outcome,
            ),
            (EitherObject::Second(object), EitherObject::Second(other)) => object.writing(
                other,
                property,
                value,
                priority,
                outcome,
            ),
            _ => false,
        }
    }

    open spec fn accepts(&self, property: PropertyIdentifier) -> bool {
        match *self {
            EitherObject::First(object) => object.accepts(property),
            EitherObject::Second(object) => object.accepts(property),
        }
    }

    open spec fn listing(&self) -> Seq<PropertyIdentifier> {
        match *self {
            EitherObject::First(object) => object.listing(),
            EitherObject::Second(object) => object.listing(),
        }
    }

    open spec fn sourcing(
        &self,
        after: EitherObject<A, B>,
        value: PropertyValue,
        outcome: Result<(), ObjectErrorView>,
    ) -> bool {
        match (*self, after) {
            (EitherObject::First(object), EitherObject::First(other)) => object.sourcing(
                other,
                value,
                outcome,
            ),
            (EitherObject::Second(object), EitherObject::Second(other)) => object.sourcing(
                other,
                value,
                outcome,
            ),
            _ => false,
        }
    }

    open spec fn reporting(&self) -> Option<IntrinsicReporting> {
        match *self {
            EitherObject::First(object) => object.reporting(),
            EitherObject::Second(object) => object.reporting(),
        }
    }

    open spec fn reports_as(
        &self,
        after: EitherObject<A, B>,
        reporting: IntrinsicReporting,
    ) -> bool {
        match (*self, after) {
            (EitherObject::First(object), EitherObject::First(other)) => object.reports_as(
                other,
                reporting,
            ),
            (EitherObject::Second(object), EitherObject::Second(other)) => object.reports_as(
                other,
                reporting,
            ),
            _ => false,
        }
    }

    open spec fn evaluation(&self) -> Option<AlarmEvaluation> {
        match *self {
            EitherObject::First(object) => object.evaluation(),
            EitherObject::Second(object) => object.evaluation(),
        }
    }

    open spec fn enters(&self, after: EitherObject<A, B>, state: EventState) -> bool {
        match (*self, after) {
            (EitherObject::First(object), EitherObject::First(other)) => object.enters(other, state),
            (EitherObject::Second(object), EitherObject::Second(other)) => object.enters(other, state),
            _ => false,
        }
    }

    open spec fn decoupled(&self) -> bool {
        match *self {
            EitherObject::First(object) => object.decoupled(),
            EitherObject::Second(object) => object.decoupled(),
        }
    }

    fn identifier(&self) -> (identifier: ObjectIdentifier) {
        match self {
            EitherObject::First(object) => object.identifier(),
            EitherObject::Second(object) => object.identifier(),
        }
    }

    fn get_property(&self, property: PropertyIdentifier) -> (result: Result<
        PropertyValue,
        ObjectError,
    >) {
        match self {
            EitherObject::First(object) => object.get_property(property),
            EitherObject::Second(object) => object.get_property(property),
        }
    }

    fn set_property(&mut self, property: PropertyIdentifier, value: PropertyValue) -> (result:
        Result<(), ObjectError>) {
        match self {
            EitherObject::First(object) => object.set_property(property, value),
            EitherObject::Second(object) => object.set_property(property, value),
        }
    }

    fn set_property_with_priority(
        &mut self,
        property: PropertyIdentifier,
        value: PropertyValue,
        priority: Option<u8>,
    ) -> (result: Result<(), ObjectError>) {
        match self {
            EitherObject::First(object) => object.set_property_with_priority(
                property,
                value,
                priority,
            ),
            EitherObject::Second(object) => object.set_property_with_priority(
                property,
                value,
                priority,
            ),
        }
    }

    fn is_property_writable(&self, property: PropertyIdentifier) -> (writable: bool) {
        match self {
            EitherObject::First(object) => object.is_property_writable(property),
            EitherObject::Second(object) => object.is_property_writable(property),
        }
    }

    fn property_list(&self) -> (properties: Vec<PropertyIdentifier>) {
        match self {
            EitherObject::First(object) => object.property_list(),
            EitherObject::Second(object) => object.property_list(),
        }
    }

    fn set_sourced_value(&mut self, value: PropertyValue) -> (result: Result<(), ObjectError>) {
        match self {
            EitherObject::First(object) => object.set_sourced_value(value),
            EitherObject::Second(object) => object.set_sourced_value(value),
        }
    }

    fn intrinsic(&self) -> (reporting: Option<IntrinsicReporting>) {
        match self {
            EitherObject::First(object) => object.intrinsic(),
            EitherObject::Second(object) => object.intrinsic(),
        }
    }

    fn store_intrinsic(&mut self, reporting: IntrinsicReporting) {
        match self {
            EitherObject::First(object) => object.store_intrinsic(reporting),
            EitherObject::Second(object) => object.store_intrinsic(reporting),
        }
    }

    fn evaluate_alarm(&self) -> (evaluation: Option<AlarmEvaluation>) {
        match self {
            EitherObject::First(object) => object.evaluate_alarm(),
            EitherObject::Second(object) => object.evaluate_alarm(),
        }
    }

    fn apply_event_state(&mut self, state: EventState) {
        match self {
            EitherObject::First(object) => object.apply_event_state(state),
            EitherObject::Second(object) => object.apply_event_state(state),
        }
    }

    fn is_out_of_service(&self) -> (decoupled: bool) {
        match self {
            EitherObject::First(object) => object.is_out_of_service(),
            EitherObject::Second(object) => object.is_out_of_service(),
        }
    }
}

impl<A: Hostable, B: Hostable> Hostable for EitherObject<A, B> {
    open spec fn name(&self) -> Seq<char> {
        match *self {
            EitherObject::First(object) => object.name(),
            EitherObject::Second(object) => object.name(),
        }
    }

    open spec fn hosting(device: Device) -> EitherObject<A, B> {
        EitherObject::First(A::hosting(device))
    }

    open spec fn entered(&self, state: EventState) -> EitherObject<A, B> {
        match *self {
            EitherObject::First(object) => EitherObject::First(object.entered(state)),
            EitherObject::Second(object) => EitherObject::Second(object.entered(state)),
        }
    }

    open spec fn with_reporting(&self, reporting: IntrinsicReporting) -> EitherObject<A, B> {
        match *self {
            EitherObject::First(object) => EitherObject::First(object.with_reporting(reporting)),
            EitherObject::Second(object) => EitherObject::Second(object.with_reporting(reporting)),
        }
    }

    open spec fn settles(&self) -> bool {
        match *self {
            EitherObject::First(object) => object.settles(),
            EitherObject::Second(object) => object.settles(),
        }
    }

    open spec fn as_schedule(&self) -> Option<Schedule> {
        match *self {
            EitherObject::First(object) => object.as_schedule(),
            EitherObject::Second(object) => object.as_schedule(),
        }
    }

    open spec fn with_schedule(&self, schedule: Schedule) -> EitherObject<A, B> {
        match *self {
            EitherObject::First(object) => EitherObject::First(object.with_schedule(schedule)),
            EitherObject::Second(object) => EitherObject::Second(object.with_schedule(schedule)),
        }
    }

    open spec fn as_calendar(&self) -> Option<Calendar> {
        match *self {
            EitherObject::First(object) => object.as_calendar(),
            EitherObject::Second(object) => object.as_calendar(),
        }
    }

    open spec fn with_calendar(&self, calendar: Calendar) -> EitherObject<A, B> {
        match *self {
            EitherObject::First(object) => EitherObject::First(object.with_calendar(calendar)),
            EitherObject::Second(object) => EitherObject::Second(object.with_calendar(calendar)),
        }
    }

    open spec fn as_notification_class(&self) -> Option<NotificationClass> {
        match *self {
            EitherObject::First(object) => object.as_notification_class(),
            EitherObject::Second(object) => object.as_notification_class(),
        }
    }

    proof fn law_device_keeps_identity(device: Device) {
        A::law_device_keeps_identity(device);
    }

    proof fn law_events_keep_identity(&self, state: EventState, reporting: IntrinsicReporting) {
        match *self {
            EitherObject::First(object) => {
                object.law_events_keep_identity(state, reporting);
            },
            EitherObject::Second(object) => {
                object.law_events_keep_identity(state, reporting);
            },
        }
    }

    proof fn law_entering_settles(
        &self,
        evaluation: AlarmEvaluation,
        reporting: IntrinsicReporting,
    ) {
        match *self {
            EitherObject::First(object) => {
                object.law_entering_settles(evaluation, reporting);
            },
            EitherObject::Second(object) => {
                object.law_entering_settles(evaluation, reporting);
            },
        }
    }

    proof fn law_name_is_readable(&self) {
        match *self {
            EitherObject::First(object) => {
                object.law_name_is_readable();
            },
            EitherObject::Second(object) => {
                object.law_name_is_readable();
            },
        }
    }

    proof fn law_only_naming_renames(
        &self,
        after: EitherObject<A, B>,
        property: PropertyIdentifier,
        value: PropertyValue,
        priority: Option<u8>,
        outcome: Result<(), ObjectErrorView>,
    ) {
        match (*self, after) {
            (EitherObject::First(object), EitherObject::First(other)) => {
                object.law_only_naming_renames(other, property, value, priority, outcome);
            },
            (EitherObject::Second(object), EitherObject::Second(other)) => {
                object.law_only_naming_renames(other, property, value, priority, outcome);
            },
            _ => {},
        }
    }

    proof fn law_parts_can_be_replaced(&self, schedule: Schedule, calendar: Calendar) {
        match *self {
            EitherObject::First(object) => {
                object.law_parts_can_be_replaced(schedule, calendar);
            },
            EitherObject::Second(object) => {
                object.law_parts_can_be_replaced(schedule, calendar);
            },
        }
    }

    fn host(device: Device) -> (object: EitherObject<A, B>) {
        EitherObject::First(A::host(device))
    }

    fn object_name(&self) -> (name: &String) {
        match self {
            EitherObject::First(object) => object.object_name(),
            EitherObject::Second(object) => object.object_name(),
        }
    }

    fn schedule(&self) -> (schedule: Option<&Schedule>) {
        match self {
            EitherObject::First(object) => object.schedule(),
            EitherObject::Second(object) => object.schedule(),
        }
    }

    fn schedule_mut(&mut self) -> (schedule: Option<&mut Schedule>) {
        match self {
            EitherObject::First(object) => object.schedule_mut(),
            EitherObject::Second(object) => object.schedule_mut(),
        }
    }

    fn calendar_mut(&mut self) -> (calendar: Option<&mut Calendar>) {
        match self {
            EitherObject::First(object) => object.calendar_mut(),
            EitherObject::Second(object) => object.calendar_mut(),
        }
    }

    fn notification_class(&self) -> (class: Option<&NotificationClass>) {
        match self {
            EitherObject::First(object) => object.notification_class(),
            EitherObject::Second(object) => object.notification_class(),
        }
    }
}

} // verus!
