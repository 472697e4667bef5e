//! What a database asks of the objects it hosts.

use crate::object::base::BacnetObject;
use crate::object::calendar::Calendar;
use crate::object::device::Device;
use crate::object::error::ObjectErrorView;
use crate::object::identifier::PropertyIdentifier;
use crate::object::intrinsic::{AlarmEvaluation, IntrinsicReporting};
use crate::object::notification_class::NotificationClass;
use crate::object::schedule::Schedule;
use crate::object::state::EventState;
use crate::property::value::{PropertyValue, PropertyValueView};
use vstd::prelude::*;

verus! {

/// An object that a database can host.
///
/// It has a name, which it reads and which only a write to the name changes, and it
/// may be one of the objects that the engines work with: a schedule, a calendar or a
/// notification class. One type stands for everything that a database hosts, so a
/// database of further object types is one of
/// [`EitherObject`](crate::object::EitherObject).
pub trait Hostable: BacnetObject {
    /// The name of the object.
    spec fn name(&self) -> Seq<char>;

    /// The object that a device is hosted as.
    spec fn hosting(device: Device) -> Self;

    /// This object in another event state. An object that reports no events has
    /// none.
    spec fn entered(&self, state: EventState) -> Self;

    /// This object with other event reporting, where it has any.
    spec fn with_reporting(&self, reporting: IntrinsicReporting) -> Self;

    /// Whether the event algorithm goes on demanding a state once it is entered.
    spec fn settles(&self) -> bool;

    /// The schedule that the object is, where it is one.
    spec fn as_schedule(&self) -> Option<Schedule>;

    /// The object with another schedule in place of the one it is.
    spec fn with_schedule(&self, schedule: Schedule) -> Self;

    /// The calendar that the object is, where it is one.
    spec fn as_calendar(&self) -> Option<Calendar>;

    /// The object with another calendar in place of the one it is.
    spec fn with_calendar(&self, calendar: Calendar) -> Self;

    /// The notification class that the object is, where it is one.
    spec fn as_notification_class(&self) -> Option<NotificationClass>;

    /// A hosted device has the identity of the device.
    proof fn law_device_keeps_identity(device: Device)
        ensures
            Self::hosting(device).identity() == device.identifier,
    ;

    /// Entering a state and storing event reporting leave exactly that, and neither
    /// renames the object.
    proof fn law_events_keep_identity(&self, state: EventState, reporting: IntrinsicReporting)
        ensures
            forall|after: Self| #[trigger]
                self.enters(after, state) ==> after == self.entered(state),
            forall|after: Self| #[trigger]
                self.reports_as(after, reporting) ==> after == self.with_reporting(reporting),
            self.entered(state).identity() == self.identity(),
            self.entered(state).name() == self.name(),
            self.entered(state).reporting() == self.reporting(),
            self.with_reporting(reporting).identity() == self.identity(),
            self.with_reporting(reporting).name() == self.name(),
            self.reporting() is Some ==> self.with_reporting(reporting).reporting() == Some(
                reporting,
            ),
    ;

    /// An object that enters the state its algorithm demands reports that state, and
    /// its algorithm goes on demanding it while nothing else changes.
    proof fn law_entering_settles(
        &self,
        evaluation: AlarmEvaluation,
        reporting: IntrinsicReporting,
    )
        requires
            self.evaluation() == Some(evaluation),
            self.reporting() matches Some(before) && before.event_detection_enable
                == reporting.event_detection_enable,
            self.settles(),
        ensures
            ({
                let after = self.entered(evaluation.desired_state).with_reporting(reporting);
                &&& after.evaluation() matches Some(again) && again.desired_state
                    == evaluation.desired_state
                &&& after.reporting() == Some(reporting)
                &&& after.reading(PropertyIdentifier::EventState) == Ok::<
                    PropertyValueView,
                    ObjectErrorView,
                >(PropertyValueView::Enumerated(evaluation.desired_state.number() as u32))
                &&& evaluation.desired_state.is_canonical()
            }),
    ;

    /// Every object reads its name.
    proof fn law_name_is_readable(&self)
        ensures
            self.reading(PropertyIdentifier::ObjectName) == Ok::<
                PropertyValueView,
                ObjectErrorView,
            >(PropertyValueView::CharacterString(self.name())),
    ;

    /// A write changes the name if and only if it is a write to the name that was
    /// taken, and then to what was written.
    proof fn law_only_naming_renames(
        &self,
        after: Self,
        property: PropertyIdentifier,
        value: PropertyValue,
        priority: Option<u8>,
        outcome: Result<(), ObjectErrorView>,
    )
        requires
            self.writing(after, property, value, priority, outcome),
        ensures
            property != PropertyIdentifier::ObjectName ==> after.name() == self.name(),
            outcome is Err ==> after == *self,
            property == PropertyIdentifier::ObjectName && outcome is Ok ==> (
            value matches PropertyValue::CharacterString(text) && after.name() == text@),
            after.identity() == self.identity(),
    ;

    /// A schedule of the same identity and name can take the place of the one that
    /// the object is, and so can a calendar.
    proof fn law_parts_can_be_replaced(&self, schedule: Schedule, calendar: Calendar)
        ensures
            self.as_schedule() matches Some(before) && schedule.identifier == before.identifier
                && schedule.object_name == before.object_name ==> {
                let after = self.with_schedule(schedule);
                &&& after.identity() == self.identity()
                &&& after.name() == self.name()
                &&& after.as_schedule() == Some(schedule)
            },
            self.as_calendar() matches Some(before) && calendar.identifier == before.identifier
                && calendar.object_name == before.object_name ==> {
                let after = self.with_calendar(calendar);
                &&& after.identity() == self.identity()
                &&& after.name() == self.name()
                &&& after.as_calendar() == Some(calendar)
            },
    ;

    /// Host a device.
    fn host(device: Device) -> (object: Self)
        ensures
            object == Self::hosting(device),
    ;

    /// The name of the object.
    fn object_name(&self) -> (name: &String)
        ensures
            name@ == self.name(),
    ;

    /// The schedule that the object is, where it is one.
    fn schedule(&self) -> (schedule: Option<&Schedule>)
        ensures
            match schedule {
                Some(schedule) => self.as_schedule() == Some(*schedule),
                None => self.as_schedule() is None,
            },
    ;

    /// The schedule that the object is, to be changed in place.
    fn schedule_mut(&mut self) -> (schedule: Option<&mut Schedule>)
        ensures
            match schedule {
                Some(schedule) => {
                    &&& old(self).as_schedule() == Some(*schedule)
                    &&& *final(self) == old(self).with_schedule(*final(schedule))
                },
                None => old(self).as_schedule() is None && *final(self) == *old(self),
            },
    ;

    /// The calendar that the object is, to be changed in place.
    fn calendar_mut(&mut self) -> (calendar: Option<&mut Calendar>)
        ensures
            match calendar {
                Some(calendar) => {
                    &&& old(self).as_calendar() == Some(*calendar)
                    &&& *final(self) == old(self).with_calendar(*final(calendar))
                },
                None => old(self).as_calendar() is None && *final(self) == *old(self),
            },
    ;

    /// The notification class that the object is, where it is one.
    fn notification_class(&self) -> (class: Option<&NotificationClass>)
        ensures
            match class {
                Some(class) => self.as_notification_class() == Some(*class),
                None => self.as_notification_class() is None,
            },
    ;
}

} // verus!
