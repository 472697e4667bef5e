//! What the objects that manage a device can be relied on for: what calendars, notification
//! classes, schedules and the device itself read, and what writing them leaves.

use crate::object::base::BacnetObject;
use crate::object::calendar::Calendar;
use crate::object::device;
use crate::object::device::Device;
use crate::object::error::ObjectErrorView;
use crate::object::identifier::{ObjectIdentifier, ObjectType, PropertyIdentifier};
use crate::object::notification_class;
use crate::object::notification_class::NotificationClass;
use crate::object::schedule;
use crate::object::schedule::Schedule;
use crate::object::state::Reliability;
use crate::property::calendar::CalendarEntryValue;
use crate::property::value::{DestinationView, PropertyValue, PropertyValueView};
use vstd::prelude::*;

verus! {

// ---------------------------------------------------------------------------
// What all of them have in common
// ---------------------------------------------------------------------------

/// What reads as a value.
pub open spec fn reads<T: BacnetObject>(
    object: T,
    property: PropertyIdentifier,
    value: PropertyValueView,
) -> bool {
    object.reading(property) == Ok::<PropertyValueView, ObjectErrorView>(value)
}

/// What every managing object reads of itself.
pub open spec fn reads_itself<T: BacnetObject>(
    object: T,
    identifier: ObjectIdentifier,
    name: Seq<char>,
    description: Seq<char>,
    type_number: u32,
) -> bool {
    &&& object.identity() == identifier
    &&& reads(
        object,
        PropertyIdentifier::ObjectIdentifier,
        PropertyValueView::ObjectIdentifier(identifier),
    )
    &&& reads(object, PropertyIdentifier::ObjectName, PropertyValueView::CharacterString(name))
    &&& reads(
        object,
        PropertyIdentifier::Description,
        PropertyValueView::CharacterString(description),
    )
    &&& reads(object, PropertyIdentifier::ObjectType, PropertyValueView::Enumerated(type_number))
}

/// Whether a write did what was asked of it: the property reads what was written, and every
/// other one as before.
pub open spec fn is_written<T: BacnetObject>(
    before: T,
    after: T,
    property: PropertyIdentifier,
    value: PropertyValueView,
) -> bool {
    &&& reads(after, property, value)
    &&& forall|other: PropertyIdentifier|
        other != property ==> #[trigger] after.reading(other) == before.reading(other)
}

/// Whether a write was refused and left the object as it was.
pub open spec fn is_refused<T: BacnetObject>(
    before: T,
    after: T,
    outcome: Result<(), ObjectErrorView>,
    error: ObjectErrorView,
) -> bool {
    outcome == Err::<(), ObjectErrorView>(error) && after == before
}

/// Whether a write of a text did what was asked of it.
pub open spec fn takes_text<T: BacnetObject>(
    before: T,
    after: T,
    property: PropertyIdentifier,
    value: PropertyValue,
    outcome: Result<(), ObjectErrorView>,
) -> bool {
    &&& value is CharacterString ==> outcome is Ok && is_written(
        before,
        after,
        property,
        PropertyValueView::CharacterString(value->CharacterString_0@),
    )
    &&& !(value is CharacterString) ==> is_refused(
        before,
        after,
        outcome,
        ObjectErrorView::InvalidPropertyType,
    )
}

/// The elements of a list or an array that is written.
pub open spec fn elements(value: PropertyValue) -> Seq<PropertyValue> {
    match value {
        PropertyValue::List(values) => values@,
        PropertyValue::Array(values) => values@,
        _ => Seq::<PropertyValue>::empty(),
    }
}

/// The elements of a list or an array that is read.
pub open spec fn elements_read<T: BacnetObject>(
    object: T,
    property: PropertyIdentifier,
) -> Seq<PropertyValueView> {
    match object.reading(property) {
        Ok(PropertyValueView::List(values)) => values,
        Ok(PropertyValueView::Array(values)) => values,
        _ => Seq::<PropertyValueView>::empty(),
    }
}

// ---------------------------------------------------------------------------
// Devices
// ---------------------------------------------------------------------------

/// A device reads what it holds.
pub proof fn law_a_device_reads_what_it_holds(device: Device, other: PropertyIdentifier)
    ensures
        reads_itself(
            device,
            device.identifier,
            device.object_name@,
            device.description@,
            8,
        ),
        reads(
            device,
            PropertyIdentifier::ProtocolRevision,
            PropertyValueView::Unsigned(device.protocol_revision as u64),
        ),
        other.number() != 28 && other.number() != 75 && other.number() != 77 && other.number() != 79
            && other.number() != 139 ==> device.reading(other) == Err::<
            PropertyValueView,
            ObjectErrorView,
        >(ObjectErrorView::UnknownProperty),
{
}

/// The name and the description of a device can be written, as texts, and nothing else.
pub proof fn law_a_device_takes_what_is_written(
    device: Device,
    after: Device,
    property: PropertyIdentifier,
    value: PropertyValue,
    priority: Option<u8>,
    outcome: Result<(), ObjectErrorView>,
)
    requires
        device.writing(after, property, value, priority, outcome),
    ensures
        property is ObjectName || property is Description ==> takes_text(
            device,
            after,
            property,
            value,
            outcome,
        ),
        !(property is ObjectName) && !(property is Description) ==> is_refused(
            device,
            after,
            outcome,
            ObjectErrorView::PropertyNotWritable,
        ),
{
}

/// The supported types have a bit for every type that the revision of the protocol knows,
/// and the bit of a type is set exactly where an object of it is there.
pub proof fn law_supported_types_are_marked(types: Seq<ObjectType>, revision: u32, number: int)
    ensures
        ({
            let bits = device::types_supported(types, revision);
            &&& revision < 17 ==> bits.len() == 56
            &&& revision == 17 ==> bits.len() == 57
            &&& 18 <= revision < 20 ==> bits.len() == 60
            &&& 20 <= revision < 22 ==> bits.len() == 61
            &&& 22 <= revision < 24 ==> bits.len() == 63
            &&& 24 <= revision ==> bits.len() == 65
            &&& 0 <= number < bits.len() ==> (bits[number] <==> exists|i: int|
                0 <= i < types.len() && (#[trigger] types[i]).number() == number)
        }),
{
}

// ---------------------------------------------------------------------------
// Calendars
// ---------------------------------------------------------------------------

/// A calendar reads what it holds: whether today is covered, and its entries in order.
pub proof fn law_a_calendar_reads_what_it_holds(calendar: Calendar, i: int)
    ensures
        reads_itself(
            calendar,
            calendar.identifier,
            calendar.object_name@,
            calendar.description@,
            6,
        ),
        reads(
            calendar,
            PropertyIdentifier::PresentValue,
            PropertyValueView::Boolean(calendar.present_value),
        ),
        calendar.reading(PropertyIdentifier::DateList) matches Ok(PropertyValueView::List(list))
            && list.len() == calendar.date_list@.len() && (0 <= i < list.len() ==> list[i]
            == PropertyValueView::CalendarEntry(calendar.date_list@[i])),
{
}

/// Whether a value can stand in a calendar's list, and what it reads there: a calendar
/// entry as itself, and a bare date as an entry of that date.
pub open spec fn reads_as_entry(value: PropertyValue, read: PropertyValueView) -> bool {
    match value {
        PropertyValue::CalendarEntry(entry) => read == PropertyValueView::CalendarEntry(entry),
        PropertyValue::Date(year, month, day, weekday) => read == PropertyValueView::CalendarEntry(
            CalendarEntryValue::Date(year, month, day, weekday),
        ),
        _ => false,
    }
}

/// The name, the description and the dates of a calendar can be written, and nothing else:
/// whether today is covered follows from the dates. The dates are a list of entries or of
/// bare dates; a list that holds anything else is refused as a whole.
pub proof fn law_a_calendar_takes_what_is_written(
    calendar: Calendar,
    after: Calendar,
    property: PropertyIdentifier,
    value: PropertyValue,
    priority: Option<u8>,
    outcome: Result<(), ObjectErrorView>,
    i: int,
)
    requires
        calendar.writing(after, property, value, priority, outcome),
    ensures
        property is ObjectName || property is Description ==> takes_text(
            calendar,
            after,
            property,
            value,
            outcome,
        ),
        property is DateList && (value is List || value is Array) && (forall|k: int|
            0 <= k < elements(value).len() ==> (#[trigger] elements(value)[k]) is CalendarEntry
                || elements(value)[k] is Date) ==> {
            let list = elements_read(after, property);
            &&& outcome is Ok
            &&& list.len() == elements(value).len()
            &&& 0 <= i < list.len() ==> reads_as_entry(elements(value)[i], list[i])
            &&& forall|other: PropertyIdentifier|
                other != property ==> #[trigger] after.reading(other) == calendar.reading(other)
        },
        property is DateList && !(value is List || value is Array) ==> is_refused(
            calendar,
            after,
            outcome,
            ObjectErrorView::InvalidPropertyType,
        ),
        property is DateList && 0 <= i < elements(value).len() && !(
        elements(value)[i] is CalendarEntry || elements(value)[i] is Date) ==> is_refused(
            calendar,
            after,
            outcome,
            ObjectErrorView::InvalidPropertyType,
        ),
        !(property is ObjectName || property is Description || property is DateList) ==> is_refused(
            calendar,
            after,
            outcome,
            ObjectErrorView::PropertyNotWritable,
        ),
{
    if property is DateList {
        if value is List || value is Array {
            assert(forall|k: int| 0 <= k < elements(value).len() ==>
                crate::object::calendar::is_entry(#[trigger] elements(value)[k])
                    == (elements(value)[k] is CalendarEntry || elements(value)[k] is Date));
        }
    }
}

// ---------------------------------------------------------------------------
// Notification classes
// ---------------------------------------------------------------------------

/// A notification class reads what it holds: its own instance as its class, the priorities
/// and acknowledgements of the transitions to off-normal, to fault and to normal, and its
/// recipients in order.
pub proof fn law_a_notification_class_reads_what_it_holds(class: NotificationClass, i: int)
    ensures
        reads_itself(class, class.identifier, class.object_name@, class.description@, 15),
        reads(
            class,
            PropertyIdentifier::NotificationClass,
            PropertyValueView::Unsigned(class.identifier.instance as u64),
        ),
        class.reading(PropertyIdentifier::Priority) matches Ok(PropertyValueView::Array(levels))
            && levels.len() == 3 && (0 <= i < 3 ==> levels[i] == PropertyValueView::Unsigned(
            class.priority@[i] as u64,
        )),
        class.reading(PropertyIdentifier::AckRequired) matches Ok(
            PropertyValueView::BitString(bits),
        )
            && bits.len() == 3 && bits[0] == class.ack_required.to_offnormal && bits[1]
            == class.ack_required.to_fault && bits[2] == class.ack_required.to_normal,
        class.reading(PropertyIdentifier::RecipientList) matches Ok(PropertyValueView::List(list))
            && list.len() == class.recipient_list@.len() && (0 <= i < list.len() ==> list[i]
            == PropertyValueView::Destination(class.recipient_list@[i]@)),
{
}

/// Whether a value can be a notification priority.
pub open spec fn can_be_a_level(value: PropertyValue) -> bool {
    value is Unsigned && value->Unsigned_0 <= 0xFFFF_FFFF
}

/// The name and the description, three priorities, the acknowledgements and the recipients
/// of a notification class can be written, and nothing else.
pub proof fn law_a_notification_class_takes_what_is_written(
    class: NotificationClass,
    after: NotificationClass,
    property: PropertyIdentifier,
    value: PropertyValue,
    priority: Option<u8>,
    outcome: Result<(), ObjectErrorView>,
    i: int,
)
    requires
        class.writing(after, property, value, priority, outcome),
    ensures
        property is ObjectName || property is Description ==> takes_text(
            class,
            after,
            property,
            value,
            outcome,
        ),
        property is AckRequired && value is BitString ==> {
            let bits = value->BitString_0@;
            &&& outcome is Ok
            &&& is_written(
                class,
                after,
                property,
                PropertyValueView::BitString(
                    seq![
                        bits.len() > 0 && bits[0],
                        bits.len() > 1 && bits[1],
                        bits.len() > 2 && bits[2],
                    ],
                ),
            )
        },
        property is Priority && (value is List || value is Array) && elements(value).len() == 3
            && can_be_a_level(elements(value)[0]) && can_be_a_level(elements(value)[1])
            && can_be_a_level(elements(value)[2]) ==> {
            let levels = elements_read(after, property);
            &&& outcome is Ok
            &&& levels.len() == 3
            &&& 0 <= i < 3 ==> levels[i] == PropertyValueView::Unsigned(
                elements(value)[i]->Unsigned_0,
            )
            &&& forall|other: PropertyIdentifier|
                other != property ==> #[trigger] after.reading(other) == class.reading(other)
        },
        property is Priority && elements(value).len() != 3 ==> outcome is Err && after == class,
        property is Priority && 0 <= i < elements(value).len() && !can_be_a_level(
            elements(value)[i],
        ) ==> outcome is Err && after == class,
        property is RecipientList && (value is List || value is Array) && (forall|k: int|
            0 <= k < elements(value).len() ==> (#[trigger] elements(value)[k]) is Destination)
            ==> {
            let list = elements_read(after, property);
            &&& outcome is Ok
            &&& list.len() == elements(value).len()
            &&& 0 <= i < list.len() ==> list[i] == PropertyValueView::Destination(
                elements(value)[i]->Destination_0@,
            )
            &&& forall|other: PropertyIdentifier|
                other != property ==> #[trigger] after.reading(other) == class.reading(other)
        },
        property is RecipientList && 0 <= i < elements(value).len() && !(
        elements(value)[i] is Destination) ==> is_refused(
            class,
            after,
            outcome,
            ObjectErrorView::InvalidPropertyType,
        ),
        property is AckRequired && !(value is BitString) || (property is RecipientList
            || property is Priority) && !(value is List || value is Array) ==> is_refused(
            class,
            after,
            outcome,
            ObjectErrorView::InvalidPropertyType,
        ),
        !(property is ObjectName || property is Description || property is Priority
            || property is AckRequired || property is RecipientList) ==> is_refused(
            class,
            after,
            outcome,
            ObjectErrorView::PropertyNotWritable,
        ),
{
    if property is Priority && elements(value).len() == 3 {
        let values = elements(value);
        assert(forall|k: int| 0 <= k < 3 ==> notification_class::is_priority(
            #[trigger] values[k],
        ) == can_be_a_level(values[k]));
    }
}

/// The recipients that a transition is told to are those that asked for it, in the order
/// in which they are listed.
pub proof fn law_recipients_are_those_who_asked(list: Seq<DestinationView>, place: int, k: int)
    requires
        0 <= k < list.len(),
        0 <= place,
    ensures
        place < list[k].transitions.len() && list[k].transitions[place]
            ==> notification_class::subscribed(list, place).contains(list[k]),
        !(place < list[k].transitions.len() && list[k].transitions[place])
            ==> !notification_class::subscribed(list, place).contains(list[k]),
{
    let asked = |destination: DestinationView|
        notification_class::is_subscribed(destination, place);
    lemma_filtered(list, asked, list[k]);
    assert(list.contains(list[k]));
}

/// What a filter keeps is what was there and passes it.
proof fn lemma_filtered<A>(list: Seq<A>, passes: spec_fn(A) -> bool, item: A)
    ensures
        list.filter(passes).contains(item) <==> list.contains(item) && passes(item),
    decreases list.len(),
{
    reveal(Seq::filter);
    if list.len() > 0 {
        let shorter = list.drop_last();
        lemma_filtered(shorter, passes, item);
        let kept = shorter.filter(passes);
        if list.contains(item) {
            let at = list.index_of(item);
            if at < shorter.len() {
                assert(shorter[at] == item);
            }
        }
        if shorter.contains(item) {
            assert(list[shorter.index_of(item)] == item);
        }
        if passes(list.last()) {
            let whole = kept.push(list.last());
            assert(list.filter(passes) == whole);
            if kept.contains(item) {
                assert(whole[kept.index_of(item)] == item);
            }
            if item == list.last() {
                assert(whole[kept.len() as int] == item);
            }
            if whole.contains(item) {
                let at = whole.index_of(item);
                if at < kept.len() {
                    assert(kept[at] == item);
                }
            }
        }
    }
}

// ---------------------------------------------------------------------------
// Schedules
// ---------------------------------------------------------------------------

/// A schedule reads what it holds.
pub proof fn law_a_schedule_reads_what_it_holds(schedule: Schedule, i: int)
    ensures
        reads_itself(
            schedule,
            schedule.identifier,
            schedule.object_name@,
            schedule.description@,
            17,
        ),
        schedule.decoupled() == schedule.out_of_service,
        reads(schedule, PropertyIdentifier::PresentValue, schedule.present_value.model()),
        reads(schedule, PropertyIdentifier::ScheduleDefault, schedule.schedule_default.model()),
        reads(
            schedule,
            PropertyIdentifier::EffectivePeriod,
            PropertyValueView::DateRange(schedule.effective_period),
        ),
        reads(
            schedule,
            PropertyIdentifier::PriorityForWriting,
            PropertyValueView::Unsigned(schedule.priority_for_writing as u64),
        ),
        reads(
            schedule,
            PropertyIdentifier::OutOfService,
            PropertyValueView::Boolean(schedule.out_of_service),
        ),
        reads(
            schedule,
            PropertyIdentifier::Reliability,
            PropertyValueView::Enumerated(schedule.reliability.number()),
        ),
        reads(
            schedule,
            PropertyIdentifier::StatusFlags,
            PropertyValueView::BitString(
                seq![
                    false,
                    !(schedule.reliability is NoFaultDetected),
                    false,
                    schedule.out_of_service,
                ],
            ),
        ),
        schedule.reading(PropertyIdentifier::WeeklySchedule) matches Ok(
            PropertyValueView::Array(days),
        ) && days.len() == 7 && (0 <= i < 7 ==> days[i] == PropertyValueView::DailySchedule(
            schedule::day_model(schedule.weekly_schedule@[i]),
        )),
        schedule.reading(PropertyIdentifier::ExceptionSchedule) matches Ok(
            PropertyValueView::Array(events),
        ) && events.len() == schedule.exception_schedule@.len() && (0 <= i < events.len() ==> {
            let event = schedule.exception_schedule@[i];
            events[i] == PropertyValueView::SpecialEvent(
                event.period,
                crate::property::value::time_values_model(event.time_values),
                event.priority,
            )
        }),
        schedule.reading(PropertyIdentifier::ListOfObjectPropertyReferences) matches Ok(
            PropertyValueView::List(targets),
        ) && targets.len() == schedule.list_of_object_property_references@.len() && (0 <= i
            < targets.len() ==> targets[i] == PropertyValueView::ObjectPropertyReference(
            schedule.list_of_object_property_references@[i],
        )),
{
}

/// Whether a list or an array that is written can be what a list property of a schedule
/// holds: seven days, dated overrides or references.
pub open spec fn can_be_listed(property: PropertyIdentifier, value: PropertyValue) -> bool {
    let values = elements(value);
    &&& value is List || value is Array
    &&& property is WeeklySchedule ==> values.len() == 7 && forall|k: int|
        0 <= k < values.len() ==> (#[trigger] values[k]) is DailySchedule
    &&& property is ExceptionSchedule ==> forall|k: int|
        0 <= k < values.len() ==> (#[trigger] values[k]) is SpecialEvent
    &&& property is ListOfObjectPropertyReferences ==> forall|k: int|
        0 <= k < values.len() ==> (#[trigger] values[k]) is ObjectPropertyReference
}

/// The week, the dated overrides and the references of a schedule can be written as lists
/// of what they hold, and anything else is refused as a whole.
pub proof fn law_a_schedule_takes_its_lists(
    schedule: Schedule,
    after: Schedule,
    property: PropertyIdentifier,
    value: PropertyValue,
    priority: Option<u8>,
    outcome: Result<(), ObjectErrorView>,
    i: int,
)
    requires
        schedule.writing(after, property, value, priority, outcome),
        property is WeeklySchedule || property is ExceptionSchedule
            || property is ListOfObjectPropertyReferences,
    ensures
        can_be_listed(property, value) ==> {
            let list = elements_read(after, property);
            &&& outcome is Ok
            &&& list.len() == elements(value).len()
            &&& 0 <= i < list.len() ==> list[i] == elements(value)[i].model()
            &&& forall|other: PropertyIdentifier|
                other != property ==> #[trigger] after.reading(other) == schedule.reading(other)
        },
        !can_be_listed(property, value) ==> outcome is Err && after == schedule,
{
}

/// The single properties of a schedule can be written with values of their type; the value
/// that it commands only while it is out of service. What it reads of its identity and of
/// its status cannot be written.
pub proof fn law_a_schedule_takes_what_is_written(
    schedule: Schedule,
    after: Schedule,
    property: PropertyIdentifier,
    value: PropertyValue,
    priority: Option<u8>,
    outcome: Result<(), ObjectErrorView>,
)
    requires
        schedule.writing(after, property, value, priority, outcome),
    ensures
        property is ObjectName || property is Description ==> takes_text(
            schedule,
            after,
            property,
            value,
            outcome,
        ),
        property is PresentValue && schedule.out_of_service || property is ScheduleDefault
            ==> outcome is Ok && is_written(schedule, after, property, value.model()),
        property is PresentValue && !schedule.out_of_service ==> is_refused(
            schedule,
            after,
            outcome,
            ObjectErrorView::WriteAccessDenied,
        ),
        property is PriorityForWriting && value is Unsigned && 1 <= value->Unsigned_0 <= 16
            ==> outcome is Ok && is_written(
            schedule,
            after,
            property,
            PropertyValueView::Unsigned(value->Unsigned_0),
        ),
        property is PriorityForWriting && !(value is Unsigned && 1 <= value->Unsigned_0 <= 16)
            ==> outcome is Err && after == schedule,
        property is EffectivePeriod && value is DateRange ==> outcome is Ok && is_written(
            schedule,
            after,
            property,
            PropertyValueView::DateRange(value->DateRange_0),
        ),
        property is EffectivePeriod && elements(value).len() == 2 && elements(value)[0] is Date
            && elements(value)[1] is Date ==> {
            let start = elements(value)[0];
            let end = elements(value)[1];
            let period = after.effective_period;
            &&& outcome is Ok
            &&& period.start == (start->Date_0, start->Date_1, start->Date_2, start->Date_3)
            &&& period.end == (end->Date_0, end->Date_1, end->Date_2, end->Date_3)
            &&& is_written(schedule, after, property, PropertyValueView::DateRange(period))
        },
        property is EffectivePeriod && !(value is DateRange) && !(elements(value).len() == 2
            && elements(value)[0] is Date && elements(value)[1] is Date) ==> outcome is Err && after
            == schedule,
        property is OutOfService && value is Boolean ==> {
            &&& outcome is Ok
            &&& after.out_of_service == value->Boolean_0
            &&& after@ == (schedule::ScheduleView {
                out_of_service: value->Boolean_0,
                ..schedule@
            })
        },
        property is Reliability && value is Enumerated ==> {
            &&& outcome is Ok
            &&& after.reliability.number() == value->Enumerated_0
            &&& after@ == (schedule::ScheduleView { reliability: after.reliability, ..schedule@ })
        },
        property is OutOfService && !(value is Boolean) || property is Reliability && !(
        value is Enumerated) ==> is_refused(
            schedule,
            after,
            outcome,
            ObjectErrorView::InvalidPropertyType,
        ),
        property is ObjectIdentifier || property is ObjectType || property is StatusFlags
            || property is Other ==> is_refused(
            schedule,
            after,
            outcome,
            ObjectErrorView::PropertyNotWritable,
        ),
{
    if property is Reliability && value is Enumerated {
        crate::object::state::law_reliability_numbers(
            value->Enumerated_0,
            Reliability::NoFaultDetected,
        );
    }
    assert(outcome is Ok ==> after@.effective_period == after.effective_period);
    assert(after@.out_of_service == after.out_of_service);
    assert(after@.reliability == after.reliability);
}

} // verus!
