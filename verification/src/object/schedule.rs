//! Schedule object.
//!
//! A schedule commands a value that changes with the time of day and the day of the
//! week. Its `Present_Value` is whatever the schedule says right now, and it writes
//! that value to the objects listed in `List_Of_Object_Property_References` at
//! `Priority_For_Writing`.
//!
//! Three sources are consulted in order: an `Exception_Schedule` entry covering
//! today, then today's `Weekly_Schedule` day, then `Schedule_Default`. Outside
//! `Effective_Period` the schedule does nothing but report its default.
//!
//! The object does not read a clock or reach other objects; see
//! [`value_at`](Schedule::value_at) and the `schedule` module for that.

use crate::object::base::BacnetObject;
use crate::object::error;
use crate::object::error::{ObjectError, ObjectErrorView};
use crate::object::identifier::{ObjectIdentifier, ObjectType, PropertyIdentifier};
use crate::object::intrinsic::{AlarmEvaluation, IntrinsicReporting};
use crate::object::state::{EventState, Reliability};
use crate::property::calendar::{DateRangeValue, ANY, UNSPECIFIED_YEAR};
use crate::property::value;
use crate::property::value::{
    DailyScheduleValue, ObjectPropertyReference, PropertyValue, PropertyValueView,
    SpecialEventPeriod, SpecialEventValue, TimeValueValue, TimeValueView,
};
use vstd::prelude::*;

verus! {

/// Days in a Weekly_Schedule, Monday first.
pub const DAYS_PER_WEEK: usize = 7;

/// The lowest BACnet command priority, used unless configured otherwise.
pub const DEFAULT_PRIORITY_FOR_WRITING: u8 = 16;

/// Schedule object.
#[derive(Debug, Clone, PartialEq)]
pub struct Schedule {
    /// Object identifier.
    pub identifier: ObjectIdentifier,
    /// Object name.
    pub object_name: String,
    /// Description.
    pub description: String,
    /// The value the schedule currently commands.
    pub present_value: PropertyValue,
    /// The value used when nothing else applies.
    pub schedule_default: PropertyValue,
    /// The span the schedule is active over.
    pub effective_period: DateRangeValue,
    /// One day of time/value pairs per weekday, Monday first.
    pub weekly_schedule: [DailyScheduleValue; DAYS_PER_WEEK],
    /// Dated overrides, highest priority (lowest number) first at evaluation.
    pub exception_schedule: Vec<SpecialEventValue>,
    /// Where `Present_Value` is written when it changes.
    pub list_of_object_property_references: Vec<ObjectPropertyReference>,
    /// The command priority used for those writes, 1-16.
    pub priority_for_writing: u8,
    /// Reliability of the schedule itself.
    pub reliability: Reliability,
    /// Whether the schedule is decoupled from its targets.
    pub out_of_service: bool,
}

// ---------------------------------------------------------------------------
// What a schedule holds
// ---------------------------------------------------------------------------

/// What a dated override holds.
pub struct ExceptionView {
    pub period: SpecialEventPeriod,
    pub entries: Seq<TimeValueView>,
    pub priority: u8,
}

/// What a schedule holds.
pub struct ScheduleView {
    pub identifier: ObjectIdentifier,
    pub object_name: Seq<char>,
    pub description: Seq<char>,
    pub present_value: PropertyValueView,
    pub schedule_default: PropertyValueView,
    pub effective_period: DateRangeValue,
    pub week: Seq<Seq<TimeValueView>>,
    pub exceptions: Seq<ExceptionView>,
    pub targets: Seq<ObjectPropertyReference>,
    pub priority_for_writing: u8,
    pub reliability: Reliability,
    pub out_of_service: bool,
}

/// What a day holds.
pub open spec fn day_model(day: DailyScheduleValue) -> Seq<TimeValueView> {
    value::time_values_model(day.time_values)
}

/// What the days of a week hold.
pub open spec fn week_model(days: Seq<DailyScheduleValue>) -> Seq<Seq<TimeValueView>> {
    days.map_values(|day: DailyScheduleValue| day_model(day))
}

/// What a dated override holds.
pub open spec fn exception_model(event: SpecialEventValue) -> ExceptionView {
    ExceptionView {
        period: event.period,
        entries: value::time_values_model(event.time_values),
        priority: event.priority,
    }
}

/// What dated overrides hold.
pub open spec fn exceptions_model(events: Seq<SpecialEventValue>) -> Seq<ExceptionView> {
    events.map_values(|event: SpecialEventValue| exception_model(event))
}

impl View for Schedule {
    type V = ScheduleView;

    open spec fn view(&self) -> ScheduleView {
        ScheduleView {
            identifier: self.identifier,
            object_name: self.object_name@,
            description: self.description@,
            present_value: self.present_value.model(),
            schedule_default: self.schedule_default.model(),
            effective_period: self.effective_period,
            week: week_model(self.weekly_schedule@),
            exceptions: exceptions_model(self.exception_schedule@),
            targets: self.list_of_object_property_references@,
            priority_for_writing: self.priority_for_writing,
            reliability: self.reliability,
            out_of_service: self.out_of_service,
        }
    }
}

// ---------------------------------------------------------------------------
// Which value is commanded
// ---------------------------------------------------------------------------

/// Times of day in order.
pub open spec fn time_key(time: (u8, u8, u8, u8)) -> int {
    ((time.0 * 256 + time.1) * 256 + time.2) * 256 + time.3
}

/// Whether a time of day is at or before another.
fn not_after(a: (u8, u8, u8, u8), b: (u8, u8, u8, u8)) -> (result: bool)
    ensures
        result == (time_key(a) <= time_key(b)),
{
    a.0 < b.0 || (a.0 == b.0 && (a.1 < b.1 || (a.1 == b.1 && (a.2 < b.2 || (a.2 == b.2 && a.3
        <= b.3)))))
}

/// The place of the latest entry at or before `time`; of entries for one time the
/// last. The entries need not be in order.
pub open spec fn latest_entry(entries: Seq<TimeValueView>, time: (u8, u8, u8, u8)) -> Option<int>
    decreases entries.len(),
{
    if entries.len() == 0 {
        None
    } else {
        let place = entries.len() - 1;
        let before = latest_entry(entries.drop_last(), time);
        if time_key(entries[place].time) <= time_key(time) && (before is None || time_key(
            entries[before->Some_0].time,
        ) <= time_key(entries[place].time)) {
            Some(place)
        } else {
            before
        }
    }
}

/// Whether a period applies to a date, given which calendars cover it.
pub open spec fn period_applies(
    period: SpecialEventPeriod,
    date: (u16, u8, u8, u8),
    covered: spec_fn(ObjectIdentifier) -> bool,
) -> bool {
    match period {
        SpecialEventPeriod::CalendarEntry(entry) => entry.covers(date),
        SpecialEventPeriod::CalendarReference(calendar) => covered(calendar),
    }
}

/// The place of the exception in force: of those that apply the one with the lowest
/// priority number, and the first of several with that number.
pub open spec fn exception_in_force(
    exceptions: Seq<ExceptionView>,
    date: (u16, u8, u8, u8),
    covered: spec_fn(ObjectIdentifier) -> bool,
) -> Option<int>
    decreases exceptions.len(),
{
    if exceptions.len() == 0 {
        None
    } else {
        let place = exceptions.len() - 1;
        let before = exception_in_force(exceptions.drop_last(), date, covered);
        if period_applies(exceptions[place].period, date, covered) && (before is None
            || exceptions[place].priority < exceptions[before->Some_0].priority) {
            Some(place)
        } else {
            before
        }
    }
}

impl ScheduleView {
    /// The entries that today is commanded from, where there are any.
    pub open spec fn today(
        self,
        date: (u16, u8, u8, u8),
        covered: spec_fn(ObjectIdentifier) -> bool,
    ) -> Option<Seq<TimeValueView>> {
        match exception_in_force(self.exceptions, date, covered) {
            Some(place) => Some(self.exceptions[place].entries),
            None => if 1 <= date.3 <= self.week.len() {
                Some(self.week[date.3 - 1])
            } else {
                None
            },
        }
    }

    /// The value commanded at a date and time, given which calendars cover the
    /// date.
    pub open spec fn commanded(
        self,
        date: (u16, u8, u8, u8),
        time: (u8, u8, u8, u8),
        covered: spec_fn(ObjectIdentifier) -> bool,
    ) -> PropertyValueView {
        if !self.effective_period.spans(date) {
            self.schedule_default
        } else {
            match self.today(date, covered) {
                None => self.schedule_default,
                Some(entries) => match latest_entry(entries, time) {
                    None => self.schedule_default,
                    Some(place) => entries[place].value,
                },
            }
        }
    }
}

/// The entry found is the latest one that is not after `time`, wherever it stands.
pub proof fn law_latest_entry(entries: Seq<TimeValueView>, time: (u8, u8, u8, u8))
    ensures
        match latest_entry(entries, time) {
            Some(place) => {
                &&& 0 <= place < entries.len()
                &&& time_key(entries[place].time) <= time_key(time)
                &&& forall|i: int|
                    0 <= i < entries.len() && time_key((#[trigger] entries[i]).time) <= time_key(
                        time,
                    ) ==> time_key(entries[i].time) <= time_key(entries[place].time)
                &&& forall|i: int|
                    place < i < entries.len() && time_key((#[trigger] entries[i]).time) <= time_key(
                        time,
                    ) ==> time_key(entries[i].time) < time_key(entries[place].time)
            },
            None => forall|i: int|
                0 <= i < entries.len() ==> time_key(time) < time_key((#[trigger] entries[i]).time),
        },
    decreases entries.len(),
{
    if entries.len() > 0 {
        let front = entries.drop_last();
        law_latest_entry(front, time);
        assert forall|i: int| 0 <= i < front.len() implies (#[trigger] entries[i]) == front[i] by {}
    }
}

/// The exception in force applies, none that applies has a lower number, and none
/// before it has the same.
pub proof fn law_exception_in_force(
    exceptions: Seq<ExceptionView>,
    date: (u16, u8, u8, u8),
    covered: spec_fn(ObjectIdentifier) -> bool,
)
    ensures
        match exception_in_force(exceptions, date, covered) {
            Some(place) => {
                &&& 0 <= place < exceptions.len()
                &&& period_applies(exceptions[place].period, date, covered)
                &&& forall|i: int|
                    0 <= i < exceptions.len() && period_applies(
                        (#[trigger] exceptions[i]).period,
                        date,
                        covered,
                    ) ==> exceptions[place].priority <= exceptions[i].priority
                &&& forall|i: int|
                    0 <= i < place && period_applies(
                        (#[trigger] exceptions[i]).period,
                        date,
                        covered,
                    ) ==> exceptions[place].priority < exceptions[i].priority
            },
            None => forall|i: int|
                0 <= i < exceptions.len() ==> !period_applies(
                    (#[trigger] exceptions[i]).period,
                    date,
                    covered,
                ),
        },
    decreases exceptions.len(),
{
    if exceptions.len() > 0 {
        let front = exceptions.drop_last();
        law_exception_in_force(front, date, covered);
        assert forall|i: int| 0 <= i < front.len() implies (#[trigger] exceptions[i])
            == front[i] by {}
    }
}

/// Outside of its effective period a schedule commands its default.
pub proof fn law_default_outside_period(
    schedule: ScheduleView,
    date: (u16, u8, u8, u8),
    time: (u8, u8, u8, u8),
    covered: spec_fn(ObjectIdentifier) -> bool,
)
    requires
        !schedule.effective_period.spans(date),
    ensures
        schedule.commanded(date, time, covered) == schedule.schedule_default,
{
}

/// An exception that covers today replaces the whole weekday, also where it has no
/// value yet.
pub proof fn law_exception_replaces_weekday(
    schedule: ScheduleView,
    date: (u16, u8, u8, u8),
    time: (u8, u8, u8, u8),
    covered: spec_fn(ObjectIdentifier) -> bool,
    place: int,
)
    requires
        schedule.effective_period.spans(date),
        exception_in_force(schedule.exceptions, date, covered) == Some(place),
    ensures
        schedule.commanded(date, time, covered) == match latest_entry(
            schedule.exceptions[place].entries,
            time,
        ) {
            Some(entry) => schedule.exceptions[place].entries[entry].value,
            None => schedule.schedule_default,
        },
{
}

/// The value of the latest time/value pair at or before `time`.
///
/// The list is nominally in ascending time order, but the latest matching entry is
/// taken rather than the last one, so an out-of-order list still resolves.
fn value_at_time(values: &Vec<TimeValueValue>, time: (u8, u8, u8, u8)) -> (value: Option<
    PropertyValue,
>)
    ensures
        ({
            let entries = value::time_values_model(*values);
            match (value, latest_entry(entries, time)) {
                (Some(value), Some(place)) => value.model() == entries[place].value,
                (None, None) => true,
                _ => false,
            }
        }),
{
    let ghost entries = value::time_values_model(*values);
    let mut best: Option<usize> = None;
    let mut i: usize = 0;
    proof {
        value::lemma_entries_model(*values);
        assert(entries.take(0) =~= Seq::<TimeValueView>::empty());
    }
    while i < values.len()
        invariant
            i <= values.len(),
            entries == value::time_values_model(*values),
            entries.len() == values@.len(),
            forall|j: int|
                0 <= j < values@.len() ==> (#[trigger] entries[j]) == values@[j].model(),
            match (best, latest_entry(entries.take(i as int), time)) {
                (Some(best), Some(place)) => best == place && best < i,
                (None, None) => true,
                _ => false,
            },
        decreases values.len() - i,
    {
        proof {
            let longer = entries.take(i + 1);
            assert(longer.drop_last() =~= entries.take(i as int));
            assert(longer[i as int] == entries[i as int]);
            assert(entries[i as int] == values@[i as int].model());
            if best is Some {
                assert(longer[best->Some_0 as int] == entries[best->Some_0 as int]);
                assert(entries[best->Some_0 as int] == values@[best->Some_0 as int].model());
            }
        }
        if not_after(values[i].time, time) {
            let later = match best {
                None => true,
                Some(found) => not_after(values[found].time, values[i].time),
            };
            if later {
                best = Some(i);
            }
        }
        i += 1;
    }
    proof {
        assert(entries.take(entries.len() as int) =~= entries);
    }
    match best {
        Some(found) => {
            proof {
                assert(entries[found as int] == values@[found as int].model());
            }
            Some(values[found].value.duplicate())
        },
        None => None,
    }
}

/// A date range that is always in effect: both endpoints unspecified.
fn always() -> (period: DateRangeValue)
    ensures
        period.start == (UNSPECIFIED_YEAR, ANY, ANY, ANY),
        period.end == (UNSPECIFIED_YEAR, ANY, ANY, ANY),
{
    DateRangeValue {
        start: (UNSPECIFIED_YEAR, ANY, ANY, ANY),
        end: (UNSPECIFIED_YEAR, ANY, ANY, ANY),
    }
}

fn empty_day() -> (day: DailyScheduleValue)
    ensures
        day_model(day) == Seq::<TimeValueView>::empty(),
{
    let day = DailyScheduleValue { time_values: Vec::new() };
    proof {
        assert(day_model(day) =~= Seq::<TimeValueView>::empty());
    }
    day
}

impl Schedule {
    /// Create a schedule that is always in effect, commands nothing, and drives no
    /// targets.
    pub fn new(instance: u32, object_name: String) -> (schedule: Schedule)
        ensures
            schedule.identifier == (ObjectIdentifier {
                object_type: ObjectType::Schedule,
                instance,
            }),
            schedule.object_name == object_name,
            schedule.description@ == Seq::<char>::empty(),
            schedule.present_value is Null,
            schedule.schedule_default is Null,
            schedule.effective_period.start == (UNSPECIFIED_YEAR, ANY, ANY, ANY),
            schedule.effective_period.end == (UNSPECIFIED_YEAR, ANY, ANY, ANY),
            forall|day: int|
                0 <= day < DAYS_PER_WEEK ==> (#[trigger] schedule@.week[day]) == Seq::<
                    TimeValueView,
                >::empty(),
            schedule.exception_schedule@ == Seq::<SpecialEventValue>::empty(),
            schedule.list_of_object_property_references@ == Seq::<
                ObjectPropertyReference,
            >::empty(),
            schedule.priority_for_writing == DEFAULT_PRIORITY_FOR_WRITING,
            schedule.reliability == Reliability::NoFaultDetected,
            !schedule.out_of_service,
    {
        Schedule {
            identifier: ObjectIdentifier::new(ObjectType::Schedule, instance),
            object_name,
            description: String::new(),
            present_value: PropertyValue::Null,
            schedule_default: PropertyValue::Null,
            effective_period: always(),
            weekly_schedule: [
                empty_day(),
                empty_day(),
                empty_day(),
                empty_day(),
                empty_day(),
                empty_day(),
                empty_day(),
            ],
            exception_schedule: Vec::new(),
            list_of_object_property_references: Vec::new(),
            priority_for_writing: DEFAULT_PRIORITY_FOR_WRITING,
            reliability: Reliability::NoFaultDetected,
            out_of_service: false,
        }
    }

    /// Set the value used outside the weekly and exception schedules. The schedule
    /// starts out commanding it.
    pub fn with_default(self, value: PropertyValue) -> (schedule: Schedule)
        ensures
            schedule@ == (ScheduleView {
                present_value: value.model(),
                schedule_default: value.model(),
                ..self@
            }),
    {
        let mut schedule = self;
        schedule.present_value = value.duplicate();
        schedule.schedule_default = value;
        schedule
    }

    /// Set the description, which some clients require before they will accept a
    /// schedule object at all.
    pub fn with_description(self, description: String) -> (schedule: Schedule)
        ensures
            schedule == (Schedule { description, ..self }),
    {
        let mut schedule = self;
        schedule.description = description;
        schedule
    }

    /// Set all seven days at once, Monday first.
    pub fn with_weekly_schedule(self, days: [DailyScheduleValue; DAYS_PER_WEEK]) -> (schedule:
        Schedule)
        ensures
            schedule == (Schedule { weekly_schedule: days, ..self }),
    {
        let mut schedule = self;
        schedule.weekly_schedule = days;
        schedule
    }

    /// Add a dated override.
    pub fn with_exception(self, event: SpecialEventValue) -> (schedule: Schedule)
        ensures
            schedule == (Schedule { exception_schedule: schedule.exception_schedule, ..self }),
            schedule.exception_schedule@ == self.exception_schedule@.push(event),
    {
        let mut schedule = self;
        schedule.exception_schedule.push(event);
        schedule
    }

    /// Narrow the span the schedule is active over.
    pub fn with_effective_period(self, period: DateRangeValue) -> (schedule: Schedule)
        ensures
            schedule == (Schedule { effective_period: period, ..self }),
    {
        let mut schedule = self;
        schedule.effective_period = period;
        schedule
    }

    /// Drive `property` of `object` from this schedule.
    pub fn with_target(self, object: ObjectIdentifier, property: PropertyIdentifier) -> (schedule:
        Schedule)
        ensures
            schedule == (Schedule {
                list_of_object_property_references: schedule.list_of_object_property_references,
                ..self
            }),
            schedule.list_of_object_property_references@
                == self.list_of_object_property_references@.push(
                ObjectPropertyReference {
                    object_identifier: object,
                    property_identifier: property,
                    array_index: None,
                },
            ),
    {
        let mut schedule = self;
        schedule.list_of_object_property_references.push(
            ObjectPropertyReference {
                object_identifier: object,
                property_identifier: property,
                array_index: None,
            },
        );
        schedule
    }

    /// Set the command priority used when writing to targets.
    pub fn with_priority_for_writing(self, priority: u8) -> (schedule: Schedule)
        ensures
            schedule == (Schedule { priority_for_writing: priority, ..self }),
    {
        let mut schedule = self;
        schedule.priority_for_writing = priority;
        schedule
    }

    /// The value this schedule commands at `date` and `time`.
    ///
    /// `date` is (year, month, day, weekday) with weekday 1 for Monday.
    /// `calendar_covers` answers whether a referenced Calendar object includes the
    /// date; the schedule cannot reach other objects itself. The value is the one
    /// commanded under whatever function `calendar_covers` computes.
    pub fn value_at<F: Fn(ObjectIdentifier) -> bool>(
        &self,
        date: (u16, u8, u8, u8),
        time: (u8, u8, u8, u8),
        calendar_covers: &F,
    ) -> (value: PropertyValue)
        requires
            forall|calendar: ObjectIdentifier| #[trigger]
                call_requires(*calendar_covers, (calendar,)),
        ensures
            forall|covered: spec_fn(ObjectIdentifier) -> bool|
                (forall|calendar: ObjectIdentifier, answer: bool| #[trigger]
                    call_ensures(*calendar_covers, (calendar,), answer) ==> answer == covered(
                        calendar,
                    )) ==> value.model() == #[trigger] self@.commanded(date, time, covered),
            !self.effective_period.spans(date) ==> value.model() == self@.schedule_default,
    {
        if !self.effective_period.contains(date) {
            return self.schedule_default.duplicate();
        }
        let found = match self.active_exception(date, calendar_covers) {
            Some(place) => value_at_time(&self.exception_schedule[place].time_values, time),
            None => {
                if date.3 >= 1 && date.3 <= 7 {
                    let index: usize = (date.3 - 1) as usize;
                    value_at_time(&self.weekly_schedule[index].time_values, time)
                } else {
                    None
                }
            },
        };
        match found {
            Some(value) => value,
            None => self.schedule_default.duplicate(),
        }
    }

    /// The place of the exception covering `date`, or `None`. Lower `priority` wins;
    /// the first entry wins a tie, which is the order the schedule was written in.
    fn active_exception<F: Fn(ObjectIdentifier) -> bool>(
        &self,
        date: (u16, u8, u8, u8),
        calendar_covers: &F,
    ) -> (place: Option<usize>)
        requires
            forall|calendar: ObjectIdentifier| #[trigger]
                call_requires(*calendar_covers, (calendar,)),
        ensures
            place matches Some(place) ==> place < self.exception_schedule@.len(),
            forall|covered: spec_fn(ObjectIdentifier) -> bool|
                (forall|calendar: ObjectIdentifier, answer: bool| #[trigger]
                    call_ensures(*calendar_covers, (calendar,), answer) ==> answer == covered(
                        calendar,
                    )) ==> match (
                    place,
                    #[trigger] exception_in_force(self@.exceptions, date, covered),
                ) {
                    (Some(place), Some(stated)) => place == stated,
                    (None, None) => true,
                    _ => false,
                },
    {
        let ghost all = self@.exceptions;
        let mut best: Option<usize> = None;
        let mut i: usize = 0;
        proof {
            assert(all.take(0) =~= Seq::<ExceptionView>::empty());
        }
        while i < self.exception_schedule.len()
            invariant
                i <= self.exception_schedule.len(),
                all == exceptions_model(self.exception_schedule@),
                forall|calendar: ObjectIdentifier| #[trigger]
                    call_requires(*calendar_covers, (calendar,)),
                best matches Some(best) ==> best < i,
                forall|covered: spec_fn(ObjectIdentifier) -> bool|
                    (forall|calendar: ObjectIdentifier, answer: bool| #[trigger]
                        call_ensures(*calendar_covers, (calendar,), answer) ==> answer == covered(
                            calendar,
                        )) ==> match (
                        best,
                        #[trigger] exception_in_force(all.take(i as int), date, covered),
                    ) {
                        (Some(best), Some(stated)) => best == stated,
                        (None, None) => true,
                        _ => false,
                    },
            decreases self.exception_schedule.len() - i,
        {
            let ghost before = best;
            let event = &self.exception_schedule[i];
            let applies = match &event.period {
                SpecialEventPeriod::CalendarEntry(entry) => entry.matches(date),
                SpecialEventPeriod::CalendarReference(calendar) => calendar_covers(*calendar),
            };
            if applies {
                let wins = match best {
                    None => true,
                    Some(found) => event.priority < self.exception_schedule[found].priority,
                };
                if wins {
                    best = Some(i);
                }
            }
            proof {
                let longer = all.take(i + 1);
                assert(longer.drop_last() =~= all.take(i as int));
                assert(longer[i as int] == exception_model(*event));
                if before is Some {
                    assert(longer[before->Some_0 as int] == exception_model(
                        self.exception_schedule@[before->Some_0 as int],
                    ));
                }
                assert forall|covered: spec_fn(ObjectIdentifier) -> bool|
                    (forall|calendar: ObjectIdentifier, answer: bool| #[trigger]
                        call_ensures(*calendar_covers, (calendar,), answer) ==> answer == covered(
                            calendar,
                        )) implies match (
                    best,
                    #[trigger] exception_in_force(longer, date, covered),
                ) {
                    (Some(best), Some(stated)) => best == stated,
                    (None, None) => true,
                    _ => false,
                } by {
                    assert(match (
                        before,
                        exception_in_force(all.take(i as int), date, covered),
                    ) {
                        (Some(before), Some(stated)) => before == stated,
                        (None, None) => true,
                        _ => false,
                    });
                    assert(applies == period_applies(event.period, date, covered));
                }
            }
            i += 1;
        }
        proof {
            assert(all.take(all.len() as int) =~= all);
        }
        best
    }
}

// ---------------------------------------------------------------------------
// Properties
// ---------------------------------------------------------------------------

/// The Status_Flags of a schedule: it is never in alarm or overridden.
pub open spec fn schedule_flags(reliability: Reliability, out_of_service: bool) -> Seq<bool> {
    seq![false, reliability != Reliability::NoFaultDetected, false, out_of_service]
}

/// What Weekly_Schedule reads.
pub open spec fn week_reading(week: Seq<Seq<TimeValueView>>) -> PropertyValueView {
    PropertyValueView::Array(
        week.map_values(|day: Seq<TimeValueView>| PropertyValueView::DailySchedule(day)),
    )
}

/// What Exception_Schedule reads.
pub open spec fn exceptions_reading(exceptions: Seq<ExceptionView>) -> PropertyValueView {
    PropertyValueView::Array(
        exceptions.map_values(
            |event: ExceptionView|
                PropertyValueView::SpecialEvent(event.period, event.entries, event.priority),
        ),
    )
}

/// What List_Of_Object_Property_References reads.
pub open spec fn targets_reading(targets: Seq<ObjectPropertyReference>) -> PropertyValueView {
    PropertyValueView::List(
        targets.map_values(
            |target: ObjectPropertyReference| PropertyValueView::ObjectPropertyReference(target),
        ),
    )
}

/// The two dates a list names.
pub open spec fn period_of(values: Seq<PropertyValue>) -> Result<DateRangeValue, ObjectErrorView> {
    if values.len() == 2 && values[0] is Date && values[1] is Date {
        Ok(
            DateRangeValue {
                start: (values[0]->Date_0, values[0]->Date_1, values[0]->Date_2, values[0]->Date_3),
                end: (values[1]->Date_0, values[1]->Date_1, values[1]->Date_2, values[1]->Date_3),
            },
        )
    } else {
        Err(ObjectErrorView::InvalidValue("Effective_Period must be two dates"@))
    }
}

/// The seven days a list names.
pub open spec fn week_of(values: Seq<PropertyValue>) -> Result<
    Seq<Seq<TimeValueView>>,
    ObjectErrorView,
> {
    if values.len() != DAYS_PER_WEEK {
        Err(ObjectErrorView::InvalidValue("Weekly_Schedule must have exactly 7 days"@))
    } else if forall|i: int| 0 <= i < values.len() ==> (#[trigger] values[i]) is DailySchedule {
        Ok(values.map_values(|value: PropertyValue| day_model(value->DailySchedule_0)))
    } else {
        Err(ObjectErrorView::InvalidPropertyType)
    }
}

/// The dated overrides a list names.
pub open spec fn exceptions_of(values: Seq<PropertyValue>) -> Result<
    Seq<ExceptionView>,
    ObjectErrorView,
> {
    if forall|i: int| 0 <= i < values.len() ==> (#[trigger] values[i]) is SpecialEvent {
        Ok(values.map_values(|value: PropertyValue| exception_model(value->SpecialEvent_0)))
    } else {
        Err(ObjectErrorView::InvalidPropertyType)
    }
}

/// The references a list names.
pub open spec fn targets_of(values: Seq<PropertyValue>) -> Result<
    Seq<ObjectPropertyReference>,
    ObjectErrorView,
> {
    if forall|i: int| 0 <= i < values.len() ==> (#[trigger] values[i]) is ObjectPropertyReference {
        Ok(values.map_values(|value: PropertyValue| value->ObjectPropertyReference_0))
    } else {
        Err(ObjectErrorView::InvalidPropertyType)
    }
}

impl ScheduleView {
    /// What a property reads.
    pub open spec fn reading(self, property: PropertyIdentifier) -> Result<
        PropertyValueView,
        ObjectErrorView,
    > {
        match property {
            PropertyIdentifier::ObjectIdentifier => Ok(
                PropertyValueView::ObjectIdentifier(self.identifier),
            ),
            PropertyIdentifier::ObjectName => Ok(
                PropertyValueView::CharacterString(self.object_name),
            ),
            PropertyIdentifier::ObjectType => Ok(
                PropertyValueView::Enumerated(ObjectType::Schedule.number()),
            ),
            PropertyIdentifier::Description => Ok(
                PropertyValueView::CharacterString(self.description),
            ),
            PropertyIdentifier::PresentValue => Ok(self.present_value),
            PropertyIdentifier::ScheduleDefault => Ok(self.schedule_default),
            PropertyIdentifier::EffectivePeriod => Ok(
                PropertyValueView::DateRange(self.effective_period),
            ),
            PropertyIdentifier::WeeklySchedule => Ok(week_reading(self.week)),
            PropertyIdentifier::ExceptionSchedule => Ok(exceptions_reading(self.exceptions)),
            PropertyIdentifier::ListOfObjectPropertyReferences => Ok(
                targets_reading(self.targets),
            ),
            PropertyIdentifier::PriorityForWriting => Ok(
                PropertyValueView::Unsigned(self.priority_for_writing as u64),
            ),
            PropertyIdentifier::StatusFlags => Ok(
                PropertyValueView::BitString(schedule_flags(self.reliability, self.out_of_service)),
            ),
            PropertyIdentifier::Reliability => Ok(
                PropertyValueView::Enumerated(self.reliability.number()),
            ),
            PropertyIdentifier::OutOfService => Ok(
                PropertyValueView::Boolean(self.out_of_service),
            ),
            _ => Err(ObjectErrorView::UnknownProperty),
        }
    }

    /// What a write leaves. Present_Value is writable only while the schedule is
    /// decoupled, so an operator can park it on a value without the next tick
    /// overwriting it.
    pub open spec fn writing(self, property: PropertyIdentifier, value: PropertyValue) -> Result<
        ScheduleView,
        ObjectErrorView,
    > {
        let wrong = Err::<ScheduleView, ObjectErrorView>(ObjectErrorView::InvalidPropertyType);
        match property {
            PropertyIdentifier::ObjectName => match value {
                PropertyValue::CharacterString(text) => Ok(
                    ScheduleView { object_name: text@, ..self },
                ),
                _ => wrong,
            },
            PropertyIdentifier::Description => match value {
                PropertyValue::CharacterString(text) => Ok(
                    ScheduleView { description: text@, ..self },
                ),
                _ => wrong,
            },
            PropertyIdentifier::PresentValue => if self.out_of_service {
                Ok(ScheduleView { present_value: value.model(), ..self })
            } else {
                Err(ObjectErrorView::WriteAccessDenied)
            },
            PropertyIdentifier::ScheduleDefault => Ok(
                ScheduleView { schedule_default: value.model(), ..self },
            ),
            PropertyIdentifier::EffectivePeriod => match value {
                PropertyValue::DateRange(period) => Ok(
                    ScheduleView { effective_period: period, ..self },
                ),
                PropertyValue::List(dates) | PropertyValue::Array(dates) => match period_of(
                    dates@,
                ) {
                    Ok(period) => Ok(ScheduleView { effective_period: period, ..self }),
                    Err(error) => Err(error),
                },
                _ => wrong,
            },
            PropertyIdentifier::WeeklySchedule => match value {
                PropertyValue::Array(days) | PropertyValue::List(days) => match week_of(days@) {
                    Ok(week) => Ok(ScheduleView { week, ..self }),
                    Err(error) => Err(error),
                },
                _ => wrong,
            },
            PropertyIdentifier::ExceptionSchedule => match value {
                PropertyValue::Array(events) | PropertyValue::List(events) => match exceptions_of(
                    events@,
                ) {
                    Ok(exceptions) => Ok(ScheduleView { exceptions, ..self }),
                    Err(error) => Err(error),
                },
                _ => wrong,
            },
            PropertyIdentifier::ListOfObjectPropertyReferences => match value {
                PropertyValue::List(references) | PropertyValue::Array(references) => {
                    match targets_of(references@) {
                        Ok(targets) => Ok(ScheduleView { targets, ..self }),
                        Err(error) => Err(error),
                    }
                },
                _ => wrong,
            },
            PropertyIdentifier::PriorityForWriting => match value {
                PropertyValue::Unsigned(priority) => if 1 <= priority <= 16 {
                    Ok(ScheduleView { priority_for_writing: priority as u8, ..self })
                } else {
                    Err(ObjectErrorView::InvalidValue("Priority_For_Writing must be 1-16"@))
                },
                _ => wrong,
            },
            PropertyIdentifier::OutOfService => match value {
                PropertyValue::Boolean(flag) => Ok(ScheduleView { out_of_service: flag, ..self }),
                _ => wrong,
            },
            PropertyIdentifier::Reliability => match value {
                PropertyValue::Enumerated(number) => Ok(
                    ScheduleView { reliability: Reliability::of(number), ..self },
                ),
                _ => wrong,
            },
            _ => Err(ObjectErrorView::PropertyNotWritable),
        }
    }
}

fn read_period(values: &Vec<PropertyValue>) -> (period: Result<DateRangeValue, ObjectError>)
    ensures
        match (period, period_of(values@)) {
            (Ok(period), Ok(stated)) => period == stated,
            (Err(error), Err(stated)) => error@ == stated,
            _ => false,
        },
{
    if values.len() == 2 {
        if let (PropertyValue::Date(sy, sm, sd, sw), PropertyValue::Date(ey, em, ed, ew)) = (
            &values[0],
            &values[1],
        ) {
            return Ok(
                DateRangeValue { start: (*sy, *sm, *sd, *sw), end: (*ey, *em, *ed, *ew) },
            );
        }
    }
    Err(error::invalid_value("Effective_Period must be two dates"))
}

/// The day that an element of a list names.
fn day_at(values: &Vec<PropertyValue>, place: usize) -> (day: DailyScheduleValue)
    requires
        place < values@.len(),
    ensures
        values@[place as int] is DailySchedule ==> day_model(day) == day_model(
            values@[place as int]->DailySchedule_0,
        ),
{
    match &values[place] {
        PropertyValue::DailySchedule(day) => day.clone(),
        _ => empty_day(),
    }
}

fn read_week(values: &Vec<PropertyValue>) -> (week: Result<
    [DailyScheduleValue; DAYS_PER_WEEK],
    ObjectError,
>)
    ensures
        match (week, week_of(values@)) {
            (Ok(week), Ok(stated)) => week_model(week@) == stated,
            (Err(error), Err(stated)) => error@ == stated,
            _ => false,
        },
{
    if values.len() != DAYS_PER_WEEK {
        return Err(error::invalid_value("Weekly_Schedule must have exactly 7 days"));
    }
    let mut i: usize = 0;
    while i < DAYS_PER_WEEK
        invariant
            i <= DAYS_PER_WEEK,
            values@.len() == DAYS_PER_WEEK,
            forall|j: int| 0 <= j < i ==> (#[trigger] values@[j]) is DailySchedule,
        decreases DAYS_PER_WEEK - i,
    {
        match &values[i] {
            PropertyValue::DailySchedule(_) => {},
            _ => {
                assert(!(values@[i as int] is DailySchedule));
                return Err(ObjectError::InvalidPropertyType);
            },
        }
        i += 1;
    }
    let week = [
        day_at(values, 0),
        day_at(values, 1),
        day_at(values, 2),
        day_at(values, 3),
        day_at(values, 4),
        day_at(values, 5),
        day_at(values, 6),
    ];
    proof {
        assert(week_model(week@) =~= values@.map_values(
            |value: PropertyValue| day_model(value->DailySchedule_0),
        ));
    }
    Ok(week)
}

fn read_exceptions(values: &Vec<PropertyValue>) -> (events: Result<
    Vec<SpecialEventValue>,
    ObjectError,
>)
    ensures
        match (events, exceptions_of(values@)) {
            (Ok(events), Ok(stated)) => exceptions_model(events@) == stated,
            (Err(error), Err(stated)) => error@ == stated,
            _ => false,
        },
{
    let mut events: Vec<SpecialEventValue> = Vec::new();
    let mut i: usize = 0;
    while i < values.len()
        invariant
            i <= values.len(),
            events@.len() == i,
            forall|j: int|
                0 <= j < i ==> (#[trigger] values@[j]) is SpecialEvent && exception_model(
                    events@[j],
                ) == exception_model(values@[j]->SpecialEvent_0),
        decreases values.len() - i,
    {
        match &values[i] {
            PropertyValue::SpecialEvent(event) => {
                events.push(event.clone());
            },
            _ => {
                assert(!(values@[i as int] is SpecialEvent));
                return Err(ObjectError::InvalidPropertyType);
            },
        }
        i += 1;
    }
    proof {
        assert(exceptions_model(events@) =~= values@.map_values(
            |value: PropertyValue| exception_model(value->SpecialEvent_0),
        ));
    }
    Ok(events)
}

fn read_targets(values: &Vec<PropertyValue>) -> (targets: Result<
    Vec<ObjectPropertyReference>,
    ObjectError,
>)
    ensures
        match (targets, targets_of(values@)) {
            (Ok(targets), Ok(stated)) => targets@ == stated,
            (Err(error), Err(stated)) => error@ == stated,
            _ => false,
        },
{
    let mut targets: Vec<ObjectPropertyReference> = Vec::new();
    let mut i: usize = 0;
    while i < values.len()
        invariant
            i <= values.len(),
            targets@.len() == i,
            forall|j: int|
                0 <= j < i ==> (#[trigger] values@[j]) is ObjectPropertyReference && targets@[j]
                    == values@[j]->ObjectPropertyReference_0,
        decreases values.len() - i,
    {
        match &values[i] {
            PropertyValue::ObjectPropertyReference(target) => {
                targets.push(*target);
            },
            _ => {
                assert(!(values@[i as int] is ObjectPropertyReference));
                return Err(ObjectError::InvalidPropertyType);
            },
        }
        i += 1;
    }
    proof {
        assert(targets@ =~= values@.map_values(
            |value: PropertyValue| value->ObjectPropertyReference_0,
        ));
    }
    Ok(targets)
}

fn week_value(week: &[DailyScheduleValue; DAYS_PER_WEEK]) -> (value: PropertyValue)
    ensures
        value.model() == week_reading(week_model(week@)),
{
    let mut values: Vec<PropertyValue> = Vec::new();
    let mut i: usize = 0;
    while i < DAYS_PER_WEEK
        invariant
            i <= DAYS_PER_WEEK,
            week@.len() == DAYS_PER_WEEK,
            values@.len() == i,
            forall|j: int|
                0 <= j < i ==> (#[trigger] values@[j]).model() == PropertyValueView::DailySchedule(
                    day_model(week@[j]),
                ),
        decreases DAYS_PER_WEEK - i,
    {
        values.push(PropertyValue::DailySchedule(week[i].clone()));
        i += 1;
    }
    proof {
        value::lemma_list_model(values);
        assert(value::values_model(values) =~= week_model(week@).map_values(
            |day: Seq<TimeValueView>| PropertyValueView::DailySchedule(day),
        ));
    }
    PropertyValue::Array(values)
}

fn exceptions_value(events: &Vec<SpecialEventValue>) -> (value: PropertyValue)
    ensures
        value.model() == exceptions_reading(exceptions_model(events@)),
{
    let mut values: Vec<PropertyValue> = Vec::new();
    let mut i: usize = 0;
    while i < events.len()
        invariant
            i <= events.len(),
            values@.len() == i,
            forall|j: int|
                0 <= j < i ==> (#[trigger] values@[j]).model() == PropertyValueView::SpecialEvent(
                    events@[j].period,
                    value::time_values_model(events@[j].time_values),
                    events@[j].priority,
                ),
        decreases events.len() - i,
    {
        values.push(PropertyValue::SpecialEvent(events[i].clone()));
        i += 1;
    }
    proof {
        value::lemma_list_model(values);
        assert(value::values_model(values) =~= exceptions_model(events@).map_values(
            |event: ExceptionView|
                PropertyValueView::SpecialEvent(event.period, event.entries, event.priority),
        ));
    }
    PropertyValue::Array(values)
}

fn targets_value(targets: &Vec<ObjectPropertyReference>) -> (value: PropertyValue)
    ensures
        value.model() == targets_reading(targets@),
{
    let mut values: Vec<PropertyValue> = Vec::new();
    let mut i: usize = 0;
    while i < targets.len()
        invariant
            i <= targets.len(),
            values@.len() == i,
            forall|j: int|
                0 <= j < i ==> (#[trigger] values@[j]).model()
                    == PropertyValueView::ObjectPropertyReference(targets@[j]),
        decreases targets.len() - i,
    {
        values.push(PropertyValue::ObjectPropertyReference(targets[i]));
        i += 1;
    }
    proof {
        value::lemma_list_model(values);
        assert(value::values_model(values) =~= targets@.map_values(
            |target: ObjectPropertyReference| PropertyValueView::ObjectPropertyReference(target),
        ));
    }
    PropertyValue::List(values)
}

impl BacnetObject for Schedule {
    open spec fn identity(&self) -> ObjectIdentifier {
        self.identifier
    }

    open spec fn reading(&self, property: PropertyIdentifier) -> Result<
        PropertyValueView,
        ObjectErrorView,
    > {
        self@.reading(property)
    }

    open spec fn writing(
        &self,
        after: Schedule,
        property: PropertyIdentifier,
        value: PropertyValue,
        priority: Option<u8>,
        outcome: Result<(), ObjectErrorView>,
    ) -> bool {
        match (outcome, self@.writing(property, value)) {
            (Ok(_), Ok(expected)) => after@ == expected,
            (Err(error), Err(expected)) => error == expected && after == *self,
            _ => false,
        }
    }

    open spec fn accepts(&self, property: PropertyIdentifier) -> bool {
        match property {
            PropertyIdentifier::PresentValue => self.out_of_service,
            PropertyIdentifier::ObjectName
            | PropertyIdentifier::Description
            | PropertyIdentifier::ScheduleDefault
            | PropertyIdentifier::EffectivePeriod
            | PropertyIdentifier::WeeklySchedule
            | PropertyIdentifier::ExceptionSchedule
            | PropertyIdentifier::ListOfObjectPropertyReferences
            | PropertyIdentifier::PriorityForWriting
            | PropertyIdentifier::OutOfService
            | PropertyIdentifier::Reliability => true,
            _ => false,
        }
    }

    open spec fn listing(&self) -> Seq<PropertyIdentifier> {
        seq![
            PropertyIdentifier::ObjectIdentifier,
            PropertyIdentifier::ObjectName,
            PropertyIdentifier::ObjectType,
            PropertyIdentifier::Description,
            PropertyIdentifier::PresentValue,
            PropertyIdentifier::EffectivePeriod,
            PropertyIdentifier::WeeklySchedule,
            PropertyIdentifier::ExceptionSchedule,
            PropertyIdentifier::ScheduleDefault,
            PropertyIdentifier::ListOfObjectPropertyReferences,
            PropertyIdentifier::PriorityForWriting,
            PropertyIdentifier::StatusFlags,
            PropertyIdentifier::Reliability,
            PropertyIdentifier::OutOfService,
        ]
    }

    open spec fn sourcing(
        &self,
        after: Schedule,
        value: PropertyValue,
        outcome: Result<(), ObjectErrorView>,
    ) -> bool {
        outcome == Err::<(), ObjectErrorView>(ObjectErrorView::OptionalFunctionalityNotSupported)
            && after == *self
    }

    open spec fn reporting(&self) -> Option<IntrinsicReporting> {
        None
    }

    open spec fn reports_as(&self, after: Schedule, reporting: IntrinsicReporting) -> bool {
        after == *self
    }

    open spec fn evaluation(&self) -> Option<AlarmEvaluation> {
        None
    }

    open spec fn enters(&self, after: Schedule, state: EventState) -> bool {
        after == *self
    }

    open spec fn decoupled(&self) -> bool {
        self.out_of_service
    }

    fn identifier(&self) -> (identifier: ObjectIdentifier) {
        self.identifier
    }

    fn get_property(&self, property: PropertyIdentifier) -> (result: Result<
        PropertyValue,
        ObjectError,
    >) {
        match property {
            PropertyIdentifier::ObjectIdentifier => Ok(
                PropertyValue::ObjectIdentifier(self.identifier),
            ),
            PropertyIdentifier::ObjectName => Ok(
                PropertyValue::CharacterString(self.object_name.clone()),
            ),
            PropertyIdentifier::ObjectType => Ok(
                PropertyValue::Enumerated(ObjectType::Schedule.to_number()),
            ),
            PropertyIdentifier::Description => Ok(
                PropertyValue::CharacterString(self.description.clone()),
            ),
            PropertyIdentifier::PresentValue => Ok(self.present_value.duplicate()),
            PropertyIdentifier::ScheduleDefault => Ok(self.schedule_default.duplicate()),
            PropertyIdentifier::EffectivePeriod => Ok(
                PropertyValue::DateRange(self.effective_period),
            ),
            PropertyIdentifier::WeeklySchedule => Ok(week_value(&self.weekly_schedule)),
            PropertyIdentifier::ExceptionSchedule => Ok(exceptions_value(&self.exception_schedule)),
            PropertyIdentifier::ListOfObjectPropertyReferences => Ok(
                targets_value(&self.list_of_object_property_references),
            ),
            PropertyIdentifier::PriorityForWriting => Ok(
                PropertyValue::Unsigned(self.priority_for_writing as u64),
            ),
            PropertyIdentifier::StatusFlags => Ok(
                PropertyValue::BitString(
                    vec![
                        false,
                        self.reliability != Reliability::NoFaultDetected,
                        false,
                        self.out_of_service,
                    ],
                ),
            ),
            PropertyIdentifier::Reliability => Ok(
                PropertyValue::Enumerated(self.reliability.to_number()),
            ),
            PropertyIdentifier::OutOfService => Ok(PropertyValue::Boolean(self.out_of_service)),
            _ => Err(ObjectError::UnknownProperty),
        }
    }

    fn set_property(&mut self, property: PropertyIdentifier, value: PropertyValue) -> (result:
        Result<(), ObjectError>) {
        match property {
            PropertyIdentifier::ObjectName => match value {
                PropertyValue::CharacterString(text) => {
                    self.object_name = text;
                    Ok(())
                },
                _ => Err(ObjectError::InvalidPropertyType),
            },
            PropertyIdentifier::Description => match value {
                PropertyValue::CharacterString(text) => {
                    self.description = text;
                    Ok(())
                },
                _ => Err(ObjectError::InvalidPropertyType),
            },
            PropertyIdentifier::PresentValue => {
                if !self.out_of_service {
                    return Err(ObjectError::WriteAccessDenied);
                }
                self.present_value = value;
                Ok(())
            },
            PropertyIdentifier::ScheduleDefault => {
                self.schedule_default = value;
                Ok(())
            },
            PropertyIdentifier::EffectivePeriod => match value {
                PropertyValue::DateRange(period) => {
                    self.effective_period = period;
                    Ok(())
                },
                // A client that sends the two dates as plain application values
                // means the same thing.
                PropertyValue::List(dates) | PropertyValue::Array(dates) => {
                    match read_period(&dates) {
                        Ok(period) => {
                            self.effective_period = period;
                            Ok(())
                        },
                        Err(error) => Err(error),
                    }
                },
                _ => Err(ObjectError::InvalidPropertyType),
            },
            PropertyIdentifier::WeeklySchedule => match value {
                PropertyValue::Array(days) | PropertyValue::List(days) => {
                    match read_week(&days) {
                        Ok(week) => {
                            self.weekly_schedule = week;
                            Ok(())
                        },
                        Err(error) => Err(error),
                    }
                },
                _ => Err(ObjectError::InvalidPropertyType),
            },
            PropertyIdentifier::ExceptionSchedule => match value {
                PropertyValue::Array(events) | PropertyValue::List(events) => {
                    match read_exceptions(&events) {
                        Ok(events) => {
                            self.exception_schedule = events;
                            Ok(())
                        },
                        Err(error) => Err(error),
                    }
                },
                _ => Err(ObjectError::InvalidPropertyType),
            },
            PropertyIdentifier::ListOfObjectPropertyReferences => match value {
                PropertyValue::List(references) | PropertyValue::Array(references) => {
                    match read_targets(&references) {
                        Ok(targets) => {
                            self.list_of_object_property_references = targets;
                            Ok(())
                        },
                        Err(error) => Err(error),
                    }
                },
                _ => Err(ObjectError::InvalidPropertyType),
            },
            PropertyIdentifier::PriorityForWriting => match value {
                PropertyValue::Unsigned(priority) => if 1 <= priority && priority <= 16 {
                    self.priority_for_writing = priority as u8;
                    Ok(())
                } else {
                    Err(error::invalid_value("Priority_For_Writing must be 1-16"))
                },
                _ => Err(ObjectError::InvalidPropertyType),
            },
            PropertyIdentifier::OutOfService => match value {
                PropertyValue::Boolean(flag) => {
                    self.out_of_service = flag;
                    Ok(())
                },
                _ => Err(ObjectError::InvalidPropertyType),
            },
            // Writable so a simulated schedule can be driven into a fault state.
            PropertyIdentifier::Reliability => match value {
                PropertyValue::Enumerated(number) => {
                    self.reliability = Reliability::from_number(number);
                    Ok(())
                },
                _ => Err(ObjectError::InvalidPropertyType),
            },
            _ => Err(ObjectError::PropertyNotWritable),
        }
    }

    fn set_property_with_priority(
        &mut self,
        property: PropertyIdentifier,
        value: PropertyValue,
        priority: Option<u8>,
    ) -> (result: Result<(), ObjectError>) {
        self.set_property(property, value)
    }

    fn is_property_writable(&self, property: PropertyIdentifier) -> (writable: bool) {
        match property {
            PropertyIdentifier::PresentValue => self.out_of_service,
            PropertyIdentifier::ObjectName
            | PropertyIdentifier::Description
            | PropertyIdentifier::ScheduleDefault
            | PropertyIdentifier::EffectivePeriod
            | PropertyIdentifier::WeeklySchedule
            | PropertyIdentifier::ExceptionSchedule
            | PropertyIdentifier::ListOfObjectPropertyReferences
            | PropertyIdentifier::PriorityForWriting
            | PropertyIdentifier::OutOfService
            | PropertyIdentifier::Reliability => true,
            _ => false,
        }
    }

    fn property_list(&self) -> (properties: Vec<PropertyIdentifier>) {
        vec![
            PropertyIdentifier::ObjectIdentifier,
            PropertyIdentifier::ObjectName,
            PropertyIdentifier::ObjectType,
            PropertyIdentifier::Description,
            PropertyIdentifier::PresentValue,
            PropertyIdentifier::EffectivePeriod,
            PropertyIdentifier::WeeklySchedule,
            PropertyIdentifier::ExceptionSchedule,
            PropertyIdentifier::ScheduleDefault,
            PropertyIdentifier::ListOfObjectPropertyReferences,
            PropertyIdentifier::PriorityForWriting,
            PropertyIdentifier::StatusFlags,
            PropertyIdentifier::Reliability,
            PropertyIdentifier::OutOfService,
        ]
    }

    fn set_sourced_value(&mut self, value: PropertyValue) -> (result: Result<(), ObjectError>) {
        Err(ObjectError::OptionalFunctionalityNotSupported)
    }

    fn intrinsic(&self) -> (reporting: Option<IntrinsicReporting>) {
        None
    }

    fn store_intrinsic(&mut self, reporting: IntrinsicReporting) {
    }

    fn evaluate_alarm(&self) -> (evaluation: Option<AlarmEvaluation>) {
        None
    }

    fn apply_event_state(&mut self, state: EventState) {
    }

    fn is_out_of_service(&self) -> (decoupled: bool) {
        self.out_of_service
    }
}

/// A schedule takes writes only to what it reports as writable: Present_Value only
/// while it is decoupled.
pub proof fn law_only_writable_properties_change(
    schedule: Schedule,
    property: PropertyIdentifier,
    value: PropertyValue,
)
    requires
        !schedule.accepts(property),
    ensures
        schedule@.writing(property, value) is Err,
{
}

/// What Weekly_Schedule reads can be written to any schedule, which then holds the
/// same week.
pub proof fn law_week_carries_over(source: ScheduleView, target: ScheduleView, days: PropertyValue)
    requires
        source.week.len() == DAYS_PER_WEEK,
        source.reading(PropertyIdentifier::WeeklySchedule) == Ok::<
            PropertyValueView,
            ObjectErrorView,
        >(days.model()),
    ensures
        target.writing(PropertyIdentifier::WeeklySchedule, days) == Ok::<
            ScheduleView,
            ObjectErrorView,
        >(ScheduleView { week: source.week, ..target }),
{
    let views = source.week.map_values(
        |day: Seq<TimeValueView>| PropertyValueView::DailySchedule(day),
    );
    match days {
        PropertyValue::Array(values) => {
            value::lemma_list_model(values);
            assert(value::values_model(values) == views);
            assert forall|i: int| 0 <= i < values@.len() implies (
            #[trigger] values@[i]) is DailySchedule && day_model(values@[i]->DailySchedule_0)
                == source.week[i] by {
                assert(value::values_model(values)[i] == values@[i].model());
                assert(views[i] == PropertyValueView::DailySchedule(source.week[i]));
            }
            assert(values@.map_values(|value: PropertyValue| day_model(value->DailySchedule_0))
                =~= source.week);
        },
        _ => {
            assert(false);
        },
    }
}

} // verus!
