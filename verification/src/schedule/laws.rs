//! What schedules can be relied on for: which value they command on which day and at what
//! time, and what becomes of it.

use crate::object::calendar;
use crate::object::calendar::Calendar;
use crate::object::database::DatabaseView;
use crate::object::error::ObjectErrorView;
use crate::object::hostable::Hostable;
use crate::object::identifier::{ObjectIdentifier, ObjectType};
use crate::object::schedule;
use crate::object::schedule::Schedule;
use crate::property::calendar::{CalendarEntryValue, DateRangeValue};
use crate::property::value::{
    ObjectPropertyReference, PropertyValue, PropertyValueView, SpecialEventPeriod, TimeValueView,
};
use crate::schedule::engine;
use crate::schedule::engine::{ScheduleStep, WriteView};
use vstd::prelude::*;

verus! {

// ---------------------------------------------------------------------------
// Days
// ---------------------------------------------------------------------------

/// A day as one number, later days having larger ones.
pub open spec fn day_number(date: (u16, u8, u8, u8)) -> int {
    date.0 * 0x1_0000 + date.1 * 0x100 + date.2
}

/// A span covers its two ends and every day between them; an end without a year is
/// open.
pub proof fn law_spans_cover_their_ends(range: DateRangeValue, date: (u16, u8, u8, u8))
    ensures
        range.spans(date) == ((range.start.0 == 255 || day_number(range.start) <= day_number(date))
            && (range.end.0 == 255 || day_number(date) <= day_number(range.end))),
{
}

/// The last day of a month.
pub open spec fn last_day(year: u16, month: u8) -> int {
    if month == 2 && year % 400 == 0 {
        29
    } else if month == 2 && year % 100 == 0 {
        28
    } else if month == 2 && year % 4 == 0 {
        29
    } else if month == 2 {
        28
    } else if seq![4u8, 6u8, 9u8, 11u8].contains(month) {
        30
    } else {
        31
    }
}

/// A dated entry covers the days whose every field is the one it names, where it names
/// one; 255 names none.
pub proof fn law_dated_entries_match_what_they_name(
    year: u16,
    month: u8,
    day: u8,
    weekday: u8,
    date: (u16, u8, u8, u8),
)
    ensures
        CalendarEntryValue::Date(year, month, day, weekday).covers(date) == ((year != 255 ==> year
            == date.0) && (month != 255 ==> month == date.1) && (day != 255 ==> day == date.2) && (
        weekday != 255 ==> weekday == date.3)),
{
}

/// A recurring entry names a month, 13 for the odd and 14 for the even ones; a week of the
/// month, counted by sevens from its first day, or 6 for its last seven days; and a
/// weekday. 255 names any.
pub proof fn law_recurring_entries_match_what_they_name(
    month: u8,
    week: u8,
    weekday: u8,
    date: (u16, u8, u8, u8),
)
    requires
        1 <= date.1 <= 12,
        1 <= date.2 <= last_day(date.0, date.1),
    ensures
        ({
            let in_month = month == 255 || month == date.1 || (month == 13 && date.1 % 2 == 1) || (
            month == 14 && date.1 % 2 == 0);
            let in_week = week == 255 || (1 <= week <= 5 && (date.2 - 1) / 7 == week - 1) || (week
                == 6 && last_day(date.0, date.1) - 7 < date.2);
            let on_day = weekday == 255 || weekday == date.3;
            CalendarEntryValue::WeekNDay(month, week, weekday).covers(date) == (in_month && in_week
                && on_day)
        }),
{
    let list = seq![4u8, 6u8, 9u8, 11u8];
    assert(list[0] == 4 && list[1] == 6 && list[2] == 9 && list[3] == 11);
    if list.contains(date.1) {
        let i = list.index_of(date.1);
        assert(list[i] == date.1);
    }
}

/// A calendar is active on a day exactly where one of its entries covers it, and shows
/// that once it is refreshed.
pub proof fn law_calendars_cover_what_their_entries_cover(
    list: Seq<CalendarEntryValue>,
    date: (u16, u8, u8, u8),
)
    ensures
        calendar::list_covers(list, date) == exists|i: int|
            0 <= i < list.len() && match #[trigger] list[i] {
                CalendarEntryValue::DateRange(range) => range.spans(date),
                entry => entry.covers(date),
            },
{
    if calendar::list_covers(list, date) {
        let i = choose|i: int| 0 <= i < list.len() && (#[trigger] list[i]).covers(date);
        assert(match list[i] {
            CalendarEntryValue::DateRange(range) => range.spans(date),
            entry => entry.covers(date),
        });
    }
    if exists|i: int|
        0 <= i < list.len() && match #[trigger] list[i] {
            CalendarEntryValue::DateRange(range) => range.spans(date),
            entry => entry.covers(date),
        } {
        let i = choose|i: int|
            0 <= i < list.len() && match #[trigger] list[i] {
                CalendarEntryValue::DateRange(range) => range.spans(date),
                entry => entry.covers(date),
            };
        assert(list[i].covers(date));
    }
}

/// Refreshing calendars for a day leaves every calendar showing whether it covers the
/// day, and every object that is no calendar as it was.
pub proof fn law_refreshed_calendars_show_the_day<T: Hostable>(
    database: DatabaseView<T>,
    date: (u16, u8, u8, u8),
    i: int,
)
    requires
        0 <= i < database.objects.len(),
    ensures
        ({
            let before = database.objects[i];
            let after = database.calendars_refreshed(date).objects[i];
            &&& database.calendars_refreshed(date).objects.len() == database.objects.len()
            &&& before.as_calendar() is None ==> after == before
            &&& before.as_calendar() is Some && before.identity().object_type
                == ObjectType::Calendar ==> after.as_calendar() == Some(
                Calendar {
                    present_value: calendar::list_covers(
                        before.as_calendar()->Some_0.date_list@,
                        date,
                    ),
                    ..before.as_calendar()->Some_0
                },
            )
            &&& database.calendars_refreshed(date).revision == database.revision
        }),
{
    let object = database.objects[i];
    if let Some(held) = object.as_calendar() {
        object.law_parts_can_be_replaced(
            arbitrary(),
            Calendar { present_value: calendar::list_covers(held.date_list@, date), ..held },
        );
    }
}

// ---------------------------------------------------------------------------
// What is commanded
// ---------------------------------------------------------------------------

/// Whether a time of day is at or before another.
pub open spec fn has_come(entry: (u8, u8, u8, u8), time: (u8, u8, u8, u8)) -> bool {
    if entry.0 != time.0 {
        entry.0 < time.0
    } else if entry.1 != time.1 {
        entry.1 < time.1
    } else if entry.2 != time.2 {
        entry.2 < time.2
    } else {
        entry.3 <= time.3
    }
}

/// Whether an entry of a day rules at a time: it has come, and no entry that has come is
/// later, nor at the same time and further down.
pub open spec fn rules(
    entries: Seq<TimeValueView>,
    time: (u8, u8, u8, u8),
    place: int,
) -> bool {
    &&& 0 <= place < entries.len()
    &&& has_come(entries[place].time, time)
    &&& forall|i: int|
        0 <= i < entries.len() && has_come((#[trigger] entries[i]).time, time) ==> has_come(
            entries[i].time,
            entries[place].time,
        ) && (i > place ==> entries[i].time != entries[place].time)
}

/// Whether a value is what a day commands at a time: that of the entry that rules, or the
/// default before the first has come.
pub open spec fn is_commanded_by(
    entries: Seq<TimeValueView>,
    time: (u8, u8, u8, u8),
    default: PropertyValueView,
    value: PropertyValueView,
) -> bool {
    &&& forall|place: int| #[trigger] rules(entries, time, place) ==> value == entries[place].value
    &&& (forall|i: int| 0 <= i < entries.len() ==> !has_come((#[trigger] entries[i]).time, time))
        ==> value == default
}

/// Whether an exception of a schedule is meant for a day: by its own entry, or by the
/// calendar that it refers to.
pub open spec fn is_meant_for(
    period: SpecialEventPeriod,
    date: (u16, u8, u8, u8),
    covered: spec_fn(ObjectIdentifier) -> bool,
) -> bool {
    ||| period matches SpecialEventPeriod::CalendarEntry(entry) && entry.covers(date)
    ||| period matches SpecialEventPeriod::CalendarReference(calendar) && covered(calendar)
}

/// What a schedule commands.
///
/// Outside of its effective period, the default. On a day that exceptions are meant for,
/// what the one of them with the lowest number commands, the first of several. On any
/// other day what the list of that weekday commands, the first list being Monday's. A
/// list commands its latest entry that has come, and the default before that.
pub proof fn law_a_schedule_commands_its_day(
    schedule: Schedule,
    date: (u16, u8, u8, u8),
    time: (u8, u8, u8, u8),
    covered: spec_fn(ObjectIdentifier) -> bool,
)
    ensures
        ({
            let value = schedule@.commanded(date, time, covered);
            let default = schedule.schedule_default.model();
            let events = schedule.exception_schedule@;
            let inside = (schedule.effective_period.start.0 == 255 || day_number(
                schedule.effective_period.start,
            ) <= day_number(date)) && (schedule.effective_period.end.0 == 255 || day_number(date)
                <= day_number(schedule.effective_period.end));
            &&& !inside ==> value == default
            &&& inside && (forall|i: int|
                0 <= i < events.len()
                    ==> !is_meant_for((#[trigger] events[i]).period, date, covered))
                ==> {
                &&& 1 <= date.3 <= 7 ==> is_commanded_by(
                    schedule::day_model(schedule.weekly_schedule@[date.3 - 1]),
                    time,
                    default,
                    value,
                )
                &&& !(1 <= date.3 <= 7) ==> value == default
            }
            &&& inside ==> forall|k: int|
                #![trigger events[k]]
                0 <= k < events.len() && is_meant_for(events[k].period, date, covered) && (forall|
                    i: int,
                |
                    0 <= i < events.len() && i != k && is_meant_for(
                        (#[trigger] events[i]).period,
                        date,
                        covered,
                    ) ==> events[k].priority < events[i].priority || (events[k].priority
                        == events[i].priority && k < i)) ==> is_commanded_by(
                    schedule::exception_model(events[k]).entries,
                    time,
                    default,
                    value,
                )
        }),
{
    let value = schedule@.commanded(date, time, covered);
    let default = schedule.schedule_default.model();
    let events = schedule.exception_schedule@;
    let shown = schedule@.exceptions;
    law_spans_cover_their_ends(schedule.effective_period, date);
    schedule::law_exception_in_force(shown, date, covered);
    assert forall|i: int| 0 <= i < events.len() implies (#[trigger] shown[i])
        == schedule::exception_model(events[i]) && shown[i].period == events[i].period
        && shown[i].priority == events[i].priority && is_meant_for(events[i].period, date, covered)
        == schedule::period_applies(shown[i].period, date, covered) by {}
    if schedule.effective_period.spans(date) {
        match schedule::exception_in_force(shown, date, covered) {
            Some(place) => {
                lemma_commanded_by(shown[place].entries, time, default);
                assert(is_meant_for(events[place].period, date, covered));
                assert forall|k: int|
                    #![trigger events[k]]
                    0 <= k < events.len() && is_meant_for(events[k].period, date, covered) && (
                    forall|i: int|
                        0 <= i < events.len() && i != k && is_meant_for(
                            (#[trigger] events[i]).period,
                            date,
                            covered,
                        ) ==> events[k].priority < events[i].priority || (events[k].priority
                            == events[i].priority && k < i)) implies is_commanded_by(
                    schedule::exception_model(events[k]).entries,
                    time,
                    default,
                    value,
                ) by {
                    assert(shown[k].priority == events[k].priority);
                    if k != place {
                        assert(events[place].priority == shown[place].priority);
                        assert(shown[place].priority <= shown[k].priority);
                        if k < place {
                            assert(shown[place].priority < shown[k].priority);
                        }
                    }
                }
            },
            None => {
                assert forall|i: int| 0 <= i < events.len() implies !is_meant_for(
                    (#[trigger] events[i]).period,
                    date,
                    covered,
                ) by {
                    assert(!schedule::period_applies(shown[i].period, date, covered));
                }
                if 1 <= date.3 <= 7 {
                    lemma_commanded_by(schedule@.week[date.3 - 1], time, default);
                }
            },
        }
    }
}

proof fn lemma_commanded_by(
    entries: Seq<TimeValueView>,
    time: (u8, u8, u8, u8),
    default: PropertyValueView,
)
    ensures
        is_commanded_by(
            entries,
            time,
            default,
            match schedule::latest_entry(entries, time) {
                Some(place) => entries[place].value,
                None => default,
            },
        ),
{
    schedule::law_latest_entry(entries, time);
    assert forall|a: (u8, u8, u8, u8), b: (u8, u8, u8, u8)| #[trigger] has_come(a, b) == (
    schedule::time_key(a) <= schedule::time_key(b)) by {
        lemma_times_in_order(a, b);
    }
    let found = schedule::latest_entry(entries, time);
    assert forall|place: int| #[trigger] rules(entries, time, place) implies (match found {
        Some(found) => entries[found].value,
        None => default,
    }) == entries[place].value by {
        assert(has_come(entries[place].time, time));
        assert(schedule::time_key(entries[place].time) <= schedule::time_key(time));
        let at = found->Some_0;
        assert(has_come(entries[at].time, time));
        assert(has_come(entries[at].time, entries[place].time));
        assert(schedule::time_key(entries[place].time) <= schedule::time_key(entries[at].time));
        lemma_same_time(entries[at].time, entries[place].time);
        if place < at {
            assert(entries[at].time != entries[place].time);
        }
        if at < place {
            assert(schedule::time_key(entries[place].time) < schedule::time_key(entries[at].time));
        }
    }
    if forall|i: int| 0 <= i < entries.len() ==> !has_come((#[trigger] entries[i]).time, time) {
        if let Some(at) = found {
            assert(has_come(entries[at].time, time));
        }
    }
}

proof fn lemma_times_in_order(a: (u8, u8, u8, u8), b: (u8, u8, u8, u8))
    ensures
        has_come(a, b) == (schedule::time_key(a) <= schedule::time_key(b)),
{
}

proof fn lemma_same_time(a: (u8, u8, u8, u8), b: (u8, u8, u8, u8))
    ensures
        schedule::time_key(a) == schedule::time_key(b) ==> a == b,
{
}

// ---------------------------------------------------------------------------
// What becomes of it
// ---------------------------------------------------------------------------

/// A schedule in service whose value changed, or that was never driven, takes the value
/// it commands, and then writes it to each of its targets, in their order, at its
/// priority for writing. In any other case nothing is written and nothing changes.
pub proof fn law_a_new_value_reaches_every_target<T: Hostable>(
    database: DatabaseView<T>,
    primed: Set<ObjectIdentifier>,
    identifier: ObjectIdentifier,
    date: (u16, u8, u8, u8),
    time: (u8, u8, u8, u8),
    covered: spec_fn(ObjectIdentifier) -> bool,
    step: ScheduleStep<T>,
    schedule: Schedule,
)
    requires
        engine::schedule_evaluated(database, primed, identifier, date, time, covered, step),
        database.has(identifier),
        database.object(identifier).as_schedule() == Some(schedule),
    ensures
        ({
            let value = schedule@.commanded(date, time, covered);
            let targets = schedule.list_of_object_property_references@;
            let due = !schedule.out_of_service && (!primed.contains(identifier) || !value.same(
                schedule.present_value.model(),
            ));
            &&& !due ==> step.database == database && step.primed == primed && step.writes.len()
                == 0
            &&& due ==> {
                &&& step.primed == primed.insert(identifier)
                &&& step.writes.len() == targets.len()
                &&& forall|k: int|
                    0 <= k < targets.len() ==> {
                        let write = #[trigger] step.writes[k];
                        &&& write.schedule == identifier
                        &&& write.target == targets[k]
                        &&& write.value == value
                        &&& write.priority == schedule.priority_for_writing
                    }
                &&& targets.len() == 0 ==> exists|kept: PropertyValue|
                    #![trigger kept.model()]
                    kept.model() == value && step.database == database.with_object(
                        identifier,
                        database.object(identifier).with_schedule(
                            Schedule { present_value: kept, ..schedule },
                        ),
                    )
            }
        }),
{
    let value = schedule@.commanded(date, time, covered);
    let due = !schedule.out_of_service && (!primed.contains(identifier) || !value.same(
        schedule.present_value.model(),
    ));
    if due {
        let committed = choose|committed: DatabaseView<T>|
            #![trigger engine::schedule_committed(database, committed, identifier, schedule, value)]
            engine::schedule_committed(database, committed, identifier, schedule, value)
                && engine::targets_written(
                committed,
                step.database,
                identifier,
                schedule@.targets,
                value,
                schedule@.priority_for_writing,
                step.writes,
            );
        lemma_targets(
            committed,
            step.database,
            identifier,
            schedule@.targets,
            value,
            schedule@.priority_for_writing,
            step.writes,
        );
    }
}

/// Each write of a schedule is a write of the value to the target's property at the
/// schedule's priority, and counts as applied exactly where the target took it.
pub proof fn law_targets_are_written_as_commanded<T: Hostable>(
    before: DatabaseView<T>,
    after: DatabaseView<T>,
    target: ObjectPropertyReference,
    value: PropertyValueView,
    priority: u8,
    applied: bool,
)
    requires
        engine::target_written(before, after, target, value, priority, applied),
    ensures
        exists|written: PropertyValue|
            #![trigger written.model()]
            written.model() == value && (if applied {
                before.writing(
                    after,
                    target.object_identifier,
                    target.property_identifier,
                    written,
                    Some(priority),
                    Ok(()),
                )
            } else {
                exists|error: ObjectErrorView| #[trigger]
                    before.writing(
                        after,
                        target.object_identifier,
                        target.property_identifier,
                        written,
                        Some(priority),
                        Err(error),
                    )
            }),
{
    let (written, outcome) = choose|
        written: PropertyValue,
        outcome: Result<(), ObjectErrorView>,
    |
        written.model() == value && applied == (outcome is Ok) && #[trigger] before.writing(
            after,
            target.object_identifier,
            target.property_identifier,
            written,
            Some(priority),
            outcome,
        );
    assert(written.model() == value);
    match outcome {
        Ok(nothing) => {
            assert(nothing == ());
            assert(before.writing(
                after,
                target.object_identifier,
                target.property_identifier,
                written,
                Some(priority),
                Ok(nothing),
            ));
        },
        Err(error) => {
            assert(before.writing(
                after,
                target.object_identifier,
                target.property_identifier,
                written,
                Some(priority),
                Err(error),
            ));
        },
    }
}

proof fn lemma_targets<T: Hostable>(
    before: DatabaseView<T>,
    after: DatabaseView<T>,
    schedule: ObjectIdentifier,
    targets: Seq<ObjectPropertyReference>,
    value: PropertyValueView,
    priority: u8,
    writes: Seq<WriteView>,
)
    requires
        engine::targets_written(before, after, schedule, targets, value, priority, writes),
    ensures
        writes.len() == targets.len(),
        targets.len() == 0 ==> after == before,
        forall|k: int|
            0 <= k < writes.len() ==> {
                let write = #[trigger] writes[k];
                &&& write.schedule == schedule
                &&& write.target == targets[k]
                &&& write.value == value
                &&& write.priority == priority
            },
    decreases targets.len(),
{
    if targets.len() > 0 {
        let last = writes.last();
        let between = choose|between: DatabaseView<T>|
            #![trigger engine::target_written(
                between, after, targets.last(), value, priority, last.applied)]
            engine::targets_written(
                before,
                between,
                schedule,
                targets.drop_last(),
                value,
                priority,
                writes.drop_last(),
            ) && engine::target_written(
                between,
                after,
                targets.last(),
                value,
                priority,
                last.applied,
            );
        lemma_targets(
            before,
            between,
            schedule,
            targets.drop_last(),
            value,
            priority,
            writes.drop_last(),
        );
        assert forall|k: int| 0 <= k < writes.len() implies {
            let write = #[trigger] writes[k];
            &&& write.schedule == schedule
            &&& write.target == targets[k]
            &&& write.value == value
            &&& write.priority == priority
        } by {
            if k < writes.len() - 1 {
                assert(writes[k] == writes.drop_last()[k]);
            }
        }
    }
}

/// Whether `turn` is the evaluation of `schedule` after `before`, and all it wrote is among
/// `writes`.
pub open spec fn takes_its_turn<T: Hostable>(
    before: ScheduleStep<T>,
    schedule: ObjectIdentifier,
    date: (u16, u8, u8, u8),
    time: (u8, u8, u8, u8),
    covered: spec_fn(ObjectIdentifier) -> bool,
    turn: ScheduleStep<T>,
    writes: Seq<WriteView>,
) -> bool {
    &&& engine::schedule_evaluated(
        before.database,
        before.primed,
        schedule,
        date,
        time,
        covered,
        turn,
    )
    &&& forall|i: int| 0 <= i < turn.writes.len() ==> writes.contains(#[trigger] turn.writes[i])
}

/// A tick evaluates every schedule that is listed, in turn: each one's writes are among
/// what the tick wrote.
pub proof fn law_every_schedule_has_its_turn<T: Hostable>(
    database: DatabaseView<T>,
    primed: Set<ObjectIdentifier>,
    identifiers: Seq<ObjectIdentifier>,
    date: (u16, u8, u8, u8),
    time: (u8, u8, u8, u8),
    covered: spec_fn(ObjectIdentifier) -> bool,
    step: ScheduleStep<T>,
    k: int,
)
    requires
        engine::schedules_evaluated(database, primed, identifiers, date, time, covered, step),
        0 <= k < identifiers.len(),
    ensures
        exists|before: ScheduleStep<T>, turn: ScheduleStep<T>|
            #[trigger] takes_its_turn(
                before,
                identifiers[k],
                date,
                time,
                covered,
                turn,
                step.writes,
            ) && (k == 0 ==> before.database == database && before.primed == primed),
    decreases identifiers.len(),
{
    let shorter = identifiers.drop_last();
    let (earlier, last) = choose|earlier: ScheduleStep<T>, last: ScheduleStep<T>|
        engine::schedules_evaluated(database, primed, shorter, date, time, covered, earlier)
            && engine::schedule_evaluated(
            earlier.database,
            earlier.primed,
            identifiers.last(),
            date,
            time,
            covered,
            last,
        ) && step == #[trigger] engine::joined(earlier, last);
    assert(step.writes == earlier.writes + last.writes);
    if k == identifiers.len() - 1 {
        assert forall|i: int| 0 <= i < last.writes.len() implies step.writes.contains(
            #[trigger] last.writes[i],
        ) by {
            assert(step.writes[earlier.writes.len() + i] == last.writes[i]);
        }
        assert(takes_its_turn(earlier, identifiers[k], date, time, covered, last, step.writes));
    } else {
        law_every_schedule_has_its_turn(
            database,
            primed,
            shorter,
            date,
            time,
            covered,
            earlier,
            k,
        );
        let (before, turn) = choose|before: ScheduleStep<T>, turn: ScheduleStep<T>|
            #[trigger] takes_its_turn(
                before,
                shorter[k],
                date,
                time,
                covered,
                turn,
                earlier.writes,
            ) && (k == 0 ==> before.database == database && before.primed == primed);
        assert forall|i: int| 0 <= i < turn.writes.len() implies step.writes.contains(
            #[trigger] turn.writes[i],
        ) by {
            let at = earlier.writes.index_of(turn.writes[i]);
            assert(step.writes[at] == turn.writes[i]);
        }
        assert(takes_its_turn(before, identifiers[k], date, time, covered, turn, step.writes));
    }
}

} // verus!
