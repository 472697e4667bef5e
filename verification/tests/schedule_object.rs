use bacnet_rs::number::Real;
use bacnet_rs::object::{
    BacnetObject, ObjectError, ObjectIdentifier, ObjectType, PropertyIdentifier, Schedule,
};
use bacnet_rs::property::{
    CalendarEntryValue, DailyScheduleValue, DateRangeValue, PropertyValue, SpecialEventPeriod,
    SpecialEventValue, TimeValueValue, ANY, UNSPECIFIED_YEAR,
};

fn number(value: f32) -> Real {
    Real::from_bits(value.to_bits())
}

/// 2026-07-30 is a Thursday, BACnet weekday 4.
const THURSDAY: (u16, u8, u8, u8) = (2026, 7, 30, 4);
/// 2026-08-01 is a Saturday, BACnet weekday 6.
const SATURDAY: (u16, u8, u8, u8) = (2026, 8, 1, 6);

fn never_a_calendar(_: ObjectIdentifier) -> bool {
    false
}

fn time_value(hour: u8, value: f32) -> TimeValueValue {
    TimeValueValue {
        time: (hour, 0, 0, 0),
        value: Box::new(PropertyValue::Real(number(value))),
    }
}

/// Weekdays run 21 degrees from 06:00 and 18 from 18:00; the weekend is bare.
fn office_hours() -> Schedule {
    let weekday = DailyScheduleValue {
        time_values: vec![time_value(6, 21.0), time_value(18, 18.0)],
    };
    let empty = DailyScheduleValue {
        time_values: Vec::new(),
    };
    let days = core::array::from_fn(|day| {
        if day < 5 {
            weekday.clone()
        } else {
            empty.clone()
        }
    });

    Schedule::new(1, "Office hours".to_string())
        .with_description("Zone temperature setpoint schedule".to_string())
        .with_default(PropertyValue::Real(number(16.0)))
        .with_weekly_schedule(days)
}

#[test]
fn the_weekly_schedule_holds_a_value_until_the_next_entry() {
    let schedule = office_hours();

    assert_eq!(
        schedule.value_at(THURSDAY, (5, 59, 0, 0), &never_a_calendar),
        PropertyValue::Real(number(16.0)),
        "before the first entry, the default applies"
    );
    assert_eq!(
        schedule.value_at(THURSDAY, (6, 0, 0, 0), &never_a_calendar),
        PropertyValue::Real(number(21.0))
    );
    assert_eq!(
        schedule.value_at(THURSDAY, (17, 59, 0, 0), &never_a_calendar),
        PropertyValue::Real(number(21.0))
    );
    assert_eq!(
        schedule.value_at(THURSDAY, (23, 59, 0, 0), &never_a_calendar),
        PropertyValue::Real(number(18.0))
    );
}

#[test]
fn a_day_with_no_entries_falls_back_to_the_default() {
    let schedule = office_hours();

    assert_eq!(
        schedule.value_at(SATURDAY, (12, 0, 0, 0), &never_a_calendar),
        PropertyValue::Real(number(16.0))
    );
}

#[test]
fn an_exception_overrides_the_weekly_schedule_for_that_day() {
    let schedule = office_hours().with_exception(SpecialEventValue {
        period: SpecialEventPeriod::CalendarEntry(CalendarEntryValue::Date(
            UNSPECIFIED_YEAR,
            7,
            30,
            ANY,
        )),
        time_values: vec![time_value(0, 15.0)],
        priority: 8,
    });

    assert_eq!(
        schedule.value_at(THURSDAY, (12, 0, 0, 0), &never_a_calendar),
        PropertyValue::Real(number(15.0))
    );
    assert_eq!(
        schedule.value_at((2026, 7, 29, 3), (12, 0, 0, 0), &never_a_calendar),
        PropertyValue::Real(number(21.0)),
        "the day before is unaffected"
    );
}

#[test]
fn the_lowest_numbered_exception_priority_wins() {
    let today = |priority, value| SpecialEventValue {
        period: SpecialEventPeriod::CalendarEntry(CalendarEntryValue::Date(
            UNSPECIFIED_YEAR,
            7,
            30,
            ANY,
        )),
        time_values: vec![time_value(0, value)],
        priority,
    };
    let schedule = office_hours()
        .with_exception(today(10, 15.0))
        .with_exception(today(3, 12.0))
        .with_exception(today(7, 14.0));

    assert_eq!(
        schedule.value_at(THURSDAY, (12, 0, 0, 0), &never_a_calendar),
        PropertyValue::Real(number(12.0))
    );
}

/// An exception with no time values means "nothing is scheduled today",
/// which is how a holiday shuts the weekly profile off.
#[test]
fn an_empty_exception_suppresses_the_weekly_schedule() {
    let schedule = office_hours().with_exception(SpecialEventValue {
        period: SpecialEventPeriod::CalendarEntry(CalendarEntryValue::Date(
            UNSPECIFIED_YEAR,
            7,
            30,
            ANY,
        )),
        time_values: Vec::new(),
        priority: 8,
    });

    assert_eq!(
        schedule.value_at(THURSDAY, (12, 0, 0, 0), &never_a_calendar),
        PropertyValue::Real(number(16.0))
    );
}

#[test]
fn an_exception_can_defer_to_a_calendar_object() {
    let holidays = ObjectIdentifier::new(ObjectType::Calendar, 1);
    let schedule = office_hours().with_exception(SpecialEventValue {
        period: SpecialEventPeriod::CalendarReference(holidays),
        time_values: vec![time_value(0, 10.0)],
        priority: 8,
    });

    assert_eq!(
        schedule.value_at(THURSDAY, (12, 0, 0, 0), &|calendar| calendar == holidays),
        PropertyValue::Real(number(10.0))
    );
    assert_eq!(
        schedule.value_at(THURSDAY, (12, 0, 0, 0), &never_a_calendar),
        PropertyValue::Real(number(21.0)),
        "the calendar does not cover today"
    );
}

#[test]
fn outside_the_effective_period_only_the_default_applies() {
    let schedule = office_hours().with_effective_period(DateRangeValue {
        start: (2026, 1, 1, ANY),
        end: (2026, 6, 30, ANY),
    });

    assert_eq!(
        schedule.value_at(THURSDAY, (12, 0, 0, 0), &never_a_calendar),
        PropertyValue::Real(number(16.0))
    );
    assert_eq!(
        schedule.value_at((2026, 6, 30, 2), (12, 0, 0, 0), &never_a_calendar),
        PropertyValue::Real(number(21.0)),
        "the last effective day still runs"
    );
}

#[test]
fn description_is_writable_and_read_back() {
    let mut schedule = Schedule::new(1, "S".to_string());
    assert!(schedule.is_property_writable(PropertyIdentifier::Description));

    schedule
        .set_property(
            PropertyIdentifier::Description,
            PropertyValue::CharacterString("Heating".to_string()),
        )
        .unwrap();

    assert_eq!(
        schedule
            .get_property(PropertyIdentifier::Description)
            .unwrap(),
        PropertyValue::CharacterString("Heating".to_string())
    );
}

#[test]
fn present_value_is_writable_only_while_out_of_service() {
    let mut schedule = office_hours();
    assert!(!schedule.is_property_writable(PropertyIdentifier::PresentValue));
    assert!(matches!(
        schedule.set_property(PropertyIdentifier::PresentValue, PropertyValue::Real(number(30.0))),
        Err(ObjectError::WriteAccessDenied)
    ));

    schedule
        .set_property(
            PropertyIdentifier::OutOfService,
            PropertyValue::Boolean(true),
        )
        .unwrap();

    assert!(schedule.is_property_writable(PropertyIdentifier::PresentValue));
    schedule
        .set_property(PropertyIdentifier::PresentValue, PropertyValue::Real(number(30.0)))
        .unwrap();
    assert_eq!(
        schedule
            .get_property(PropertyIdentifier::PresentValue)
            .unwrap(),
        PropertyValue::Real(number(30.0))
    );
}

#[test]
fn the_weekly_schedule_round_trips_through_its_property() {
    let source = office_hours();
    let mut target = Schedule::new(2, "Copy".to_string());

    let week = source
        .get_property(PropertyIdentifier::WeeklySchedule)
        .unwrap();
    target
        .set_property(PropertyIdentifier::WeeklySchedule, week)
        .unwrap();

    assert_eq!(target.weekly_schedule, source.weekly_schedule);
}

#[test]
fn a_weekly_schedule_of_the_wrong_length_is_rejected() {
    let mut schedule = Schedule::new(1, "S".to_string());

    assert!(matches!(
        schedule.set_property(
            PropertyIdentifier::WeeklySchedule,
            PropertyValue::Array(vec![PropertyValue::DailySchedule(DailyScheduleValue {
                time_values: Vec::new(),
            })]),
        ),
        Err(ObjectError::InvalidValue(_))
    ));
}

#[test]
fn priority_for_writing_stays_within_the_command_range() {
    let mut schedule = Schedule::new(1, "S".to_string());

    schedule
        .set_property(
            PropertyIdentifier::PriorityForWriting,
            PropertyValue::Unsigned(8),
        )
        .unwrap();
    assert_eq!(schedule.priority_for_writing, 8);

    assert!(matches!(
        schedule.set_property(
            PropertyIdentifier::PriorityForWriting,
            PropertyValue::Unsigned(17),
        ),
        Err(ObjectError::InvalidValue(_))
    ));
}

#[test]
fn effective_period_also_accepts_two_plain_dates() {
    let mut schedule = Schedule::new(1, "S".to_string());

    schedule
        .set_property(
            PropertyIdentifier::EffectivePeriod,
            PropertyValue::List(vec![
                PropertyValue::Date(2026, 1, 1, ANY),
                PropertyValue::Date(2026, 12, 31, ANY),
            ]),
        )
        .unwrap();

    assert_eq!(
        schedule
            .get_property(PropertyIdentifier::EffectivePeriod)
            .unwrap(),
        PropertyValue::DateRange(DateRangeValue {
            start: (2026, 1, 1, ANY),
            end: (2026, 12, 31, ANY),
        })
    );
}
