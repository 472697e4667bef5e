use bacnet_rs::number::Real;
use bacnet_rs::object::{
    AnalogValue, Calendar, Device, HostedObject, ObjectDatabase, ObjectIdentifier, ObjectType,
    PropertyIdentifier, Reliability, Schedule,
};
use bacnet_rs::property::{
    CalendarEntryValue, DailyScheduleValue, DateRangeValue, PropertyValue, SpecialEventPeriod,
    SpecialEventValue, TimeValueValue, ANY, UNSPECIFIED_YEAR,
};
use bacnet_rs::schedule::ScheduleEngine;

fn number(value: f32) -> Real {
    Real::from_bits(value.to_bits())
}

/// 2026-07-30 is a Thursday, BACnet weekday 4.
const THURSDAY: (u16, u8, u8, u8) = (2026, 7, 30, 4);
/// 2026-08-01 is a Saturday, BACnet weekday 6.
const SATURDAY: (u16, u8, u8, u8) = (2026, 8, 1, 6);

const SETPOINT: u32 = 1;
const SCHEDULE: u32 = 1;
const CALENDAR: u32 = 1;

fn setpoint() -> ObjectIdentifier {
    ObjectIdentifier::new(ObjectType::AnalogValue, SETPOINT)
}

fn schedule_id() -> ObjectIdentifier {
    ObjectIdentifier::new(ObjectType::Schedule, SCHEDULE)
}

fn calendar_id() -> ObjectIdentifier {
    ObjectIdentifier::new(ObjectType::Calendar, CALENDAR)
}

fn time_value(hour: u8, value: f32) -> TimeValueValue {
    TimeValueValue {
        time: (hour, 0, 0, 0),
        value: Box::new(PropertyValue::Real(number(value))),
    }
}

/// Weekdays run 21 from 06:00 and 18 from 18:00; the weekend is bare, so it
/// falls back to the 16 degree default.
fn office_hours() -> Schedule {
    let weekday = DailyScheduleValue {
        time_values: vec![time_value(6, 21.0), time_value(18, 18.0)],
    };
    let empty = DailyScheduleValue {
        time_values: Vec::new(),
    };
    let days = core::array::from_fn(|day| {
        if day < 5 {
            weekday.clone()
        } else {
            empty.clone()
        }
    });

    Schedule::new(SCHEDULE, "Office hours".to_string())
        .with_default(PropertyValue::Real(number(16.0)))
        .with_weekly_schedule(days)
        .with_target(setpoint(), PropertyIdentifier::PresentValue)
}

fn database_with(schedule: Schedule) -> ObjectDatabase {
    let mut database = ObjectDatabase::new(Device::new(1234, "Test".to_string()));
    let mut value = AnalogValue::new(SETPOINT, "Zone setpoint".to_string());
    value.present_value = number(0.0);
    database.add_object(HostedObject::AnalogValue(value)).unwrap();
    database.add_object(HostedObject::Schedule(schedule)).unwrap();
    database
}

fn present_value(database: &ObjectDatabase, identifier: ObjectIdentifier) -> PropertyValue {
    database
        .get_property(identifier, PropertyIdentifier::PresentValue)
        .unwrap()
}

#[test]
fn the_first_tick_primes_the_target_even_when_the_value_is_unchanged() {
    let mut database = database_with(office_hours());
    let mut engine = ScheduleEngine::new();

    // 05:00 on a weekday resolves to the default, which the schedule
    // already reports; the target has never heard it.
    let writes = engine.tick(&mut database, THURSDAY, (5, 0, 0, 0));

    assert_eq!(writes.len(), 1);
    assert_eq!(writes[0].value, PropertyValue::Real(number(16.0)));
    assert!(writes[0].applied);
    assert_eq!(
        present_value(&database, setpoint()),
        PropertyValue::Real(number(16.0))
    );
}

#[test]
fn an_unchanged_value_writes_nothing_after_the_first_tick() {
    let mut database = database_with(office_hours());
    let mut engine = ScheduleEngine::new();

    assert_eq!(engine.tick(&mut database, THURSDAY, (7, 0, 0, 0)).len(), 1);
    assert!(engine.tick(&mut database, THURSDAY, (8, 0, 0, 0)).is_empty());
    assert!(engine.tick(&mut database, THURSDAY, (17, 59, 0, 0)).is_empty());
}

#[test]
fn crossing_a_time_value_writes_the_new_value_to_the_target() {
    let mut database = database_with(office_hours());
    let mut engine = ScheduleEngine::new();

    engine.tick(&mut database, THURSDAY, (7, 0, 0, 0));
    assert_eq!(
        present_value(&database, setpoint()),
        PropertyValue::Real(number(21.0))
    );

    let writes = engine.tick(&mut database, THURSDAY, (18, 0, 0, 0));

    assert_eq!(writes.len(), 1);
    assert_eq!(writes[0].value, PropertyValue::Real(number(18.0)));
    assert_eq!(writes[0].priority, 16);
    assert_eq!(writes[0].target.object_identifier, setpoint());
    assert_eq!(
        present_value(&database, setpoint()),
        PropertyValue::Real(number(18.0))
    );
    assert_eq!(
        present_value(&database, schedule_id()),
        PropertyValue::Real(number(18.0)),
        "the schedule reports what it commands"
    );
}

#[test]
fn a_bare_weekend_falls_back_to_the_default() {
    let mut database = database_with(office_hours());
    let mut engine = ScheduleEngine::new();

    engine.tick(&mut database, THURSDAY, (12, 0, 0, 0));
    engine.tick(&mut database, SATURDAY, (12, 0, 0, 0));

    assert_eq!(
        present_value(&database, setpoint()),
        PropertyValue::Real(number(16.0))
    );
}

#[test]
fn the_configured_priority_reaches_the_target() {
    let mut database = database_with(office_hours().with_priority_for_writing(8));
    let mut engine = ScheduleEngine::new();

    let writes = engine.tick(&mut database, THURSDAY, (7, 0, 0, 0));

    assert_eq!(writes[0].priority, 8);
    // Priority 8 leaves 1-7 free to override the schedule.
    database
        .set_property_with_priority(
            setpoint(),
            PropertyIdentifier::PresentValue,
            PropertyValue::Real(number(30.0)),
            Some(4),
        )
        .unwrap();
    assert_eq!(
        present_value(&database, setpoint()),
        PropertyValue::Real(number(30.0))
    );
}

#[test]
fn a_calendar_reference_is_resolved_from_the_database() {
    let holiday = office_hours().with_exception(SpecialEventValue {
        period: SpecialEventPeriod::CalendarReference(calendar_id()),
        time_values: vec![time_value(0, 10.0)],
        priority: 8,
    });
    let mut database = database_with(holiday);
    database
        .add_object(HostedObject::Calendar(
            Calendar::new(CALENDAR, "Holidays".to_string()).with_entry(
                CalendarEntryValue::DateRange(DateRangeValue {
                    start: (2026, 7, 6, ANY),
                    end: (2026, 7, 31, ANY),
                }),
            ),
        ))
        .unwrap();
    let mut engine = ScheduleEngine::new();

    engine.tick(&mut database, THURSDAY, (12, 0, 0, 0));

    assert_eq!(
        present_value(&database, setpoint()),
        PropertyValue::Real(number(10.0)),
        "30 July is inside the shutdown"
    );
    assert_eq!(
        present_value(&database, calendar_id()),
        PropertyValue::Boolean(true),
        "the calendar was refreshed before the schedule was evaluated"
    );

    // A date outside the shutdown falls back to the weekly schedule.
    engine.tick(&mut database, (2026, 8, 6, 4), (12, 0, 0, 0));
    assert_eq!(
        present_value(&database, setpoint()),
        PropertyValue::Real(number(21.0))
    );
    assert_eq!(
        present_value(&database, calendar_id()),
        PropertyValue::Boolean(false)
    );
}

#[test]
fn an_inline_exception_overrides_the_weekly_schedule() {
    let mut database = database_with(office_hours().with_exception(SpecialEventValue {
        period: SpecialEventPeriod::CalendarEntry(CalendarEntryValue::Date(
            UNSPECIFIED_YEAR,
            7,
            30,
            ANY,
        )),
        time_values: Vec::new(),
        priority: 8,
    }));
    let mut engine = ScheduleEngine::new();

    engine.tick(&mut database, THURSDAY, (12, 0, 0, 0));

    assert_eq!(
        present_value(&database, setpoint()),
        PropertyValue::Real(number(16.0)),
        "an empty exception means nothing is scheduled today"
    );
}

#[test]
fn an_out_of_service_schedule_stops_driving_its_target() {
    let mut database = database_with(office_hours());
    let mut engine = ScheduleEngine::new();
    engine.tick(&mut database, THURSDAY, (7, 0, 0, 0));

    database
        .set_property(
            schedule_id(),
            PropertyIdentifier::OutOfService,
            PropertyValue::Boolean(true),
        )
        .unwrap();

    assert!(engine.tick(&mut database, THURSDAY, (18, 0, 0, 0)).is_empty());
    assert_eq!(
        present_value(&database, setpoint()),
        PropertyValue::Real(number(21.0)),
        "the target keeps what it was last told"
    );
}

#[test]
fn a_target_the_database_does_not_hold_is_reported_unapplied() {
    let elsewhere = ObjectIdentifier::new(ObjectType::AnalogValue, 99);
    let mut database =
        database_with(office_hours().with_target(elsewhere, PropertyIdentifier::PresentValue));
    let mut engine = ScheduleEngine::new();

    let writes = engine.tick(&mut database, THURSDAY, (7, 0, 0, 0));

    assert_eq!(writes.len(), 2);
    assert!(writes[0].applied, "the local setpoint");
    assert!(!writes[1].applied, "the absent object");
}

#[test]
fn objects_that_are_not_schedules_are_ignored() {
    let mut database = ObjectDatabase::new(Device::new(1234, "Test".to_string()));
    database
        .add_object(HostedObject::AnalogValue(AnalogValue::new(SETPOINT, "Value".to_string())))
        .unwrap();
    let mut engine = ScheduleEngine::new();

    assert!(engine.tick(&mut database, THURSDAY, (12, 0, 0, 0)).is_empty());
}

#[test]
fn a_faulted_schedule_still_reports_its_status_flags() {
    let mut database = database_with(office_hours());
    database
        .set_property(
            schedule_id(),
            PropertyIdentifier::Reliability,
            PropertyValue::Enumerated(u32::from(Reliability::ConfigurationError)),
        )
        .unwrap();

    assert_eq!(
        database
            .get_property(schedule_id(), PropertyIdentifier::StatusFlags)
            .unwrap(),
        PropertyValue::BitString(vec![false, true, false, false])
    );
}
