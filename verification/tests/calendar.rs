use bacnet_rs::object::{BacnetObject, Calendar, ObjectError, PropertyIdentifier};
use bacnet_rs::property::{
    CalendarEntryValue, DateRangeValue, PropertyValue, ANY, UNSPECIFIED_YEAR,
};

fn holidays() -> Calendar {
    Calendar::new(1, "Norwegian holidays".to_string())
        .with_description("Days the building runs unoccupied".to_string())
        // Christmas Eve, every year.
        .with_entry(CalendarEntryValue::Date(UNSPECIFIED_YEAR, 12, 24, ANY))
        // The summer shutdown.
        .with_entry(CalendarEntryValue::DateRange(DateRangeValue {
            start: (2026, 7, 6, ANY),
            end: (2026, 7, 26, ANY),
        }))
}

#[test]
fn a_date_inside_any_entry_is_covered() {
    let calendar = holidays();

    assert!(calendar.covers((2026, 12, 24, 4)));
    assert!(calendar.covers((2030, 12, 24, 2)), "wildcard year");
    assert!(calendar.covers((2026, 7, 6, 1)), "first shutdown day");
    assert!(calendar.covers((2026, 7, 26, 7)), "last shutdown day");
    assert!(!calendar.covers((2026, 7, 27, 1)));
    assert!(!calendar.covers((2026, 12, 25, 5)));
}

#[test]
fn refresh_reports_only_the_transitions() {
    let mut calendar = holidays();
    assert!(!calendar.present_value);

    assert!(calendar.refresh((2026, 12, 24, 4)), "entered a holiday");
    assert!(calendar.present_value);
    assert!(!calendar.refresh((2026, 12, 24, 4)), "still the same day");

    assert!(calendar.refresh((2026, 12, 25, 5)), "left the holiday");
    assert!(!calendar.present_value);
}

#[test]
fn present_value_reads_back_as_a_boolean() {
    let mut calendar = holidays();
    calendar.refresh((2026, 12, 24, 4));

    assert_eq!(
        calendar
            .get_property(PropertyIdentifier::PresentValue)
            .unwrap(),
        PropertyValue::Boolean(true)
    );
}

#[test]
fn the_date_list_round_trips_through_its_property() {
    let source = holidays();
    let mut target = Calendar::new(2, "Copy".to_string());
    assert!(target.is_property_writable(PropertyIdentifier::DateList));

    let list = source.get_property(PropertyIdentifier::DateList).unwrap();
    target
        .set_property(PropertyIdentifier::DateList, list)
        .unwrap();

    assert_eq!(target.date_list, source.date_list);
}

#[test]
fn a_list_of_plain_dates_is_accepted_as_calendar_entries() {
    let mut calendar = Calendar::new(1, "Holidays".to_string());

    calendar
        .set_property(
            PropertyIdentifier::DateList,
            PropertyValue::List(vec![PropertyValue::Date(2026, 5, 17, ANY)]),
        )
        .unwrap();

    assert_eq!(
        calendar.date_list,
        vec![CalendarEntryValue::Date(2026, 5, 17, ANY)]
    );
    assert!(calendar.covers((2026, 5, 17, 7)));
}

#[test]
fn present_value_is_not_writable() {
    let mut calendar = holidays();
    assert!(!calendar.is_property_writable(PropertyIdentifier::PresentValue));
    assert!(matches!(
        calendar.set_property(
            PropertyIdentifier::PresentValue,
            PropertyValue::Boolean(true)
        ),
        Err(ObjectError::PropertyNotWritable)
    ));
}
