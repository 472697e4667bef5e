use bacnet_rs::event::EventEngine;
use bacnet_rs::number::Real;
use bacnet_rs::object::{
    AnalogValue, BacnetObject, Calendar, DatabaseBuilder, Device, EitherObject, EventState,
    Hostable, HostedObject, MultiStateValue, NotificationClass, ObjectDatabase, ObjectError,
    ObjectIdentifier, ObjectType, PropertyIdentifier, Schedule,
};
use bacnet_rs::property::{PropertyValue, TimestampValue};
use bacnet_rs::schedule::ScheduleEngine;

/// What a panel and its extension host.
type PanelObject = EitherObject<HostedObject, HostedObject>;

fn number(value: f32) -> PropertyValue {
    PropertyValue::Real(Real::from_bits(value.to_bits()))
}

fn value_id(instance: u32) -> ObjectIdentifier {
    ObjectIdentifier::new(ObjectType::AnalogValue, instance)
}

fn value(instance: u32, name: &str) -> HostedObject {
    HostedObject::AnalogValue(AnalogValue::new(instance, name.to_string()))
}

fn panel() -> ObjectDatabase<PanelObject> {
    let mut database = ObjectDatabase::for_device(Device::new(1234, "Panel".to_string()));
    database.add_object(EitherObject::First(value(1, "Inside"))).unwrap();
    database.add_object(EitherObject::Second(value(2, "Outside"))).unwrap();
    database
}

#[test]
fn a_database_hosts_objects_of_two_types() {
    let mut database = panel();

    assert_eq!(database.object_count(), 3);
    assert_eq!(database.revision(), 3);
    assert_eq!(
        database.get_all_objects(),
        vec![value_id(1), value_id(2), ObjectIdentifier::new(ObjectType::Device, 1234)]
    );
    assert_eq!(database.get_objects_by_type(ObjectType::AnalogValue), vec![value_id(1), value_id(2)]);
    for instance in [1, 2] {
        database
            .set_property(value_id(instance), PropertyIdentifier::PresentValue, number(21.5))
            .unwrap();
        let read = database
            .get_property(value_id(instance), PropertyIdentifier::PresentValue)
            .unwrap();
        assert!(read.same_as(&number(21.5)));
    }
    database.remove_object(value_id(2)).unwrap();
    assert!(!database.contains(value_id(2)));
    assert!(database.contains(value_id(1)));
}

#[test]
fn names_stay_unique_across_both_types() {
    let mut database = panel();

    assert_eq!(
        database.add_object(EitherObject::First(value(3, "Outside"))),
        Err(ObjectError::InvalidValue(format!(
            "Object name \"Outside\" is already used by {}",
            value_id(2).show()
        )))
    );
    assert_eq!(
        database.set_property(
            value_id(2),
            PropertyIdentifier::ObjectName,
            PropertyValue::CharacterString("Inside".to_string()),
        ),
        Err(ObjectError::InvalidValue("Object name \"Inside\" is already in use".to_string()))
    );
    database
        .set_property(
            value_id(2),
            PropertyIdentifier::ObjectName,
            PropertyValue::CharacterString("Roof".to_string()),
        )
        .unwrap();
    assert_eq!(database.revision(), 4);
}

#[test]
fn a_schedule_of_one_type_drives_an_object_of_the_other() {
    let schedule = Schedule::new(1, "Night".to_string())
        .with_default(number(16.0))
        .with_target(value_id(1), PropertyIdentifier::PresentValue);
    let mut database: ObjectDatabase<PanelObject> = DatabaseBuilder::default()
        .with_device(Device::new(1234, "Panel".to_string()))
        .add_object(EitherObject::First(value(1, "Inside")))
        .add_object(EitherObject::Second(HostedObject::Schedule(schedule)))
        .add_object(EitherObject::Second(HostedObject::Calendar(Calendar::new(
            1,
            "Holidays".to_string(),
        ))))
        .build()
        .unwrap();

    let mut engine = ScheduleEngine::new();
    let writes = engine.tick(&mut database, (2026, 7, 30, 4), (12, 0, 0, 0));

    assert_eq!(writes.len(), 1);
    assert!(writes[0].applied);
    let read = database.get_property(value_id(1), PropertyIdentifier::PresentValue).unwrap();
    assert!(read.same_as(&number(16.0)));
    assert!(engine.tick(&mut database, (2026, 7, 30, 4), (13, 0, 0, 0)).is_empty());
}

#[test]
fn an_event_of_one_type_is_told_through_a_class_of_the_other() {
    let mut database = panel();
    database
        .add_object(EitherObject::First(HostedObject::NotificationClass(
            NotificationClass::new(1, "Alarms".to_string())
                .with_priority(90, 10, 200)
                .with_recipient(ObjectIdentifier::new(ObjectType::Device, 5785), 777),
        )))
        .unwrap();
    database
        .add_object(EitherObject::Second(HostedObject::MultiStateValue(
            MultiStateValue::new(1, "Mode".to_string(), 5).with_intrinsic_reporting(1, vec![2]),
        )))
        .unwrap();
    let mode = ObjectIdentifier::new(ObjectType::MultiStateValue, 1);
    database
        .set_property(mode, PropertyIdentifier::PresentValue, PropertyValue::Unsigned(2))
        .unwrap();

    let mut engine = EventEngine::new(1234);
    let told = engine.tick(&mut database, 0, TimestampValue::SequenceNumber(1));

    assert_eq!(told.len(), 1);
    assert_eq!(told[0].notification.event_object, mode);
    assert_eq!(told[0].notification.to_state, EventState::Offnormal);
    assert_eq!(told[0].notification.priority, 90);
    assert_eq!(told[0].notification.process_identifier, 777);
    assert!(engine.tick(&mut database, 1, TimestampValue::SequenceNumber(2)).is_empty());
}

#[test]
fn an_object_of_either_type_answers_for_itself() {
    let mut first: PanelObject = EitherObject::First(value(1, "Inside"));
    let mut second: PanelObject = EitherObject::Second(HostedObject::Schedule(Schedule::new(
        7,
        "Night".to_string(),
    )));
    assert_eq!(first.identifier(), value_id(1));
    assert_eq!(first.object_name(), "Inside");
    assert!(first.schedule().is_none());
    assert!(first.schedule_mut().is_none());
    assert!(first.calendar_mut().is_none());
    assert!(first.notification_class().is_none());
    assert_eq!(second.identifier(), ObjectIdentifier::new(ObjectType::Schedule, 7));
    assert_eq!(second.schedule().unwrap().object_name, "Night");
    second.schedule_mut().unwrap().out_of_service = true;
    assert!(second.is_out_of_service());
    assert!(!first.is_out_of_service());
}
