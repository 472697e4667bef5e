use bacnet_rs::number::Real;
use bacnet_rs::object::{
    AnalogInput, AnalogOutput, AnalogValue, BinaryInput, Calendar, DatabaseBuilder, Device, HostedObject, ObjectDatabase,
    ObjectError, ObjectIdentifier, ObjectType, PropertyIdentifier,
};
use bacnet_rs::property::PropertyValue;

fn number(value: f32) -> Real {
    Real::from_bits(value.to_bits())
}

#[test]
fn test_database_creation() {
    let device = Device::new(1234, "Test Device".to_string());
    let db = ObjectDatabase::new(device);

    assert_eq!(db.object_count(), 1);
    assert_eq!(db.revision(), 1);
    assert!(db.contains(ObjectIdentifier::new(ObjectType::Device, 1234)));
}

#[test]
fn test_add_remove_objects() {
    let device = Device::new(1234, "Test Device".to_string());
    let mut db = ObjectDatabase::new(device);

    // Add analog input
    let ai = AnalogInput::new(1, "Temperature".to_string());
    db.add_object(HostedObject::AnalogInput(ai)).unwrap();

    assert_eq!(db.object_count(), 2);
    assert_eq!(db.object_count_by_type(ObjectType::AnalogInput), 1);

    // Add binary input
    let bi = BinaryInput::new(1, "Door Sensor".to_string());
    db.add_object(HostedObject::BinaryInput(bi)).unwrap();

    assert_eq!(db.object_count(), 3);

    // Remove analog input
    let ai_id = ObjectIdentifier::new(ObjectType::AnalogInput, 1);
    db.remove_object(ai_id).unwrap();

    assert_eq!(db.object_count(), 2);
    assert_eq!(db.object_count_by_type(ObjectType::AnalogInput), 0);
}

#[test]
fn test_object_lookup() {
    let device = Device::new(1234, "Test Device".to_string());
    let mut db = ObjectDatabase::new(device);

    let av = AnalogValue::new(100, "Setpoint".to_string());
    db.add_object(HostedObject::AnalogValue(av)).unwrap();

    // Lookup by identifier
    let av_id = ObjectIdentifier::new(ObjectType::AnalogValue, 100);
    assert!(db.contains(av_id));

    // Lookup by name
    let found_id = db.get_object_by_name("Setpoint").unwrap();
    assert_eq!(found_id, av_id);

    db.set_property(
        av_id,
        PropertyIdentifier::ObjectName,
        PropertyValue::CharacterString("Occupied setpoint".to_string()),
    )
    .unwrap();
    assert!(matches!(
        db.get_object_by_name("Setpoint"),
        Err(ObjectError::NotFound)
    ));
    assert_eq!(db.get_object_by_name("Occupied setpoint").unwrap(), av_id);

    let other_id = ObjectIdentifier::new(ObjectType::AnalogValue, 101);
    db.add_object(HostedObject::AnalogValue(AnalogValue::new(
        101,
        "Unoccupied setpoint".to_string(),
    )))
    .unwrap();
    assert!(matches!(
        db.set_property(
            other_id,
            PropertyIdentifier::ObjectName,
            PropertyValue::CharacterString("Occupied setpoint".to_string()),
        ),
        Err(ObjectError::InvalidValue(_))
    ));
    assert_eq!(db.get_object_by_name("Occupied setpoint").unwrap(), av_id);
    assert_eq!(
        db.get_object_by_name("Unoccupied setpoint").unwrap(),
        other_id
    );

    assert!(matches!(
        db.add_object(HostedObject::AnalogValue(AnalogValue::new(
            102,
            "Occupied setpoint".to_string(),
        ))),
        Err(ObjectError::InvalidValue(_))
    ));

    // Lookup by type
    let objects = db.get_objects_by_type(ObjectType::AnalogValue);
    assert_eq!(objects.len(), 2);
    assert!(objects.contains(&av_id));
    assert!(objects.contains(&other_id));
    assert_eq!(
        db.object_types(),
        vec![ObjectType::AnalogValue, ObjectType::Device]
    );
}

#[test]
fn test_property_search() {
    let device = Device::new(1234, "Test Device".to_string());
    let mut db = ObjectDatabase::new(device);

    // Add multiple analog values
    for i in 0..5 {
        let mut av = AnalogValue::new(i, format!("AV{}", i));
        av.present_value = number(20.0 + i as f32);
        db.add_object(HostedObject::AnalogValue(av)).unwrap();
    }

    // Search for specific present value
    let results =
        db.search_by_property(PropertyIdentifier::PresentValue, &PropertyValue::Real(number(22.0)));

    assert_eq!(results.len(), 1);
    assert_eq!(results[0].instance, 2);
}

#[test]
fn test_database_builder() {
    let db = DatabaseBuilder::new()
        .with_device(Device::new(5000, "Built Device".to_string()))
        .add_object(HostedObject::AnalogInput(AnalogInput::new(1, "AI1".to_string())))
        .add_object(HostedObject::AnalogInput(AnalogInput::new(2, "AI2".to_string())))
        .add_object(HostedObject::BinaryInput(BinaryInput::new(1, "BI1".to_string())))
        .build()
        .unwrap();

    assert_eq!(db.object_count(), 4); // Device + 3 objects
    assert_eq!(db.object_count_by_type(ObjectType::AnalogInput), 2);
    assert_eq!(db.object_count_by_type(ObjectType::BinaryInput), 1);
}

#[test]
fn test_next_instance() {
    let device = Device::new(1234, "Test Device".to_string());
    let mut db = ObjectDatabase::new(device);

    // No analog inputs yet
    assert_eq!(db.next_instance(ObjectType::AnalogInput), 0);

    // Add some analog inputs
    db.add_object(HostedObject::AnalogInput(AnalogInput::new(5, "AI5".to_string())))
        .unwrap();
    db.add_object(HostedObject::AnalogInput(AnalogInput::new(10, "AI10".to_string())))
        .unwrap();
    db.add_object(HostedObject::AnalogInput(AnalogInput::new(3, "AI3".to_string())))
        .unwrap();

    // Next instance should be max + 1
    assert_eq!(db.next_instance(ObjectType::AnalogInput), 11);
}

fn hosting(instance: u32, name: &str) -> ObjectDatabase {
    let mut db = ObjectDatabase::new(Device::new(1234, "Test Device".to_string()));
    db.add_object(HostedObject::AnalogValue(AnalogValue::new(
        instance,
        name.to_string(),
    )))
    .unwrap();
    db
}

fn rename(db: &mut ObjectDatabase, identifier: ObjectIdentifier, name: &str) -> Result<(), ObjectError> {
    db.set_property(
        identifier,
        PropertyIdentifier::ObjectName,
        PropertyValue::CharacterString(name.to_string()),
    )
}

#[test]
fn an_identity_is_hosted_once() {
    let mut db = hosting(7, "First");
    assert_eq!(
        db.add_object(HostedObject::AnalogValue(AnalogValue::new(7, "Second".to_string()))),
        Err(ObjectError::InvalidConfiguration("Object 7 already exists".to_string()))
    );
    assert_eq!(db.object_count(), 2);
    assert_eq!(db.revision(), 2);
}

#[test]
fn a_name_is_given_once() {
    let mut db = hosting(7, "Flow \"A\"\n");
    let owner = ObjectIdentifier::new(ObjectType::AnalogValue, 7);
    assert_eq!(
        db.add_object(HostedObject::AnalogInput(AnalogInput::new(
            1,
            "Flow \"A\"\n".to_string()
        ))),
        Err(ObjectError::InvalidValue(format!(
            "Object name \"Flow \\\"A\\\"\\n\" is already used by {owner:?}"
        )))
    );
    let device = db.get_device_id();
    assert_eq!(
        rename(&mut db, device, "Flow \"A\"\n"),
        Err(ObjectError::InvalidValue(
            "Object name \"Flow \\\"A\\\"\\n\" is already in use".to_string()
        ))
    );
    assert_eq!(rename(&mut db, owner, "Flow \"A\"\n"), Ok(()));
}

#[test]
fn identifiers_show_their_type_and_instance() {
    for object_type in [
        ObjectType::AnalogInput,
        ObjectType::Device,
        ObjectType::MultiStateValue,
    ] {
        let identifier = ObjectIdentifier::new(object_type, 12);
        assert_eq!(identifier.show(), format!("{identifier:?}"));
    }
    assert_eq!(
        ObjectIdentifier::new(ObjectType::from(200), 12).show(),
        "ObjectIdentifier { object_type: Other(200), instance: 12 }"
    );
}

#[test]
fn the_device_cannot_be_removed() {
    let mut db = hosting(7, "Value");
    let device = db.get_device_id();
    assert_eq!(device, ObjectIdentifier::new(ObjectType::Device, 1234));
    assert_eq!(db.remove_object(device), Err(ObjectError::WriteAccessDenied));
    assert_eq!(
        db.remove_object(ObjectIdentifier::new(ObjectType::AnalogValue, 8)),
        Err(ObjectError::NotFound)
    );
    assert_eq!(db.remove_object(ObjectIdentifier::new(ObjectType::AnalogValue, 7)), Ok(()));
    assert!(!db.contains_name("Value"));
    assert!(db.contains_name("Test Device"));
}

#[test]
fn the_revision_counts_what_changes_the_database() {
    let mut db = hosting(7, "Value");
    let value = ObjectIdentifier::new(ObjectType::AnalogValue, 7);
    let device = db.get_device_id();
    assert_eq!(db.revision(), 2);
    db.set_property(
        value,
        PropertyIdentifier::PresentValue,
        PropertyValue::Real(number(4.5)),
    )
    .unwrap();
    assert_eq!(db.revision(), 2);
    db.set_clock(77);
    rename(&mut db, value, "Renamed").unwrap();
    assert_eq!(db.revision(), 3);
    assert_eq!(db.last_modified(), 77);
    assert!(rename(&mut db, value, "Test Device").is_err());
    assert_eq!(db.revision(), 3);
    db.remove_object(value).unwrap();
    assert_eq!(
        db.get_property(device, PropertyIdentifier::DatabaseRevision),
        Ok(PropertyValue::Unsigned(4))
    );
}

#[test]
fn the_device_tells_which_types_are_hosted() {
    let db = hosting(7, "Value");
    let bits = match db
        .get_property(db.get_device_id(), PropertyIdentifier::ProtocolObjectTypesSupported)
        .unwrap()
    {
        PropertyValue::BitString(bits) => bits,
        other => panic!("{other:?}"),
    };
    assert!(bits[2] && bits[8]);
    assert!(!bits[0] && !bits[6]);
    assert_eq!(bits.iter().filter(|bit| **bit).count(), 2);
}

#[test]
fn each_refusal_has_its_error() {
    let mut db = hosting(7, "Value");
    db.add_object(HostedObject::Calendar(Calendar::new(1, "Holidays".to_string())))
        .unwrap();
    db.add_object(HostedObject::AnalogOutput(AnalogOutput::new(1, "Valve".to_string())))
        .unwrap();
    let calendar = ObjectIdentifier::new(ObjectType::Calendar, 1);
    let output = ObjectIdentifier::new(ObjectType::AnalogOutput, 1);
    let missing = ObjectIdentifier::new(ObjectType::Calendar, 2);
    assert_eq!(
        db.get_property(missing, PropertyIdentifier::ObjectName),
        Err(ObjectError::NotFound)
    );
    assert_eq!(
        db.get_property(calendar, PropertyIdentifier::PriorityArray),
        Err(ObjectError::UnknownProperty)
    );
    assert_eq!(
        db.set_property(
            calendar,
            PropertyIdentifier::PresentValue,
            PropertyValue::Boolean(true)
        ),
        Err(ObjectError::PropertyNotWritable)
    );
    assert_eq!(
        db.set_property(
            calendar,
            PropertyIdentifier::ObjectName,
            PropertyValue::Unsigned(1)
        ),
        Err(ObjectError::InvalidPropertyType)
    );
    assert!(matches!(
        db.set_property_with_priority(
            output,
            PropertyIdentifier::PresentValue,
            PropertyValue::Real(number(1.0)),
            Some(17)
        ),
        Err(ObjectError::InvalidValue(_))
    ));
    assert_eq!(
        DatabaseBuilder::new().build().err(),
        Some(ObjectError::InvalidConfiguration("Device object is required".to_string()))
    );
}

#[test]
fn the_device_is_filed_as_a_device_whatever_its_identity() {
    let mut device = Device::new(1234, "Test Device".to_string());
    device.identifier = ObjectIdentifier::new(ObjectType::AnalogInput, 5);
    let mut db = ObjectDatabase::new(device);
    let odd = ObjectIdentifier::new(ObjectType::AnalogInput, 5);
    assert_eq!(db.get_device_id(), odd);
    assert_eq!(db.get_objects_by_type(ObjectType::Device), vec![odd]);
    assert_eq!(db.object_count_by_type(ObjectType::AnalogInput), 0);
    assert_eq!(db.object_types(), vec![ObjectType::Device]);
    assert_eq!(db.next_instance(ObjectType::AnalogInput), 0);
    assert_eq!(db.next_instance(ObjectType::Device), 6);
    db.add_object(HostedObject::AnalogInput(AnalogInput::new(1, "Flow".to_string())))
        .unwrap();
    assert_eq!(
        db.get_objects_by_type(ObjectType::AnalogInput),
        vec![ObjectIdentifier::new(ObjectType::AnalogInput, 1)]
    );
}

#[test]
fn all_objects_are_listed_once_by_type_and_instance() {
    let mut db = hosting(7, "Seven");
    for (instance, name) in [(3, "Three"), (300, "Three hundred")] {
        db.add_object(HostedObject::AnalogValue(AnalogValue::new(
            instance,
            name.to_string(),
        )))
        .unwrap();
    }
    db.add_object(HostedObject::AnalogInput(AnalogInput::new(9, "Nine".to_string())))
        .unwrap();
    assert_eq!(
        db.get_all_objects(),
        vec![
            ObjectIdentifier::new(ObjectType::AnalogInput, 9),
            ObjectIdentifier::new(ObjectType::AnalogValue, 3),
            ObjectIdentifier::new(ObjectType::AnalogValue, 7),
            ObjectIdentifier::new(ObjectType::AnalogValue, 300),
            ObjectIdentifier::new(ObjectType::Device, 1234),
        ]
    );
}
