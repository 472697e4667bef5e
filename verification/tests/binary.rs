use bacnet_rs::object::{
    BacnetObject, BinaryInput, BinaryOutput, BinaryPV, BinaryValue, ObjectError,
    PropertyIdentifier,
};
use bacnet_rs::property::PropertyValue;

#[test]
fn test_binary_pv_conversions() {
    assert_eq!(BinaryPV::from(true), BinaryPV::Active);
    assert_eq!(BinaryPV::from(false), BinaryPV::Inactive);
    assert!(bool::from(BinaryPV::Active));
    assert!(!bool::from(BinaryPV::Inactive));
}

#[test]
fn test_binary_input_creation() {
    let bi = BinaryInput::new(1, "Door Switch".to_string());
    assert_eq!(bi.identifier.instance, 1);
    assert_eq!(bi.object_name, "Door Switch");
    assert_eq!(bi.present_value, BinaryPV::Inactive);
    assert_eq!(bi.change_of_state_count, 0);
}

#[test]
fn test_binary_input_change_of_state() {
    let mut bi = BinaryInput::new(1, "Test".to_string());

    bi.set_present_value(BinaryPV::Active);
    assert_eq!(bi.present_value, BinaryPV::Active);
    assert_eq!(bi.change_of_state_count, 1);

    bi.set_present_value(BinaryPV::Active); // Same value, no change
    assert_eq!(bi.change_of_state_count, 1);

    bi.set_present_value(BinaryPV::Inactive);
    assert_eq!(bi.change_of_state_count, 2);
}

#[test]
fn test_binary_output_priority() {
    let mut bo = BinaryOutput::new(1, "Fan Control".to_string());

    // Write to priority 8
    bo.write_priority(8, Some(BinaryPV::Active)).unwrap();
    assert_eq!(bo.present_value, BinaryPV::Active);
    assert_eq!(bo.get_effective_priority(), Some(8));

    // Write to higher priority 3
    bo.write_priority(3, Some(BinaryPV::Inactive)).unwrap();
    assert_eq!(bo.present_value, BinaryPV::Inactive);
    assert_eq!(bo.get_effective_priority(), Some(3));

    // Release priority 3
    bo.write_priority(3, None).unwrap();
    assert_eq!(bo.present_value, BinaryPV::Active);
    assert_eq!(bo.get_effective_priority(), Some(8));
}

#[test]
fn binary_property_writes_preserve_priority_and_relinquish() {
    let mut output = BinaryOutput::new(1, "Fan Control".to_string());
    output
        .set_property_with_priority(
            PropertyIdentifier::PresentValue,
            PropertyValue::Enumerated(1),
            Some(3),
        )
        .unwrap();
    assert_eq!(output.priority_array[2], Some(BinaryPV::Active));
    output
        .set_property_with_priority(
            PropertyIdentifier::PresentValue,
            PropertyValue::Null,
            Some(3),
        )
        .unwrap();
    assert_eq!(output.priority_array[2], None);

    let mut value = BinaryValue::new(2, "Occupancy".to_string());
    value
        .set_property_with_priority(
            PropertyIdentifier::PresentValue,
            PropertyValue::Enumerated(1),
            Some(4),
        )
        .unwrap();
    assert_eq!(value.priority_array[3], Some(BinaryPV::Active));
    value
        .set_property_with_priority(
            PropertyIdentifier::PresentValue,
            PropertyValue::Null,
            Some(4),
        )
        .unwrap();
    assert_eq!(value.priority_array[3], None);
}

#[test]
fn test_binary_object_properties() {
    let mut bv = BinaryValue::new(1, "Test Value".to_string());

    // Test property access
    let name = bv.get_property(PropertyIdentifier::ObjectName).unwrap();
    if let PropertyValue::CharacterString(n) = name {
        assert_eq!(n, "Test Value");
    } else {
        panic!("Expected CharacterString");
    }

    // Test property modification
    bv.set_property(
        PropertyIdentifier::PresentValue,
        PropertyValue::Enumerated(1),
    )
    .unwrap();
    assert_eq!(bv.present_value, BinaryPV::Active);

    // Test invalid binary value
    let result = bv.set_property(
        PropertyIdentifier::PresentValue,
        PropertyValue::Enumerated(2),
    );
    assert!(result.is_err());
}

#[test]
fn a_source_drives_an_input_but_cannot_relinquish_it() {
    let mut input = BinaryInput::new(1, "Door contact".to_string());

    input
        .set_sourced_value(PropertyValue::Enumerated(1))
        .unwrap();
    assert_eq!(input.present_value, BinaryPV::Active);

    // Null relinquishes a commandable object; an input has no priority array
    // to relinquish to, so there is nothing for it to mean.
    assert!(matches!(
        input.set_sourced_value(PropertyValue::Null),
        Err(ObjectError::InvalidPropertyType)
    ));
    assert_eq!(input.present_value, BinaryPV::Active);
}
