use bacnet_rs::object::{
    BacnetObject, MultiStateInput, MultiStateOutput, MultiStateValue, ObjectError,
    PropertyIdentifier,
};
use bacnet_rs::property::PropertyValue;

#[test]
fn test_multistate_input_creation() {
    let msi = MultiStateInput::new(1, "Mode Selector".to_string(), 5);
    assert_eq!(msi.identifier.instance, 1);
    assert_eq!(msi.object_name, "Mode Selector");
    assert_eq!(msi.number_of_states, 5);
    assert_eq!(msi.present_value, 1);
    assert_eq!(msi.state_text.len(), 5);
}

#[test]
fn test_multistate_state_text() {
    let mut msi = MultiStateInput::new(1, "Mode".to_string(), 3);

    // Set custom state text
    msi.set_state_text(1, "OFF".to_string()).unwrap();
    msi.set_state_text(2, "AUTO".to_string()).unwrap();
    msi.set_state_text(3, "MANUAL".to_string()).unwrap();

    assert_eq!(msi.get_state_text(), Some("OFF"));

    msi.set_present_value(2).unwrap();
    assert_eq!(msi.get_state_text(), Some("AUTO"));

    // Test invalid state
    assert!(msi.set_present_value(4).is_err());
}

#[test]
fn test_multistate_output_priority() {
    let mut mso = MultiStateOutput::new(1, "Sequence Control".to_string(), 4);

    // Write to priority 8
    mso.write_priority(8, Some(3)).unwrap();
    assert_eq!(mso.present_value, 3);
    assert_eq!(mso.get_effective_priority(), Some(8));

    // Write to higher priority 3
    mso.write_priority(3, Some(2)).unwrap();
    assert_eq!(mso.present_value, 2);
    assert_eq!(mso.get_effective_priority(), Some(3));

    // Test invalid value
    assert!(mso.write_priority(3, Some(5)).is_err());

    // Release priority 3
    mso.write_priority(3, None).unwrap();
    assert_eq!(mso.present_value, 3); // Back to priority 8 value
}

#[test]
fn multistate_property_writes_preserve_priority_and_relinquish() {
    let mut output = MultiStateOutput::new(1, "Sequence Control".to_string(), 4);
    output
        .set_property_with_priority(
            PropertyIdentifier::PresentValue,
            PropertyValue::Unsigned(3),
            Some(2),
        )
        .unwrap();
    assert_eq!(output.priority_array[1], Some(3));
    output
        .set_property_with_priority(
            PropertyIdentifier::PresentValue,
            PropertyValue::Null,
            Some(2),
        )
        .unwrap();
    assert_eq!(output.priority_array[1], None);

    let mut value = MultiStateValue::new(2, "Operating Mode".to_string(), 4);
    value
        .set_property_with_priority(
            PropertyIdentifier::PresentValue,
            PropertyValue::Unsigned(4),
            Some(5),
        )
        .unwrap();
    assert_eq!(value.priority_array[4], Some(4));
    value
        .set_property_with_priority(
            PropertyIdentifier::PresentValue,
            PropertyValue::Null,
            Some(5),
        )
        .unwrap();
    assert_eq!(value.priority_array[4], None);
}

#[test]
fn test_multistate_properties() {
    let mut msv = MultiStateValue::new(1, "Operating Mode".to_string(), 4);

    // Test property access
    let name = msv.get_property(PropertyIdentifier::ObjectName).unwrap();
    if let PropertyValue::CharacterString(n) = name {
        assert_eq!(n, "Operating Mode");
    } else {
        panic!("Expected CharacterString");
    }

    // Test property modification
    msv.set_property(PropertyIdentifier::PresentValue, PropertyValue::Unsigned(3))
        .unwrap();
    assert_eq!(msv.present_value, 3);
}

#[test]
fn a_source_drives_an_input_and_its_state_is_range_checked() {
    let mut input = MultiStateInput::new(1, "Mode".to_string(), 4);

    input.set_sourced_value(PropertyValue::Unsigned(3)).unwrap();
    assert_eq!(input.present_value, 3);

    for out_of_range in [0, 5] {
        assert!(
            matches!(
                input.set_sourced_value(PropertyValue::Unsigned(out_of_range)),
                Err(ObjectError::InvalidValue(_))
            ),
            "state {out_of_range} is outside 1-4"
        );
    }
    assert_eq!(input.present_value, 3, "a rejected state changes nothing");
}
