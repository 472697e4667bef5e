use bacnet_rs::number::Real;
use bacnet_rs::object::{
    AnalogInput, AnalogOutput, AnalogValue, BacnetObject, EventState, LocalOverride, ObjectError,
    OverrideWrites, PropertyIdentifier, Reliability,
};
use bacnet_rs::property::PropertyValue;

fn number(value: f32) -> Real {
    Real::from_bits(value.to_bits())
}

#[test]
fn test_analog_input_creation() {
    let ai = AnalogInput::new(1, "Temperature Sensor".to_string());
    assert_eq!(ai.identifier.instance, 1);
    assert_eq!(ai.object_name, "Temperature Sensor");
    assert_eq!(ai.present_value, number(0.0));
    assert!(!ai.out_of_service);
}

#[test]
fn test_analog_output_priority() {
    let mut ao = AnalogOutput::new(1, "Damper Position".to_string());

    // Write to priority 8
    ao.write_priority(8, Some(number(75.0))).unwrap();
    assert_eq!(ao.present_value, number(75.0));
    assert_eq!(ao.get_effective_priority(), Some(8));

    // Write to higher priority 3
    ao.write_priority(3, Some(number(50.0))).unwrap();
    assert_eq!(ao.present_value, number(50.0));
    assert_eq!(ao.get_effective_priority(), Some(3));

    // Release priority 3
    ao.write_priority(3, None).unwrap();
    assert_eq!(ao.present_value, number(75.0));
    assert_eq!(ao.get_effective_priority(), Some(8));

    // Release all priorities
    ao.write_priority(8, None).unwrap();
    assert_eq!(ao.present_value, ao.relinquish_default);
    assert_eq!(ao.get_effective_priority(), None);
}

#[test]
fn analog_output_property_write_preserves_priority_and_relinquishes() {
    let mut output = AnalogOutput::new(1, "Damper Position".to_string());

    output
        .set_property_with_priority(
            PropertyIdentifier::PresentValue,
            PropertyValue::Real(number(50.0)),
            Some(3),
        )
        .unwrap();
    assert_eq!(output.priority_array[2], Some(number(50.0)));

    output
        .set_property_with_priority(
            PropertyIdentifier::PresentValue,
            PropertyValue::Null,
            Some(3),
        )
        .unwrap();
    assert_eq!(output.priority_array[2], None);
}

#[test]
fn test_analog_object_properties() {
    let mut av = AnalogValue::new(1, "Test Value".to_string());

    // Test property access
    let name = av.get_property(PropertyIdentifier::ObjectName).unwrap();
    if let PropertyValue::CharacterString(n) = name {
        assert_eq!(n, "Test Value");
    } else {
        panic!("Expected CharacterString");
    }

    // Test property modification
    av.set_property(PropertyIdentifier::PresentValue, PropertyValue::Real(number(42.5)))
        .unwrap();
    assert_eq!(av.present_value, number(42.5));

    // Test writable properties
    assert!(av.is_property_writable(PropertyIdentifier::PresentValue));
    assert!(!av.is_property_writable(PropertyIdentifier::ObjectIdentifier));
}

#[test]
fn test_status_flags() {
    let mut ai = AnalogInput::new(1, "Test".to_string());
    assert_eq!(ai.get_status_flags(), (false, false, false, false));

    ai.event_state = EventState::Offnormal;
    ai.overridden = true;
    assert_eq!(ai.get_status_flags(), (true, false, true, false));
}

/// Status_Flags is derived, so a client that writes Out_Of_Service or
/// Reliability sees it move. It used to be a cached byte that only the event
/// engine refreshed, so both writes left it reading all-false.
#[test]
fn status_flags_follow_out_of_service_and_reliability() {
    let mut value = AnalogValue::new(1, "Temp".to_string());

    value
        .set_property(
            PropertyIdentifier::OutOfService,
            PropertyValue::Boolean(true),
        )
        .unwrap();
    assert_eq!(
        value.get_property(PropertyIdentifier::StatusFlags).unwrap(),
        PropertyValue::BitString(vec![false, false, false, true]),
        "out-of-service"
    );

    value
        .set_property(
            PropertyIdentifier::Reliability,
            PropertyValue::Enumerated(u32::from(Reliability::ProcessError)),
        )
        .unwrap();
    assert_eq!(
        value.get_property(PropertyIdentifier::StatusFlags).unwrap(),
        PropertyValue::BitString(vec![false, true, false, true]),
        "fault follows Reliability even while Event_State is normal"
    );

    value
        .set_property(
            PropertyIdentifier::Reliability,
            PropertyValue::Enumerated(u32::from(Reliability::NoFaultDetected)),
        )
        .unwrap();
    assert_eq!(
        value.get_property(PropertyIdentifier::StatusFlags).unwrap(),
        PropertyValue::BitString(vec![false, false, false, true]),
        "and clears again"
    );
}

/// The point of the hook: a host can drive an input whose Present_Value no
/// network client is allowed to write.
#[test]
fn a_source_can_drive_an_input_that_clients_cannot_write() {
    let mut input = AnalogInput::new(1, "Outdoor temperature".to_string());

    assert!(!input.is_property_writable(PropertyIdentifier::PresentValue));
    assert!(matches!(
        input.set_property(PropertyIdentifier::PresentValue, PropertyValue::Real(number(5.0))),
        Err(ObjectError::PropertyNotWritable)
    ));

    input.set_sourced_value(PropertyValue::Real(number(5.0))).unwrap();

    assert_eq!(
        input
            .get_property(PropertyIdentifier::PresentValue)
            .unwrap(),
        PropertyValue::Real(number(5.0))
    );
    assert!(matches!(
        input.set_sourced_value(PropertyValue::Boolean(true)),
        Err(ObjectError::InvalidPropertyType)
    ));
}

/// COV_Increment is optional on all three analog types, and it was the
/// commandable one that had it: an input's increment was stored and never
/// answered, so a COV engine asking for it found nothing and reported every
/// change a sensor made.
#[test]
fn every_analog_type_answers_the_cov_increment_it_holds() {
    let mut input = AnalogInput::new(1, "Room CO2".to_string());
    let mut output = AnalogOutput::new(1, "Damper".to_string());
    let mut value = AnalogValue::new(1, "Setpoint".to_string());

    fn lacks_an_increment(object: &impl BacnetObject) {
        assert!(matches!(
            object.get_property(PropertyIdentifier::CovIncrement),
            Err(ObjectError::UnknownProperty)
        ));
        assert!(!object
            .property_list()
            .contains(&PropertyIdentifier::CovIncrement));
    }
    lacks_an_increment(&input);
    lacks_an_increment(&output);
    lacks_an_increment(&value);

    input.cov_increment = Some(number(25.0));
    output.cov_increment = Some(number(2.0));
    value.cov_increment = Some(number(0.5));

    fn answers(object: &impl BacnetObject, increment: f32) {
        assert_eq!(
            object
                .get_property(PropertyIdentifier::CovIncrement)
                .unwrap(),
            PropertyValue::Real(number(increment))
        );
        assert!(object
            .property_list()
            .contains(&PropertyIdentifier::CovIncrement));
    }
    answers(&input, 25.0);
    answers(&output, 2.0);
    answers(&value, 0.5);
}

/// A commandable object has a priority array, so a source driving it must go
/// through the command path rather than around it.
#[test]
fn a_commandable_object_reports_the_hook_as_unsupported() {
    let mut value = AnalogValue::new(1, "Setpoint".to_string());

    assert!(matches!(
        value.set_sourced_value(PropertyValue::Real(number(5.0))),
        Err(ObjectError::OptionalFunctionalityNotSupported)
    ));
}

fn status_flags(object: &impl BacnetObject) -> Vec<bool> {
    match object
        .get_property(PropertyIdentifier::StatusFlags)
        .unwrap()
    {
        PropertyValue::BitString(bits) => bits,
        other => panic!("expected a bit string, got {other:?}"),
    }
}

#[test]
fn a_value_that_is_not_commandable_is_written_straight_through() {
    let mut value = AnalogValue::new(1, "Setpoint".to_string());
    value.commandable = false;

    assert!(matches!(
        value.get_property(PropertyIdentifier::PriorityArray),
        Err(ObjectError::UnknownProperty)
    ));
    assert!(!value
        .property_list()
        .contains(&PropertyIdentifier::RelinquishDefault));

    value
        .set_property_with_priority(
            PropertyIdentifier::PresentValue,
            PropertyValue::Real(number(22.0)),
            Some(8),
        )
        .unwrap();
    assert_eq!(value.present_value, number(22.0));
    assert!(value
        .set_property(PropertyIdentifier::PresentValue, PropertyValue::Null)
        .is_err());
}

#[test]
fn an_absent_reliability_is_an_unknown_property() {
    let mut input = AnalogInput::new(1, "Outdoor".to_string());
    input.optional.reliability = false;

    assert!(matches!(
        input.get_property(PropertyIdentifier::Reliability),
        Err(ObjectError::UnknownProperty)
    ));
    assert!(!input
        .property_list()
        .contains(&PropertyIdentifier::Reliability));
    assert!(input
        .property_list()
        .contains(&PropertyIdentifier::Description));
}

#[test]
fn a_local_override_holds_the_value_until_it_is_released() {
    let mut value = AnalogValue::new(1, "Setpoint".to_string());
    value.local_override = Some(LocalOverride {
        value: number(19.0),
        writes: OverrideWrites::Accepted,
    });

    value
        .set_property_with_priority(
            PropertyIdentifier::PresentValue,
            PropertyValue::Real(number(22.0)),
            Some(8),
        )
        .unwrap();
    assert_eq!(
        value
            .get_property(PropertyIdentifier::PresentValue)
            .unwrap(),
        PropertyValue::Real(number(19.0)),
        "the write waits behind the override"
    );
    assert!(status_flags(&value)[2], "OVERRIDDEN");

    value.local_override = None;
    assert_eq!(
        value
            .get_property(PropertyIdentifier::PresentValue)
            .unwrap(),
        PropertyValue::Real(number(22.0))
    );
    assert!(!status_flags(&value)[2]);
}

#[test]
fn a_local_override_can_refuse_writes_outright() {
    let mut output = AnalogOutput::new(1, "Valve".to_string());
    output.local_override = Some(LocalOverride {
        value: number(100.0),
        writes: OverrideWrites::Denied,
    });

    assert!(matches!(
        output.set_property(PropertyIdentifier::PresentValue, PropertyValue::Real(number(0.0))),
        Err(ObjectError::WriteAccessDenied)
    ));
}
