use bacnet_rs::number::Real;
use bacnet_rs::object::{ObjectIdentifier, ObjectType, PropertyIdentifier};
use bacnet_rs::property::complex::{
    decode_address_bindings, decode_cov_subscriptions, decode_destinations,
    decode_object_property_references, decode_timestamps, decode_value_sources,
    decode_weekly_schedule,
};
use bacnet_rs::property::{
    AddressBindingValue, BacnetAddress, CovSubscriptionValue, DailyScheduleValue, DestinationValue,
    ObjectPropertyReference, PropertyValue, Recipient, RecipientProcess, TimestampValue,
    ValueSourceValue,
};

#[test]
fn decodes_and_reencodes_real_active_cov_subscription() {
    let encoded = vec![
        0x0E, 0x0E, 0x1E, 0x21, 0x00, 0x65, 0x06, 192, 168, 34, 7, 186, 192, 0x1F, 0x0F, 0x1A,
        0x27, 0x27, 0x0F, 0x1E, 0x0C, 0, 0, 0, 2, 0x19, 85, 0x1F, 0x29, 0, 0x3B, 0x01, 0x50,
        0xEB,
    ];

    let (decoded, consumed) = CovSubscriptionValue::decode(&encoded).unwrap();

    assert_eq!(consumed, encoded.len());
    assert_eq!(
        decoded.recipient,
        RecipientProcess {
            recipient: Recipient::Address(BacnetAddress {
                network: 0,
                mac_address: vec![192, 168, 34, 7, 186, 192],
            }),
            process_identifier: 10_023,
        }
    );
    assert_eq!(
        decoded.monitored_property,
        ObjectPropertyReference {
            object_identifier: ObjectIdentifier::new(ObjectType::AnalogInput, 2),
            property_identifier: PropertyIdentifier::PresentValue,
            array_index: None,
        }
    );
    assert!(!decoded.issue_confirmed_notifications);
    assert_eq!(decoded.time_remaining, 86_251);
    assert_eq!(decoded.cov_increment, None);

    let mut reencoded = Vec::new();
    decoded.encode(&mut reencoded).unwrap();
    assert_eq!(reencoded, encoded);
}

#[test]
fn roundtrips_device_recipient_array_index_and_cov_increment() {
    let value = CovSubscriptionValue {
        recipient: RecipientProcess {
            recipient: Recipient::Device(ObjectIdentifier::new(ObjectType::Device, 42)),
            process_identifier: 300,
        },
        monitored_property: ObjectPropertyReference {
            object_identifier: ObjectIdentifier::new(ObjectType::AnalogValue, 7),
            property_identifier: PropertyIdentifier::PriorityArray,
            array_index: Some(8),
        },
        issue_confirmed_notifications: true,
        time_remaining: 60,
        cov_increment: Some(Real::from_bits(0.5f32.to_bits())),
    };
    let mut encoded = Vec::new();
    value.encode(&mut encoded).unwrap();

    let (decoded, consumed) = CovSubscriptionValue::decode(&encoded).unwrap();

    assert_eq!(consumed, encoded.len());
    assert_eq!(decoded, value);
}

#[test]
fn decodes_address_binding_list_and_reencodes_entries() {
    let bindings = vec![
        AddressBindingValue {
            device_identifier: ObjectIdentifier::new(ObjectType::Device, 904),
            address: BacnetAddress {
                network: 412,
                mac_address: vec![7, 34, 168, 3, 186, 192],
            },
        },
        AddressBindingValue {
            device_identifier: ObjectIdentifier::new(ObjectType::Device, 5780),
            address: BacnetAddress {
                network: 0,
                mac_address: vec![192, 168, 34, 7, 186, 192],
            },
        },
    ];
    let mut encoded = Vec::new();
    for binding in &bindings {
        binding.encode(&mut encoded).unwrap();
    }

    let decoded = decode_address_bindings(&encoded).unwrap();

    assert_eq!(
        decoded,
        bindings
            .into_iter()
            .map(PropertyValue::AddressBinding)
            .collect::<Vec<_>>()
    );
}

#[test]
fn decodes_and_reencodes_wildcard_datetime_timestamp() {
    let encoded = vec![
        0x2E, 0xA4, 0xFF, 0xFF, 0xFF, 0xFF, 0xB4, 0xFF, 0xFF, 0xFF, 0xFF, 0x2F,
    ];

    let (decoded, consumed) = TimestampValue::decode(&encoded).unwrap();
    let mut reencoded = Vec::new();
    decoded.encode(&mut reencoded).unwrap();

    assert_eq!(consumed, encoded.len());
    assert_eq!(
        decoded,
        TimestampValue::DateTime {
            date: (255, 255, 255, 255),
            time: (255, 255, 255, 255),
        }
    );
    assert_eq!(reencoded, encoded);
}

#[test]
fn decodes_schedule_object_property_reference() {
    let encoded = vec![0x0C, 0x04, 0xC0, 0, 0, 0x19, 85, 0x29, 15];

    let (decoded, consumed) = ObjectPropertyReference::decode(&encoded).unwrap();
    let mut reencoded = Vec::new();
    decoded.encode(&mut reencoded).unwrap();

    assert_eq!(consumed, encoded.len());
    assert_eq!(
        decoded.object_identifier.object_type,
        ObjectType::MultiStateValue
    );
    assert_eq!(
        decoded.property_identifier,
        PropertyIdentifier::PresentValue
    );
    assert_eq!(decoded.array_index, Some(15));
    assert_eq!(reencoded, encoded);
}

#[test]
fn roundtrips_notification_destination() {
    let value = DestinationValue {
        valid_days: vec![true; 7],
        from_time: (0, 0, 0, 0),
        to_time: (23, 59, 0, 0),
        recipient: Recipient::Device(ObjectIdentifier::new(ObjectType::Device, 777)),
        process_identifier: 1337,
        issue_confirmed_notifications: true,
        transitions: vec![true, true, true],
    };
    let mut encoded = Vec::new();
    value.encode(&mut encoded).unwrap();
    let (decoded, consumed) = DestinationValue::decode(&encoded).unwrap();
    assert_eq!(consumed, encoded.len());
    assert_eq!(decoded, value);
}

#[test]
fn decodes_real_daily_schedule_and_empty_day() {
    let populated = vec![
        0x0E, 0xB4, 19, 0, 0, 0, 0x91, 1, 0xB4, 19, 59, 58, 0, 0x91, 0, 0x0F,
    ];
    let (day, consumed) = DailyScheduleValue::decode(&populated).unwrap();
    assert_eq!(consumed, populated.len());
    assert_eq!(day.time_values.len(), 2);
    let (empty, consumed) = DailyScheduleValue::decode(&[0x0E, 0x0F]).unwrap();
    assert_eq!(consumed, 2);
    assert!(empty.time_values.is_empty());
}

#[test]
fn roundtrips_empty_value_source() {
    let encoded = [0x08];
    let (value, consumed) = ValueSourceValue::decode(&encoded).unwrap();
    let mut reencoded = Vec::new();
    value.encode(&mut reencoded).unwrap();
    assert_eq!(consumed, 1);
    assert_eq!(reencoded, encoded);
}

#[test]
fn lists_are_read_as_they_were_written() {
    let timestamps = vec![
        TimestampValue::Time(1, 2, 3, 4),
        TimestampValue::SequenceNumber(70_000),
        TimestampValue::DateTime {
            date: (2024, 2, 29, 4),
            time: (12, 0, 0, 0),
        },
    ];
    let mut encoded = Vec::new();
    for timestamp in &timestamps {
        timestamp.encode(&mut encoded).unwrap();
    }
    assert_eq!(
        decode_timestamps(&encoded).unwrap(),
        timestamps
            .into_iter()
            .map(PropertyValue::Timestamp)
            .collect::<Vec<_>>()
    );

    let references = vec![
        ObjectPropertyReference {
            object_identifier: ObjectIdentifier::new(ObjectType::AnalogValue, 1),
            property_identifier: PropertyIdentifier::PresentValue,
            array_index: None,
        },
        ObjectPropertyReference {
            object_identifier: ObjectIdentifier::new(ObjectType::BinaryOutput, 2),
            property_identifier: PropertyIdentifier::PriorityArray,
            array_index: Some(3),
        },
    ];
    let mut encoded = Vec::new();
    for reference in &references {
        reference.encode(&mut encoded).unwrap();
    }
    assert_eq!(
        decode_object_property_references(&encoded).unwrap(),
        references
            .into_iter()
            .map(PropertyValue::ObjectPropertyReference)
            .collect::<Vec<_>>()
    );

    assert_eq!(
        decode_value_sources(&[0x08, 0x08]).unwrap(),
        vec![
            PropertyValue::ValueSource(ValueSourceValue::NoSource),
            PropertyValue::ValueSource(ValueSourceValue::NoSource),
        ]
    );
}

#[test]
fn recipient_and_subscription_lists_are_read_as_they_were_written() {
    let destinations = vec![
        DestinationValue {
            valid_days: vec![true, true, true, true, true, false, false],
            from_time: (8, 0, 0, 0),
            to_time: (17, 30, 0, 0),
            recipient: Recipient::Device(ObjectIdentifier::new(ObjectType::Device, 7)),
            process_identifier: 1,
            issue_confirmed_notifications: false,
            transitions: vec![true, false, true],
        },
        DestinationValue {
            valid_days: vec![true; 7],
            from_time: (0, 0, 0, 0),
            to_time: (23, 59, 59, 99),
            recipient: Recipient::Address(BacnetAddress {
                network: 5,
                mac_address: vec![1, 2, 3],
            }),
            process_identifier: 2,
            issue_confirmed_notifications: true,
            transitions: vec![true; 3],
        },
    ];
    let mut encoded = Vec::new();
    for destination in &destinations {
        destination.encode(&mut encoded).unwrap();
    }
    assert_eq!(
        decode_destinations(&encoded).unwrap(),
        destinations
            .into_iter()
            .map(PropertyValue::Destination)
            .collect::<Vec<_>>()
    );

    let subscription = CovSubscriptionValue {
        recipient: RecipientProcess {
            recipient: Recipient::Device(ObjectIdentifier::new(ObjectType::Device, 42)),
            process_identifier: 300,
        },
        monitored_property: ObjectPropertyReference {
            object_identifier: ObjectIdentifier::new(ObjectType::AnalogValue, 7),
            property_identifier: PropertyIdentifier::PresentValue,
            array_index: None,
        },
        issue_confirmed_notifications: true,
        time_remaining: 60,
        cov_increment: None,
    };
    let mut encoded = Vec::new();
    subscription.encode(&mut encoded).unwrap();
    subscription.encode(&mut encoded).unwrap();
    assert_eq!(
        decode_cov_subscriptions(&encoded).unwrap(),
        vec![
            PropertyValue::CovSubscription(subscription.clone()),
            PropertyValue::CovSubscription(subscription),
        ]
    );
}

#[test]
fn a_week_is_read_day_by_day() {
    let week = decode_weekly_schedule(&[
        0x0E, 0xB4, 19, 0, 0, 0, 0x91, 1, 0x0F, 0x0E, 0x0F,
    ])
    .unwrap();
    assert_eq!(week.len(), 2);
    match &week[0] {
        PropertyValue::DailySchedule(day) => {
            assert_eq!(day.time_values.len(), 1);
            assert_eq!(day.time_values[0].time, (19, 0, 0, 0));
            assert_eq!(*day.time_values[0].value, PropertyValue::Enumerated(1));
        }
        other => panic!("{other:?}"),
    }
    assert!(decode_weekly_schedule(&[0x0E]).is_err());
}
