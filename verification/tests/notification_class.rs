use bacnet_rs::object::intrinsic::{EventTransition, EventTransitionBits};
use bacnet_rs::object::{
    BacnetObject, NotificationClass, ObjectError, ObjectIdentifier, ObjectType, PropertyIdentifier,
};
use bacnet_rs::property::{PropertyValue, Recipient};

fn gateway() -> ObjectIdentifier {
    ObjectIdentifier::new(ObjectType::Device, 5777)
}

#[test]
fn reports_its_own_instance_as_notification_class() {
    let class = NotificationClass::new(3, "NC-3".to_string());
    assert_eq!(
        class
            .get_property(PropertyIdentifier::NotificationClass)
            .unwrap(),
        PropertyValue::Unsigned(3)
    );
}

#[test]
fn priority_and_ack_are_read_per_transition() {
    let class = NotificationClass::new(1, "NC".to_string())
        .with_priority(90, 10, 200)
        .with_ack_required(EventTransitionBits {
            to_offnormal: false,
            to_fault: true,
            to_normal: false,
        });

    assert_eq!(class.priority_for(EventTransition::ToOffnormal), 90);
    assert_eq!(class.priority_for(EventTransition::ToFault), 10);
    assert_eq!(class.priority_for(EventTransition::ToNormal), 200);

    assert!(!class.ack_required_for(EventTransition::ToOffnormal));
    assert!(class.ack_required_for(EventTransition::ToFault));
}

#[test]
fn priority_property_round_trips() {
    let mut class = NotificationClass::new(1, "NC".to_string());
    class
        .set_property(
            PropertyIdentifier::Priority,
            PropertyValue::Array(vec![
                PropertyValue::Unsigned(90),
                PropertyValue::Unsigned(10),
                PropertyValue::Unsigned(200),
            ]),
        )
        .unwrap();

    assert_eq!(class.priority, [90, 10, 200]);
    assert_eq!(
        class.get_property(PropertyIdentifier::Priority).unwrap(),
        PropertyValue::Array(vec![
            PropertyValue::Unsigned(90),
            PropertyValue::Unsigned(10),
            PropertyValue::Unsigned(200),
        ])
    );
}

#[test]
fn priority_rejects_wrong_length() {
    let mut class = NotificationClass::new(1, "NC".to_string());
    assert!(matches!(
        class.set_property(
            PropertyIdentifier::Priority,
            PropertyValue::Array(vec![PropertyValue::Unsigned(1)])
        ),
        Err(ObjectError::InvalidValue(_))
    ));
}

#[test]
fn recipient_list_is_writable_so_a_gateway_can_register_itself() {
    let mut class = NotificationClass::new(1, "NC".to_string());
    assert!(class.is_property_writable(PropertyIdentifier::RecipientList));

    let registered = NotificationClass::new(1, "NC".to_string()).with_recipient(gateway(), 777);
    let list = registered
        .get_property(PropertyIdentifier::RecipientList)
        .unwrap();

    class
        .set_property(PropertyIdentifier::RecipientList, list)
        .unwrap();

    assert_eq!(class.recipient_list.len(), 1);
    assert_eq!(class.recipient_list[0].process_identifier, 777);
    assert_eq!(
        class.recipient_list[0].recipient,
        Recipient::Device(gateway())
    );
}

#[test]
fn recipients_are_filtered_by_transition() {
    let mut class = NotificationClass::new(1, "NC".to_string()).with_recipient(gateway(), 777);
    // Subscribe this recipient to to-fault only.
    class.recipient_list[0].transitions = vec![false, true, false];

    assert_eq!(class.recipients_for(EventTransition::ToFault).len(), 1);
    assert_eq!(
        class.recipients_for(EventTransition::ToOffnormal).len(),
        0
    );
    assert_eq!(class.recipients_for(EventTransition::ToNormal).len(), 0);
}
