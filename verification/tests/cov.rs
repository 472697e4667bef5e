use bacnet_rs::address::SocketAddress;
use bacnet_rs::cov::{CovEngine, CovSubscriptions, Subscription, SubscriptionKey};
use bacnet_rs::number::Real;
use bacnet_rs::object::{
    AnalogValue, Device, HostedObject, MultiStateValue, ObjectDatabase, ObjectIdentifier,
    ObjectType, PropertyIdentifier,
};
use bacnet_rs::property::PropertyValue;

fn number(value: f32) -> Real {
    Real::from_bits(value.to_bits())
}

fn address() -> SocketAddress {
    SocketAddress::V4 {
        address: u32::from_be_bytes([192, 168, 6, 1]),
        port: 47808,
    }
}

fn analog() -> ObjectIdentifier {
    ObjectIdentifier::new(ObjectType::AnalogValue, 1)
}

fn database() -> ObjectDatabase {
    let mut database = ObjectDatabase::new(Device::new(1234, "Test".to_string()));
    let mut value = AnalogValue::new(1, "Zone temperature".to_string());
    value.present_value = number(21.0);
    value.cov_increment = Some(number(0.5));
    database.add_object(HostedObject::AnalogValue(value)).unwrap();
    database
}

fn subscription(confirmed: bool, lifetime: Option<u64>) -> Subscription {
    Subscription {
        key: SubscriptionKey {
            process_identifier: 777,
            monitored_object: analog(),
            monitored_property: None,
            address: address(),
        },
        confirmed,
        expires_at: lifetime,
        cov_increment: None,
    }
}

/// Status_Flags used to be a cached byte only the event engine refreshed, so
/// a subscriber was never told a point had been taken out of service or gone
/// unreliable — the engine compared the stale byte against itself.
#[test]
fn taking_the_object_out_of_service_reports_to_the_subscriber() {
    let mut database = database();
    let mut subscriptions = CovSubscriptions::new();
    subscriptions.subscribe(subscription(false, None));
    let mut engine = CovEngine::new(1234);

    assert_eq!(
        engine.tick(&database, &mut subscriptions, 0).len(),
        1,
        "initial"
    );
    assert!(engine.tick(&database, &mut subscriptions, 1).is_empty(), "idle");

    database
        .set_property(
            analog(),
            PropertyIdentifier::OutOfService,
            PropertyValue::Boolean(true),
        )
        .unwrap();

    let notifications = engine.tick(&database, &mut subscriptions, 2);
    assert_eq!(notifications.len(), 1);
    assert!(
        notifications[0]
            .notification
            .list_of_values
            .iter()
            .any(
                |entry| entry.property_identifier == PropertyIdentifier::StatusFlags
                    && entry.values
                        == vec![PropertyValue::BitString(vec![false, false, false, true])]
            ),
        "the subscriber is told the point is out of service: {:?}",
        notifications[0].notification.list_of_values
    );

    assert!(
        engine.tick(&database, &mut subscriptions, 3).is_empty(),
        "and not told twice"
    );
}

/// Every value that goes on the wire becomes the new baseline. Otherwise the
/// increment is measured from a value the subscriber already received, and
/// the next notification fires below COV_Increment.
#[test]
fn a_transmitted_value_becomes_the_baseline_even_when_it_did_not_trigger() {
    let mut database = database();
    let mut subscriptions = CovSubscriptions::new();
    subscriptions.subscribe(subscription(false, None));
    let mut engine = CovEngine::new(1234);
    engine.tick(&database, &mut subscriptions, 0);

    // Below the 0.5 increment, so this alone reports nothing.
    set_present_value(&mut database, 21.3);
    assert!(engine.tick(&database, &mut subscriptions, 1).is_empty());

    // Status_Flags moves, which sends the whole set including 21.3.
    database
        .set_property(
            analog(),
            PropertyIdentifier::OutOfService,
            PropertyValue::Boolean(true),
        )
        .unwrap();
    assert_eq!(engine.tick(&database, &mut subscriptions, 2).len(), 1);

    // 21.3 -> 21.6 is 0.3, under the increment. Measured from the first
    // 21.0 it would look like 0.6 and report.
    set_present_value(&mut database, 21.6);
    assert!(
        engine.tick(&database, &mut subscriptions, 3).is_empty(),
        "0.3 above the value the subscriber already has"
    );

    set_present_value(&mut database, 21.9);
    assert_eq!(
        engine.tick(&database, &mut subscriptions, 4).len(),
        1,
        "0.6 above it does report"
    );
}

fn set_present_value(database: &mut ObjectDatabase, value: f32) {
    database
        .set_property(
            analog(),
            PropertyIdentifier::PresentValue,
            PropertyValue::Real(number(value)),
        )
        .unwrap();
}

#[test]
fn a_new_subscription_reports_its_initial_value() {
    let mut database = database();
    let mut subscriptions = CovSubscriptions::new();
    subscriptions.subscribe(subscription(false, None));
    let mut engine = CovEngine::new(1234);

    let notifications = engine.tick(&database, &mut subscriptions, 0);
    assert_eq!(notifications.len(), 1, "subscriber needs a starting value");
    assert_eq!(notifications[0].address, address());
    assert_eq!(
        notifications[0].notification.subscriber_process_identifier,
        777
    );

    // Nothing changed, so nothing more is sent.
    assert!(engine.tick(&database, &mut subscriptions, 1).is_empty());
}

#[test]
fn the_cov_increment_suppresses_changes_that_are_too_small() {
    let mut database = database();
    let mut subscriptions = CovSubscriptions::new();
    subscriptions.subscribe(subscription(false, None));
    let mut engine = CovEngine::new(1234);
    assert_eq!(engine.tick(&database, &mut subscriptions, 0).len(), 1);

    // 0.2 is below the 0.5 increment.
    database
        .set_property(
            analog(),
            PropertyIdentifier::PresentValue,
            PropertyValue::Real(number(21.2)),
        )
        .unwrap();
    assert!(engine.tick(&database, &mut subscriptions, 1).is_empty());

    // 0.6 clears it.
    database
        .set_property(
            analog(),
            PropertyIdentifier::PresentValue,
            PropertyValue::Real(number(21.6)),
        )
        .unwrap();
    assert_eq!(engine.tick(&database, &mut subscriptions, 2).len(), 1);
}

#[test]
fn a_notification_reports_the_whole_monitored_set() {
    let mut database = database();
    let mut subscriptions = CovSubscriptions::new();
    subscriptions.subscribe(subscription(false, None));
    let mut engine = CovEngine::new(1234);

    let notifications = engine.tick(&database, &mut subscriptions, 0);
    let reported: Vec<PropertyIdentifier> = notifications[0]
        .notification
        .list_of_values
        .iter()
        .map(|value| value.property_identifier)
        .collect();

    // The exact set, not merely a superset: an extra property widens the
    // trigger as well as the payload, so what is reported is a conformance
    // decision rather than a convenience.
    assert_eq!(
        reported,
        vec![
            PropertyIdentifier::PresentValue,
            PropertyIdentifier::StatusFlags
        ],
        "a subscription pairs the value with its flags, and nothing else"
    );
}

#[test]
fn a_discrete_object_reports_any_change() {
    let mut database = ObjectDatabase::new(Device::new(1234, "Test".to_string()));
    database
        .add_object(HostedObject::MultiStateValue(MultiStateValue::new(1, "Mode".to_string(), 5)))
        .unwrap();
    let object = ObjectIdentifier::new(ObjectType::MultiStateValue, 1);

    let mut subscriptions = CovSubscriptions::new();
    let mut key = subscription(false, None);
    key.key.monitored_object = object;
    subscriptions.subscribe(key);

    let mut engine = CovEngine::new(1234);
    assert_eq!(engine.tick(&database, &mut subscriptions, 0).len(), 1);

    database
        .set_property(
            object,
            PropertyIdentifier::PresentValue,
            PropertyValue::Unsigned(2),
        )
        .unwrap();
    assert_eq!(engine.tick(&database, &mut subscriptions, 1).len(), 1);
}

#[test]
fn a_subscription_expires_and_stops_reporting() {
    let mut database = database();
    let mut subscriptions = CovSubscriptions::new();
    subscriptions.subscribe(subscription(false, Some(60)));
    let mut engine = CovEngine::new(1234);

    assert_eq!(engine.tick(&database, &mut subscriptions, 0).len(), 1);
    assert_eq!(subscriptions.len(), 1);

    database
        .set_property(
            analog(),
            PropertyIdentifier::PresentValue,
            PropertyValue::Real(number(30.0)),
        )
        .unwrap();
    assert!(engine.tick(&database, &mut subscriptions, 61).is_empty());
    assert!(subscriptions.is_empty(), "expired subscription was dropped");
}

#[test]
fn time_remaining_counts_down_and_is_zero_when_permanent() {
    let expiring = subscription(false, Some(100));
    assert_eq!(expiring.time_remaining(40), 60);
    assert_eq!(
        expiring.time_remaining(200),
        0,
        "saturates rather than wraps"
    );
    assert_eq!(subscription(false, None).time_remaining(40), 0);
}

#[test]
fn resubscribing_renews_rather_than_duplicating() {
    let mut subscriptions = CovSubscriptions::new();
    subscriptions.subscribe(subscription(false, Some(60)));
    subscriptions.subscribe(subscription(true, Some(600)));

    assert_eq!(subscriptions.len(), 1);
    let held = &subscriptions.all()[0];
    assert_eq!(held.expires_at, Some(600));
    assert!(held.confirmed, "the renewal's preference wins");
}

#[test]
fn cancelling_removes_the_subscription() {
    let mut subscriptions = CovSubscriptions::new();
    let held = subscription(false, None);
    subscriptions.subscribe(held);

    assert!(subscriptions.cancel(&held.key));
    assert!(subscriptions.is_empty());
    assert!(!subscriptions.cancel(&held.key), "already gone");
}

#[test]
fn subscribe_cov_property_watches_only_that_property() {
    let mut database = database();
    let mut subscriptions = CovSubscriptions::new();
    let mut held = subscription(false, None);
    held.key.monitored_property = Some(PropertyIdentifier::PresentValue);
    held.cov_increment = Some(number(5.0));
    subscriptions.subscribe(held);

    let mut engine = CovEngine::new(1234);
    let notifications = engine.tick(&database, &mut subscriptions, 0);
    assert_eq!(notifications[0].notification.list_of_values.len(), 1);

    // The subscription's own increment overrides the object's 0.5.
    database
        .set_property(
            analog(),
            PropertyIdentifier::PresentValue,
            PropertyValue::Real(number(23.0)),
        )
        .unwrap();
    assert!(engine.tick(&database, &mut subscriptions, 1).is_empty());

    database
        .set_property(
            analog(),
            PropertyIdentifier::PresentValue,
            PropertyValue::Real(number(27.0)),
        )
        .unwrap();
    assert_eq!(engine.tick(&database, &mut subscriptions, 2).len(), 1);
}

/// One process may watch several properties of the same object. Keyed without
/// the property, the second subscription would replace the first and the
/// subscriber would silently stop hearing about it.
#[test]
fn two_properties_of_one_object_are_separate_subscriptions() {
    let mut database = database();
    let mut subscriptions = CovSubscriptions::new();

    let mut value = subscription(false, None);
    value.key.monitored_property = Some(PropertyIdentifier::PresentValue);
    subscriptions.subscribe(value);
    let mut flags = subscription(false, None);
    flags.key.monitored_property = Some(PropertyIdentifier::StatusFlags);
    subscriptions.subscribe(flags);

    assert_eq!(subscriptions.len(), 2);

    let mut engine = CovEngine::new(1234);
    let notifications = engine.tick(&database, &mut subscriptions, 0);
    assert_eq!(notifications.len(), 2, "each reports its own property");

    set_present_value(&mut database, 30.0);
    let notifications = engine.tick(&database, &mut subscriptions, 1);
    assert_eq!(notifications.len(), 1, "only the one watching the value");
    assert_eq!(
        notifications[0].notification.list_of_values[0].property_identifier,
        PropertyIdentifier::PresentValue
    );
}

/// An increment given with SubscribeCOVProperty applies to whatever property
/// that subscription named, not only to Present_Value.
#[test]
fn a_subscription_increment_applies_to_the_property_it_named() {
    let mut database = ObjectDatabase::new(Device::new(1234, "Test".to_string()));
    let value = AnalogValue::new(1, "Zone temperature".to_string())
        .with_out_of_range_reporting(1, Some(number(15.0)), Some(number(30.0)), number(1.0));
    database.add_object(HostedObject::AnalogValue(value)).unwrap();

    let mut subscriptions = CovSubscriptions::new();
    let mut held = subscription(false, None);
    held.key.monitored_property = Some(PropertyIdentifier::HighLimit);
    held.cov_increment = Some(number(1.0));
    subscriptions.subscribe(held);

    let mut engine = CovEngine::new(1234);
    assert_eq!(engine.tick(&database, &mut subscriptions, 0).len(), 1);

    // High_Limit is the monitored property, so the subscription's increment
    // is what it has to move by: 30.0 to 30.4 is not enough.
    set_high_limit(&mut database, 30.4);
    assert!(engine.tick(&database, &mut subscriptions, 1).is_empty());

    set_high_limit(&mut database, 32.0);
    assert_eq!(engine.tick(&database, &mut subscriptions, 2).len(), 1);
}

fn set_high_limit(database: &mut ObjectDatabase, limit: f32) {
    database
        .set_property(
            analog(),
            PropertyIdentifier::HighLimit,
            PropertyValue::Real(number(limit)),
        )
        .unwrap();
}

#[test]
fn two_subscribers_are_tracked_independently() {
    let mut database = database();
    let mut subscriptions = CovSubscriptions::new();
    subscriptions.subscribe(subscription(false, None));
    let mut other = subscription(false, None);
    other.key.process_identifier = 888;
    other.key.address = SocketAddress::V4 {
        address: u32::from_be_bytes([192, 168, 6, 2]),
        port: 47808,
    };
    subscriptions.subscribe(other);

    let mut engine = CovEngine::new(1234);
    assert_eq!(engine.tick(&database, &mut subscriptions, 0).len(), 2);

    database
        .set_property(
            analog(),
            PropertyIdentifier::PresentValue,
            PropertyValue::Real(number(25.0)),
        )
        .unwrap();
    assert_eq!(engine.tick(&database, &mut subscriptions, 1).len(), 2);
}

#[test]
fn a_lifetime_of_zero_lasts_until_cancelled() {
    let mut subscriptions = CovSubscriptions::new();
    subscriptions.set_now(100);
    assert_eq!(subscriptions.expiry_for(Some(60)), Some(160));
    assert_eq!(subscriptions.expiry_for(Some(0)), None);
    assert_eq!(subscriptions.expiry_for(None), None);
}
