//! The change-of-value engine.

use crate::address::SocketAddress;
use crate::cov::subscriptions;
use crate::cov::subscriptions::{CovSubscriptions, Subscription, SubscriptionKey};
use crate::number::Real;
use crate::object::database::{DatabaseView, ObjectDatabase};
use crate::object::hostable::Hostable;
use crate::object::identifier::{ObjectIdentifier, ObjectType, PropertyIdentifier};
use crate::property::value::{PropertyValue, PropertyValueView};
use crate::table::{Key, Table};
use vstd::prelude::*;

verus! {

/// One property a notification reports.
#[derive(Debug, Clone, PartialEq)]
pub struct CovPropertyValue {
    /// The property.
    pub property_identifier: PropertyIdentifier,
    /// Its value, as the list of application values it is made of.
    pub values: Vec<PropertyValue>,
}

/// What tells a subscriber of a change.
#[derive(Debug, Clone, PartialEq)]
pub struct CovNotification {
    /// The subscriber's process.
    pub subscriber_process_identifier: u32,
    /// The device that reports.
    pub initiating_device: ObjectIdentifier,
    /// The object that changed.
    pub monitored_object: ObjectIdentifier,
    /// Seconds until the subscription expires, 0 where it never does.
    pub time_remaining: u32,
    /// The monitored properties.
    pub list_of_values: Vec<CovPropertyValue>,
}

/// A notification and where it goes.
#[derive(Debug, Clone, PartialEq)]
pub struct AddressedCovNotification {
    /// The notification to send.
    pub notification: CovNotification,
    /// The subscriber's address.
    pub address: SocketAddress,
    /// Whether the subscriber asked for confirmed delivery.
    pub confirmed: bool,
}

impl View for CovPropertyValue {
    type V = (PropertyIdentifier, Seq<PropertyValueView>);

    open spec fn view(&self) -> (PropertyIdentifier, Seq<PropertyValueView>) {
        (self.property_identifier, self.values@.map_values(|value: PropertyValue| value.model()))
    }
}

impl CovPropertyValue {
    /// A property with one value.
    pub fn new(property_identifier: PropertyIdentifier, value: PropertyValue) -> (entry:
        CovPropertyValue)
        ensures
            entry@ == (property_identifier, seq![value.model()]),
    {
        let ghost model = value.model();
        let mut values: Vec<PropertyValue> = Vec::new();
        values.push(value);
        let entry = CovPropertyValue { property_identifier, values };
        proof {
            assert(entry@.1 =~= seq![model]);
        }
        entry
    }
}

/// What a notification says.
pub struct CovNotificationView {
    pub process: u32,
    pub device: ObjectIdentifier,
    pub object: ObjectIdentifier,
    pub remaining: u32,
    pub values: Seq<(PropertyIdentifier, Seq<PropertyValueView>)>,
    pub address: SocketAddress,
    pub confirmed: bool,
}

impl View for AddressedCovNotification {
    type V = CovNotificationView;

    open spec fn view(&self) -> CovNotificationView {
        CovNotificationView {
            process: self.notification.subscriber_process_identifier,
            device: self.notification.initiating_device,
            object: self.notification.monitored_object,
            remaining: self.notification.time_remaining,
            values: self.notification.list_of_values@.map_values(
                |entry: CovPropertyValue| entry@,
            ),
            address: self.address,
            confirmed: self.confirmed,
        }
    }
}

/// What notifications say.
pub open spec fn sent_view(notifications: Seq<AddressedCovNotification>) -> Seq<
    CovNotificationView,
> {
    notifications.map_values(|notification: AddressedCovNotification| notification@)
}

/// One property as one subscription sees it.
#[derive(Debug, Clone, Copy)]
pub struct Watched {
    /// The subscription.
    pub subscription: SubscriptionKey,
    /// The property.
    pub property: PropertyIdentifier,
}

impl Key for Watched {
    fn is_same(&self, other: &Watched) -> (same: bool) {
        self.subscription.is_same(&other.subscription) && self.property == other.property
    }
}

/// Which properties a subscription watches: the one that it names, or else
/// Present_Value with Status_Flags.
pub open spec fn monitored(subscription: Subscription) -> Seq<PropertyIdentifier> {
    match subscription.key.monitored_property {
        Some(property) => seq![property],
        None => seq![PropertyIdentifier::PresentValue, PropertyIdentifier::StatusFlags],
    }
}

/// The properties of an object that can be read, with their values.
pub open spec fn readings<T: Hostable>(
    database: DatabaseView<T>,
    object: ObjectIdentifier,
    properties: Seq<PropertyIdentifier>,
) -> Seq<(PropertyIdentifier, PropertyValueView)>
    decreases properties.len(),
{
    if properties.len() == 0 {
        Seq::empty()
    } else {
        let before = readings(database, object, properties.drop_last());
        match database.reading(object, properties.last()) {
            Ok(value) => before.push((properties.last(), value)),
            Err(_) => before,
        }
    }
}

/// What a subscription's notification would say now.
pub open spec fn observed<T: Hostable>(
    database: DatabaseView<T>,
    subscription: Subscription,
) -> Seq<(PropertyIdentifier, PropertyValueView)> {
    readings(database, subscription.key.monitored_object, monitored(subscription))
}

/// The increment a property must move by before it is worth reporting.
pub open spec fn increment<T: Hostable>(
    database: DatabaseView<T>,
    subscription: Subscription,
    property: PropertyIdentifier,
) -> Option<Real> {
    if subscription.cov_increment is Some {
        subscription.cov_increment
    } else if property != PropertyIdentifier::PresentValue {
        None
    } else {
        match database.reading(
            subscription.key.monitored_object,
            PropertyIdentifier::CovIncrement,
        ) {
            Ok(PropertyValueView::Real(increment)) => Some(increment),
            _ => None,
        }
    }
}

/// Whether a value has moved enough to report.
pub open spec fn is_reportable(
    previous: Option<PropertyValueView>,
    current: PropertyValueView,
    increment: Option<Real>,
) -> bool {
    match previous {
        None => true,
        Some(previous) => match (previous, current, increment) {
            (PropertyValueView::Real(before), PropertyValueView::Real(now), Some(increment)) => {
                let moved = now.difference(before).size();
                increment.below(moved) || moved.same_number(increment)
            },
            _ => !previous.same(current),
        },
    }
}

/// What a subscriber was last told of a property.
pub open spec fn baseline(
    reported: Map<Watched, PropertyValueView>,
    key: SubscriptionKey,
    property: PropertyIdentifier,
) -> Option<PropertyValueView> {
    if reported.dom().contains(Watched { subscription: key, property }) {
        Some(reported[Watched { subscription: key, property }])
    } else {
        None
    }
}

/// Whether any property has moved enough to report.
pub open spec fn is_worth_sending<T: Hostable>(
    database: DatabaseView<T>,
    reported: Map<Watched, PropertyValueView>,
    subscription: Subscription,
) -> bool {
    let seen = observed(database, subscription);
    exists|i: int|
        0 <= i < seen.len() && is_reportable(
            baseline(reported, subscription.key, (#[trigger] seen[i]).0),
            seen[i].1,
            increment(database, subscription, seen[i].0),
        )
}

/// What subscribers were told, with these values added for a subscription.
pub open spec fn remembered(
    reported: Map<Watched, PropertyValueView>,
    key: SubscriptionKey,
    seen: Seq<(PropertyIdentifier, PropertyValueView)>,
) -> Map<Watched, PropertyValueView>
    decreases seen.len(),
{
    if seen.len() == 0 {
        reported
    } else {
        remembered(reported, key, seen.drop_last()).insert(
            Watched { subscription: key, property: seen.last().0 },
            seen.last().1,
        )
    }
}

/// Values as a notification lists them.
pub open spec fn listed(seen: Seq<(PropertyIdentifier, PropertyValueView)>) -> Seq<
    (PropertyIdentifier, Seq<PropertyValueView>),
> {
    seen.map_values(|entry: (PropertyIdentifier, PropertyValueView)| (entry.0, seq![entry.1]))
}

/// What is left by a step of the engine.
#[verifier::ext_equal]
pub struct CovStep {
    pub reported: Map<Watched, PropertyValueView>,
    pub sent: Seq<CovNotificationView>,
}

/// The notification of a subscription.
pub open spec fn notification_for<T: Hostable>(
    database: DatabaseView<T>,
    device: ObjectIdentifier,
    subscription: Subscription,
    now: u64,
) -> CovNotificationView {
    CovNotificationView {
        process: subscription.key.process_identifier,
        device,
        object: subscription.key.monitored_object,
        remaining: subscription.remaining(now as int),
        values: listed(observed(database, subscription)),
        address: subscription.key.address,
        confirmed: subscription.confirmed,
    }
}

/// What looking at one subscription adds.
///
/// A change to one property reports the whole monitored set, and every value the
/// subscriber is told becomes what the next change is measured against.
pub open spec fn watched<T: Hostable>(
    step: CovStep,
    database: DatabaseView<T>,
    device: ObjectIdentifier,
    subscription: Subscription,
    now: u64,
) -> CovStep {
    if is_worth_sending(database, step.reported, subscription) {
        CovStep {
            reported: remembered(
                step.reported,
                subscription.key,
                observed(database, subscription),
            ),
            sent: step.sent.push(notification_for(database, device, subscription, now)),
        }
    } else {
        step
    }
}

/// What looking at every subscription gives.
pub open spec fn watched_all<T: Hostable>(
    reported: Map<Watched, PropertyValueView>,
    database: DatabaseView<T>,
    device: ObjectIdentifier,
    live: Seq<Subscription>,
    now: u64,
) -> CovStep
    decreases live.len(),
{
    if live.len() == 0 {
        CovStep { reported, sent: Seq::empty() }
    } else {
        watched(
            watched_all(reported, database, device, live.drop_last(), now),
            database,
            device,
            live.last(),
            now,
        )
    }
}

/// What subscribers were told, of the subscriptions that are still held.
pub open spec fn carried_over(
    reported: Map<Watched, PropertyValueView>,
    live: Seq<Subscription>,
) -> Map<Watched, PropertyValueView> {
    reported.restrict(Set::new(|entry: Watched| subscriptions::is_held(live, entry.subscription)))
}

// ---------------------------------------------------------------------------
// Laws
// ---------------------------------------------------------------------------

/// The first look at a subscription of which something can be read reports, so a
/// subscriber hears the value it starts from.
pub proof fn law_first_look_reports<T: Hostable>(
    database: DatabaseView<T>,
    reported: Map<Watched, PropertyValueView>,
    subscription: Subscription,
)
    requires
        observed(database, subscription).len() > 0,
        forall|property: PropertyIdentifier|
            !(#[trigger] reported.dom().contains(
                Watched { subscription: subscription.key, property },
            )),
    ensures
        is_worth_sending(database, reported, subscription),
{
    let first = observed(database, subscription)[0];
    assert(!reported.dom().contains(
        Watched { subscription: subscription.key, property: first.0 },
    ));
}

/// Everything a notification says becomes what the next change is measured
/// against: a second look at an unchanged object says nothing.
pub proof fn law_nothing_is_told_twice<T: Hostable>(
    database: DatabaseView<T>,
    step: CovStep,
    device: ObjectIdentifier,
    subscription: Subscription,
    now: u64,
    later: u64,
)
    requires
        is_worth_sending(database, step.reported, subscription),
        is_steady(database, subscription),
    ensures
        ({
            let told = watched(step, database, device, subscription, now);
            watched(told, database, device, subscription, later) == told
        }),
{
    let told = watched(step, database, device, subscription, now);
    let seen = observed(database, subscription);
    lemma_readings_are_distinct(
        database,
        subscription.key.monitored_object,
        monitored(subscription),
    );
    assert forall|i: int| 0 <= i < seen.len() implies baseline(
        told.reported,
        subscription.key,
        (#[trigger] seen[i]).0,
    ) == Some(seen[i].1) by {
        lemma_remembered(step.reported, subscription.key, seen, i);
    }
}

/// A change that is smaller than the increment, measured from what the subscriber
/// was last told, is not reported.
pub proof fn law_small_moves_are_not_reported(before: Real, now: Real, increment: Real)
    requires
        now.difference(before).size().below(increment),
    ensures
        !is_reportable(
            Some(PropertyValueView::Real(before)),
            PropertyValueView::Real(now),
            Some(increment),
        ),
{
}

/// What one subscription is told changes nothing of what another was told.
pub proof fn law_subscribers_are_tracked_apart<T: Hostable>(
    step: CovStep,
    database: DatabaseView<T>,
    device: ObjectIdentifier,
    subscription: Subscription,
    now: u64,
    other: Watched,
)
    requires
        other.subscription != subscription.key,
    ensures
        baseline(
            watched(step, database, device, subscription, now).reported,
            other.subscription,
            other.property,
        ) == baseline(step.reported, other.subscription, other.property),
{
    lemma_remembered_elsewhere(
        step.reported,
        subscription.key,
        observed(database, subscription),
        other,
    );
}

/// A subscription that was given up leaves nothing behind: subscribing again starts
/// from a first look.
pub proof fn law_a_lapsed_subscription_starts_anew(
    reported: Map<Watched, PropertyValueView>,
    live: Seq<Subscription>,
    key: SubscriptionKey,
    property: PropertyIdentifier,
)
    requires
        !subscriptions::is_held(live, key),
    ensures
        baseline(carried_over(reported, live), key, property) is None,
{
}

/// An increment that comes with a subscription rules, whatever property is named.
pub proof fn law_a_named_increment_rules<T: Hostable>(
    database: DatabaseView<T>,
    subscription: Subscription,
    property: PropertyIdentifier,
)
    requires
        subscription.cov_increment is Some,
    ensures
        increment(database, subscription, property) == subscription.cov_increment,
{
}

/// Whether every value a subscription sees stands still: none is a number that is not
/// equal to itself, and no increment is so small that standing still clears it.
pub open spec fn is_steady<T: Hostable>(
    database: DatabaseView<T>,
    subscription: Subscription,
) -> bool {
    forall|i: int|
        0 <= i < observed(database, subscription).len() ==> {
            let seen = #[trigger] observed(database, subscription)[i];
            !is_reportable(Some(seen.1), seen.1, increment(database, subscription, seen.0))
        }
}

/// After a look at every subscription, a second look at a database that did not
/// change tells nobody anything.
pub proof fn law_an_idle_database_reports_nothing<T: Hostable>(
    reported: Map<Watched, PropertyValueView>,
    database: DatabaseView<T>,
    device: ObjectIdentifier,
    live: Seq<Subscription>,
    now: u64,
    later: u64,
)
    requires
        subscriptions::distinct_keys(live),
        forall|i: int| 0 <= i < live.len() ==> is_steady(database, #[trigger] live[i]),
    ensures
        ({
            let first = watched_all(reported, database, device, live, now);
            let kept = carried_over(first.reported, live);
            watched_all(kept, database, device, live, later) == (CovStep {
                reported: kept,
                sent: Seq::empty(),
            })
        }),
{
    let first = watched_all(reported, database, device, live, now);
    let kept = carried_over(first.reported, live);
    assert(live.take(live.len() as int) =~= live);
    lemma_all_told(reported, database, device, live, now, live.len() as int);
    assert forall|i: int| 0 <= i < live.len() implies !is_worth_sending(
        database,
        kept,
        #[trigger] live[i],
    ) by {
        assert(!is_worth_sending(database, first.reported, live[i]));
        assert(subscriptions::is_held_at(live, i, live[i].key));
        assert forall|property: PropertyIdentifier|
            baseline(kept, live[i].key, property) == #[trigger] baseline(
                first.reported,
                live[i].key,
                property,
            ) by {}
    }
    lemma_silence(kept, database, device, live, later, live.len() as int);
}

/// Nobody who was looked at is owed anything.
proof fn lemma_all_told<T: Hostable>(
    reported: Map<Watched, PropertyValueView>,
    database: DatabaseView<T>,
    device: ObjectIdentifier,
    live: Seq<Subscription>,
    now: u64,
    count: int,
)
    requires
        0 <= count <= live.len(),
        subscriptions::distinct_keys(live),
        forall|i: int| 0 <= i < live.len() ==> is_steady(database, #[trigger] live[i]),
    ensures
        forall|i: int|
            0 <= i < count ==> !is_worth_sending(
                database,
                watched_all(reported, database, device, live.take(count), now).reported,
                #[trigger] live[i],
            ),
    decreases count,
{
    if count > 0 {
        let last = live[count - 1];
        lemma_all_told(reported, database, device, live, now, count - 1);
        assert(live.take(count).drop_last() =~= live.take(count - 1));
        assert(live.take(count).last() == last);
        let before = watched_all(reported, database, device, live.take(count - 1), now);
        let after = watched(before, database, device, last, now);
        assert(is_steady(database, live[count - 1]));
        if is_worth_sending(database, before.reported, last) {
            law_nothing_is_told_twice(database, before, device, last, now, now);
            if is_worth_sending(database, after.reported, last) {
                let again = watched(after, database, device, last, now);
                assert(again.sent.len() == after.sent.len() + 1);
            }
        }
        assert forall|i: int| 0 <= i < count implies !is_worth_sending(
            database,
            after.reported,
            #[trigger] live[i],
        ) by {
            if i < count - 1 {
                assert(live[i].key != live[count - 1].key);
                assert(!is_worth_sending(database, before.reported, live[i]));
                assert forall|property: PropertyIdentifier|
                    baseline(after.reported, live[i].key, property) == #[trigger] baseline(
                        before.reported,
                        live[i].key,
                        property,
                    ) by {
                    law_subscribers_are_tracked_apart(
                        before,
                        database,
                        device,
                        last,
                        now,
                        Watched { subscription: live[i].key, property },
                    );
                }
            }
        }
    }
}

proof fn lemma_silence<T: Hostable>(
    reported: Map<Watched, PropertyValueView>,
    database: DatabaseView<T>,
    device: ObjectIdentifier,
    live: Seq<Subscription>,
    now: u64,
    count: int,
)
    requires
        0 <= count <= live.len(),
        forall|i: int|
            0 <= i < live.len() ==> !is_worth_sending(database, reported, #[trigger] live[i]),
    ensures
        watched_all(reported, database, device, live.take(count), now) == (CovStep {
            reported,
            sent: Seq::empty(),
        }),
    decreases count,
{
    if count > 0 {
        lemma_silence(reported, database, device, live, now, count - 1);
        assert(live.take(count).drop_last() =~= live.take(count - 1));
        assert(live.take(count).last() == live[count - 1]);
    }
}

proof fn lemma_readings_come_from<T: Hostable>(
    database: DatabaseView<T>,
    object: ObjectIdentifier,
    properties: Seq<PropertyIdentifier>,
    place: int,
)
    requires
        0 <= place < readings(database, object, properties).len(),
    ensures
        properties.contains(readings(database, object, properties)[place].0),
    decreases properties.len(),
{
    if properties.len() > 0 {
        let earlier = properties.drop_last();
        let before = readings(database, object, earlier);
        if place < before.len() {
            lemma_readings_come_from(database, object, earlier, place);
            let origin = earlier.index_of(before[place].0);
            assert(properties[origin] == before[place].0);
        } else {
            assert(properties[properties.len() - 1] == properties.last());
        }
    }
}

proof fn lemma_readings_are_distinct<T: Hostable>(
    database: DatabaseView<T>,
    object: ObjectIdentifier,
    properties: Seq<PropertyIdentifier>,
)
    requires
        properties.no_duplicates(),
    ensures
        forall|i: int, j: int|
            0 <= i < j < readings(database, object, properties).len() ==> (#[trigger] readings(
                database,
                object,
                properties,
            )[i]).0 != (#[trigger] readings(database, object, properties)[j]).0,
    decreases properties.len(),
{
    if properties.len() > 0 {
        let earlier = properties.drop_last();
        let before = readings(database, object, earlier);
        let seen = readings(database, object, properties);
        lemma_readings_are_distinct(database, object, earlier);
        assert forall|i: int, j: int| 0 <= i < j < seen.len() implies (#[trigger] seen[i]).0 != (
        #[trigger] seen[j]).0 by {
            assert(seen[i] == before[i]);
            if j < before.len() {
                assert(seen[j] == before[j]);
            } else {
                lemma_readings_come_from(database, object, earlier, i);
                let origin = earlier.index_of(before[i].0);
                assert(properties[origin] == before[i].0);
                assert(properties[origin] != properties[properties.len() - 1]);
            }
        }
    }
}

proof fn lemma_remembered(
    reported: Map<Watched, PropertyValueView>,
    key: SubscriptionKey,
    seen: Seq<(PropertyIdentifier, PropertyValueView)>,
    place: int,
)
    requires
        0 <= place < seen.len(),
        forall|i: int, j: int|
            0 <= i < j < seen.len() ==> (#[trigger] seen[i]).0 != (#[trigger] seen[j]).0,
    ensures
        remembered(reported, key, seen).dom().contains(
            Watched { subscription: key, property: seen[place].0 },
        ),
        remembered(reported, key, seen)[Watched {
            subscription: key,
            property: seen[place].0,
        }] == seen[place].1,
    decreases seen.len(),
{
    if place < seen.len() - 1 {
        let earlier = seen.drop_last();
        assert(seen[place].0 != seen[seen.len() - 1].0);
        lemma_remembered(reported, key, earlier, place);
        assert(earlier[place] == seen[place]);
    }
}

proof fn lemma_remembered_elsewhere(
    reported: Map<Watched, PropertyValueView>,
    key: SubscriptionKey,
    seen: Seq<(PropertyIdentifier, PropertyValueView)>,
    other: Watched,
)
    requires
        other.subscription != key,
    ensures
        remembered(reported, key, seen).dom().contains(other) == reported.dom().contains(other),
        reported.dom().contains(other) ==> remembered(reported, key, seen)[other]
            == reported[other],
    decreases seen.len(),
{
    if seen.len() > 0 {
        lemma_remembered_elsewhere(reported, key, seen.drop_last(), other);
    }
}

// ---------------------------------------------------------------------------
// The engine
// ---------------------------------------------------------------------------

/// Watches subscribed objects and reports changes.
pub struct CovEngine {
    device: ObjectIdentifier,
    /// The last value reported per subscription and property, which is what a change
    /// is measured against. Keyed by subscription so two subscribers with different
    /// increments are tracked independently.
    reported: Table<Watched, PropertyValue>,
}

spec fn models(reported: Map<Watched, PropertyValue>) -> Map<Watched, PropertyValueView> {
    Map::new(|entry: Watched| reported.dom().contains(entry), |entry: Watched| reported[entry].model())
}

/// What was read of a subscription's properties.
spec fn seen_models(seen: Seq<(PropertyIdentifier, PropertyValue)>) -> Seq<
    (PropertyIdentifier, PropertyValueView),
> {
    seen.map_values(|entry: (PropertyIdentifier, PropertyValue)| (entry.0, entry.1.model()))
}

fn is_held_key(live: &Vec<Subscription>, key: SubscriptionKey) -> (held: bool)
    ensures
        held == subscriptions::is_held(live@, key),
{
    let mut i: usize = 0;
    while i < live.len()
        invariant
            i <= live.len(),
            forall|j: int| 0 <= j < i ==> (#[trigger] live@[j]).key != key,
        decreases live.len() - i,
    {
        if live[i].key.is_same(&key) {
            proof {
                assert(subscriptions::is_held_at(live@, i as int, key));
            }
            return true;
        }
        i += 1;
    }
    false
}

/// Whether a value has moved enough to report.
///
/// A first observation always reports. An increment only applies to numbers; for
/// anything else, and for a change of value type, any difference reports.
pub fn reportable(
    previous: Option<&PropertyValue>,
    current: &PropertyValue,
    increment: Option<Real>,
) -> (report: bool)
    ensures
        report == is_reportable(
            match previous {
                Some(previous) => Some(previous.model()),
                None => None,
            },
            current.model(),
            increment,
        ),
{
    match previous {
        None => true,
        Some(previous) => match (previous, current, increment) {
            (PropertyValue::Real(before), PropertyValue::Real(now), Some(increment)) => {
                now.minus(*before).absolute().is_at_least(increment)
            },
            _ => !previous.same_as(current),
        },
    }
}

impl CovEngine {
    /// What subscribers were last told.
    pub closed spec fn told(&self) -> Map<Watched, PropertyValueView> {
        models(self.reported@)
    }

    /// The device named in notifications.
    pub closed spec fn reporter(&self) -> ObjectIdentifier {
        self.device
    }

    /// Whether the engine keeps one value per subscription and property.
    pub closed spec fn wf(&self) -> bool {
        self.reported.wf()
    }

    /// Create an engine reporting `device_instance` as the initiating device.
    pub fn new(device_instance: u32) -> (engine: CovEngine)
        ensures
            engine.wf(),
            engine.told() == Map::<Watched, PropertyValueView>::empty(),
            engine.reporter() == (ObjectIdentifier {
                object_type: ObjectType::Device,
                instance: device_instance,
            }),
    {
        let engine = CovEngine {
            device: ObjectIdentifier { object_type: ObjectType::Device, instance: device_instance },
            reported: Table::new(),
        };
        proof {
            assert(engine.told() =~= Map::<Watched, PropertyValueView>::empty());
        }
        engine
    }

    /// Expire stale subscriptions, then report any change worth sending.
    ///
    /// The first evaluation of a new subscription always reports, which gives the
    /// subscriber its initial value the way a real device does.
    pub fn tick<T: Hostable>(
        &mut self,
        database: &ObjectDatabase<T>,
        subscriptions: &mut CovSubscriptions,
        now_seconds: u64,
    ) -> (notifications: Vec<AddressedCovNotification>)
        requires
            old(self).wf(),
            database@.wf(),
            old(subscriptions).wf(),
        ensures
            final(self).wf(),
            final(self).reporter() == old(self).reporter(),
            final(subscriptions).wf(),
            final(subscriptions).clock() == now_seconds,
            final(subscriptions).held() == subscriptions::living(
                old(subscriptions).held(),
                now_seconds,
            ),
            (CovStep { reported: final(self).told(), sent: sent_view(notifications@) })
                == watched_all(
                carried_over(old(self).told(), final(subscriptions).held()),
                database@,
                old(self).reporter(),
                final(subscriptions).held(),
                now_seconds,
            ),
    {
        subscriptions.set_now(now_seconds);
        let expired = subscriptions.expire(now_seconds);
        let live = subscriptions.all();

        // Forget tracking state for subscriptions that have gone away, so a
        // resubscribe starts clean rather than comparing against a stale value.
        let still_held = |entry: &Watched, told: &PropertyValue| -> (held: bool)
            ensures
                held == subscriptions::is_held(live@, entry.subscription),
            { is_held_key(&live, entry.subscription) };
        self.reported.keep(&still_held);
        let ghost start = carried_over(old(self).told(), live@);
        proof {
            assert(self.told() =~= start);
        }

        let mut notifications: Vec<AddressedCovNotification> = Vec::new();
        let mut i: usize = 0;
        proof {
            assert(live@.take(0) =~= Seq::<Subscription>::empty());
            assert(sent_view(notifications@) =~= Seq::<CovNotificationView>::empty());
        }
        while i < live.len()
            invariant
                i <= live.len(),
                self.wf(),
                self.reporter() == old(self).reporter(),
                database@.wf(),
                (CovStep { reported: self.told(), sent: sent_view(notifications@) })
                    == watched_all(
                    start,
                    database@,
                    self.reporter(),
                    live@.take(i as int),
                    now_seconds,
                ),
            decreases live.len() - i,
        {
            let ghost earlier = notifications@;
            let ghost before = CovStep { reported: self.told(), sent: sent_view(notifications@) };
            proof {
                let longer = live@.take(i + 1);
                assert(longer.drop_last() =~= live@.take(i as int));
                assert(longer.last() == live@[i as int]);
            }
            match self.report(database, &live[i], now_seconds) {
                Some(notification) => {
                    notifications.push(notification);
                    proof {
                        assert(sent_view(notifications@) =~= sent_view(earlier).push(
                            notification@,
                        ));
                    }
                },
                None => {},
            }
            i += 1;
        }
        proof {
            assert(live@.take(live@.len() as int) =~= live@);
        }
        notifications
    }

    /// Look at one subscription, remembering what its notification says.
    fn report<T: Hostable>(
        &mut self,
        database: &ObjectDatabase<T>,
        subscription: &Subscription,
        now_seconds: u64,
    ) -> (notification: Option<AddressedCovNotification>)
        requires
            old(self).wf(),
            database@.wf(),
        ensures
            final(self).wf(),
            final(self).reporter() == old(self).reporter(),
            notification is Some <==> is_worth_sending(
                database@,
                old(self).told(),
                *subscription,
            ),
            match notification {
                None => final(self).told() == old(self).told(),
                Some(notification) => {
                    &&& notification@ == notification_for(
                        database@,
                        old(self).reporter(),
                        *subscription,
                        now_seconds,
                    )
                    &&& final(self).told() == remembered(
                        old(self).told(),
                        subscription.key,
                        observed(database@, *subscription),
                    )
                },
            },
    {
        // Read the monitored set once. The same snapshot decides whether to report,
        // goes on the wire, and becomes the next baseline.
        let mut seen = self.observe(database, subscription);
        let ghost watched_now = observed(database@, *subscription);
        let mut worth_sending = false;
        let mut i: usize = 0;
        while i < seen.len() && !worth_sending
            invariant
                i <= seen.len(),
                self.wf(),
                *self == *old(self),
                database@.wf(),
                seen_models(seen@) == watched_now,
                watched_now == observed(database@, *subscription),
                worth_sending ==> is_worth_sending(database@, self.told(), *subscription),
                !worth_sending ==> forall|j: int|
                    0 <= j < i ==> !is_reportable(
                        baseline(self.told(), subscription.key, (#[trigger] watched_now[j]).0),
                        watched_now[j].1,
                        increment(database@, *subscription, watched_now[j].0),
                    ),
            decreases seen.len() - i,
        {
            let property = seen[i].0;
            proof {
                assert(watched_now[i as int] == (seen@[i as int].0, seen@[i as int].1.model()));
            }
            let increment = self.increment_for(database, subscription, property);
            let previous = self.reported.get(
                Watched { subscription: subscription.key, property },
            );
            if reportable(previous, &seen[i].1, increment) {
                worth_sending = true;
            }
            i += 1;
        }
        if !worth_sending {
            return None;
        }
        let mut list_of_values: Vec<CovPropertyValue> = Vec::new();
        let mut k: usize = 0;
        proof {
            assert(watched_now.take(0) =~= Seq::<
                (PropertyIdentifier, PropertyValueView),
            >::empty());
        }
        while k < seen.len()
            invariant
                k <= seen.len(),
                self.wf(),
                self.reporter() == old(self).reporter(),
                seen_models(seen@) == watched_now,
                list_of_values@.len() == k,
                forall|j: int|
                    0 <= j < k ==> (#[trigger] list_of_values@[j])@ == (
                        watched_now[j].0,
                        seq![watched_now[j].1],
                    ),
                self.told() == remembered(
                    old(self).told(),
                    subscription.key,
                    watched_now.take(k as int),
                ),
            decreases seen.len() - k,
        {
            let property = seen[k].0;
            let ghost before = self.reported@;
            proof {
                let longer = watched_now.take(k + 1);
                assert(longer.drop_last() =~= watched_now.take(k as int));
                assert(watched_now[k as int] == (seen@[k as int].0, seen@[k as int].1.model()));
                assert(longer.last() == watched_now[k as int]);
            }
            list_of_values.push(CovPropertyValue::new(property, seen[k].1.duplicate()));
            let told = seen[k].1.duplicate();
            let ghost model = told.model();
            self.reported.insert(Watched { subscription: subscription.key, property }, told);
            proof {
                assert(models(self.reported@) =~= models(before).insert(
                    Watched { subscription: subscription.key, property },
                    model,
                ));
            }
            k += 1;
        }
        let notification = AddressedCovNotification {
            notification: CovNotification {
                subscriber_process_identifier: subscription.key.process_identifier,
                initiating_device: self.device,
                monitored_object: subscription.key.monitored_object,
                time_remaining: subscription.time_remaining(now_seconds),
                list_of_values,
            },
            address: subscription.key.address,
            confirmed: subscription.confirmed,
        };
        proof {
            assert(watched_now.take(watched_now.len() as int) =~= watched_now);
            assert(notification@.values =~= listed(watched_now));
        }
        Some(notification)
    }

    fn observe<T: Hostable>(
        &self,
        database: &ObjectDatabase<T>,
        subscription: &Subscription,
    ) -> (seen: Vec<(PropertyIdentifier, PropertyValue)>)
        requires
            database@.wf(),
        ensures
            seen_models(seen@) == observed(database@, *subscription),
    {
        let properties = self.monitored_properties(subscription);
        let ghost object = subscription.key.monitored_object;
        let mut seen: Vec<(PropertyIdentifier, PropertyValue)> = Vec::new();
        let mut i: usize = 0;
        proof {
            assert(properties@.take(0) =~= Seq::<PropertyIdentifier>::empty());
            assert(seen_models(seen@) =~= readings(database@, object, properties@.take(0)));
        }
        while i < properties.len()
            invariant
                i <= properties.len(),
                database@.wf(),
                object == subscription.key.monitored_object,
                seen_models(seen@) == readings(database@, object, properties@.take(i as int)),
            decreases properties.len() - i,
        {
            let property = properties[i];
            let ghost earlier = seen@;
            proof {
                let longer = properties@.take(i + 1);
                assert(longer.drop_last() =~= properties@.take(i as int));
                assert(longer.last() == property);
            }
            match database.get_property(subscription.key.monitored_object, property) {
                Ok(value) => {
                    let ghost model = value.model();
                    seen.push((property, value));
                    proof {
                        assert(seen_models(seen@) =~= seen_models(earlier).push((property, model)));
                    }
                },
                Err(_) => {},
            }
            i += 1;
        }
        proof {
            assert(properties@.take(properties@.len() as int) =~= properties@);
        }
        seen
    }

    /// Which properties a subscription watches.
    ///
    /// SubscribeCOVProperty names one. Plain SubscribeCOV reports a pair for the
    /// analog, binary and multi-state object types: Present_Value and Status_Flags.
    ///
    /// Reliability and Event_State are deliberately not included, though a
    /// subscriber might seem to want them. Adding a property widens the *trigger* as
    /// well as the payload, so a device sending them reports changes nobody asked
    /// about. Nothing is lost by leaving them out: Status_Flags carries
    /// the fault bit from Reliability and the in-alarm bit from Event_State, so a
    /// move in either still reports.
    pub fn monitored_properties(&self, subscription: &Subscription) -> (properties: Vec<
        PropertyIdentifier,
    >)
        ensures
            properties@ == monitored(*subscription),
    {
        let mut properties: Vec<PropertyIdentifier> = Vec::new();
        match subscription.key.monitored_property {
            Some(property) => {
                properties.push(property);
            },
            None => {
                properties.push(PropertyIdentifier::PresentValue);
                properties.push(PropertyIdentifier::StatusFlags);
            },
        }
        proof {
            assert(properties@ =~= monitored(*subscription));
        }
        properties
    }

    /// The increment a property must move by before it is worth reporting.
    ///
    /// An increment supplied with SubscribeCOVProperty applies to the property that
    /// subscription named, whichever it is: such a subscription watches exactly one
    /// property, so there is nothing else it could mean. The object's own
    /// `COV_Increment` describes Present_Value alone.
    pub fn increment_for<T: Hostable>(
        &self,
        database: &ObjectDatabase<T>,
        subscription: &Subscription,
        property: PropertyIdentifier,
    ) -> (found: Option<Real>)
        requires
            database@.wf(),
        ensures
            found == increment(database@, *subscription, property),
    {
        if subscription.cov_increment.is_some() {
            return subscription.cov_increment;
        }
        if property != PropertyIdentifier::PresentValue {
            return None;
        }
        match database.get_property(
            subscription.key.monitored_object,
            PropertyIdentifier::CovIncrement,
        ) {
            Ok(PropertyValue::Real(increment)) => Some(increment),
            _ => None,
        }
    }
}

} // verus!
