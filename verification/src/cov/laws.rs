//! What the change-of-value engine can be relied on for: which changes a subscriber is
//! told of, and what it is told.

use crate::cov::engine;
use crate::cov::engine::{CovNotificationView, CovStep, Watched};
use crate::cov::subscriptions;
use crate::cov::subscriptions::{Subscription, SubscriptionKey};
use crate::number;
use crate::number::Real;
use crate::object::database::DatabaseView;
use crate::object::error::ObjectErrorView;
use crate::object::hostable::Hostable;
use crate::object::identifier::{ObjectIdentifier, PropertyIdentifier};
use crate::property::value::PropertyValueView;
use vstd::prelude::*;

verus! {

/// A number that moved by its increment or more is reported, up or down, and one that
/// moved by less is not. Exactly measured, a move of the increment or more in either
/// direction is always reported.
pub proof fn law_moves_are_reported_either_way(before: Real, now: Real, increment: Real)
    ensures
        ({
            let reported = engine::is_reportable(
                Some(PropertyValueView::Real(before)),
                PropertyValueView::Real(now),
                Some(increment),
            );
            let moved = now.difference(before).size();
            &&& !moved.is_nan() && !increment.is_nan() ==> reported == !moved.below(increment)
            &&& before.is_finite() && now.is_finite() && increment.is_finite() && now.exact()
                - before.exact() >= increment.exact() ==> reported
            &&& before.is_finite() && now.is_finite() && increment.is_finite() && before.exact()
                - now.exact() >= increment.exact() ==> reported
        }),
{
    if before.is_finite() && now.is_finite() && increment.is_finite() && (now.exact()
        - before.exact() >= increment.exact()
            || before.exact() - now.exact() >= increment.exact()) {
        number::law_distances_are_measured_either_way(now, before, increment);
    }
}

/// A value is reported the first time it is seen, and then where it differs from what
/// was told; without an increment, any difference counts.
pub proof fn law_differences_are_reported(
    before: PropertyValueView,
    now: PropertyValueView,
    increment: Option<Real>,
)
    ensures
        engine::is_reportable(None, now, increment),
        increment is None ==> engine::is_reportable(Some(before), now, increment) == !before.same(
            now,
        ),
        !(before is Real) || !(now is Real) ==> engine::is_reportable(Some(before), now, increment)
            == !before.same(now),
{
}

/// Whether a subscription watches a property: the one it names, or else the value of the
/// object and its flags.
pub open spec fn watches(subscription: Subscription, property: PropertyIdentifier) -> bool {
    match subscription.key.monitored_property {
        Some(named) => property == named,
        None => property == PropertyIdentifier::PresentValue || property
            == PropertyIdentifier::StatusFlags,
    }
}

/// The increment that a subscription measures a property by: its own, or for the value
/// that of the object, where it has one.
pub open spec fn measure<T: Hostable>(
    database: DatabaseView<T>,
    subscription: Subscription,
    property: PropertyIdentifier,
) -> Option<Real> {
    match (
        subscription.cov_increment,
        database.reading(subscription.key.monitored_object, PropertyIdentifier::CovIncrement),
    ) {
        (Some(own), _) => Some(own),
        (None, Ok(PropertyValueView::Real(increment))) if property
            == PropertyIdentifier::PresentValue => Some(increment),
        _ => None,
    }
}

/// Whether a subscriber is owed word of a property: it can be read, and it was not told
/// yet or has moved since it was.
pub open spec fn is_news<T: Hostable>(
    database: DatabaseView<T>,
    told: Map<Watched, PropertyValueView>,
    subscription: Subscription,
    property: PropertyIdentifier,
) -> bool {
    let entry = Watched { subscription: subscription.key, property };
    &&& watches(subscription, property)
    &&& database.reading(subscription.key.monitored_object, property) is Ok
    &&& !told.dom().contains(entry) || engine::is_reportable(
        Some(told[entry]),
        database.reading(subscription.key.monitored_object, property)->Ok_0,
        measure(database, subscription, property),
    )
}

/// Whether a notification tells a subscriber how its object is now: it names the
/// subscription and the device, goes where the subscriber is, and lists every watched
/// property that can be read with what it reads.
pub open spec fn tells<T: Hostable>(
    notification: CovNotificationView,
    database: DatabaseView<T>,
    device: ObjectIdentifier,
    subscription: Subscription,
    now: u64,
) -> bool {
    &&& notification.process == subscription.key.process_identifier
    &&& notification.device == device
    &&& notification.object == subscription.key.monitored_object
    &&& notification.address == subscription.key.address
    &&& notification.confirmed == subscription.confirmed
    &&& match subscription.expires_at {
        None => notification.remaining == 0,
        Some(expiry) => now < expiry && expiry - now <= u32::MAX ==> notification.remaining
            == expiry - now,
    }
    &&& forall|i: int|
        0 <= i < notification.values.len() ==> {
            let (property, values) = #[trigger] notification.values[i];
            &&& watches(subscription, property)
            &&& values.len() == 1
            &&& database.reading(subscription.key.monitored_object, property) == Ok::<
                PropertyValueView,
                ObjectErrorView,
            >(values[0])
        }
    &&& forall|property: PropertyIdentifier|
        watches(subscription, property) && (#[trigger] database.reading(
            subscription.key.monitored_object,
            property,
        )) is Ok ==> exists|i: int|
            0 <= i < notification.values.len() && (#[trigger] notification.values[i]).0 == property
}

/// A look at a subscription tells the subscriber exactly where something it watches is
/// news, and then everything it watches, which from then on is what it was told.
pub proof fn law_news_is_told<T: Hostable>(
    step: CovStep,
    database: DatabaseView<T>,
    device: ObjectIdentifier,
    subscription: Subscription,
    now: u64,
    property: PropertyIdentifier,
)
    ensures
        ({
            let after = engine::watched(step, database, device, subscription, now);
            let entry = Watched { subscription: subscription.key, property };
            &&& is_news(database, step.reported, subscription, property) ==> after.sent.len()
                == step.sent.len() + 1
            &&& (forall|other: PropertyIdentifier|
                !#[trigger] is_news(database, step.reported, subscription, other)) ==> after == step
            &&& after.sent.len() == step.sent.len() || after.sent.len() == step.sent.len() + 1
            &&& after.sent.len() == step.sent.len() ==> after == step
            &&& after.sent.len() == step.sent.len() + 1 ==> {
                &&& after.sent.drop_last() == step.sent
                &&& tells(after.sent.last(), database, device, subscription, now)
                &&& watches(subscription, property) && (database.reading(
                    subscription.key.monitored_object,
                    property,
                ) is Ok) ==> after.reported.dom().contains(entry) && after.reported[entry]
                    == database.reading(subscription.key.monitored_object, property)->Ok_0
            }
        }),
{
    let object = subscription.key.monitored_object;
    let seen = engine::observed(database, subscription);
    let properties = engine::monitored(subscription);
    let after = engine::watched(step, database, device, subscription, now);
    lemma_observed(database, subscription);
    if engine::is_worth_sending(database, step.reported, subscription) {
        let i = choose|i: int|
            0 <= i < seen.len() && engine::is_reportable(
                engine::baseline(step.reported, subscription.key, (#[trigger] seen[i]).0),
                seen[i].1,
                engine::increment(database, subscription, seen[i].0),
            );
        assert(is_news(database, step.reported, subscription, seen[i].0));
        assert(after.sent.drop_last() =~= step.sent);
        let notice = after.sent.last();
        assert forall|i: int| 0 <= i < notice.values.len() implies {
            let (property, values) = #[trigger] notice.values[i];
            &&& watches(subscription, property)
            &&& values.len() == 1
            &&& database.reading(object, property) == Ok::<PropertyValueView, ObjectErrorView>(
                values[0],
            )
        } by {
            assert(notice.values[i] == (seen[i].0, seq![seen[i].1]));
        }
        assert forall|property: PropertyIdentifier|
            watches(subscription, property) && (#[trigger] database.reading(
                object,
                property,
            )) is Ok implies exists|i: int|
            0 <= i < notice.values.len() && (#[trigger] notice.values[i]).0 == property by {
            let i = choose|i: int| 0 <= i < seen.len() && (#[trigger] seen[i]).0 == property;
            assert(notice.values[i].0 == property);
        }
        if watches(subscription, property) && database.reading(object, property) is Ok {
            let i = choose|i: int| 0 <= i < seen.len() && (#[trigger] seen[i]).0 == property;
            lemma_told(step.reported, subscription.key, seen, i);
        }
    } else {
        assert forall|other: PropertyIdentifier|
            !#[trigger] is_news(database, step.reported, subscription, other) by {
            if is_news(database, step.reported, subscription, other) {
                let i = choose|i: int| 0 <= i < seen.len() && (#[trigger] seen[i]).0 == other;
                assert(seen[i].1 == database.reading(object, other)->Ok_0);
                assert(engine::is_reportable(
                    engine::baseline(step.reported, subscription.key, seen[i].0),
                    seen[i].1,
                    engine::increment(database, subscription, seen[i].0),
                ));
            }
        }
    }
}

proof fn lemma_observed<T: Hostable>(database: DatabaseView<T>, subscription: Subscription)
    ensures
        ({
            let seen = engine::observed(database, subscription);
            let object = subscription.key.monitored_object;
            &&& forall|i: int|
                0 <= i < seen.len() ==> watches(subscription, (#[trigger] seen[i]).0)
                    && database.reading(object, seen[i].0) == Ok::<
                    PropertyValueView,
                    ObjectErrorView,
                >(seen[i].1)
            &&& forall|i: int, j: int|
                0 <= i < j < seen.len() ==> (#[trigger] seen[i]).0 != (#[trigger] seen[j]).0
            &&& forall|property: PropertyIdentifier|
                watches(subscription, property) && (#[trigger] database.reading(
                    object,
                    property,
                )) is Ok ==> exists|i: int|
                    0 <= i < seen.len() && (#[trigger] seen[i]).0 == property
        }),
{
    let object = subscription.key.monitored_object;
    let seen = engine::observed(database, subscription);
    reveal_with_fuel(engine::readings, 3);
    match subscription.key.monitored_property {
        Some(named) => {
            let all = seq![named];
            assert(all.drop_last() =~= Seq::<PropertyIdentifier>::empty());
            assert forall|property: PropertyIdentifier|
                watches(subscription, property) && (#[trigger] database.reading(
                    object,
                    property,
                )) is Ok implies exists|i: int|
                0 <= i < seen.len() && (#[trigger] seen[i]).0 == property by {
                assert(seen[0].0 == property);
            }
        },
        None => {
            let all = seq![PropertyIdentifier::PresentValue, PropertyIdentifier::StatusFlags];
            assert(all.drop_last() =~= seq![PropertyIdentifier::PresentValue]);
            assert(all.drop_last().drop_last() =~= Seq::<PropertyIdentifier>::empty());
            assert forall|property: PropertyIdentifier|
                watches(subscription, property) && (#[trigger] database.reading(
                    object,
                    property,
                )) is Ok implies exists|i: int|
                0 <= i < seen.len() && (#[trigger] seen[i]).0 == property by {
                if property == PropertyIdentifier::PresentValue {
                    assert(seen[0].0 == property);
                } else {
                    assert(seen[seen.len() - 1].0 == property);
                }
            }
        },
    }
}

proof fn lemma_told(
    reported: Map<Watched, PropertyValueView>,
    key: SubscriptionKey,
    seen: Seq<(PropertyIdentifier, PropertyValueView)>,
    place: int,
)
    requires
        0 <= place < seen.len(),
        forall|i: int, j: int|
            0 <= i < j < seen.len() ==> (#[trigger] seen[i]).0 != (#[trigger] seen[j]).0,
    ensures
        engine::remembered(reported, key, seen).dom().contains(
            Watched { subscription: key, property: seen[place].0 },
        ),
        engine::remembered(reported, key, seen)[Watched {
            subscription: key,
            property: seen[place].0,
        }] == seen[place].1,
    decreases seen.len(),
{
    if place < seen.len() - 1 {
        let earlier = seen.drop_last();
        assert(seen[place].0 != seen[seen.len() - 1].0);
        lemma_told(reported, key, earlier, place);
        assert(earlier[place] == seen[place]);
    }
}

/// A tick looks at every subscription that is held, each against what that subscriber was
/// told before: a subscriber with news hears of it, and one without hears nothing.
pub proof fn law_a_tick_looks_at_every_subscription<T: Hostable>(
    reported: Map<Watched, PropertyValueView>,
    database: DatabaseView<T>,
    device: ObjectIdentifier,
    live: Seq<Subscription>,
    now: u64,
    place: int,
    property: PropertyIdentifier,
)
    requires
        subscriptions::distinct_keys(live),
        0 <= place < live.len(),
        is_news(database, reported, live[place], property),
    ensures
        exists|i: int|
            0 <= i < engine::watched_all(reported, database, device, live, now).sent.len() && tells(
                #[trigger] engine::watched_all(reported, database, device, live, now).sent[i],
                database,
                device,
                live[place],
                now,
            ),
    decreases live.len(),
{
    let shorter = live.drop_last();
    let before = engine::watched_all(reported, database, device, shorter, now);
    let after = engine::watched_all(reported, database, device, live, now);
    law_news_is_told(before, database, device, live.last(), now, property);
    if place == live.len() - 1 {
        lemma_kept_apart(reported, database, device, shorter, now, live[place].key, property);
        assert(is_news(database, before.reported, live[place], property));
        assert(tells(after.sent[after.sent.len() - 1], database, device, live[place], now));
    } else {
        law_a_tick_looks_at_every_subscription(
            reported,
            database,
            device,
            shorter,
            now,
            place,
            property,
        );
        let i = choose|i: int|
            0 <= i < before.sent.len() && tells(
                #[trigger] before.sent[i],
                database,
                device,
                shorter[place],
                now,
            );
        assert(after.sent[i] == before.sent[i]) by {
            if after.sent.len() == before.sent.len() + 1 {
                assert(after.sent.drop_last()[i] == after.sent[i]);
            }
        }
    }
}

proof fn lemma_kept_apart<T: Hostable>(
    reported: Map<Watched, PropertyValueView>,
    database: DatabaseView<T>,
    device: ObjectIdentifier,
    live: Seq<Subscription>,
    now: u64,
    key: SubscriptionKey,
    property: PropertyIdentifier,
)
    requires
        forall|i: int| 0 <= i < live.len() ==> (#[trigger] live[i]).key != key,
    ensures
        engine::baseline(
            engine::watched_all(reported, database, device, live, now).reported,
            key,
            property,
        ) == engine::baseline(reported, key, property),
    decreases live.len(),
{
    if live.len() > 0 {
        let shorter = live.drop_last();
        assert forall|i: int| 0 <= i < shorter.len() implies (#[trigger] shorter[i]).key != key by {
            assert(live[i].key != key);
        }
        assert(live[live.len() - 1].key != key);
        lemma_kept_apart(reported, database, device, shorter, now, key, property);
        engine::law_subscribers_are_tracked_apart(
            engine::watched_all(reported, database, device, shorter, now),
            database,
            device,
            live.last(),
            now,
            Watched { subscription: key, property },
        );
    }
}

/// Whoever hears of a change subscribed and had news: no notification goes out that no
/// subscription was owed.
pub proof fn law_only_news_is_told<T: Hostable>(
    reported: Map<Watched, PropertyValueView>,
    database: DatabaseView<T>,
    device: ObjectIdentifier,
    live: Seq<Subscription>,
    now: u64,
    i: int,
)
    requires
        subscriptions::distinct_keys(live),
        0 <= i < engine::watched_all(reported, database, device, live, now).sent.len(),
    ensures
        exists|place: int, property: PropertyIdentifier|
            #![trigger is_news(database, reported, live[place], property)]
            0 <= place < live.len() && is_news(database, reported, live[place], property) && tells(
                engine::watched_all(reported, database, device, live, now).sent[i],
                database,
                device,
                live[place],
                now,
            ),
    decreases live.len(),
{
    if live.len() > 0 {
        let shorter = live.drop_last();
        let before = engine::watched_all(reported, database, device, shorter, now);
        let after = engine::watched_all(reported, database, device, live, now);
        law_news_is_told(
            before,
            database,
            device,
            live.last(),
            now,
            PropertyIdentifier::PresentValue,
        );
        if i < before.sent.len() {
            law_only_news_is_told(reported, database, device, shorter, now, i);
            let (place, property) = choose|place: int, property: PropertyIdentifier|
                #![trigger is_news(database, reported, shorter[place], property)]
                0 <= place < shorter.len() && is_news(database, reported, shorter[place], property)
                    && tells(before.sent[i], database, device, shorter[place], now);
            assert(after.sent[i] == before.sent[i]) by {
                if after.sent.len() == before.sent.len() + 1 {
                    assert(after.sent.drop_last()[i] == after.sent[i]);
                }
            }
            assert(live[place] == shorter[place]);
            assert(is_news(database, reported, live[place], property));
        } else {
            let place = live.len() - 1;
            let property = choose|property: PropertyIdentifier|
                #[trigger] is_news(database, before.reported, live[place], property);
            assert(is_news(database, before.reported, live[place], property));
            lemma_kept_apart(reported, database, device, shorter, now, live[place].key, property);
            assert(is_news(database, reported, live[place], property));
            assert(after.sent[i] == after.sent.last());
        }
    }
}

/// A tick keeps exactly the subscriptions whose time is not up, and those without one.
pub proof fn law_subscriptions_live_out_their_time(
    held: Seq<Subscription>,
    subscription: Subscription,
    now: u64,
)
    ensures
        subscriptions::living(held, now).contains(subscription) == (held.contains(subscription) && (
        subscription.expires_at is None || now < subscription.expires_at->Some_0)),
    decreases held.len(),
{
    reveal(Seq::filter);
    if held.len() > 0 {
        let shorter = held.drop_last();
        law_subscriptions_live_out_their_time(shorter, subscription, now);
        let before = subscriptions::living(shorter, now);
        let after = subscriptions::living(held, now);
        assert(held[held.len() - 1] == held.last());
        if shorter.contains(subscription) {
            assert(held[shorter.index_of(subscription)] == subscription);
        }
        if held.contains(subscription) && held.index_of(subscription) < shorter.len() {
            assert(shorter[held.index_of(subscription)] == subscription);
        }
        if before.contains(subscription) {
            assert(after[before.index_of(subscription)] == subscription);
        }
        if after.len() > before.len() {
            assert(after[before.len() as int] == held.last());
        }
        if after.contains(subscription) && after.index_of(subscription) < before.len() {
            assert(before[after.index_of(subscription)] == subscription);
        }
    }
}

/// A subscription that is made with a lifetime expires after it; one with none, or with one
/// of zero, never. What it has left counts down to its expiry, as far as can be said.
pub proof fn law_lifetimes_count_down(
    subscription: Subscription,
    made: u64,
    lifetime: Option<u32>,
    now: u64,
)
    requires
        lifetime is Some ==> made + lifetime->Some_0 <= u64::MAX,
        subscription.expires_at == subscriptions::expiry_after(made, lifetime),
    ensures
        lifetime is None || lifetime->Some_0 == 0 ==> subscription.expires_at is None
            && subscription.lives(now) && subscription.remaining(now as int) == 0,
        lifetime is Some && lifetime->Some_0 > 0 ==> {
            let end = made + lifetime->Some_0;
            &&& subscription.lives(now) <==> now < end
            &&& now >= end ==> subscription.remaining(now as int) == 0
            &&& made <= now < end ==> subscription.remaining(now as int) == end - now
        },
{
}

} // verus!
