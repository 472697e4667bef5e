//! What lists of constructed values are written as is what they are read from.

use crate::encoding::context;
use crate::encoding::error::EncodingErrorView;
use crate::encoding::primitive;
use crate::encoding::tag;
use crate::object::identifier::ObjectIdentifier;
use crate::octets;
use crate::property::codec;
use crate::property::complex;
use crate::property::round_trip;
use crate::property::value::{
    AddressView, CovSubscriptionView, DestinationView, ObjectPropertyReference, PropertyValueView,
    TimeValueView, TimestampValue, ValueSourceValue,
};
use vstd::prelude::*;

verus! {

/// Encodings one after another.
pub open spec fn joined(encodings: Seq<Seq<u8>>) -> Seq<u8>
    decreases encodings.len(),
{
    if encodings.len() == 0 {
        Seq::empty()
    } else {
        encodings[0] + joined(encodings.skip(1))
    }
}

/// Whether the first encoding, with all the others behind it, is read as a value.
pub open spec fn reads_first(
    encodings: Seq<Seq<u8>>,
    item: spec_fn(Seq<u8>) -> Result<(PropertyValueView, int), EncodingErrorView>,
    value: PropertyValueView,
) -> bool {
    &&& encodings[0].len() > 0
    &&& item(joined(encodings)) == Ok::<(PropertyValueView, int), EncodingErrorView>(
        (value, encodings[0].len() as int),
    )
}

/// A list is read as the values it was written from, wherever each of them is read
/// back with the rest of the list behind it.
pub proof fn law_lists_are_read_back(
    encodings: Seq<Seq<u8>>,
    item: spec_fn(Seq<u8>) -> Result<(PropertyValueView, int), EncodingErrorView>,
    values: Seq<PropertyValueView>,
)
    requires
        encodings.len() == values.len(),
        forall|i: int|
            0 <= i < values.len() ==> reads_first(encodings.skip(i), item, #[trigger] values[i]),
    ensures
        complex::items_at(joined(encodings), item) == Ok::<
            Seq<PropertyValueView>,
            EncodingErrorView,
        >(values),
    decreases encodings.len(),
{
    let data = joined(encodings);
    if encodings.len() == 0 {
        assert(values =~= Seq::<PropertyValueView>::empty());
    } else {
        let first = encodings[0];
        let more = encodings.skip(1);
        let others = values.skip(1);
        assert(encodings.skip(0) =~= encodings);
        assert(reads_first(encodings.skip(0), item, values[0]));
        assert forall|i: int| 0 <= i < others.len() implies reads_first(
            more.skip(i),
            item,
            #[trigger] others[i],
        ) by {
            assert(others[i] == values[i + 1]);
            assert(more.skip(i) =~= encodings.skip(i + 1));
        }
        law_lists_are_read_back(more, item, others);
        assert(complex::rest(data, first.len() as int) =~= joined(more));
        assert(seq![values[0]] + others =~= values);
    }
}

proof fn lemma_joined_first(encodings: Seq<Seq<u8>>, i: int)
    requires
        0 <= i < encodings.len(),
    ensures
        encodings.skip(i)[0] == encodings[i],
        joined(encodings.skip(i)) == encodings[i] + joined(encodings.skip(i + 1)),
{
    assert(encodings.skip(i).skip(1) =~= encodings.skip(i + 1));
}

// ---------------------------------------------------------------------------
// Address bindings
// ---------------------------------------------------------------------------

/// The encodings of address bindings.
pub open spec fn binding_encodings(bindings: Seq<(ObjectIdentifier, AddressView)>) -> Seq<Seq<u8>> {
    bindings.map_values(
        |binding: (ObjectIdentifier, AddressView)|
            complex::address_binding_encoding(binding.0, binding.1)->Ok_0,
    )
}

/// A list of address bindings is read as it was written.
pub proof fn law_address_bindings_are_read_back(bindings: Seq<(ObjectIdentifier, AddressView)>)
    requires
        forall|i: int|
            0 <= i < bindings.len() ==> round_trip::is_writable_identifier(
                (#[trigger] bindings[i]).0,
            ) && bindings[i].1.mac_address.len() <= u32::MAX,
    ensures
        complex::items_at(
            joined(binding_encodings(bindings)),
            |d: Seq<u8>| complex::address_binding_at(d),
        ) == Ok::<Seq<PropertyValueView>, EncodingErrorView>(
            bindings.map_values(
                |binding: (ObjectIdentifier, AddressView)|
                    PropertyValueView::AddressBinding(binding.0, binding.1),
            ),
        ),
{
    let encodings = binding_encodings(bindings);
    let item = |d: Seq<u8>| complex::address_binding_at(d);
    let values = bindings.map_values(
        |binding: (ObjectIdentifier, AddressView)|
            PropertyValueView::AddressBinding(binding.0, binding.1),
    );
    assert forall|i: int| 0 <= i < values.len() implies reads_first(
        encodings.skip(i),
        item,
        #[trigger] values[i],
    ) by {
        let binding = bindings[i];
        let following = joined(encodings.skip(i + 1));
        lemma_joined_first(encodings, i);
        round_trip::law_address_binding_round_trip(binding.0, binding.1, following);
        assert(encodings[i].len() > 0) by {
            let head = codec::identifier_encoding(binding.0)->Ok_0;
            assert(encodings[i] == head + complex::address_octets(binding.1));
            assert(head.len() > 0);
        }
    }
    law_lists_are_read_back(encodings, item, values);
}

// ---------------------------------------------------------------------------
// Timestamps
// ---------------------------------------------------------------------------

/// The encodings of timestamps.
pub open spec fn timestamp_encodings(timestamps: Seq<TimestampValue>) -> Seq<Seq<u8>> {
    timestamps.map_values(
        |timestamp: TimestampValue| complex::timestamp_encoding(timestamp)->Ok_0,
    )
}

/// A list of timestamps is read as it was written.
pub proof fn law_timestamps_are_read_back(timestamps: Seq<TimestampValue>)
    requires
        forall|i: int|
            0 <= i < timestamps.len() ==> ((
            #[trigger] timestamps[i]) matches TimestampValue::DateTime { date, time: _ }
                ==> primitive::year_is_encodable(date.0)),
    ensures
        complex::items_at(
            joined(timestamp_encodings(timestamps)),
            |d: Seq<u8>| complex::timestamps_item(d),
        ) == Ok::<Seq<PropertyValueView>, EncodingErrorView>(
            timestamps.map_values(
                |timestamp: TimestampValue| PropertyValueView::Timestamp(timestamp),
            ),
        ),
{
    let encodings = timestamp_encodings(timestamps);
    let item = |d: Seq<u8>| complex::timestamps_item(d);
    let values = timestamps.map_values(
        |timestamp: TimestampValue| PropertyValueView::Timestamp(timestamp),
    );
    assert forall|i: int| 0 <= i < values.len() implies reads_first(
        encodings.skip(i),
        item,
        #[trigger] values[i],
    ) by {
        let timestamp = timestamps[i];
        let following = joined(encodings.skip(i + 1));
        lemma_joined_first(encodings, i);
        round_trip::law_timestamp_round_trip(timestamp, following);
        round_trip::law_timestamp_round_trip(timestamp, Seq::empty());
        assert(encodings[i].len() > 0);
    }
    law_lists_are_read_back(encodings, item, values);
}

// ---------------------------------------------------------------------------
// Recipient lists
// ---------------------------------------------------------------------------

/// The encodings of recipient list entries.
pub open spec fn destination_encodings(destinations: Seq<DestinationView>) -> Seq<Seq<u8>> {
    destinations.map_values(
        |destination: DestinationView| complex::destination_encoding(destination)->Ok_0,
    )
}

/// A recipient list is read as it was written.
pub proof fn law_destinations_are_read_back(destinations: Seq<DestinationView>)
    requires
        forall|i: int|
            0 <= i < destinations.len() ==> round_trip::is_writable_destination(
                #[trigger] destinations[i],
            ),
    ensures
        complex::items_at(
            joined(destination_encodings(destinations)),
            |d: Seq<u8>| complex::destinations_item(d),
        ) == Ok::<Seq<PropertyValueView>, EncodingErrorView>(
            destinations.map_values(
                |destination: DestinationView| PropertyValueView::Destination(destination),
            ),
        ),
{
    let encodings = destination_encodings(destinations);
    let item = |d: Seq<u8>| complex::destinations_item(d);
    let values = destinations.map_values(
        |destination: DestinationView| PropertyValueView::Destination(destination),
    );
    assert forall|i: int| 0 <= i < values.len() implies reads_first(
        encodings.skip(i),
        item,
        #[trigger] values[i],
    ) by {
        let following = joined(encodings.skip(i + 1));
        lemma_joined_first(encodings, i);
        round_trip::law_destination_round_trip(destinations[i], following);
        lemma_destination_length(destinations[i]);
    }
    law_lists_are_read_back(encodings, item, values);
}

proof fn lemma_destination_length(destination: DestinationView)
    requires
        round_trip::is_writable_destination(destination),
    ensures
        complex::destination_encoding(destination) is Ok,
        complex::destination_encoding(destination)->Ok_0.len() > 0,
{
    round_trip::law_destination_round_trip(destination, Seq::empty());
    assert(primitive::time_octets(destination.from_time).len() > 0);
}

// ---------------------------------------------------------------------------
// Weekly schedules
// ---------------------------------------------------------------------------

/// The encodings of days.
pub open spec fn day_encodings(days: Seq<Seq<TimeValueView>>) -> Seq<Seq<u8>> {
    days.map_values(
        |day: Seq<TimeValueView>| codec::value_encoding(PropertyValueView::DailySchedule(day))->Ok_0,
    )
}

/// A weekly schedule is read as it was written.
pub proof fn law_weeks_are_read_back(days: Seq<Seq<TimeValueView>>)
    requires
        forall|i: int| 0 <= i < days.len() ==> round_trip::are_plain_entries(#[trigger] days[i]),
    ensures
        complex::items_at(
            joined(day_encodings(days)),
            |d: Seq<u8>| complex::weekly_schedule_item(d),
        ) == Ok::<Seq<PropertyValueView>, EncodingErrorView>(
            days.map_values(|day: Seq<TimeValueView>| PropertyValueView::DailySchedule(day)),
        ),
{
    let encodings = day_encodings(days);
    let item = |d: Seq<u8>| complex::weekly_schedule_item(d);
    let values = days.map_values(|day: Seq<TimeValueView>| PropertyValueView::DailySchedule(day));
    assert forall|i: int| 0 <= i < values.len() implies reads_first(
        encodings.skip(i),
        item,
        #[trigger] values[i],
    ) by {
        let following = joined(encodings.skip(i + 1));
        lemma_joined_first(encodings, i);
        assert(round_trip::are_plain_entries(days[i]));
        round_trip::law_daily_schedule_round_trip(days[i], following);
        round_trip::lemma_day_length(days[i]);
    }
    law_lists_are_read_back(encodings, item, values);
}

// ---------------------------------------------------------------------------
// Value sources
// ---------------------------------------------------------------------------

/// A value source is read as it was written.
pub proof fn law_value_source_round_trip(following: Seq<u8>)
    ensures
        complex::value_source_at(tag::context_header(0, 0) + following) == Ok::<
            (ValueSourceValue, int),
            EncodingErrorView,
        >((ValueSourceValue::NoSource, tag::context_header(0, 0).len() as int)),
{
    tag::law_context_header_round_trip(0, 0, following);
}

// ---------------------------------------------------------------------------
// References
// ---------------------------------------------------------------------------

/// The encodings of references.
pub open spec fn reference_encodings(references: Seq<ObjectPropertyReference>) -> Seq<Seq<u8>> {
    references.map_values(
        |reference: ObjectPropertyReference| complex::reference_encoding(reference)->Ok_0,
    )
}

/// Whether a reference can be written and read back.
pub open spec fn is_writable_reference(reference: ObjectPropertyReference) -> bool {
    round_trip::is_writable_identifier(reference.object_identifier)
        && reference.property_identifier.is_canonical()
}

/// A list of references is read as it was written.
pub proof fn law_references_are_read_back(references: Seq<ObjectPropertyReference>)
    requires
        forall|i: int| 0 <= i < references.len() ==> is_writable_reference(#[trigger] references[i]),
    ensures
        complex::items_at(
            joined(reference_encodings(references)),
            |d: Seq<u8>| complex::object_property_references_item(d),
        ) == Ok::<Seq<PropertyValueView>, EncodingErrorView>(
            references.map_values(
                |reference: ObjectPropertyReference| PropertyValueView::ObjectPropertyReference(
                    reference,
                ),
            ),
        ),
{
    let encodings = reference_encodings(references);
    let item = |d: Seq<u8>| complex::object_property_references_item(d);
    let values = references.map_values(
        |reference: ObjectPropertyReference| PropertyValueView::ObjectPropertyReference(
                    reference,
                ),
    );
    assert forall|i: int| 0 <= i < values.len() implies reads_first(
        encodings.skip(i),
        item,
        #[trigger] values[i],
    ) by {
        let following = joined(encodings.skip(i + 1));
        lemma_joined_first(encodings, i);
        assert(is_writable_reference(references[i]));
        if i + 1 < encodings.len() {
            assert(is_writable_reference(references[i + 1]));
            lemma_joined_first(encodings, i + 1);
            lemma_reference_start(references[i + 1], joined(encodings.skip(i + 2)));
        } else {
            assert(following =~= Seq::<u8>::empty());
            lemma_nothing_starts();
        }
        round_trip::law_reference_round_trip(references[i], following);
        lemma_reference_start(references[i], Seq::empty());
    }
    law_lists_are_read_back(encodings, item, values);
}

proof fn lemma_nothing_starts()
    ensures
        tag::tag_of(Seq::<u8>::empty()) is Err,
{
    reveal(tag::tag_of);
}

/// A reference starts with a context tag of its own, so what stands before it is not
/// mistaken for an array index.
proof fn lemma_reference_start(reference: ObjectPropertyReference, following: Seq<u8>)
    requires
        is_writable_reference(reference),
    ensures
        complex::reference_encoding(reference) is Ok,
        complex::reference_encoding(reference)->Ok_0.len() > 0,
        !round_trip::starts_with_context(
            complex::reference_encoding(reference)->Ok_0 + following,
            2,
        ),
{
    let head = context::context_object_id_octets(0, reference.object_identifier);
    let behind = context::context_unsigned_octets(1, reference.property_identifier.number())
        + complex::index_octets(reference.array_index);
    let packed = octets::be_bytes(reference.object_identifier.packed() as nat, 4);
    let octets = complex::reference_encoding(reference)->Ok_0;
    octets::lemma_be_bytes_len(reference.object_identifier.packed() as nat, 4);
    assert(octets == head + behind);
    assert(head == tag::context_header(0, 4) + packed);
    assert(octets + following =~= tag::context_header(0, 4) + (packed + behind + following));
    tag::law_context_header_round_trip(0, 4, packed + behind + following);
}

// ---------------------------------------------------------------------------
// Active subscriptions
// ---------------------------------------------------------------------------

/// The encodings of active subscriptions.
pub open spec fn subscription_encodings(subscriptions: Seq<CovSubscriptionView>) -> Seq<Seq<u8>> {
    subscriptions.map_values(
        |subscription: CovSubscriptionView| complex::cov_subscription_encoding(subscription)->Ok_0,
    )
}

/// Whether an active subscription can be written and read back.
pub open spec fn is_writable_subscription(subscription: CovSubscriptionView) -> bool {
    round_trip::is_writable_recipient(subscription.recipient) && is_writable_reference(
        subscription.monitored_property,
    )
}

/// A list of active subscriptions is read as it was written.
pub proof fn law_subscriptions_are_read_back(subscriptions: Seq<CovSubscriptionView>)
    requires
        forall|i: int|
            0 <= i < subscriptions.len() ==> is_writable_subscription(#[trigger] subscriptions[i]),
    ensures
        complex::items_at(
            joined(subscription_encodings(subscriptions)),
            |d: Seq<u8>| complex::cov_subscriptions_item(d),
        ) == Ok::<Seq<PropertyValueView>, EncodingErrorView>(
            subscriptions.map_values(
                |subscription: CovSubscriptionView|
                    PropertyValueView::CovSubscription(subscription),
            ),
        ),
{
    let encodings = subscription_encodings(subscriptions);
    let item = |d: Seq<u8>| complex::cov_subscriptions_item(d);
    let values = subscriptions.map_values(
        |subscription: CovSubscriptionView| PropertyValueView::CovSubscription(subscription),
    );
    assert forall|i: int| 0 <= i < values.len() implies reads_first(
        encodings.skip(i),
        item,
        #[trigger] values[i],
    ) by {
        let following = joined(encodings.skip(i + 1));
        lemma_joined_first(encodings, i);
        assert(is_writable_subscription(subscriptions[i]));
        if i + 1 < encodings.len() {
            assert(is_writable_subscription(subscriptions[i + 1]));
            lemma_joined_first(encodings, i + 1);
            lemma_subscription_start(subscriptions[i + 1], joined(encodings.skip(i + 2)));
        } else {
            assert(following =~= Seq::<u8>::empty());
            lemma_nothing_starts();
        }
        round_trip::law_cov_subscription_round_trip(subscriptions[i], following);
        lemma_subscription_start(subscriptions[i], Seq::empty());
    }
    law_lists_are_read_back(encodings, item, values);
}

/// An active subscription starts with an opening marker, so what stands before it is
/// not mistaken for an increment.
proof fn lemma_subscription_start(subscription: CovSubscriptionView, following: Seq<u8>)
    requires
        is_writable_subscription(subscription),
    ensures
        complex::cov_subscription_encoding(subscription) is Ok,
        complex::cov_subscription_encoding(subscription)->Ok_0.len() > 0,
        !complex::context_matches(
            complex::cov_subscription_encoding(subscription)->Ok_0 + following,
            4,
            4,
        ),
{
    lemma_nothing_starts();
    round_trip::law_cov_subscription_round_trip(subscription, Seq::empty());
    let octets = complex::cov_subscription_encoding(subscription)->Ok_0;
    let process = complex::recipient_process_encoding(
        0,
        subscription.recipient,
        subscription.process_identifier,
    )->Ok_0;
    let start = tag::opening_octets(0) + tag::opening_octets(0);
    let opening = tag::opening_octets(0);
    assert(octets.subrange(0, process.len() as int) =~= process);
    assert(process.subrange(0, start.len() as int) =~= start);
    assert(octets.subrange(0, opening.len() as int) =~= opening);
    let behind = octets.subrange(opening.len() as int, octets.len() as int);
    assert(octets =~= opening + behind);
    assert(octets + following =~= opening + (behind + following));
    tag::law_markers_round_trip(0, behind + following);
}

} // verus!
