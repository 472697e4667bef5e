//! How property values lie on the wire, part by part.

use crate::encoding::bitstring;
use crate::encoding::context;
use crate::encoding::error::{EncodingError, EncodingErrorView};
use crate::encoding::laws;
use crate::encoding::primitive;
use crate::encoding::tag;
use crate::object::identifier::ObjectIdentifier;
use crate::property::codec;
use crate::property::complex;
use crate::property::value;
use crate::property::value::{
    AddressView, CovSubscriptionView, DestinationView, ObjectPropertyReference, PropertyValue,
    PropertyValueView, RecipientView, TimeValueView, TimestampValue,
};
use vstd::prelude::*;

verus! {

/// Whether a value is written as these octets.
pub open spec fn is_written_as(
    encoding: Result<Seq<u8>, EncodingErrorView>,
    octets: Seq<u8>,
) -> bool {
    encoding == Ok::<Seq<u8>, EncodingErrorView>(octets)
}

// ---------------------------------------------------------------------------
// Plain values
// ---------------------------------------------------------------------------

/// Every plain value is written in the form of its own type: a null as a zero octet, a
/// number as a number, a text as a text, and so on.
pub proof fn law_plain_values_are_written(value: PropertyValueView)
    ensures
        value is Null ==> is_written_as(codec::value_encoding(value), seq![0u8]),
        value is Boolean ==> is_written_as(
            codec::value_encoding(value),
            seq![if value->Boolean_0 { 0x11u8 } else { 0x10u8 }],
        ),
        value is Unsigned ==> is_written_as(
            codec::value_encoding(value),
            primitive::unsigned64_octets(value->Unsigned_0),
        ),
        value is Signed ==> is_written_as(
            codec::value_encoding(value),
            primitive::signed64_octets(value->Signed_0),
        ),
        value is Real ==> is_written_as(
            codec::value_encoding(value),
            seq![0x44u8] + laws::four_octets(value->Real_0.bits as int),
        ),
        value is Double ==> is_written_as(
            codec::value_encoding(value),
            primitive::double_octets(value->Double_0),
        ),
        value is OctetString ==> is_written_as(
            codec::value_encoding(value),
            primitive::octet_string_octets(value->OctetString_0),
        ),
        value is CharacterString && primitive::character_string_fits(value->CharacterString_0)
            ==> is_written_as(
            codec::value_encoding(value),
            primitive::character_string_octets(value->CharacterString_0),
        ),
        value is BitString ==> is_written_as(
            codec::value_encoding(value),
            bitstring::bit_string_octets(value->BitString_0),
        ),
        value is Enumerated ==> is_written_as(
            codec::value_encoding(value),
            primitive::enumerated_octets(value->Enumerated_0),
        ),
        value is Time ==> is_written_as(
            codec::value_encoding(value),
            seq![0xB4u8, value->Time_0, value->Time_1, value->Time_2, value->Time_3],
        ),
{
    laws::law_booleans_on_the_wire(Seq::<u8>::empty());
    if value is Null {
        assert(codec::value_encoding(value)->Ok_0 =~= seq![0u8]);
    }
    if value is Real {
        laws::law_floating_numbers_on_the_wire(value->Real_0, arbitrary());
    }
    if value is Time {
        laws::law_times_on_the_wire(
            (value->Time_0, value->Time_1, value->Time_2, value->Time_3),
            Seq::<u8>::empty(),
        );
    }
}

/// A date is written where its year can be, and an object identifier where its type and its
/// instance fit; anything else is refused as out of range.
pub proof fn law_dates_and_identifiers_are_written(value: PropertyValueView)
    ensures
        value is Date && 1900 <= value->Date_0 <= 2154 ==> is_written_as(
            codec::value_encoding(value),
            seq![
                0xA4u8,
                (value->Date_0 - 1900) as u8,
                value->Date_1,
                value->Date_2,
                value->Date_3,
            ],
        ),
        value is Date && value->Date_0 == 255 ==> is_written_as(
            codec::value_encoding(value),
            seq![0xA4u8, 255u8, value->Date_1, value->Date_2, value->Date_3],
        ),
        value is Date && !(1900 <= value->Date_0 <= 2154) && value->Date_0 != 255
            ==> codec::value_encoding(value) == Err::<Seq<u8>, EncodingErrorView>(
            EncodingErrorView::ValueOutOfRange,
        ),
        value is ObjectIdentifier ==> is_identifier(
            codec::value_encoding(value),
            0xC4,
            value->ObjectIdentifier_0,
        ),
{
    if value is Date {
        laws::law_dates_on_the_wire((value->Date_0, value->Date_1, value->Date_2, value->Date_3));
    }
    if value is ObjectIdentifier && fits(value->ObjectIdentifier_0) {
        laws::law_object_identifiers_on_the_wire(value->ObjectIdentifier_0);
    }
}

/// Whether an object identifier fits its four octets.
pub open spec fn fits(value: ObjectIdentifier) -> bool {
    value.object_type.number() <= 0x3FF && value.instance <= 0x3F_FFFF
}

/// Whether an object identifier is written after an initial octet where it fits, and is
/// refused where it does not.
pub open spec fn is_identifier(
    encoding: Result<Seq<u8>, EncodingErrorView>,
    first: u8,
    value: ObjectIdentifier,
) -> bool {
    if fits(value) {
        is_written_as(
            encoding,
            seq![first] + laws::four_octets(
                0x40_0000 * value.object_type.number() + value.instance,
            ),
        )
    } else {
        encoding == Err::<Seq<u8>, EncodingErrorView>(EncodingErrorView::ValueOutOfRange)
    }
}

/// A list is written as its elements, one after another; so is an array. Both are refused
/// where an element is.
pub proof fn law_elements_are_written_in_order(
    values: Seq<PropertyValueView>,
    last: PropertyValueView,
)
    ensures
        is_written_as(
            codec::value_encoding(PropertyValueView::List(Seq::<PropertyValueView>::empty())),
            Seq::<u8>::empty(),
        ),
        codec::value_encoding(PropertyValueView::Array(values)) == codec::value_encoding(
            PropertyValueView::List(values),
        ),
        codec::value_encoding(PropertyValueView::List(values)) is Ok && codec::value_encoding(
            last,
        ) is Ok ==> is_written_as(
            codec::value_encoding(PropertyValueView::List(values.push(last))),
            codec::value_encoding(PropertyValueView::List(values))->Ok_0 + codec::value_encoding(
                last,
            )->Ok_0,
        ),
        codec::value_encoding(PropertyValueView::List(values)) is Err || codec::value_encoding(
            last,
        ) is Err ==> codec::value_encoding(PropertyValueView::List(values.push(last))) is Err,
{
    reveal_with_fuel(codec::values_encoding, 2);
    reveal_with_fuel(codec::value_encoding, 2);
    assert(values.push(last).drop_last() =~= values);
    assert(codec::values_encoding(Seq::<PropertyValueView>::empty()) == Ok::<
        Seq<u8>,
        EncodingErrorView,
    >(Seq::<u8>::empty()));
}

// ---------------------------------------------------------------------------
// Constructed values
// ---------------------------------------------------------------------------

/// An address is its network number and its station address.
pub open spec fn address_parts(address: AddressView) -> Seq<u8> {
    primitive::unsigned_octets(address.network as u32) + primitive::octet_string_octets(
        address.mac_address,
    )
}

/// An address binding is the device's identifier, the network number and the station
/// address.
pub proof fn law_address_bindings_on_the_wire(device: ObjectIdentifier, address: AddressView)
    ensures
        fits(device) ==> is_written_as(
            codec::value_encoding(PropertyValueView::AddressBinding(device, address)),
            primitive::object_identifier_octets(device) + address_parts(address),
        ),
        !fits(device) ==> codec::value_encoding(
            PropertyValueView::AddressBinding(device, address),
        ) is Err,
{
}

/// The octets of a recipient that can be written: a device under tag zero, or an address
/// between the markers of tag one.
pub open spec fn recipient_parts(recipient: RecipientView) -> Seq<u8> {
    match recipient {
        RecipientView::Device(device) => seq![0x0Cu8] + laws::four_octets(
            0x40_0000 * device.object_type.number() + device.instance,
        ),
        RecipientView::Address(address) => seq![0x1Eu8] + address_parts(address) + seq![0x1Fu8],
    }
}

/// Whether a recipient can be written.
pub open spec fn recipient_fits(recipient: RecipientView) -> bool {
    recipient is Device ==> fits(recipient->Device_0)
}

/// A recipient is a device's identifier under tag zero, or an address between the markers
/// of tag one.
pub proof fn law_recipients_on_the_wire(recipient: RecipientView)
    ensures
        recipient_fits(recipient) ==> is_written_as(
            complex::recipient_encoding(recipient),
            recipient_parts(recipient),
        ),
        !recipient_fits(recipient) ==> complex::recipient_encoding(recipient) is Err,
{
    laws::law_markers(1);
    if recipient is Device && fits(recipient->Device_0) {
        laws::law_context_values_on_the_wire(
            0,
            0,
            false,
            arbitrary(),
            recipient->Device_0,
        );
    }
}

/// A destination is its valid days, the times from which and to which they are valid, the
/// recipient, the process, whether to confirm, and the transitions, in this order.
pub proof fn law_destinations_on_the_wire(value: DestinationView)
    ensures
        recipient_fits(value.recipient) ==> is_written_as(
            codec::value_encoding(PropertyValueView::Destination(value)),
            bitstring::bit_string_octets(value.valid_days) + primitive::time_octets(
                value.from_time,
            ) + primitive::time_octets(value.to_time) + recipient_parts(value.recipient)
                + primitive::unsigned_octets(value.process_identifier) + seq![
                if value.issue_confirmed_notifications {
                    0x11u8
                } else {
                    0x10u8
                },
            ] + bitstring::bit_string_octets(value.transitions),
        ),
{
    law_recipients_on_the_wire(value.recipient);
    laws::law_booleans_on_the_wire(Seq::<u8>::empty());
    if recipient_fits(value.recipient) {
        assert(codec::value_encoding(PropertyValueView::Destination(value))->Ok_0
            =~= bitstring::bit_string_octets(value.valid_days) + primitive::time_octets(
            value.from_time,
        ) + primitive::time_octets(value.to_time) + recipient_parts(value.recipient)
            + primitive::unsigned_octets(value.process_identifier) + seq![
            if value.issue_confirmed_notifications {
                0x11u8
            } else {
                0x10u8
            },
        ] + bitstring::bit_string_octets(value.transitions));
    }
}

/// The octets of a reference that can be written.
pub open spec fn reference_parts(value: ObjectPropertyReference) -> Seq<u8> {
    let device = value.object_identifier;
    seq![0x0Cu8] + laws::four_octets(0x40_0000 * device.object_type.number() + device.instance)
        + context::context_unsigned_octets(1, value.property_identifier.number()) + (
    match value.array_index {
        Some(index) => context::context_unsigned_octets(2, index),
        None => Seq::<u8>::empty(),
    })
}

/// A reference is an object's identifier under tag zero, a property's number under tag one,
/// and, where it has one, an index under tag two.
pub proof fn law_references_on_the_wire(value: ObjectPropertyReference)
    ensures
        fits(value.object_identifier) ==> is_written_as(
            codec::value_encoding(PropertyValueView::ObjectPropertyReference(value)),
            reference_parts(value),
        ),
        !fits(value.object_identifier) ==> codec::value_encoding(
            PropertyValueView::ObjectPropertyReference(value),
        ) is Err,
{
    if fits(value.object_identifier) {
        laws::law_context_values_on_the_wire(
            0,
            0,
            false,
            arbitrary(),
            value.object_identifier,
        );
        assert(codec::value_encoding(PropertyValueView::ObjectPropertyReference(value))->Ok_0
            =~= reference_parts(value));
    }
}

/// A timestamp is a time of day under tag zero, a sequence number under tag one, or a date
/// and a time between the markers of tag two.
pub proof fn law_timestamps_on_the_wire(
    time: (u8, u8, u8, u8),
    number: u32,
    date: (u16, u8, u8, u8),
)
    ensures
        is_written_as(
            codec::value_encoding(
                PropertyValueView::Timestamp(TimestampValue::Time(time.0, time.1, time.2, time.3)),
            ),
            seq![0x0Cu8, time.0, time.1, time.2, time.3],
        ),
        codec::value_encoding(
            PropertyValueView::Timestamp(TimestampValue::SequenceNumber(number)),
        ) matches Ok(octets) && laws::are_unsigned(octets, 0x18, number),
        primitive::year_is_encodable(date.0) ==> is_written_as(
            codec::value_encoding(
                PropertyValueView::Timestamp(TimestampValue::DateTime { date, time }),
            ),
            seq![0x2Eu8] + primitive::date_octets(date) + primitive::time_octets(time) + seq![
                0x2Fu8,
            ],
        ),
        !primitive::year_is_encodable(date.0) ==> codec::value_encoding(
            PropertyValueView::Timestamp(TimestampValue::DateTime { date, time }),
        ) is Err,
{
    laws::law_markers(2);
    laws::law_context_values_on_the_wire(
        1,
        number,
        false,
        arbitrary(),
        ObjectIdentifier {
            object_type: crate::object::identifier::ObjectType::AnalogInput,
            instance: 0,
        },
    );
    assert(context::context_tagged(0, seq![time.0, time.1, time.2, time.3]) =~= seq![
        0x0Cu8,
        time.0,
        time.1,
        time.2,
        time.3,
    ]);
    let whole = codec::value_encoding(
        PropertyValueView::Timestamp(TimestampValue::DateTime { date, time }),
    );
    if primitive::year_is_encodable(date.0) {
        assert(whole->Ok_0 =~= seq![0x2Eu8] + primitive::date_octets(date)
            + primitive::time_octets(time) + seq![0x2Fu8]);
    }
}

/// A subscription is, each between the markers of its tag, its recipient with the process
/// under tag zero and the watched reference under tag one, then whether to confirm under
/// tag two, the time that remains under tag three, and, where it has one, the increment
/// under tag four.
pub proof fn law_subscriptions_on_the_wire(value: CovSubscriptionView)
    ensures
        recipient_fits(value.recipient) && fits(value.monitored_property.object_identifier)
            ==> is_written_as(
            codec::value_encoding(PropertyValueView::CovSubscription(value)),
            seq![0x0Eu8, 0x0Eu8] + recipient_parts(value.recipient) + seq![0x0Fu8]
                + context::context_unsigned_octets(1, value.process_identifier) + seq![
                0x0Fu8,
                0x1Eu8,
            ] + reference_parts(value.monitored_property) + seq![
                0x1Fu8,
                0x29u8,
                if value.issue_confirmed_notifications {
                    1u8
                } else {
                    0u8
                },
            ] + context::context_unsigned_octets(3, value.time_remaining) + (
            match value.cov_increment {
                Some(increment) => seq![0x4Cu8] + laws::four_octets(increment.bits as int),
                None => Seq::<u8>::empty(),
            }),
        ),
{
    laws::law_markers(0);
    laws::law_markers(1);
    law_recipients_on_the_wire(value.recipient);
    law_references_on_the_wire(value.monitored_property);
    let nothing = ObjectIdentifier {
        object_type: crate::object::identifier::ObjectType::AnalogInput,
        instance: 0,
    };
    laws::law_context_values_on_the_wire(
        2,
        0,
        value.issue_confirmed_notifications,
        arbitrary(),
        nothing,
    );
    if let Some(increment) = value.cov_increment {
        laws::law_context_values_on_the_wire(4, 0, false, increment, nothing);
    }
    lemma_subscription_parts(
        recipient_parts(value.recipient),
        context::context_unsigned_octets(1, value.process_identifier),
        reference_parts(value.monitored_property),
        if value.issue_confirmed_notifications {
            1u8
        } else {
            0u8
        },
        context::context_unsigned_octets(3, value.time_remaining),
        match value.cov_increment {
            Some(increment) => seq![0x4Cu8] + laws::four_octets(increment.bits as int),
            None => Seq::<u8>::empty(),
        },
    );
}

/// The parts of a subscription with their markers between them.
proof fn lemma_subscription_parts(
    recipient: Seq<u8>,
    process: Seq<u8>,
    reference: Seq<u8>,
    confirmed: u8,
    remaining: Seq<u8>,
    increment: Seq<u8>,
)
    ensures
        (seq![0x0Eu8] + seq![0x0Eu8] + recipient + (seq![0x0Fu8] + process + seq![0x0Fu8])) + (
        seq![0x1Eu8] + reference + seq![0x1Fu8]) + (seq![0x29u8] + seq![confirmed] + remaining
            + increment) == seq![0x0Eu8, 0x0Eu8] + recipient + seq![0x0Fu8] + process + seq![
            0x0Fu8,
            0x1Eu8,
        ] + reference + seq![0x1Fu8, 0x29u8, confirmed] + remaining + increment,
{
    assert((seq![0x0Eu8] + seq![0x0Eu8] + recipient + (seq![0x0Fu8] + process + seq![0x0Fu8])) + (
    seq![0x1Eu8] + reference + seq![0x1Fu8]) + (seq![0x29u8] + seq![confirmed] + remaining
        + increment) =~= seq![0x0Eu8, 0x0Eu8] + recipient + seq![0x0Fu8] + process + seq![
        0x0Fu8,
        0x1Eu8,
    ] + reference + seq![0x1Fu8, 0x29u8, confirmed] + remaining + increment);
}

/// A day is its entries between the markers of tag zero, each its time and after it its
/// value, in the order in which they stand.
pub proof fn law_days_on_the_wire(entries: Seq<TimeValueView>, last: TimeValueView)
    ensures
        is_written_as(
            codec::value_encoding(PropertyValueView::DailySchedule(Seq::<TimeValueView>::empty())),
            seq![0x0Eu8, 0x0Fu8],
        ),
        codec::entries_encoding(entries) is Ok ==> is_written_as(
            codec::value_encoding(PropertyValueView::DailySchedule(entries)),
            seq![0x0Eu8] + codec::entries_encoding(entries)->Ok_0 + seq![0x0Fu8],
        ),
        codec::entries_encoding(entries) is Ok && codec::value_encoding(last.value) is Ok
            ==> is_written_as(
            codec::entries_encoding(entries.push(last)),
            codec::entries_encoding(entries)->Ok_0 + seq![
                0xB4u8,
                last.time.0,
                last.time.1,
                last.time.2,
                last.time.3,
            ] + codec::value_encoding(last.value)->Ok_0,
        ),
        codec::entries_encoding(entries) is Err || codec::value_encoding(last.value) is Err
            ==> codec::entries_encoding(entries.push(last)) is Err,
{
    laws::law_markers(0);
    laws::law_times_on_the_wire(last.time, Seq::<u8>::empty());
    reveal_with_fuel(codec::entries_encoding, 2);
    reveal_with_fuel(codec::value_encoding, 2);
    assert(entries.push(last).drop_last() =~= entries);
    let none = Seq::<TimeValueView>::empty();
    assert(codec::entries_encoding(none) == Ok::<Seq<u8>, EncodingErrorView>(Seq::<u8>::empty()));
    assert(codec::value_encoding(PropertyValueView::DailySchedule(none))->Ok_0 =~= seq![
        0x0Eu8,
        0x0Fu8,
    ]);
}

/// A value source is an empty value under tag zero. Spans of dates, calendar entries and
/// dated overrides have no form of their own.
pub proof fn law_what_has_no_form_is_refused(value: PropertyValueView)
    ensures
        value is ValueSource ==> is_written_as(codec::value_encoding(value), seq![0x08u8]),
        value is DateRange || value is CalendarEntry || value is SpecialEvent
            ==> codec::value_encoding(value) is Err,
{
    if value is ValueSource {
        assert(tag::context_header(0, 0) =~= seq![0x08u8]);
    }
}

/// A value is read as what its tag says it is.
pub proof fn law_values_are_read_by_their_tag(data: Seq<u8>)
    requires
        data.len() >= 1,
        codec::value_at(data) is Ok,
    ensures
        ({
            let value = codec::value_at(data)->Ok_0.0;
            &&& data[0] % 16 < 8
            &&& data[0] / 16 == 0 <==> value is Null
            &&& data[0] / 16 == 1 <==> value is Boolean
            &&& data[0] / 16 == 2 <==> value is Unsigned
            &&& data[0] / 16 == 3 <==> value is Signed
            &&& data[0] / 16 == 4 <==> value is Real
            &&& data[0] / 16 == 5 <==> value is Double
            &&& data[0] / 16 == 6 <==> value is OctetString
            &&& data[0] / 16 == 7 <==> value is CharacterString
            &&& data[0] / 16 == 8 <==> value is BitString
            &&& data[0] / 16 == 9 <==> value is Enumerated
            &&& data[0] / 16 == 10 <==> value is Date
            &&& data[0] / 16 == 11 <==> value is Time
            &&& data[0] / 16 == 12 <==> value is ObjectIdentifier
            &&& data[0] / 16 <= 12
        }),
{
    reveal(codec::value_at);
    reveal(tag::tag_of);
}

/// What is said of a value is what it holds: a plain value itself, a list its elements in
/// order, a day its entries, each with its time.
pub proof fn law_values_are_what_they_hold(value: PropertyValue, i: int)
    ensures
        value is Null ==> value.model() is Null,
        value is Boolean ==> value.model() == PropertyValueView::Boolean(value->Boolean_0),
        value is Unsigned ==> value.model() == PropertyValueView::Unsigned(value->Unsigned_0),
        value is Signed ==> value.model() == PropertyValueView::Signed(value->Signed_0),
        value is Real ==> value.model() == PropertyValueView::Real(value->Real_0),
        value is Double ==> value.model() == PropertyValueView::Double(value->Double_0),
        value is OctetString ==> value.model() == PropertyValueView::OctetString(
            value->OctetString_0@,
        ),
        value is CharacterString ==> value.model() == PropertyValueView::CharacterString(
            value->CharacterString_0@,
        ),
        value is BitString ==> value.model() == PropertyValueView::BitString(value->BitString_0@),
        value is Enumerated ==> value.model() == PropertyValueView::Enumerated(value->Enumerated_0),
        value is Date ==> value.model() == PropertyValueView::Date(
            value->Date_0,
            value->Date_1,
            value->Date_2,
            value->Date_3,
        ),
        value is Time ==> value.model() == PropertyValueView::Time(
            value->Time_0,
            value->Time_1,
            value->Time_2,
            value->Time_3,
        ),
        value is ObjectIdentifier ==> value.model() == PropertyValueView::ObjectIdentifier(
            value->ObjectIdentifier_0,
        ),
        value is List ==> (value.model() matches PropertyValueView::List(elements)
            && elements.len() == value->List_0@.len() && (0 <= i < elements.len() ==> elements[i]
            == value->List_0@[i].model())),
        value is Array ==> (value.model() matches PropertyValueView::Array(elements)
            && elements.len() == value->Array_0@.len() && (0 <= i < elements.len() ==> elements[i]
            == value->Array_0@[i].model())),
        value is DailySchedule ==> (value.model() matches PropertyValueView::DailySchedule(entries)
            && entries.len() == value->DailySchedule_0.time_values@.len() && (0 <= i
            < entries.len() ==> entries[i].time == value->DailySchedule_0.time_values@[i].time
            && entries[i].value == value->DailySchedule_0.time_values@[i].value.model())),
{
    match value {
        PropertyValue::List(values) => {
            value::lemma_list_model(values);
        },
        PropertyValue::Array(values) => {
            value::lemma_list_model(values);
        },
        PropertyValue::DailySchedule(day) => {
            value::lemma_entries_model(day.time_values);
            reveal_with_fuel(PropertyValue::model, 2);
        },
        _ => {},
    }
}

/// Two values are equal where they hold the same. Numbers with fractions are compared as
/// numbers, by which what is no number equals nothing, and lists element by element.
pub proof fn law_values_are_equal_by_what_they_hold(
    a: PropertyValueView,
    b: PropertyValueView,
    i: int,
)
    ensures
        a is Null || a is Boolean || a is Unsigned || a is Signed || a is OctetString
            || a is CharacterString || a is BitString || a is Enumerated || a is Date || a is Time
            || a is ObjectIdentifier || a is Timestamp || a is Destination ==> (a.same(b) <==> a
            == b),
        a is Real && b is Real ==> (a.same(b) <==> a->Real_0.same_number(b->Real_0)),
        a is Double && b is Double ==> (a.same(b) <==> a->Double_0.same_number(b->Double_0)),
        a is Real && !(b is Real) || a is Double && !(b is Double) || a is List && !(b is List)
            || a is Array && !(b is Array) ==> !a.same(b),
        a is List && b is List && a.same(b) ==> a->List_0.len() == b->List_0.len() && (0 <= i
            < a->List_0.len() ==> a->List_0[i].same(b->List_0[i])),
        a is Array && b is Array && a.same(b) ==> a->Array_0.len() == b->Array_0.len() && (0 <= i
            < a->Array_0.len() ==> a->Array_0[i].same(b->Array_0[i])),
        a is List && b is List && a->List_0.len() == b->List_0.len() && (forall|k: int|
            0 <= k < a->List_0.len() ==> (#[trigger] a->List_0[k]).same(b->List_0[k])) ==> a.same(
            b,
        ),
{
}

/// What is written of a value comes behind what was there, where the value has a form; what
/// was there stays at the front in any case.
pub proof fn law_values_are_written_behind(
    result: Result<(), EncodingError>,
    before: Seq<u8>,
    after: Seq<u8>,
    stated: Result<Seq<u8>, EncodingErrorView>,
)
    requires
        codec::wrote(result, before, after, stated),
    ensures
        result is Ok <==> stated is Ok,
        result is Ok ==> after == before + stated->Ok_0,
        result is Err ==> result->Err_0@ == stated->Err_0,
        before.is_prefix_of(after),
{
}

/// What is read of a value comes back as it is stated.
pub proof fn law_values_come_back(
    actual: Result<(PropertyValue, usize), EncodingError>,
    stated: Result<(PropertyValueView, int), EncodingErrorView>,
)
    requires
        codec::same_value_outcome(actual, stated),
    ensures
        actual is Ok <==> stated is Ok,
        actual is Ok ==> actual->Ok_0.0.model() == stated->Ok_0.0 && actual->Ok_0.1
            == stated->Ok_0.1,
        actual is Err ==> actual->Err_0@ == stated->Err_0,
{
}

} // verus!
