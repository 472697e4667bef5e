//! Constructed BACnet property values as octets.

use crate::encoding::bitstring;
use crate::encoding::bitstring::encode_bit_string;
use crate::encoding::context;
use crate::encoding::context::{
    decode_context_object_id, decode_context_unsigned, encode_context_boolean,
    encode_context_enumerated, encode_context_object_id, encode_context_real,
    encode_context_unsigned,
};
use crate::encoding::error::{EncodingError, EncodingErrorView};
use crate::encoding::primitive;
use crate::encoding::primitive::{
    encode_boolean, encode_date, encode_object_identifier, encode_octet_string, encode_time,
    encode_unsigned,
};
use crate::encoding::tag;
use crate::encoding::tag::{
    decode_closing_tag, decode_context_tag, decode_opening_tag, decode_tag, encode_closing_tag,
    encode_context_tag, encode_opening_tag, is_closing_tag, is_context_tag, BACnetTag,
};
use crate::number::Real;
use crate::object::identifier::{ObjectIdentifier, PropertyIdentifier};
use crate::octets;
use crate::property::codec;
use crate::property::codec::{decode_property_value, encode_entries};
use crate::property::value;
use crate::property::value::{
    AddressBindingValue, AddressView, BacnetAddress, CovSubscriptionValue, CovSubscriptionView,
    DailyScheduleValue, DestinationValue, DestinationView, ObjectPropertyReference, PropertyValue,
    PropertyValueView, Recipient, RecipientProcess, RecipientView, TimeValueValue, TimeValueView,
    TimestampValue, ValueSourceValue,
};
use vstd::prelude::*;
use vstd::slice::slice_subrange;

verus! {

// ---------------------------------------------------------------------------
// What the encodings are
// ---------------------------------------------------------------------------

/// A network number and a station address as two application values.
pub open spec fn address_octets(address: AddressView) -> Seq<u8> {
    primitive::unsigned_octets(address.network as u32) + primitive::octet_string_octets(
        address.mac_address,
    )
}

/// The octets of an address binding.
pub open spec fn address_binding_encoding(
    device: ObjectIdentifier,
    address: AddressView,
) -> Result<Seq<u8>, EncodingErrorView> {
    codec::both(codec::identifier_encoding(device), Ok(address_octets(address)))
}

/// The octets of an object identifier under a context tag, where it can be written.
pub open spec fn context_identifier_encoding(tag_number: u8, value: ObjectIdentifier) -> Result<
    Seq<u8>,
    EncodingErrorView,
> {
    if value.is_encodable() {
        Ok(context::context_object_id_octets(tag_number, value))
    } else {
        Err(EncodingErrorView::ValueOutOfRange)
    }
}

/// The octets of a recipient: a device under context tag 0, or an address between
/// the markers of context 1.
pub open spec fn recipient_encoding(value: RecipientView) -> Result<Seq<u8>, EncodingErrorView> {
    match value {
        RecipientView::Device(device) => context_identifier_encoding(0, device),
        RecipientView::Address(address) => Ok(
            tag::opening_octets(1) + address_octets(address) + tag::closing_octets(1),
        ),
    }
}

/// The octets of a recipient list entry.
pub open spec fn destination_encoding(value: DestinationView) -> Result<
    Seq<u8>,
    EncodingErrorView,
> {
    codec::both(
        codec::both(
            Ok(
                bitstring::bit_string_octets(value.valid_days) + primitive::time_octets(
                    value.from_time,
                ) + primitive::time_octets(value.to_time),
            ),
            recipient_encoding(value.recipient),
        ),
        Ok(
            primitive::unsigned_octets(value.process_identifier) + primitive::boolean_octets(
                value.issue_confirmed_notifications,
            ) + bitstring::bit_string_octets(value.transitions),
        ),
    )
}

/// The octets of an optional array index under context tag 2.
pub open spec fn index_octets(index: Option<u32>) -> Seq<u8> {
    match index {
        Some(index) => context::context_unsigned_octets(2, index),
        None => Seq::<u8>::empty(),
    }
}

/// The octets of a property reference.
pub open spec fn reference_encoding(value: ObjectPropertyReference) -> Result<
    Seq<u8>,
    EncodingErrorView,
> {
    codec::both(
        context_identifier_encoding(0, value.object_identifier),
        Ok(
            context::context_unsigned_octets(1, value.property_identifier.number()) + index_octets(
                value.array_index,
            ),
        ),
    )
}

/// The octets of a timestamp.
pub open spec fn timestamp_encoding(value: TimestampValue) -> Result<Seq<u8>, EncodingErrorView> {
    match value {
        TimestampValue::Time(h, m, s, f) => Ok(context::context_tagged(0, seq![h, m, s, f])),
        TimestampValue::SequenceNumber(n) => Ok(context::context_unsigned_octets(1, n)),
        TimestampValue::DateTime { date, time } => codec::both(
            codec::both(Ok(tag::opening_octets(2)), codec::date_encoding(date)),
            Ok(primitive::time_octets(time) + tag::closing_octets(2)),
        ),
    }
}

/// The octets of a recipient with its process identifier, under `tag_number`.
pub open spec fn recipient_process_encoding(
    tag_number: u8,
    recipient: RecipientView,
    process_identifier: u32,
) -> Result<Seq<u8>, EncodingErrorView> {
    codec::both(
        codec::both(
            Ok(tag::opening_octets(tag_number) + tag::opening_octets(0)),
            recipient_encoding(recipient),
        ),
        Ok(
            tag::closing_octets(0) + context::context_unsigned_octets(1, process_identifier)
                + tag::closing_octets(tag_number),
        ),
    )
}

/// The octets of an optional increment under context tag 4.
pub open spec fn increment_octets(increment: Option<Real>) -> Seq<u8> {
    match increment {
        Some(increment) => context::context_real_octets(4, increment),
        None => Seq::<u8>::empty(),
    }
}

/// The octets of an active COV subscription.
pub open spec fn cov_subscription_encoding(value: CovSubscriptionView) -> Result<
    Seq<u8>,
    EncodingErrorView,
> {
    codec::both(
        codec::both(
            recipient_process_encoding(0, value.recipient, value.process_identifier),
            codec::both(
                codec::both(Ok(tag::opening_octets(1)), reference_encoding(value.monitored_property)),
                Ok(tag::closing_octets(1)),
            ),
        ),
        Ok(
            context::context_boolean_octets(2, value.issue_confirmed_notifications)
                + context::context_unsigned_octets(3, value.time_remaining) + increment_octets(
                value.cov_increment,
            ),
        ),
    )
}

// ---------------------------------------------------------------------------
// Writing
// ---------------------------------------------------------------------------

/// Append an address as two application values.
fn push_address(buffer: &mut Vec<u8>, address: &BacnetAddress)
    ensures
        final(buffer)@ == old(buffer)@ + address_octets(address@),
{
    let ghost before = buffer@;
    let _ = encode_unsigned(buffer, address.network as u32);
    let _ = encode_octet_string(buffer, address.mac_address.as_slice());
    assert(buffer@ =~= before + address_octets(address@));
}

impl AddressBindingValue {
    /// Encode the binding.
    pub fn encode(&self, buffer: &mut Vec<u8>) -> (result: Result<(), EncodingError>)
        ensures
            codec::wrote(
                result,
                old(buffer)@,
                final(buffer)@,
                address_binding_encoding(self.device_identifier, self.address@),
            ),
    {
        let ghost before = buffer@;
        match encode_object_identifier(buffer, self.device_identifier) {
            Ok(_) => {},
            Err(error) => return Err(error),
        }
        push_address(buffer, &self.address);
        assert(buffer@ =~= before + address_binding_encoding(
            self.device_identifier,
            self.address@,
        )->Ok_0);
        Ok(())
    }
}

impl ValueSourceValue {
    /// Encode the value source.
    pub fn encode(&self, out: &mut Vec<u8>) -> (result: Result<(), EncodingError>)
        ensures
            result is Ok,
            final(out)@ == old(out)@ + tag::context_header(0, 0),
    {
        encode_context_tag(out, 0, 0)
    }
}

impl DailyScheduleValue {
    /// What the day encodes to.
    pub open spec fn encoding(&self) -> Result<Seq<u8>, EncodingErrorView> {
        codec::value_encoding(
            PropertyValueView::DailySchedule(value::time_values_model(self.time_values)),
        )
    }

    /// Encode the day.
    pub fn encode(&self, out: &mut Vec<u8>) -> (result: Result<(), EncodingError>)
        ensures
            codec::wrote(result, old(out)@, final(out)@, self.encoding()),
    {
        let ghost before = out@;
        let _ = encode_opening_tag(out, 0);
        match encode_entries(&self.time_values, out) {
            Ok(_) => {},
            Err(error) => {
                assert(before.is_prefix_of(out@));
                return Err(error);
            },
        }
        let _ = encode_closing_tag(out, 0);
        assert(out@ =~= before + self.encoding()->Ok_0);
        Ok(())
    }
}

/// Append an object identifier under a context tag.
fn push_context_identifier(buffer: &mut Vec<u8>, tag_number: u8, value: ObjectIdentifier) -> (result:
    Result<(), EncodingError>)
    ensures
        codec::wrote(
            result,
            old(buffer)@,
            final(buffer)@,
            context_identifier_encoding(tag_number, value),
        ),
{
    match encode_context_object_id(value, tag_number) {
        Ok(encoded) => {
            octets::push_all(buffer, encoded.as_slice());
            Ok(())
        },
        Err(error) => Err(error),
    }
}

/// Append an unsigned number under a context tag.
fn push_context_number(buffer: &mut Vec<u8>, tag_number: u8, value: u32)
    ensures
        final(buffer)@ == old(buffer)@ + context::context_unsigned_octets(tag_number, value),
{
    match encode_context_unsigned(value, tag_number) {
        Ok(encoded) => octets::push_all(buffer, encoded.as_slice()),
        Err(_) => {},
    }
}

/// Encode a recipient.
fn encode_recipient(out: &mut Vec<u8>, value: &Recipient) -> (result: Result<(), EncodingError>)
    ensures
        codec::wrote(result, old(out)@, final(out)@, recipient_encoding(value@)),
{
    let ghost before = out@;
    match value {
        Recipient::Device(device) => push_context_identifier(out, 0, *device),
        Recipient::Address(address) => {
            let _ = encode_opening_tag(out, 1);
            push_address(out, address);
            let _ = encode_closing_tag(out, 1);
            assert(out@ =~= before + recipient_encoding(value@)->Ok_0);
            Ok(())
        },
    }
}

impl DestinationValue {
    /// Encode the destination.
    pub fn encode(&self, out: &mut Vec<u8>) -> (result: Result<(), EncodingError>)
        ensures
            codec::wrote(result, old(out)@, final(out)@, destination_encoding(self@)),
    {
        let ghost before = out@;
        let _ = encode_bit_string(out, self.valid_days.as_slice());
        let _ = encode_time(
            out,
            self.from_time.0,
            self.from_time.1,
            self.from_time.2,
            self.from_time.3,
        );
        let _ = encode_time(out, self.to_time.0, self.to_time.1, self.to_time.2, self.to_time.3);
        match encode_recipient(out, &self.recipient) {
            Ok(_) => {},
            Err(error) => {
                assert(before.is_prefix_of(out@));
                return Err(error);
            },
        }
        let _ = encode_unsigned(out, self.process_identifier);
        let _ = encode_boolean(out, self.issue_confirmed_notifications);
        let _ = encode_bit_string(out, self.transitions.as_slice());
        assert(out@ =~= before + destination_encoding(self@)->Ok_0);
        Ok(())
    }
}

impl ObjectPropertyReference {
    /// Encode the reference.
    pub fn encode(&self, buffer: &mut Vec<u8>) -> (result: Result<(), EncodingError>)
        ensures
            codec::wrote(result, old(buffer)@, final(buffer)@, reference_encoding(*self)),
    {
        let ghost before = buffer@;
        match push_context_identifier(buffer, 0, self.object_identifier) {
            Ok(_) => {},
            Err(error) => return Err(error),
        }
        push_context_number(buffer, 1, self.property_identifier.to_number());
        match self.array_index {
            Some(index) => push_context_number(buffer, 2, index),
            None => {},
        }
        assert(buffer@ =~= before + reference_encoding(*self)->Ok_0);
        Ok(())
    }
}

impl TimestampValue {
    /// Encode the timestamp.
    pub fn encode(&self, buffer: &mut Vec<u8>) -> (result: Result<(), EncodingError>)
        ensures
            codec::wrote(result, old(buffer)@, final(buffer)@, timestamp_encoding(*self)),
    {
        let ghost before = buffer@;
        match self {
            TimestampValue::Time(hour, minute, second, hundredths) => {
                let _ = encode_context_tag(buffer, 0, 4);
                buffer.push(*hour);
                buffer.push(*minute);
                buffer.push(*second);
                buffer.push(*hundredths);
                assert(buffer@ =~= before + timestamp_encoding(*self)->Ok_0);
            },
            TimestampValue::SequenceNumber(sequence) => {
                push_context_number(buffer, 1, *sequence);
            },
            TimestampValue::DateTime { date, time } => {
                let _ = encode_opening_tag(buffer, 2);
                match encode_date(buffer, date.0, date.1, date.2, date.3) {
                    Ok(_) => {},
                    Err(error) => {
                        assert(before.is_prefix_of(buffer@));
                        return Err(error);
                    },
                }
                let _ = encode_time(buffer, time.0, time.1, time.2, time.3);
                let _ = encode_closing_tag(buffer, 2);
                assert(buffer@ =~= before + timestamp_encoding(*self)->Ok_0);
            },
        }
        Ok(())
    }
}

/// Encode a recipient with its process identifier.
fn encode_recipient_process(buffer: &mut Vec<u8>, tag_number: u8, value: &RecipientProcess) -> (result:
    Result<(), EncodingError>)
    ensures
        codec::wrote(
            result,
            old(buffer)@,
            final(buffer)@,
            recipient_process_encoding(tag_number, value.recipient@, value.process_identifier),
        ),
{
    let ghost before = buffer@;
    let _ = encode_opening_tag(buffer, tag_number);
    let _ = encode_opening_tag(buffer, 0);
    match encode_recipient(buffer, &value.recipient) {
        Ok(_) => {},
        Err(error) => {
            assert(before.is_prefix_of(buffer@));
            return Err(error);
        },
    }
    let _ = encode_closing_tag(buffer, 0);
    push_context_number(buffer, 1, value.process_identifier);
    let _ = encode_closing_tag(buffer, tag_number);
    assert(buffer@ =~= before + recipient_process_encoding(
        tag_number,
        value.recipient@,
        value.process_identifier,
    )->Ok_0);
    Ok(())
}

/// Encode a property reference between the markers of a context.
fn encode_object_property_reference(
    buffer: &mut Vec<u8>,
    tag_number: u8,
    value: &ObjectPropertyReference,
) -> (result: Result<(), EncodingError>)
    ensures
        codec::wrote(
            result,
            old(buffer)@,
            final(buffer)@,
            codec::both(
                codec::both(Ok(tag::opening_octets(tag_number)), reference_encoding(*value)),
                Ok(tag::closing_octets(tag_number)),
            ),
        ),
{
    let ghost before = buffer@;
    let _ = encode_opening_tag(buffer, tag_number);
    match value.encode(buffer) {
        Ok(_) => {},
        Err(error) => {
            assert(before.is_prefix_of(buffer@));
            return Err(error);
        },
    }
    let _ = encode_closing_tag(buffer, tag_number);
    assert(buffer@ =~= before + codec::both(
        codec::both(Ok(tag::opening_octets(tag_number)), reference_encoding(*value)),
        Ok(tag::closing_octets(tag_number)),
    )->Ok_0);
    Ok(())
}

impl CovSubscriptionValue {
    /// Encode the subscription.
    pub fn encode(&self, buffer: &mut Vec<u8>) -> (result: Result<(), EncodingError>)
        ensures
            codec::wrote(result, old(buffer)@, final(buffer)@, cov_subscription_encoding(self@)),
    {
        let ghost before = buffer@;
        match encode_recipient_process(buffer, 0, &self.recipient) {
            Ok(_) => {},
            Err(error) => return Err(error),
        }
        match encode_object_property_reference(buffer, 1, &self.monitored_property) {
            Ok(_) => {},
            Err(error) => {
                assert(before.is_prefix_of(buffer@));
                return Err(error);
            },
        }
        let _ = encode_context_boolean(buffer, 2, self.issue_confirmed_notifications);
        push_context_number(buffer, 3, self.time_remaining);
        match self.cov_increment {
            Some(increment) => {
                let _ = encode_context_real(buffer, 4, increment);
            },
            None => {},
        }
        assert(buffer@ =~= before + cov_subscription_encoding(self@)->Ok_0);
        Ok(())
    }
}

// ---------------------------------------------------------------------------
// What the decodings are
// ---------------------------------------------------------------------------

/// What stands from octet `from` on.
pub open spec fn rest(data: Seq<u8>, from: int) -> Seq<u8> {
    data.subrange(from, data.len() as int)
}

/// Whether the tag at the front of `data` is a primitive context tag with the
/// given number and length.
pub open spec fn context_matches(data: Seq<u8>, tag_number: u8, length: nat) -> bool {
    tag::context_tag_at(data) matches Ok((number, actual, _)) && number == tag_number && actual
        == length
}

/// The value source at the front of `data`.
pub open spec fn value_source_at(data: Seq<u8>) -> Result<
    (ValueSourceValue, int),
    EncodingErrorView,
> {
    match tag::context_tag_at(data) {
        Err(error) => Err(error),
        Ok((number, length, used)) => if number == 0 && length == 0 {
            Ok((ValueSourceValue::NoSource, used))
        } else {
            Err(EncodingErrorView::InvalidTag)
        },
    }
}

/// The property reference at the front of `data`.
pub open spec fn reference_at(data: Seq<u8>) -> Result<
    (ObjectPropertyReference, int),
    EncodingErrorView,
> {
    match context::context_object_id_at(data, 0) {
        Err(error) => Err(error),
        Ok((object_identifier, a)) => match context::context_unsigned_at(rest(data, a), 1) {
            Err(error) => Err(error),
            Ok((property, b)) => {
                let tail = rest(data, a + b);
                let reference = ObjectPropertyReference {
                    object_identifier,
                    property_identifier: PropertyIdentifier::of(property),
                    array_index: None,
                };
                if tag::tag_of(tail) matches Ok((BACnetTag::Context(number), _, _)) && number == 2 {
                    match context::context_unsigned_at(tail, 2) {
                        Err(error) => Err(error),
                        Ok((index, c)) => Ok(
                            (
                                ObjectPropertyReference { array_index: Some(index), ..reference },
                                a + b + c,
                            ),
                        ),
                    }
                } else {
                    Ok((reference, a + b))
                }
            },
        },
    }
}

/// The timestamp at the front of `data`.
pub open spec fn timestamp_at(data: Seq<u8>) -> Result<(TimestampValue, int), EncodingErrorView> {
    match tag::tag_of(data) {
        Err(error) => Err(error),
        Ok((BACnetTag::Context(number), length, used)) => if number == 0 && length == 4
            && data.len() >= used + 4 {
            Ok(
                (
                    TimestampValue::Time(
                        data[used],
                        data[used + 1],
                        data[used + 2],
                        data[used + 3],
                    ),
                    used + 4,
                ),
            )
        } else if number == 1 {
            match context::context_unsigned_at(data, 1) {
                Err(error) => Err(error),
                Ok((sequence, n)) => Ok((TimestampValue::SequenceNumber(sequence), n)),
            }
        } else {
            Err(EncodingErrorView::InvalidTag)
        },
        Ok((BACnetTag::Opening(number), _, used)) => if number == 2 {
            match codec::value_at(rest(data, used)) {
                Err(error) => Err(error),
                Ok((PropertyValueView::Date(y, m, d, w), a)) => match codec::value_at(
                    rest(data, used + a),
                ) {
                    Err(error) => Err(error),
                    Ok((PropertyValueView::Time(h, n, s, f), b)) => match tag::closing_tag_at(
                        rest(data, used + a + b),
                        2,
                    ) {
                        Err(error) => Err(error),
                        Ok(c) => Ok(
                            (
                                TimestampValue::DateTime { date: (y, m, d, w), time: (h, n, s, f) },
                                used + a + b + c,
                            ),
                        ),
                    },
                    Ok(_) => Err(EncodingErrorView::InvalidTag),
                },
                Ok(_) => Err(EncodingErrorView::InvalidTag),
            }
        } else {
            Err(EncodingErrorView::InvalidTag)
        },
        Ok(_) => Err(EncodingErrorView::InvalidTag),
    }
}

/// The address between the markers of context 1 at the front of `data`. What is
/// said of a network or a station address of the wrong type is up to the caller.
pub open spec fn address_at(
    data: Seq<u8>,
    wrong_network: EncodingErrorView,
    wrong_mac: EncodingErrorView,
) -> Result<(AddressView, int), EncodingErrorView> {
    match tag::opening_tag_at(data, 1) {
        Err(error) => Err(error),
        Ok(o) => match codec::value_at(rest(data, o)) {
            Err(error) => Err(error),
            Ok((PropertyValueView::Unsigned(network), a)) => if network > u16::MAX {
                Err(EncodingErrorView::ValueOutOfRange)
            } else {
                match codec::value_at(rest(data, o + a)) {
                    Err(error) => Err(error),
                    Ok((PropertyValueView::OctetString(mac_address), b)) => {
                        match tag::closing_tag_at(rest(data, o + a + b), 1) {
                            Err(error) => Err(error),
                            Ok(c) => Ok(
                                (
                                    AddressView { network: network as u16, mac_address },
                                    o + a + b + c,
                                ),
                            ),
                        }
                    },
                    Ok(_) => Err(wrong_mac),
                }
            },
            Ok(_) => Err(wrong_network),
        },
    }
}

/// The recipient at the front of `data`.
pub open spec fn recipient_at(
    data: Seq<u8>,
    wrong_network: EncodingErrorView,
    wrong_mac: EncodingErrorView,
) -> Result<(RecipientView, int), EncodingErrorView> {
    if context_matches(data, 0, 4) {
        match context::context_object_id_at(data, 0) {
            Err(error) => Err(error),
            Ok((device, n)) => Ok((RecipientView::Device(device), n)),
        }
    } else {
        match address_at(data, wrong_network, wrong_mac) {
            Err(error) => Err(error),
            Ok((address, n)) => Ok((RecipientView::Address(address), n)),
        }
    }
}

/// The recipient list entry at the front of `data`.
pub open spec fn destination_at(data: Seq<u8>) -> Result<
    (DestinationView, int),
    EncodingErrorView,
> {
    match codec::value_at(data) {
        Err(error) => Err(error),
        Ok((PropertyValueView::BitString(valid_days), a)) => match codec::value_at(rest(data, a)) {
            Err(error) => Err(error),
            Ok((PropertyValueView::Time(fh, fm, fs, ff), b)) => match codec::value_at(
                rest(data, a + b),
            ) {
                Err(error) => Err(error),
                Ok((PropertyValueView::Time(th, tm, ts, tf), c)) => destination_tail_at(
                    data,
                    a + b + c,
                    valid_days,
                    (fh, fm, fs, ff),
                    (th, tm, ts, tf),
                ),
                Ok(_) => Err(EncodingErrorView::InvalidTag),
            },
            Ok(_) => Err(EncodingErrorView::InvalidTag),
        },
        Ok(_) => Err(EncodingErrorView::InvalidTag),
    }
}

/// The part of a recipient list entry from its recipient on.
pub open spec fn destination_tail_at(
    data: Seq<u8>,
    from: int,
    valid_days: Seq<bool>,
    from_time: (u8, u8, u8, u8),
    to_time: (u8, u8, u8, u8),
) -> Result<(DestinationView, int), EncodingErrorView> {
    match recipient_at(
        rest(data, from),
        EncodingErrorView::InvalidTag,
        EncodingErrorView::InvalidTag,
    ) {
        Err(error) => Err(error),
        Ok((recipient, d)) => match codec::value_at(rest(data, from + d)) {
            Err(error) => Err(error),
            Ok((PropertyValueView::Unsigned(process), e)) => if process > u32::MAX {
                Err(EncodingErrorView::ValueOutOfRange)
            } else {
                match codec::value_at(rest(data, from + d + e)) {
                    Err(error) => Err(error),
                    Ok((PropertyValueView::Boolean(confirmed), f)) => match codec::value_at(
                        rest(data, from + d + e + f),
                    ) {
                        Err(error) => Err(error),
                        Ok((PropertyValueView::BitString(transitions), g)) => Ok(
                            (
                                DestinationView {
                                    valid_days,
                                    from_time,
                                    to_time,
                                    recipient,
                                    process_identifier: process as u32,
                                    issue_confirmed_notifications: confirmed,
                                    transitions,
                                },
                                from + d + e + f + g,
                            ),
                        ),
                        Ok(_) => Err(EncodingErrorView::InvalidTag),
                    },
                    Ok(_) => Err(EncodingErrorView::InvalidTag),
                }
            },
            Ok(_) => Err(EncodingErrorView::InvalidTag),
        },
    }
}

/// The entries of a day from octet `from` on, up to the closing marker of context
/// 0, and where that marker stands.
pub open spec fn entries_at(data: Seq<u8>, from: int) -> Result<
    (Seq<TimeValueView>, int),
    EncodingErrorView,
>
    decreases data.len() - from,
    when 0 <= from <= data.len()
{
    proof {
        codec::lemma_value_length(rest(data, from));
        if codec::value_at(rest(data, from)) is Ok {
            codec::lemma_value_length(
                rest(data, from + codec::value_at(rest(data, from))->Ok_0.1),
            );
        }
    }
    if tag::tag_of(rest(data, from)) matches Ok((BACnetTag::Closing(number), _, _)) && number == 0 {
        Ok((Seq::<TimeValueView>::empty(), from))
    } else {
        match codec::value_at(rest(data, from)) {
            Err(error) => Err(error),
            Ok((PropertyValueView::Time(h, m, s, f), a)) => match codec::value_at(
                rest(data, from + a),
            ) {
                Err(error) => Err(error),
                Ok((value, b)) => match entries_at(data, from + a + b) {
                    Err(error) => Err(error),
                    Ok((tail, end)) => Ok(
                        (seq![TimeValueView { time: (h, m, s, f), value }] + tail, end),
                    ),
                },
            },
            Ok(_) => Err(EncodingErrorView::InvalidTag),
        }
    }
}

/// The day at the front of `data`.
pub open spec fn daily_schedule_at(data: Seq<u8>) -> Result<
    (Seq<TimeValueView>, int),
    EncodingErrorView,
> {
    match tag::opening_tag_at(data, 0) {
        Err(error) => Err(error),
        Ok(o) => match entries_at(data, o) {
            Err(error) => Err(error),
            Ok((entries, end)) => match tag::closing_tag_at(rest(data, end), 0) {
                Err(error) => Err(error),
                Ok(c) => Ok((entries, end + c)),
            },
        },
    }
}

/// What an address of the wrong shape inside a recipient process is answered.
pub open spec fn wrong_network() -> EncodingErrorView {
    EncodingErrorView::InvalidFormat("BACnetAddress network is not unsigned"@)
}

/// What a station address of the wrong type inside a recipient process is answered.
pub open spec fn wrong_mac() -> EncodingErrorView {
    EncodingErrorView::InvalidFormat("BACnetAddress MAC is not an octet string"@)
}

/// The recipient and process identifier under `tag_number` at the front of `data`.
pub open spec fn recipient_process_at(data: Seq<u8>, tag_number: u8) -> Result<
    ((RecipientView, u32), int),
    EncodingErrorView,
> {
    match tag::opening_tag_at(data, tag_number) {
        Err(error) => Err(error),
        Ok(a) => match tag::opening_tag_at(rest(data, a), 0) {
            Err(error) => Err(error),
            Ok(b) => match recipient_at(rest(data, a + b), wrong_network(), wrong_mac()) {
                Err(error) => Err(error),
                Ok((recipient, c)) => match tag::closing_tag_at(rest(data, a + b + c), 0) {
                    Err(error) => Err(error),
                    Ok(d) => match context::context_unsigned_at(rest(data, a + b + c + d), 1) {
                        Err(error) => Err(error),
                        Ok((process, e)) => match tag::closing_tag_at(
                            rest(data, a + b + c + d + e),
                            tag_number,
                        ) {
                            Err(error) => Err(error),
                            Ok(f) => Ok(((recipient, process), a + b + c + d + e + f)),
                        },
                    },
                },
            },
        },
    }
}

/// The property reference between the markers of a context at the front of `data`.
pub open spec fn wrapped_reference_at(data: Seq<u8>, tag_number: u8) -> Result<
    (ObjectPropertyReference, int),
    EncodingErrorView,
> {
    match tag::opening_tag_at(data, tag_number) {
        Err(error) => Err(error),
        Ok(a) => match reference_at(rest(data, a)) {
            Err(error) => Err(error),
            Ok((reference, b)) => match tag::closing_tag_at(rest(data, a + b), tag_number) {
                Err(error) => Err(error),
                Ok(c) => Ok((reference, a + b + c)),
            },
        },
    }
}

/// The Boolean of a subscription at the front of `data`. Octets that are missing
/// are answered as a wrong tag is.
pub open spec fn confirmation_at(data: Seq<u8>, tag_number: u8) -> Result<
    (bool, int),
    EncodingErrorView,
> {
    match tag::context_tag_at(data) {
        Err(error) => Err(error),
        Ok((number, length, used)) => if number != tag_number || length != 1 || data.len() < used
            + 1 {
            Err(EncodingErrorView::InvalidTag)
        } else if data[used] > 1 {
            Err(EncodingErrorView::InvalidFormat("context Boolean is not zero or one"@))
        } else {
            Ok((data[used] == 1, used + 1))
        },
    }
}

/// The increment of a subscription at the front of `data`, where there is one.
pub open spec fn increment_at(data: Seq<u8>) -> Result<(Option<Real>, int), EncodingErrorView> {
    if context_matches(data, 4, 4) {
        match context::context_real_at(data, 4) {
            Err(_) => Err(EncodingErrorView::InvalidTag),
            Ok((increment, n)) => Ok((Some(increment), n)),
        }
    } else {
        Ok((None, 0))
    }
}

/// The active COV subscription at the front of `data`.
pub open spec fn cov_subscription_at(data: Seq<u8>) -> Result<
    (CovSubscriptionView, int),
    EncodingErrorView,
> {
    match recipient_process_at(data, 0) {
        Err(error) => Err(error),
        Ok(((recipient, process_identifier), a)) => match wrapped_reference_at(rest(data, a), 1) {
            Err(error) => Err(error),
            Ok((monitored_property, b)) => match confirmation_at(rest(data, a + b), 2) {
                Err(error) => Err(error),
                Ok((confirmed, c)) => match context::context_unsigned_at(
                    rest(data, a + b + c),
                    3,
                ) {
                    Err(error) => Err(error),
                    Ok((time_remaining, d)) => match increment_at(rest(data, a + b + c + d)) {
                        Err(error) => Err(error),
                        Ok((cov_increment, e)) => Ok(
                            (
                                CovSubscriptionView {
                                    recipient,
                                    process_identifier,
                                    monitored_property,
                                    issue_confirmed_notifications: confirmed,
                                    time_remaining,
                                    cov_increment,
                                },
                                a + b + c + d + e,
                            ),
                        ),
                    },
                },
            },
        },
    }
}

/// The address binding at the front of `data`.
pub open spec fn address_binding_at(data: Seq<u8>) -> Result<
    (PropertyValueView, int),
    EncodingErrorView,
> {
    match codec::value_at(data) {
        Err(error) => Err(error),
        Ok((PropertyValueView::ObjectIdentifier(device), a)) => match codec::value_at(
            rest(data, a),
        ) {
            Err(error) => Err(error),
            Ok((PropertyValueView::Unsigned(network), b)) => if network > u16::MAX {
                Err(EncodingErrorView::ValueOutOfRange)
            } else {
                match codec::value_at(rest(data, a + b)) {
                    Err(error) => Err(error),
                    Ok((PropertyValueView::OctetString(mac_address), c)) => Ok(
                        (
                            PropertyValueView::AddressBinding(
                                device,
                                AddressView { network: network as u16, mac_address },
                            ),
                            a + b + c,
                        ),
                    ),
                    Ok(_) => Err(
                        EncodingErrorView::InvalidFormat(
                            "address binding MAC is not an octet string"@,
                        ),
                    ),
                }
            },
            Ok(_) => Err(
                EncodingErrorView::InvalidFormat("address binding network is not unsigned"@),
            ),
        },
        Ok(_) => Err(
            EncodingErrorView::InvalidFormat("address binding device is not an object identifier"@),
        ),
    }
}

/// All the items that `data` holds, one after another. An item of no length
/// would never end.
pub open spec fn items_at(
    data: Seq<u8>,
    item: spec_fn(Seq<u8>) -> Result<(PropertyValueView, int), EncodingErrorView>,
) -> Result<Seq<PropertyValueView>, EncodingErrorView>
    decreases data.len(),
{
    if data.len() == 0 {
        Ok(Seq::<PropertyValueView>::empty())
    } else {
        match item(data) {
            Err(error) => Err(error),
            Ok((value, n)) => if n <= 0 || n > data.len() {
                Err(EncodingErrorView::InvalidLength)
            } else {
                match items_at(rest(data, n), item) {
                    Err(error) => Err(error),
                    Ok(more) => Ok(seq![value] + more),
                }
            },
        }
    }
}

// ---------------------------------------------------------------------------
// Reading
// ---------------------------------------------------------------------------

/// What stands from octet `from` on.
fn tail(data: &[u8], from: usize) -> (tail: &[u8])
    requires
        from <= data.len(),
    ensures
        tail@ == rest(data@, from as int),
        tail@.len() == data@.len() - from,
        data@.len() <= usize::MAX,
{
    slice_subrange(data, from, data.len())
}

/// Whether the tag at the front of `data` is a primitive context tag with the
/// given number and length.
fn context_tag_matches(data: &[u8], tag_number: u8, length: usize) -> (matches: bool)
    ensures
        matches == context_matches(data@, tag_number, length as nat),
{
    match decode_context_tag(data) {
        Ok((number, actual, _)) => number == tag_number && actual == length,
        Err(_) => false,
    }
}

impl ValueSourceValue {
    /// Decode a value source.
    pub fn decode(data: &[u8]) -> (result: Result<(ValueSourceValue, usize), EncodingError>)
        ensures
            crate::encoding::error::same_outcome(result, value_source_at(data@)),
            result is Ok ==> 0 < result->Ok_0.1 <= data@.len(),
    {
        match decode_context_tag(data) {
            Err(error) => Err(error),
            Ok((number, length, consumed)) => if number == 0 && length == 0 {
                Ok((ValueSourceValue::NoSource, consumed))
            } else {
                Err(EncodingError::InvalidTag)
            },
        }
    }
}

impl ObjectPropertyReference {
    /// Decode a property reference.
    pub fn decode(data: &[u8]) -> (result: Result<(ObjectPropertyReference, usize), EncodingError>)
        ensures
            crate::encoding::error::same_outcome(result, reference_at(data@)),
            result is Ok ==> 0 < result->Ok_0.1 <= data@.len(),
    {
        let (object_identifier, first) = match decode_context_object_id(data, 0) {
            Ok(found) => found,
            Err(error) => return Err(error),
        };
        let (property, second) = match decode_context_unsigned(tail(data, first), 1) {
            Ok(found) => found,
            Err(error) => return Err(error),
        };
        let consumed: usize = first + second;
        let more = tail(data, consumed);
        let property_identifier = PropertyIdentifier::from_number(property);
        if is_context_tag(more, 2) {
            match decode_context_unsigned(more, 2) {
                Ok((index, third)) => Ok(
                    (
                        ObjectPropertyReference {
                            object_identifier,
                            property_identifier,
                            array_index: Some(index),
                        },
                        consumed + third,
                    ),
                ),
                Err(error) => Err(error),
            }
        } else {
            Ok(
                (
                    ObjectPropertyReference {
                        object_identifier,
                        property_identifier,
                        array_index: None,
                    },
                    consumed,
                ),
            )
        }
    }
}

impl TimestampValue {
    /// Decode a timestamp.
    pub fn decode(data: &[u8]) -> (result: Result<(TimestampValue, usize), EncodingError>)
        ensures
            crate::encoding::error::same_outcome(result, timestamp_at(data@)),
            result is Ok ==> 0 < result->Ok_0.1 <= data@.len(),
    {
        let (found, length, used) = match decode_tag(data) {
            Ok(found) => found,
            Err(error) => return Err(error),
        };
        match found {
            BACnetTag::Context(number) => {
                if number == 0 && length == 4 && data.len() - used >= 4 {
                    Ok(
                        (
                            TimestampValue::Time(
                                data[used],
                                data[used + 1],
                                data[used + 2],
                                data[used + 3],
                            ),
                            used + 4,
                        ),
                    )
                } else if number == 1 {
                    match decode_context_unsigned(data, 1) {
                        Ok((sequence, n)) => Ok((TimestampValue::SequenceNumber(sequence), n)),
                        Err(error) => Err(error),
                    }
                } else {
                    Err(EncodingError::InvalidTag)
                }
            },
            BACnetTag::Opening(number) => {
                if number != 2 {
                    return Err(EncodingError::InvalidTag);
                }
                let (first, a) = match decode_property_value(tail(data, used)) {
                    Ok(found) => found,
                    Err(error) => return Err(error),
                };
                let date = match first {
                    PropertyValue::Date(y, m, d, w) => (y, m, d, w),
                    _ => return Err(EncodingError::InvalidTag),
                };
                let (second, b) = match decode_property_value(tail(data, used + a)) {
                    Ok(found) => found,
                    Err(error) => return Err(error),
                };
                let time = match second {
                    PropertyValue::Time(h, n, s, f) => (h, n, s, f),
                    _ => return Err(EncodingError::InvalidTag),
                };
                match decode_closing_tag(tail(data, used + a + b), 2) {
                    Ok(c) => Ok((TimestampValue::DateTime { date, time }, used + a + b + c)),
                    Err(error) => Err(error),
                }
            },
            _ => Err(EncodingError::InvalidTag),
        }
    }
}

/// Decode an address between the markers of context 1. The two errors are what a
/// network and a station address of the wrong type are answered.
fn decode_address(data: &[u8], not_unsigned: EncodingError, not_octets: EncodingError) -> (result:
    Result<(BacnetAddress, usize), EncodingError>)
    ensures
        crate::encoding::error::same_viewed_outcome(
            result,
            address_at(data@, not_unsigned@, not_octets@),
        ),
        result is Ok ==> 0 < result->Ok_0.1 <= data@.len(),
{
    let o: usize = match decode_opening_tag(data, 1) {
        Ok(used) => used,
        Err(error) => return Err(error),
    };
    let (first, a) = match decode_property_value(tail(data, o)) {
        Ok(found) => found,
        Err(error) => return Err(error),
    };
    let network: u64 = match first {
        PropertyValue::Unsigned(network) => network,
        _ => return Err(not_unsigned),
    };
    if network > 0xFFFF {
        return Err(EncodingError::ValueOutOfRange);
    }
    let (second, b) = match decode_property_value(tail(data, o + a)) {
        Ok(found) => found,
        Err(error) => return Err(error),
    };
    let mac_address = match second {
        PropertyValue::OctetString(mac_address) => mac_address,
        _ => return Err(not_octets),
    };
    match decode_closing_tag(tail(data, o + a + b), 1) {
        Ok(c) => Ok((BacnetAddress { network: network as u16, mac_address }, o + a + b + c)),
        Err(error) => Err(error),
    }
}

/// Decode a recipient.
fn decode_recipient(data: &[u8], not_unsigned: EncodingError, not_octets: EncodingError) -> (result:
    Result<(Recipient, usize), EncodingError>)
    ensures
        crate::encoding::error::same_viewed_outcome(
            result,
            recipient_at(data@, not_unsigned@, not_octets@),
        ),
        result is Ok ==> 0 < result->Ok_0.1 <= data@.len(),
{
    if context_tag_matches(data, 0, 4) {
        match decode_context_object_id(data, 0) {
            Ok((device, consumed)) => Ok((Recipient::Device(device), consumed)),
            Err(error) => Err(error),
        }
    } else {
        match decode_address(data, not_unsigned, not_octets) {
            Ok((address, consumed)) => Ok((Recipient::Address(address), consumed)),
            Err(error) => Err(error),
        }
    }
}

impl DestinationValue {
    /// Decode a recipient list entry.
    pub fn decode(data: &[u8]) -> (result: Result<(DestinationValue, usize), EncodingError>)
        ensures
            crate::encoding::error::same_viewed_outcome(result, destination_at(data@)),
            result is Ok ==> 0 < result->Ok_0.1 <= data@.len(),
    {
        let (days, a) = match decode_property_value(data) {
            Ok(found) => found,
            Err(error) => return Err(error),
        };
        let valid_days = match days {
            PropertyValue::BitString(bits) => bits,
            _ => return Err(EncodingError::InvalidTag),
        };
        let (from, b) = match decode_property_value(tail(data, a)) {
            Ok(found) => found,
            Err(error) => return Err(error),
        };
        let from_time = match from {
            PropertyValue::Time(h, m, s, f) => (h, m, s, f),
            _ => return Err(EncodingError::InvalidTag),
        };
        let (to, c) = match decode_property_value(tail(data, a + b)) {
            Ok(found) => found,
            Err(error) => return Err(error),
        };
        let to_time = match to {
            PropertyValue::Time(h, m, s, f) => (h, m, s, f),
            _ => return Err(EncodingError::InvalidTag),
        };
        decode_destination_tail(data, a + b + c, valid_days, from_time, to_time)
    }
}

/// Decode a recipient list entry from its recipient on.
fn decode_destination_tail(
    data: &[u8],
    from: usize,
    valid_days: Vec<bool>,
    from_time: (u8, u8, u8, u8),
    to_time: (u8, u8, u8, u8),
) -> (result: Result<(DestinationValue, usize), EncodingError>)
    requires
        from <= data.len(),
    ensures
        crate::encoding::error::same_viewed_outcome(
            result,
            destination_tail_at(data@, from as int, valid_days@, from_time, to_time),
        ),
        result is Ok ==> 0 < result->Ok_0.1 <= data@.len(),
{
    let (recipient, d) = match decode_recipient(
        tail(data, from),
        EncodingError::InvalidTag,
        EncodingError::InvalidTag,
    ) {
        Ok(found) => found,
        Err(error) => return Err(error),
    };
    let (process, e) = match decode_property_value(tail(data, from + d)) {
        Ok(found) => found,
        Err(error) => return Err(error),
    };
    let process: u64 = match process {
        PropertyValue::Unsigned(process) => process,
        _ => return Err(EncodingError::InvalidTag),
    };
    if process > 0xFFFF_FFFF {
        return Err(EncodingError::ValueOutOfRange);
    }
    let (confirmed, f) = match decode_property_value(tail(data, from + d + e)) {
        Ok(found) => found,
        Err(error) => return Err(error),
    };
    let issue_confirmed_notifications = match confirmed {
        PropertyValue::Boolean(confirmed) => confirmed,
        _ => return Err(EncodingError::InvalidTag),
    };
    let (bits, g) = match decode_property_value(tail(data, from + d + e + f)) {
        Ok(found) => found,
        Err(error) => return Err(error),
    };
    let transitions = match bits {
        PropertyValue::BitString(bits) => bits,
        _ => return Err(EncodingError::InvalidTag),
    };
    Ok(
        (
            DestinationValue {
                valid_days,
                from_time,
                to_time,
                recipient,
                process_identifier: process as u32,
                issue_confirmed_notifications,
                transitions,
            },
            from + d + e + f + g,
        ),
    )
}

/// What reading entries from here on adds to those already read.
pub open spec fn entries_after(
    read: Seq<TimeValueView>,
    following: Result<(Seq<TimeValueView>, int), EncodingErrorView>,
) -> Result<(Seq<TimeValueView>, int), EncodingErrorView> {
    match following {
        Err(error) => Err(error),
        Ok((more, end)) => Ok((read + more, end)),
    }
}

impl DailyScheduleValue {
    /// Decode a day.
    pub fn decode(data: &[u8]) -> (result: Result<(DailyScheduleValue, usize), EncodingError>)
        ensures
            match (result, daily_schedule_at(data@)) {
                (Ok((day, used)), Ok((entries, length))) => value::time_values_model(
                    day.time_values,
                ) == entries && used == length,
                (Err(error), Err(expected)) => error@ == expected,
                _ => false,
            },
            result is Ok ==> 0 < result->Ok_0.1 <= data@.len(),
    {
        let start: usize = match decode_opening_tag(data, 0) {
            Ok(used) => used,
            Err(error) => return Err(error),
        };
        let mut at: usize = start;
        let mut time_values: Vec<TimeValueValue> = Vec::new();
        let ghost mut read = Seq::<TimeValueView>::empty();
        proof {
            let following = entries_at(data@, at as int);
            if following is Ok {
                assert(read + following->Ok_0.0 =~= following->Ok_0.0);
            }
        }
        while !is_closing_tag(tail(data, at), 0)
            invariant
                0 < at <= data.len(),
                read == value::time_values_model(time_values),
                entries_at(data@, start as int) == entries_after(
                    read,
                    entries_at(data@, at as int),
                ),
                tag::opening_tag_at(data@, 0) == Ok::<int, EncodingErrorView>(start as int),
            decreases data.len() - at,
        {
            let (first, a) = match decode_property_value(tail(data, at)) {
                Ok(found) => found,
                Err(error) => return Err(error),
            };
            let time = match first {
                PropertyValue::Time(h, m, s, f) => (h, m, s, f),
                _ => return Err(EncodingError::InvalidTag),
            };
            let (value, b) = match decode_property_value(tail(data, at + a)) {
                Ok(found) => found,
                Err(error) => return Err(error),
            };
            let ghost entry = TimeValueView { time, value: value.model() };
            let ghost before = read;
            time_values.push(TimeValueValue { time, value: Box::new(value) });
            proof {
                read = before.push(entry);
                assert(value::time_values_model(time_values) =~= read) by {
                    assert forall|k: int| 0 <= k < read.len() implies #[trigger] read[k]
                        == time_values@[k].model() by {
                        if k < before.len() {
                            assert(before[k] == value::time_values_model(time_values)[k]);
                        }
                    }
                }
                let following = entries_at(data@, at + a + b);
                if following is Ok {
                    assert(before + (seq![entry] + following->Ok_0.0) =~= read
                        + following->Ok_0.0);
                }
            }
            at = at + a + b;
        }
        assert(read + Seq::<TimeValueView>::empty() =~= read);
        match decode_closing_tag(tail(data, at), 0) {
            Ok(c) => Ok((DailyScheduleValue { time_values }, at + c)),
            Err(error) => Err(error),
        }
    }
}

/// Decode a recipient with its process identifier.
fn decode_recipient_process(data: &[u8], tag_number: u8) -> (result: Result<
    (RecipientProcess, usize),
    EncodingError,
>)
    ensures
        match (result, recipient_process_at(data@, tag_number)) {
            (Ok((found, used)), Ok(((recipient, process), length))) => {
                &&& found.recipient@ == recipient
                &&& found.process_identifier == process
                &&& used == length
            },
            (Err(error), Err(expected)) => error@ == expected,
            _ => false,
        },
        result is Ok ==> 0 < result->Ok_0.1 <= data@.len(),
{
    let a: usize = match decode_opening_tag(data, tag_number) {
        Ok(used) => used,
        Err(error) => return Err(error),
    };
    let b: usize = match decode_opening_tag(tail(data, a), 0) {
        Ok(used) => used,
        Err(error) => return Err(error),
    };
    let (recipient, c) = match decode_recipient(
        tail(data, a + b),
        EncodingError::invalid_format("BACnetAddress network is not unsigned"),
        EncodingError::invalid_format("BACnetAddress MAC is not an octet string"),
    ) {
        Ok(found) => found,
        Err(error) => return Err(error),
    };
    let d: usize = match decode_closing_tag(tail(data, a + b + c), 0) {
        Ok(used) => used,
        Err(error) => return Err(error),
    };
    let (process_identifier, e) = match decode_context_unsigned(tail(data, a + b + c + d), 1) {
        Ok(found) => found,
        Err(error) => return Err(error),
    };
    match decode_closing_tag(tail(data, a + b + c + d + e), tag_number) {
        Ok(f) => Ok((RecipientProcess { recipient, process_identifier }, a + b + c + d + e + f)),
        Err(error) => Err(error),
    }
}

/// Decode a property reference between the markers of a context.
fn decode_object_property_reference(data: &[u8], tag_number: u8) -> (result: Result<
    (ObjectPropertyReference, usize),
    EncodingError,
>)
    ensures
        crate::encoding::error::same_outcome(result, wrapped_reference_at(data@, tag_number)),
        result is Ok ==> 0 < result->Ok_0.1 <= data@.len(),
{
    let a: usize = match decode_opening_tag(data, tag_number) {
        Ok(used) => used,
        Err(error) => return Err(error),
    };
    let (reference, b) = match ObjectPropertyReference::decode(tail(data, a)) {
        Ok(found) => found,
        Err(error) => return Err(error),
    };
    match decode_closing_tag(tail(data, a + b), tag_number) {
        Ok(c) => Ok((reference, a + b + c)),
        Err(error) => Err(error),
    }
}

/// Decode the Boolean of a subscription.
fn decode_confirmation(data: &[u8], tag_number: u8) -> (result: Result<(bool, usize), EncodingError>)
    ensures
        crate::encoding::error::same_outcome(result, confirmation_at(data@, tag_number)),
        result is Ok ==> 0 < result->Ok_0.1 <= data@.len(),
{
    match decode_context_tag(data) {
        Err(error) => Err(error),
        Ok((number, length, used)) => {
            if number != tag_number || length != 1 || data.len() < used + 1 {
                return Err(EncodingError::InvalidTag);
            }
            match data[used] {
                0 => Ok((false, used + 1)),
                1 => Ok((true, used + 1)),
                _ => Err(EncodingError::invalid_format("context Boolean is not zero or one")),
            }
        },
    }
}

/// Decode the increment of a subscription, where there is one.
fn decode_increment(data: &[u8]) -> (result: Result<(Option<Real>, usize), EncodingError>)
    ensures
        crate::encoding::error::same_outcome(result, increment_at(data@)),
        result is Ok ==> result->Ok_0.1 <= data@.len(),
{
    if context_tag_matches(data, 4, 4) {
        match context::decode_context_real(data, 4) {
            Ok((increment, used)) => Ok((Some(increment), used)),
            Err(_) => Err(EncodingError::InvalidTag),
        }
    } else {
        Ok((None, 0))
    }
}

impl CovSubscriptionValue {
    /// Decode an active COV subscription.
    pub fn decode(data: &[u8]) -> (result: Result<(CovSubscriptionValue, usize), EncodingError>)
        ensures
            crate::encoding::error::same_viewed_outcome(result, cov_subscription_at(data@)),
            result is Ok ==> 0 < result->Ok_0.1 <= data@.len(),
    {
        let (recipient, a) = match decode_recipient_process(data, 0) {
            Ok(found) => found,
            Err(error) => return Err(error),
        };
        let (monitored_property, b) = match decode_object_property_reference(tail(data, a), 1) {
            Ok(found) => found,
            Err(error) => return Err(error),
        };
        let (issue_confirmed_notifications, c) = match decode_confirmation(tail(data, a + b), 2) {
            Ok(found) => found,
            Err(error) => return Err(error),
        };
        let (time_remaining, d) = match decode_context_unsigned(tail(data, a + b + c), 3) {
            Ok(found) => found,
            Err(error) => return Err(error),
        };
        match decode_increment(tail(data, a + b + c + d)) {
            Ok((cov_increment, e)) => Ok(
                (
                    CovSubscriptionValue {
                        recipient,
                        monitored_property,
                        issue_confirmed_notifications,
                        time_remaining,
                        cov_increment,
                    },
                    a + b + c + d + e,
                ),
            ),
            Err(error) => Err(error),
        }
    }
}

// ---------------------------------------------------------------------------
// Lists
// ---------------------------------------------------------------------------

/// What reading items from here on adds to those already read.
pub open spec fn items_after(
    read: Seq<PropertyValueView>,
    following: Result<Seq<PropertyValueView>, EncodingErrorView>,
) -> Result<Seq<PropertyValueView>, EncodingErrorView> {
    match following {
        Err(error) => Err(error),
        Ok(more) => Ok(read + more),
    }
}

/// Whether a list that was read is the stated one.
pub open spec fn same_list(
    actual: Result<Vec<PropertyValue>, EncodingError>,
    stated: Result<Seq<PropertyValueView>, EncodingErrorView>,
) -> bool {
    match (actual, stated) {
        (Ok(values), Ok(expected)) => value::values_model(values) == expected,
        (Err(error), Err(expected)) => error@ == expected,
        _ => false,
    }
}

/// Decode items one after another until the data ends.
fn decode_items<F: Fn(&[u8]) -> Result<(PropertyValue, usize), EncodingError>>(
    data: &[u8],
    decode_item: F,
    Ghost(item): Ghost<spec_fn(Seq<u8>) -> Result<(PropertyValueView, int), EncodingErrorView>>,
) -> (result: Result<Vec<PropertyValue>, EncodingError>)
    requires
        forall|d: &[u8]| #[trigger] call_requires(decode_item, (d,)),
        forall|d: &[u8], r: Result<(PropertyValue, usize), EncodingError>| #[trigger]
            call_ensures(decode_item, (d,), r) ==> codec::same_value_outcome(r, item(d@)) && (r
                is Ok ==> 0 < r->Ok_0.1 <= d@.len()),
    ensures
        same_list(result, items_at(data@, item)),
{
    let mut values: Vec<PropertyValue> = Vec::new();
    let mut at: usize = 0;
    let ghost mut read = Seq::<PropertyValueView>::empty();
    proof {
        assert(rest(data@, 0) =~= data@);
        let following = items_at(data@, item);
        if following is Ok {
            assert(read + following->Ok_0 =~= following->Ok_0);
        }
        assert(value::values_model(values) =~= read);
    }
    while at < data.len()
        invariant
            at <= data.len(),
            read == value::values_model(values),
            items_at(data@, item) == items_after(read, items_at(rest(data@, at as int), item)),
            forall|d: &[u8]| #[trigger] call_requires(decode_item, (d,)),
            forall|d: &[u8], r: Result<(PropertyValue, usize), EncodingError>| #[trigger]
                call_ensures(decode_item, (d,), r) ==> codec::same_value_outcome(r, item(d@)) && (r
                    is Ok ==> 0 < r->Ok_0.1 <= d@.len()),
        decreases data.len() - at,
    {
        let more = tail(data, at);
        let (value, length) = match decode_item(more) {
            Ok(found) => found,
            Err(error) => return Err(error),
        };
        let ghost before = read;
        let ghost model = value.model();
        values.push(value);
        proof {
            read = before.push(model);
            assert(value::values_model(values) =~= read) by {
                assert forall|k: int| 0 <= k < read.len() implies #[trigger] read[k]
                    == values@[k].model() by {
                    if k < before.len() {
                        assert(before[k] == value::values_model(values)[k]);
                    }
                }
            }
            assert(rest(more@, length as int) =~= rest(data@, at + length));
            let following = items_at(rest(data@, at + length), item);
            if following is Ok {
                assert(before + (seq![model] + following->Ok_0) =~= read + following->Ok_0);
            }
        }
        at = at + length;
    }
    proof {
        assert(rest(data@, at as int) =~= Seq::<u8>::empty());
        assert(read + Seq::<PropertyValueView>::empty() =~= read);
    }
    Ok(values)
}

/// One of the active COV subscriptions at the front of `data`, as a property value.
pub open spec fn cov_subscriptions_item(data: Seq<u8>) -> Result<(PropertyValueView, int), EncodingErrorView> {
    match cov_subscription_at(data) {
        Err(error) => Err(error),
        Ok((v, n)) => Ok((PropertyValueView::CovSubscription(v), n)),
    }
}

/// Decode one of the active COV subscriptions.
fn cov_subscriptions_value(data: &[u8]) -> (result: Result<(PropertyValue, usize), EncodingError>)
    ensures
        codec::same_value_outcome(result, cov_subscriptions_item(data@)),
        result is Ok ==> 0 < result->Ok_0.1 <= data@.len(),
{
    match CovSubscriptionValue::decode(data) {
        Ok((v, n)) => Ok((PropertyValue::CovSubscription(v), n)),
        Err(error) => Err(error),
    }
}

/// Decode all the active COV subscriptions that `data` holds.
pub fn decode_cov_subscriptions(data: &[u8]) -> (result: Result<Vec<PropertyValue>, EncodingError>)
    ensures
        same_list(result, items_at(data@, |d: Seq<u8>| cov_subscriptions_item(d))),
{
    decode_items(data, cov_subscriptions_value, Ghost(|d: Seq<u8>| cov_subscriptions_item(d)))
}

/// One of the timestamps at the front of `data`, as a property value.
pub open spec fn timestamps_item(data: Seq<u8>) -> Result<(PropertyValueView, int), EncodingErrorView> {
    match timestamp_at(data) {
        Err(error) => Err(error),
        Ok((v, n)) => Ok((PropertyValueView::Timestamp(v), n)),
    }
}

/// Decode one of the timestamps.
fn timestamps_value(data: &[u8]) -> (result: Result<(PropertyValue, usize), EncodingError>)
    ensures
        codec::same_value_outcome(result, timestamps_item(data@)),
        result is Ok ==> 0 < result->Ok_0.1 <= data@.len(),
{
    match TimestampValue::decode(data) {
        Ok((v, n)) => Ok((PropertyValue::Timestamp(v), n)),
        Err(error) => Err(error),
    }
}

/// Decode all the timestamps that `data` holds.
pub fn decode_timestamps(data: &[u8]) -> (result: Result<Vec<PropertyValue>, EncodingError>)
    ensures
        same_list(result, items_at(data@, |d: Seq<u8>| timestamps_item(d))),
{
    decode_items(data, timestamps_value, Ghost(|d: Seq<u8>| timestamps_item(d)))
}

/// One of the recipient list entries at the front of `data`, as a property value.
pub open spec fn destinations_item(data: Seq<u8>) -> Result<(PropertyValueView, int), EncodingErrorView> {
    match destination_at(data) {
        Err(error) => Err(error),
        Ok((v, n)) => Ok((PropertyValueView::Destination(v), n)),
    }
}

/// Decode one of the recipient list entries.
fn destinations_value(data: &[u8]) -> (result: Result<(PropertyValue, usize), EncodingError>)
    ensures
        codec::same_value_outcome(result, destinations_item(data@)),
        result is Ok ==> 0 < result->Ok_0.1 <= data@.len(),
{
    match DestinationValue::decode(data) {
        Ok((v, n)) => Ok((PropertyValue::Destination(v), n)),
        Err(error) => Err(error),
    }
}

/// Decode all the recipient list entries that `data` holds.
pub fn decode_destinations(data: &[u8]) -> (result: Result<Vec<PropertyValue>, EncodingError>)
    ensures
        same_list(result, items_at(data@, |d: Seq<u8>| destinations_item(d))),
{
    decode_items(data, destinations_value, Ghost(|d: Seq<u8>| destinations_item(d)))
}

/// One of the value sources at the front of `data`, as a property value.
pub open spec fn value_sources_item(data: Seq<u8>) -> Result<(PropertyValueView, int), EncodingErrorView> {
    match value_source_at(data) {
        Err(error) => Err(error),
        Ok((v, n)) => Ok((PropertyValueView::ValueSource(v), n)),
    }
}

/// Decode one of the value sources.
fn value_sources_value(data: &[u8]) -> (result: Result<(PropertyValue, usize), EncodingError>)
    ensures
        codec::same_value_outcome(result, value_sources_item(data@)),
        result is Ok ==> 0 < result->Ok_0.1 <= data@.len(),
{
    match ValueSourceValue::decode(data) {
        Ok((v, n)) => Ok((PropertyValue::ValueSource(v), n)),
        Err(error) => Err(error),
    }
}

/// Decode all the value sources that `data` holds.
pub fn decode_value_sources(data: &[u8]) -> (result: Result<Vec<PropertyValue>, EncodingError>)
    ensures
        same_list(result, items_at(data@, |d: Seq<u8>| value_sources_item(d))),
{
    decode_items(data, value_sources_value, Ghost(|d: Seq<u8>| value_sources_item(d)))
}

/// One of the property references at the front of `data`, as a property value.
pub open spec fn object_property_references_item(data: Seq<u8>) -> Result<(PropertyValueView, int), EncodingErrorView> {
    match reference_at(data) {
        Err(error) => Err(error),
        Ok((v, n)) => Ok((PropertyValueView::ObjectPropertyReference(v), n)),
    }
}

/// Decode one of the property references.
fn object_property_references_value(data: &[u8]) -> (result: Result<(PropertyValue, usize), EncodingError>)
    ensures
        codec::same_value_outcome(result, object_property_references_item(data@)),
        result is Ok ==> 0 < result->Ok_0.1 <= data@.len(),
{
    match ObjectPropertyReference::decode(data) {
        Ok((v, n)) => Ok((PropertyValue::ObjectPropertyReference(v), n)),
        Err(error) => Err(error),
    }
}

/// Decode all the property references that `data` holds.
pub fn decode_object_property_references(data: &[u8]) -> (result: Result<Vec<PropertyValue>, EncodingError>)
    ensures
        same_list(result, items_at(data@, |d: Seq<u8>| object_property_references_item(d))),
{
    decode_items(data, object_property_references_value, Ghost(|d: Seq<u8>| object_property_references_item(d)))
}

/// One of the days at the front of `data`, as a property value.
pub open spec fn weekly_schedule_item(data: Seq<u8>) -> Result<(PropertyValueView, int), EncodingErrorView> {
    match daily_schedule_at(data) {
        Err(error) => Err(error),
        Ok((v, n)) => Ok((PropertyValueView::DailySchedule(v), n)),
    }
}

/// Decode one of the days.
fn weekly_schedule_value(data: &[u8]) -> (result: Result<(PropertyValue, usize), EncodingError>)
    ensures
        codec::same_value_outcome(result, weekly_schedule_item(data@)),
        result is Ok ==> 0 < result->Ok_0.1 <= data@.len(),
{
    match DailyScheduleValue::decode(data) {
        Ok((v, n)) => Ok((PropertyValue::DailySchedule(v), n)),
        Err(error) => Err(error),
    }
}

/// Decode all the days that `data` holds.
pub fn decode_weekly_schedule(data: &[u8]) -> (result: Result<Vec<PropertyValue>, EncodingError>)
    ensures
        same_list(result, items_at(data@, |d: Seq<u8>| weekly_schedule_item(d))),
{
    decode_items(data, weekly_schedule_value, Ghost(|d: Seq<u8>| weekly_schedule_item(d)))
}

/// Decode one address binding.
fn address_binding_value(data: &[u8]) -> (result: Result<(PropertyValue, usize), EncodingError>)
    ensures
        codec::same_value_outcome(result, address_binding_at(data@)),
        result is Ok ==> 0 < result->Ok_0.1 <= data@.len(),
{
    let (first, a) = match decode_property_value(data) {
        Ok(found) => found,
        Err(error) => return Err(error),
    };
    let device_identifier = match first {
        PropertyValue::ObjectIdentifier(device) => device,
        _ => return Err(
            EncodingError::invalid_format("address binding device is not an object identifier"),
        ),
    };
    let (second, b) = match decode_property_value(tail(data, a)) {
        Ok(found) => found,
        Err(error) => return Err(error),
    };
    let network: u64 = match second {
        PropertyValue::Unsigned(network) => network,
        _ => return Err(EncodingError::invalid_format("address binding network is not unsigned")),
    };
    if network > 0xFFFF {
        return Err(EncodingError::ValueOutOfRange);
    }
    let (third, c) = match decode_property_value(tail(data, a + b)) {
        Ok(found) => found,
        Err(error) => return Err(error),
    };
    let mac_address = match third {
        PropertyValue::OctetString(mac_address) => mac_address,
        _ => return Err(
            EncodingError::invalid_format("address binding MAC is not an octet string"),
        ),
    };
    Ok(
        (
            PropertyValue::AddressBinding(
                AddressBindingValue {
                    device_identifier,
                    address: BacnetAddress { network: network as u16, mac_address },
                },
            ),
            a + b + c,
        ),
    )
}

/// Decode all the address bindings that `data` holds.
pub fn decode_address_bindings(data: &[u8]) -> (result: Result<Vec<PropertyValue>, EncodingError>)
    ensures
        same_list(result, items_at(data@, |d: Seq<u8>| address_binding_at(d))),
{
    decode_items(data, address_binding_value, Ghost(|d: Seq<u8>| address_binding_at(d)))
}

} // verus!
