//! Property values as octets.

use crate::encoding::bitstring;
use crate::encoding::bitstring::{decode_bit_string, encode_bit_string};
use crate::encoding::error::{EncodingError, EncodingErrorView};
use crate::encoding::primitive;
use crate::encoding::primitive::{
    decode_boolean, decode_character_string, decode_date, decode_double, decode_enumerated,
    decode_object_identifier, decode_octet_string, decode_real, decode_signed64, decode_time,
    decode_unsigned64, encode_boolean, encode_character_string, encode_date, encode_double,
    encode_enumerated, encode_object_identifier, encode_octet_string, encode_real, encode_signed64,
    encode_time, encode_unsigned64,
};
use crate::encoding::tag;
use crate::encoding::tag::{decode_application_tag, encode_application_tag, ApplicationTag};
use crate::object::identifier::ObjectIdentifier;
use crate::property::complex;
use crate::property::value;
use crate::property::value::{PropertyValue, PropertyValueView};
use vstd::prelude::*;

verus! {

// ---------------------------------------------------------------------------
// Writing
// ---------------------------------------------------------------------------

/// What writing two things after one another gives: the octets of both, or the
/// first error.
pub open spec fn both(
    first: Result<Seq<u8>, EncodingErrorView>,
    second: Result<Seq<u8>, EncodingErrorView>,
) -> Result<Seq<u8>, EncodingErrorView> {
    match first {
        Err(error) => Err(error),
        Ok(head) => match second {
            Err(error) => Err(error),
            Ok(tail) => Ok(head + tail),
        },
    }
}

/// Whether the stated octets were appended, or the stated error came back. An
/// error leaves what the buffer held at its front.
pub open spec fn wrote(
    result: Result<(), EncodingError>,
    before: Seq<u8>,
    after: Seq<u8>,
    stated: Result<Seq<u8>, EncodingErrorView>,
) -> bool {
    match (result, stated) {
        (Ok(_), Ok(octets)) => after == before + octets,
        (Err(error), Err(expected)) => error@ == expected && before.is_prefix_of(after),
        _ => false,
    }
}

/// The octets of a date, where its year can be written.
pub open spec fn date_encoding(date: (u16, u8, u8, u8)) -> Result<Seq<u8>, EncodingErrorView> {
    if primitive::year_is_encodable(date.0) {
        Ok(primitive::date_octets(date))
    } else {
        Err(EncodingErrorView::ValueOutOfRange)
    }
}

/// The octets of an object identifier, where it can be written.
pub open spec fn identifier_encoding(value: ObjectIdentifier) -> Result<
    Seq<u8>,
    EncodingErrorView,
> {
    if value.is_encodable() {
        Ok(primitive::object_identifier_octets(value))
    } else {
        Err(EncodingErrorView::ValueOutOfRange)
    }
}

/// The octets of a text, where its length can be counted.
pub open spec fn text_encoding(text: Seq<char>) -> Result<Seq<u8>, EncodingErrorView> {
    if primitive::character_string_fits(text) {
        Ok(primitive::character_string_octets(text))
    } else {
        Err(EncodingErrorView::BufferOverflow)
    }
}

/// The octets of a value. A list is its elements one after another. Calendar
/// entries, date ranges and special events have no form of their own here.
pub open spec fn value_encoding(value: PropertyValueView) -> Result<Seq<u8>, EncodingErrorView>
    decreases value,
{
    match value {
        PropertyValueView::Null => Ok(tag::application_header(ApplicationTag::Null, 0)),
        PropertyValueView::Boolean(v) => Ok(primitive::boolean_octets(v)),
        PropertyValueView::Unsigned(v) => Ok(primitive::unsigned64_octets(v)),
        PropertyValueView::Signed(v) => Ok(primitive::signed64_octets(v)),
        PropertyValueView::Real(v) => Ok(primitive::real_octets(v)),
        PropertyValueView::Double(v) => Ok(primitive::double_octets(v)),
        PropertyValueView::OctetString(v) => Ok(primitive::octet_string_octets(v)),
        PropertyValueView::CharacterString(v) => text_encoding(v),
        PropertyValueView::BitString(v) => Ok(bitstring::bit_string_octets(v)),
        PropertyValueView::Enumerated(v) => Ok(primitive::enumerated_octets(v)),
        PropertyValueView::Date(y, m, d, w) => date_encoding((y, m, d, w)),
        PropertyValueView::Time(h, m, s, f) => Ok(primitive::time_octets((h, m, s, f))),
        PropertyValueView::ObjectIdentifier(v) => identifier_encoding(v),
        PropertyValueView::Array(values) => values_encoding(values),
        PropertyValueView::List(values) => values_encoding(values),
        PropertyValueView::AddressBinding(device, address) => complex::address_binding_encoding(
            device,
            address,
        ),
        PropertyValueView::CovSubscription(v) => complex::cov_subscription_encoding(v),
        PropertyValueView::Timestamp(v) => complex::timestamp_encoding(v),
        PropertyValueView::Destination(v) => complex::destination_encoding(v),
        PropertyValueView::DailySchedule(entries) => both(
            both(Ok(tag::opening_octets(0)), entries_encoding(entries)),
            Ok(tag::closing_octets(0)),
        ),
        PropertyValueView::ValueSource(_) => Ok(tag::context_header(0, 0)),
        PropertyValueView::ObjectPropertyReference(v) => complex::reference_encoding(v),
        PropertyValueView::DateRange(_) => Err(EncodingErrorView::InvalidTag),
        PropertyValueView::CalendarEntry(_) => Err(EncodingErrorView::InvalidTag),
        PropertyValueView::SpecialEvent(_, _, _) => Err(EncodingErrorView::InvalidTag),
    }
}

/// The octets of several values, one after another.
pub open spec fn values_encoding(values: Seq<PropertyValueView>) -> Result<
    Seq<u8>,
    EncodingErrorView,
>
    decreases values,
{
    if values.len() == 0 {
        Ok(Seq::<u8>::empty())
    } else {
        both(values_encoding(values.drop_last()), value_encoding(values.last()))
    }
}

/// The octets of the entries of a day: each a time, then a value.
pub open spec fn entries_encoding(entries: Seq<value::TimeValueView>) -> Result<
    Seq<u8>,
    EncodingErrorView,
>
    decreases entries,
{
    if entries.len() == 0 {
        Ok(Seq::<u8>::empty())
    } else {
        both(
            both(
                entries_encoding(entries.drop_last()),
                Ok(primitive::time_octets(entries.last().time)),
            ),
            value_encoding(entries.last().value),
        )
    }
}

/// Encode the entries of a day.
pub(crate) fn encode_entries(entries: &Vec<value::TimeValueValue>, buffer: &mut Vec<u8>) -> (result:
    Result<(), EncodingError>)
    ensures
        wrote(
            result,
            old(buffer)@,
            final(buffer)@,
            entries_encoding(value::time_values_model(*entries)),
        ),
    decreases entries,
{
    let ghost model = value::time_values_model(*entries);
    let mut i: usize = 0;
    assert(model.take(0) =~= Seq::empty());
    assert(buffer@ =~= old(buffer)@ + Seq::<u8>::empty());
    while i < entries.len()
        invariant
            i <= entries@.len(),
            model == value::time_values_model(*entries),
            entries_encoding(model.take(i as int)) is Ok,
            buffer@ == old(buffer)@ + entries_encoding(model.take(i as int))->Ok_0,
        decreases entries@.len() - i,
    {
        let entry = &entries[i];
        let ghost before = buffer@;
        proof {
            assert(model.take(i + 1).drop_last() =~= model.take(i as int));
            assert(model.take(i + 1).last() == entry.model());
        }
        let _ = encode_time(buffer, entry.time.0, entry.time.1, entry.time.2, entry.time.3);
        match encode_property_value(&entry.value, buffer) {
            Ok(_) => {},
            Err(error) => {
                proof {
                    lemma_entries_error(model, i + 1);
                    assert(old(buffer)@.is_prefix_of(buffer@));
                }
                return Err(error);
            },
        }
        i = i + 1;
        assert(buffer@ =~= old(buffer)@ + entries_encoding(model.take(i as int))->Ok_0);
    }
    assert(model.take(i as int) =~= model);
    Ok(())
}

/// An error in a front part of the entries is the error of the whole.
proof fn lemma_entries_error(entries: Seq<value::TimeValueView>, count: int)
    requires
        0 <= count <= entries.len(),
        entries_encoding(entries.take(count)) is Err,
    ensures
        entries_encoding(entries) == entries_encoding(entries.take(count)),
    decreases entries.len() - count,
{
    if count < entries.len() {
        assert(entries.take(count + 1).drop_last() =~= entries.take(count));
        lemma_entries_error(entries, count + 1);
    } else {
        assert(entries.take(count) =~= entries);
    }
}

/// An error in a front part of the values is the error of the whole.
proof fn lemma_values_error(values: Seq<PropertyValueView>, count: int)
    requires
        0 <= count <= values.len(),
        values_encoding(values.take(count)) is Err,
    ensures
        values_encoding(values) == values_encoding(values.take(count)),
    decreases values.len() - count,
{
    if count < values.len() {
        assert(values.take(count + 1).drop_last() =~= values.take(count));
        lemma_values_error(values, count + 1);
    } else {
        assert(values.take(count) =~= values);
    }
}

/// Encode several values, one after another.
fn encode_values(values: &Vec<PropertyValue>, buffer: &mut Vec<u8>) -> (result: Result<
    (),
    EncodingError,
>)
    ensures
        wrote(
            result,
            old(buffer)@,
            final(buffer)@,
            values_encoding(value::values_model(*values)),
        ),
    decreases values,
{
    let ghost model = value::values_model(*values);
    let mut i: usize = 0;
    assert(model.take(0) =~= Seq::empty());
    assert(buffer@ =~= old(buffer)@ + Seq::<u8>::empty());
    while i < values.len()
        invariant
            i <= values@.len(),
            model == value::values_model(*values),
            values_encoding(model.take(i as int)) is Ok,
            buffer@ == old(buffer)@ + values_encoding(model.take(i as int))->Ok_0,
        decreases values@.len() - i,
    {
        proof {
            assert(model.take(i + 1).drop_last() =~= model.take(i as int));
            assert(model.take(i + 1).last() == values[i as int].model());
        }
        match encode_property_value(&values[i], buffer) {
            Ok(_) => {},
            Err(error) => {
                proof {
                    lemma_values_error(model, i + 1);
                    assert(old(buffer)@.is_prefix_of(buffer@));
                }
                return Err(error);
            },
        }
        i = i + 1;
        assert(buffer@ =~= old(buffer)@ + values_encoding(model.take(i as int))->Ok_0);
    }
    assert(model.take(i as int) =~= model);
    Ok(())
}

/// Encode a property value.
pub fn encode_property_value(value: &PropertyValue, buffer: &mut Vec<u8>) -> (result: Result<
    (),
    EncodingError,
>)
    ensures
        wrote(result, old(buffer)@, final(buffer)@, value_encoding(value.model())),
    decreases value,
{
    match value {
        PropertyValue::Null => {
            encode_application_tag(buffer, ApplicationTag::Null, 0);
            Ok(())
        },
        PropertyValue::Boolean(v) => encode_boolean(buffer, *v),
        PropertyValue::Unsigned(v) => {
            encode_unsigned64(buffer, *v);
            Ok(())
        },
        PropertyValue::Signed(v) => {
            encode_signed64(buffer, *v);
            Ok(())
        },
        PropertyValue::Real(v) => encode_real(buffer, *v),
        PropertyValue::Double(v) => encode_double(buffer, *v),
        PropertyValue::OctetString(v) => encode_octet_string(buffer, v.as_slice()),
        PropertyValue::CharacterString(v) => encode_character_string(buffer, v.as_str()),
        PropertyValue::BitString(v) => encode_bit_string(buffer, v.as_slice()),
        PropertyValue::Enumerated(v) => {
            encode_enumerated(buffer, *v);
            Ok(())
        },
        PropertyValue::Date(y, m, d, w) => encode_date(buffer, *y, *m, *d, *w),
        PropertyValue::Time(h, m, s, f) => encode_time(buffer, *h, *m, *s, *f),
        PropertyValue::ObjectIdentifier(v) => encode_object_identifier(buffer, *v),
        PropertyValue::Array(values) => encode_values(values, buffer),
        PropertyValue::List(values) => encode_values(values, buffer),
        PropertyValue::AddressBinding(v) => v.encode(buffer),
        PropertyValue::CovSubscription(v) => v.encode(buffer),
        PropertyValue::Timestamp(v) => v.encode(buffer),
        PropertyValue::Destination(v) => v.encode(buffer),
        PropertyValue::DailySchedule(v) => {
            let ghost before = buffer@;
            let _ = tag::encode_opening_tag(buffer, 0);
            match encode_entries(&v.time_values, buffer) {
                Ok(_) => {},
                Err(error) => {
                    assert(before.is_prefix_of(buffer@));
                    return Err(error);
                },
            }
            let _ = tag::encode_closing_tag(buffer, 0);
            assert(buffer@ =~= before + value_encoding(value.model())->Ok_0);
            Ok(())
        },
        PropertyValue::ValueSource(v) => v.encode(buffer),
        PropertyValue::ObjectPropertyReference(v) => v.encode(buffer),
        PropertyValue::DateRange(_) => Err(EncodingError::InvalidTag),
        PropertyValue::CalendarEntry(_) => Err(EncodingError::InvalidTag),
        PropertyValue::SpecialEvent(_) => Err(EncodingError::InvalidTag),
    }
}

// ---------------------------------------------------------------------------
// Reading
// ---------------------------------------------------------------------------

/// The application-tagged value at the front of `data`.
#[verifier::opaque]
pub open spec fn value_at(data: Seq<u8>) -> Result<(PropertyValueView, int), EncodingErrorView> {
    match tag::application_tag_at(data) {
        Err(error) => Err(error),
        Ok((kind, length, used)) => match kind {
            ApplicationTag::Null => if length == 0 {
                Ok((PropertyValueView::Null, used))
            } else {
                Err(EncodingErrorView::InvalidLength)
            },
            ApplicationTag::Boolean => match primitive::boolean_at(data) {
                Ok((v, n)) => Ok((PropertyValueView::Boolean(v), n)),
                Err(error) => Err(error),
            },
            ApplicationTag::UnsignedInt => match primitive::unsigned64_at(data) {
                Ok((v, n)) => Ok((PropertyValueView::Unsigned(v), n)),
                Err(error) => Err(error),
            },
            ApplicationTag::SignedInt => match primitive::signed64_at(data) {
                Ok((v, n)) => Ok((PropertyValueView::Signed(v), n)),
                Err(error) => Err(error),
            },
            ApplicationTag::Real => match primitive::real_at(data) {
                Ok((v, n)) => Ok((PropertyValueView::Real(v), n)),
                Err(error) => Err(error),
            },
            ApplicationTag::Double => match primitive::double_at(data) {
                Ok((v, n)) => Ok((PropertyValueView::Double(v), n)),
                Err(error) => Err(error),
            },
            ApplicationTag::OctetString => match primitive::octet_string_at(data) {
                Ok((v, n)) => Ok((PropertyValueView::OctetString(v), n)),
                Err(error) => Err(error),
            },
            ApplicationTag::CharacterString => match primitive::character_string_at(data) {
                Ok((v, n)) => Ok((PropertyValueView::CharacterString(v), n)),
                Err(error) => Err(error),
            },
            ApplicationTag::BitString => match bitstring::bit_string_at(data) {
                Ok((v, n)) => Ok((PropertyValueView::BitString(v), n)),
                Err(error) => Err(error),
            },
            ApplicationTag::Enumerated => match primitive::enumerated_at(data) {
                Ok((v, n)) => Ok((PropertyValueView::Enumerated(v), n)),
                Err(error) => Err(error),
            },
            ApplicationTag::Date => match primitive::date_at(data) {
                Ok((v, n)) => Ok((PropertyValueView::Date(v.0, v.1, v.2, v.3), n)),
                Err(error) => Err(error),
            },
            ApplicationTag::Time => match primitive::time_at(data) {
                Ok((v, n)) => Ok((PropertyValueView::Time(v.0, v.1, v.2, v.3), n)),
                Err(error) => Err(error),
            },
            ApplicationTag::ObjectIdentifier => match primitive::object_identifier_at(data) {
                Ok((v, n)) => Ok((PropertyValueView::ObjectIdentifier(v), n)),
                Err(error) => Err(error),
            },
            _ => Err(EncodingErrorView::InvalidTag),
        },
    }
}

/// Whether an outcome is the stated one, comparing values by what they hold.
pub open spec fn same_value_outcome(
    actual: Result<(PropertyValue, usize), EncodingError>,
    stated: Result<(PropertyValueView, int), EncodingErrorView>,
) -> bool {
    match (actual, stated) {
        (Ok((value, used)), Ok((expected, length))) => value.model() == expected && used == length,
        (Err(error), Err(expected)) => error@ == expected,
        _ => false,
    }
}

/// A value that was read occupies at least one octet, and none that are not there.
pub proof fn lemma_value_length(data: Seq<u8>)
    ensures
        value_at(data) is Ok ==> 0 < value_at(data)->Ok_0.1 <= data.len(),
{
    reveal(value_at);
    tag::lemma_tag_length(data);
}

/// Decode an application-tagged property value.
pub fn decode_property_value(data: &[u8]) -> (result: Result<(PropertyValue, usize), EncodingError>)
    ensures
        same_value_outcome(result, value_at(data@)),
        result is Ok ==> 0 < result->Ok_0.1 <= data@.len(),
{
    proof {
        reveal(value_at);
        lemma_value_length(data@);
    }
    let (kind, length, used) = match decode_application_tag(data) {
        Ok(found) => found,
        Err(error) => return Err(error),
    };
    match kind {
        ApplicationTag::Null => if length == 0 {
            Ok((PropertyValue::Null, used))
        } else {
            Err(EncodingError::InvalidLength)
        },
        ApplicationTag::Boolean => match decode_boolean(data) {
            Ok((v, n)) => Ok((PropertyValue::Boolean(v), n)),
            Err(error) => Err(error),
        },
        ApplicationTag::UnsignedInt => match decode_unsigned64(data) {
            Ok((v, n)) => Ok((PropertyValue::Unsigned(v), n)),
            Err(error) => Err(error),
        },
        ApplicationTag::SignedInt => match decode_signed64(data) {
            Ok((v, n)) => Ok((PropertyValue::Signed(v), n)),
            Err(error) => Err(error),
        },
        ApplicationTag::Real => match decode_real(data) {
            Ok((v, n)) => Ok((PropertyValue::Real(v), n)),
            Err(error) => Err(error),
        },
        ApplicationTag::Double => match decode_double(data) {
            Ok((v, n)) => Ok((PropertyValue::Double(v), n)),
            Err(error) => Err(error),
        },
        ApplicationTag::OctetString => match decode_octet_string(data) {
            Ok((v, n)) => Ok((PropertyValue::OctetString(v), n)),
            Err(error) => Err(error),
        },
        ApplicationTag::CharacterString => match decode_character_string(data) {
            Ok((v, n)) => Ok((PropertyValue::CharacterString(v), n)),
            Err(error) => Err(error),
        },
        ApplicationTag::BitString => match decode_bit_string(data) {
            Ok((v, n)) => Ok((PropertyValue::BitString(v), n)),
            Err(error) => Err(error),
        },
        ApplicationTag::Enumerated => match decode_enumerated(data) {
            Ok((v, n)) => Ok((PropertyValue::Enumerated(v), n)),
            Err(error) => Err(error),
        },
        ApplicationTag::Date => match decode_date(data) {
            Ok((v, n)) => Ok((PropertyValue::Date(v.0, v.1, v.2, v.3), n)),
            Err(error) => Err(error),
        },
        ApplicationTag::Time => match decode_time(data) {
            Ok((v, n)) => Ok((PropertyValue::Time(v.0, v.1, v.2, v.3), n)),
            Err(error) => Err(error),
        },
        ApplicationTag::ObjectIdentifier => match decode_object_identifier(data) {
            Ok((v, n)) => Ok((PropertyValue::ObjectIdentifier(v), n)),
            Err(error) => Err(error),
        },
        _ => Err(EncodingError::InvalidTag),
    }
}

/// Whether a value is a single application-tagged one that is read back as it is
/// written: no list and nothing constructed, with parts that can be written and
/// counted.
pub open spec fn is_plain(value: PropertyValueView) -> bool {
    match value {
        PropertyValueView::Null | PropertyValueView::Boolean(_) | PropertyValueView::Unsigned(_)
        | PropertyValueView::Signed(_) | PropertyValueView::Real(_) | PropertyValueView::Double(_)
        | PropertyValueView::Enumerated(_) | PropertyValueView::Time(_, _, _, _) => true,
        PropertyValueView::OctetString(v) => v.len() <= u32::MAX,
        PropertyValueView::CharacterString(v) => vstd::utf8::encode_utf8(v).len() < u32::MAX
            && primitive::character_string_fits(v),
        PropertyValueView::BitString(v) => bitstring::bit_string_content(v).len() <= u32::MAX,
        PropertyValueView::Date(y, _, _, _) => primitive::year_is_encodable(y),
        PropertyValueView::ObjectIdentifier(v) => v.is_encodable() && v.object_type.is_canonical(),
        _ => false,
    }
}

// What each reader reads, the reader of any value reads too.

proof fn lemma_reads_boolean(data: Seq<u8>, v: bool, n: int)
    requires
        primitive::boolean_at(data) == Ok::<(bool, int), EncodingErrorView>((v, n)),
    ensures
        value_at(data) == Ok::<(PropertyValueView, int), EncodingErrorView>(
            (PropertyValueView::Boolean(v), n),
        ),
{
    reveal(value_at);
}

proof fn lemma_reads_unsigned(data: Seq<u8>, v: u64, n: int)
    requires
        primitive::unsigned64_at(data) == Ok::<(u64, int), EncodingErrorView>((v, n)),
    ensures
        value_at(data) == Ok::<(PropertyValueView, int), EncodingErrorView>(
            (PropertyValueView::Unsigned(v), n),
        ),
{
    reveal(value_at);
}

proof fn lemma_reads_signed(data: Seq<u8>, v: i64, n: int)
    requires
        primitive::signed64_at(data) == Ok::<(i64, int), EncodingErrorView>((v, n)),
    ensures
        value_at(data) == Ok::<(PropertyValueView, int), EncodingErrorView>(
            (PropertyValueView::Signed(v), n),
        ),
{
    reveal(value_at);
}

proof fn lemma_reads_real(data: Seq<u8>, v: crate::number::Real, n: int)
    requires
        primitive::real_at(data) == Ok::<(crate::number::Real, int), EncodingErrorView>((v, n)),
    ensures
        value_at(data) == Ok::<(PropertyValueView, int), EncodingErrorView>(
            (PropertyValueView::Real(v), n),
        ),
{
    reveal(value_at);
}

proof fn lemma_reads_double(data: Seq<u8>, v: crate::number::Double, n: int)
    requires
        primitive::double_at(data) == Ok::<(crate::number::Double, int), EncodingErrorView>((v, n)),
    ensures
        value_at(data) == Ok::<(PropertyValueView, int), EncodingErrorView>(
            (PropertyValueView::Double(v), n),
        ),
{
    reveal(value_at);
}

proof fn lemma_reads_octets(data: Seq<u8>, v: Seq<u8>, n: int)
    requires
        primitive::octet_string_at(data) == Ok::<(Seq<u8>, int), EncodingErrorView>((v, n)),
    ensures
        value_at(data) == Ok::<(PropertyValueView, int), EncodingErrorView>(
            (PropertyValueView::OctetString(v), n),
        ),
{
    reveal(value_at);
}

proof fn lemma_reads_text(data: Seq<u8>, v: Seq<char>, n: int)
    requires
        primitive::character_string_at(data) == Ok::<(Seq<char>, int), EncodingErrorView>((v, n)),
    ensures
        value_at(data) == Ok::<(PropertyValueView, int), EncodingErrorView>(
            (PropertyValueView::CharacterString(v), n),
        ),
{
    reveal(value_at);
}

proof fn lemma_reads_bits(data: Seq<u8>, v: Seq<bool>, n: int)
    requires
        bitstring::bit_string_at(data) == Ok::<(Seq<bool>, int), EncodingErrorView>((v, n)),
    ensures
        value_at(data) == Ok::<(PropertyValueView, int), EncodingErrorView>(
            (PropertyValueView::BitString(v), n),
        ),
{
    reveal(value_at);
}

proof fn lemma_reads_enumerated(data: Seq<u8>, v: u32, n: int)
    requires
        primitive::enumerated_at(data) == Ok::<(u32, int), EncodingErrorView>((v, n)),
    ensures
        value_at(data) == Ok::<(PropertyValueView, int), EncodingErrorView>(
            (PropertyValueView::Enumerated(v), n),
        ),
{
    reveal(value_at);
}

proof fn lemma_reads_date(data: Seq<u8>, v: (u16, u8, u8, u8), n: int)
    requires
        primitive::date_at(data) == Ok::<((u16, u8, u8, u8), int), EncodingErrorView>((v, n)),
    ensures
        value_at(data) == Ok::<(PropertyValueView, int), EncodingErrorView>(
            (PropertyValueView::Date(v.0, v.1, v.2, v.3), n),
        ),
{
    reveal(value_at);
}

proof fn lemma_reads_time(data: Seq<u8>, v: (u8, u8, u8, u8), n: int)
    requires
        primitive::time_at(data) == Ok::<((u8, u8, u8, u8), int), EncodingErrorView>((v, n)),
    ensures
        value_at(data) == Ok::<(PropertyValueView, int), EncodingErrorView>(
            (PropertyValueView::Time(v.0, v.1, v.2, v.3), n),
        ),
{
    reveal(value_at);
}

proof fn lemma_reads_identifier(data: Seq<u8>, v: ObjectIdentifier, n: int)
    requires
        primitive::object_identifier_at(data) == Ok::<(ObjectIdentifier, int), EncodingErrorView>((v, n)),
    ensures
        value_at(data) == Ok::<(PropertyValueView, int), EncodingErrorView>(
            (PropertyValueView::ObjectIdentifier(v), n),
        ),
{
    reveal(value_at);
}

/// A plain value is read back as it was written, whatever follows it.
pub proof fn law_plain_value_round_trip(value: PropertyValueView, rest: Seq<u8>)
    requires
        is_plain(value),
    ensures
        value_encoding(value) is Ok,
        value_at(value_encoding(value)->Ok_0 + rest) == Ok::<
            (PropertyValueView, int),
            EncodingErrorView,
        >((value, value_encoding(value)->Ok_0.len() as int)),
{
    let octets = value_encoding(value)->Ok_0;
    let data = octets + rest;
    let n = octets.len() as int;
    match value {
        PropertyValueView::Null => {
            reveal(value_at);
            tag::law_application_header_round_trip(ApplicationTag::Null, 0, rest);
        },
        PropertyValueView::Boolean(v) => {
            primitive::law_boolean_round_trip(v, rest);
            lemma_reads_boolean(data, v, n);
        },
        PropertyValueView::Unsigned(v) => {
            primitive::law_unsigned64_round_trip(v, rest);
            lemma_reads_unsigned(data, v, n);
        },
        PropertyValueView::Signed(v) => {
            primitive::law_signed64_round_trip(v, rest);
            lemma_reads_signed(data, v, n);
        },
        PropertyValueView::Real(v) => {
            primitive::law_real_round_trip(v, rest);
            lemma_reads_real(data, v, n);
        },
        PropertyValueView::Double(v) => {
            primitive::law_double_round_trip(v, rest);
            lemma_reads_double(data, v, n);
        },
        PropertyValueView::OctetString(v) => {
            primitive::law_octet_string_round_trip(v, rest);
            lemma_reads_octets(data, v, n);
        },
        PropertyValueView::CharacterString(v) => {
            primitive::law_character_string_round_trip(v, rest);
            lemma_reads_text(data, v, n);
        },
        PropertyValueView::BitString(v) => {
            bitstring::law_bit_string_round_trip(v, rest);
            lemma_reads_bits(data, v, n);
        },
        PropertyValueView::Enumerated(v) => {
            primitive::law_unsigned_round_trip(v, rest);
            lemma_reads_enumerated(data, v, n);
        },
        PropertyValueView::Date(y, m, d, w) => {
            primitive::law_date_round_trip((y, m, d, w), rest, 0);
            lemma_reads_date(data, (y, m, d, w), n);
        },
        PropertyValueView::Time(h, m, s, f) => {
            primitive::law_time_round_trip((h, m, s, f), rest);
            lemma_reads_time(data, (h, m, s, f), n);
        },
        PropertyValueView::ObjectIdentifier(v) => {
            primitive::law_object_identifier_round_trip(v, rest);
            lemma_reads_identifier(data, v, n);
        },
        _ => {},
    }
}

} // verus!
