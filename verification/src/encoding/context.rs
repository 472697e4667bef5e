//! Primitive values under context tags.

use crate::encoding::error;
use crate::encoding::error::{EncodingError, EncodingErrorView};
use crate::encoding::primitive;
use crate::encoding::tag;
use crate::encoding::tag::{decode_context_tag, encode_context_tag};
use crate::number::Real;
use crate::object::identifier::ObjectIdentifier;
use crate::octets;
use vstd::prelude::*;

verus! {

/// A value under a context tag.
pub open spec fn context_tagged(tag_number: u8, content: Seq<u8>) -> Seq<u8> {
    tag::context_header(tag_number, content.len()) + content
}

/// The encoding of an unsigned number under a context tag.
pub open spec fn context_unsigned_octets(tag_number: u8, value: u32) -> Seq<u8> {
    context_tagged(
        tag_number,
        octets::be_bytes(value as nat, primitive::unsigned_width(value as nat)),
    )
}

/// The encoding of a Boolean under a context tag: unlike the application form, it
/// has an octet of its own.
pub open spec fn context_boolean_octets(tag_number: u8, value: bool) -> Seq<u8> {
    context_tagged(tag_number, seq![if value { 1u8 } else { 0u8 }])
}

/// The encoding of a real under a context tag.
pub open spec fn context_real_octets(tag_number: u8, value: Real) -> Seq<u8> {
    context_tagged(tag_number, octets::be_bytes(value.bits as nat, 4))
}

/// The encoding of an encodable object identifier under a context tag.
pub open spec fn context_object_id_octets(tag_number: u8, value: ObjectIdentifier) -> Seq<u8> {
    context_tagged(tag_number, octets::be_bytes(value.packed() as nat, 4))
}

/// The unsigned number of at most four octets at the front of `data`, under the
/// expected context tag. No octets stand for zero.
pub open spec fn context_unsigned_at(data: Seq<u8>, expected: u8) -> Result<
    (u32, int),
    EncodingErrorView,
> {
    match tag::context_tag_at(data) {
        Err(error) => Err(error),
        Ok((number, length, used)) => if number != expected {
            Err(EncodingErrorView::InvalidTag)
        } else if data.len() < used + length {
            Err(EncodingErrorView::BufferUnderflow)
        } else if length > 4 {
            Err(EncodingErrorView::InvalidLength)
        } else {
            Ok((octets::be_value(data.subrange(used, used + length)) as u32, used + length))
        },
    }
}

/// The Boolean at the front of `data`, under the expected context tag.
pub open spec fn context_boolean_at(data: Seq<u8>, expected: u8) -> Result<
    (bool, int),
    EncodingErrorView,
> {
    match tag::context_tag_at(data) {
        Err(error) => Err(error),
        Ok((number, length, used)) => if number != expected || length != 1 {
            Err(EncodingErrorView::InvalidTag)
        } else if data.len() < used + 1 {
            Err(EncodingErrorView::BufferUnderflow)
        } else if data[used] > 1 {
            Err(EncodingErrorView::InvalidFormat("context Boolean is not zero or one"@))
        } else {
            Ok((data[used] == 1, used + 1))
        },
    }
}

/// The real at the front of `data`, under the expected context tag.
pub open spec fn context_real_at(data: Seq<u8>, expected: u8) -> Result<
    (Real, int),
    EncodingErrorView,
> {
    match tag::context_tag_at(data) {
        Err(error) => Err(error),
        Ok((number, length, used)) => if number != expected {
            Err(EncodingErrorView::InvalidTag)
        } else if length != 4 {
            Err(EncodingErrorView::InvalidLength)
        } else if data.len() < used + 4 {
            Err(EncodingErrorView::BufferUnderflow)
        } else {
            Ok(
                (
                    Real { bits: octets::be_value(data.subrange(used, used + 4)) as u32 },
                    used + 4,
                ),
            )
        },
    }
}

/// The object identifier at the front of `data`, under the expected context tag.
pub open spec fn context_object_id_at(data: Seq<u8>, expected: u8) -> Result<
    (ObjectIdentifier, int),
    EncodingErrorView,
> {
    match tag::context_tag_at(data) {
        Err(error) => Err(error),
        Ok((number, length, used)) => if number != expected {
            Err(EncodingErrorView::InvalidTag)
        } else if length != 4 {
            Err(EncodingErrorView::InvalidLength)
        } else if data.len() < used + 4 {
            Err(EncodingErrorView::BufferUnderflow)
        } else {
            Ok(
                (
                    ObjectIdentifier::unpacked(
                        octets::be_value(data.subrange(used, used + 4)) as u32,
                    ),
                    used + 4,
                ),
            )
        },
    }
}

/// Append `value` under a context tag, in `width` octets.
pub(crate) fn push_context_unsigned(buffer: &mut Vec<u8>, tag_number: u8, value: u64, width: usize)
    ensures
        final(buffer)@ == old(buffer)@ + context_tagged(
            tag_number,
            octets::be_bytes(value as nat, width as nat),
        ),
{
    let ghost before = buffer@;
    let _ = encode_context_tag(buffer, tag_number, width);
    octets::push_be(buffer, value, width);
    proof {
        octets::lemma_be_bytes_len(value as nat, width as nat);
    }
    assert(buffer@ =~= before + context_tagged(
        tag_number,
        octets::be_bytes(value as nat, width as nat),
    ));
}

/// Encode a context-specific unsigned integer.
pub fn encode_context_unsigned(value: u32, tag_number: u8) -> (result: Result<
    Vec<u8>,
    EncodingError,
>)
    ensures
        result is Ok,
        result->Ok_0@ == context_unsigned_octets(tag_number, value),
{
    let mut buffer: Vec<u8> = Vec::new();
    push_context_unsigned(
        &mut buffer,
        tag_number,
        value as u64,
        primitive::width_of_unsigned(value),
    );
    assert(buffer@ =~= context_unsigned_octets(tag_number, value));
    Ok(buffer)
}

/// Decode a context-specific unsigned integer.
pub fn decode_context_unsigned(data: &[u8], expected_tag: u8) -> (result: Result<
    (u32, usize),
    EncodingError,
>)
    ensures
        error::same_outcome(result, context_unsigned_at(data@, expected_tag)),
        result is Ok ==> 0 < result->Ok_0.1 <= data@.len(),
{
    match decode_context_tag(data) {
        Err(error) => Err(error),
        Ok((tag_number, length, tag_consumed)) => {
            if tag_number != expected_tag {
                return Err(EncodingError::InvalidTag);
            }
            if data.len() - tag_consumed < length {
                return Err(EncodingError::BufferUnderflow);
            }
            if length > 4 {
                return Err(EncodingError::InvalidLength);
            }
            let value: u64 = octets::read_be(data, tag_consumed, length);
            proof {
                octets::lemma_pow256_values();
                octets::lemma_pow256_monotonic(length as nat, 4);
            }
            Ok((value as u32, tag_consumed + length))
        },
    }
}

/// Encode a context-specific Boolean.
///
/// Unlike the application form, which carries the value in its length nibble, a
/// context-tagged Boolean carries it in a one-octet payload.
pub fn encode_context_boolean(buffer: &mut Vec<u8>, tag_number: u8, value: bool) -> (result: Result<
    (),
    EncodingError,
>)
    ensures
        result is Ok,
        final(buffer)@ == old(buffer)@ + context_boolean_octets(tag_number, value),
{
    let ghost before = buffer@;
    let _ = encode_context_tag(buffer, tag_number, 1);
    buffer.push(
        if value {
            1
        } else {
            0
        },
    );
    assert(buffer@ =~= before + context_boolean_octets(tag_number, value));
    Ok(())
}

/// Decode a context-specific Boolean.
pub fn decode_context_boolean(data: &[u8], expected_tag: u8) -> (result: Result<
    (bool, usize),
    EncodingError,
>)
    ensures
        error::same_outcome(result, context_boolean_at(data@, expected_tag)),
        result is Ok ==> 0 < result->Ok_0.1 <= data@.len(),
{
    match decode_context_tag(data) {
        Err(error) => Err(error),
        Ok((tag_number, length, consumed)) => {
            if tag_number != expected_tag || length != 1 {
                return Err(EncodingError::InvalidTag);
            }
            if data.len() < consumed + 1 {
                return Err(EncodingError::BufferUnderflow);
            }
            match data[consumed] {
                0 => Ok((false, consumed + 1)),
                1 => Ok((true, consumed + 1)),
                _ => Err(EncodingError::invalid_format("context Boolean is not zero or one")),
            }
        },
    }
}

/// Encode a context-specific real.
pub fn encode_context_real(buffer: &mut Vec<u8>, tag_number: u8, value: Real) -> (result: Result<
    (),
    EncodingError,
>)
    ensures
        result is Ok,
        final(buffer)@ == old(buffer)@ + context_real_octets(tag_number, value),
{
    push_context_unsigned(buffer, tag_number, value.bits as u64, 4);
    Ok(())
}

/// Decode a context-specific real.
pub fn decode_context_real(data: &[u8], expected_tag: u8) -> (result: Result<
    (Real, usize),
    EncodingError,
>)
    ensures
        error::same_outcome(result, context_real_at(data@, expected_tag)),
        result is Ok ==> 0 < result->Ok_0.1 <= data@.len(),
{
    match decode_context_tag(data) {
        Err(error) => Err(error),
        Ok((tag_number, length, consumed)) => {
            if tag_number != expected_tag {
                return Err(EncodingError::InvalidTag);
            }
            if length != 4 {
                return Err(EncodingError::InvalidLength);
            }
            if data.len() < consumed + 4 {
                return Err(EncodingError::BufferUnderflow);
            }
            let bits: u64 = octets::read_be(data, consumed, 4);
            proof {
                octets::lemma_pow256_values();
            }
            Ok((Real { bits: bits as u32 }, consumed + 4))
        },
    }
}

/// Encode a context-specific enumerated value, which is written as an unsigned
/// integer is.
pub fn encode_context_enumerated(value: u32, tag_number: u8) -> (result: Result<
    Vec<u8>,
    EncodingError,
>)
    ensures
        result is Ok,
        result->Ok_0@ == context_unsigned_octets(tag_number, value),
{
    encode_context_unsigned(value, tag_number)
}

/// Decode a context-specific enumerated value, which is read as an unsigned
/// integer is.
pub fn decode_context_enumerated(data: &[u8], expected_tag: u8) -> (result: Result<
    (u32, usize),
    EncodingError,
>)
    ensures
        error::same_outcome(result, context_unsigned_at(data@, expected_tag)),
        result is Ok ==> 0 < result->Ok_0.1 <= data@.len(),
{
    decode_context_unsigned(data, expected_tag)
}

/// Encode a context-specific object identifier.
pub fn encode_context_object_id(object_id: ObjectIdentifier, tag_number: u8) -> (result: Result<
    Vec<u8>,
    EncodingError,
>)
    ensures
        match result {
            Ok(buffer) => object_id.is_encodable() && buffer@ == context_object_id_octets(
                tag_number,
                object_id,
            ),
            Err(error) => !object_id.is_encodable() && error@
                == EncodingErrorView::ValueOutOfRange,
        },
{
    match object_id.pack() {
        Some(packed) => {
            let mut buffer: Vec<u8> = Vec::new();
            push_context_unsigned(&mut buffer, tag_number, packed as u64, 4);
            assert(buffer@ =~= context_object_id_octets(tag_number, object_id));
            Ok(buffer)
        },
        None => Err(EncodingError::ValueOutOfRange),
    }
}

/// Decode a context-specific object identifier.
pub fn decode_context_object_id(data: &[u8], expected_tag: u8) -> (result: Result<
    (ObjectIdentifier, usize),
    EncodingError,
>)
    ensures
        error::same_outcome(result, context_object_id_at(data@, expected_tag)),
        result is Ok ==> 0 < result->Ok_0.1 <= data@.len(),
{
    match decode_context_tag(data) {
        Err(error) => Err(error),
        Ok((tag_number, length, tag_consumed)) => {
            if tag_number != expected_tag {
                return Err(EncodingError::InvalidTag);
            }
            if length != 4 {
                return Err(EncodingError::InvalidLength);
            }
            if data.len() < tag_consumed + 4 {
                return Err(EncodingError::BufferUnderflow);
            }
            let number: u64 = octets::read_be(data, tag_consumed, 4);
            proof {
                octets::lemma_pow256_values();
            }
            Ok((ObjectIdentifier::unpack(number as u32), tag_consumed + 4))
        },
    }
}

// ---------------------------------------------------------------------------
// Laws
// ---------------------------------------------------------------------------

/// Context-tagged content is found again where it was written, whatever follows.
pub proof fn lemma_context_tagged(tag_number: u8, content: Seq<u8>, rest: Seq<u8>)
    requires
        content.len() <= u32::MAX,
    ensures
        ({
            let data = context_tagged(tag_number, content) + rest;
            let used = tag::context_header(tag_number, content.len()).len() as int;
            &&& tag::context_tag_at(data) == Ok::<(u8, nat, int), EncodingErrorView>(
                (tag_number, content.len(), used),
            )
            &&& used + content.len() == context_tagged(tag_number, content).len()
            &&& data.len() >= used + content.len()
            &&& data.subrange(used, used + content.len()) == content
            &&& forall|i: int| 0 <= i < content.len() ==> #[trigger] data[used + i] == content[i]
        }),
{
    let header = tag::context_header(tag_number, content.len());
    let data = context_tagged(tag_number, content) + rest;
    tag::law_context_header_round_trip(tag_number, content.len(), content + rest);
    assert(data =~= header + (content + rest));
    assert(data.subrange(header.len() as int, (header.len() + content.len()) as int) =~= content);
}

/// An unsigned number under a context tag is read back as it was written.
pub proof fn law_context_unsigned_round_trip(tag_number: u8, value: u32, rest: Seq<u8>)
    ensures
        context_unsigned_at(context_unsigned_octets(tag_number, value) + rest, tag_number) == Ok::<
            (u32, int),
            EncodingErrorView,
        >((value, context_unsigned_octets(tag_number, value).len() as int)),
{
    octets::lemma_pow256_values();
    let width = primitive::unsigned_width(value as nat);
    octets::lemma_be_round_trip(value as nat, width);
    lemma_context_tagged(tag_number, octets::be_bytes(value as nat, width), rest);
}

/// A Boolean under a context tag is read back as it was written.
pub proof fn law_context_boolean_round_trip(tag_number: u8, value: bool, rest: Seq<u8>)
    ensures
        context_boolean_at(context_boolean_octets(tag_number, value) + rest, tag_number) == Ok::<
            (bool, int),
            EncodingErrorView,
        >((value, context_boolean_octets(tag_number, value).len() as int)),
{
    let content = seq![if value { 1u8 } else { 0u8 }];
    lemma_context_tagged(tag_number, content, rest);
    let data = context_boolean_octets(tag_number, value) + rest;
    let used = tag::context_header(tag_number, 1).len() as int;
    assert(data[used + 0] == content[0]);
}

/// A real under a context tag is read back bit for bit.
pub proof fn law_context_real_round_trip(tag_number: u8, value: Real, rest: Seq<u8>)
    ensures
        context_real_at(context_real_octets(tag_number, value) + rest, tag_number) == Ok::<
            (Real, int),
            EncodingErrorView,
        >((value, context_real_octets(tag_number, value).len() as int)),
{
    octets::lemma_pow256_values();
    octets::lemma_be_round_trip(value.bits as nat, 4);
    lemma_context_tagged(tag_number, octets::be_bytes(value.bits as nat, 4), rest);
}

/// An encodable object identifier with a canonical type is read back from under
/// its context tag as it was written.
pub proof fn law_context_object_id_round_trip(
    tag_number: u8,
    value: ObjectIdentifier,
    rest: Seq<u8>,
)
    requires
        value.is_encodable(),
        value.object_type.is_canonical(),
    ensures
        context_object_id_at(context_object_id_octets(tag_number, value) + rest, tag_number)
            == Ok::<(ObjectIdentifier, int), EncodingErrorView>(
            (value, context_object_id_octets(tag_number, value).len() as int),
        ),
{
    octets::lemma_pow256_values();
    crate::object::identifier::law_identifier_packing(value, 0);
    octets::lemma_be_round_trip(value.packed() as nat, 4);
    lemma_context_tagged(tag_number, octets::be_bytes(value.packed() as nat, 4), rest);
}

} // verus!
