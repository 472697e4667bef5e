//! Primitive values under application tags.

use crate::encoding::error;
use crate::encoding::error::{EncodingError, EncodingErrorView};
use crate::encoding::tag;
use crate::encoding::tag::{decode_application_tag, encode_application_tag, ApplicationTag};
use crate::number::{Double, Real};
use crate::object::identifier::ObjectIdentifier;
use crate::octets;
use vstd::prelude::*;
use vstd::slice::{slice_subrange, slice_to_vec};

verus! {

// ---------------------------------------------------------------------------
// What the encodings are
// ---------------------------------------------------------------------------

/// How many octets an unsigned number of at most thirty-two bits takes.
pub open spec fn unsigned_width(value: nat) -> nat {
    if value <= 0xFF {
        1
    } else if value <= 0xFFFF {
        2
    } else if value <= 0xFF_FFFF {
        3
    } else {
        4
    }
}

/// How many octets an unsigned number of at most sixty-four bits takes. Numbers
/// of seventeen to twenty-four bits are written in seven octets.
pub open spec fn unsigned64_width(value: nat) -> nat {
    if value <= 0xFF {
        1
    } else if value <= 0xFFFF {
        2
    } else if value <= 0xFF_FFFF {
        7
    } else if value <= 0xFFFF_FFFF {
        4
    } else {
        8
    }
}

/// How many octets a signed number of at most thirty-two bits takes.
pub open spec fn signed_width(value: int) -> nat {
    if -128 <= value <= 127 {
        1
    } else if -32768 <= value <= 32767 {
        2
    } else if -8388608 <= value <= 8388607 {
        3
    } else {
        4
    }
}

/// How many octets a signed number of at most sixty-four bits takes. Numbers of
/// seventeen to twenty-four bits are written in seven octets.
pub open spec fn signed64_width(value: int) -> nat {
    if -128 <= value <= 127 {
        1
    } else if -32768 <= value <= 32767 {
        2
    } else if -8388608 <= value <= 8388607 {
        7
    } else if i32::MIN <= value <= i32::MAX {
        4
    } else {
        8
    }
}

/// A value under an application tag.
pub open spec fn tagged(kind: ApplicationTag, content: Seq<u8>) -> Seq<u8> {
    tag::application_header(kind, content.len()) + content
}

/// The encoding of a Boolean, which stands in the length nibble.
pub open spec fn boolean_octets(value: bool) -> Seq<u8> {
    tag::application_header(ApplicationTag::Boolean, if value { 1 } else { 0 })
}

/// The encoding of an unsigned number of at most thirty-two bits.
pub open spec fn unsigned_octets(value: u32) -> Seq<u8> {
    tagged(
        ApplicationTag::UnsignedInt,
        octets::be_bytes(value as nat, unsigned_width(value as nat)),
    )
}

/// The encoding of an unsigned number of at most sixty-four bits.
pub open spec fn unsigned64_octets(value: u64) -> Seq<u8> {
    tagged(
        ApplicationTag::UnsignedInt,
        octets::be_bytes(value as nat, unsigned64_width(value as nat)),
    )
}

/// The encoding of a signed number of at most thirty-two bits.
pub open spec fn signed_octets(value: i32) -> Seq<u8> {
    tagged(
        ApplicationTag::SignedInt,
        octets::signed_bytes(value as int, signed_width(value as int)),
    )
}

/// The encoding of a signed number of at most sixty-four bits.
pub open spec fn signed64_octets(value: i64) -> Seq<u8> {
    tagged(
        ApplicationTag::SignedInt,
        octets::signed_bytes(value as int, signed64_width(value as int)),
    )
}

/// The encoding of a single precision number.
pub open spec fn real_octets(value: Real) -> Seq<u8> {
    tagged(ApplicationTag::Real, octets::be_bytes(value.bits as nat, 4))
}

/// The encoding of a double precision number.
pub open spec fn double_octets(value: Double) -> Seq<u8> {
    tagged(ApplicationTag::Double, octets::be_bytes(value.bits as nat, 8))
}

/// The encoding of an octet string.
pub open spec fn octet_string_octets(value: Seq<u8>) -> Seq<u8> {
    tagged(ApplicationTag::OctetString, value)
}

/// The encoding of a character string: a character set octet of zero, then the
/// text as UTF-8.
pub open spec fn character_string_octets(value: Seq<char>) -> Seq<u8> {
    tagged(ApplicationTag::CharacterString, seq![0u8] + vstd::utf8::encode_utf8(value))
}

/// Whether the octets of a text and its character set can be counted.
pub open spec fn character_string_fits(value: Seq<char>) -> bool {
    vstd::utf8::encode_utf8(value).len() < usize::MAX
}

/// The encoding of an enumerated value.
pub open spec fn enumerated_octets(value: u32) -> Seq<u8> {
    tagged(
        ApplicationTag::Enumerated,
        octets::be_bytes(value as nat, unsigned_width(value as nat)),
    )
}

/// Whether a year can be written: 1900 to 2154, or 255 for any year.
pub open spec fn year_is_encodable(year: u16) -> bool {
    year == 255 || 1900 <= year <= 2154
}

/// The octet that stands for an encodable year.
pub open spec fn year_octet(year: u16) -> u8 {
    if year == 255 {
        255
    } else {
        (year - 1900) as u8
    }
}

/// The year that an octet stands for.
pub open spec fn year_of(octet: u8) -> u16 {
    if octet == 255 {
        255
    } else {
        (1900 + octet) as u16
    }
}

/// The encoding of a date with an encodable year.
pub open spec fn date_octets(date: (u16, u8, u8, u8)) -> Seq<u8> {
    tagged(ApplicationTag::Date, seq![year_octet(date.0), date.1, date.2, date.3])
}

/// The encoding of a time.
pub open spec fn time_octets(time: (u8, u8, u8, u8)) -> Seq<u8> {
    tagged(ApplicationTag::Time, seq![time.0, time.1, time.2, time.3])
}

/// The encoding of an encodable object identifier.
pub open spec fn object_identifier_octets(value: ObjectIdentifier) -> Seq<u8> {
    tagged(ApplicationTag::ObjectIdentifier, octets::be_bytes(value.packed() as nat, 4))
}

// ---------------------------------------------------------------------------
// What the decodings are
// ---------------------------------------------------------------------------

/// The Boolean at the front of `data`.
pub open spec fn boolean_at(data: Seq<u8>) -> Result<(bool, int), EncodingErrorView> {
    match tag::application_tag_at(data) {
        Err(error) => Err(error),
        Ok((kind, length, used)) => if kind != ApplicationTag::Boolean {
            Err(EncodingErrorView::InvalidTag)
        } else if length > 1 {
            Err(EncodingErrorView::InvalidLength)
        } else {
            Ok((length == 1, used))
        },
    }
}

/// The unsigned number of one to four octets at the front of `data`, under `kind`.
pub open spec fn small_unsigned_at(data: Seq<u8>, kind: ApplicationTag) -> Result<
    (u32, int),
    EncodingErrorView,
> {
    match tag::application_tag_at(data) {
        Err(error) => Err(error),
        Ok((actual, length, used)) => if actual != kind {
            Err(EncodingErrorView::InvalidTag)
        } else if data.len() < used + length {
            Err(EncodingErrorView::BufferUnderflow)
        } else if length == 0 || length > 4 {
            Err(EncodingErrorView::InvalidLength)
        } else {
            Ok((octets::be_value(data.subrange(used, used + length)) as u32, used + length))
        },
    }
}

/// The unsigned number of at most four octets at the front of `data`.
pub open spec fn unsigned_at(data: Seq<u8>) -> Result<(u32, int), EncodingErrorView> {
    small_unsigned_at(data, ApplicationTag::UnsignedInt)
}

/// The enumerated value at the front of `data`.
pub open spec fn enumerated_at(data: Seq<u8>) -> Result<(u32, int), EncodingErrorView> {
    small_unsigned_at(data, ApplicationTag::Enumerated)
}

/// The unsigned number of at most eight octets at the front of `data`.
pub open spec fn unsigned64_at(data: Seq<u8>) -> Result<(u64, int), EncodingErrorView> {
    match tag::application_tag_at(data) {
        Err(error) => Err(error),
        Ok((actual, length, used)) => if actual != ApplicationTag::UnsignedInt {
            Err(EncodingErrorView::InvalidTag)
        } else if length > 8 {
            Err(EncodingErrorView::InvalidLength)
        } else if data.len() < used + length {
            Err(EncodingErrorView::BufferUnderflow)
        } else {
            Ok((octets::be_value(data.subrange(used, used + length)) as u64, used + length))
        },
    }
}

/// The signed number of one to four octets at the front of `data`.
pub open spec fn signed_at(data: Seq<u8>) -> Result<(i32, int), EncodingErrorView> {
    match tag::application_tag_at(data) {
        Err(error) => Err(error),
        Ok((actual, length, used)) => if actual != ApplicationTag::SignedInt {
            Err(EncodingErrorView::InvalidTag)
        } else if data.len() < used + length {
            Err(EncodingErrorView::BufferUnderflow)
        } else if length == 0 || length > 4 {
            Err(EncodingErrorView::InvalidLength)
        } else {
            Ok((octets::signed_value(data.subrange(used, used + length)) as i32, used + length))
        },
    }
}

/// The signed number of one to eight octets at the front of `data`.
pub open spec fn signed64_at(data: Seq<u8>) -> Result<(i64, int), EncodingErrorView> {
    match tag::application_tag_at(data) {
        Err(error) => Err(error),
        Ok((actual, length, used)) => if actual != ApplicationTag::SignedInt {
            Err(EncodingErrorView::InvalidTag)
        } else if length == 0 || length > 8 {
            Err(EncodingErrorView::InvalidLength)
        } else if data.len() < used + length {
            Err(EncodingErrorView::BufferUnderflow)
        } else {
            Ok((octets::signed_value(data.subrange(used, used + length)) as i64, used + length))
        },
    }
}

/// The single precision number at the front of `data`.
pub open spec fn real_at(data: Seq<u8>) -> Result<(Real, int), EncodingErrorView> {
    match tag::application_tag_at(data) {
        Err(error) => Err(error),
        Ok((actual, length, used)) => if actual != ApplicationTag::Real {
            Err(EncodingErrorView::InvalidTag)
        } else if length != 4 {
            Err(EncodingErrorView::InvalidLength)
        } else if data.len() < used + 4 {
            Err(EncodingErrorView::BufferUnderflow)
        } else {
            Ok(
                (
                    Real { bits: octets::be_value(data.subrange(used, used + 4)) as u32 },
                    used + 4,
                ),
            )
        },
    }
}

/// The content of exactly `width` octets at the front of `data`, under `kind`:
/// where it starts.
pub open spec fn fixed_at(data: Seq<u8>, kind: ApplicationTag, width: int) -> Result<
    int,
    EncodingErrorView,
> {
    match tag::application_tag_at(data) {
        Err(error) => Err(error),
        Ok((actual, length, used)) => if actual != kind {
            Err(EncodingErrorView::InvalidTag)
        } else if length != width || data.len() < used + width {
            Err(EncodingErrorView::InvalidLength)
        } else {
            Ok(used)
        },
    }
}

/// The double precision number at the front of `data`.
pub open spec fn double_at(data: Seq<u8>) -> Result<(Double, int), EncodingErrorView> {
    match fixed_at(data, ApplicationTag::Double, 8) {
        Err(error) => Err(error),
        Ok(used) => Ok(
            (Double { bits: octets::be_value(data.subrange(used, used + 8)) as u64 }, used + 8),
        ),
    }
}

/// The date at the front of `data`.
pub open spec fn date_at(data: Seq<u8>) -> Result<((u16, u8, u8, u8), int), EncodingErrorView> {
    match fixed_at(data, ApplicationTag::Date, 4) {
        Err(error) => Err(error),
        Ok(used) => Ok(
            ((year_of(data[used]), data[used + 1], data[used + 2], data[used + 3]), used + 4),
        ),
    }
}

/// The time at the front of `data`.
pub open spec fn time_at(data: Seq<u8>) -> Result<((u8, u8, u8, u8), int), EncodingErrorView> {
    match fixed_at(data, ApplicationTag::Time, 4) {
        Err(error) => Err(error),
        Ok(used) => Ok(((data[used], data[used + 1], data[used + 2], data[used + 3]), used + 4)),
    }
}

/// The object identifier at the front of `data`.
pub open spec fn object_identifier_at(data: Seq<u8>) -> Result<
    (ObjectIdentifier, int),
    EncodingErrorView,
> {
    match fixed_at(data, ApplicationTag::ObjectIdentifier, 4) {
        Err(error) => Err(error),
        Ok(used) => Ok(
            (
                ObjectIdentifier::unpacked(
                    octets::be_value(data.subrange(used, used + 4)) as u32,
                ),
                used + 4,
            ),
        ),
    }
}

/// The octet string at the front of `data`.
pub open spec fn octet_string_at(data: Seq<u8>) -> Result<(Seq<u8>, int), EncodingErrorView> {
    match tag::application_tag_at(data) {
        Err(error) => Err(error),
        Ok((actual, length, used)) => if actual != ApplicationTag::OctetString {
            Err(EncodingErrorView::InvalidTag)
        } else if data.len() < used + length {
            Err(EncodingErrorView::BufferUnderflow)
        } else {
            Ok((data.subrange(used, used + length), used + length))
        },
    }
}

/// The character string at the front of `data`. Its first octet names the
/// character set and is passed over.
pub open spec fn character_string_at(data: Seq<u8>) -> Result<
    (Seq<char>, int),
    EncodingErrorView,
> {
    match tag::application_tag_at(data) {
        Err(error) => Err(error),
        Ok((actual, length, used)) => if actual != ApplicationTag::CharacterString {
            Err(EncodingErrorView::InvalidTag)
        } else if data.len() < used + length || length == 0 {
            Err(EncodingErrorView::BufferUnderflow)
        } else if !vstd::utf8::valid_utf8(data.subrange(used + 1, used + length)) {
            Err(EncodingErrorView::InvalidFormat("Invalid UTF-8 string"@))
        } else {
            Ok(
                (
                    vstd::utf8::decode_utf8(data.subrange(used + 1, used + length)),
                    used + length,
                ),
            )
        },
    }
}

// ---------------------------------------------------------------------------
// Boolean
// ---------------------------------------------------------------------------

/// Encode a BACnet Boolean.
pub fn encode_boolean(buffer: &mut Vec<u8>, value: bool) -> (result: Result<(), EncodingError>)
    ensures
        result is Ok,
        final(buffer)@ == old(buffer)@ + boolean_octets(value),
{
    encode_application_tag(
        buffer,
        ApplicationTag::Boolean,
        if value {
            1
        } else {
            0
        },
    );
    Ok(())
}

/// Decode a BACnet Boolean.
pub fn decode_boolean(data: &[u8]) -> (result: Result<(bool, usize), EncodingError>)
    ensures
        error::same_outcome(result, boolean_at(data@)),
        result is Ok ==> 0 < result->Ok_0.1 <= data@.len(),
{
    match decode_application_tag(data) {
        Err(error) => Err(error),
        Ok((kind, length, consumed)) => {
            if kind != ApplicationTag::Boolean {
                return Err(EncodingError::InvalidTag);
            }
            if length > 1 {
                return Err(EncodingError::InvalidLength);
            }
            Ok((length == 1, consumed))
        },
    }
}

// ---------------------------------------------------------------------------
// Integers
// ---------------------------------------------------------------------------

/// How many octets `value` takes.
pub fn width_of_unsigned(value: u32) -> (width: usize)
    ensures
        width == unsigned_width(value as nat),
        1 <= width <= 4,
{
    if value <= 0xFF {
        1
    } else if value <= 0xFFFF {
        2
    } else if value <= 0xFF_FFFF {
        3
    } else {
        4
    }
}

/// Encode `value` under `kind` in `width` octets.
fn push_unsigned(buffer: &mut Vec<u8>, kind: ApplicationTag, value: u64, width: usize)
    ensures
        final(buffer)@ == old(buffer)@ + tagged(kind, octets::be_bytes(value as nat, width as nat)),
{
    let ghost before = buffer@;
    encode_application_tag(buffer, kind, width);
    octets::push_be(buffer, value, width);
    proof {
        octets::lemma_be_bytes_len(value as nat, width as nat);
    }
    assert(buffer@ =~= before + tagged(kind, octets::be_bytes(value as nat, width as nat)));
}

/// Encode a BACnet unsigned integer.
pub fn encode_unsigned(buffer: &mut Vec<u8>, value: u32) -> (result: Result<(), EncodingError>)
    ensures
        result is Ok,
        final(buffer)@ == old(buffer)@ + unsigned_octets(value),
{
    push_unsigned(buffer, ApplicationTag::UnsignedInt, value as u64, width_of_unsigned(value));
    Ok(())
}

/// Encode a BACnet unsigned integer of up to sixty-four bits.
pub fn encode_unsigned64(buffer: &mut Vec<u8>, value: u64)
    ensures
        final(buffer)@ == old(buffer)@ + unsigned64_octets(value),
{
    let width: usize = if value <= 0xFF {
        1
    } else if value <= 0xFFFF {
        2
    } else if value <= 0xFF_FFFF {
        7
    } else if value <= 0xFFFF_FFFF {
        4
    } else {
        8
    };
    push_unsigned(buffer, ApplicationTag::UnsignedInt, value, width);
}

/// Encode a BACnet enumerated value.
pub fn encode_enumerated(buffer: &mut Vec<u8>, value: u32)
    ensures
        final(buffer)@ == old(buffer)@ + enumerated_octets(value),
{
    push_unsigned(buffer, ApplicationTag::Enumerated, value as u64, width_of_unsigned(value));
}

/// Decode an unsigned number of one to four octets under `kind`.
fn decode_small_unsigned(data: &[u8], kind: ApplicationTag) -> (result: Result<
    (u32, usize),
    EncodingError,
>)
    ensures
        error::same_outcome(result, small_unsigned_at(data@, kind)),
        result is Ok ==> 0 < result->Ok_0.1 <= data@.len(),
{
    match decode_application_tag(data) {
        Err(error) => Err(error),
        Ok((actual, length, consumed)) => {
            if actual != kind {
                return Err(EncodingError::InvalidTag);
            }
            if data.len() - consumed < length {
                return Err(EncodingError::BufferUnderflow);
            }
            if length == 0 || length > 4 {
                return Err(EncodingError::InvalidLength);
            }
            let value: u64 = octets::read_be(data, consumed, length);
            proof {
                octets::lemma_pow256_values();
                octets::lemma_pow256_monotonic(length as nat, 4);
            }
            Ok((value as u32, consumed + length))
        },
    }
}

/// Decode a BACnet unsigned integer.
pub fn decode_unsigned(data: &[u8]) -> (result: Result<(u32, usize), EncodingError>)
    ensures
        error::same_outcome(result, unsigned_at(data@)),
        result is Ok ==> 0 < result->Ok_0.1 <= data@.len(),
{
    decode_small_unsigned(data, ApplicationTag::UnsignedInt)
}

/// Decode a BACnet enumerated value.
pub fn decode_enumerated(data: &[u8]) -> (result: Result<(u32, usize), EncodingError>)
    ensures
        error::same_outcome(result, enumerated_at(data@)),
        result is Ok ==> 0 < result->Ok_0.1 <= data@.len(),
{
    decode_small_unsigned(data, ApplicationTag::Enumerated)
}

/// Decode a BACnet unsigned integer of up to sixty-four bits.
pub fn decode_unsigned64(data: &[u8]) -> (result: Result<(u64, usize), EncodingError>)
    ensures
        error::same_outcome(result, unsigned64_at(data@)),
        result is Ok ==> 0 < result->Ok_0.1 <= data@.len(),
{
    match decode_application_tag(data) {
        Err(error) => Err(error),
        Ok((actual, length, consumed)) => {
            if actual != ApplicationTag::UnsignedInt {
                return Err(EncodingError::InvalidTag);
            }
            if length > 8 {
                return Err(EncodingError::InvalidLength);
            }
            if data.len() - consumed < length {
                return Err(EncodingError::BufferUnderflow);
            }
            let value: u64 = octets::read_be(data, consumed, length);
            Ok((value, consumed + length))
        },
    }
}

/// Encode `value` under the signed integer tag in `width` octets.
fn push_signed_value(buffer: &mut Vec<u8>, value: i64, width: usize)
    requires
        0 < width <= 8,
        -128 * octets::pow256((width - 1) as nat) <= value < 128 * octets::pow256(
            (width - 1) as nat,
        ),
    ensures
        final(buffer)@ == old(buffer)@ + tagged(
            ApplicationTag::SignedInt,
            octets::signed_bytes(value as int, width as nat),
        ),
{
    let ghost before = buffer@;
    encode_application_tag(buffer, ApplicationTag::SignedInt, width);
    octets::push_signed(buffer, value, width);
    proof {
        octets::lemma_signed_round_trip(value as int, width as nat);
    }
    assert(buffer@ =~= before + tagged(
        ApplicationTag::SignedInt,
        octets::signed_bytes(value as int, width as nat),
    ));
}

/// Encode a BACnet signed integer.
pub fn encode_signed(buffer: &mut Vec<u8>, value: i32) -> (result: Result<(), EncodingError>)
    ensures
        result is Ok,
        final(buffer)@ == old(buffer)@ + signed_octets(value),
{
    let width: usize = if -128 <= value && value <= 127 {
        1
    } else if -32768 <= value && value <= 32767 {
        2
    } else if -8388608 <= value && value <= 8388607 {
        3
    } else {
        4
    };
    proof {
        octets::lemma_pow256_values();
    }
    push_signed_value(buffer, value as i64, width);
    Ok(())
}

/// Encode a BACnet signed integer of up to sixty-four bits.
pub fn encode_signed64(buffer: &mut Vec<u8>, value: i64)
    ensures
        final(buffer)@ == old(buffer)@ + signed64_octets(value),
{
    let width: usize = if -128 <= value && value <= 127 {
        1
    } else if -32768 <= value && value <= 32767 {
        2
    } else if -8388608 <= value && value <= 8388607 {
        7
    } else if i32::MIN as i64 <= value && value <= i32::MAX as i64 {
        4
    } else {
        8
    };
    proof {
        octets::lemma_pow256_values();
    }
    push_signed_value(buffer, value, width);
}

/// Decode a BACnet signed integer.
pub fn decode_signed(data: &[u8]) -> (result: Result<(i32, usize), EncodingError>)
    ensures
        error::same_outcome(result, signed_at(data@)),
        result is Ok ==> 0 < result->Ok_0.1 <= data@.len(),
{
    match decode_application_tag(data) {
        Err(error) => Err(error),
        Ok((actual, length, consumed)) => {
            if actual != ApplicationTag::SignedInt {
                return Err(EncodingError::InvalidTag);
            }
            if data.len() - consumed < length {
                return Err(EncodingError::BufferUnderflow);
            }
            if length == 0 || length > 4 {
                return Err(EncodingError::InvalidLength);
            }
            let value: i64 = octets::read_signed(data, consumed, length);
            proof {
                lemma_signed_value_fits(data@.subrange(consumed as int, consumed + length));
            }
            Ok((value as i32, consumed + length))
        },
    }
}

/// At most four octets stand for a signed number of at most thirty-two bits.
proof fn lemma_signed_value_fits(content: Seq<u8>)
    requires
        0 < content.len() <= 4,
    ensures
        i32::MIN <= octets::signed_value(content) <= i32::MAX,
{
    let rest = (content.len() - 1) as nat;
    let p = octets::pow256(rest);
    let d = content[0] as nat;
    octets::lemma_pow256_values();
    octets::lemma_be_value_first(content);
    octets::lemma_pow256_monotonic(rest, 3);
    assert(octets::pow256(content.len()) == 256 * p);
    if d >= 128 {
        assert(d * p >= 128 * p) by (nonlinear_arith)
            requires
                d >= 128,
        ;
        assert((d + 1) * p <= 256 * p) by (nonlinear_arith)
            requires
                d <= 255,
        ;
    } else {
        assert((d + 1) * p <= 128 * p) by (nonlinear_arith)
            requires
                d < 128,
        ;
    }
}

/// Decode a BACnet signed integer of up to sixty-four bits.
pub fn decode_signed64(data: &[u8]) -> (result: Result<(i64, usize), EncodingError>)
    ensures
        error::same_outcome(result, signed64_at(data@)),
        result is Ok ==> 0 < result->Ok_0.1 <= data@.len(),
{
    match decode_application_tag(data) {
        Err(error) => Err(error),
        Ok((actual, length, consumed)) => {
            if actual != ApplicationTag::SignedInt {
                return Err(EncodingError::InvalidTag);
            }
            if length == 0 || length > 8 {
                return Err(EncodingError::InvalidLength);
            }
            if data.len() - consumed < length {
                return Err(EncodingError::BufferUnderflow);
            }
            let value: i64 = octets::read_signed(data, consumed, length);
            Ok((value, consumed + length))
        },
    }
}

// ---------------------------------------------------------------------------
// Real and double
// ---------------------------------------------------------------------------

/// Encode a BACnet real.
pub fn encode_real(buffer: &mut Vec<u8>, value: Real) -> (result: Result<(), EncodingError>)
    ensures
        result is Ok,
        final(buffer)@ == old(buffer)@ + real_octets(value),
{
    push_unsigned(buffer, ApplicationTag::Real, value.bits as u64, 4);
    Ok(())
}

/// Decode a BACnet real.
pub fn decode_real(data: &[u8]) -> (result: Result<(Real, usize), EncodingError>)
    ensures
        error::same_outcome(result, real_at(data@)),
        result is Ok ==> 0 < result->Ok_0.1 <= data@.len(),
{
    match decode_application_tag(data) {
        Err(error) => Err(error),
        Ok((actual, length, consumed)) => {
            if actual != ApplicationTag::Real {
                return Err(EncodingError::InvalidTag);
            }
            if length != 4 {
                return Err(EncodingError::InvalidLength);
            }
            if data.len() < consumed + 4 {
                return Err(EncodingError::BufferUnderflow);
            }
            let bits: u64 = octets::read_be(data, consumed, 4);
            proof {
                octets::lemma_pow256_values();
            }
            Ok((Real { bits: bits as u32 }, consumed + 4))
        },
    }
}

/// Encode a BACnet double.
pub fn encode_double(buffer: &mut Vec<u8>, value: Double) -> (result: Result<(), EncodingError>)
    ensures
        result is Ok,
        final(buffer)@ == old(buffer)@ + double_octets(value),
{
    push_unsigned(buffer, ApplicationTag::Double, value.bits, 8);
    Ok(())
}

/// Find the content of exactly `width` octets under `kind`.
fn find_fixed(data: &[u8], kind: ApplicationTag, width: usize) -> (result: Result<
    usize,
    EncodingError,
>)
    requires
        width <= 8,
    ensures
        tag::same_marker(result, fixed_at(data@, kind, width as int)),
        result is Ok ==> 0 < result->Ok_0 && result->Ok_0 + width <= data.len(),
{
    match decode_application_tag(data) {
        Err(error) => Err(error),
        Ok((actual, length, consumed)) => {
            if actual != kind {
                return Err(EncodingError::InvalidTag);
            }
            if length != width || data.len() < consumed + width {
                return Err(EncodingError::InvalidLength);
            }
            Ok(consumed)
        },
    }
}

/// Decode a BACnet double.
pub fn decode_double(data: &[u8]) -> (result: Result<(Double, usize), EncodingError>)
    ensures
        error::same_outcome(result, double_at(data@)),
        result is Ok ==> 0 < result->Ok_0.1 <= data@.len(),
{
    match find_fixed(data, ApplicationTag::Double, 8) {
        Err(error) => Err(error),
        Ok(consumed) => {
            let bits: u64 = octets::read_be(data, consumed, 8);
            Ok((Double { bits }, consumed + 8))
        },
    }
}

// ---------------------------------------------------------------------------
// Strings
// ---------------------------------------------------------------------------

/// Encode a BACnet octet string.
pub fn encode_octet_string(buffer: &mut Vec<u8>, value: &[u8]) -> (result: Result<
    (),
    EncodingError,
>)
    ensures
        result is Ok,
        final(buffer)@ == old(buffer)@ + octet_string_octets(value@),
{
    let ghost before = buffer@;
    encode_application_tag(buffer, ApplicationTag::OctetString, value.len());
    octets::push_all(buffer, value);
    assert(buffer@ =~= before + octet_string_octets(value@));
    Ok(())
}

/// Decode a BACnet octet string.
pub fn decode_octet_string(data: &[u8]) -> (result: Result<(Vec<u8>, usize), EncodingError>)
    ensures
        error::same_viewed_outcome(result, octet_string_at(data@)),
        result is Ok ==> 0 < result->Ok_0.1 <= data@.len(),
{
    match decode_application_tag(data) {
        Err(error) => Err(error),
        Ok((actual, length, consumed)) => {
            if actual != ApplicationTag::OctetString {
                return Err(EncodingError::InvalidTag);
            }
            if data.len() - consumed < length {
                return Err(EncodingError::BufferUnderflow);
            }
            let value = slice_to_vec(slice_subrange(data, consumed, consumed + length));
            Ok((value, consumed + length))
        },
    }
}

/// Encode a BACnet character string. A text so long that it cannot be counted
/// together with its character set octet overflows the buffer.
pub fn encode_character_string(buffer: &mut Vec<u8>, value: &str) -> (result: Result<
    (),
    EncodingError,
>)
    ensures
        match result {
            Ok(_) => character_string_fits(value@) && final(buffer)@ == old(buffer)@
                + character_string_octets(value@),
            Err(error) => {
                &&& !character_string_fits(value@)
                &&& error@ == EncodingErrorView::BufferOverflow
                &&& final(buffer)@ == old(buffer)@
            },
        },
{
    let ghost before = buffer@;
    let text: &[u8] = value.as_bytes();
    if text.len() == usize::MAX {
        return Err(EncodingError::BufferOverflow);
    }
    encode_application_tag(buffer, ApplicationTag::CharacterString, text.len() + 1);
    buffer.push(0);
    octets::push_all(buffer, text);
    assert(buffer@ =~= before + character_string_octets(value@));
    Ok(())
}

/// The text that `octets` hold as UTF-8, by `String::from_utf8`: some text
/// exactly when they are well-formed UTF-8, and then the text they encode.
#[verifier::external_body]
fn text_from_utf8(octets: &[u8]) -> (text: Option<String>)
    ensures
        text is Some <==> vstd::utf8::valid_utf8(octets@),
        text is Some ==> text->Some_0@ == vstd::utf8::decode_utf8(octets@),
{
    String::from_utf8(octets.to_vec()).ok()
}

/// Decode a BACnet character string.
pub fn decode_character_string(data: &[u8]) -> (result: Result<(String, usize), EncodingError>)
    ensures
        error::same_viewed_outcome(result, character_string_at(data@)),
        result is Ok ==> 0 < result->Ok_0.1 <= data@.len(),
{
    match decode_application_tag(data) {
        Err(error) => Err(error),
        Ok((actual, length, consumed)) => {
            if actual != ApplicationTag::CharacterString {
                return Err(EncodingError::InvalidTag);
            }
            if data.len() - consumed < length || length == 0 {
                return Err(EncodingError::BufferUnderflow);
            }
            // The first octet names the character set.
            match text_from_utf8(slice_subrange(data, consumed + 1, consumed + length)) {
                Some(value) => Ok((value, consumed + length)),
                None => Err(EncodingError::invalid_format("Invalid UTF-8 string")),
            }
        },
    }
}

// ---------------------------------------------------------------------------
// Dates, times and identifiers
// ---------------------------------------------------------------------------

/// Encode a BACnet date. The tag is written even where the year is then refused.
pub fn encode_date(buffer: &mut Vec<u8>, year: u16, month: u8, day: u8, weekday: u8) -> (result:
    Result<(), EncodingError>)
    ensures
        match result {
            Ok(_) => year_is_encodable(year) && final(buffer)@ == old(buffer)@ + date_octets(
                (year, month, day, weekday),
            ),
            Err(error) => {
                &&& !year_is_encodable(year)
                &&& error@ == EncodingErrorView::ValueOutOfRange
                &&& final(buffer)@ == old(buffer)@ + tag::application_header(
                    ApplicationTag::Date,
                    4,
                )
            },
        },
{
    let ghost before = buffer@;
    encode_application_tag(buffer, ApplicationTag::Date, 4);
    if year == 255 {
        buffer.push(255);
    } else if 1900 <= year && year <= 2154 {
        buffer.push((year - 1900) as u8);
    } else {
        return Err(EncodingError::ValueOutOfRange);
    }
    buffer.push(month);
    buffer.push(day);
    buffer.push(weekday);
    assert(buffer@ =~= before + date_octets((year, month, day, weekday)));
    Ok(())
}

/// Decode a BACnet date.
pub fn decode_date(data: &[u8]) -> (result: Result<((u16, u8, u8, u8), usize), EncodingError>)
    ensures
        error::same_outcome(result, date_at(data@)),
        result is Ok ==> 0 < result->Ok_0.1 <= data@.len(),
{
    match find_fixed(data, ApplicationTag::Date, 4) {
        Err(error) => Err(error),
        Ok(consumed) => {
            let first: u8 = data[consumed];
            let year: u16 = if first == 255 {
                255
            } else {
                1900 + first as u16
            };
            Ok(
                (
                    (year, data[consumed + 1], data[consumed + 2], data[consumed + 3]),
                    consumed + 4,
                ),
            )
        },
    }
}

/// Encode a BACnet time.
pub fn encode_time(buffer: &mut Vec<u8>, hour: u8, minute: u8, second: u8, hundredths: u8) -> (result:
    Result<(), EncodingError>)
    ensures
        result is Ok,
        final(buffer)@ == old(buffer)@ + time_octets((hour, minute, second, hundredths)),
{
    let ghost before = buffer@;
    encode_application_tag(buffer, ApplicationTag::Time, 4);
    buffer.push(hour);
    buffer.push(minute);
    buffer.push(second);
    buffer.push(hundredths);
    assert(buffer@ =~= before + time_octets((hour, minute, second, hundredths)));
    Ok(())
}

/// Decode a BACnet time.
pub fn decode_time(data: &[u8]) -> (result: Result<((u8, u8, u8, u8), usize), EncodingError>)
    ensures
        error::same_outcome(result, time_at(data@)),
        result is Ok ==> 0 < result->Ok_0.1 <= data@.len(),
{
    match find_fixed(data, ApplicationTag::Time, 4) {
        Err(error) => Err(error),
        Ok(consumed) => Ok(
            (
                (data[consumed], data[consumed + 1], data[consumed + 2], data[consumed + 3]),
                consumed + 4,
            ),
        ),
    }
}

/// Encode a BACnet object identifier.
pub fn encode_object_identifier(buffer: &mut Vec<u8>, object_id: ObjectIdentifier) -> (result:
    Result<(), EncodingError>)
    ensures
        match result {
            Ok(_) => object_id.is_encodable() && final(buffer)@ == old(buffer)@
                + object_identifier_octets(object_id),
            Err(error) => {
                &&& !object_id.is_encodable()
                &&& error@ == EncodingErrorView::ValueOutOfRange
                &&& final(buffer)@ == old(buffer)@
            },
        },
{
    match object_id.pack() {
        Some(packed) => {
            push_unsigned(buffer, ApplicationTag::ObjectIdentifier, packed as u64, 4);
            Ok(())
        },
        None => Err(EncodingError::ValueOutOfRange),
    }
}

/// Decode a BACnet object identifier.
pub fn decode_object_identifier(data: &[u8]) -> (result: Result<
    (ObjectIdentifier, usize),
    EncodingError,
>)
    ensures
        error::same_outcome(result, object_identifier_at(data@)),
        result is Ok ==> 0 < result->Ok_0.1 <= data@.len(),
{
    match find_fixed(data, ApplicationTag::ObjectIdentifier, 4) {
        Err(error) => Err(error),
        Ok(consumed) => {
            let number: u64 = octets::read_be(data, consumed, 4);
            proof {
                octets::lemma_pow256_values();
            }
            Ok((ObjectIdentifier::unpack(number as u32), consumed + 4))
        },
    }
}

// ---------------------------------------------------------------------------
// Laws
// ---------------------------------------------------------------------------

/// Tagged content is found again where it was written, whatever follows it.
pub proof fn lemma_tagged(kind: ApplicationTag, content: Seq<u8>, rest: Seq<u8>)
    requires
        kind.number() <= 14,
        content.len() <= u32::MAX,
    ensures
        ({
            let data = tagged(kind, content) + rest;
            let used = tag::application_header(kind, content.len()).len() as int;
            &&& tag::application_tag_at(data) == Ok::<(ApplicationTag, nat, int), EncodingErrorView>(
                (kind, content.len(), used),
            )
            &&& used + content.len() == tagged(kind, content).len()
            &&& data.len() >= used + content.len()
            &&& data.subrange(used, used + content.len()) == content
            &&& content.len() > 0 ==> data.subrange(used + 1, used + content.len())
                == content.drop_first()
            &&& forall|i: int| 0 <= i < content.len() ==> #[trigger] data[used + i] == content[i]
        }),
{
    let header = tag::application_header(kind, content.len());
    let data = tagged(kind, content) + rest;
    tag::law_application_header_round_trip(kind, content.len(), content + rest);
    assert(data =~= header + (content + rest));
    assert(data.subrange(header.len() as int, (header.len() + content.len()) as int) =~= content);
    if content.len() > 0 {
        assert(data.subrange((header.len() + 1) as int, (header.len() + content.len()) as int)
            =~= content.drop_first());
    }
}

/// A Boolean is read back as it was written.
pub proof fn law_boolean_round_trip(value: bool, rest: Seq<u8>)
    ensures
        boolean_at(boolean_octets(value) + rest) == Ok::<(bool, int), EncodingErrorView>(
            (value, boolean_octets(value).len() as int),
        ),
        boolean_octets(value).len() == 1,
{
    tag::law_application_header_round_trip(
        ApplicationTag::Boolean,
        if value {
            1
        } else {
            0
        },
        rest,
    );
}

/// An unsigned number is read back as it was written, and so is an enumerated
/// value; neither is taken for the other.
pub proof fn law_unsigned_round_trip(value: u32, rest: Seq<u8>)
    ensures
        unsigned_at(unsigned_octets(value) + rest) == Ok::<(u32, int), EncodingErrorView>(
            (value, unsigned_octets(value).len() as int),
        ),
        unsigned64_at(unsigned_octets(value) + rest) == Ok::<(u64, int), EncodingErrorView>(
            (value as u64, unsigned_octets(value).len() as int),
        ),
        enumerated_at(enumerated_octets(value) + rest) == Ok::<(u32, int), EncodingErrorView>(
            (value, enumerated_octets(value).len() as int),
        ),
        enumerated_at(unsigned_octets(value) + rest) == Err::<(u32, int), EncodingErrorView>(
            EncodingErrorView::InvalidTag,
        ),
        unsigned_at(enumerated_octets(value) + rest) == Err::<(u32, int), EncodingErrorView>(
            EncodingErrorView::InvalidTag,
        ),
{
    octets::lemma_pow256_values();
    let width = unsigned_width(value as nat);
    octets::lemma_be_round_trip(value as nat, width);
    lemma_tagged(ApplicationTag::UnsignedInt, octets::be_bytes(value as nat, width), rest);
    lemma_tagged(ApplicationTag::Enumerated, octets::be_bytes(value as nat, width), rest);
}

/// An unsigned number of up to sixty-four bits is read back as it was written.
pub proof fn law_unsigned64_round_trip(value: u64, rest: Seq<u8>)
    ensures
        unsigned64_at(unsigned64_octets(value) + rest) == Ok::<(u64, int), EncodingErrorView>(
            (value, unsigned64_octets(value).len() as int),
        ),
{
    octets::lemma_pow256_values();
    let width = unsigned64_width(value as nat);
    octets::lemma_be_round_trip(value as nat, width);
    lemma_tagged(ApplicationTag::UnsignedInt, octets::be_bytes(value as nat, width), rest);
}

/// A signed number is read back as it was written.
pub proof fn law_signed_round_trip(value: i32, rest: Seq<u8>)
    ensures
        signed_at(signed_octets(value) + rest) == Ok::<(i32, int), EncodingErrorView>(
            (value, signed_octets(value).len() as int),
        ),
{
    octets::lemma_pow256_values();
    let width = signed_width(value as int);
    octets::lemma_signed_round_trip(value as int, width);
    lemma_tagged(ApplicationTag::SignedInt, octets::signed_bytes(value as int, width), rest);
}

/// A signed number of up to sixty-four bits is read back as it was written.
pub proof fn law_signed64_round_trip(value: i64, rest: Seq<u8>)
    ensures
        signed64_at(signed64_octets(value) + rest) == Ok::<(i64, int), EncodingErrorView>(
            (value, signed64_octets(value).len() as int),
        ),
{
    octets::lemma_pow256_values();
    let width = signed64_width(value as int);
    octets::lemma_signed_round_trip(value as int, width);
    lemma_tagged(ApplicationTag::SignedInt, octets::signed_bytes(value as int, width), rest);
}

/// A real is read back bit for bit.
pub proof fn law_real_round_trip(value: Real, rest: Seq<u8>)
    ensures
        real_at(real_octets(value) + rest) == Ok::<(Real, int), EncodingErrorView>(
            (value, real_octets(value).len() as int),
        ),
        real_octets(value).len() == 5,
{
    octets::lemma_pow256_values();
    octets::lemma_be_round_trip(value.bits as nat, 4);
    lemma_tagged(ApplicationTag::Real, octets::be_bytes(value.bits as nat, 4), rest);
}

/// A double is read back bit for bit.
pub proof fn law_double_round_trip(value: Double, rest: Seq<u8>)
    ensures
        double_at(double_octets(value) + rest) == Ok::<(Double, int), EncodingErrorView>(
            (value, double_octets(value).len() as int),
        ),
{
    octets::lemma_pow256_values();
    octets::lemma_be_round_trip(value.bits as nat, 8);
    lemma_tagged(ApplicationTag::Double, octets::be_bytes(value.bits as nat, 8), rest);
}

/// An octet string is read back as it was written.
pub proof fn law_octet_string_round_trip(value: Seq<u8>, rest: Seq<u8>)
    requires
        value.len() <= u32::MAX,
    ensures
        octet_string_at(octet_string_octets(value) + rest) == Ok::<
            (Seq<u8>, int),
            EncodingErrorView,
        >((value, octet_string_octets(value).len() as int)),
{
    lemma_tagged(ApplicationTag::OctetString, value, rest);
}

/// A character string is read back as it was written.
pub proof fn law_character_string_round_trip(value: Seq<char>, rest: Seq<u8>)
    requires
        vstd::utf8::encode_utf8(value).len() < u32::MAX,
    ensures
        character_string_at(character_string_octets(value) + rest) == Ok::<
            (Seq<char>, int),
            EncodingErrorView,
        >((value, character_string_octets(value).len() as int)),
{
    let content = seq![0u8] + vstd::utf8::encode_utf8(value);
    lemma_tagged(ApplicationTag::CharacterString, content, rest);
    assert(content.drop_first() =~= vstd::utf8::encode_utf8(value));
    vstd::utf8::encode_utf8_valid_utf8(value);
    vstd::utf8::encode_utf8_decode_utf8(value);
}

/// A date with an encodable year is read back as it was written, and no octets
/// read as a date whose year could not be written again.
pub proof fn law_date_round_trip(date: (u16, u8, u8, u8), rest: Seq<u8>, octet: u8)
    ensures
        year_is_encodable(date.0) ==> date_at(date_octets(date) + rest) == Ok::<
            ((u16, u8, u8, u8), int),
            EncodingErrorView,
        >((date, date_octets(date).len() as int)),
        year_is_encodable(year_of(octet)),
        year_octet(year_of(octet)) == octet,
{
    let content = seq![year_octet(date.0), date.1, date.2, date.3];
    lemma_tagged(ApplicationTag::Date, content, rest);
    let data = date_octets(date) + rest;
    let used = tag::application_header(ApplicationTag::Date, 4).len() as int;
    assert(data[used + 0] == content[0] && data[used + 1] == content[1] && data[used + 2]
        == content[2] && data[used + 3] == content[3]);
}

/// A time is read back as it was written.
pub proof fn law_time_round_trip(time: (u8, u8, u8, u8), rest: Seq<u8>)
    ensures
        time_at(time_octets(time) + rest) == Ok::<((u8, u8, u8, u8), int), EncodingErrorView>(
            (time, time_octets(time).len() as int),
        ),
{
    let content = seq![time.0, time.1, time.2, time.3];
    lemma_tagged(ApplicationTag::Time, content, rest);
    let data = time_octets(time) + rest;
    let used = tag::application_header(ApplicationTag::Time, 4).len() as int;
    assert(data[used + 0] == content[0] && data[used + 1] == content[1] && data[used + 2]
        == content[2] && data[used + 3] == content[3]);
}

/// An encodable object identifier with a canonical type is read back as it was
/// written.
pub proof fn law_object_identifier_round_trip(value: ObjectIdentifier, rest: Seq<u8>)
    requires
        value.is_encodable(),
        value.object_type.is_canonical(),
    ensures
        object_identifier_at(object_identifier_octets(value) + rest) == Ok::<
            (ObjectIdentifier, int),
            EncodingErrorView,
        >((value, object_identifier_octets(value).len() as int)),
{
    octets::lemma_pow256_values();
    crate::object::identifier::law_identifier_packing(value, 0);
    octets::lemma_be_round_trip(value.packed() as nat, 4);
    lemma_tagged(
        ApplicationTag::ObjectIdentifier,
        octets::be_bytes(value.packed() as nat, 4),
        rest,
    );
}

} // verus!
