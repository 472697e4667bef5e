//! How encoded data lies on the wire, octet by octet.

use crate::encoding::bitstring;
use crate::encoding::context;
use crate::encoding::error::EncodingErrorView;
use crate::encoding::primitive;
use crate::encoding::tag;
use crate::encoding::tag::{ApplicationTag, BACnetTag};
use crate::number::{Double, Real};
use crate::object::identifier::{ObjectIdentifier, ObjectType};
use crate::octets;
use vstd::prelude::*;

verus! {

// ---------------------------------------------------------------------------
// Numbers
// ---------------------------------------------------------------------------

/// The octet of `value` that counts multiples of `unit`, which is a power of two hundred
/// and fifty-six. Of a negative number it is that of the two's complement.
pub open spec fn octet(value: int, unit: int) -> u8 {
    ((value / unit) % 256) as u8
}

/// The two low octets of a number, the higher one first.
pub open spec fn two_octets(value: int) -> Seq<u8> {
    seq![octet(value, 0x100), octet(value, 1)]
}

/// The three low octets of a number, the highest first.
pub open spec fn three_octets(value: int) -> Seq<u8> {
    seq![octet(value, 0x1_0000), octet(value, 0x100), octet(value, 1)]
}

/// The four low octets of a number, the highest first.
pub open spec fn four_octets(value: int) -> Seq<u8> {
    seq![
        octet(value, 0x100_0000),
        octet(value, 0x1_0000),
        octet(value, 0x100),
        octet(value, 1),
    ]
}

/// The four octets above the low four, the highest first.
pub open spec fn next_four_octets(value: int) -> Seq<u8> {
    seq![
        octet(value, 0x100_0000_0000_0000),
        octet(value, 0x1_0000_0000_0000),
        octet(value, 0x100_0000_0000),
        octet(value, 0x1_0000_0000),
    ]
}

/// The number that four octets stand for, the highest first.
pub open spec fn number_of(a: u8, b: u8, c: u8, d: u8) -> int {
    0x100_0000 * a + 0x1_0000 * b + 0x100 * c + d
}

/// Numbers are written with their highest octet first.
pub proof fn law_the_highest_octet_comes_first(value: nat)
    ensures
        octets::be_bytes(value, 1) == seq![octet(value as int, 1)],
        octets::be_bytes(value, 2) == two_octets(value as int),
        octets::be_bytes(value, 3) == three_octets(value as int),
        octets::be_bytes(value, 4) == four_octets(value as int),
        octets::be_bytes(value, 7) == next_four_octets(value as int).drop_first() + four_octets(
            value as int,
        ),
        octets::be_bytes(value, 8) == next_four_octets(value as int) + four_octets(value as int),
{
    reveal_with_fuel(octets::be_bytes, 9);
    let v1 = value / 256;
    let v2 = v1 / 256;
    let v3 = v2 / 256;
    let v4 = v3 / 256;
    let v5 = v4 / 256;
    let v6 = v5 / 256;
    let v7 = v6 / 256;
    assert(v2 == value / 0x1_0000);
    assert(v3 == value / 0x100_0000);
    assert(v4 == value / 0x1_0000_0000);
    assert(v5 == value / 0x100_0000_0000);
    assert(v6 == value / 0x1_0000_0000_0000);
    assert(v7 == value / 0x100_0000_0000_0000);
    assert(octets::be_bytes(value, 1) =~= seq![octet(value as int, 1)]);
    assert(octets::be_bytes(value, 2) =~= two_octets(value as int));
    assert(octets::be_bytes(value, 3) =~= three_octets(value as int));
    assert(octets::be_bytes(value, 4) =~= four_octets(value as int));
    assert(octets::be_bytes(value, 7) =~= next_four_octets(value as int).drop_first()
        + four_octets(value as int));
    assert(octets::be_bytes(value, 8) =~= next_four_octets(value as int) + four_octets(
        value as int,
    ));
}

/// Numbers are read with their highest octet first.
pub proof fn law_the_highest_octet_is_read_first(data: Seq<u8>)
    ensures
        data.len() == 0 ==> octets::be_value(data) == 0,
        data.len() == 1 ==> octets::be_value(data) == data[0],
        data.len() == 2 ==> octets::be_value(data) == number_of(0, 0, data[0], data[1]),
        data.len() == 3 ==> octets::be_value(data) == number_of(0, data[0], data[1], data[2]),
        data.len() == 4 ==> octets::be_value(data) == number_of(
            data[0],
            data[1],
            data[2],
            data[3],
        ),
        data.len() == 8 ==> octets::be_value(data) == 0x1_0000_0000 * number_of(
            data[0],
            data[1],
            data[2],
            data[3],
        ) + number_of(data[4], data[5], data[6], data[7]),
{
    reveal_with_fuel(octets::be_value, 9);
}

/// A signed number is written in two's complement.
pub proof fn law_signed_numbers_are_complements(value: int)
    ensures
        -0x80 <= value < 0x80 ==> octets::signed_bytes(value, 1) == seq![octet(value, 1)],
        -0x8000 <= value < 0x8000 ==> octets::signed_bytes(value, 2) == two_octets(value),
        -0x80_0000 <= value < 0x80_0000 ==> octets::signed_bytes(value, 3) == three_octets(value),
        -0x8000_0000 <= value < 0x8000_0000 ==> octets::signed_bytes(value, 4) == four_octets(
            value,
        ),
{
    octets::lemma_pow256_values();
    if -0x80 <= value < 0x80 {
        lemma_complement_of_one(value);
    }
    if -0x8000 <= value < 0x8000 {
        lemma_complement_of_two(value);
    }
    if -0x80_0000 <= value < 0x80_0000 {
        lemma_complement_of_three(value);
    }
    if -0x8000_0000 <= value < 0x8000_0000 {
        lemma_complement_of_four(value);
    }
}

/// Adding whole turns does not change the low octets.
proof fn lemma_wrapped_one(value: int)
    ensures
        octet(value + 0x100, 1) == octet(value, 1),
{
}

/// Adding whole turns does not change the low octets.
proof fn lemma_wrapped_two(value: int)
    ensures
        octet(value + 0x1_0000, 1) == octet(value, 1),
        octet(value + 0x1_0000, 0x100) == octet(value, 0x100),
{
    assert((value + 0x1_0000) / 0x100 == value / 0x100 + 0x100);
}

/// Adding whole turns does not change the low octets.
proof fn lemma_wrapped_three(value: int)
    ensures
        octet(value + 0x100_0000, 1) == octet(value, 1),
        octet(value + 0x100_0000, 0x100) == octet(value, 0x100),
        octet(value + 0x100_0000, 0x1_0000) == octet(value, 0x1_0000),
{
    assert((value + 0x100_0000) / 0x100 == value / 0x100 + 0x1_0000);
    assert((value + 0x100_0000) / 0x1_0000 == value / 0x1_0000 + 0x100);
}

/// Adding whole turns does not change the low octets.
proof fn lemma_wrapped_four(value: int)
    ensures
        octet(value + 0x1_0000_0000, 1) == octet(value, 1),
        octet(value + 0x1_0000_0000, 0x100) == octet(value, 0x100),
        octet(value + 0x1_0000_0000, 0x1_0000) == octet(value, 0x1_0000),
        octet(value + 0x1_0000_0000, 0x100_0000) == octet(value, 0x100_0000),
{
    assert((value + 0x1_0000_0000) / 0x100 == value / 0x100 + 0x100_0000);
    assert((value + 0x1_0000_0000) / 0x1_0000 == value / 0x1_0000 + 0x1_0000);
    assert((value + 0x1_0000_0000) / 0x100_0000 == value / 0x100_0000 + 0x100);
}

/// The two's complement of a number in one octet.
proof fn lemma_complement_of_one(value: int)
    requires
        -0x80 <= value < 0x80,
    ensures
        octets::signed_bytes(value, 1) == seq![octet(value, 1)],
{
    octets::lemma_pow256_values();
    lemma_wrapped_one(value);
    law_the_highest_octet_comes_first((if value < 0 { value + 0x100 } else { value }) as nat);
}

/// The two's complement of a number in two octets.
proof fn lemma_complement_of_two(value: int)
    requires
        -0x8000 <= value < 0x8000,
    ensures
        octets::signed_bytes(value, 2) == two_octets(value),
{
    octets::lemma_pow256_values();
    lemma_wrapped_two(value);
    law_the_highest_octet_comes_first((if value < 0 { value + 0x1_0000 } else { value }) as nat);
}

/// The two's complement of a number in three octets.
proof fn lemma_complement_of_three(value: int)
    requires
        -0x80_0000 <= value < 0x80_0000,
    ensures
        octets::signed_bytes(value, 3) == three_octets(value),
{
    octets::lemma_pow256_values();
    lemma_wrapped_three(value);
    law_the_highest_octet_comes_first((if value < 0 { value + 0x100_0000 } else { value }) as nat);
}

/// The two's complement of a number in four octets.
proof fn lemma_complement_of_four(value: int)
    requires
        -0x8000_0000 <= value < 0x8000_0000,
    ensures
        octets::signed_bytes(value, 4) == four_octets(value),
{
    octets::lemma_pow256_values();
    lemma_wrapped_four(value);
    law_the_highest_octet_comes_first((if value < 0 { value + 0x1_0000_0000 } else { value }) as nat);
}

/// A signed number is negative exactly where its highest bit is set, and it is read in
/// two's complement.
pub proof fn law_complements_are_read(data: Seq<u8>)
    requires
        1 <= data.len() <= 4,
    ensures
        octets::signed_value(data) < 0 <==> data[0] >= 0x80,
        data[0] < 0x80 ==> octets::signed_value(data) == octets::be_value(data),
        data.len() == 1 && data[0] >= 0x80 ==> octets::signed_value(data) == data[0] - 0x100,
        data.len() == 2 && data[0] >= 0x80 ==> octets::signed_value(data) == number_of(
            0,
            0,
            data[0],
            data[1],
        ) - 0x1_0000,
        data.len() == 3 && data[0] >= 0x80 ==> octets::signed_value(data) == number_of(
            0,
            data[0],
            data[1],
            data[2],
        ) - 0x100_0000,
        data.len() == 4 && data[0] >= 0x80 ==> octets::signed_value(data) == number_of(
            data[0],
            data[1],
            data[2],
            data[3],
        ) - 0x1_0000_0000,
{
    octets::lemma_pow256_values();
    law_the_highest_octet_is_read_first(data);
}

// ---------------------------------------------------------------------------
// Headers
// ---------------------------------------------------------------------------

/// The number of every application tag.
pub proof fn law_application_tags_have_their_numbers(kind: ApplicationTag, number: u8)
    ensures
        ApplicationTag::Null.number() == 0,
        ApplicationTag::Boolean.number() == 1,
        ApplicationTag::UnsignedInt.number() == 2,
        ApplicationTag::SignedInt.number() == 3,
        ApplicationTag::Real.number() == 4,
        ApplicationTag::Double.number() == 5,
        ApplicationTag::OctetString.number() == 6,
        ApplicationTag::CharacterString.number() == 7,
        ApplicationTag::BitString.number() == 8,
        ApplicationTag::Enumerated.number() == 9,
        ApplicationTag::Date.number() == 10,
        ApplicationTag::Time.number() == 11,
        ApplicationTag::ObjectIdentifier.number() == 12,
        ApplicationTag::Reserved13.number() == 13,
        ApplicationTag::Reserved14.number() == 14,
        ApplicationTag::Reserved15.number() == 15,
        number <= 14 ==> tag::application_tag_of(number).number() == number,
        kind.number() <= 14 ==> tag::application_tag_of(kind.number()) == kind,
{
}

/// Whether `tail` says, after an initial octet whose low bits are `low`, that `length`
/// octets follow.
pub open spec fn says_length(low: int, tail: Seq<u8>, length: nat) -> bool {
    if length <= 4 {
        low == length && tail.len() == 0
    } else if length <= 253 {
        low == 5 && tail == seq![length as u8]
    } else if length <= 0xFFFF {
        low == 5 && tail == seq![254u8] + two_octets(length as int)
    } else {
        low == 5 && tail == seq![255u8] + four_octets(length as int)
    }
}

/// An application header carries the tag's number in its high four bits. A length of at
/// most four stands in its low three; a longer one follows in one, three or five octets.
pub proof fn law_application_headers(kind: ApplicationTag, length: nat)
    requires
        kind.number() <= 14,
        length <= u32::MAX,
    ensures
        ({
            let header = tag::application_header(kind, length);
            &&& header.len() >= 1
            &&& header[0] / 16 == kind.number()
            &&& header[0] % 16 < 8
            &&& says_length((header[0] % 16) as int, header.drop_first(), length)
        }),
{
    let header = tag::application_header(kind, length);
    law_the_highest_octet_comes_first(length);
    assert(header.drop_first() =~= tag::length_tail(length));
    if length > 4 {
        if length <= 253 {
            assert(header.drop_first() =~= seq![length as u8]);
        } else if length <= 0xFFFF {
            assert(header.drop_first() =~= seq![254u8] + two_octets(length as int));
        } else {
            assert(header.drop_first() =~= seq![255u8] + four_octets(length as int));
        }
    }
}

/// A context header has the class bit set. A tag number of at most fourteen stands in its
/// high four bits; a larger one follows in an octet of its own. The length follows as in
/// an application header.
pub proof fn law_context_headers(tag_number: u8, length: nat)
    requires
        length <= u32::MAX,
    ensures
        ({
            let header = tag::context_header(tag_number, length);
            let head: int = if tag_number <= 14 { 1 } else { 2 };
            &&& header.len() >= head
            &&& header[0] % 16 >= 8
            &&& header[0] / 16 == if tag_number <= 14 { tag_number } else { 15 }
            &&& tag_number > 14 ==> header[1] == tag_number
            &&& says_length(header[0] % 16 - 8, header.skip(head), length)
        }),
{
    let header = tag::context_header(tag_number, length);
    let head: int = if tag_number <= 14 { 1 } else { 2 };
    law_the_highest_octet_comes_first(length);
    assert(header.skip(head) =~= tag::length_tail(length));
    if length > 4 {
        if length <= 253 {
            assert(header.skip(head) =~= seq![length as u8]);
        } else if length <= 0xFFFF {
            assert(header.skip(head) =~= seq![254u8] + two_octets(length as int));
        } else {
            assert(header.skip(head) =~= seq![255u8] + four_octets(length as int));
        }
    }
}

/// Constructed data is opened by fourteen and closed by fifteen in the low four bits, after
/// the tag number.
pub proof fn law_markers(tag_number: u8)
    ensures
        tag_number <= 14 ==> tag::opening_octets(tag_number) == seq![
            (16 * tag_number + 14) as u8,
        ] && tag::closing_octets(tag_number) == seq![(16 * tag_number + 15) as u8],
        tag_number > 14 ==> tag::opening_octets(tag_number) == seq![0xFEu8, tag_number]
            && tag::closing_octets(tag_number) == seq![0xFFu8, tag_number],
{
    assert(tag_number <= 14 ==> tag::opening_octets(tag_number) =~= seq![
        (16 * tag_number + 14) as u8,
    ]);
    assert(tag_number <= 14 ==> tag::closing_octets(tag_number) =~= seq![
        (16 * tag_number + 15) as u8,
    ]);
}

/// A tag is read by its bits: the number from the high four, the class from the next, and
/// from the low three the length, or that it opens or closes constructed data.
pub proof fn law_tags_are_read_by_their_bits(data: Seq<u8>)
    requires
        data.len() >= 1,
        data[0] < 0xF0,
    ensures
        data[0] % 16 <= 4 ==> tag::tag_of(data) == Ok::<(BACnetTag, nat, int), EncodingErrorView>(
            (
                BACnetTag::Application(tag::application_tag_of(data[0] / 16)),
                (data[0] % 16) as nat,
                1,
            ),
        ),
        8 <= data[0] % 16 <= 12 ==> tag::tag_of(data) == Ok::<
            (BACnetTag, nat, int),
            EncodingErrorView,
        >((BACnetTag::Context(data[0] / 16), (data[0] % 16 - 8) as nat, 1)),
        data[0] % 16 == 14 ==> tag::tag_of(data) == Ok::<
            (BACnetTag, nat, int),
            EncodingErrorView,
        >((BACnetTag::Opening(data[0] / 16), 0, 1)),
        data[0] % 16 == 15 ==> tag::tag_of(data) == Ok::<
            (BACnetTag, nat, int),
            EncodingErrorView,
        >((BACnetTag::Closing(data[0] / 16), 0, 1)),
        data[0] % 16 == 6 || data[0] % 16 == 7 ==> tag::tag_of(data) is Err,
        data[0] % 8 == 5 && data.len() >= 2 && data[1] <= 253 ==> (tag::tag_of(
            data,
        ) matches Ok((_, length, used)) && length == data[1] && used == 2),
{
    reveal(tag::tag_of);
    if data[0] % 8 == 5 && data.len() >= 2 && data[1] <= 253 {
        assert(tag::extended_length_at(data, 1) == Ok::<(nat, int), EncodingErrorView>(
            (data[1] as nat, 1),
        ));
    }
}

/// Long tag numbers are read from the second octet, and long lengths from the octets after
/// the tag.
pub proof fn law_long_tags_are_read(data: Seq<u8>)
    requires
        data.len() >= 7,
    ensures
        0xF8 <= data[0] <= 0xFC ==> tag::tag_of(data) == Ok::<
            (BACnetTag, nat, int),
            EncodingErrorView,
        >((BACnetTag::Context(data[1]), (data[0] - 0xF8) as nat, 2)),
        data[0] == 0xFE ==> tag::tag_of(data) == Ok::<(BACnetTag, nat, int), EncodingErrorView>(
            (BACnetTag::Opening(data[1]), 0, 2),
        ),
        data[0] == 0xFF ==> tag::tag_of(data) == Ok::<(BACnetTag, nat, int), EncodingErrorView>(
            (BACnetTag::Closing(data[1]), 0, 2),
        ),
        0xF0 <= data[0] < 0xF8 ==> tag::tag_of(data) is Err,
        data[0] < 0xF0 && data[0] % 8 == 5 && data[1] == 254 ==> (tag::tag_of(
            data,
        ) matches Ok((_, length, used)) && length == number_of(0, 0, data[2], data[3]) && used
            == 4),
        data[0] < 0xF0 && data[0] % 8 == 5 && data[1] == 255 ==> (tag::tag_of(
            data,
        ) matches Ok((_, length, used)) && length == number_of(
            data[2],
            data[3],
            data[4],
            data[5],
        ) && used == 6),
{
    reveal(tag::tag_of);
    law_the_highest_octet_is_read_first(data.subrange(2, 4));
    law_the_highest_octet_is_read_first(data.subrange(2, 6));
}

// ---------------------------------------------------------------------------
// Values
// ---------------------------------------------------------------------------

/// Whether `octets` are `first` and `content`.
pub open spec fn are(octets: Seq<u8>, first: int, content: Seq<u8>) -> bool {
    octets == seq![first as u8] + content
}

/// The header of content of at most four octets is one octet.
proof fn lemma_short(kind: ApplicationTag, content: Seq<u8>)
    requires
        content.len() <= 4,
        kind.number() <= 14,
    ensures
        are(primitive::tagged(kind, content), 16 * kind.number() + content.len(), content),
{
    assert(primitive::tagged(kind, content) =~= seq![
        (16 * kind.number() + content.len()) as u8,
    ] + content);
}

/// A Boolean is a single octet, which says false as 0x10 and true as 0x11.
pub proof fn law_booleans_on_the_wire(data: Seq<u8>)
    ensures
        primitive::boolean_octets(false) == seq![0x10u8],
        primitive::boolean_octets(true) == seq![0x11u8],
        data.len() >= 1 && data[0] == 0x10 ==> primitive::boolean_at(data) == Ok::<
            (bool, int),
            EncodingErrorView,
        >((false, 1)),
        data.len() >= 1 && data[0] == 0x11 ==> primitive::boolean_at(data) == Ok::<
            (bool, int),
            EncodingErrorView,
        >((true, 1)),
        data.len() >= 1 && (data[0] < 0x10 || data[0] >= 0x20) ==> primitive::boolean_at(
            data,
        ) is Err,
{
    assert(primitive::boolean_octets(false) =~= seq![0x10u8]);
    assert(primitive::boolean_octets(true) =~= seq![0x11u8]);
    if data.len() >= 1 {
        reveal(tag::tag_of);
    }
}

/// Whether `octets` are an unsigned number of at most thirty-two bits in as few octets as
/// hold it, highest first, after an initial octet that adds their count to `first`.
pub open spec fn are_unsigned(octets: Seq<u8>, first: int, value: u32) -> bool {
    if value <= 0xFF {
        are(octets, first + 1, seq![value as u8])
    } else if value <= 0xFFFF {
        are(octets, first + 2, two_octets(value as int))
    } else if value <= 0xFF_FFFF {
        are(octets, first + 3, three_octets(value as int))
    } else {
        are(octets, first + 4, four_octets(value as int))
    }
}

/// Unsigned numbers and enumerated values are written in as few octets as hold them, the
/// highest first, under their tags.
pub proof fn law_unsigned_numbers_on_the_wire(value: u32)
    ensures
        are_unsigned(primitive::unsigned_octets(value), 0x20, value),
        are_unsigned(primitive::enumerated_octets(value), 0x90, value),
{
    law_the_highest_octet_comes_first(value as nat);
    let content = octets::be_bytes(value as nat, primitive::unsigned_width(value as nat));
    lemma_short(ApplicationTag::UnsignedInt, content);
    lemma_short(ApplicationTag::Enumerated, content);
}

/// Whether `read` is the number that the octets of `data` after the first stand for, as
/// many as the first says.
pub open spec fn reads_unsigned(
    read: Result<(u32, int), EncodingErrorView>,
    data: Seq<u8>,
) -> bool {
    &&& data[0] % 8 == 1 && data.len() >= 2 ==> read == Ok::<(u32, int), EncodingErrorView>(
        (data[1] as u32, 2),
    )
    &&& data[0] % 8 == 2 && data.len() >= 3 ==> read == Ok::<(u32, int), EncodingErrorView>(
        (number_of(0, 0, data[1], data[2]) as u32, 3),
    )
    &&& data[0] % 8 == 3 && data.len() >= 4 ==> read == Ok::<(u32, int), EncodingErrorView>(
        (number_of(0, data[1], data[2], data[3]) as u32, 4),
    )
    &&& data[0] % 8 == 4 && data.len() >= 5 ==> read == Ok::<(u32, int), EncodingErrorView>(
        (number_of(data[1], data[2], data[3], data[4]) as u32, 5),
    )
    &&& data[0] % 8 <= 4 && data.len() < 1 + data[0] % 8 ==> read is Err
}

/// Unsigned numbers and enumerated values are read as they lie on the wire, and neither is
/// read under another tag.
pub proof fn law_unsigned_numbers_off_the_wire(data: Seq<u8>)
    requires
        data.len() >= 1,
    ensures
        0x20 <= data[0] <= 0x24 ==> reads_unsigned(primitive::unsigned_at(data), data),
        0x90 <= data[0] <= 0x94 ==> reads_unsigned(primitive::enumerated_at(data), data),
        data[0] < 0x20 || data[0] >= 0x28 ==> primitive::unsigned_at(data) is Err
            && primitive::unsigned64_at(data) is Err,
        data[0] < 0x90 || data[0] >= 0x98 ==> primitive::enumerated_at(data) is Err,
{
    reveal(tag::tag_of);
    if data.len() >= 2 {
        law_the_highest_octet_is_read_first(data.subrange(1, 2));
    }
    if data.len() >= 3 {
        law_the_highest_octet_is_read_first(data.subrange(1, 3));
    }
    if data.len() >= 4 {
        law_the_highest_octet_is_read_first(data.subrange(1, 4));
    }
    if data.len() >= 5 {
        law_the_highest_octet_is_read_first(data.subrange(1, 5));
    }
}

/// Signed numbers are written in two's complement, in as few octets as hold them, the
/// highest first.
pub proof fn law_signed_numbers_on_the_wire(value: i32)
    ensures
        -0x80 <= value < 0x80 ==> are(
            primitive::signed_octets(value),
            0x31,
            seq![octet(value as int, 1)],
        ),
        -0x8000 <= value < 0x8000 && !(-0x80 <= value < 0x80) ==> are(
            primitive::signed_octets(value),
            0x32,
            two_octets(value as int),
        ),
        -0x80_0000 <= value < 0x80_0000 && !(-0x8000 <= value < 0x8000) ==> are(
            primitive::signed_octets(value),
            0x33,
            three_octets(value as int),
        ),
        !(-0x80_0000 <= value < 0x80_0000) ==> are(
            primitive::signed_octets(value),
            0x34,
            four_octets(value as int),
        ),
{
    law_signed_numbers_are_complements(value as int);
    lemma_short(
        ApplicationTag::SignedInt,
        octets::signed_bytes(value as int, primitive::signed_width(value as int)),
    );
}

/// Signed numbers are read as they lie on the wire, and under no other tag.
pub proof fn law_signed_numbers_off_the_wire(data: Seq<u8>)
    requires
        data.len() >= 5,
    ensures
        data[0] == 0x31 ==> primitive::signed_at(data) == Ok::<(i32, int), EncodingErrorView>(
            ((if data[1] < 0x80 { data[1] as int } else { data[1] - 0x100 }) as i32, 2),
        ),
        data[0] == 0x32 ==> ({
            let number = number_of(0, 0, data[1], data[2]);
            primitive::signed_at(data) == Ok::<(i32, int), EncodingErrorView>(
                ((if data[1] < 0x80 { number } else { number - 0x1_0000 }) as i32, 3),
            )
        }),
        data[0] == 0x33 ==> ({
            let number = number_of(0, data[1], data[2], data[3]);
            primitive::signed_at(data) == Ok::<(i32, int), EncodingErrorView>(
                ((if data[1] < 0x80 { number } else { number - 0x100_0000 }) as i32, 4),
            )
        }),
        data[0] == 0x34 ==> ({
            let number = number_of(data[1], data[2], data[3], data[4]);
            primitive::signed_at(data) == Ok::<(i32, int), EncodingErrorView>(
                ((if data[1] < 0x80 { number } else { number - 0x1_0000_0000 }) as i32, 5),
            )
        }),
        data[0] < 0x30 || data[0] >= 0x38 ==> primitive::signed_at(data) is Err
            && primitive::signed64_at(data) is Err,
{
    reveal(tag::tag_of);
    law_complements_are_read(data.subrange(1, 2));
    law_complements_are_read(data.subrange(1, 3));
    law_complements_are_read(data.subrange(1, 4));
    law_complements_are_read(data.subrange(1, 5));
    law_the_highest_octet_is_read_first(data.subrange(1, 2));
    law_the_highest_octet_is_read_first(data.subrange(1, 3));
    law_the_highest_octet_is_read_first(data.subrange(1, 4));
    law_the_highest_octet_is_read_first(data.subrange(1, 5));
}

/// A real is 0x44 and its four octets, a double 0x55, 8 and its eight, the highest first.
pub proof fn law_floating_numbers_on_the_wire(single: Real, double: Double)
    ensures
        are(primitive::real_octets(single), 0x44, four_octets(single.bits as int)),
        primitive::double_octets(double) == seq![0x55u8, 8u8] + next_four_octets(
            double.bits as int,
        ) + four_octets(double.bits as int),
{
    law_the_highest_octet_comes_first(single.bits as nat);
    law_the_highest_octet_comes_first(double.bits as nat);
    lemma_short(ApplicationTag::Real, octets::be_bytes(single.bits as nat, 4));
    assert(primitive::double_octets(double) =~= seq![0x55u8, 8u8] + next_four_octets(
        double.bits as int,
    ) + four_octets(double.bits as int));
}

/// Reals and doubles are read as they lie on the wire, and under no other tag.
pub proof fn law_floating_numbers_off_the_wire(data: Seq<u8>)
    requires
        data.len() >= 1,
    ensures
        data[0] == 0x44 && data.len() >= 5 ==> primitive::real_at(data) == Ok::<
            (Real, int),
            EncodingErrorView,
        >((Real { bits: number_of(data[1], data[2], data[3], data[4]) as u32 }, 5)),
        data[0] == 0x55 && data.len() >= 10 && data[1] == 8 ==> primitive::double_at(data) == Ok::<
            (Double, int),
            EncodingErrorView,
        >(
            (
                Double {
                    bits: (0x1_0000_0000 * number_of(data[2], data[3], data[4], data[5])
                        + number_of(data[6], data[7], data[8], data[9])) as u64,
                },
                10,
            ),
        ),
        data[0] < 0x40 || data[0] >= 0x48 || data.len() < 5 ==> primitive::real_at(data) is Err,
        data[0] < 0x50 || data[0] >= 0x58 || data.len() < 10 ==> primitive::double_at(data) is Err,
{
    reveal(tag::tag_of);
    if data.len() >= 5 {
        law_the_highest_octet_is_read_first(data.subrange(1, 5));
    }
    if data.len() >= 10 {
        law_the_highest_octet_is_read_first(data.subrange(2, 10));
    }
    tag::lemma_tag_length(data);
}

/// A date is 0xA4, the years since 1900 or 255 for any year, the month, the day of the
/// month and the day of the week, in this order.
pub proof fn law_dates_on_the_wire(date: (u16, u8, u8, u8))
    ensures
        1900 <= date.0 <= 2154 ==> primitive::date_octets(date) == seq![
            0xA4u8,
            (date.0 - 1900) as u8,
            date.1,
            date.2,
            date.3,
        ],
        date.0 == 255 ==> primitive::date_octets(date) == seq![
            0xA4u8,
            255u8,
            date.1,
            date.2,
            date.3,
        ],
        primitive::year_is_encodable(date.0) <==> (1900 <= date.0 <= 2154 || date.0 == 255),
{
    let content = seq![primitive::year_octet(date.0), date.1, date.2, date.3];
    lemma_short(ApplicationTag::Date, content);
    assert(1900 <= date.0 <= 2154 ==> primitive::date_octets(date) =~= seq![
        0xA4u8,
        (date.0 - 1900) as u8,
        date.1,
        date.2,
        date.3,
    ]);
    assert(date.0 == 255 ==> primitive::date_octets(date) =~= seq![
        0xA4u8,
        255u8,
        date.1,
        date.2,
        date.3,
    ]);
}

/// A date is read as it lies on the wire: years since 1900 or any year, month, day of the
/// month, day of the week. It is read from nothing shorter and under no other tag.
pub proof fn law_dates_off_the_wire(data: Seq<u8>)
    requires
        data.len() >= 1,
    ensures
        data[0] == 0xA4 && data.len() >= 5 && data[1] != 255 ==> primitive::date_at(data) == Ok::<
            ((u16, u8, u8, u8), int),
            EncodingErrorView,
        >((((1900 + data[1]) as u16, data[2], data[3], data[4]), 5)),
        data[0] == 0xA4 && data.len() >= 5 && data[1] == 255 ==> primitive::date_at(data) == Ok::<
            ((u16, u8, u8, u8), int),
            EncodingErrorView,
        >(((255, data[2], data[3], data[4]), 5)),
        data[0] < 0xA0 || data[0] >= 0xA8 || data.len() < 5 ==> primitive::date_at(data) is Err,
{
    reveal(tag::tag_of);
    tag::lemma_tag_length(data);
}

/// A time is 0xB4, the hour, the minute, the second and the hundredths, in this order, and
/// is read so, from nothing shorter and under no other tag.
pub proof fn law_times_on_the_wire(time: (u8, u8, u8, u8), data: Seq<u8>)
    ensures
        primitive::time_octets(time) == seq![0xB4u8, time.0, time.1, time.2, time.3],
        data.len() >= 5 && data[0] == 0xB4 ==> primitive::time_at(data) == Ok::<
            ((u8, u8, u8, u8), int),
            EncodingErrorView,
        >(((data[1], data[2], data[3], data[4]), 5)),
        data.len() < 5 || data[0] < 0xB0 || data[0] >= 0xB8 ==> primitive::time_at(data) is Err,
{
    lemma_short(ApplicationTag::Time, seq![time.0, time.1, time.2, time.3]);
    assert(primitive::time_octets(time) =~= seq![0xB4u8, time.0, time.1, time.2, time.3]);
    reveal(tag::tag_of);
    tag::lemma_tag_length(data);
}

/// An object identifier is 0xC4 and four octets: the type's number in the high ten bits,
/// the instance in the low twenty-two.
pub proof fn law_object_identifiers_on_the_wire(value: ObjectIdentifier)
    requires
        value.object_type.number() <= 0x3FF,
        value.instance <= 0x3F_FFFF,
    ensures
        are(
            primitive::object_identifier_octets(value),
            0xC4,
            four_octets(0x40_0000 * value.object_type.number() + value.instance),
        ),
        value.is_encodable(),
{
    law_the_highest_octet_comes_first(value.packed() as nat);
    lemma_short(ApplicationTag::ObjectIdentifier, octets::be_bytes(value.packed() as nat, 4));
}

/// An object identifier is read with the type's number from the high ten bits and the
/// instance from the low twenty-two.
pub proof fn law_object_identifiers_off_the_wire(data: Seq<u8>)
    requires
        data.len() >= 1,
    ensures
        data[0] == 0xC4 && data.len() >= 5 ==> ({
            let number = number_of(data[1], data[2], data[3], data[4]);
            primitive::object_identifier_at(data) matches Ok((value, used)) && used == 5
                && value.object_type.number() == number / 0x40_0000 && value.instance == number
                % 0x40_0000
        }),
        data[0] < 0xC0 || data[0] >= 0xC8 || data.len() < 5 ==> primitive::object_identifier_at(
            data,
        ) is Err,
{
    reveal(tag::tag_of);
    if data.len() >= 5 {
        law_the_highest_octet_is_read_first(data.subrange(1, 5));
        let number = number_of(data[1], data[2], data[3], data[4]) as u32;
        crate::object::identifier::law_object_type_numbers(
            number / 0x40_0000,
            ObjectType::AnalogInput,
        );
    }
    tag::lemma_tag_length(data);
}

/// Octet strings are their octets under a header, and character strings a character set of
/// zero and their UTF-8 under one.
pub proof fn law_strings_on_the_wire(value: Seq<u8>, text: Seq<char>)
    ensures
        primitive::octet_string_octets(value) == tag::application_header(
            ApplicationTag::OctetString,
            value.len(),
        ) + value,
        primitive::character_string_octets(text) == tag::application_header(
            ApplicationTag::CharacterString,
            vstd::utf8::encode_utf8(text).len() + 1,
        ) + seq![0u8] + vstd::utf8::encode_utf8(text),
{
    assert(primitive::character_string_octets(text) =~= tag::application_header(
        ApplicationTag::CharacterString,
        vstd::utf8::encode_utf8(text).len() + 1,
    ) + seq![0u8] + vstd::utf8::encode_utf8(text));
}

/// The content of a bit string is the number of bits that its last octet leaves over, and
/// the bits, eight to an octet, the first in the highest place. The bits left over are
/// clear.
pub proof fn law_bits_on_the_wire(bits: Seq<bool>, k: int)
    requires
        0 <= k < bits.len(),
    ensures
        ({
            let content = bitstring::bit_string_content(bits);
            &&& content[0] < 8
            &&& 8 * (content.len() - 1) == bits.len() + content[0]
            &&& bits[k] == bitstring::bit_of(content[1 + k / 8], k % 8)
            &&& k % 8 == 0 ==> bits[k] == (content[1 + k / 8] >= 128)
            &&& k % 8 == 7 ==> bits[k] == (content[1 + k / 8] % 2 == 1)
        }),
        bitstring::bit_string_octets(bits) == tag::application_header(
            ApplicationTag::BitString,
            bitstring::bit_string_content(bits).len(),
        ) + bitstring::bit_string_content(bits),
{
    bitstring::lemma_bit_of_packed(bits, k);
    let content = bitstring::bit_string_content(bits);
    assert(content[1 + k / 8] == bitstring::packed_octet(bits, k / 8));
}

/// Each place of an octet has half the weight of the one before it; the first has that of
/// one hundred and twenty-eight.
pub proof fn law_places_have_their_weights(octet: u8)
    ensures
        octet == (if bitstring::bit_of(octet, 0) { 128int } else { 0 }) + (if bitstring::bit_of(
            octet,
            1,
        ) { 64int } else { 0 }) + (if bitstring::bit_of(octet, 2) { 32int } else { 0 }) + (
        if bitstring::bit_of(octet, 3) { 16int } else { 0 }) + (if bitstring::bit_of(
            octet,
            4,
        ) { 8int } else { 0 }) + (if bitstring::bit_of(octet, 5) { 4int } else { 0 }) + (
        if bitstring::bit_of(octet, 6) { 2int } else { 0 }) + (if bitstring::bit_of(
            octet,
            7,
        ) { 1int } else { 0 }),
{
    let halved = octet / 2;
    let quartered = halved / 2;
    let b5 = quartered / 2;
    let b4 = b5 / 2;
    let b3 = b4 / 2;
    let b2 = b3 / 2;
    let b1 = b2 / 2;
    assert(quartered == octet / 4);
    assert(b5 == octet / 8);
    assert(b4 == octet / 16);
    assert(b3 == octet / 32);
    assert(b2 == octet / 64);
    assert(b1 == octet / 128);
    assert(octet == 2 * halved + octet % 2);
    assert(halved == 2 * quartered + halved % 2);
    assert(quartered == 2 * b5 + quartered % 2);
    assert(b5 == 2 * b4 + b5 % 2);
    assert(b4 == 2 * b3 + b4 % 2);
    assert(b3 == 2 * b2 + b3 % 2);
    assert(b2 == 2 * b1 + b2 % 2);
}

/// Under a context tag of at most fourteen, an unsigned number, a Boolean, a real and an
/// object identifier are one octet of header and their content.
pub proof fn law_context_values_on_the_wire(
    tag_number: u8,
    value: u32,
    flag: bool,
    single: Real,
    identifier: ObjectIdentifier,
)
    requires
        tag_number <= 14,
        identifier.object_type.number() <= 0x3FF,
        identifier.instance <= 0x3F_FFFF,
    ensures
        are_unsigned(
            context::context_unsigned_octets(tag_number, value),
            16 * tag_number + 8,
            value,
        ),
        are(
            context::context_boolean_octets(tag_number, flag),
            16 * tag_number + 9,
            seq![if flag { 1u8 } else { 0u8 }],
        ),
        are(
            context::context_real_octets(tag_number, single),
            16 * tag_number + 12,
            four_octets(single.bits as int),
        ),
        are(
            context::context_object_id_octets(tag_number, identifier),
            16 * tag_number + 12,
            four_octets(0x40_0000 * identifier.object_type.number() + identifier.instance),
        ),
{
    law_the_highest_octet_comes_first(value as nat);
    law_the_highest_octet_comes_first(single.bits as nat);
    law_the_highest_octet_comes_first(identifier.packed() as nat);
    lemma_short_context(
        tag_number,
        octets::be_bytes(value as nat, primitive::unsigned_width(value as nat)),
    );
    lemma_short_context(tag_number, seq![if flag { 1u8 } else { 0u8 }]);
    lemma_short_context(tag_number, octets::be_bytes(single.bits as nat, 4));
    lemma_short_context(tag_number, octets::be_bytes(identifier.packed() as nat, 4));
}

/// Under a small context tag, the header of content of at most four octets is one octet.
proof fn lemma_short_context(tag_number: u8, content: Seq<u8>)
    requires
        content.len() <= 4,
        tag_number <= 14,
    ensures
        are(
            context::context_tagged(tag_number, content),
            16 * tag_number + 8 + content.len(),
            content,
        ),
{
    assert(context::context_tagged(tag_number, content) =~= seq![
        (16 * tag_number + 8 + content.len()) as u8,
    ] + content);
}

/// Values under a context tag of at most fourteen are read as they lie on the wire, and
/// only under the tag that is expected.
pub proof fn law_context_values_off_the_wire(data: Seq<u8>, tag_number: u8)
    requires
        data.len() >= 5,
        tag_number <= 14,
        data[0] < 0xF0,
    ensures
        data[0] == 16 * tag_number + 8 ==> context::context_unsigned_at(data, tag_number) == Ok::<
            (u32, int),
            EncodingErrorView,
        >((0, 1)),
        16 * tag_number + 8 < data[0] <= 16 * tag_number + 12 ==> reads_unsigned(
            context::context_unsigned_at(data, tag_number),
            data,
        ),
        data[0] == 16 * tag_number + 9 && data[1] <= 1 ==> context::context_boolean_at(
            data,
            tag_number,
        ) == Ok::<(bool, int), EncodingErrorView>((data[1] == 1, 2)),
        data[0] == 16 * tag_number + 12 ==> context::context_real_at(data, tag_number) == Ok::<
            (Real, int),
            EncodingErrorView,
        >((Real { bits: number_of(data[1], data[2], data[3], data[4]) as u32 }, 5)),
        data[0] == 16 * tag_number + 12 ==> ({
            let number = number_of(data[1], data[2], data[3], data[4]);
            context::context_object_id_at(data, tag_number) matches Ok((value, used)) && used == 5
                && value.object_type.number() == number / 0x40_0000 && value.instance == number
                % 0x40_0000
        }),
        data[0] / 16 != tag_number || data[0] % 16 < 8 ==> context::context_unsigned_at(
            data,
            tag_number,
        ) is Err && context::context_boolean_at(data, tag_number) is Err
            && context::context_real_at(data, tag_number) is Err && context::context_object_id_at(
            data,
            tag_number,
        ) is Err,
{
    reveal(tag::tag_of);
    assert(data.subrange(1, 1).len() == 0);
    law_the_highest_octet_is_read_first(data.subrange(1, 1));
    law_the_highest_octet_is_read_first(data.subrange(1, 2));
    law_the_highest_octet_is_read_first(data.subrange(1, 3));
    law_the_highest_octet_is_read_first(data.subrange(1, 4));
    law_the_highest_octet_is_read_first(data.subrange(1, 5));
    let number = number_of(data[1], data[2], data[3], data[4]) as u32;
    crate::object::identifier::law_object_type_numbers(
        number / 0x40_0000,
        ObjectType::AnalogInput,
    );
}

/// Whether what was read ends where its tag says it does.
pub open spec fn ends_at<T>(read: Result<(T, int), EncodingErrorView>, end: int) -> bool {
    read is Ok ==> read->Ok_0.1 == end
}

/// A value is read exactly where its tag is of its type, the length that the tag names is
/// one that the type can have, and all of it is there. It ends where the tag says.
pub proof fn law_whole_values_are_read(data: Seq<u8>, kind: ApplicationTag, length: nat, used: int)
    requires
        tag::application_tag_at(data) == Ok::<(ApplicationTag, nat, int), EncodingErrorView>(
            (kind, length, used),
        ),
    ensures
        ({
            let end = used + length;
            let whole = end <= data.len();
            &&& primitive::boolean_at(data) is Ok <==> kind is Boolean && length <= 1
            &&& ends_at(primitive::boolean_at(data), used)
            &&& primitive::unsigned_at(data) is Ok <==> kind is UnsignedInt && whole && 1 <= length
                <= 4
            &&& ends_at(primitive::unsigned_at(data), end)
            &&& primitive::enumerated_at(data) is Ok <==> kind is Enumerated && whole && 1 <= length
                <= 4
            &&& ends_at(primitive::enumerated_at(data), end)
            &&& primitive::unsigned64_at(data) is Ok <==> kind is UnsignedInt && whole && length <= 8
            &&& ends_at(primitive::unsigned64_at(data), end)
            &&& primitive::signed_at(data) is Ok <==> kind is SignedInt && whole && 1 <= length <= 4
            &&& ends_at(primitive::signed_at(data), end)
            &&& primitive::signed64_at(data) is Ok <==> kind is SignedInt && whole && 1 <= length
                <= 8
            &&& ends_at(primitive::signed64_at(data), end)
            &&& primitive::real_at(data) is Ok <==> kind is Real && whole && length == 4
            &&& ends_at(primitive::real_at(data), end)
            &&& primitive::double_at(data) is Ok <==> kind is Double && whole && length == 8
            &&& ends_at(primitive::double_at(data), end)
            &&& primitive::date_at(data) is Ok <==> kind is Date && whole && length == 4
            &&& ends_at(primitive::date_at(data), end)
            &&& primitive::time_at(data) is Ok <==> kind is Time && whole && length == 4
            &&& ends_at(primitive::time_at(data), end)
            &&& primitive::object_identifier_at(data) is Ok <==> kind is ObjectIdentifier && whole
                && length == 4
            &&& ends_at(primitive::object_identifier_at(data), end)
        }),
{
}

/// An octet string is read as the octets that its tag counts. A character string is the
/// text that those after the first encode, and a bit string the bits of those after the
/// first, without as many as the first says.
pub proof fn law_strings_off_the_wire(
    data: Seq<u8>,
    kind: ApplicationTag,
    length: nat,
    used: int,
    k: int,
)
    requires
        tag::application_tag_at(data) == Ok::<(ApplicationTag, nat, int), EncodingErrorView>(
            (kind, length, used),
        ),
    ensures
        ({
            let end = used + length;
            let whole = end <= data.len();
            let octets = primitive::octet_string_at(data);
            let text = primitive::character_string_at(data);
            let bits = bitstring::bit_string_at(data);
            &&& octets is Ok <==> kind is OctetString && whole
            &&& octets is Ok ==> octets->Ok_0.0 == data.subrange(used, end)
            &&& ends_at(octets, end)
            &&& text is Ok <==> kind is CharacterString && whole && length >= 1
                && vstd::utf8::valid_utf8(data.subrange(used + 1, end))
            &&& text is Ok ==> text->Ok_0.0 == vstd::utf8::decode_utf8(
                data.subrange(used + 1, end),
            )
            &&& ends_at(text, end)
            &&& bits is Ok <==> kind is BitString && whole && length >= 1 && data[used] <= 7
            &&& bits is Ok && length > 1 ==> bits->Ok_0.0.len() == 8 * (length - 1) - data[used]
            &&& bits is Ok && 0 <= k < bits->Ok_0.0.len() ==> bits->Ok_0.0[k] == bitstring::bit_of(
                data[used + 1 + k / 8],
                k % 8,
            )
            &&& ends_at(bits, end)
        }),
{
    tag::lemma_tag_length(data);
}

/// Under a context tag, too, a value is read exactly where the tag is the one that is
/// expected, the length is one that the type can have, and all of it is there.
pub proof fn law_whole_context_values_are_read(
    data: Seq<u8>,
    number: u8,
    length: nat,
    used: int,
    expected: u8,
)
    requires
        tag::context_tag_at(data) == Ok::<(u8, nat, int), EncodingErrorView>(
            (number, length, used),
        ),
    ensures
        ({
            let end = used + length;
            let whole = end <= data.len();
            &&& context::context_unsigned_at(data, expected) is Ok <==> number == expected && whole
                && length <= 4
            &&& ends_at(context::context_unsigned_at(data, expected), end)
            &&& context::context_boolean_at(data, expected) is Ok <==> number == expected && whole
                && length == 1 && data[used] <= 1
            &&& ends_at(context::context_boolean_at(data, expected), end)
            &&& context::context_real_at(data, expected) is Ok <==> number == expected && whole
                && length == 4
            &&& ends_at(context::context_real_at(data, expected), end)
            &&& context::context_object_id_at(data, expected) is Ok <==> number == expected && whole
                && length == 4
            &&& ends_at(context::context_object_id_at(data, expected), end)
        }),
{
}

/// A marker is taken where it opens or closes the context that is expected, and nothing
/// else is.
pub proof fn law_markers_are_taken(data: Seq<u8>, expected: u8)
    ensures
        tag::opening_tag_at(data, expected) is Ok <==> (tag::tag_of(data) matches Ok((found, _, _))
            && found == BACnetTag::Opening(expected)),
        tag::closing_tag_at(data, expected) is Ok <==> (tag::tag_of(data) matches Ok((found, _, _))
            && found == BACnetTag::Closing(expected)),
        tag::opening_tag_at(data, expected) is Ok ==> tag::opening_tag_at(data, expected)->Ok_0
            == tag::tag_of(data)->Ok_0.2,
        tag::closing_tag_at(data, expected) is Ok ==> tag::closing_tag_at(data, expected)->Ok_0
            == tag::tag_of(data)->Ok_0.2,
{
}

} // verus!
