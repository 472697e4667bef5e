//! Tags: the octets that introduce every encoded value.

use crate::encoding::error::{EncodingError, EncodingErrorView};
use crate::octets;
use vstd::prelude::*;

verus! {

/// BACnet application tag numbers.
#[derive(Debug, Clone, Copy, PartialEq, Eq, Structural)]
pub enum ApplicationTag {
    Null,
    Boolean,
    UnsignedInt,
    SignedInt,
    Real,
    Double,
    OctetString,
    CharacterString,
    BitString,
    Enumerated,
    Date,
    Time,
    ObjectIdentifier,
    Reserved13,
    Reserved14,
    Reserved15,
}

impl ApplicationTag {
    /// The number of this tag.
    pub open spec fn number(self) -> u8 {
        match self {
            ApplicationTag::Null => 0,
            ApplicationTag::Boolean => 1,
            ApplicationTag::UnsignedInt => 2,
            ApplicationTag::SignedInt => 3,
            ApplicationTag::Real => 4,
            ApplicationTag::Double => 5,
            ApplicationTag::OctetString => 6,
            ApplicationTag::CharacterString => 7,
            ApplicationTag::BitString => 8,
            ApplicationTag::Enumerated => 9,
            ApplicationTag::Date => 10,
            ApplicationTag::Time => 11,
            ApplicationTag::ObjectIdentifier => 12,
            ApplicationTag::Reserved13 => 13,
            ApplicationTag::Reserved14 => 14,
            ApplicationTag::Reserved15 => 15,
        }
    }

    /// The number of this tag.
    pub fn to_number(self) -> (number: u8)
        ensures
            number == self.number(),
    {
        match self {
            ApplicationTag::Null => 0,
            ApplicationTag::Boolean => 1,
            ApplicationTag::UnsignedInt => 2,
            ApplicationTag::SignedInt => 3,
            ApplicationTag::Real => 4,
            ApplicationTag::Double => 5,
            ApplicationTag::OctetString => 6,
            ApplicationTag::CharacterString => 7,
            ApplicationTag::BitString => 8,
            ApplicationTag::Enumerated => 9,
            ApplicationTag::Date => 10,
            ApplicationTag::Time => 11,
            ApplicationTag::ObjectIdentifier => 12,
            ApplicationTag::Reserved13 => 13,
            ApplicationTag::Reserved14 => 14,
            ApplicationTag::Reserved15 => 15,
        }
    }

    /// The application tag with the given number. Fifteen marks the extended
    /// form and is no tag of its own.
    pub fn try_from(value: u8) -> (tag: Result<ApplicationTag, EncodingError>)
        ensures
            match tag {
                Ok(tag) => value <= 14 && tag.number() == value,
                Err(error) => value > 14 && error@ == EncodingErrorView::InvalidTag,
            },
    {
        match value {
            0 => Ok(ApplicationTag::Null),
            1 => Ok(ApplicationTag::Boolean),
            2 => Ok(ApplicationTag::UnsignedInt),
            3 => Ok(ApplicationTag::SignedInt),
            4 => Ok(ApplicationTag::Real),
            5 => Ok(ApplicationTag::Double),
            6 => Ok(ApplicationTag::OctetString),
            7 => Ok(ApplicationTag::CharacterString),
            8 => Ok(ApplicationTag::BitString),
            9 => Ok(ApplicationTag::Enumerated),
            10 => Ok(ApplicationTag::Date),
            11 => Ok(ApplicationTag::Time),
            12 => Ok(ApplicationTag::ObjectIdentifier),
            13 => Ok(ApplicationTag::Reserved13),
            14 => Ok(ApplicationTag::Reserved14),
            _ => Err(EncodingError::InvalidTag),
        }
    }
}

/// A decoded BACnet tag.
///
/// Context-specific tags come in three forms that share an encoding but mean
/// different things: a primitive tag introducing a value, and the opening and
/// closing markers that bracket constructed data.
#[derive(Debug, Clone, Copy, PartialEq, Eq, Structural)]
pub enum BACnetTag {
    /// An application tag introducing a primitive value.
    Application(ApplicationTag),
    /// A context-specific tag introducing a primitive value.
    Context(u8),
    /// The opening marker of constructed context-specific data.
    Opening(u8),
    /// The closing marker of constructed context-specific data.
    Closing(u8),
}

impl BACnetTag {
    /// The context tag number, for any of the three context-specific forms.
    pub fn context_number(&self) -> (number: Option<u8>)
        ensures
            number == match *self {
                BACnetTag::Application(_) => None::<u8>,
                BACnetTag::Context(tag) => Some(tag),
                BACnetTag::Opening(tag) => Some(tag),
                BACnetTag::Closing(tag) => Some(tag),
            },
    {
        match self {
            BACnetTag::Context(tag) | BACnetTag::Opening(tag) | BACnetTag::Closing(tag) => {
                Some(*tag)
            },
            BACnetTag::Application(_) => None,
        }
    }
}

/// The class bit of the initial octet: set for context-specific tags.
pub const CONTEXT_CLASS_BIT: u8 = 8;

/// Length-value-type nibble meaning "the length follows in extended form".
pub const LVT_EXTENDED_LENGTH: u8 = 5;

/// Length-value-type nibble marking an opening tag.
pub const LVT_OPENING_TAG: u8 = 6;

/// Length-value-type nibble marking a closing tag.
pub const LVT_CLOSING_TAG: u8 = 7;

/// Tag-number nibble meaning the real tag number follows the initial octet.
pub const EXTENDED_TAG_NUMBER: u8 = 15;

// ---------------------------------------------------------------------------
// What a header is
// ---------------------------------------------------------------------------

/// The octets of a length in extended form. A length is written in at most
/// thirty-two bits.
pub open spec fn extended_length(length: nat) -> Seq<u8> {
    if length < 254 {
        seq![length as u8]
    } else if length < 65536 {
        seq![254u8] + octets::be_bytes(length, 2)
    } else {
        seq![255u8] + octets::be_bytes(length, 4)
    }
}

/// The length nibble of a header for a value of `length` octets.
pub open spec fn length_nibble(length: nat) -> nat {
    if length < LVT_EXTENDED_LENGTH {
        length
    } else {
        LVT_EXTENDED_LENGTH as nat
    }
}

/// The octets that follow the initial octet to say how long the value is.
pub open spec fn length_tail(length: nat) -> Seq<u8> {
    if length < LVT_EXTENDED_LENGTH {
        Seq::<u8>::empty()
    } else {
        extended_length(length)
    }
}

/// The header of an application-tagged value of `length` octets.
pub open spec fn application_header(tag: ApplicationTag, length: nat) -> Seq<u8> {
    seq![(tag.number() * 16 + length_nibble(length)) as u8] + length_tail(length)
}

/// The octets that carry a context tag number, with `low` in the low nibble of
/// the initial octet.
pub open spec fn context_octets(tag_number: u8, low: nat) -> Seq<u8> {
    if tag_number > 14 {
        seq![(EXTENDED_TAG_NUMBER * 16 + CONTEXT_CLASS_BIT + low) as u8, tag_number]
    } else {
        seq![(tag_number * 16 + CONTEXT_CLASS_BIT + low) as u8]
    }
}

/// The header of a context-tagged primitive value of `length` octets.
pub open spec fn context_header(tag_number: u8, length: nat) -> Seq<u8> {
    context_octets(tag_number, length_nibble(length)) + length_tail(length)
}

/// The opening marker of constructed data under `tag_number`.
pub open spec fn opening_octets(tag_number: u8) -> Seq<u8> {
    context_octets(tag_number, LVT_OPENING_TAG as nat)
}

/// The closing marker of constructed data under `tag_number`.
pub open spec fn closing_octets(tag_number: u8) -> Seq<u8> {
    context_octets(tag_number, LVT_CLOSING_TAG as nat)
}

/// What the extended length octets at `offset` say: the length and how many
/// octets said it.
pub open spec fn extended_length_at(data: Seq<u8>, offset: int) -> Result<
    (nat, int),
    EncodingErrorView,
> {
    if offset >= data.len() {
        Err(EncodingErrorView::BufferUnderflow)
    } else if data[offset] <= 253 {
        Ok((data[offset] as nat, 1))
    } else if data[offset] == 254 {
        if data.len() < offset + 3 {
            Err(EncodingErrorView::BufferUnderflow)
        } else {
            Ok((octets::be_value(data.subrange(offset + 1, offset + 3)), 3))
        }
    } else {
        if data.len() < offset + 5 {
            Err(EncodingErrorView::BufferUnderflow)
        } else {
            Ok((octets::be_value(data.subrange(offset + 1, offset + 5)), 5))
        }
    }
}

/// The application tag with a number below fifteen.
pub open spec fn application_tag_of(number: u8) -> ApplicationTag {
    match number {
        0 => ApplicationTag::Null,
        1 => ApplicationTag::Boolean,
        2 => ApplicationTag::UnsignedInt,
        3 => ApplicationTag::SignedInt,
        4 => ApplicationTag::Real,
        5 => ApplicationTag::Double,
        6 => ApplicationTag::OctetString,
        7 => ApplicationTag::CharacterString,
        8 => ApplicationTag::BitString,
        9 => ApplicationTag::Enumerated,
        10 => ApplicationTag::Date,
        11 => ApplicationTag::Time,
        12 => ApplicationTag::ObjectIdentifier,
        13 => ApplicationTag::Reserved13,
        _ => ApplicationTag::Reserved14,
    }
}

/// What the tag at the front of `data` says: the tag, the length of the value
/// that follows, and how many octets the tag occupies.
#[verifier::opaque]
pub open spec fn tag_of(data: Seq<u8>) -> Result<(BACnetTag, nat, int), EncodingErrorView> {
    if data.len() == 0 {
        Err(EncodingErrorView::InvalidTag)
    } else {
        let nibble = data[0] / 16;
        let context = data[0] % 16 >= 8;
        let low = data[0] % 8;
        let extended = nibble == EXTENDED_TAG_NUMBER;
        let head: int = if extended { 2 } else { 1 };
        if extended && !context {
            Err(EncodingErrorView::InvalidTag)
        } else if extended && data.len() < 2 {
            Err(EncodingErrorView::BufferUnderflow)
        } else {
            let number = if extended { data[1] } else { nibble };
            if context && low == LVT_OPENING_TAG {
                Ok((BACnetTag::Opening(number), 0, head))
            } else if context && low == LVT_CLOSING_TAG {
                Ok((BACnetTag::Closing(number), 0, head))
            } else if low >= LVT_OPENING_TAG {
                Err(EncodingErrorView::InvalidTag)
            } else {
                let tag = if context {
                    BACnetTag::Context(number)
                } else {
                    BACnetTag::Application(application_tag_of(number))
                };
                if low == LVT_EXTENDED_LENGTH {
                    match extended_length_at(data, head) {
                        Ok((length, extra)) => Ok((tag, length, head + extra)),
                        Err(error) => Err(error),
                    }
                } else {
                    Ok((tag, low as nat, head))
                }
            }
        }
    }
}

/// What the application tag at the front of `data` says.
pub open spec fn application_tag_at(data: Seq<u8>) -> Result<
    (ApplicationTag, nat, int),
    EncodingErrorView,
> {
    match tag_of(data) {
        Ok((BACnetTag::Application(tag), length, used)) => Ok((tag, length, used)),
        Ok(_) => Err(EncodingErrorView::InvalidTag),
        Err(error) => Err(error),
    }
}

/// What the primitive context tag at the front of `data` says.
pub open spec fn context_tag_at(data: Seq<u8>) -> Result<(u8, nat, int), EncodingErrorView> {
    match tag_of(data) {
        Ok((BACnetTag::Context(number), length, used)) => Ok((number, length, used)),
        Ok(_) => Err(EncodingErrorView::InvalidTag),
        Err(error) => Err(error),
    }
}

/// How many octets the opening marker of context `expected` occupies at the front
/// of `data`.
pub open spec fn opening_tag_at(data: Seq<u8>, expected: u8) -> Result<int, EncodingErrorView> {
    match tag_of(data) {
        Ok((BACnetTag::Opening(number), _, used)) => if number == expected {
            Ok(used)
        } else {
            Err(EncodingErrorView::InvalidTag)
        },
        Ok(_) => Err(EncodingErrorView::InvalidTag),
        Err(error) => Err(error),
    }
}

/// How many octets the closing marker of context `expected` occupies at the front
/// of `data`.
pub open spec fn closing_tag_at(data: Seq<u8>, expected: u8) -> Result<int, EncodingErrorView> {
    match tag_of(data) {
        Ok((BACnetTag::Closing(number), _, used)) => if number == expected {
            Ok(used)
        } else {
            Err(EncodingErrorView::InvalidTag)
        },
        Ok(_) => Err(EncodingErrorView::InvalidTag),
        Err(error) => Err(error),
    }
}

/// Whether an outcome of reading a tag is the stated one.
pub open spec fn same_tag<T>(
    actual: Result<(T, usize, usize), EncodingError>,
    stated: Result<(T, nat, int), EncodingErrorView>,
) -> bool {
    match (actual, stated) {
        (Ok((tag, length, used)), Ok((expected, value_length, tag_length))) => {
            &&& tag == expected
            &&& length == value_length
            &&& used == tag_length
        },
        (Err(error), Err(expected)) => error@ == expected,
        _ => false,
    }
}

/// Whether an outcome of reading a marker is the stated one.
pub open spec fn same_marker(
    actual: Result<usize, EncodingError>,
    stated: Result<int, EncodingErrorView>,
) -> bool {
    match (actual, stated) {
        (Ok(used), Ok(length)) => used == length,
        (Err(error), Err(expected)) => error@ == expected,
        _ => false,
    }
}

// ---------------------------------------------------------------------------
// Reading and writing headers
// ---------------------------------------------------------------------------

/// Read the extended length octets that follow an initial octet whose
/// length-value-type nibble is 5.
///
/// `offset` is the index of the first length octet, which is not always 1: an
/// extended tag number is encoded ahead of the length. Returns the length and
/// how many octets it occupied.
fn read_extended_length(data: &[u8], offset: usize) -> (result: Result<
    (usize, usize),
    EncodingError,
>)
    requires
        offset <= 2,
    ensures
        match (result, extended_length_at(data@, offset as int)) {
            (Ok((length, extra)), Ok((stated, octets))) => {
                &&& length == stated
                &&& extra == octets
                &&& offset + extra <= data@.len()
            },
            (Err(error), Err(stated)) => error@ == stated,
            _ => false,
        },
{
    if offset >= data.len() {
        return Err(EncodingError::BufferUnderflow);
    }
    let first: u8 = data[offset];
    proof {
        octets::lemma_pow256_values();
    }
    if first <= 253 {
        Ok((first as usize, 1))
    } else if first == 254 {
        if data.len() < offset + 3 {
            return Err(EncodingError::BufferUnderflow);
        }
        let length: u64 = octets::read_be(data, offset + 1, 2);
        Ok((length as usize, 3))
    } else {
        if data.len() < offset + 5 {
            return Err(EncodingError::BufferUnderflow);
        }
        let length: u64 = octets::read_be(data, offset + 1, 4);
        Ok((length as usize, 5))
    }
}

/// Decode any BACnet tag from the front of `data`.
///
/// Returns the tag, the length of the value that follows it, and how many octets
/// the tag itself occupied. Opening and closing tags introduce no value of their
/// own and so report a length of zero.
pub fn decode_tag(data: &[u8]) -> (result: Result<(BACnetTag, usize, usize), EncodingError>)
    ensures
        same_tag(result, tag_of(data@)),
        match result {
            Ok((_, length, used)) => 0 < used <= data@.len() && used <= 7 && length <= u32::MAX,
            Err(_) => true,
        },
{
    proof {
        reveal(tag_of);
    }
    if data.len() == 0 {
        return Err(EncodingError::InvalidTag);
    }
    let tag_byte: u8 = data[0];
    let is_context = tag_byte % 16 >= CONTEXT_CLASS_BIT;
    let lvt: u8 = tag_byte % 8;

    let mut tag_number: u8 = tag_byte / 16;
    let mut consumed: usize = 1;

    if tag_number == EXTENDED_TAG_NUMBER {
        // Application tag numbers only run to 12, so the extended form is
        // context-specific by construction.
        if !is_context {
            return Err(EncodingError::InvalidTag);
        }
        if data.len() < 2 {
            return Err(EncodingError::BufferUnderflow);
        }
        tag_number = data[1];
        consumed = 2;
    }
    if is_context {
        if lvt == LVT_OPENING_TAG {
            return Ok((BACnetTag::Opening(tag_number), 0, consumed));
        }
        if lvt == LVT_CLOSING_TAG {
            return Ok((BACnetTag::Closing(tag_number), 0, consumed));
        }
    } else if lvt >= LVT_OPENING_TAG {
        // An application tag's nibble is a length, and lengths
        // above 4 use the extended form. 6 and 7 are opening and closing markers,
        // which exist only for context-specific tags.
        return Err(EncodingError::InvalidTag);
    }
    proof {
        octets::lemma_pow256_values();
        if data@.len() >= consumed + 3 {
            octets::lemma_be_value_bound(data@.subrange(consumed + 1, consumed + 3));
        }
        if data@.len() >= consumed + 5 {
            octets::lemma_be_value_bound(data@.subrange(consumed + 1, consumed + 5));
        }
    }
    let length: usize = if lvt == LVT_EXTENDED_LENGTH {
        match read_extended_length(data, consumed) {
            Ok((length, extra)) => {
                consumed = consumed + extra;
                length
            },
            Err(error) => return Err(error),
        }
    } else {
        lvt as usize
    };

    let tag = if is_context {
        BACnetTag::Context(tag_number)
    } else {
        match ApplicationTag::try_from(tag_number) {
            Ok(tag) => BACnetTag::Application(tag),
            Err(error) => return Err(error),
        }
    };

    Ok((tag, length, consumed))
}

/// Write the extended length octets for a value of `length` octets.
///
/// Only called once the initial octet's length-value-type nibble has been set to
/// 5 to say they are coming.
fn write_extended_length(buffer: &mut Vec<u8>, length: usize)
    ensures
        final(buffer)@ == old(buffer)@ + extended_length(length as nat),
{
    let ghost before = buffer@;
    if length < 254 {
        buffer.push(length as u8);
    } else if length < 65536 {
        buffer.push(254);
        octets::push_be(buffer, length as u64, 2);
    } else {
        buffer.push(255);
        octets::push_be(buffer, length as u64, 4);
    }
    assert(buffer@ =~= before + extended_length(length as nat));
}

/// Encode a BACnet application tag.
pub fn encode_application_tag(buffer: &mut Vec<u8>, tag: ApplicationTag, length: usize)
    ensures
        final(buffer)@ == old(buffer)@ + application_header(tag, length as nat),
{
    let ghost before = buffer@;
    let number: u8 = tag.to_number();
    if length < LVT_EXTENDED_LENGTH as usize {
        buffer.push(number * 16 + length as u8);
    } else {
        buffer.push(number * 16 + LVT_EXTENDED_LENGTH);
        write_extended_length(buffer, length);
    }
    assert(buffer@ =~= before + application_header(tag, length as nat));
}

/// Decode a BACnet application tag.
///
/// Rejects context-specific tags rather than reading their class bit as part of
/// the length, which would silently inflate it by eight.
pub fn decode_application_tag(data: &[u8]) -> (result: Result<
    (ApplicationTag, usize, usize),
    EncodingError,
>)
    ensures
        same_tag(result, application_tag_at(data@)),
        match result {
            Ok((_, length, used)) => 0 < used <= data@.len() && used <= 7 && length <= u32::MAX,
            Err(_) => true,
        },
{
    match decode_tag(data) {
        Ok((BACnetTag::Application(tag), length, consumed)) => Ok((tag, length, consumed)),
        Ok(_) => Err(EncodingError::InvalidTag),
        Err(error) => Err(error),
    }
}

/// Write a context tag number with `low` in the low nibble of the initial octet.
fn push_context_octets(buffer: &mut Vec<u8>, tag_number: u8, low: u8)
    requires
        low < 8,
    ensures
        final(buffer)@ == old(buffer)@ + context_octets(tag_number, low as nat),
{
    let ghost before = buffer@;
    if tag_number > 14 {
        buffer.push(EXTENDED_TAG_NUMBER * 16 + CONTEXT_CLASS_BIT + low);
        buffer.push(tag_number);
    } else {
        buffer.push(tag_number * 16 + CONTEXT_CLASS_BIT + low);
    }
    assert(buffer@ =~= before + context_octets(tag_number, low as nat));
}

/// Encode a context-specific tag.
///
/// Tag numbers above 14 use the extended form: the tag nibble
/// becomes B'1111' and the real tag number follows the initial octet, ahead of
/// any extended length octets.
pub fn encode_context_tag(buffer: &mut Vec<u8>, tag_number: u8, length: usize) -> (result: Result<
    (),
    EncodingError,
>)
    ensures
        result is Ok,
        final(buffer)@ == old(buffer)@ + context_header(tag_number, length as nat),
{
    let ghost before = buffer@;
    if length < LVT_EXTENDED_LENGTH as usize {
        push_context_octets(buffer, tag_number, length as u8);
    } else {
        push_context_octets(buffer, tag_number, LVT_EXTENDED_LENGTH);
        write_extended_length(buffer, length);
    }
    assert(buffer@ =~= before + context_header(tag_number, length as nat));
    Ok(())
}

/// Encode the opening tag of constructed context-specific data.
pub fn encode_opening_tag(buffer: &mut Vec<u8>, tag_number: u8) -> (result: Result<
    (),
    EncodingError,
>)
    ensures
        result is Ok,
        final(buffer)@ == old(buffer)@ + opening_octets(tag_number),
{
    push_context_octets(buffer, tag_number, LVT_OPENING_TAG);
    Ok(())
}

/// Encode the closing tag of constructed context-specific data.
pub fn encode_closing_tag(buffer: &mut Vec<u8>, tag_number: u8) -> (result: Result<
    (),
    EncodingError,
>)
    ensures
        result is Ok,
        final(buffer)@ == old(buffer)@ + closing_octets(tag_number),
{
    push_context_octets(buffer, tag_number, LVT_CLOSING_TAG);
    Ok(())
}

/// Decode a primitive context-specific tag.
///
/// Opening and closing tags are rejected: they introduce no value, so the length
/// this returns would be meaningless for them.
pub fn decode_context_tag(data: &[u8]) -> (result: Result<(u8, usize, usize), EncodingError>)
    ensures
        same_tag(result, context_tag_at(data@)),
        match result {
            Ok((_, length, used)) => 0 < used <= data@.len() && used <= 7 && length <= u32::MAX,
            Err(_) => true,
        },
{
    match decode_tag(data) {
        Ok((BACnetTag::Context(tag_number), length, consumed)) => Ok(
            (tag_number, length, consumed),
        ),
        Ok(_) => Err(EncodingError::InvalidTag),
        Err(error) => Err(error),
    }
}

/// Decode an opening tag, checking it opens context `expected`.
///
/// Returns how many octets the tag occupied, which is two for tag numbers above
/// 14.
pub fn decode_opening_tag(data: &[u8], expected: u8) -> (result: Result<usize, EncodingError>)
    ensures
        same_marker(result, opening_tag_at(data@, expected)),
        result is Ok ==> 0 < result->Ok_0 <= data@.len(),
{
    match decode_tag(data) {
        Ok((BACnetTag::Opening(tag_number), _, consumed)) => if tag_number == expected {
            Ok(consumed)
        } else {
            Err(EncodingError::InvalidTag)
        },
        Ok(_) => Err(EncodingError::InvalidTag),
        Err(error) => Err(error),
    }
}

/// Decode a closing tag, checking it closes context `expected`.
///
/// Returns how many octets the tag occupied.
pub fn decode_closing_tag(data: &[u8], expected: u8) -> (result: Result<usize, EncodingError>)
    ensures
        same_marker(result, closing_tag_at(data@, expected)),
        result is Ok ==> 0 < result->Ok_0 <= data@.len(),
{
    match decode_tag(data) {
        Ok((BACnetTag::Closing(tag_number), _, consumed)) => if tag_number == expected {
            Ok(consumed)
        } else {
            Err(EncodingError::InvalidTag)
        },
        Ok(_) => Err(EncodingError::InvalidTag),
        Err(error) => Err(error),
    }
}

/// Whether the next tag opens constructed context `tag`.
pub fn is_opening_tag(data: &[u8], tag: u8) -> (opens: bool)
    ensures
        opens == (tag_of(data@) matches Ok((BACnetTag::Opening(actual), _, _)) && actual == tag),
{
    match decode_tag(data) {
        Ok((BACnetTag::Opening(actual), _, _)) => actual == tag,
        _ => false,
    }
}

/// Whether the next tag closes constructed context `tag`.
pub fn is_closing_tag(data: &[u8], tag: u8) -> (closes: bool)
    ensures
        closes == (tag_of(data@) matches Ok((BACnetTag::Closing(actual), _, _)) && actual == tag),
{
    match decode_tag(data) {
        Ok((BACnetTag::Closing(actual), _, _)) => actual == tag,
        _ => false,
    }
}

/// Whether the next tag is context `tag` carrying a primitive value.
pub fn is_context_tag(data: &[u8], tag: u8) -> (carries: bool)
    ensures
        carries == (tag_of(data@) matches Ok((BACnetTag::Context(actual), _, _)) && actual == tag),
{
    match decode_tag(data) {
        Ok((BACnetTag::Context(actual), _, _)) => actual == tag,
        _ => false,
    }
}

// ---------------------------------------------------------------------------
// Laws
// ---------------------------------------------------------------------------

/// A tag that was read occupies at least one octet, and none that are not there.
pub proof fn lemma_tag_length(data: Seq<u8>)
    ensures
        tag_of(data) matches Ok((_, length, used)) ==> 0 < used <= data.len() && used <= 7
            && length <= u32::MAX,
{
    reveal(tag_of);
    octets::lemma_pow256_values();
    if data.len() >= 1 {
        let head: int = if data[0] / 16 == EXTENDED_TAG_NUMBER {
            2
        } else {
            1
        };
        if data.len() >= head + 3 {
            octets::lemma_be_value_bound(data.subrange(head + 1, head + 3));
        }
        if data.len() >= head + 5 {
            octets::lemma_be_value_bound(data.subrange(head + 1, head + 5));
        }
    }
}

/// A length that fits thirty-two bits is read back as it was written, whatever
/// stands before and after it.
pub proof fn lemma_extended_length(head: Seq<u8>, length: nat, rest: Seq<u8>)
    requires
        length <= u32::MAX,
    ensures
        extended_length_at(head + extended_length(length) + rest, head.len() as int) == Ok::<
            (nat, int),
            EncodingErrorView,
        >((length, extended_length(length).len() as int)),
        0 < extended_length(length).len() <= 5,
{
    let data = head + extended_length(length) + rest;
    let at = head.len() as int;
    octets::lemma_pow256_values();
    octets::lemma_be_bytes_len(length, 2);
    octets::lemma_be_bytes_len(length, 4);
    if length < 254 {
        assert(data[at] == length as u8);
    } else if length < 65536 {
        octets::lemma_be_round_trip(length, 2);
        assert(data[at] == 254);
        assert(data.subrange(at + 1, at + 3) =~= octets::be_bytes(length, 2));
    } else {
        octets::lemma_be_round_trip(length, 4);
        assert(data[at] == 255);
        assert(data.subrange(at + 1, at + 5) =~= octets::be_bytes(length, 4));
    }
}

/// An application header is read back as it was written.
pub proof fn law_application_header_round_trip(tag: ApplicationTag, length: nat, rest: Seq<u8>)
    requires
        tag.number() <= 14,
        length <= u32::MAX,
    ensures
        application_tag_at(application_header(tag, length) + rest) == Ok::<
            (ApplicationTag, nat, int),
            EncodingErrorView,
        >((tag, length, application_header(tag, length).len() as int)),
{
    reveal(tag_of);
    let header = application_header(tag, length);
    let data = header + rest;
    let first = (tag.number() * 16 + length_nibble(length)) as u8;
    assert(data[0] == first);
    assert(first / 16 == tag.number() && first % 16 == length_nibble(length) && first % 8
        == length_nibble(length));
    assert(application_tag_of(tag.number()) == tag);
    if length >= LVT_EXTENDED_LENGTH {
        lemma_extended_length(seq![first], length, rest);
        assert(data =~= seq![first] + extended_length(length) + rest);
    }
}

/// A context header is read back as it was written.
pub proof fn law_context_header_round_trip(tag_number: u8, length: nat, rest: Seq<u8>)
    requires
        length <= u32::MAX,
    ensures
        context_tag_at(context_header(tag_number, length) + rest) == Ok::<
            (u8, nat, int),
            EncodingErrorView,
        >((tag_number, length, context_header(tag_number, length).len() as int)),
{
    reveal(tag_of);
    let header = context_header(tag_number, length);
    let data = header + rest;
    let head = context_octets(tag_number, length_nibble(length));
    assert(data[0] == head[0]);
    if tag_number > 14 {
        assert(data[1] == tag_number);
    }
    if length >= LVT_EXTENDED_LENGTH {
        lemma_extended_length(head, length, rest);
        assert(data =~= head + extended_length(length) + rest);
    }
}

/// An opening and a closing marker are read back as they were written, and
/// neither is taken for the other or for a tag that carries a value.
pub proof fn law_markers_round_trip(tag_number: u8, rest: Seq<u8>)
    ensures
        tag_of(opening_octets(tag_number) + rest) == Ok::<(BACnetTag, nat, int), EncodingErrorView>(
            (BACnetTag::Opening(tag_number), 0, opening_octets(tag_number).len() as int),
        ),
        tag_of(closing_octets(tag_number) + rest) == Ok::<(BACnetTag, nat, int), EncodingErrorView>(
            (BACnetTag::Closing(tag_number), 0, closing_octets(tag_number).len() as int),
        ),
{
    reveal(tag_of);
    let opening = opening_octets(tag_number) + rest;
    let closing = closing_octets(tag_number) + rest;
    assert(opening[0] == opening_octets(tag_number)[0]);
    assert(closing[0] == closing_octets(tag_number)[0]);
    if tag_number > 14 {
        assert(opening[1] == tag_number && closing[1] == tag_number);
    }
}

} // verus!
