//! Encoding and decoding several values in a row.

use crate::encoding::context;
use crate::encoding::context::{encode_context_boolean, push_context_unsigned};
use crate::encoding::error;
use crate::encoding::error::{EncodingError, EncodingErrorView};
use crate::encoding::primitive;
use crate::encoding::primitive::{
    encode_boolean, encode_character_string, encode_double, encode_enumerated, encode_real,
    encode_signed, encode_unsigned,
};
use crate::encoding::tag;
use crate::encoding::tag::{
    decode_application_tag, encode_closing_tag, encode_context_tag, encode_opening_tag,
    ApplicationTag,
};
use crate::number::{Double, Real};
use crate::object::identifier::ObjectIdentifier;
use crate::octets;
use vstd::prelude::*;
use vstd::slice::slice_subrange;

verus! {

/// Whether `octets` were appended to a buffer, or the value did not fit and the
/// buffer is as it was.
pub open spec fn appended(
    result: Result<(), EncodingError>,
    before: Seq<u8>,
    after: Seq<u8>,
    fits: bool,
    octets: Seq<u8>,
) -> bool {
    match result {
        Ok(_) => fits && after == before + octets,
        Err(error) => !fits && error@ == EncodingErrorView::BufferOverflow && after == before,
    }
}

/// A value that can be encoded on its own.
pub trait EncodableValue {
    /// Whether the length of the value can be counted.
    spec fn fits(&self) -> bool;

    /// The encoding under the value's application tag.
    spec fn application_octets(&self) -> Seq<u8>;

    /// The encoding under a context tag.
    spec fn context_octets(&self, tag_number: u8) -> Seq<u8>;

    /// Encode with application tag. The tag is that of the value's own type,
    /// whichever one is asked for.
    fn encode_to(&self, tag: ApplicationTag, buffer: &mut Vec<u8>) -> (result: Result<
        (),
        EncodingError,
    >)
        ensures
            appended(
                result,
                old(buffer)@,
                final(buffer)@,
                self.fits(),
                self.application_octets(),
            ),
    ;

    /// Encode with context tag.
    fn encode_context_to(&self, tag_number: u8, buffer: &mut Vec<u8>) -> (result: Result<
        (),
        EncodingError,
    >)
        ensures
            appended(
                result,
                old(buffer)@,
                final(buffer)@,
                self.fits(),
                self.context_octets(tag_number),
            ),
    ;
}

impl EncodableValue for bool {
    open spec fn fits(&self) -> bool {
        true
    }

    open spec fn application_octets(&self) -> Seq<u8> {
        primitive::boolean_octets(*self)
    }

    /// Unlike the application form, which carries the value in its length nibble, this
    /// one carries it in a one-octet payload.
    open spec fn context_octets(&self, tag_number: u8) -> Seq<u8> {
        context::context_boolean_octets(tag_number, *self)
    }

    fn encode_to(&self, _tag: ApplicationTag, buffer: &mut Vec<u8>) -> (result: Result<
        (),
        EncodingError,
    >) {
        encode_boolean(buffer, *self)
    }

    fn encode_context_to(&self, tag_number: u8, buffer: &mut Vec<u8>) -> (result: Result<
        (),
        EncodingError,
    >) {
        encode_context_boolean(buffer, tag_number, *self)
    }
}

impl EncodableValue for u32 {
    open spec fn fits(&self) -> bool {
        true
    }

    open spec fn application_octets(&self) -> Seq<u8> {
        primitive::unsigned_octets(*self)
    }

    open spec fn context_octets(&self, tag_number: u8) -> Seq<u8> {
        context::context_unsigned_octets(tag_number, *self)
    }

    fn encode_to(&self, _tag: ApplicationTag, buffer: &mut Vec<u8>) -> (result: Result<
        (),
        EncodingError,
    >) {
        encode_unsigned(buffer, *self)
    }

    fn encode_context_to(&self, tag_number: u8, buffer: &mut Vec<u8>) -> (result: Result<
        (),
        EncodingError,
    >) {
        push_context_unsigned(
            buffer,
            tag_number,
            *self as u64,
            primitive::width_of_unsigned(*self),
        );
        Ok(())
    }
}

impl EncodableValue for i32 {
    open spec fn fits(&self) -> bool {
        true
    }

    open spec fn application_octets(&self) -> Seq<u8> {
        primitive::signed_octets(*self)
    }

    open spec fn context_octets(&self, tag_number: u8) -> Seq<u8> {
        context::context_tagged(
            tag_number,
            octets::signed_bytes(*self as int, primitive::signed_width(*self as int)),
        )
    }

    fn encode_to(&self, _tag: ApplicationTag, buffer: &mut Vec<u8>) -> (result: Result<
        (),
        EncodingError,
    >) {
        encode_signed(buffer, *self)
    }

    fn encode_context_to(&self, tag_number: u8, buffer: &mut Vec<u8>) -> (result: Result<
        (),
        EncodingError,
    >) {
        let ghost before = buffer@;
        // The application form is one initial octet ahead of the content, because
        // the content is at most four octets long.
        let mut whole: Vec<u8> = Vec::new();
        let _ = encode_signed(&mut whole, *self);
        let ghost content = octets::signed_bytes(
            *self as int,
            primitive::signed_width(*self as int),
        );
        proof {
            octets::lemma_pow256_values();
            octets::lemma_signed_round_trip(*self as int, primitive::signed_width(*self as int));
            assert(whole@.len() == 1 + content.len());
            assert(whole@.subrange(1, whole@.len() as int) =~= content);
        }
        let _ = encode_context_tag(buffer, tag_number, whole.len() - 1);
        octets::push_all(buffer, slice_subrange(whole.as_slice(), 1, whole.len()));
        assert(buffer@ =~= before + self.context_octets(tag_number));
        Ok(())
    }
}

impl EncodableValue for Real {
    open spec fn fits(&self) -> bool {
        true
    }

    open spec fn application_octets(&self) -> Seq<u8> {
        primitive::real_octets(*self)
    }

    open spec fn context_octets(&self, tag_number: u8) -> Seq<u8> {
        context::context_real_octets(tag_number, *self)
    }

    fn encode_to(&self, _tag: ApplicationTag, buffer: &mut Vec<u8>) -> (result: Result<
        (),
        EncodingError,
    >) {
        encode_real(buffer, *self)
    }

    fn encode_context_to(&self, tag_number: u8, buffer: &mut Vec<u8>) -> (result: Result<
        (),
        EncodingError,
    >) {
        push_context_unsigned(buffer, tag_number, self.bits as u64, 4);
        Ok(())
    }
}

impl EncodableValue for Double {
    open spec fn fits(&self) -> bool {
        true
    }

    open spec fn application_octets(&self) -> Seq<u8> {
        primitive::double_octets(*self)
    }

    open spec fn context_octets(&self, tag_number: u8) -> Seq<u8> {
        context::context_tagged(tag_number, octets::be_bytes(self.bits as nat, 8))
    }

    fn encode_to(&self, _tag: ApplicationTag, buffer: &mut Vec<u8>) -> (result: Result<
        (),
        EncodingError,
    >) {
        encode_double(buffer, *self)
    }

    fn encode_context_to(&self, tag_number: u8, buffer: &mut Vec<u8>) -> (result: Result<
        (),
        EncodingError,
    >) {
        push_context_unsigned(buffer, tag_number, self.bits, 8);
        Ok(())
    }
}

impl<'a> EncodableValue for &'a str {
    open spec fn fits(&self) -> bool {
        primitive::character_string_fits((*self)@)
    }

    open spec fn application_octets(&self) -> Seq<u8> {
        primitive::character_string_octets((*self)@)
    }

    open spec fn context_octets(&self, tag_number: u8) -> Seq<u8> {
        context::context_tagged(tag_number, seq![0u8] + vstd::utf8::encode_utf8((*self)@))
    }

    fn encode_to(&self, _tag: ApplicationTag, buffer: &mut Vec<u8>) -> (result: Result<
        (),
        EncodingError,
    >) {
        encode_character_string(buffer, *self)
    }

    fn encode_context_to(&self, tag_number: u8, buffer: &mut Vec<u8>) -> (result: Result<
        (),
        EncodingError,
    >) {
        let ghost before = buffer@;
        let text: &[u8] = (*self).as_bytes();
        if text.len() == usize::MAX {
            return Err(EncodingError::BufferOverflow);
        }
        let _ = encode_context_tag(buffer, tag_number, text.len() + 1);
        buffer.push(0);
        octets::push_all(buffer, text);
        assert(buffer@ =~= before + self.context_octets(tag_number));
        Ok(())
    }
}

/// Encoding stream for efficient multi-value encoding.
pub struct EncodingStream {
    buffer: Vec<u8>,
    max_size: usize,
}

impl View for EncodingStream {
    type V = Seq<u8>;

    /// What has been encoded so far.
    closed spec fn view(&self) -> Seq<u8> {
        self.buffer@
    }
}

impl EncodingStream {
    /// The size at which the stream takes no further value.
    pub closed spec fn limit(&self) -> usize {
        self.max_size
    }

    /// Create a new encoding stream.
    pub fn new(max_size: usize) -> (stream: EncodingStream)
        ensures
            stream@ == Seq::<u8>::empty(),
            stream.limit() == max_size,
    {
        EncodingStream { buffer: Vec::new(), max_size }
    }

    /// Encode an application tagged value. A stream that has reached its size
    /// takes no further value; one that has not takes a whole one.
    pub fn encode_tagged<T: EncodableValue>(&mut self, tag: ApplicationTag, value: T) -> (result:
        Result<(), EncodingError>)
        ensures
            appended(
                result,
                old(self)@,
                final(self)@,
                old(self)@.len() < old(self).limit() && value.fits(),
                value.application_octets(),
            ),
            final(self).limit() == old(self).limit(),
    {
        if self.buffer.len() >= self.max_size {
            return Err(EncodingError::BufferOverflow);
        }
        value.encode_to(tag, &mut self.buffer)
    }

    /// Encode a context tagged value.
    pub fn encode_context<T: EncodableValue>(&mut self, tag_number: u8, value: T) -> (result:
        Result<(), EncodingError>)
        ensures
            appended(
                result,
                old(self)@,
                final(self)@,
                old(self)@.len() < old(self).limit() && value.fits(),
                value.context_octets(tag_number),
            ),
            final(self).limit() == old(self).limit(),
    {
        if self.buffer.len() >= self.max_size {
            return Err(EncodingError::BufferOverflow);
        }
        value.encode_context_to(tag_number, &mut self.buffer)
    }

    /// Get the encoded data.
    pub fn data(&self) -> (data: &[u8])
        ensures
            data@ == self@,
    {
        self.buffer.as_slice()
    }

    /// Take the buffer.
    pub fn into_buffer(self) -> (buffer: Vec<u8>)
        ensures
            buffer@ == self@,
    {
        self.buffer
    }

    /// Clear the stream.
    pub fn clear(&mut self)
        ensures
            final(self)@ == Seq::<u8>::empty(),
            final(self).limit() == old(self).limit(),
    {
        self.buffer.clear();
    }
}

/// What a stream makes of reading one value: the value and the position behind
/// it, or the error and the position it was at.
pub open spec fn advanced_by<T>(
    result: Result<T, EncodingError>,
    before: nat,
    after: nat,
    stated: Result<(T, int), EncodingErrorView>,
) -> bool {
    match (result, stated) {
        (Ok(value), Ok((expected, length))) => value == expected && after == before + length,
        (Err(error), Err(expected)) => error@ == expected && after == before,
        _ => false,
    }
}

/// [`advanced_by`] for values that are compared by what they hold.
pub open spec fn advanced_by_viewed<T: View>(
    result: Result<T, EncodingError>,
    before: nat,
    after: nat,
    stated: Result<(T::V, int), EncodingErrorView>,
) -> bool {
    match (result, stated) {
        (Ok(value), Ok((expected, length))) => value@ == expected && after == before + length,
        (Err(error), Err(expected)) => error@ == expected && after == before,
        _ => false,
    }
}

/// Decoding stream for efficient multi-value decoding.
pub struct DecodingStream<'a> {
    data: &'a [u8],
    position: usize,
}

impl<'a> DecodingStream<'a> {
    /// The data that is read from.
    pub closed spec fn source(&self) -> Seq<u8> {
        self.data@
    }

    /// How far reading has come.
    pub closed spec fn at(&self) -> nat {
        self.position as nat
    }

    /// What is still to be read. Nothing is left once a skip went past the end.
    pub open spec fn rest(&self) -> Seq<u8> {
        self.source().subrange(self.at() as int, self.source().len() as int)
    }

    /// Whether reading has not gone past the end of the data.
    pub open spec fn within(&self) -> bool {
        self.at() <= self.source().len()
    }

    /// Create a new decoding stream.
    pub fn new(data: &'a [u8]) -> (stream: DecodingStream<'a>)
        ensures
            stream.source() == data@,
            stream.at() == 0,
            stream.within(),
    {
        DecodingStream { data, position: 0 }
    }

    /// Check if stream has more data.
    pub fn has_data(&self) -> (has: bool)
        ensures
            has == (self.at() < self.source().len()),
    {
        self.position < self.data.len()
    }

    /// Get remaining bytes.
    pub fn remaining(&self) -> (count: usize)
        ensures
            count == if self.within() {
                self.source().len() - self.at()
            } else {
                0
            },
    {
        self.data.len().saturating_sub(self.position)
    }

    /// Peek at the next tag without consuming. Only the tag nibble is looked at.
    pub fn peek_tag(&self) -> (result: Result<ApplicationTag, EncodingError>)
        ensures
            match result {
                Ok(tag) => {
                    &&& self.at() < self.source().len()
                    &&& tag.number() <= 14
                    &&& tag.number() == self.source()[self.at() as int] / 16
                },
                Err(error) => if self.at() >= self.source().len() {
                    error@ == EncodingErrorView::UnexpectedEndOfData
                } else {
                    &&& self.source()[self.at() as int] / 16 == 15
                    &&& error@ == EncodingErrorView::InvalidTag
                },
            },
    {
        if self.position >= self.data.len() {
            return Err(EncodingError::UnexpectedEndOfData);
        }
        ApplicationTag::try_from(self.data[self.position] / 16)
    }

    /// What is still to be read.
    fn tail(&self) -> (tail: &'a [u8])
        requires
            self.within(),
        ensures
            tail@ == self.rest(),
            tail@.len() + self.at() == self.source().len(),
            self.source().len() <= usize::MAX,
    {
        slice_subrange(self.data, self.position, self.data.len())
    }

    /// Decode a Boolean.
    pub fn decode_boolean(&mut self) -> (result: Result<bool, EncodingError>)
        requires
            old(self).within(),
        ensures
            advanced_by(
                result,
                old(self).at(),
                final(self).at(),
                primitive::boolean_at(old(self).rest()),
            ),
            final(self).source() == old(self).source(),
            final(self).within(),
    {
        match primitive::decode_boolean(self.tail()) {
            Ok((value, consumed)) => {
                self.position = self.position + consumed;
                Ok(value)
            },
            Err(error) => Err(error),
        }
    }

    /// Decode an unsigned integer.
    pub fn decode_unsigned(&mut self) -> (result: Result<u32, EncodingError>)
        requires
            old(self).within(),
        ensures
            advanced_by(
                result,
                old(self).at(),
                final(self).at(),
                primitive::unsigned_at(old(self).rest()),
            ),
            final(self).source() == old(self).source(),
            final(self).within(),
    {
        match primitive::decode_unsigned(self.tail()) {
            Ok((value, consumed)) => {
                self.position = self.position + consumed;
                Ok(value)
            },
            Err(error) => Err(error),
        }
    }

    /// Decode a signed integer.
    pub fn decode_signed(&mut self) -> (result: Result<i32, EncodingError>)
        requires
            old(self).within(),
        ensures
            advanced_by(
                result,
                old(self).at(),
                final(self).at(),
                primitive::signed_at(old(self).rest()),
            ),
            final(self).source() == old(self).source(),
            final(self).within(),
    {
        match primitive::decode_signed(self.tail()) {
            Ok((value, consumed)) => {
                self.position = self.position + consumed;
                Ok(value)
            },
            Err(error) => Err(error),
        }
    }

    /// Decode a real number.
    pub fn decode_real(&mut self) -> (result: Result<Real, EncodingError>)
        requires
            old(self).within(),
        ensures
            advanced_by(
                result,
                old(self).at(),
                final(self).at(),
                primitive::real_at(old(self).rest()),
            ),
            final(self).source() == old(self).source(),
            final(self).within(),
    {
        match primitive::decode_real(self.tail()) {
            Ok((value, consumed)) => {
                self.position = self.position + consumed;
                Ok(value)
            },
            Err(error) => Err(error),
        }
    }

    /// Decode a double.
    pub fn decode_double(&mut self) -> (result: Result<Double, EncodingError>)
        requires
            old(self).within(),
        ensures
            advanced_by(
                result,
                old(self).at(),
                final(self).at(),
                primitive::double_at(old(self).rest()),
            ),
            final(self).source() == old(self).source(),
            final(self).within(),
    {
        match primitive::decode_double(self.tail()) {
            Ok((value, consumed)) => {
                self.position = self.position + consumed;
                Ok(value)
            },
            Err(error) => Err(error),
        }
    }

    /// Decode a character string.
    pub fn decode_character_string(&mut self) -> (result: Result<String, EncodingError>)
        requires
            old(self).within(),
        ensures
            advanced_by_viewed(
                result,
                old(self).at(),
                final(self).at(),
                primitive::character_string_at(old(self).rest()),
            ),
            final(self).source() == old(self).source(),
            final(self).within(),
    {
        match primitive::decode_character_string(self.tail()) {
            Ok((value, consumed)) => {
                self.position = self.position + consumed;
                Ok(value)
            },
            Err(error) => Err(error),
        }
    }

    /// Decode an octet string.
    pub fn decode_octet_string(&mut self) -> (result: Result<Vec<u8>, EncodingError>)
        requires
            old(self).within(),
        ensures
            advanced_by_viewed(
                result,
                old(self).at(),
                final(self).at(),
                primitive::octet_string_at(old(self).rest()),
            ),
            final(self).source() == old(self).source(),
            final(self).within(),
    {
        match primitive::decode_octet_string(self.tail()) {
            Ok((value, consumed)) => {
                self.position = self.position + consumed;
                Ok(value)
            },
            Err(error) => Err(error),
        }
    }

    /// Decode an enumerated value.
    pub fn decode_enumerated(&mut self) -> (result: Result<u32, EncodingError>)
        requires
            old(self).within(),
        ensures
            advanced_by(
                result,
                old(self).at(),
                final(self).at(),
                primitive::enumerated_at(old(self).rest()),
            ),
            final(self).source() == old(self).source(),
            final(self).within(),
    {
        match primitive::decode_enumerated(self.tail()) {
            Ok((value, consumed)) => {
                self.position = self.position + consumed;
                Ok(value)
            },
            Err(error) => Err(error),
        }
    }

    /// Decode a date.
    pub fn decode_date(&mut self) -> (result: Result<(u16, u8, u8, u8), EncodingError>)
        requires
            old(self).within(),
        ensures
            advanced_by(
                result,
                old(self).at(),
                final(self).at(),
                primitive::date_at(old(self).rest()),
            ),
            final(self).source() == old(self).source(),
            final(self).within(),
    {
        match primitive::decode_date(self.tail()) {
            Ok((value, consumed)) => {
                self.position = self.position + consumed;
                Ok(value)
            },
            Err(error) => Err(error),
        }
    }

    /// Decode a time.
    pub fn decode_time(&mut self) -> (result: Result<(u8, u8, u8, u8), EncodingError>)
        requires
            old(self).within(),
        ensures
            advanced_by(
                result,
                old(self).at(),
                final(self).at(),
                primitive::time_at(old(self).rest()),
            ),
            final(self).source() == old(self).source(),
            final(self).within(),
    {
        match primitive::decode_time(self.tail()) {
            Ok((value, consumed)) => {
                self.position = self.position + consumed;
                Ok(value)
            },
            Err(error) => Err(error),
        }
    }

    /// Decode an object identifier.
    pub fn decode_object_identifier(&mut self) -> (result: Result<ObjectIdentifier, EncodingError>)
        requires
            old(self).within(),
        ensures
            advanced_by(
                result,
                old(self).at(),
                final(self).at(),
                primitive::object_identifier_at(old(self).rest()),
            ),
            final(self).source() == old(self).source(),
            final(self).within(),
    {
        match primitive::decode_object_identifier(self.tail()) {
            Ok((value, consumed)) => {
                self.position = self.position + consumed;
                Ok(value)
            },
            Err(error) => Err(error),
        }
    }

    /// Skip a value by its tag alone, whether or not all of it is there. A Boolean has
    /// its value in the tag, so nothing follows it. The position stops at the largest
    /// that can be counted.
    pub fn skip_value(&mut self) -> (result: Result<(), EncodingError>)
        requires
            old(self).within(),
        ensures
            match (result, tag::application_tag_at(old(self).rest())) {
                (Ok(_), Ok((kind, length, used))) => {
                    let target = if kind == ApplicationTag::Boolean {
                        old(self).at() + used
                    } else {
                        old(self).at() + used + length
                    };
                    final(self).at() == if target <= usize::MAX {
                        target
                    } else {
                        usize::MAX as int
                    }
                },
                (Err(error), Err(expected)) => error@ == expected && final(self).at()
                    == old(self).at(),
                _ => false,
            },
            final(self).source() == old(self).source(),
    {
        match decode_application_tag(self.tail()) {
            Ok((kind, length, consumed)) => {
                self.position = self.position + consumed;
                if kind != ApplicationTag::Boolean {
                    self.position = self.position.saturating_add(length);
                }
                Ok(())
            },
            Err(error) => Err(error),
        }
    }

    /// Get current position.
    pub fn position(&self) -> (position: usize)
        ensures
            position == self.at(),
    {
        self.position
    }

    /// Set position.
    pub fn set_position(&mut self, position: usize) -> (result: Result<(), EncodingError>)
        ensures
            match result {
                Ok(_) => position <= old(self).source().len() && final(self).at() == position,
                Err(error) => {
                    &&& position > old(self).source().len()
                    &&& error@ == EncodingErrorView::ValueOutOfRange
                    &&& final(self).at() == old(self).at()
                },
            },
            final(self).source() == old(self).source(),
    {
        if position > self.data.len() {
            return Err(EncodingError::ValueOutOfRange);
        }
        self.position = position;
        Ok(())
    }
}

/// What introduces one property of an array: its identifier under context tag 0,
/// then the opening marker of context 1.
pub open spec fn property_prefix(property_id: u32) -> Seq<u8> {
    context::context_tagged(0, octets::be_bytes(property_id as nat, 4)) + tag::opening_octets(1)
}

/// Property array encoder.
pub struct PropertyArrayEncoder {
    buffer: Vec<u8>,
    count: usize,
}

impl View for PropertyArrayEncoder {
    type V = Seq<u8>;

    /// What has been encoded so far.
    closed spec fn view(&self) -> Seq<u8> {
        self.buffer@
    }
}

impl Default for PropertyArrayEncoder {
    fn default() -> (encoder: PropertyArrayEncoder)
        ensures
            encoder@ == Seq::<u8>::empty(),
            encoder.added() == 0,
    {
        PropertyArrayEncoder { buffer: Vec::new(), count: 0 }
    }
}

impl PropertyArrayEncoder {
    /// How many properties have been added.
    pub closed spec fn added(&self) -> nat {
        self.count as nat
    }

    /// Create a new property array encoder.
    pub fn new() -> (encoder: PropertyArrayEncoder)
        ensures
            encoder@ == Seq::<u8>::empty(),
            encoder.added() == 0,
    {
        PropertyArrayEncoder { buffer: Vec::new(), count: 0 }
    }

    /// Add a property value. A value that cannot be encoded leaves only what
    /// introduces it, and is not counted.
    pub fn add_property<T: EncodableValue>(&mut self, property_id: u32, value: T) -> (result:
        Result<(), EncodingError>)
        requires
            old(self).added() < usize::MAX,
        ensures
            match result {
                Ok(_) => {
                    &&& value.fits()
                    &&& final(self)@ == old(self)@ + property_prefix(property_id)
                        + value.application_octets() + tag::closing_octets(1)
                    &&& final(self).added() == old(self).added() + 1
                },
                Err(error) => {
                    &&& !value.fits()
                    &&& error@ == EncodingErrorView::BufferOverflow
                    &&& final(self)@ == old(self)@ + property_prefix(property_id)
                    &&& final(self).added() == old(self).added()
                },
            },
    {
        let ghost before = self.buffer@;
        push_context_unsigned(&mut self.buffer, 0, property_id as u64, 4);
        let _ = encode_opening_tag(&mut self.buffer, 1);
        assert(self.buffer@ =~= before + property_prefix(property_id));
        match value.encode_to(ApplicationTag::Null, &mut self.buffer) {
            Ok(_) => {},
            Err(error) => return Err(error),
        }
        let _ = encode_closing_tag(&mut self.buffer, 1);
        self.count = self.count + 1;
        Ok(())
    }

    /// Get the encoded data.
    pub fn data(&self) -> (data: &[u8])
        ensures
            data@ == self@,
    {
        self.buffer.as_slice()
    }

    /// Get the property count.
    pub fn count(&self) -> (count: usize)
        ensures
            count == self.added(),
    {
        self.count
    }

    /// Clear the encoder.
    pub fn clear(&mut self)
        ensures
            final(self)@ == Seq::<u8>::empty(),
            final(self).added() == 0,
    {
        self.buffer.clear();
        self.count = 0;
    }
}

/// The length that the context tag of an error class or code announces.
pub open spec fn error_width(value: u32) -> nat {
    if value <= 0xFF {
        1
    } else if value <= 0xFFFF {
        2
    } else {
        4
    }
}

/// An error class or code: its context tag, then the enumerated value.
pub open spec fn error_part(tag_number: u8, value: u32) -> Seq<u8> {
    tag::context_header(tag_number, error_width(value)) + primitive::enumerated_octets(value)
}

/// Error encoder for BACnet error PDUs.
pub struct ErrorEncoder {
    buffer: Vec<u8>,
}

impl View for ErrorEncoder {
    type V = Seq<u8>;

    /// What has been encoded so far.
    closed spec fn view(&self) -> Seq<u8> {
        self.buffer@
    }
}

impl Default for ErrorEncoder {
    fn default() -> (encoder: ErrorEncoder)
        ensures
            encoder@ == Seq::<u8>::empty(),
    {
        ErrorEncoder { buffer: Vec::new() }
    }
}

/// The length that the context tag of an error class or code announces.
fn width_of_error(value: u32) -> (width: usize)
    ensures
        width == error_width(value),
{
    if value <= 0xFF {
        1
    } else if value <= 0xFFFF {
        2
    } else {
        4
    }
}

impl ErrorEncoder {
    /// Create a new error encoder.
    pub fn new() -> (encoder: ErrorEncoder)
        ensures
            encoder@ == Seq::<u8>::empty(),
    {
        ErrorEncoder { buffer: Vec::new() }
    }

    /// Encode an error class and code.
    pub fn encode_error(&mut self, error_class: u32, error_code: u32) -> (result: Result<
        (),
        EncodingError,
    >)
        ensures
            result is Ok,
            final(self)@ == old(self)@ + error_part(0, error_class) + error_part(1, error_code),
    {
        let ghost before = self.buffer@;
        let _ = encode_context_tag(&mut self.buffer, 0, width_of_error(error_class));
        encode_enumerated(&mut self.buffer, error_class);
        let _ = encode_context_tag(&mut self.buffer, 1, width_of_error(error_code));
        encode_enumerated(&mut self.buffer, error_code);
        assert(self.buffer@ =~= before + error_part(0, error_class) + error_part(1, error_code));
        Ok(())
    }

    /// Get the encoded data.
    pub fn data(&self) -> (data: &[u8])
        ensures
            data@ == self@,
    {
        self.buffer.as_slice()
    }

    /// Clear the encoder.
    pub fn clear(&mut self)
        ensures
            final(self)@ == Seq::<u8>::empty(),
    {
        self.buffer.clear();
    }
}

} // verus!
