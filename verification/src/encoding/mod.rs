//! The tag-length-value encoding of BACnet data.
//!
//! Each data element consists of a tag that identifies its type and context, the
//! length of its value, and the value itself.
//!
//! | Tag | Type | Description |
//! |-----|------|-------------|
//! | 0 | Null | No value |
//! | 1 | Boolean | True/False |
//! | 2 | Unsigned Integer | 8, 16, 24, or 32-bit unsigned |
//! | 3 | Signed Integer | 8, 16, 24, or 32-bit signed |
//! | 4 | Real | 32-bit IEEE 754 float |
//! | 5 | Double | 64-bit IEEE 754 double |
//! | 6 | Octet String | Arbitrary byte sequence |
//! | 7 | Character String | Text with encoding indicator |
//! | 8 | Bit String | Bit field with unused bits count |
//! | 9 | Enumerated | Unsigned integer representing enumeration |
//! | 10 | Date | Year, month, day, day-of-week |
//! | 11 | Time | Hour, minute, second, hundredths |
//! | 12 | Object Identifier | Object type and instance |
//!
//! Encoding functions append to the buffer they are given; decoding functions
//! return the decoded value and how many octets it occupied. For every type the
//! laws beside its functions state that what was written is read back, whatever
//! follows it in the buffer.

pub mod advanced;
pub mod analyzer;
pub mod bitstring;
pub mod buffer;
pub mod cache;
pub mod context;
pub mod error;
pub mod laws;
pub mod manager;
pub mod primitive;
pub mod stream;
pub mod tag;
pub mod upkeep;

pub use analyzer::{EncodingAnalyzer, EncodingStatistics};
pub use cache::EncodingCache;
pub use context::{
    decode_context_boolean, decode_context_enumerated, decode_context_object_id,
    decode_context_real, decode_context_unsigned, encode_context_boolean,
    encode_context_enumerated, encode_context_object_id, encode_context_real,
    encode_context_unsigned,
};
pub use error::EncodingError;
pub use manager::{EncodingConfig, EncodingManager, ValidationLevel};
pub use primitive::{
    decode_boolean, decode_character_string, decode_date, decode_double, decode_enumerated,
    decode_object_identifier, decode_octet_string, decode_real, decode_signed, decode_signed64,
    decode_time, decode_unsigned, decode_unsigned64, encode_boolean, encode_character_string,
    encode_date, encode_double, encode_enumerated, encode_object_identifier, encode_octet_string,
    encode_real, encode_signed, encode_signed64, encode_time, encode_unsigned, encode_unsigned64,
};
pub use stream::{
    DecodingStream, EncodableValue, EncodingStream, ErrorEncoder, PropertyArrayEncoder,
};
pub use tag::{
    decode_application_tag, decode_closing_tag, decode_context_tag, decode_opening_tag, decode_tag,
    encode_application_tag, encode_closing_tag, encode_context_tag, encode_opening_tag,
    is_closing_tag, is_context_tag, is_opening_tag, ApplicationTag, BACnetTag,
};
