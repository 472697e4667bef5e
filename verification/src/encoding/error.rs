//! What can go wrong while encoding or decoding.

use vstd::prelude::*;

verus! {

/// Errors that can occur during encoding and decoding.
#[derive(Debug, Clone)]
pub enum EncodingError {
    /// Buffer overflow during encoding
    BufferOverflow,
    /// Buffer underflow during decoding
    BufferUnderflow,
    /// Invalid tag number encountered
    InvalidTag,
    /// Invalid length value
    InvalidLength,
    /// Unexpected end of data during decoding
    UnexpectedEndOfData,
    /// Invalid encoding format
    InvalidFormat(String),
    /// Value out of valid range
    ValueOutOfRange,
}

/// An [`EncodingError`] with its message as a sequence of characters.
pub enum EncodingErrorView {
    BufferOverflow,
    BufferUnderflow,
    InvalidTag,
    InvalidLength,
    UnexpectedEndOfData,
    InvalidFormat(Seq<char>),
    ValueOutOfRange,
}

impl View for EncodingError {
    type V = EncodingErrorView;

    open spec fn view(&self) -> EncodingErrorView {
        match self {
            EncodingError::BufferOverflow => EncodingErrorView::BufferOverflow,
            EncodingError::BufferUnderflow => EncodingErrorView::BufferUnderflow,
            EncodingError::InvalidTag => EncodingErrorView::InvalidTag,
            EncodingError::InvalidLength => EncodingErrorView::InvalidLength,
            EncodingError::UnexpectedEndOfData => EncodingErrorView::UnexpectedEndOfData,
            EncodingError::InvalidFormat(message) => EncodingErrorView::InvalidFormat(message@),
            EncodingError::ValueOutOfRange => EncodingErrorView::ValueOutOfRange,
        }
    }
}

impl EncodingErrorView {
    /// Which kind of error this is, whatever its message.
    pub open spec fn kind(self) -> u8 {
        match self {
            EncodingErrorView::BufferOverflow => 0,
            EncodingErrorView::BufferUnderflow => 1,
            EncodingErrorView::InvalidTag => 2,
            EncodingErrorView::InvalidLength => 3,
            EncodingErrorView::UnexpectedEndOfData => 4,
            EncodingErrorView::InvalidFormat(_) => 5,
            EncodingErrorView::ValueOutOfRange => 6,
        }
    }

    /// The text that describes this error to a person.
    pub open spec fn text(self) -> Seq<char> {
        match self {
            EncodingErrorView::BufferOverflow => "Buffer overflow during encoding"@,
            EncodingErrorView::BufferUnderflow => "Buffer underflow during decoding"@,
            EncodingErrorView::InvalidTag => "Invalid tag number encountered"@,
            EncodingErrorView::InvalidLength => "Invalid length value"@,
            EncodingErrorView::UnexpectedEndOfData => "Unexpected end of data"@,
            EncodingErrorView::InvalidFormat(message) => "Invalid format: "@ + message,
            EncodingErrorView::ValueOutOfRange => "Value out of valid range"@,
        }
    }
}

impl EncodingError {
    /// An [`EncodingError::InvalidFormat`] with the given message.
    pub fn invalid_format(message: &str) -> (error: EncodingError)
        ensures
            error@ == EncodingErrorView::InvalidFormat(message@),
    {
        EncodingError::InvalidFormat(message.to_owned())
    }

    /// The text that describes this error to a person.
    pub fn message(&self) -> (text: String)
        ensures
            text@ == self@.text(),
    {
        match self {
            EncodingError::BufferOverflow => "Buffer overflow during encoding".to_owned(),
            EncodingError::BufferUnderflow => "Buffer underflow during decoding".to_owned(),
            EncodingError::InvalidTag => "Invalid tag number encountered".to_owned(),
            EncodingError::InvalidLength => "Invalid length value".to_owned(),
            EncodingError::UnexpectedEndOfData => "Unexpected end of data".to_owned(),
            EncodingError::InvalidFormat(message) => {
                "Invalid format: ".to_owned().concat(message.as_str())
            },
            EncodingError::ValueOutOfRange => "Value out of valid range".to_owned(),
        }
    }

    /// Which kind of error this is, whatever its message.
    pub fn kind(&self) -> (kind: u8)
        ensures
            kind == self@.kind(),
    {
        match self {
            EncodingError::BufferOverflow => 0,
            EncodingError::BufferUnderflow => 1,
            EncodingError::InvalidTag => 2,
            EncodingError::InvalidLength => 3,
            EncodingError::UnexpectedEndOfData => 4,
            EncodingError::InvalidFormat(_) => 5,
            EncodingError::ValueOutOfRange => 6,
        }
    }

    /// A copy of this error.
    pub fn duplicate(&self) -> (copy: EncodingError)
        ensures
            copy@ == self@,
            copy == *self,
    {
        match self {
            EncodingError::BufferOverflow => EncodingError::BufferOverflow,
            EncodingError::BufferUnderflow => EncodingError::BufferUnderflow,
            EncodingError::InvalidTag => EncodingError::InvalidTag,
            EncodingError::InvalidLength => EncodingError::InvalidLength,
            EncodingError::UnexpectedEndOfData => EncodingError::UnexpectedEndOfData,
            EncodingError::InvalidFormat(message) => EncodingError::InvalidFormat(message.clone()),
            EncodingError::ValueOutOfRange => EncodingError::ValueOutOfRange,
        }
    }
}

/// Whether an outcome is the stated one: the same error, or the same value with
/// the same number of octets consumed.
pub open spec fn same_outcome<T>(
    actual: Result<(T, usize), EncodingError>,
    stated: Result<(T, int), EncodingErrorView>,
) -> bool {
    match (actual, stated) {
        (Ok((value, used)), Ok((expected, length))) => value == expected && used == length,
        (Err(error), Err(expected)) => error@ == expected,
        _ => false,
    }
}

/// [`same_outcome`] for values that are compared by what they hold.
pub open spec fn same_viewed_outcome<T: View>(
    actual: Result<(T, usize), EncodingError>,
    stated: Result<(T::V, int), EncodingErrorView>,
) -> bool {
    match (actual, stated) {
        (Ok((value, used)), Ok((expected, length))) => value@ == expected && used == length,
        (Err(error), Err(expected)) => error@ == expected,
        _ => false,
    }
}

} // verus!
