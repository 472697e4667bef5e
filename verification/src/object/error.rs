//! What an object answers when it refuses.

use crate::property::value::{PropertyValue, PropertyValueView};
use vstd::prelude::*;

verus! {

/// Why an object or the database refused.
#[derive(Debug, Clone, PartialEq, Eq)]
pub enum ObjectError {
    /// There is no such object.
    NotFound,
    /// The object has no such property.
    UnknownProperty,
    /// The property does not take writes.
    PropertyNotWritable,
    /// The value has the wrong type for the property.
    InvalidPropertyType,
    /// The value has the right type and is out of bounds.
    InvalidValue(String),
    /// The database would no longer be consistent.
    InvalidConfiguration(String),
    /// The property is writable, but not now.
    WriteAccessDenied,
    /// The object does not offer this at all.
    OptionalFunctionalityNotSupported,
}

/// An [`ObjectError`] with its text as characters.
pub enum ObjectErrorView {
    NotFound,
    UnknownProperty,
    PropertyNotWritable,
    InvalidPropertyType,
    InvalidValue(Seq<char>),
    InvalidConfiguration(Seq<char>),
    WriteAccessDenied,
    OptionalFunctionalityNotSupported,
}

impl View for ObjectError {
    type V = ObjectErrorView;

    open spec fn view(&self) -> ObjectErrorView {
        match *self {
            ObjectError::NotFound => ObjectErrorView::NotFound,
            ObjectError::UnknownProperty => ObjectErrorView::UnknownProperty,
            ObjectError::PropertyNotWritable => ObjectErrorView::PropertyNotWritable,
            ObjectError::InvalidPropertyType => ObjectErrorView::InvalidPropertyType,
            ObjectError::InvalidValue(text) => ObjectErrorView::InvalidValue(text@),
            ObjectError::InvalidConfiguration(text) => ObjectErrorView::InvalidConfiguration(text@),
            ObjectError::WriteAccessDenied => ObjectErrorView::WriteAccessDenied,
            ObjectError::OptionalFunctionalityNotSupported => {
                ObjectErrorView::OptionalFunctionalityNotSupported
            },
        }
    }
}

/// A value that is refused with a sentence.
pub fn invalid_value(text: &str) -> (error: ObjectError)
    ensures
        error@ == ObjectErrorView::InvalidValue(text@),
{
    ObjectError::InvalidValue(text.to_owned())
}

/// A configuration that is refused with a sentence.
pub fn invalid_configuration(text: &str) -> (error: ObjectError)
    ensures
        error@ == ObjectErrorView::InvalidConfiguration(text@),
{
    ObjectError::InvalidConfiguration(text.to_owned())
}

/// Whether a read gave the stated value or the stated refusal.
pub open spec fn same_reading(
    actual: Result<PropertyValue, ObjectError>,
    stated: Result<PropertyValueView, ObjectErrorView>,
) -> bool {
    match (actual, stated) {
        (Ok(value), Ok(expected)) => value.model() == expected,
        (Err(error), Err(expected)) => error@ == expected,
        _ => false,
    }
}

/// Whether a handler that may leave the property to others gave what is stated.
pub open spec fn same_offer(
    actual: Option<Result<PropertyValue, ObjectError>>,
    stated: Option<Result<PropertyValueView, ObjectErrorView>>,
) -> bool {
    match (actual, stated) {
        (None, None) => true,
        (Some(result), Some(expected)) => same_reading(result, expected),
        _ => false,
    }
}

/// Whether a write left the stated state, or was refused as stated and left what
/// was there.
pub open spec fn same_writing<T>(
    actual: Result<(), ObjectError>,
    before: T,
    after: T,
    stated: Result<T, ObjectErrorView>,
) -> bool {
    match (actual, stated) {
        (Ok(_), Ok(expected)) => after == expected,
        (Err(error), Err(expected)) => error@ == expected && after == before,
        _ => false,
    }
}

/// Whether a handler that may leave the property to others wrote as stated.
pub open spec fn same_write_offer<T>(
    actual: Option<Result<(), ObjectError>>,
    before: T,
    after: T,
    stated: Option<Result<T, ObjectErrorView>>,
) -> bool {
    match (actual, stated) {
        (None, None) => after == before,
        (Some(result), Some(expected)) => same_writing(result, before, after, expected),
        _ => false,
    }
}

/// What an object answers for a property that no handler took.
pub open spec fn or_unknown(
    offer: Option<Result<PropertyValueView, ObjectErrorView>>,
) -> Result<PropertyValueView, ObjectErrorView> {
    match offer {
        Some(result) => result,
        None => Err(ObjectErrorView::UnknownProperty),
    }
}

/// What an object answers for a property that no handler took.
pub fn answered(offer: Option<Result<PropertyValue, ObjectError>>) -> (result: Result<
    PropertyValue,
    ObjectError,
>)
    ensures
        forall|stated: Option<Result<PropertyValueView, ObjectErrorView>>| #[trigger]
            same_offer(offer, stated) ==> same_reading(result, or_unknown(stated)),
{
    match offer {
        Some(result) => result,
        None => Err(ObjectError::UnknownProperty),
    }
}

} // verus!
