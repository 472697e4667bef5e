//! Property values: what objects hold and services carry.

pub mod calendar;
pub mod codec;
pub mod complex;
pub mod laws;
pub mod list_round_trip;
pub mod round_trip;
pub mod value;

pub use calendar::{CalendarEntryValue, DateRangeValue, ANY, UNSPECIFIED_YEAR};
pub use value::{
    AddressBindingValue, BacnetAddress, CovSubscriptionValue, DailyScheduleValue, DestinationValue,
    ObjectPropertyReference, PropertyValue, Recipient, RecipientProcess, SpecialEventPeriod,
    SpecialEventValue, TimeValueValue, TimestampValue, ValueSourceValue,
};
