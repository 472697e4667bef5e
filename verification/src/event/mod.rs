//! Intrinsic reporting: when an object's event condition becomes a transition, and
//! whom it is reported to.

pub mod engine;
pub mod laws;
pub mod notification;

pub use engine::{AddressedNotification, EventEngine};
pub use notification::{
    EventNotification, NotificationParameters, PropertyStates, StatusFlags,
};
