//! BACnet objects and the database that hosts them.

pub mod analog;
pub mod base;
pub mod binary;
pub mod calendar;
pub mod common;
pub mod database;
pub mod device;
pub mod either;
pub mod error;
pub mod hostable;
pub mod hosted;
pub mod hosting;
pub mod identifier;
pub mod intrinsic;
pub mod laws;
pub mod listings;
pub mod management;
pub mod multistate;
pub mod notification_class;
pub mod numbers;
pub mod reporting;
pub mod schedule;
pub mod state;
pub mod units;

pub use analog::{AnalogInput, AnalogOutput, AnalogValue};
pub use base::BacnetObject;
pub use binary::{BinaryInput, BinaryOutput, BinaryPV, BinaryValue, Polarity};
pub use calendar::Calendar;
pub use common::{LocalOverride, OptionalProperties, OverrideWrites, Time};
pub use database::{DatabaseBuilder, DatabaseStatistics, ObjectDatabase};
pub use device::Device;
pub use either::EitherObject;
pub use error::ObjectError;
pub use hostable::Hostable;
pub use hosted::HostedObject;
pub use identifier::{ObjectIdentifier, ObjectType, PropertyIdentifier, UnnamedType};
pub use multistate::{MultiStateInput, MultiStateOutput, MultiStateValue};
pub use notification_class::NotificationClass;
pub use schedule::Schedule;
pub use state::{EventState, Reliability};
pub use units::EngineeringUnits;
