//! A concurrent client: what it says on the wire, how long messages are split and
//! joined, and what its endpoint decides.

pub mod address_cache;
pub mod apdu;
pub mod conduct;
pub mod discovery;
pub mod endpoint;
pub mod error;
pub mod findings;
pub mod incoming;
pub mod laws;
pub mod split;
pub mod target;
pub mod transfer;

pub use address_cache::{CachedDevice, CachedLine};
pub use apdu::{
    AbortReason, Apdu, ConfirmedServiceChoice, Packet, RejectReason, UnconfirmedServiceChoice,
};
pub use conduct::{
    Action, ActiveDiscovery, CovKey, EndpointCommand, Incoming, PendingTransaction, TransactionKey,
};
pub use discovery::{DiscoveredRouter, PropertyAt, Sightings};
pub use endpoint::Endpoint;
pub use error::{ClientError, ErrorClass, ErrorCode};
pub use incoming::FrameKind;
pub use split::RequestFrames;
pub use target::{
    BacnetTarget, DeviceCapabilities, MaxApduSize, MaxSegments, NetworkAddress, PeerLimits,
    Segmentation,
};
pub use transfer::{OutboundSegments, Reassembly, SegmentOutcome};
