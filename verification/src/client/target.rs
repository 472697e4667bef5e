//! Whom a request is aimed at, and what that peer can take.

use crate::address::SocketAddress;
use vstd::prelude::*;

verus! {

/// Which directions a device can split messages in.
#[derive(Debug, Clone, Copy, PartialEq, Eq, Structural)]
pub enum Segmentation {
    /// Sends and accepts segments.
    Both,
    /// Sends segments only.
    Transmit,
    /// Accepts segments only.
    Receive,
    /// Neither.
    NoSegmentation,
}

/// A station on a network behind a router.
#[derive(Debug, Clone, PartialEq, Eq)]
pub struct NetworkAddress {
    /// The network number.
    pub network: u16,
    /// The station's address on that network.
    pub address: Vec<u8>,
}

/// A [`NetworkAddress`] with its octets as a sequence.
#[verifier::ext_equal]
pub struct NetworkAddressView {
    pub network: u16,
    pub address: Seq<u8>,
}

impl View for NetworkAddress {
    type V = NetworkAddressView;

    open spec fn view(&self) -> NetworkAddressView {
        NetworkAddressView { network: self.network, address: self.address@ }
    }
}

/// What an optional route says.
pub open spec fn route_view(route: Option<NetworkAddress>) -> Option<NetworkAddressView> {
    match route {
        Some(route) => Some(route@),
        None => None,
    }
}

impl NetworkAddress {
    /// A station on a network.
    pub fn new(network: u16, address: Vec<u8>) -> (station: NetworkAddress)
        ensures
            station == (NetworkAddress { network, address }),
    {
        NetworkAddress { network, address }
    }

    /// This address once more.
    pub fn duplicate(&self) -> (copy: NetworkAddress)
        ensures
            copy@ == self@,
    {
        NetworkAddress { network: self.network, address: self.address.clone() }
    }
}

/// A route once more.
pub fn duplicate_route(route: &Option<NetworkAddress>) -> (copy: Option<NetworkAddress>)
    ensures
        route_view(copy) == route_view(*route),
{
    match route {
        Some(route) => Some(route.duplicate()),
        None => None,
    }
}

/// What a device said of itself.
#[derive(Debug, Clone, Copy, PartialEq, Eq, Structural)]
pub struct DeviceCapabilities {
    /// The largest APDU it accepts.
    pub max_apdu: u32,
    /// Which directions it can split messages in.
    pub segmentation: Segmentation,
}

/// Whom a request is aimed at.
#[derive(Debug, Clone, PartialEq, Eq)]
pub struct BacnetTarget {
    /// Where packets for it go.
    pub address: SocketAddress,
    /// Its address behind a router, where it is.
    pub route: Option<NetworkAddress>,
    /// What it said of itself, where it did.
    pub capabilities: Option<DeviceCapabilities>,
}

/// A [`BacnetTarget`] with its route as values.
#[verifier::ext_equal]
pub struct TargetView {
    pub address: SocketAddress,
    pub route: Option<NetworkAddressView>,
    pub capabilities: Option<DeviceCapabilities>,
}

impl View for BacnetTarget {
    type V = TargetView;

    open spec fn view(&self) -> TargetView {
        TargetView {
            address: self.address,
            route: route_view(self.route),
            capabilities: self.capabilities,
        }
    }
}

/// The largest size that is within a limit; the smallest one where none is.
pub open spec fn size_within(limit: u32) -> nat {
    if limit >= 1476 {
        1476
    } else if limit >= 1024 {
        1024
    } else if limit >= 480 {
        480
    } else if limit >= 206 {
        206
    } else if limit >= 128 {
        128
    } else {
        50
    }
}

/// The APDU sizes a device can name.
#[derive(Debug, Clone, Copy, PartialEq, Eq, Structural)]
pub enum MaxApduSize {
    Up50,
    Up128,
    Up206,
    Up480,
    Up1024,
    Up1476,
}

impl MaxApduSize {
    /// The octets this size stands for.
    pub open spec fn octets(self) -> nat {
        match self {
            MaxApduSize::Up50 => 50,
            MaxApduSize::Up128 => 128,
            MaxApduSize::Up206 => 206,
            MaxApduSize::Up480 => 480,
            MaxApduSize::Up1024 => 1024,
            MaxApduSize::Up1476 => 1476,
        }
    }

    /// The octets this size stands for.
    pub fn size(self) -> (size: usize)
        ensures
            size == self.octets(),
    {
        match self {
            MaxApduSize::Up50 => 50,
            MaxApduSize::Up128 => 128,
            MaxApduSize::Up206 => 206,
            MaxApduSize::Up480 => 480,
            MaxApduSize::Up1024 => 1024,
            MaxApduSize::Up1476 => 1476,
        }
    }

    /// The largest size that is within a limit; the smallest one where none is.
    pub fn at_most(limit: u32) -> (size: MaxApduSize)
        ensures
            size.octets() == size_within(limit),
    {
        if limit >= 1476 {
            MaxApduSize::Up1476
        } else if limit >= 1024 {
            MaxApduSize::Up1024
        } else if limit >= 480 {
            MaxApduSize::Up480
        } else if limit >= 206 {
            MaxApduSize::Up206
        } else if limit >= 128 {
            MaxApduSize::Up128
        } else {
            MaxApduSize::Up50
        }
    }
}

/// How many segments a device accepts of one message.
#[derive(Debug, Clone, Copy, PartialEq, Eq, Structural)]
pub enum MaxSegments {
    Unspecified,
    Two,
    Four,
    Eight,
    Sixteen,
    ThirtyTwo,
    SixtyFour,
    GreaterThan64,
}

/// What a peer's advertised capabilities mean for a request aimed at it.
#[derive(Debug, Clone, Copy, PartialEq, Eq, Structural)]
pub struct PeerLimits {
    /// The ceiling on one segment of a request to it.
    pub max_apdu: usize,
    /// Whether it splits its answers.
    pub sends_segments: bool,
    /// Whether it takes split requests.
    pub accepts_segments: bool,
}

/// What a peer's capabilities mean; one that said nothing is taken to be the most
/// capable.
pub open spec fn limits_of(capabilities: Option<DeviceCapabilities>) -> PeerLimits {
    match capabilities {
        Some(capabilities) => PeerLimits {
            max_apdu: size_within(capabilities.max_apdu) as usize,
            sends_segments: capabilities.segmentation is Both || capabilities.segmentation
                is Transmit,
            accepts_segments: capabilities.segmentation is Both || capabilities.segmentation
                is Receive,
        },
        None => PeerLimits { max_apdu: 1476, sends_segments: true, accepts_segments: true },
    }
}

/// Read a peer's limits, assuming the most capable peer when it has said nothing: a
/// too-large request then earns an Abort the caller can act on, where assuming the
/// smallest APDU would cap every uncached device.
pub fn peer_limits(target: &BacnetTarget) -> (limits: PeerLimits)
    ensures
        limits == limits_of(target.capabilities),
{
    match target.capabilities {
        Some(capabilities) => {
            let size = MaxApduSize::at_most(capabilities.max_apdu);
            PeerLimits {
                max_apdu: size.size(),
                sends_segments: matches!(
                    capabilities.segmentation,
                    Segmentation::Both | Segmentation::Transmit
                ),
                accepts_segments: matches!(
                    capabilities.segmentation,
                    Segmentation::Both | Segmentation::Receive
                ),
            }
        },
        None => PeerLimits {
            max_apdu: MaxApduSize::Up1476.size(),
            sends_segments: true,
            accepts_segments: true,
        },
    }
}

/// The size used for a peer is the largest standard size within what it said, or
/// the smallest where it said less than that.
pub proof fn law_requests_fit_the_peer(capabilities: DeviceCapabilities, size: MaxApduSize)
    ensures
        limits_of(Some(capabilities)).max_apdu <= capabilities.max_apdu
            || limits_of(Some(capabilities)).max_apdu == 50,
        size.octets() <= capabilities.max_apdu ==> size.octets() <= limits_of(
            Some(capabilities),
        ).max_apdu,
{
}

} // verus!
