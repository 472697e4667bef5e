//! Where a peer is reached.

use crate::table::Key;
use vstd::prelude::*;

verus! {

/// An internet address with its port.
#[derive(Debug, Clone, Copy, PartialEq, Eq, Hash, Structural)]
pub enum SocketAddress {
    /// An address of four octets, most significant first.
    V4 { address: u32, port: u16 },
    /// An address of sixteen octets, most significant first.
    V6 { address: u128, port: u16, flow_info: u32, scope: u32 },
}

impl Key for SocketAddress {
    fn is_same(&self, other: &SocketAddress) -> (same: bool) {
        *self == *other
    }
}

} // verus!
