//! What kind of frame arrived, and which of its octets are a notification.

use crate::client::apdu::{Apdu, ApduView, ConfirmedServiceChoice, UnconfirmedServiceChoice};
use vstd::prelude::*;

verus! {

/// The first octet of an unconfirmed request.
pub const UNCONFIRMED_REQUEST: u8 = 0x10;

/// How a frame is taken.
#[derive(Debug, Clone, Copy, PartialEq, Eq, Structural)]
pub enum FrameKind {
    /// A network-layer message: it may announce a router.
    NetworkMessage,
    /// An unconfirmed request: it may announce a device or carry a notification.
    Unconfirmed,
    /// Anything else an application says.
    Application,
}

impl FrameKind {
    /// The kind of a frame: what the network header says comes first, and then the
    /// first octet of the message.
    pub open spec fn of_frame(network_message: bool, payload: Seq<u8>) -> FrameKind {
        if network_message {
            FrameKind::NetworkMessage
        } else if payload.len() > 0 && payload[0] == UNCONFIRMED_REQUEST {
            FrameKind::Unconfirmed
        } else {
            FrameKind::Application
        }
    }

    /// Tell how a frame is taken.
    pub fn of(network_message: bool, payload: &[u8]) -> (kind: FrameKind)
        ensures
            kind == FrameKind::of_frame(network_message, payload@),
    {
        if network_message {
            FrameKind::NetworkMessage
        } else if payload.len() > 0 && payload[0] == UNCONFIRMED_REQUEST {
            FrameKind::Unconfirmed
        } else {
            FrameKind::Application
        }
    }
}

/// The parameters of a notification that a message holds whole, asked for or not.
pub open spec fn notification_octets(apdu: ApduView) -> Option<Seq<u8>> {
    match apdu {
        ApduView::UnconfirmedRequest {
            service_choice: UnconfirmedServiceChoice::UnconfirmedCOVNotification,
            service_data,
        } => Some(service_data),
        ApduView::ConfirmedRequest {
            segmented: false,
            service_choice: ConfirmedServiceChoice::ConfirmedCovNotification,
            service_data,
            ..
        } => Some(service_data),
        _ => None,
    }
}

/// Find the parameters of a notification. One that comes in pieces has none to read:
/// a piece taken for the whole would be misread as malformed.
pub fn notification_parameters(apdu: &Apdu) -> (parameters: Option<&Vec<u8>>)
    ensures
        match parameters {
            Some(octets) => notification_octets(apdu@) == Some(octets@),
            None => notification_octets(apdu@) is None,
        },
{
    match apdu {
        Apdu::UnconfirmedRequest { service_choice, service_data } => match service_choice {
            UnconfirmedServiceChoice::UnconfirmedCOVNotification => Some(service_data),
            _ => None,
        },
        Apdu::ConfirmedRequest { segmented, service_choice, service_data, .. } => {
            if *segmented {
                None
            } else {
                match service_choice {
                    ConfirmedServiceChoice::ConfirmedCovNotification => Some(service_data),
                    _ => None,
                }
            }
        },
        _ => None,
    }
}

} // verus!
