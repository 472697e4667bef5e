//! What goes wrong for a client, and what an answer means.

use crate::client::apdu::{
    AbortReason, Apdu, ApduView, ConfirmedServiceChoice, RejectReason,
};
use crate::encoding::error::EncodingError;
use vstd::prelude::*;

verus! {

/// The class of a BACnet error, by its number on the wire.
#[derive(Debug, Clone, Copy, PartialEq, Eq, Structural)]
pub struct ErrorClass {
    pub number: u32,
}

/// The code of a BACnet error, by its number on the wire.
#[derive(Debug, Clone, Copy, PartialEq, Eq, Structural)]
pub struct ErrorCode {
    pub number: u32,
}

/// Errors a client's request can end in.
#[derive(Debug)]
pub enum ClientError {
    /// An underlying socket operation failed, with what the system said of it.
    Io(String),
    /// A request could not be encoded, or a response could not be decoded, using
    /// the BACnet encoding rules.
    Encoding(EncodingError),
    /// A response was malformed or could not be interpreted.
    Decode(String),
    /// No response was received within the configured timeout.
    Timeout,
    /// A response was expected but the peer returned nothing usable.
    NoResponse,
    /// The asynchronous client endpoint stopped before completing the request.
    EndpointClosed,
    /// Every BACnet invoke ID is currently assigned to an outstanding request.
    TooManyTransactions,
    /// The remote device rejected the request at the application layer.
    Rejected(RejectReason),
    /// The remote device aborted the transaction.
    Abort(AbortReason),
    /// The device returned a BACnet `Error` PDU (or a per-property error inside a
    /// ReadPropertyMultiple result), identified by its error class and code.
    ///
    /// The distinction usually matters: an unknown object means the point is gone
    /// and asking again is pointless, while a resource error means the device was
    /// merely busy.
    PropertyError {
        /// BACnet error class.
        class: ErrorClass,
        /// BACnet error code.
        code: ErrorCode,
    },
    /// A supplied address could not be parsed or resolved.
    AddressParse(String),
}

/// A [`ClientError`] with its text as characters.
pub enum ClientErrorView {
    Io(Seq<char>),
    Encoding(EncodingError),
    Decode(Seq<char>),
    Timeout,
    NoResponse,
    EndpointClosed,
    TooManyTransactions,
    Rejected(RejectReason),
    Abort(AbortReason),
    PropertyError { class: ErrorClass, code: ErrorCode },
    AddressParse(Seq<char>),
}

impl View for ClientError {
    type V = ClientErrorView;

    open spec fn view(&self) -> ClientErrorView {
        match *self {
            ClientError::Io(text) => ClientErrorView::Io(text@),
            ClientError::Encoding(error) => ClientErrorView::Encoding(error),
            ClientError::Decode(text) => ClientErrorView::Decode(text@),
            ClientError::Timeout => ClientErrorView::Timeout,
            ClientError::NoResponse => ClientErrorView::NoResponse,
            ClientError::EndpointClosed => ClientErrorView::EndpointClosed,
            ClientError::TooManyTransactions => ClientErrorView::TooManyTransactions,
            ClientError::Rejected(reason) => ClientErrorView::Rejected(reason),
            ClientError::Abort(reason) => ClientErrorView::Abort(reason),
            ClientError::PropertyError { class, code } => ClientErrorView::PropertyError {
                class,
                code,
            },
            ClientError::AddressParse(text) => ClientErrorView::AddressParse(text@),
        }
    }
}

/// What a caller hears.
pub open spec fn answer_view(answer: Result<Vec<u8>, ClientError>) -> Result<
    Seq<u8>,
    ClientErrorView,
> {
    match answer {
        Ok(data) => Ok(data@),
        Err(error) => Err(error@),
    }
}

/// Whether an answer is one to the service that was asked for. Rejects and aborts
/// do not name a service.
pub open spec fn answers(apdu: ApduView, expected: ConfirmedServiceChoice) -> bool {
    match apdu {
        ApduView::ComplexAck { service_choice, .. } => service_choice == expected,
        ApduView::Error { service_choice, .. } => service_choice == expected,
        ApduView::SimpleAck { service_choice, .. } => service_choice == expected.code(),
        ApduView::Reject { .. } | ApduView::Abort { .. } => true,
        _ => false,
    }
}

/// What an answer means to the caller.
pub open spec fn meaning(apdu: ApduView) -> Result<Seq<u8>, ClientErrorView> {
    match apdu {
        ApduView::ComplexAck { service_data, .. } => Ok(service_data),
        ApduView::SimpleAck { .. } => Ok(Seq::empty()),
        ApduView::Error { error_class, error_code, .. } => Err(
            ClientErrorView::PropertyError {
                class: ErrorClass { number: error_class },
                code: ErrorCode { number: error_code },
            },
        ),
        ApduView::Reject { reject_reason, .. } => Err(ClientErrorView::Rejected(reject_reason)),
        ApduView::Abort { abort_reason, .. } => Err(ClientErrorView::Abort(abort_reason)),
        _ => Err(ClientErrorView::NoResponse),
    }
}

/// Whether an answer is one to the service that was asked for.
pub fn response_matches_service(apdu: &Apdu, expected: ConfirmedServiceChoice) -> (matching: bool)
    ensures
        matching == answers(apdu@, expected),
{
    match apdu {
        Apdu::ComplexAck { service_choice, .. } => *service_choice == expected,
        Apdu::Error { service_choice, .. } => *service_choice == expected,
        Apdu::SimpleAck { service_choice, .. } => *service_choice == expected.number(),
        Apdu::Reject { .. } | Apdu::Abort { .. } => true,
        _ => false,
    }
}

/// What an answer means to the caller.
pub fn response_result(apdu: Apdu) -> (result: Result<Vec<u8>, ClientError>)
    ensures
        answer_view(result) == meaning(apdu@),
{
    match apdu {
        Apdu::ComplexAck { service_data, .. } => Ok(service_data),
        Apdu::SimpleAck { .. } => {
            let nothing: Vec<u8> = Vec::new();
            proof {
                assert(nothing@ =~= Seq::<u8>::empty());
            }
            Ok(nothing)
        },
        Apdu::Error { error_class, error_code, .. } => Err(
            ClientError::PropertyError {
                class: ErrorClass { number: error_class },
                code: ErrorCode { number: error_code },
            },
        ),
        Apdu::Reject { reject_reason, .. } => Err(ClientError::Rejected(reject_reason)),
        Apdu::Abort { abort_reason, .. } => Err(ClientError::Abort(abort_reason)),
        _ => Err(ClientError::NoResponse),
    }
}

} // verus!
