//! Errors of the hub controller, and the faults a USB stack can report.

use vstd::prelude::*;

verus! {

/// Why an operation on the hub did not succeed.
#[derive(Clone, Copy, Debug, PartialEq, Eq, Structural)]
pub enum HubError {
    /// No attached device carries the hub's vendor and product identifiers.
    DeviceNotFound,
    /// The device has no active configuration to inspect.
    ConfigurationUnavailable,
    /// The interface is held already, by this session or by somebody else.
    InterfaceUnavailable,
    /// The operation needs a claimed interface and the session holds none.
    NotClaimed,
    /// A transfer did not finish within its deadline.
    TransferTimeout,
    /// The USB stack reported any other failure.
    TransferError,
}

/// What the USB stack reported when a request failed.
#[derive(Clone, Copy, Debug, PartialEq, Eq, Structural)]
pub enum TransportFault {
    Io,
    InvalidParam,
    Access,
    NoDevice,
    NotFound,
    Busy,
    Timeout,
    Overflow,
    Pipe,
    Interrupted,
    NoMem,
    NotSupported,
    Other,
}

/// The error a failed transfer, or a failed release, is reported as: a timeout
/// stays a timeout, every other fault is a transfer error.
pub open spec fn transfer_error(fault: TransportFault) -> HubError {
    if fault == TransportFault::Timeout {
        HubError::TransferTimeout
    } else {
        HubError::TransferError
    }
}

/// The error a refused claim is reported as: a busy interface is contention,
/// every other fault is reported as for a transfer.
pub open spec fn claim_error(fault: TransportFault) -> HubError {
    if fault == TransportFault::Busy {
        HubError::InterfaceUnavailable
    } else {
        transfer_error(fault)
    }
}

/// Classifies the fault of a failed transfer or release.
pub fn classify_transfer_fault(fault: TransportFault) -> (error: HubError)
    ensures
        error == transfer_error(fault),
{
    match fault {
        TransportFault::Timeout => HubError::TransferTimeout,
        _ => HubError::TransferError,
    }
}

/// Classifies the fault of a refused claim.
pub fn classify_claim_fault(fault: TransportFault) -> (error: HubError)
    ensures
        error == claim_error(fault),
{
    match fault {
        TransportFault::Busy => HubError::InterfaceUnavailable,
        _ => classify_transfer_fault(fault),
    }
}

} // verus!
