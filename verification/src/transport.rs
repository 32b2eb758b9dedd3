//! The words a session and the USB stack exchange.
//!
//! A session never touches the bus. It hands out one [`Request`] at a time;
//! whoever owns the device handle performs it and answers with a [`Reply`].

use vstd::prelude::*;
use crate::error::TransportFault;
use crate::packet::CommandPacket;

verus! {

/// Deadline of every interrupt transfer, in milliseconds.
pub const TRANSFER_TIMEOUT_MS: u64 = 1000;

/// Most bytes an interrupt read takes from the hub.
pub const READ_CAPACITY: usize = 64;

/// One operation for the USB stack to perform on the open device.
#[derive(Debug, PartialEq, Eq)]
pub enum Request {
    /// Detach the kernel driver from the interface, if there is one.
    DetachKernelDriver { interface: u8 },
    /// Claim the interface for exclusive use.
    ClaimInterface { interface: u8 },
    /// Give the claimed interface back.
    ReleaseInterface { interface: u8 },
    /// Write the packet to the endpoint in one interrupt transfer.
    WriteInterrupt { endpoint: u8, packet: CommandPacket, timeout_ms: u64 },
    /// Read up to `capacity` bytes from the endpoint in one interrupt transfer.
    ReadInterrupt { endpoint: u8, capacity: usize, timeout_ms: u64 },
}

/// A request as a mathematical value.
pub enum RequestView {
    DetachKernelDriver { interface: u8 },
    ClaimInterface { interface: u8 },
    ReleaseInterface { interface: u8 },
    WriteInterrupt { endpoint: u8, data: Seq<u8>, timeout_ms: u64 },
    ReadInterrupt { endpoint: u8, capacity: usize, timeout_ms: u64 },
}

impl View for Request {
    type V = RequestView;

    open spec fn view(&self) -> RequestView {
        match *self {
            Request::DetachKernelDriver { interface } => RequestView::DetachKernelDriver {
                interface,
            },
            Request::ClaimInterface { interface } => RequestView::ClaimInterface { interface },
            Request::ReleaseInterface { interface } => RequestView::ReleaseInterface { interface },
            Request::WriteInterrupt { endpoint, packet, timeout_ms } => RequestView::WriteInterrupt {
                endpoint,
                data: packet@,
                timeout_ms,
            },
            Request::ReadInterrupt { endpoint, capacity, timeout_ms } => RequestView::ReadInterrupt {
                endpoint,
                capacity,
                timeout_ms,
            },
        }
    }
}

/// What the USB stack answers to a request.
#[derive(Clone, Copy, Debug, PartialEq, Eq, Structural)]
pub enum Reply {
    /// The request succeeded. `transferred` is the number of bytes an
    /// interrupt transfer moved; for the other requests nobody looks at it.
    Completed { transferred: usize },
    /// The request failed.
    Failed { fault: TransportFault },
}

} // verus!
