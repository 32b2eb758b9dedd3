//! Control logic for a USB-attached fan and LED hub.
//!
//! The crate holds everything about the hub that can be decided without
//! touching the bus: which interface and endpoints of a configuration to use,
//! the exact bytes of every command, and the order in which a session asks the
//! USB stack to claim, transfer and release. The USB stack itself stays with
//! the caller, who performs each [`transport::Request`] and reports back a
//! [`transport::Reply`].

pub mod descriptor;
pub mod device;
pub mod error;
pub mod laws;
pub mod packet;
pub mod protocol;
pub mod resolver;
pub mod session;
pub mod transport;
