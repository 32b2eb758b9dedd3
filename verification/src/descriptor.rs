//! The part of a device's descriptors that the controller looks at.
//!
//! The USB stack owns the real descriptors. Whoever talks to it copies what
//! matters here into these plain values: which devices are attached, and for
//! the chosen device the interfaces of its active configuration with their
//! endpoints, in the order in which the device lists them.

use vstd::prelude::*;

verus! {

/// Which way an endpoint carries data, seen from the host.
#[derive(Clone, Copy, Debug, PartialEq, Eq, Structural)]
pub enum Direction {
    /// Device to host.
    In,
    /// Host to device.
    Out,
}

/// One endpoint of an interface.
#[derive(Clone, Copy, Debug, PartialEq, Eq, Structural)]
pub struct Endpoint {
    pub address: u8,
    pub direction: Direction,
}

/// One interface of a configuration, with the endpoints of all its settings in
/// the order in which the device lists them.
#[derive(Debug, PartialEq, Eq)]
pub struct Interface {
    pub number: u8,
    pub endpoints: Vec<Endpoint>,
}

/// The active configuration of a device: its interfaces, in order.
#[derive(Debug, PartialEq, Eq)]
pub struct Configuration {
    pub interfaces: Vec<Interface>,
}

/// An interface as a mathematical value.
pub struct InterfaceView {
    pub number: u8,
    pub endpoints: Seq<Endpoint>,
}

impl View for Interface {
    type V = InterfaceView;

    open spec fn view(&self) -> InterfaceView {
        InterfaceView { number: self.number, endpoints: self.endpoints@ }
    }
}

impl View for Configuration {
    type V = Seq<InterfaceView>;

    open spec fn view(&self) -> Seq<InterfaceView> {
        Seq::new(self.interfaces@.len(), |i: int| self.interfaces@[i]@)
    }
}

} // verus!
