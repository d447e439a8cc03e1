//! The network-layer socket wrapper around an IPv4 packet view.

use super::Network;
use crate::ip::ipv4::Packet;
use vstd::prelude::*;

verus! {

/// An IPv4 packet acting as the network layer of a stack.
pub struct IPv4 {
    packet: Packet,
}

impl View for IPv4 {
    type V = Seq<u8>;

    closed spec fn view(&self) -> Seq<u8> {
        self.packet@
    }
}

impl IPv4 {
    /// Borrow the wrapped packet view.
    pub fn packet(&self) -> (r: &Packet)
        ensures
            r@ == self@,
    {
        &self.packet
    }

    /// Borrow the whole underlying buffer.
    pub fn as_bytes(&self) -> (r: &[u8])
        ensures
            r@ == self@,
    {
        self.packet.as_bytes()
    }
}

impl core::convert::From<Packet> for IPv4 {
    /// Wrap a packet view.
    fn from(packet: Packet) -> (r: IPv4) {
        IPv4 { packet }
    }
}

impl vstd::std_specs::convert::FromSpecImpl<Packet> for IPv4 {
    open spec fn obeys_from_spec() -> bool {
        true
    }

    closed spec fn from_spec(packet: Packet) -> IPv4 {
        IPv4 { packet }
    }
}

impl Network for IPv4 {
    open spec fn wire_view(&self) -> Seq<u8> {
        self@
    }

    fn wire(&self) -> (r: &[u8]) {
        self.packet.as_bytes()
    }
}

} // verus!
