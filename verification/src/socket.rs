//! Thin socket-layer wrappers pairing each protocol view with the marker
//! traits of a (partial) network stack. Layering stays explicit caller
//! composition: nothing here dispatches from one layer into the next.

pub mod ethernet;
pub mod ip;

use vstd::prelude::*;

verus! {

/// A network-layer protocol whose finished packet can be carried as a
/// lower layer's payload.
pub trait Network {
    /// The finished packet bytes, as a specification-level sequence.
    spec fn wire_view(&self) -> Seq<u8>;

    /// The finished packet bytes.
    fn wire(&self) -> (r: &[u8])
        ensures
            r@ == self.wire_view(),
    ;
}

/// Marker for transport-layer protocols.
pub trait Transport {

}

/// Marker for application-layer protocols.
pub trait Application {

}

/// A link-layer interface that can take a network-layer packet aboard as
/// its payload.
pub trait NetworkInterface<P: Network> {
    /// Copy the packet's bytes into this interface's payload region.
    fn set_upper_protocol(&mut self, protocol: P);
}

} // verus!
