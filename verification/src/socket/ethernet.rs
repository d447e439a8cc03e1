//! The link-layer socket wrapper around an Ethernet frame view.

use super::{Network, NetworkInterface};
use crate::ethernet::Frame;
use vstd::prelude::*;

verus! {

/// An Ethernet interface: a frame view ready to take an upper-layer
/// packet aboard.
pub struct Ethernet {
    frame: Frame,
}

impl View for Ethernet {
    type V = Seq<u8>;

    closed spec fn view(&self) -> Seq<u8> {
        self.frame@
    }
}

impl Ethernet {
    /// Borrow the wrapped frame view.
    pub fn frame(&self) -> (r: &Frame)
        ensures
            r@ == self@,
    {
        &self.frame
    }

    /// Borrow the whole underlying buffer.
    pub fn as_bytes(&self) -> (r: &[u8])
        ensures
            r@ == self@,
    {
        self.frame.as_bytes()
    }
}

impl core::convert::From<Frame> for Ethernet {
    /// Wrap a frame view.
    fn from(frame: Frame) -> (r: Ethernet) {
        Ethernet { frame }
    }
}

impl vstd::std_specs::convert::FromSpecImpl<Frame> for Ethernet {
    open spec fn obeys_from_spec() -> bool {
        true
    }

    closed spec fn from_spec(frame: Frame) -> Ethernet {
        Ethernet { frame }
    }
}

impl<P: Network> NetworkInterface<P> for Ethernet {
    /// Copy the packet's bytes into the frame's payload. The frame must be
    /// long enough for its header and the packet must exactly fill the
    /// payload; any other combination leaves the frame untouched.
    fn set_upper_protocol(&mut self, protocol: P) {
        let w = protocol.wire();
        match self.frame.check_len() {
            Ok(_) => {
                let payload_len = self.frame.payload().len();
                if w.len() == payload_len {
                    self.frame.payload_mut(w);
                }
            },
            Err(_) => {},
        }
    }
}

} // verus!
