//! Views over byte buffers for fixed-layout network headers: Ethernet II
//! frames, IPv4 datagrams and ICMPv4 messages, together with the RFC 1071
//! Internet checksum that validates them.

pub mod checksum;
pub mod ethernet;
pub mod icmp;
pub mod ip;
pub mod socket;
mod wire;

use vstd::prelude::*;

verus! {

/// The error taxonomy shared by every protocol layer.
#[derive(Clone, Copy, Debug, PartialEq, Eq, Structural)]
#[non_exhaustive]
pub enum Error {
    /// An operation cannot proceed because a buffer is empty or full.
    Exhausted,
    /// An operation is not permitted in the current state.
    Illegal,
    /// An endpoint or address of a remote host could not be translated to a
    /// lower level address.
    Unaddressable,
    /// The operation is finished.
    Finished,
    /// An incoming packet could not be parsed because some of its fields were
    /// out of bounds of the received data.
    Truncated,
    /// An incoming packet had an incorrect checksum.
    Checksum,
    /// An incoming packet could not be recognized.
    Unrecognized,
    /// An incoming IP packet has been split into several IP fragments; IP
    /// reassembly is not supported.
    Fragmented,
    /// An incoming packet was recognized but was self-contradictory.
    Malformed,
    /// An incoming packet was recognized but contradicted internal state.
    Dropped,
}

} // verus!
