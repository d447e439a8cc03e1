//! The Internet Protocol layer: version detection, protocol numbers, and
//! the header-checksum helper shared with the IPv4 view.

pub mod ipv4;

use crate::checksum::{
    checksum_of, lemma_complement, lemma_sum_words_bound, lemma_sum_words_nonneg,
    propagate_carries, sum_words, MAX_SUM_LEN,
};
use crate::wire::{read_u16, word_of};
use crate::Error;
use vstd::prelude::*;
use vstd::slice::slice_subrange;

verus! {

/// The version of an IP packet, read from the high nibble of its first
/// byte.
#[derive(Clone, Copy, Debug, PartialEq, Eq, Structural)]
pub enum Version {
    IPv4,
    IPv6,
    Unsupported,
}

/// How the version nibble decodes: 4 and 6 are recognized, anything else is
/// `Unrecognized` — the one decoding that is an error rather than a
/// sentinel.
pub open spec fn spec_of_packet(s: Seq<u8>) -> Result<Version, Error>
    recommends
        s.len() >= 1,
{
    if s[0] >> 4 == 4 {
        Ok(Version::IPv4)
    } else if s[0] >> 4 == 6 {
        Ok(Version::IPv6)
    } else {
        Err(Error::Unrecognized)
    }
}

impl Version {
    /// Detect the IP version of a packet from its first byte.
    pub fn of_packet(data: &[u8]) -> (r: Result<Version, Error>)
        requires
            data@.len() >= 1,
        ensures
            r == spec_of_packet(data@),
    {
        match data[0] >> 4 {
            4 => Ok(Version::IPv4),
            6 => Ok(Version::IPv6),
            _ => Err(Error::Unrecognized),
        }
    }
}

/// The protocol carried inside an IP packet, named by its IANA-assigned
/// number.
#[derive(Clone, Copy, Debug, PartialEq, Eq, Structural)]
pub enum Protocol {
    HopByHop,
    ICMP,
    IGMP,
    TCP,
    UDP,
    IPv6Route,
    IPv6Frag,
    ICMPv6,
    IPv6NoNxt,
    IPv6Opts,
    Test,
    Unsupported,
}

/// How a wire value decodes: the known assignments, and every other value
/// as `Unsupported` — never an error.
pub open spec fn protocol_of(raw: int) -> Protocol {
    if raw == 0x00 {
        Protocol::HopByHop
    } else if raw == 0x01 {
        Protocol::ICMP
    } else if raw == 0x02 {
        Protocol::IGMP
    } else if raw == 0x06 {
        Protocol::TCP
    } else if raw == 0x11 {
        Protocol::UDP
    } else if raw == 0x2B {
        Protocol::IPv6Route
    } else if raw == 0x2C {
        Protocol::IPv6Frag
    } else if raw == 0x3A {
        Protocol::ICMPv6
    } else if raw == 0x3B {
        Protocol::IPv6NoNxt
    } else if raw == 0x3C {
        Protocol::IPv6Opts
    } else {
        Protocol::Unsupported
    }
}

/// The canonical wire value of each protocol, following the IANA
/// assignments; `Test` is the private placeholder 0xFD.
pub open spec fn protocol_to_wire(p: Protocol) -> u8 {
    match p {
        Protocol::HopByHop => 0x00,
        Protocol::ICMP => 0x01,
        Protocol::IGMP => 0x02,
        Protocol::TCP => 0x06,
        Protocol::UDP => 0x11,
        Protocol::IPv6Route => 0x2B,
        Protocol::IPv6Frag => 0x2C,
        Protocol::ICMPv6 => 0x3A,
        Protocol::IPv6NoNxt => 0x3B,
        Protocol::IPv6Opts => 0x3C,
        Protocol::Test => 0xFD,
        Protocol::Unsupported => 0xFF,
    }
}

impl core::convert::From<u8> for Protocol {
    /// Decode a wire value; unknown values (the private `Test` placeholder
    /// among them) yield `Unsupported`.
    fn from(val: u8) -> (r: Protocol) {
        match val {
            0x00 => Protocol::HopByHop,
            0x01 => Protocol::ICMP,
            0x02 => Protocol::IGMP,
            0x06 => Protocol::TCP,
            0x11 => Protocol::UDP,
            0x2B => Protocol::IPv6Route,
            0x2C => Protocol::IPv6Frag,
            0x3A => Protocol::ICMPv6,
            0x3B => Protocol::IPv6NoNxt,
            0x3C => Protocol::IPv6Opts,
            _ => Protocol::Unsupported,
        }
    }
}

impl vstd::std_specs::convert::FromSpecImpl<u8> for Protocol {
    open spec fn obeys_from_spec() -> bool {
        true
    }

    open spec fn from_spec(val: u8) -> Protocol {
        protocol_of(val as int)
    }
}

impl core::convert::From<Protocol> for u8 {
    /// Encode a protocol as its wire value.
    fn from(protocol: Protocol) -> (r: u8) {
        match protocol {
            Protocol::HopByHop => 0x00,
            Protocol::ICMP => 0x01,
            Protocol::IGMP => 0x02,
            Protocol::TCP => 0x06,
            Protocol::UDP => 0x11,
            Protocol::IPv6Route => 0x2B,
            Protocol::IPv6Frag => 0x2C,
            Protocol::ICMPv6 => 0x3A,
            Protocol::IPv6NoNxt => 0x3B,
            Protocol::IPv6Opts => 0x3C,
            Protocol::Test => 0xFD,
            Protocol::Unsupported => 0xFF,
        }
    }
}

impl vstd::std_specs::convert::FromSpecImpl<Protocol> for u8 {
    open spec fn obeys_from_spec() -> bool {
        true
    }

    open spec fn from_spec(p: Protocol) -> u8 {
        protocol_to_wire(p)
    }
}

/// The buffer with its checksum field at bytes `[10..12)` set to zero: the
/// region an IPv4 header checksum is computed over.
pub open spec fn zero_checksum(s: Seq<u8>) -> Seq<u8>
    recommends
        s.len() >= 12,
{
    s.update(10, 0u8).update(11, 0u8)
}

/// The complement of the RFC 1071 checksum of an IPv4 header, computed with
/// the checksum field at bytes `[10..12)` left out of the sum — the value a
/// correct header stores in that field.
pub fn result(data: &[u8]) -> (r: u16)
    requires
        12 <= data@.len() <= MAX_SUM_LEN,
    ensures
        r as int == 0xFFFF - checksum_of(zero_checksum(data@)),
{
    let ghost t = zero_checksum(data@);
    let mut accum: u32 = 0;
    let mut i: usize = 0;
    proof {
        assert(t.skip(0) =~= t);
    }
    while i + 2 <= data.len()
        invariant
            i % 2 == 0,
            i <= data@.len() <= MAX_SUM_LEN,
            12 <= data@.len(),
            t == zero_checksum(data@),
            accum as int + sum_words(t.skip(i as int)) == sum_words(t),
            accum <= 0xFFFF * (i as int / 2),
        decreases data@.len() - i,
    {
        proof {
            assert(t.skip(i as int).skip(2) =~= t.skip(i as int + 2));
            lemma_sum_words_bound(t);
            lemma_sum_words_nonneg(t.skip(i as int + 2));
        }
        if i != 10 {
            let word = read_u16(slice_subrange(data, i, i + 2));
            accum = accum + word as u32;
        }
        i = i + 2;
    }
    if i < data.len() {
        proof {
            lemma_sum_words_bound(t);
        }
        let last: u8 = data[i];
        accum = accum + (last as u32) * 256;
    }
    let c = propagate_carries(accum);
    proof {
        lemma_complement(c);
    }
    !c
}

} // verus!
