//! The Ethernet II frame: a 14-byte header (destination and source hardware
//! address, payload-type tag) followed by an opaque payload.

use crate::wire::{copy_into, lemma_word_roundtrip, read_u16, word_of, write_u16_at};
use crate::Error;
use vstd::prelude::*;
use vstd::slice::slice_subrange;

verus! {

/// The 2-byte payload-type tag of an Ethernet II frame.
#[derive(Clone, Copy, Debug, PartialEq, Eq, Structural)]
pub enum EtherType {
    IPv4,
    ARP,
    IPv6,
    ECTP,
    Unsupported,
}

/// How a wire value decodes: the four known tags, and every other value as
/// `Unsupported` — never an error.
pub open spec fn ether_type_of(raw: int) -> EtherType {
    if raw == 0x0800 {
        EtherType::IPv4
    } else if raw == 0x0806 {
        EtherType::ARP
    } else if raw == 0x86DD {
        EtherType::IPv6
    } else if raw == 0x9000 {
        EtherType::ECTP
    } else {
        EtherType::Unsupported
    }
}

/// The canonical wire value of each payload-type tag.
pub open spec fn ether_type_to_wire(t: EtherType) -> u16 {
    match t {
        EtherType::IPv4 => 0x0800,
        EtherType::ARP => 0x0806,
        EtherType::IPv6 => 0x86DD,
        EtherType::ECTP => 0x9000,
        EtherType::Unsupported => 0xFFFF,
    }
}

/// Encoding a payload-type tag and decoding it again yields the tag itself.
pub proof fn lemma_ether_type_roundtrip(t: EtherType)
    ensures
        ether_type_of(ether_type_to_wire(t) as int) == t,
{
}

impl core::convert::From<u16> for EtherType {
    /// Decode a wire value; unknown values yield `Unsupported`.
    fn from(val: u16) -> (r: EtherType) {
        if val == 0x0800 {
            EtherType::IPv4
        } else if val == 0x0806 {
            EtherType::ARP
        } else if val == 0x86DD {
            EtherType::IPv6
        } else if val == 0x9000 {
            EtherType::ECTP
        } else {
            EtherType::Unsupported
        }
    }
}

impl vstd::std_specs::convert::FromSpecImpl<u16> for EtherType {
    open spec fn obeys_from_spec() -> bool {
        true
    }

    open spec fn from_spec(val: u16) -> EtherType {
        ether_type_of(val as int)
    }
}

impl core::convert::From<EtherType> for u16 {
    /// Encode a payload-type tag as its wire value.
    fn from(ether_type: EtherType) -> (r: u16) {
        match ether_type {
            EtherType::IPv4 => 0x0800,
            EtherType::ARP => 0x0806,
            EtherType::IPv6 => 0x86DD,
            EtherType::ECTP => 0x9000,
            EtherType::Unsupported => 0xFFFF,
        }
    }
}

impl vstd::std_specs::convert::FromSpecImpl<EtherType> for u16 {
    open spec fn obeys_from_spec() -> bool {
        true
    }

    open spec fn from_spec(t: EtherType) -> u16 {
        ether_type_to_wire(t)
    }
}

/// A 6-byte Ethernet hardware (MAC) address.
#[derive(Clone, Copy, Debug, PartialEq, Eq)]
pub struct Address(pub [u8; 6]);

impl Address {
    /// The address with every bit set, reserved for broadcast.
    pub open spec fn spec_is_broadcast(self) -> bool {
        self.0@ =~= seq![0xFFu8, 0xFF, 0xFF, 0xFF, 0xFF, 0xFF]
    }

    /// The least significant bit of the first byte marks a group address.
    pub open spec fn spec_is_multicast(self) -> bool {
        self.0@[0] & 0x01 == 1
    }

    /// The second-least significant bit of the first byte marks a locally
    /// administered address.
    pub open spec fn spec_is_local(self) -> bool {
        self.0@[0] & 0x02 != 0
    }

    /// Copy an address out of a 6-byte slice.
    pub fn from_bytes(data: &[u8]) -> (r: Address)
        requires
            data@.len() == 6,
        ensures
            r.0@ == data@,
    {
        let r = Address([data[0], data[1], data[2], data[3], data[4], data[5]]);
        proof {
            assert(r.0@ =~= data@);
        }
        r
    }

    /// The six bytes of the address, most significant first.
    pub fn as_bytes(&self) -> (r: &[u8])
        ensures
            r@ == self.0@,
    {
        self.0.as_slice()
    }

    /// Whether this is the all-ones broadcast address.
    pub fn is_broadcast(&self) -> (r: bool)
        ensures
            r == self.spec_is_broadcast(),
    {
        self.0[0] == 0xFF && self.0[1] == 0xFF && self.0[2] == 0xFF && self.0[3] == 0xFF
            && self.0[4] == 0xFF && self.0[5] == 0xFF
    }

    /// Whether the group bit is set.
    pub fn is_multicast(&self) -> (r: bool)
        ensures
            r == self.spec_is_multicast(),
    {
        self.0[0] & 0x01 == 1
    }

    /// Whether the address names a single station: neither broadcast nor
    /// multicast.
    pub fn is_unicast(&self) -> (r: bool)
        ensures
            r == (!self.spec_is_broadcast() && !self.spec_is_multicast()),
    {
        !self.is_broadcast() && !self.is_multicast()
    }

    /// Whether the locally-administered bit is set.
    pub fn is_local(&self) -> (r: bool)
        ensures
            r == self.spec_is_local(),
    {
        self.0[0] & 0x02 != 0
    }
}

/// Byte offsets of the Ethernet II header fields: destination address
/// `[0..6)`, source address `[6..12)`, payload-type tag `[12..14)`, payload
/// `[14..)`.
pub const HEADER_LEN: usize = 14;

/// The raw payload-type tag stored big-endian at bytes 12 and 13.
pub open spec fn ether_type_raw(s: Seq<u8>) -> int
    recommends
        s.len() >= 14,
{
    word_of(s[12], s[13])
}

/// The result of validating a buffer's length against the fixed header:
/// anything shorter than 14 bytes is `Truncated`.
pub open spec fn spec_check_len(s: Seq<u8>) -> Result<(), Error> {
    if s.len() < 14 {
        Err(Error::Truncated)
    } else {
        Ok(())
    }
}

/// A view interpreting a byte buffer as an Ethernet II frame. The view adds
/// no state of its own: its whole identity is the buffer's bytes.
pub struct Frame {
    buffer: Vec<u8>,
}

impl View for Frame {
    type V = Seq<u8>;

    closed spec fn view(&self) -> Seq<u8> {
        self.buffer@
    }
}

impl Frame {
    /// Wrap a buffer without validating its length.
    pub fn new_unchecked(buffer: Vec<u8>) -> (r: Frame)
        ensures
            r@ == buffer@,
    {
        Frame { buffer }
    }

    /// Wrap a buffer, failing with `Truncated` when it cannot hold the
    /// 14-byte header.
    pub fn new_checked(buffer: Vec<u8>) -> (r: Result<Frame, Error>)
        ensures
            r is Ok <==> buffer@.len() >= 14,
            r is Ok ==> r->Ok_0@ == buffer@,
            r is Err ==> r->Err_0 == Error::Truncated,
    {
        let packet = Self::new_unchecked(buffer);
        match packet.check_len() {
            Ok(_) => Ok(packet),
            Err(e) => Err(e),
        }
    }

    /// Validate the buffer length against the fixed header length.
    pub fn check_len(&self) -> (r: Result<(), Error>)
        ensures
            r == spec_check_len(self@),
    {
        if self.buffer.len() < HEADER_LEN {
            Err(Error::Truncated)
        } else {
            Ok(())
        }
    }

    /// Give the underlying buffer back.
    pub fn into_inner(self) -> (r: Vec<u8>)
        ensures
            r@ == self@,
    {
        self.buffer
    }

    /// Borrow the whole underlying buffer.
    pub fn as_bytes(&self) -> (r: &[u8])
        ensures
            r@ == self@,
    {
        self.buffer.as_slice()
    }

    /// The fixed length of the Ethernet II header.
    pub fn header_len() -> (r: usize)
        ensures
            r == HEADER_LEN,
    {
        HEADER_LEN
    }

    /// The length of a frame carrying a payload of the given length.
    pub fn frame_len(payload_len: usize) -> (r: usize)
        requires
            HEADER_LEN + payload_len <= usize::MAX,
        ensures
            r == HEADER_LEN + payload_len,
    {
        HEADER_LEN + payload_len
    }

    /// The destination hardware address at bytes `[0..6)`.
    pub fn dst_addr(&self) -> (r: Address)
        requires
            self@.len() >= 6,
        ensures
            r.0@ == self@.subrange(0, 6),
    {
        Address::from_bytes(slice_subrange(self.buffer.as_slice(), 0, 6))
    }

    /// The source hardware address at bytes `[6..12)`.
    pub fn src_addr(&self) -> (r: Address)
        requires
            self@.len() >= 12,
        ensures
            r.0@ == self@.subrange(6, 12),
    {
        Address::from_bytes(slice_subrange(self.buffer.as_slice(), 6, 12))
    }

    /// The payload-type tag, decoded; unknown wire values yield
    /// `Unsupported`, never an error.
    pub fn ether_type(&self) -> (r: EtherType)
        requires
            self@.len() >= 14,
        ensures
            r == ether_type_of(ether_type_raw(self@)),
    {
        let raw = read_u16(slice_subrange(self.buffer.as_slice(), 12, 14));
        EtherType::from(raw)
    }

    /// The payload: everything after the 14-byte header.
    pub fn payload(&self) -> (r: &[u8])
        requires
            self@.len() >= 14,
        ensures
            r@ == self@.skip(14),
    {
        let r = slice_subrange(self.buffer.as_slice(), HEADER_LEN, self.buffer.len());
        proof {
            assert(r@ =~= self@.skip(14));
        }
        r
    }

    /// Write the destination hardware address, leaving every other byte
    /// unchanged.
    pub fn set_dst_addr(&mut self, addr: Address)
        requires
            old(self)@.len() >= 6,
        ensures
            final(self)@.len() == old(self)@.len(),
            final(self)@.subrange(0, 6) == addr.0@,
            forall|i: int| 6 <= i < old(self)@.len() ==> final(self)@[i] == old(self)@[i],
    {
        copy_into(&mut self.buffer, 0, addr.as_bytes());
    }

    /// Write the source hardware address, leaving every other byte
    /// unchanged.
    pub fn set_src_addr(&mut self, addr: Address)
        requires
            old(self)@.len() >= 12,
        ensures
            final(self)@.len() == old(self)@.len(),
            final(self)@.subrange(6, 12) == addr.0@,
            forall|i: int|
                0 <= i < old(self)@.len() && !(6 <= i < 12) ==> final(self)@[i] == old(self)@[i],
    {
        copy_into(&mut self.buffer, 6, addr.as_bytes());
    }

    /// Encode a payload-type tag into bytes 12 and 13, leaving every other
    /// byte unchanged; reading the tag back yields the tag set.
    pub fn set_ether_type(&mut self, ether_type: EtherType)
        requires
            old(self)@.len() >= 14,
        ensures
            final(self)@.len() == old(self)@.len(),
            ether_type_raw(final(self)@) == ether_type_to_wire(ether_type) as int,
            ether_type_of(ether_type_raw(final(self)@)) == ether_type,
            forall|i: int|
                0 <= i < old(self)@.len() && i != 12 && i != 13
                    ==> final(self)@[i] == old(self)@[i],
    {
        let raw = u16::from(ether_type);
        write_u16_at(&mut self.buffer, 12, raw);
        proof {
            lemma_word_roundtrip(raw);
            lemma_ether_type_roundtrip(ether_type);
        }
    }

    /// Overwrite the payload with the given bytes, which must exactly fill
    /// the space after the header; the header stays unchanged.
    pub fn payload_mut(&mut self, data: &[u8])
        requires
            old(self)@.len() >= 14,
            data@.len() == old(self)@.len() - 14,
        ensures
            final(self)@.len() == old(self)@.len(),
            final(self)@.skip(14) == data@,
            forall|i: int| 0 <= i < 14 ==> final(self)@[i] == old(self)@[i],
    {
        copy_into(&mut self.buffer, HEADER_LEN, data);
        proof {
            assert(self@.skip(14) =~= self@.subrange(14, 14 + data@.len() as int));
        }
    }
}

} // verus!
