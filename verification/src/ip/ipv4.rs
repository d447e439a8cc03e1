//! The IPv4 datagram: a variable-length header of at least 20 bytes with
//! bit-packed sub-byte fields, followed by options (unsupported) and the
//! payload.
//!
//! Field offsets: version and header length `[0]`, DSCP and ECN `[1]`,
//! total length `[2..4)`, identification `[4..6)`, flags and fragment
//! offset `[6..8)`, time to live `[8]`, protocol `[9]`, header checksum
//! `[10..12)`, source address `[12..16)`, destination address `[16..20)`.
//!
//! The IPv4 checksum covers the **header only**: a header verifies when the
//! complement of the sum over the header with the checksum field excluded
//! equals the stored field.

use super::{protocol_of, protocol_to_wire, zero_checksum, Protocol};
use crate::checksum::{self, checksum_of, flip_bit, lemma_checksum_bit_flip, lemma_complement};
use crate::wire::{copy_into, lemma_word_roundtrip, read_u16, word_of, write_u16_at};
use crate::Error;
use vstd::prelude::*;
use vstd::slice::slice_subrange;

verus! {

/// A 4-byte IPv4 protocol address.
#[derive(Clone, Copy, Debug, PartialEq, Eq)]
pub struct Address(pub [u8; 4]);

impl Address {
    /// The all-ones limited-broadcast address 255.255.255.255.
    pub open spec fn spec_is_broadcast(self) -> bool {
        self.0@ =~= seq![0xFFu8, 0xFF, 0xFF, 0xFF]
    }

    /// The all-zeroes unspecified address 0.0.0.0.
    pub open spec fn spec_is_unspecified(self) -> bool {
        self.0@ =~= seq![0u8, 0, 0, 0]
    }

    /// A multicast address: first octet 224.
    pub open spec fn spec_is_multicast(self) -> bool {
        self.0@[0] == 224
    }

    /// A link-local address: first two octets 169.254.
    pub open spec fn spec_is_link_local(self) -> bool {
        self.0@[0] == 169 && self.0@[1] == 254
    }

    /// A loopback address: first octet 127.
    pub open spec fn spec_is_loopback(self) -> bool {
        self.0@[0] == 127
    }

    /// Build an address from its four octets, most significant first.
    pub fn new(a0: u8, a1: u8, a2: u8, a3: u8) -> (r: Address)
        ensures
            r.0@ =~= seq![a0, a1, a2, a3],
    {
        Address([a0, a1, a2, a3])
    }

    /// Copy an address out of a 4-byte slice.
    pub fn from_bytes(data: &[u8]) -> (r: Address)
        requires
            data@.len() == 4,
        ensures
            r.0@ == data@,
    {
        let r = Address([data[0], data[1], data[2], data[3]]);
        proof {
            assert(r.0@ =~= data@);
        }
        r
    }

    /// The four octets of the address, most significant first.
    pub fn as_bytes(&self) -> (r: &[u8])
        ensures
            r@ == self.0@,
    {
        self.0.as_slice()
    }

    /// Whether this is the limited-broadcast address.
    pub fn is_broadcast(&self) -> (r: bool)
        ensures
            r == self.spec_is_broadcast(),
    {
        self.0[0] == 0xFF && self.0[1] == 0xFF && self.0[2] == 0xFF && self.0[3] == 0xFF
    }

    /// Whether this is the unspecified address.
    pub fn is_unspecified(&self) -> (r: bool)
        ensures
            r == self.spec_is_unspecified(),
    {
        self.0[0] == 0 && self.0[1] == 0 && self.0[2] == 0 && self.0[3] == 0
    }

    /// Whether this is a multicast address.
    pub fn is_multicast(&self) -> (r: bool)
        ensures
            r == self.spec_is_multicast(),
    {
        self.0[0] == 224
    }

    /// Whether this is a link-local address.
    pub fn is_link_local(&self) -> (r: bool)
        ensures
            r == self.spec_is_link_local(),
    {
        self.0[0] == 169 && self.0[1] == 254
    }

    /// Whether this is a loopback address.
    pub fn is_loopback(&self) -> (r: bool)
        ensures
            r == self.spec_is_loopback(),
    {
        self.0[0] == 127
    }

    /// Whether the address names a single host: neither broadcast, nor
    /// multicast, nor unspecified.
    pub fn is_unicast(&self) -> (r: bool)
        ensures
            r == (!self.spec_is_broadcast() && !self.spec_is_multicast()
                && !self.spec_is_unspecified()),
    {
        !self.is_broadcast() && !self.is_multicast() && !self.is_unspecified()
    }
}

/// The minimum header length: 20 bytes, a header without options.
pub const MIN_HEADER_LEN: usize = 20;

/// The version field: the high nibble of byte 0.
pub open spec fn spec_version(s: Seq<u8>) -> u8
    recommends
        s.len() >= 1,
{
    s[0] >> 4
}

/// The header length in bytes: the low nibble of byte 0 counts 32-bit
/// words, so it is scaled by 4.
pub open spec fn spec_header_len(s: Seq<u8>) -> u8
    recommends
        s.len() >= 1,
{
    (s[0] & 0x0F) << 2
}

/// The DSCP field: the top 6 bits of byte 1.
pub open spec fn spec_dscp(s: Seq<u8>) -> u8
    recommends
        s.len() >= 2,
{
    s[1] >> 2
}

/// The ECN field: the bottom 2 bits of byte 1.
pub open spec fn spec_ecn(s: Seq<u8>) -> u8
    recommends
        s.len() >= 2,
{
    s[1] & 0x03
}

/// The total length of the datagram, header included, at bytes `[2..4)`.
pub open spec fn spec_total_len(s: Seq<u8>) -> int
    recommends
        s.len() >= 4,
{
    word_of(s[2], s[3])
}

/// The identification field at bytes `[4..6)`.
pub open spec fn spec_ident(s: Seq<u8>) -> int
    recommends
        s.len() >= 6,
{
    word_of(s[4], s[5])
}

/// The 16-bit flags-and-fragment-offset field at bytes `[6..8)`: flags in
/// the top 3 bits (bit 15 reserved, bit 14 don't-fragment, bit 13
/// more-fragments), the fragment offset in the low 13 bits.
pub open spec fn spec_flg_off(s: Seq<u8>) -> u16
    recommends
        s.len() >= 8,
{
    word_of(s[6], s[7]) as u16
}

/// The don't-fragment flag: bit 14 of the flags field.
pub open spec fn spec_dont_frag(s: Seq<u8>) -> bool
    recommends
        s.len() >= 8,
{
    spec_flg_off(s) & 0x4000 != 0
}

/// The more-fragments flag: bit 13 of the flags field.
pub open spec fn spec_more_frags(s: Seq<u8>) -> bool
    recommends
        s.len() >= 8,
{
    spec_flg_off(s) & 0x2000 != 0
}

/// The fragment offset in bytes: the low 13 bits count 8-byte units, so
/// they are scaled by 8; the 16-bit shift discards the three flag bits.
pub open spec fn spec_frag_offset(s: Seq<u8>) -> u16
    recommends
        s.len() >= 8,
{
    spec_flg_off(s) << 3
}

/// The time-to-live field at byte 8.
pub open spec fn spec_hop_limit(s: Seq<u8>) -> u8
    recommends
        s.len() >= 9,
{
    s[8]
}

/// The stored header checksum at bytes `[10..12)`.
pub open spec fn spec_checksum(s: Seq<u8>) -> int
    recommends
        s.len() >= 12,
{
    word_of(s[10], s[11])
}

/// The source address at bytes `[12..16)`.
pub open spec fn spec_src_addr(s: Seq<u8>) -> Seq<u8>
    recommends
        s.len() >= 16,
{
    s.subrange(12, 16)
}

/// The destination address at bytes `[16..20)`.
pub open spec fn spec_dst_addr(s: Seq<u8>) -> Seq<u8>
    recommends
        s.len() >= 20,
{
    s.subrange(16, 20)
}

/// The result of validating a buffer, in order, each failure
/// short-circuiting the next check: too short for the fixed header, too
/// short for the declared header, a header longer than the declared total
/// (self-contradictory), and a buffer shorter than the declared total.
pub open spec fn spec_check_len(s: Seq<u8>) -> Result<(), Error> {
    if s.len() < 20 {
        Err(Error::Truncated)
    } else if s.len() < spec_header_len(s) {
        Err(Error::Truncated)
    } else if spec_header_len(s) > spec_total_len(s) {
        Err(Error::Malformed)
    } else if s.len() < spec_total_len(s) {
        Err(Error::Truncated)
    } else {
        Ok(())
    }
}

/// A received header verifies when the complement of the checksum over the
/// header bytes with the checksum field excluded equals the stored field.
pub open spec fn checksum_valid(s: Seq<u8>) -> bool
    recommends
        12 <= spec_header_len(s) <= s.len(),
{
    spec_checksum(s) == 0xFFFF - checksum_of(zero_checksum(s.subrange(0, spec_header_len(s) as int)))
}

/// A view interpreting a byte buffer as an IPv4 datagram. The view adds no
/// state of its own: its whole identity is the buffer's bytes.
pub struct Packet {
    buffer: Vec<u8>,
}

impl View for Packet {
    type V = Seq<u8>;

    closed spec fn view(&self) -> Seq<u8> {
        self.buffer@
    }
}

impl Packet {
    /// Wrap a buffer without validating it.
    pub fn new_unchecked(buffer: Vec<u8>) -> (r: Packet)
        ensures
            r@ == buffer@,
    {
        Packet { buffer }
    }

    /// Wrap a buffer, failing as `check_len` does when its length does not
    /// agree with the declared header and total lengths.
    pub fn new_checked(buffer: Vec<u8>) -> (r: Result<Packet, Error>)
        ensures
            r is Ok <==> spec_check_len(buffer@) is Ok,
            r is Ok ==> r->Ok_0@ == buffer@,
            r is Err ==> r->Err_0 == spec_check_len(buffer@)->Err_0,
    {
        let packet = Self::new_unchecked(buffer);
        match packet.check_len() {
            Ok(_) => Ok(packet),
            Err(e) => Err(e),
        }
    }

    /// Validate the buffer length against the fixed minimum, the declared
    /// header length and the declared total length, in that order.
    pub fn check_len(&self) -> (r: Result<(), Error>)
        ensures
            r == spec_check_len(self@),
    {
        let len = self.buffer.len();
        if len < MIN_HEADER_LEN {
            Err(Error::Truncated)
        } else if len < self.header_len() as usize {
            Err(Error::Truncated)
        } else if self.header_len() as u16 > self.total_len() {
            Err(Error::Malformed)
        } else if len < self.total_len() as usize {
            Err(Error::Truncated)
        } else {
            Ok(())
        }
    }

    /// Give the underlying buffer back.
    pub fn into_inner(self) -> (r: Vec<u8>)
        ensures
            r@ == self@,
    {
        self.buffer
    }

    /// Borrow the whole underlying buffer.
    pub fn as_bytes(&self) -> (r: &[u8])
        ensures
            r@ == self@,
    {
        self.buffer.as_slice()
    }

    /// The version field.
    pub fn version(&self) -> (r: u8)
        requires
            self@.len() >= 1,
        ensures
            r == spec_version(self@),
    {
        self.buffer[0] >> 4
    }

    /// The header length in bytes, scaled up from the stored count of
    /// 32-bit words.
    pub fn header_len(&self) -> (r: u8)
        requires
            self@.len() >= 1,
        ensures
            r == spec_header_len(self@),
    {
        (self.buffer[0] & 0x0F) << 2
    }

    /// The DSCP field.
    pub fn dscp(&self) -> (r: u8)
        requires
            self@.len() >= 2,
        ensures
            r == spec_dscp(self@),
    {
        self.buffer[1] >> 2
    }

    /// The ECN field.
    pub fn ecn(&self) -> (r: u8)
        requires
            self@.len() >= 2,
        ensures
            r == spec_ecn(self@),
    {
        self.buffer[1] & 0x03
    }

    /// The declared total length of the datagram.
    pub fn total_len(&self) -> (r: u16)
        requires
            self@.len() >= 4,
        ensures
            r as int == spec_total_len(self@),
    {
        read_u16(slice_subrange(self.buffer.as_slice(), 2, 4))
    }

    /// The identification field.
    pub fn ident(&self) -> (r: u16)
        requires
            self@.len() >= 6,
        ensures
            r as int == spec_ident(self@),
    {
        read_u16(slice_subrange(self.buffer.as_slice(), 4, 6))
    }

    /// The don't-fragment flag.
    pub fn dont_frag(&self) -> (r: bool)
        requires
            self@.len() >= 8,
        ensures
            r == spec_dont_frag(self@),
    {
        let raw = read_u16(slice_subrange(self.buffer.as_slice(), 6, 8));
        raw & 0x4000 != 0
    }

    /// The more-fragments flag.
    pub fn more_frags(&self) -> (r: bool)
        requires
            self@.len() >= 8,
        ensures
            r == spec_more_frags(self@),
    {
        let raw = read_u16(slice_subrange(self.buffer.as_slice(), 6, 8));
        raw & 0x2000 != 0
    }

    /// The fragment offset in bytes; the shift by 3 both scales the stored
    /// 8-byte units and discards the flag bits.
    pub fn frag_offset(&self) -> (r: u16)
        requires
            self@.len() >= 8,
        ensures
            r == spec_frag_offset(self@),
    {
        let raw = read_u16(slice_subrange(self.buffer.as_slice(), 6, 8));
        raw << 3
    }

    /// The time-to-live field.
    pub fn hop_limit(&self) -> (r: u8)
        requires
            self@.len() >= 9,
        ensures
            r == spec_hop_limit(self@),
    {
        self.buffer[8]
    }

    /// The carried protocol, decoded; unknown wire values yield
    /// `Unsupported`, never an error.
    pub fn protocol(&self) -> (r: Protocol)
        requires
            self@.len() >= 10,
        ensures
            r == protocol_of(self@[9] as int),
    {
        Protocol::from(self.buffer[9])
    }

    /// The stored header checksum.
    pub fn checksum(&self) -> (r: u16)
        requires
            self@.len() >= 12,
        ensures
            r as int == spec_checksum(self@),
    {
        read_u16(slice_subrange(self.buffer.as_slice(), 10, 12))
    }

    /// The source address.
    pub fn src_addr(&self) -> (r: Address)
        requires
            self@.len() >= 16,
        ensures
            r.0@ == spec_src_addr(self@),
    {
        Address::from_bytes(slice_subrange(self.buffer.as_slice(), 12, 16))
    }

    /// The destination address.
    pub fn dst_addr(&self) -> (r: Address)
        requires
            self@.len() >= 20,
        ensures
            r.0@ == spec_dst_addr(self@),
    {
        Address::from_bytes(slice_subrange(self.buffer.as_slice(), 16, 20))
    }

    /// Compute the header checksum with the stored field excluded and
    /// compare its complement against the stored field.
    pub fn verify_checksum(&self) -> (r: bool)
        requires
            12 <= spec_header_len(self@) <= self@.len(),
        ensures
            r == checksum_valid(self@),
    {
        let hl = self.header_len() as usize;
        let header = slice_subrange(self.buffer.as_slice(), 0, hl);
        let computed = super::result(header);
        let stored = self.checksum();
        computed == stored
    }

    /// Write the version into the high nibble of byte 0, preserving the
    /// header-length nibble; reading the version back yields the low four
    /// bits of the value set.
    pub fn set_version(&mut self, version: u8)
        requires
            old(self)@.len() >= 1,
        ensures
            final(self)@ == old(self)@.update(0, (version & 0x0F) << 4 | (0x0F & old(self)@[0])),
            spec_version(final(self)@) == version & 0x0F,
            version < 16 ==> spec_version(final(self)@) == version,
            spec_header_len(final(self)@) == spec_header_len(old(self)@),
    {
        let b = self.buffer[0];
        let new = (version & 0x0F) << 4 | (0x0F & b);
        self.buffer.set(0, new);
        proof {
            lemma_set_version_bits(version, b);
        }
    }

    /// Write the header length, given in bytes, into the low nibble of
    /// byte 0 as a count of 32-bit words, preserving the version nibble;
    /// a multiple of 4 below 64 is read back exactly.
    pub fn set_header_len(&mut self, len: u8)
        requires
            old(self)@.len() >= 1,
        ensures
            final(self)@ == old(self)@.update(0, (old(self)@[0] & 0xF0) | ((len >> 2) & 0x0F)),
            spec_header_len(final(self)@) == len & 0x3C,
            len % 4 == 0 && len < 64 ==> spec_header_len(final(self)@) == len,
            spec_version(final(self)@) == spec_version(old(self)@),
    {
        let b = self.buffer[0];
        let new = (b & 0xF0) | ((len >> 2) & 0x0F);
        self.buffer.set(0, new);
        proof {
            lemma_set_header_len_bits(len, b);
        }
    }

    /// Write the DSCP field into the top 6 bits of byte 1, preserving the
    /// ECN bits; a value below 64 is read back exactly.
    pub fn set_dscp(&mut self, value: u8)
        requires
            old(self)@.len() >= 2,
        ensures
            final(self)@ == old(self)@.update(1, (old(self)@[1] & 0x03) | (value << 2)),
            spec_dscp(final(self)@) == value & 0x3F,
            value < 64 ==> spec_dscp(final(self)@) == value,
            spec_ecn(final(self)@) == spec_ecn(old(self)@),
    {
        let b = self.buffer[1];
        let new = (b & 0x03) | (value << 2);
        self.buffer.set(1, new);
        proof {
            lemma_set_dscp_bits(value, b);
        }
    }

    /// Write the ECN field into the bottom 2 bits of byte 1, preserving
    /// the DSCP bits; a value below 4 is read back exactly.
    pub fn set_ecn(&mut self, value: u8)
        requires
            old(self)@.len() >= 2,
        ensures
            final(self)@ == old(self)@.update(1, (old(self)@[1] & 0xFC) | (value & 0x03)),
            spec_ecn(final(self)@) == value & 0x03,
            value < 4 ==> spec_ecn(final(self)@) == value,
            spec_dscp(final(self)@) == spec_dscp(old(self)@),
    {
        let b = self.buffer[1];
        let new = (b & 0xFC) | (value & 0x03);
        self.buffer.set(1, new);
        proof {
            lemma_set_ecn_bits(value, b);
        }
    }

    /// Write the total length field, leaving every other byte unchanged.
    pub fn set_total_len(&mut self, len: u16)
        requires
            old(self)@.len() >= 4,
        ensures
            final(self)@ == old(self)@.update(2, ((len >> 8) & 0xFF) as u8).update(
                3,
                (len & 0xFF) as u8,
            ),
            spec_total_len(final(self)@) == len as int,
            forall|i: int|
                0 <= i < old(self)@.len() && i != 2 && i != 3
                    ==> final(self)@[i] == old(self)@[i],
    {
        write_u16_at(&mut self.buffer, 2, len);
        proof {
            lemma_word_roundtrip(len);
        }
    }

    /// Write the identification field, leaving every other byte unchanged.
    pub fn set_ident(&mut self, value: u16)
        requires
            old(self)@.len() >= 6,
        ensures
            final(self)@.len() == old(self)@.len(),
            spec_ident(final(self)@) == value as int,
            forall|i: int|
                0 <= i < old(self)@.len() && i != 4 && i != 5
                    ==> final(self)@[i] == old(self)@[i],
    {
        write_u16_at(&mut self.buffer, 4, value);
        proof {
            lemma_word_roundtrip(value);
        }
    }

    /// Clear all three flag bits, leaving the fragment offset and every
    /// byte outside the flags field unchanged.
    pub fn clear_flags(&mut self)
        requires
            old(self)@.len() >= 8,
        ensures
            final(self)@.len() == old(self)@.len(),
            spec_flg_off(final(self)@) == spec_flg_off(old(self)@) & !0xE000,
            !spec_dont_frag(final(self)@),
            !spec_more_frags(final(self)@),
            spec_frag_offset(final(self)@) == spec_frag_offset(old(self)@),
            forall|i: int|
                0 <= i < old(self)@.len() && i != 6 && i != 7
                    ==> final(self)@[i] == old(self)@[i],
    {
        let raw = read_u16(slice_subrange(self.buffer.as_slice(), 6, 8));
        let new = raw & !0xE000;
        write_u16_at(&mut self.buffer, 6, new);
        proof {
            lemma_word_roundtrip(new);
            lemma_clear_flags_bits(raw);
        }
    }

    /// Set or clear the don't-fragment flag, leaving the other flag, the
    /// fragment offset and every byte outside the flags field unchanged.
    pub fn set_dont_frag(&mut self, value: bool)
        requires
            old(self)@.len() >= 8,
        ensures
            final(self)@.len() == old(self)@.len(),
            spec_flg_off(final(self)@) == (if value {
                spec_flg_off(old(self)@) | 0x4000
            } else {
                spec_flg_off(old(self)@) & !0x4000
            }),
            spec_dont_frag(final(self)@) == value,
            spec_more_frags(final(self)@) == spec_more_frags(old(self)@),
            spec_frag_offset(final(self)@) == spec_frag_offset(old(self)@),
            forall|i: int|
                0 <= i < old(self)@.len() && i != 6 && i != 7
                    ==> final(self)@[i] == old(self)@[i],
    {
        let raw = read_u16(slice_subrange(self.buffer.as_slice(), 6, 8));
        let new = if value {
            raw | 0x4000
        } else {
            raw & !0x4000
        };
        write_u16_at(&mut self.buffer, 6, new);
        proof {
            lemma_word_roundtrip(new);
            lemma_set_dont_frag_bits(raw);
        }
    }

    /// Set or clear the more-fragments flag, leaving the other flag, the
    /// fragment offset and every byte outside the flags field unchanged.
    pub fn set_more_frags(&mut self, value: bool)
        requires
            old(self)@.len() >= 8,
        ensures
            final(self)@.len() == old(self)@.len(),
            spec_flg_off(final(self)@) == (if value {
                spec_flg_off(old(self)@) | 0x2000
            } else {
                spec_flg_off(old(self)@) & !0x2000
            }),
            spec_more_frags(final(self)@) == value,
            spec_dont_frag(final(self)@) == spec_dont_frag(old(self)@),
            spec_frag_offset(final(self)@) == spec_frag_offset(old(self)@),
            forall|i: int|
                0 <= i < old(self)@.len() && i != 6 && i != 7
                    ==> final(self)@[i] == old(self)@[i],
    {
        let raw = read_u16(slice_subrange(self.buffer.as_slice(), 6, 8));
        let new = if value {
            raw | 0x2000
        } else {
            raw & !0x2000
        };
        write_u16_at(&mut self.buffer, 6, new);
        proof {
            lemma_word_roundtrip(new);
            lemma_set_more_frags_bits(raw);
        }
    }

    /// Write the fragment offset, given in bytes, into the low 13 bits as
    /// a count of 8-byte units, preserving the flag bits; a multiple of 8
    /// is read back exactly.
    pub fn set_frag_offset(&mut self, value: u16)
        requires
            old(self)@.len() >= 8,
        ensures
            final(self)@.len() == old(self)@.len(),
            spec_flg_off(final(self)@) == (spec_flg_off(old(self)@) & 0xE000) | (value >> 3),
            spec_frag_offset(final(self)@) == value & 0xFFF8,
            value % 8 == 0 ==> spec_frag_offset(final(self)@) == value,
            spec_dont_frag(final(self)@) == spec_dont_frag(old(self)@),
            spec_more_frags(final(self)@) == spec_more_frags(old(self)@),
            forall|i: int|
                0 <= i < old(self)@.len() && i != 6 && i != 7
                    ==> final(self)@[i] == old(self)@[i],
    {
        let raw = read_u16(slice_subrange(self.buffer.as_slice(), 6, 8));
        let new = (raw & 0xE000) | (value >> 3);
        write_u16_at(&mut self.buffer, 6, new);
        proof {
            lemma_word_roundtrip(new);
            lemma_set_frag_offset_bits(raw, value);
        }
    }

    /// Write the time-to-live field into byte 8, leaving every other byte
    /// unchanged.
    pub fn set_hop_limit(&mut self, value: u8)
        requires
            old(self)@.len() >= 9,
        ensures
            final(self)@ == old(self)@.update(8, value),
            spec_hop_limit(final(self)@) == value,
    {
        self.buffer.set(8, value);
    }

    /// Encode the carried protocol into byte 9, leaving every other byte
    /// unchanged; reading the protocol back decodes that wire value.
    pub fn set_protocol(&mut self, protocol: Protocol)
        requires
            old(self)@.len() >= 10,
        ensures
            final(self)@ == old(self)@.update(9, protocol_to_wire(protocol)),
    {
        self.buffer.set(9, u8::from(protocol));
    }

    /// Write the header checksum field, leaving every other byte
    /// unchanged.
    pub fn set_checksum(&mut self, checksum: u16)
        requires
            old(self)@.len() >= 12,
        ensures
            final(self)@ == old(self)@.update(10, ((checksum >> 8) & 0xFF) as u8).update(
                11,
                (checksum & 0xFF) as u8,
            ),
            spec_checksum(final(self)@) == checksum as int,
            forall|i: int|
                0 <= i < old(self)@.len() && i != 10 && i != 11
                    ==> final(self)@[i] == old(self)@[i],
    {
        write_u16_at(&mut self.buffer, 10, checksum);
        proof {
            lemma_word_roundtrip(checksum);
        }
    }

    /// Write the source address, leaving every other byte unchanged.
    pub fn set_src_addr(&mut self, addr: Address)
        requires
            old(self)@.len() >= 16,
        ensures
            final(self)@.len() == old(self)@.len(),
            spec_src_addr(final(self)@) == addr.0@,
            forall|i: int|
                0 <= i < old(self)@.len() && !(12 <= i < 16)
                    ==> final(self)@[i] == old(self)@[i],
    {
        copy_into(&mut self.buffer, 12, addr.as_bytes());
    }

    /// Write the destination address, leaving every other byte unchanged.
    pub fn set_dst_addr(&mut self, addr: Address)
        requires
            old(self)@.len() >= 20,
        ensures
            final(self)@.len() == old(self)@.len(),
            spec_dst_addr(final(self)@) == addr.0@,
            forall|i: int|
                0 <= i < old(self)@.len() && !(16 <= i < 20)
                    ==> final(self)@[i] == old(self)@[i],
    {
        copy_into(&mut self.buffer, 16, addr.as_bytes());
    }

    /// Zero the checksum field, sum exactly the header bytes, and store
    /// the complement of the sum. The filled header always verifies: the
    /// IPv4 header checksum is idempotent under fill-then-verify.
    pub fn fill_checksum(&mut self)
        requires
            12 <= spec_header_len(old(self)@) <= old(self)@.len(),
        ensures
            final(self)@.len() == old(self)@.len(),
            forall|i: int|
                0 <= i < old(self)@.len() && i != 10 && i != 11
                    ==> final(self)@[i] == old(self)@[i],
            spec_checksum(final(self)@) == 0xFFFF - checksum_of(
                zero_checksum(old(self)@.subrange(0, spec_header_len(old(self)@) as int)),
            ),
            checksum_valid(final(self)@),
    {
        let ghost s0 = self@;
        let ghost hl = spec_header_len(s0) as int;
        self.set_checksum(0);
        proof {
            crate::wire::lemma_word_split(0u16);
            assert(self@.subrange(0, hl) =~= zero_checksum(s0.subrange(0, hl)));
        }
        let header_len = self.header_len() as usize;
        let c = checksum::data(slice_subrange(self.buffer.as_slice(), 0, header_len));
        let checksum = !c;
        proof {
            lemma_complement(c);
        }
        self.set_checksum(checksum);
        proof {
            assert(zero_checksum(self@.subrange(0, hl)) =~= zero_checksum(s0.subrange(0, hl)));
        }
    }

    /// Overwrite the payload region `[header length .. total length)` —
    /// never the trailing bytes beyond the declared total length — with
    /// the given bytes, which must exactly fill it; every byte outside the
    /// region stays unchanged.
    pub fn payload_mut(&mut self, data: &[u8])
        requires
            old(self)@.len() >= 1,
            spec_header_len(old(self)@) <= spec_total_len(old(self)@) <= old(self)@.len(),
            data@.len() == spec_total_len(old(self)@) - spec_header_len(old(self)@),
        ensures
            final(self)@.len() == old(self)@.len(),
            final(self)@.subrange(
                spec_header_len(old(self)@) as int,
                spec_total_len(old(self)@),
            ) == data@,
            forall|i: int|
                0 <= i < old(self)@.len() && !(spec_header_len(old(self)@) <= i
                    < spec_total_len(old(self)@)) ==> final(self)@[i] == old(self)@[i],
    {
        let start = self.header_len() as usize;
        copy_into(&mut self.buffer, start, data);
    }
}

/// Flipping any single bit of the checksummed header region of a datagram
/// whose checksum verifies makes the verification fail — except a flip
/// inside the header-length nibble itself, which changes which bytes the
/// verification reads.
pub proof fn lemma_checksum_sensitivity(s: Seq<u8>, i: int, k: u8)
    requires
        12 <= spec_header_len(s) <= s.len(),
        0 <= i < spec_header_len(s),
        k < 8,
        i != 0 || k >= 4,
        checksum_valid(s),
    ensures
        !checksum_valid(s.update(i, flip_bit(s[i], k))),
{
    let hl = spec_header_len(s) as int;
    let b = s[i];
    let b2 = flip_bit(b, k);
    let s2 = s.update(i, b2);
    assert((b ^ (1u8 << k)) != b) by (bit_vector)
        requires
            k < 8,
    ;
    if i == 0 {
        assert(((b ^ (1u8 << k)) & 0x0F) << 2 == (b & 0x0F) << 2) by (bit_vector)
            requires
                4 <= k < 8,
        ;
    }
    assert(spec_header_len(s2) == spec_header_len(s));
    let region = zero_checksum(s.subrange(0, hl));
    let region2 = zero_checksum(s2.subrange(0, hl));
    if i == 10 || i == 11 {
        assert(region2 =~= region);
        assert(spec_checksum(s2) != spec_checksum(s));
    } else {
        assert(region2 =~= region.update(i, b2));
        assert(region[i] == s[i]);
        lemma_checksum_bit_flip(region, i, k);
        assert(spec_checksum(s2) == spec_checksum(s));
    }
}

/// Bit-level facts about writing the version nibble.
proof fn lemma_set_version_bits(v: u8, b: u8)
    by (bit_vector)
    ensures
        ((v & 0x0F) << 4 | (0x0F & b)) >> 4 == v & 0x0F,
        v < 16 ==> v & 0x0F == v,
        (((v & 0x0F) << 4 | (0x0F & b)) & 0x0F) << 2 == (b & 0x0F) << 2,
{
}

/// Bit-level facts about writing the header-length nibble.
proof fn lemma_set_header_len_bits(l: u8, b: u8)
    by (bit_vector)
    ensures
        ((((b & 0xF0) | ((l >> 2) & 0x0F)) & 0x0F) << 2) == l & 0x3C,
        ((b & 0xF0) | ((l >> 2) & 0x0F)) >> 4 == b >> 4,
        l % 4 == 0 && l < 64 ==> l & 0x3C == l,
{
}

/// Bit-level facts about writing the DSCP bits.
proof fn lemma_set_dscp_bits(v: u8, b: u8)
    by (bit_vector)
    ensures
        ((b & 0x03) | (v << 2)) >> 2 == v & 0x3F,
        ((b & 0x03) | (v << 2)) & 0x03 == b & 0x03,
        v < 64 ==> v & 0x3F == v,
{
}

/// Bit-level facts about writing the ECN bits.
proof fn lemma_set_ecn_bits(v: u8, b: u8)
    by (bit_vector)
    ensures
        ((b & 0xFC) | (v & 0x03)) & 0x03 == v & 0x03,
        ((b & 0xFC) | (v & 0x03)) >> 2 == b >> 2,
        v < 4 ==> v & 0x03 == v,
{
}

/// Bit-level facts about clearing the flag bits.
proof fn lemma_clear_flags_bits(r: u16)
    by (bit_vector)
    ensures
        (r & !0xE000) & 0x4000 == 0,
        (r & !0xE000) & 0x2000 == 0,
        (r & !0xE000) << 3 == r << 3,
{
}

/// Bit-level facts about writing the don't-fragment flag.
proof fn lemma_set_dont_frag_bits(r: u16)
    by (bit_vector)
    ensures
        (r | 0x4000) & 0x4000 != 0,
        (r & !0x4000) & 0x4000 == 0,
        (r | 0x4000) & 0x2000 == r & 0x2000,
        (r & !0x4000) & 0x2000 == r & 0x2000,
        (r | 0x4000) << 3 == r << 3,
        (r & !0x4000) << 3 == r << 3,
{
}

/// Bit-level facts about writing the more-fragments flag.
proof fn lemma_set_more_frags_bits(r: u16)
    by (bit_vector)
    ensures
        (r | 0x2000) & 0x2000 != 0,
        (r & !0x2000) & 0x2000 == 0,
        (r | 0x2000) & 0x4000 == r & 0x4000,
        (r & !0x2000) & 0x4000 == r & 0x4000,
        (r | 0x2000) << 3 == r << 3,
        (r & !0x2000) << 3 == r << 3,
{
}

/// Bit-level facts about writing the fragment offset.
proof fn lemma_set_frag_offset_bits(r: u16, v: u16)
    by (bit_vector)
    ensures
        ((r & 0xE000) | (v >> 3)) << 3 == v & 0xFFF8,
        ((r & 0xE000) | (v >> 3)) & 0x4000 == r & 0x4000,
        ((r & 0xE000) | (v >> 3)) & 0x2000 == r & 0x2000,
        v % 8 == 0 ==> v & 0xFFF8 == v,
{
}

} // verus!
