//! The ICMPv4 message: type, code and checksum, then a 4-byte trailer whose
//! meaning depends on the type (identifier and sequence number for Echo,
//! opaque otherwise), followed by the message body.
//!
//! Field offsets: type `[0]`, code `[1]`, checksum `[2..4)`, echo identifier
//! `[4..6)`, echo sequence number `[6..8)`, body `[8..)`. Minimum length 8.
//!
//! The ICMP checksum covers the **entire** buffer (header and body), and a
//! received message verifies by summing the buffer as is and requiring the
//! all-ones result 0xFFFF.

use crate::checksum::{
    self, checksum_of, flip_bit, lemma_checksum_bit_flip, lemma_complement,
    lemma_complement_folds_all_ones, lemma_sum_words_update, MAX_SUM_LEN,
};
use crate::wire::{copy_into, lemma_word_roundtrip, lemma_word_split, read_u16, word_of,
    write_u16_at};
use crate::Error;
use vstd::prelude::*;
use vstd::slice::slice_subrange;

verus! {

/// The ICMPv4 message type.
#[derive(Clone, Copy, Debug, PartialEq, Eq, Structural)]
pub enum Message {
    EchoReply,
    EchoRequest,
    Unsupported,
}

/// How a wire value decodes: Echo Reply is type 0, Echo Request is type 8,
/// and every other value is `Unsupported` — never an error.
pub open spec fn message_of(raw: int) -> Message {
    if raw == 0 {
        Message::EchoReply
    } else if raw == 8 {
        Message::EchoRequest
    } else {
        Message::Unsupported
    }
}

/// The canonical wire value of each message type.
pub open spec fn message_to_wire(m: Message) -> u8 {
    match m {
        Message::EchoReply => 0,
        Message::EchoRequest => 8,
        Message::Unsupported => 0xFF,
    }
}

/// Encoding a message type and decoding it again yields the type itself.
pub proof fn lemma_message_roundtrip(m: Message)
    ensures
        message_of(message_to_wire(m) as int) == m,
{
}

impl core::convert::From<u8> for Message {
    /// Decode a wire value; unknown values yield `Unsupported`.
    fn from(val: u8) -> (r: Message) {
        if val == 0 {
            Message::EchoReply
        } else if val == 8 {
            Message::EchoRequest
        } else {
            Message::Unsupported
        }
    }
}

impl vstd::std_specs::convert::FromSpecImpl<u8> for Message {
    open spec fn obeys_from_spec() -> bool {
        true
    }

    open spec fn from_spec(val: u8) -> Message {
        message_of(val as int)
    }
}

impl core::convert::From<Message> for u8 {
    /// Encode a message type as its wire value.
    fn from(msg: Message) -> (r: u8) {
        match msg {
            Message::EchoReply => 0,
            Message::EchoRequest => 8,
            Message::Unsupported => 0xFF,
        }
    }
}

impl vstd::std_specs::convert::FromSpecImpl<Message> for u8 {
    open spec fn obeys_from_spec() -> bool {
        true
    }

    open spec fn from_spec(m: Message) -> u8 {
        message_to_wire(m)
    }
}

/// The minimum (and, for every modeled type, the actual) header length.
pub const HEADER_LEN: usize = 8;

/// The stored checksum field at bytes 2 and 3, big end first.
pub open spec fn spec_checksum(s: Seq<u8>) -> int
    recommends
        s.len() >= 4,
{
    word_of(s[2], s[3])
}

/// A received message verifies when the checksum of the whole buffer, taken
/// as is, is the all-ones value 0xFFFF.
pub open spec fn checksum_valid(s: Seq<u8>) -> bool {
    checksum_of(s) == 0xFFFF
}

/// The result of validating a buffer's length: anything shorter than the
/// 8-byte header is `Truncated`.
pub open spec fn spec_check_len(s: Seq<u8>) -> Result<(), Error> {
    if s.len() < 8 {
        Err(Error::Truncated)
    } else {
        Ok(())
    }
}

/// Flipping any single bit of a message whose checksum verifies makes the
/// verification fail: the ones'-complement checksum is sensitive to every
/// bit of the buffer it covers.
pub proof fn lemma_checksum_sensitivity(s: Seq<u8>, i: int, k: u8)
    requires
        0 <= i < s.len(),
        k < 8,
        checksum_valid(s),
    ensures
        !checksum_valid(s.update(i, flip_bit(s[i], k))),
{
    lemma_checksum_bit_flip(s, i, k);
}

/// A view interpreting a byte buffer as an ICMPv4 message. The view adds no
/// state of its own: its whole identity is the buffer's bytes.
pub struct Packet {
    buffer: Vec<u8>,
}

impl View for Packet {
    type V = Seq<u8>;

    closed spec fn view(&self) -> Seq<u8> {
        self.buffer@
    }
}

impl Packet {
    /// Wrap a buffer without validating its length.
    pub fn new_unchecked(buffer: Vec<u8>) -> (r: Packet)
        ensures
            r@ == buffer@,
    {
        Packet { buffer }
    }

    /// Wrap a buffer, failing with `Truncated` when it cannot hold the
    /// 8-byte header.
    pub fn new_checked(buffer: Vec<u8>) -> (r: Result<Packet, Error>)
        ensures
            r is Ok <==> buffer@.len() >= 8,
            r is Ok ==> r->Ok_0@ == buffer@,
            r is Err ==> r->Err_0 == Error::Truncated,
    {
        let packet = Self::new_unchecked(buffer);
        match packet.check_len() {
            Ok(_) => Ok(packet),
            Err(e) => Err(e),
        }
    }

    /// Validate the buffer length against the fixed header length.
    pub fn check_len(&self) -> (r: Result<(), Error>)
        ensures
            r == spec_check_len(self@),
    {
        if self.buffer.len() < HEADER_LEN {
            Err(Error::Truncated)
        } else {
            Ok(())
        }
    }

    /// Give the underlying buffer back.
    pub fn into_inner(self) -> (r: Vec<u8>)
        ensures
            r@ == self@,
    {
        self.buffer
    }

    /// Borrow the whole underlying buffer.
    pub fn as_bytes(&self) -> (r: &[u8])
        ensures
            r@ == self@,
    {
        self.buffer.as_slice()
    }

    /// The message type, decoded; unknown wire values yield `Unsupported`,
    /// never an error.
    pub fn msg_type(&self) -> (r: Message)
        requires
            self@.len() >= 1,
        ensures
            r == message_of(self@[0] as int),
    {
        Message::from(self.buffer[0])
    }

    /// The message code at byte 1.
    pub fn msg_code(&self) -> (r: u8)
        requires
            self@.len() >= 2,
        ensures
            r == self@[1],
    {
        self.buffer[1]
    }

    /// The stored checksum field.
    pub fn checksum(&self) -> (r: u16)
        requires
            self@.len() >= 4,
        ensures
            r as int == spec_checksum(self@),
    {
        read_u16(slice_subrange(self.buffer.as_slice(), 2, 4))
    }

    /// The echo identifier at bytes `[4..6)`; meaningful for Echo Request
    /// and Echo Reply messages.
    pub fn echo_ident(&self) -> (r: u16)
        requires
            self@.len() >= 6,
        ensures
            r as int == word_of(self@[4], self@[5]),
    {
        read_u16(slice_subrange(self.buffer.as_slice(), 4, 6))
    }

    /// The echo sequence number at bytes `[6..8)`; meaningful for Echo
    /// Request and Echo Reply messages.
    pub fn echo_seq_no(&self) -> (r: u16)
        requires
            self@.len() >= 8,
        ensures
            r as int == word_of(self@[6], self@[7]),
    {
        read_u16(slice_subrange(self.buffer.as_slice(), 6, 8))
    }

    /// The header length for this message's type: numerically 8 for every
    /// modeled type, though the trailer's meaning differs.
    pub fn header_len(&self) -> (r: usize)
        requires
            self@.len() >= 1,
        ensures
            r == HEADER_LEN,
    {
        match self.msg_type() {
            Message::EchoRequest => 8,
            Message::EchoReply => 8,
            _ => 8,
        }
    }

    /// Sum the whole buffer as received and compare against all-ones.
    pub fn verify_checksum(&self) -> (r: bool)
        requires
            8 <= self@.len() <= MAX_SUM_LEN,
        ensures
            r == checksum_valid(self@),
    {
        checksum::data(self.buffer.as_slice()) == 0xFFFF
    }

    /// Write the message type into byte 0, leaving every other byte
    /// unchanged; reading the type back yields the type set.
    pub fn set_msg_type(&mut self, msg_type: Message)
        requires
            old(self)@.len() >= 1,
        ensures
            final(self)@ == old(self)@.update(0, message_to_wire(msg_type)),
            message_of(final(self)@[0] as int) == msg_type,
    {
        self.buffer.set(0, u8::from(msg_type));
        proof {
            lemma_message_roundtrip(msg_type);
        }
    }

    /// Write the message code into byte 1, leaving every other byte
    /// unchanged.
    pub fn set_msg_code(&mut self, code: u8)
        requires
            old(self)@.len() >= 2,
        ensures
            final(self)@ == old(self)@.update(1, code),
    {
        self.buffer.set(1, code);
    }

    /// Write the checksum field, leaving every other byte unchanged.
    pub fn set_checksum(&mut self, checksum: u16)
        requires
            old(self)@.len() >= 4,
        ensures
            final(self)@ == old(self)@.update(2, ((checksum >> 8) & 0xFF) as u8).update(
                3,
                (checksum & 0xFF) as u8,
            ),
            spec_checksum(final(self)@) == checksum as int,
            forall|i: int|
                0 <= i < old(self)@.len() && i != 2 && i != 3
                    ==> final(self)@[i] == old(self)@[i],
    {
        write_u16_at(&mut self.buffer, 2, checksum);
        proof {
            lemma_word_roundtrip(checksum);
        }
    }

    /// Write the echo identifier, leaving every other byte unchanged.
    pub fn set_echo_ident(&mut self, ident: u16)
        requires
            old(self)@.len() >= 6,
        ensures
            final(self)@.len() == old(self)@.len(),
            word_of(final(self)@[4], final(self)@[5]) == ident as int,
            forall|i: int|
                0 <= i < old(self)@.len() && i != 4 && i != 5
                    ==> final(self)@[i] == old(self)@[i],
    {
        write_u16_at(&mut self.buffer, 4, ident);
        proof {
            lemma_word_roundtrip(ident);
        }
    }

    /// Write the echo sequence number, leaving every other byte unchanged.
    pub fn set_echo_seq_no(&mut self, number: u16)
        requires
            old(self)@.len() >= 8,
        ensures
            final(self)@.len() == old(self)@.len(),
            word_of(final(self)@[6], final(self)@[7]) == number as int,
            forall|i: int|
                0 <= i < old(self)@.len() && i != 6 && i != 7
                    ==> final(self)@[i] == old(self)@[i],
    {
        write_u16_at(&mut self.buffer, 6, number);
        proof {
            lemma_word_roundtrip(number);
        }
    }

    /// Zero the checksum field, sum the whole buffer, and store the
    /// complement of the sum. The filled message always verifies: the ICMP
    /// checksum is idempotent under fill-then-verify.
    pub fn fill_checksum(&mut self)
        requires
            8 <= old(self)@.len() <= MAX_SUM_LEN,
        ensures
            final(self)@.len() == old(self)@.len(),
            forall|i: int|
                0 <= i < old(self)@.len() && i != 2 && i != 3
                    ==> final(self)@[i] == old(self)@[i],
            checksum_valid(final(self)@),
    {
        self.set_checksum(0);
        let ghost s1 = self@;
        let c = checksum::data(self.buffer.as_slice());
        let checksum = !c;
        self.set_checksum(checksum);
        proof {
            lemma_word_split(0u16);
            assert(s1[2] == 0 && s1[3] == 0);
            lemma_complement(c);
            let hi = ((checksum >> 8) & 0xFF) as u8;
            let lo = (checksum & 0xFF) as u8;
            lemma_sum_words_update(s1, 2, hi);
            lemma_sum_words_update(s1.update(2, hi), 3, lo);
            assert(s1.update(2, hi)[3] == 0);
            lemma_word_split(checksum);
            assert(checksum::sum_words(self@) == checksum::sum_words(s1) + 0xFFFF - c as int);
            checksum::lemma_sum_words_nonneg(s1);
            lemma_complement_folds_all_ones(checksum::sum_words(s1));
        }
    }

    /// Overwrite the message body after the 8-byte header with the given
    /// bytes, which must exactly fill it; the header stays unchanged.
    pub fn data_mut(&mut self, data: &[u8])
        requires
            old(self)@.len() >= 8,
            data@.len() == old(self)@.len() - 8,
        ensures
            final(self)@.len() == old(self)@.len(),
            final(self)@.skip(8) == data@,
            forall|i: int| 0 <= i < 8 ==> final(self)@[i] == old(self)@[i],
    {
        let start = self.header_len();
        copy_into(&mut self.buffer, start, data);
        proof {
            assert(self@.skip(8) =~= self@.subrange(8, 8 + data@.len() as int));
        }
    }
}

} // verus!
