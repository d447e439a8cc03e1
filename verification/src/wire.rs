//! Big-endian 16-bit field access for header buffers.
//!
//! Every multi-byte header field in this crate is a 16-bit quantity stored
//! big end first; reading and writing such fields goes through the
//! `byteorder` crate, behind the two trusted wrappers below.

use vstd::prelude::*;

verus! {

/// The big-endian 16-bit word formed by a high byte and a low byte.
pub open spec fn word_of(hi: u8, lo: u8) -> int {
    (hi as int) * 256 + (lo as int)
}

/// Relies on byteorder's `NetworkEndian::read_u16` (network order is big
/// endian): it returns the first two bytes of the slice as one 16-bit word,
/// big end first, and panics on a slice shorter than two bytes.
#[verifier::external_body]
pub(crate) fn read_u16(data: &[u8]) -> (r: u16)
    requires
        data@.len() >= 2,
    ensures
        r as int == word_of(data@[0], data@[1]),
{
    <byteorder::NetworkEndian as byteorder::ByteOrder>::read_u16(data)
}

/// Relies on byteorder's `NetworkEndian::write_u16` (network order is big
/// endian): it stores the word into the first two bytes of the slice, big
/// end first, and panics on a slice shorter than two bytes.
#[verifier::external_body]
pub(crate) fn write_u16_at(data: &mut Vec<u8>, offset: usize, value: u16)
    requires
        offset + 2 <= old(data)@.len(),
    ensures
        final(data)@ == old(data)@.update(offset as int, ((value >> 8) & 0xFF) as u8).update(
            offset as int + 1,
            (value & 0xFF) as u8,
        ),
{
    <byteorder::NetworkEndian as byteorder::ByteOrder>::write_u16(
        &mut data[offset..offset + 2],
        value,
    )
}

/// Copy `src` verbatim into `dst` starting at `offset`, leaving every byte
/// outside the target range unchanged.
pub(crate) fn copy_into(dst: &mut Vec<u8>, offset: usize, src: &[u8])
    requires
        offset + src@.len() <= old(dst)@.len(),
    ensures
        final(dst)@.len() == old(dst)@.len(),
        final(dst)@.subrange(offset as int, offset + src@.len()) == src@,
        forall|i: int|
            0 <= i < old(dst)@.len() && !(offset <= i < offset + src@.len())
                ==> final(dst)@[i] == old(dst)@[i],
{
    let n: usize = dst.len();
    let mut j: usize = 0;
    while j < src.len()
        invariant
            j <= src@.len(),
            offset + src@.len() <= dst@.len() == n,
            dst@.len() == old(dst)@.len(),
            forall|i: int| offset <= i < offset + j ==> dst@[i] == src@[i - offset],
            forall|i: int|
                0 <= i < old(dst)@.len() && !(offset <= i < offset + j)
                    ==> dst@[i] == old(dst)@[i],
        decreases src@.len() - j,
    {
        dst.set(offset + j, src[j]);
        j = j + 1;
    }
    proof {
        assert(dst@.subrange(offset as int, offset + src@.len()) =~= src@);
    }
}

/// The two bytes written for a 16-bit word recombine to that word, and each
/// fits in a byte.
pub proof fn lemma_word_split(value: u16)
    by (bit_vector)
    ensures
        ((value >> 8) & 0xFF) < 256,
        (value & 0xFF) < 256,
        ((value >> 8) & 0xFF) * 256 + (value & 0xFF) == value,
{
}

/// Recombining the two bytes of a written word yields the word itself.
pub proof fn lemma_word_roundtrip(value: u16)
    ensures
        word_of(((value >> 8) & 0xFF) as u8, (value & 0xFF) as u8) == value as int,
{
    lemma_word_split(value);
}

} // verus!
