//! Little-endian encoding of machine words.
use vstd::prelude::*;
use vstd::bytes::{spec_u64_from_le_bytes, spec_u64_to_le_bytes};
use byteorder::{ByteOrder, LittleEndian};

verus! {

/// Relies on byteorder's `LittleEndian::read_u64`: the first eight bytes of
/// `buf` read as a little-endian integer (it panics on fewer than eight).
#[verifier::external_body]
pub(crate) fn read_u64_le(buf: &[u8]) -> (r: u64)
    requires
        buf@.len() >= 8,
    ensures
        r == spec_u64_from_le_bytes(buf@.subrange(0, 8)),
{
    LittleEndian::read_u64(buf)
}

/// Relies on byteorder's `LittleEndian::write_u64`: it stores `n` into the
/// first eight bytes of the buffer, least significant byte first.
#[verifier::external_body]
pub(crate) fn pack_u64_le(n: u64) -> (r: Vec<u8>)
    ensures
        r@ == spec_u64_to_le_bytes(n),
        r@.len() == 8,
{
    let mut buf = vec![0u8; 8];
    LittleEndian::write_u64(&mut buf, n);
    buf
}

/// Encodes a machine word as the target stores it.
pub fn native_pack(n: u64) -> (r: Vec<u8>)
    ensures
        r@ == spec_u64_to_le_bytes(n),
        r@.len() == 8,
{
    pack_u64_le(n)
}

/// Decodes the machine word stored in the first eight bytes of `buf`.
pub fn native_unpack(buf: &[u8]) -> (r: u64)
    requires
        buf@.len() >= 8,
    ensures
        r == spec_u64_from_le_bytes(buf@.subrange(0, 8)),
{
    read_u64_le(buf)
}

/// Decoding an encoded word gives the word back.
pub proof fn lemma_unpack_pack(n: u64)
    ensures
        spec_u64_from_le_bytes(spec_u64_to_le_bytes(n)) == n,
        spec_u64_to_le_bytes(n).len() == 8,
{
    vstd::bytes::lemma_auto_spec_u64_to_from_le_bytes();
}

} // verus!
