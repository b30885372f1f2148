//! Big-endian integers on the wire, read and written through `byteorder`.
use byteorder::{BigEndian, ByteOrder, WriteBytesExt};
use vstd::prelude::*;

verus! {

/// The two big-endian bytes of `n`.
pub open spec fn be16(n: u16) -> Seq<u8> {
    seq![(n / 256) as u8, (n % 256) as u8]
}

/// The four big-endian bytes of `n`.
pub open spec fn be32(n: u32) -> Seq<u8> {
    seq![(n / 0x100_0000) as u8, ((n / 0x1_0000) % 256) as u8, ((n / 256) % 256) as u8, (n % 256) as u8]
}

/// The value of the big-endian 16-bit integer at the start of `b`.
pub open spec fn read16(b: Seq<u8>) -> int {
    b[0] * 256 + b[1]
}

/// The value of the big-endian 32-bit integer at the start of `b`.
pub open spec fn read32(b: Seq<u8>) -> int {
    ((b[0] * 256 + b[1]) * 256 + b[2]) * 256 + b[3]
}

/// Relies on `BigEndian::read_u16`: the first two bytes, most significant first.
#[verifier::external_body]
pub(crate) fn read_u16(buf: &[u8]) -> (r: u16)
    requires
        buf@.len() >= 2,
    ensures
        r == read16(buf@),
{
    BigEndian::read_u16(buf)
}

/// Relies on `BigEndian::read_u32`: the first four bytes, most significant first.
#[verifier::external_body]
pub(crate) fn read_u32(buf: &[u8]) -> (r: u32)
    requires
        buf@.len() >= 4,
    ensures
        r == read32(buf@),
{
    BigEndian::read_u32(buf)
}

/// Relies on `WriteBytesExt::write_u16::<BigEndian>` on a `Vec<u8>`, which
/// appends the two bytes and cannot fail.
#[verifier::external_body]
pub(crate) fn push_u16(buf: &mut Vec<u8>, n: u16)
    ensures
        final(buf)@ == old(buf)@ + be16(n),
{
    buf.write_u16::<BigEndian>(n).unwrap()
}

/// Relies on `WriteBytesExt::write_u32::<BigEndian>` on a `Vec<u8>`, which
/// appends the four bytes and cannot fail.
#[verifier::external_body]
pub(crate) fn push_u32(buf: &mut Vec<u8>, n: u32)
    ensures
        final(buf)@ == old(buf)@ + be32(n),
{
    buf.write_u32::<BigEndian>(n).unwrap()
}

} // verus!
