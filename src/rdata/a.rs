//! Address records: an IPv4 address.
use vstd::prelude::*;
use crate::error::Error;
use crate::wire::{be32, push_u32, read32, read_u32};
use super::RData;

verus! {

/// The type code of address records.
pub const TYPE: u16 = 1;

/// An IPv4 address, as the big-endian integer of its four octets.
#[derive(Debug, PartialEq, Eq, Structural, Clone, Copy)]
pub struct Record(pub u32);

/// What decoding `rdata` as an address gives: exactly four bytes, read
/// most significant first.
pub open spec fn parsed(r: Result<RData, Error>, rdata: Seq<u8>) -> bool {
    if rdata.len() == 4 {
        r == Ok::<RData, Error>(RData::A(Record(read32(rdata) as u32)))
    } else {
        r == Err::<RData, Error>(Error::WrongRdataLength)
    }
}

impl Record {
    pub open spec fn wire(self) -> Seq<u8> {
        be32(self.0)
    }

    /// Decodes an address from its four payload bytes.
    pub fn parse(rdata: &[u8], _original: &[u8]) -> (r: Result<RData, Error>)
        ensures
            parsed(r, rdata@),
    {
        if rdata.len() != 4 {
            return Err(Error::WrongRdataLength);
        }
        let address = read_u32(rdata);
        Ok(RData::A(Record(address)))
    }

    pub fn length(&self) -> (r: u16)
        ensures
            r == self.wire().len(),
    {
        4
    }

    pub fn to_bytes(&self) -> (r: Vec<u8>)
        ensures
            r@ == self.wire(),
    {
        let mut buf: Vec<u8> = Vec::new();
        push_u32(&mut buf, self.0);
        assert(buf@ =~= self.wire());
        buf
    }
}

/// Re-encoding a decoded address gives back the four payload bytes.
pub proof fn lemma_round_trip(rdata: Seq<u8>, r: Result<RData, Error>)
    requires
        rdata.len() == 4,
        parsed(r, rdata),
    ensures
        r is Ok,
        r->Ok_0.wire() == rdata,
{
    let (b0, b1, b2, b3) = (rdata[0] as int, rdata[1] as int, rdata[2] as int, rdata[3] as int);
    let x = ((b0 * 256 + b1) * 256 + b2) * 256 + b3;
    assert(x / 0x100_0000 == b0 && (x / 0x1_0000) % 256 == b1 && (x / 256) % 256 == b2 && x % 256
        == b3) by (nonlinear_arith)
        requires
            0 <= b0 < 256,
            0 <= b1 < 256,
            0 <= b2 < 256,
            0 <= b3 < 256,
            x == ((b0 * 256 + b1) * 256 + b2) * 256 + b3,
    ;
    assert(0 <= x < 0x1_0000_0000) by (nonlinear_arith)
        requires
            0 <= b0 < 256,
            0 <= b1 < 256,
            0 <= b2 < 256,
            0 <= b3 < 256,
            x == ((b0 * 256 + b1) * 256 + b2) * 256 + b3,
    ;
    assert(be32(x as u32) =~= rdata);
}

} // verus!
