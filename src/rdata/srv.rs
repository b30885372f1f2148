//! Service records: where a service runs.
use vstd::prelude::*;
use crate::error::Error;
use crate::name::{decode, lemma_encode_len, Name};
use crate::wire::{be16, push_u16, read16, read_u16};
use super::RData;

verus! {

/// The type code of service records.
pub const TYPE: u16 = 33;

/// A service record.
#[derive(Debug)]
pub struct Record {
    pub priority: u16,
    pub weight: u16,
    pub port: u16,
    pub target: Name,
}

/// What decoding `rdata` as a service record gives: priority, weight and
/// port as 16-bit integers, then the target name; fewer than seven bytes are
/// refused.
pub open spec fn parsed(r: Result<RData, Error>, rdata: Seq<u8>, original: Seq<u8>) -> bool {
    if rdata.len() < 7 {
        r == Err::<RData, Error>(Error::WrongRdataLength)
    } else {
        let rest = rdata.subrange(6, rdata.len() as int);
        match decode(rest, original) {
            Ok(_) => r is Ok && r->Ok_0 is SRV && r->Ok_0->SRV_0.priority == read16(rdata)
                && r->Ok_0->SRV_0.weight == read16(rdata.subrange(2, 4))
                && r->Ok_0->SRV_0.port == read16(rdata.subrange(4, 6))
                && r->Ok_0->SRV_0.target.decoded_from(rest, original),
            Err(e) => r == Err::<RData, Error>(e),
        }
    }
}

impl Record {
    pub open spec fn wire(self) -> Seq<u8> {
        be16(self.priority) + be16(self.weight) + be16(self.port) + self.target.wire()
    }

    pub open spec fn encodable(self) -> bool {
        self.target.encodable() && self.wire().len() <= 0xFFFF
    }

    /// Decodes the three integers and the target host.
    pub fn parse(rdata: &[u8], original: &[u8]) -> (r: Result<RData, Error>)
        ensures
            parsed(r, rdata@, original@),
    {
        if rdata.len() < 7 {
            return Err(Error::WrongRdataLength);
        }
        let priority = read_u16(&rdata[0..2]);
        let weight = read_u16(&rdata[2..4]);
        let port = read_u16(&rdata[4..6]);
        assert(rdata@.subrange(0, 2)[0] == rdata@[0] && rdata@.subrange(0, 2)[1] == rdata@[1]);
        match Name::scan(&rdata[6..rdata.len()], original) {
            Ok(target) => Ok(RData::SRV(Record { priority, weight, port, target })),
            Err(e) => Err(e),
        }
    }

    pub fn length(&self) -> (r: u16)
        requires
            self.encodable(),
        ensures
            r == self.wire().len(),
    {
        proof {
            lemma_encode_len(self.target.text_bytes());
        }
        6 + self.target.octet_length()
    }

    pub fn to_bytes(&self) -> (r: Vec<u8>)
        requires
            self.encodable(),
        ensures
            r@ == self.wire(),
    {
        let mut buf: Vec<u8> = Vec::new();
        push_u16(&mut buf, self.priority);
        push_u16(&mut buf, self.weight);
        push_u16(&mut buf, self.port);
        let mut name = self.target.to_bytes();
        buf.append(&mut name);
        assert(buf@ =~= self.wire());
        buf
    }
}

} // verus!
