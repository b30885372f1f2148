//! Start-of-authority records: the parameters of a zone.
use vstd::prelude::*;
use crate::error::Error;
use crate::name::{decode, lemma_encode_len, name_span, Name};
use crate::wire::{be32, push_u32, read32, read_u32};
use super::RData;

verus! {

/// The type code of start-of-authority records.
pub const TYPE: u16 = 6;

/// A start-of-authority record.
#[derive(Debug)]
pub struct Record {
    pub primary_ns: Name,
    pub mailbox: Name,
    pub serial: u32,
    pub refresh: u32,
    pub retry: u32,
    pub expire: u32,
    pub minimum_ttl: u32,
}

/// The five 32-bit fields that follow the two names, at `q` of `rdata`.
pub open spec fn fields_at(s: Record, rdata: Seq<u8>, q: int) -> bool {
    s.serial == read32(rdata.subrange(q, q + 4)) && s.refresh == read32(rdata.subrange(q + 4, q + 8))
        && s.retry == read32(rdata.subrange(q + 8, q + 12)) && s.expire == read32(
        rdata.subrange(q + 12, q + 16),
    ) && s.minimum_ttl == read32(rdata.subrange(q + 16, q + 20))
}

/// What decoding `rdata` as a start-of-authority record gives: two names,
/// one after the other, then at least twenty bytes of five 32-bit fields.
pub open spec fn parsed(r: Result<RData, Error>, rdata: Seq<u8>, original: Seq<u8>) -> bool {
    match decode(rdata, original) {
        Err(e) => r == Err::<RData, Error>(e),
        Ok(_) => {
            let p = name_span(rdata, 0);
            let rest = rdata.subrange(p, rdata.len() as int);
            match decode(rest, original) {
                Err(e) => r == Err::<RData, Error>(e),
                Ok(_) => {
                    let q = p + name_span(rest, 0);
                    if rdata.len() - q < 20 {
                        r == Err::<RData, Error>(Error::WrongRdataLength)
                    } else {
                        r is Ok && r->Ok_0 is SOA && r->Ok_0->SOA_0.primary_ns.decoded_from(
                            rdata,
                            original,
                        ) && r->Ok_0->SOA_0.mailbox.decoded_from(rest, original) && fields_at(
                            r->Ok_0->SOA_0,
                            rdata,
                            q,
                        )
                    }
                },
            }
        },
    }
}

impl Record {
    pub open spec fn wire(self) -> Seq<u8> {
        self.primary_ns.wire() + self.mailbox.wire() + be32(self.serial) + be32(self.refresh)
            + be32(self.retry) + be32(self.expire) + be32(self.minimum_ttl)
    }

    pub open spec fn encodable(self) -> bool {
        self.primary_ns.encodable() && self.mailbox.encodable() && self.wire().len() <= 0xFFFF
    }

    /// Decodes the two names and the five integers.
    pub fn parse(rdata: &[u8], original: &[u8]) -> (r: Result<RData, Error>)
        ensures
            parsed(r, rdata@, original@),
    {
        let primary_ns = match Name::scan(rdata, original) {
            Ok(n) => n,
            Err(e) => return Err(e),
        };
        let pos = primary_ns.byte_len();
        let rest = &rdata[pos..rdata.len()];
        let mailbox = match Name::scan(rest, original) {
            Ok(n) => n,
            Err(e) => return Err(e),
        };
        let pos = pos + mailbox.byte_len();
        if rdata.len() - pos < 20 {
            return Err(Error::WrongRdataLength);
        }
        let record = Record {
            primary_ns,
            mailbox,
            serial: read_u32(&rdata[pos..pos + 4]),
            refresh: read_u32(&rdata[pos + 4..pos + 8]),
            retry: read_u32(&rdata[pos + 8..pos + 12]),
            expire: read_u32(&rdata[pos + 12..pos + 16]),
            minimum_ttl: read_u32(&rdata[pos + 16..pos + 20]),
        };
        Ok(RData::SOA(record))
    }

    pub fn length(&self) -> (r: u16)
        requires
            self.encodable(),
        ensures
            r == self.wire().len(),
    {
        proof {
            lemma_encode_len(self.primary_ns.text_bytes());
            lemma_encode_len(self.mailbox.text_bytes());
        }
        self.primary_ns.octet_length() + self.mailbox.octet_length() + 20
    }

    pub fn to_bytes(&self) -> (r: Vec<u8>)
        requires
            self.encodable(),
        ensures
            r@ == self.wire(),
    {
        let mut buf = self.primary_ns.to_bytes();
        let mut mailbox = self.mailbox.to_bytes();
        buf.append(&mut mailbox);
        push_u32(&mut buf, self.serial);
        push_u32(&mut buf, self.refresh);
        push_u32(&mut buf, self.retry);
        push_u32(&mut buf, self.expire);
        push_u32(&mut buf, self.minimum_ttl);
        assert(buf@ =~= self.wire());
        buf
    }
}

} // verus!
