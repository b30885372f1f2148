//! Mail-exchange records: a preference and the host that takes the mail.
use vstd::prelude::*;
use crate::error::Error;
use crate::name::{decode, lemma_encode_len, Name};
use crate::wire::{be16, push_u16, read16, read_u16};
use super::RData;

verus! {

/// The type code of mail-exchange records.
pub const TYPE: u16 = 15;

/// A mail-exchange record.
#[derive(Debug)]
pub struct Record {
    pub preference: u16,
    pub exchange: Name,
}

/// What decoding `rdata` as a mail-exchange record gives: a 16-bit
/// preference, then a name; fewer than three bytes are refused.
pub open spec fn parsed(r: Result<RData, Error>, rdata: Seq<u8>, original: Seq<u8>) -> bool {
    if rdata.len() < 3 {
        r == Err::<RData, Error>(Error::WrongRdataLength)
    } else {
        let rest = rdata.subrange(2, rdata.len() as int);
        match decode(rest, original) {
            Ok(_) => r is Ok && r->Ok_0 is MX && r->Ok_0->MX_0.preference == read16(rdata)
                && r->Ok_0->MX_0.exchange.decoded_from(rest, original),
            Err(e) => r == Err::<RData, Error>(e),
        }
    }
}

impl Record {
    pub open spec fn wire(self) -> Seq<u8> {
        be16(self.preference) + self.exchange.wire()
    }

    pub open spec fn encodable(self) -> bool {
        self.exchange.encodable() && self.wire().len() <= 0xFFFF
    }

    /// Decodes the preference and the exchange host.
    pub fn parse(rdata: &[u8], original: &[u8]) -> (r: Result<RData, Error>)
        ensures
            parsed(r, rdata@, original@),
    {
        if rdata.len() < 3 {
            return Err(Error::WrongRdataLength);
        }
        let preference = read_u16(rdata);
        match Name::scan(&rdata[2..rdata.len()], original) {
            Ok(exchange) => Ok(RData::MX(Record { preference, exchange })),
            Err(e) => Err(e),
        }
    }

    pub fn length(&self) -> (r: u16)
        requires
            self.encodable(),
        ensures
            r == self.wire().len(),
    {
        proof {
            lemma_encode_len(self.exchange.text_bytes());
        }
        2 + self.exchange.octet_length()
    }

    pub fn to_bytes(&self) -> (r: Vec<u8>)
        requires
            self.encodable(),
        ensures
            r@ == self.wire(),
    {
        let mut buf: Vec<u8> = Vec::new();
        push_u16(&mut buf, self.preference);
        let mut name = self.exchange.to_bytes();
        buf.append(&mut name);
        assert(buf@ =~= self.wire());
        buf
    }
}

} // verus!
