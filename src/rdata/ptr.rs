//! Pointer records: the name a reverse lookup leads to.
use vstd::prelude::*;
use crate::error::Error;
use crate::name::{decode, Name};
use super::RData;

verus! {

/// The type code of PTR records.
pub const TYPE: u16 = 12;

/// A PTR record: one domain name.
#[derive(Debug)]
pub struct Record(pub Name);

/// What decoding `rdata` as a PTR record gives: the name at its start.
pub open spec fn parsed(r: Result<RData, Error>, rdata: Seq<u8>, original: Seq<u8>) -> bool {
    match decode(rdata, original) {
        Ok(_) => r is Ok && r->Ok_0 is PTR && r->Ok_0->PTR_0.0.decoded_from(rdata, original),
        Err(e) => r == Err::<RData, Error>(e),
    }
}

impl Record {
    pub open spec fn wire(self) -> Seq<u8> {
        self.0.wire()
    }

    pub open spec fn encodable(self) -> bool {
        self.0.encodable()
    }

    /// Decodes the name of the record; pointers index `original`.
    pub fn parse(rdata: &[u8], original: &[u8]) -> (r: Result<RData, Error>)
        ensures
            parsed(r, rdata@, original@),
    {
        match Name::scan(rdata, original) {
            Ok(name) => Ok(RData::PTR(Record(name))),
            Err(e) => Err(e),
        }
    }

    pub fn length(&self) -> (r: u16)
        requires
            self.encodable(),
        ensures
            r == self.wire().len(),
    {
        self.0.octet_length()
    }

    pub fn to_bytes(&self) -> (r: Vec<u8>)
        requires
            self.encodable(),
        ensures
            r@ == self.wire(),
    {
        self.0.to_bytes()
    }
}

} // verus!
