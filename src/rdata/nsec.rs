//! Next-secure records: declared, without a codec yet.
use vstd::prelude::*;
use crate::error::Error;
use super::RData;

verus! {

/// The type code of next-secure records.
pub const TYPE: u16 = 47;

/// A next-secure record; decoding and encoding report `NotImplemented`.
#[derive(Debug, PartialEq, Eq, Structural, Clone, Copy)]
pub struct Record;

impl Record {
    pub fn parse(_rdata: &[u8], _original: &[u8]) -> (r: Result<RData, Error>)
        ensures
            r == Err::<RData, Error>(Error::NotImplemented),
    {
        Err(Error::NotImplemented)
    }

    pub fn length(&self) -> (r: Result<u16, Error>)
        ensures
            r == Err::<u16, Error>(Error::NotImplemented),
    {
        Err(Error::NotImplemented)
    }

    pub fn to_bytes(&self) -> (r: Result<Vec<u8>, Error>)
        ensures
            r is Err && r->Err_0 == Error::NotImplemented,
    {
        Err(Error::NotImplemented)
    }
}

} // verus!
