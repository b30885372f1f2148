//! IPv6 address records.
use vstd::prelude::*;
use crate::error::Error;
use crate::wire::{be16, push_u16, read16, read_u16};
use super::RData;

verus! {

/// The type code of IPv6 address records.
pub const TYPE: u16 = 28;

/// An IPv6 address, as its eight 16-bit segments.
#[derive(Debug, PartialEq, Eq, Clone, Copy)]
pub struct Record(pub [u16; 8]);

/// The eight big-endian segments of a sixteen-byte payload.
pub open spec fn segments(rdata: Seq<u8>) -> Seq<u16> {
    Seq::new(8, |i: int| read16(rdata.subrange(2 * i, 2 * i + 2)) as u16)
}

/// What decoding `rdata` as an IPv6 address gives: exactly sixteen bytes.
pub open spec fn parsed(r: Result<RData, Error>, rdata: Seq<u8>) -> bool {
    if rdata.len() == 16 {
        r is Ok && r->Ok_0 is AAAA && r->Ok_0->AAAA_0.0@ == segments(rdata)
    } else {
        r == Err::<RData, Error>(Error::WrongRdataLength)
    }
}

/// Each segment as two big-endian bytes.
pub open spec fn wire_segments(s: Seq<u16>) -> Seq<u8>
    decreases s.len(),
{
    if s.len() == 0 {
        seq![]
    } else {
        wire_segments(s.drop_last()) + be16(s.last())
    }
}

impl Record {
    pub open spec fn wire(self) -> Seq<u8> {
        wire_segments(self.0@)
    }

    /// Decodes an IPv6 address from its sixteen payload bytes.
    pub fn parse(rdata: &[u8], _original: &[u8]) -> (r: Result<RData, Error>)
        ensures
            parsed(r, rdata@),
    {
        if rdata.len() != 16 {
            return Err(Error::WrongRdataLength);
        }
        let s = [
            read_u16(&rdata[0..2]),
            read_u16(&rdata[2..4]),
            read_u16(&rdata[4..6]),
            read_u16(&rdata[6..8]),
            read_u16(&rdata[8..10]),
            read_u16(&rdata[10..12]),
            read_u16(&rdata[12..14]),
            read_u16(&rdata[14..16]),
        ];
        assert(s@ =~= segments(rdata@));
        Ok(RData::AAAA(Record(s)))
    }

    pub fn length(&self) -> (r: u16)
        ensures
            r == self.wire().len(),
    {
        proof {
            lemma_wire_segments_len(self.0@);
        }
        16
    }

    pub fn to_bytes(&self) -> (r: Vec<u8>)
        ensures
            r@ == self.wire(),
    {
        let mut buf: Vec<u8> = Vec::new();
        let mut i: usize = 0;
        while i < 8
            invariant
                i <= 8,
                self.0@.len() == 8,
                buf@ == wire_segments(self.0@.take(i as int)),
            decreases 8 - i,
        {
            push_u16(&mut buf, self.0[i]);
            assert(self.0@.take(i + 1).drop_last() =~= self.0@.take(i as int));
            i = i + 1;
        }
        assert(self.0@.take(8) =~= self.0@);
        buf
    }
}

pub proof fn lemma_wire_segments_len(s: Seq<u16>)
    ensures
        wire_segments(s).len() == 2 * s.len(),
    decreases s.len(),
{
    if s.len() > 0 {
        lemma_wire_segments_len(s.drop_last());
    }
}

} // verus!
