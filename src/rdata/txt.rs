//! Text records: a sequence of length-prefixed segments of opaque bytes.
use vstd::prelude::*;
use vstd::slice::slice_to_vec;
use vstd::string::StringSliceAdditionalSpecFns;
use crate::error::Error;
use super::RData;

verus! {

/// The type code of text records.
pub const TYPE: u16 = 16;

/// The largest segment, and so the size each long text is cut at.
const SEGMENT_LENGTH: usize = 255;

/// Every declared segment length of `s` fits in the bytes that follow it.
pub open spec fn segments_fit(s: Seq<u8>) -> bool
    decreases s.len(),
{
    if s.len() == 0 {
        true
    } else {
        1 + s[0] <= s.len() && segments_fit(s.subrange(1 + s[0], s.len() as int))
    }
}

/// The segments of a stream whose lengths fit, in order.
pub open spec fn segments(s: Seq<u8>) -> Seq<Seq<u8>>
    decreases s.len(),
{
    if s.len() == 0 || s.len() < 1 + s[0] {
        seq![]
    } else {
        seq![s.subrange(1, 1 + s[0])] + segments(s.subrange(1 + s[0], s.len() as int))
    }
}

/// The segment stream for the bytes `b`: 255-byte segments while 256 or
/// more bytes remain, then one segment for the rest.
pub open spec fn chunked(b: Seq<u8>) -> Seq<u8>
    decreases b.len(),
{
    if b.len() == 0 {
        seq![]
    } else if b.len() >= 256 {
        seq![255u8] + b.subrange(0, 255) + chunked(b.subrange(255, b.len() as int))
    } else {
        seq![b.len() as u8] + b
    }
}

/// What decoding `rdata` as a text record gives: the bytes, kept whole, when
/// there is at least one byte and every segment fits.
pub open spec fn parsed(r: Result<RData, Error>, rdata: Seq<u8>) -> bool {
    if rdata.len() >= 1 && segments_fit(rdata) {
        r is Ok && r->Ok_0 is TXT && r->Ok_0->TXT_0.wire() == rdata
    } else {
        r == Err::<RData, Error>(Error::WrongRdataLength)
    }
}

/// A text record, held as its segment stream.
#[derive(Debug, Clone)]
pub struct Record {
    bytes: Vec<u8>,
}

/// Walks the segments of a text record, front to back.
#[derive(Debug)]
pub struct RecordIter<'a> {
    bytes: &'a [u8],
}

impl<'a> RecordIter<'a> {
    /// What is left to walk.
    pub closed spec fn rest(&self) -> Seq<u8> {
        self.bytes@
    }

    /// The next segment, if any is left.
    pub fn next(&mut self) -> (r: Option<&'a [u8]>)
        requires
            segments_fit(old(self).rest()),
        ensures
            segments_fit(final(self).rest()),
            match r {
                None => segments(old(self).rest()).len() == 0,
                Some(seg) => segments(old(self).rest()).len() > 0 && seg@ == segments(
                    old(self).rest(),
                )[0] && segments(final(self).rest()) == segments(old(self).rest()).drop_first(),
            },
    {
        if self.bytes.len() >= 1 {
            let len = self.bytes[0] as usize;
            let tail = &self.bytes[1..self.bytes.len()];
            let (head, rest) = tail.split_at(len);
            assert(rest@ =~= self.bytes@.subrange(1 + len, self.bytes@.len() as int));
            assert(head@ =~= self.bytes@.subrange(1, 1 + len));
            self.bytes = rest;
            return Some(head);
        }
        None
    }
}

impl Record {
    /// The segment stream.
    pub closed spec fn wire(&self) -> Seq<u8> {
        self.bytes@
    }

    /// The segments, in order.
    pub fn iter(&self) -> (r: RecordIter<'_>)
        ensures
            r.rest() == self.wire(),
    {
        RecordIter { bytes: self.bytes.as_slice() }
    }

    /// A record holding the bytes of `s`, cut into segments of at most 255.
    pub fn from_str(s: &str) -> (r: Record)
        ensures
            r.wire() == chunked(s.spec_bytes()),
            segments_fit(r.wire()),
    {
        let mut result: Vec<u8> = Vec::new();
        let bytes = s.as_bytes();
        let byte_len = bytes.len();
        let mut pos: usize = 0;
        assert(bytes@.subrange(0, byte_len as int) =~= bytes@);
        assert(result@ + chunked(bytes@) =~= chunked(bytes@));
        while pos < byte_len
            invariant
                byte_len == bytes@.len(),
                pos <= byte_len,
                result@ + chunked(bytes@.subrange(pos as int, byte_len as int)) == chunked(bytes@),
            decreases byte_len - pos,
        {
            let ghost rem = bytes@.subrange(pos as int, byte_len as int);
            if byte_len - pos >= 256 {
                result.push(SEGMENT_LENGTH as u8);
                result.extend_from_slice(&bytes[pos..pos + SEGMENT_LENGTH]);
                assert(rem.subrange(0, 255) =~= bytes@.subrange(pos as int, pos + 255));
                assert(rem.subrange(255, rem.len() as int) =~= bytes@.subrange(
                    pos + 255,
                    byte_len as int,
                ));
                pos += SEGMENT_LENGTH;
            } else {
                result.push((byte_len - pos) as u8);
                result.extend_from_slice(&bytes[pos..byte_len]);
                pos += byte_len - pos;
            }
            assert(result@ + chunked(bytes@.subrange(pos as int, byte_len as int)) =~= chunked(
                bytes@,
            ));
        }
        assert(bytes@.subrange(0, byte_len as int) =~= bytes@);
        assert(result@ + chunked(bytes@.subrange(pos as int, byte_len as int)) =~= result@);
        proof {
            lemma_chunked_fits(bytes@);
        }
        Record { bytes: result }
    }

    /// Checks that every segment fits and keeps the bytes as they are.
    pub fn parse(rdata: &[u8], _original: &[u8]) -> (r: Result<RData, Error>)
        ensures
            parsed(r, rdata@),
    {
        let len = rdata.len();
        if len < 1 {
            return Err(Error::WrongRdataLength);
        }
        let mut pos: usize = 0;
        assert(rdata@.subrange(0, len as int) =~= rdata@);
        while pos < len
            invariant
                len == rdata@.len(),
                pos <= len,
                segments_fit(rdata@) == segments_fit(rdata@.subrange(pos as int, len as int)),
            decreases len - pos,
        {
            let ghost rem = rdata@.subrange(pos as int, len as int);
            let rdlen = rdata[pos] as usize;
            pos += 1;
            if len - pos < rdlen {
                return Err(Error::WrongRdataLength);
            }
            pos += rdlen;
            assert(rem.subrange(1 + rem[0], rem.len() as int) =~= rdata@.subrange(
                pos as int,
                len as int,
            ));
        }
        assert(rdata@.subrange(0, len as int) =~= rdata@);
        Ok(RData::TXT(Record { bytes: slice_to_vec(rdata) }))
    }

    pub fn length(&self) -> (r: u16)
        requires
            self.wire().len() <= 0xFFFF,
        ensures
            r == self.wire().len(),
    {
        self.bytes.len() as u16
    }

    pub fn to_bytes(&self) -> (r: Vec<u8>)
        ensures
            r@ == self.wire(),
    {
        slice_to_vec(self.bytes.as_slice())
    }
}

/// A non-empty text, cut into segments, is accepted by decoding as it
/// stands.
pub proof fn lemma_chunked_parses(b: Seq<u8>, r: Result<RData, Error>)
    requires
        b.len() > 0,
        parsed(r, chunked(b)),
    ensures
        r is Ok,
        r->Ok_0 is TXT,
        r->Ok_0->TXT_0.wire() == chunked(b),
{
    lemma_chunked_fits(b);
    assert(chunked(b).len() >= 1);
}

/// The segment stream for any bytes has segments that all fit.
pub proof fn lemma_chunked_fits(b: Seq<u8>)
    ensures
        segments_fit(chunked(b)),
    decreases b.len(),
{
    let c = chunked(b);
    if b.len() >= 256 {
        let tail = b.subrange(255, b.len() as int);
        lemma_chunked_fits(tail);
        assert(c[0] == 255);
        assert(c.subrange(256, c.len() as int) =~= chunked(tail));
    } else if b.len() > 0 {
        assert(c[0] == b.len());
        assert(c.subrange(1 + c[0], c.len() as int) =~= Seq::<u8>::empty());
        assert(segments_fit(Seq::<u8>::empty()));
    }
}

} // verus!
