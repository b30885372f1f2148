//! The fixed twelve-byte message header.
use vstd::prelude::*;
use crate::enums::{Opcode, ResponseCode};
use crate::wire::{be16, push_u16};

verus! {

/// The header of a message: identifier, flags and section counts.
#[derive(Debug, PartialEq, Eq, Structural, Clone, Copy)]
pub struct Header {
    pub id: u16,
    pub query: bool,
    pub opcode: Opcode,
    pub authoritative: bool,
    pub truncated: bool,
    pub recursion_desired: bool,
    pub recursion_available: bool,
    pub authenticated_data: bool,
    pub checking_disabled: bool,
    pub response_code: ResponseCode,
    pub questions: u16,
    pub answers: u16,
    pub nameservers: u16,
    pub additional: u16,
}

pub open spec fn bit(b: bool, v: int) -> int {
    if b { v } else { 0 }
}

/// The third byte: direction, opcode and the query flags.
pub open spec fn flags_hi(h: Header) -> u8 {
    (bit(!h.query, 0x80) + h.opcode.spec_code() * 8 + bit(h.authoritative, 4) + bit(h.truncated, 2)
        + bit(h.recursion_desired, 1)) as u8
}

/// The fourth byte: the answer flags and the response code.
pub open spec fn flags_lo(h: Header) -> u8 {
    (bit(h.recursion_available, 0x80) + bit(h.authenticated_data, 0x20) + bit(
        h.checking_disabled,
        0x10,
    ) + h.response_code.spec_code()) as u8
}

/// The twelve bytes that encode `h`.
pub open spec fn header_bytes(h: Header) -> Seq<u8> {
    be16(h.id) + seq![flags_hi(h), flags_lo(h)] + be16(h.questions) + be16(h.answers) + be16(
        h.nameservers,
    ) + be16(h.additional)
}

impl Header {
    /// Appends the twelve header bytes to `buf`.
    pub fn write(&self, buf: &mut Vec<u8>)
        ensures
            final(buf)@ == old(buf)@ + header_bytes(*self),
    {
        push_u16(buf, self.id);
        let mut hi: u8 = self.opcode.code() * 8;
        if !self.query {
            hi = hi + 0x80;
        }
        if self.authoritative {
            hi = hi + 4;
        }
        if self.truncated {
            hi = hi + 2;
        }
        if self.recursion_desired {
            hi = hi + 1;
        }
        let mut lo: u8 = self.response_code.code();
        if self.recursion_available {
            lo = lo + 0x80;
        }
        if self.authenticated_data {
            lo = lo + 0x20;
        }
        if self.checking_disabled {
            lo = lo + 0x10;
        }
        buf.push(hi);
        buf.push(lo);
        push_u16(buf, self.questions);
        push_u16(buf, self.answers);
        push_u16(buf, self.nameservers);
        push_u16(buf, self.additional);
        assert(buf@ =~= old(buf)@ + header_bytes(*self));
    }
}

} // verus!
