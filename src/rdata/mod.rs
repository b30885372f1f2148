//! Record payloads: one decoder and encoder per supported kind, and a
//! passthrough for the rest.
use vstd::prelude::*;
use crate::enums::Type;
use crate::error::Error;

pub mod a;
pub mod aaaa;
pub mod cname;
pub mod mx;
pub mod ns;
pub mod nsec;
pub mod ptr;
pub mod soa;
pub mod srv;
pub mod txt;

pub use self::a::Record as A;
pub use self::aaaa::Record as Aaaa;
pub use self::cname::Record as Cname;
pub use self::mx::Record as Mx;
pub use self::ns::Record as Ns;
pub use self::nsec::Record as Nsec;
pub use self::ptr::Record as Ptr;
pub use self::soa::Record as Soa;
pub use self::srv::Record as Srv;
pub use self::txt::Record as Txt;

verus! {

/// A decoded record payload.
#[derive(Debug)]
pub enum RData {
    A(A),
    AAAA(Aaaa),
    CNAME(Cname),
    MX(Mx),
    NS(Ns),
    PTR(Ptr),
    SOA(Soa),
    SRV(Srv),
    TXT(Txt),
    /// A payload of a type without a decoder: its type and its bytes.
    Unknown(Type, Vec<u8>),
}

/// The types that have a decoder.
pub open spec fn dispatched(typ: Type) -> bool {
    match typ {
        Type::A | Type::AAAA | Type::CNAME | Type::NS | Type::MX | Type::PTR | Type::SOA
        | Type::SRV | Type::TXT => true,
        _ => false,
    }
}

/// What decoding `rdata` under `typ` gives: the kind's own decoding, or,
/// for a type without a decoder, the type and the bytes as they are.
pub open spec fn parsed(typ: Type, r: Result<RData, Error>, rdata: Seq<u8>, original: Seq<u8>) -> bool {
    match typ {
        Type::A => a::parsed(r, rdata),
        Type::AAAA => aaaa::parsed(r, rdata),
        Type::CNAME => cname::parsed(r, rdata, original),
        Type::NS => ns::parsed(r, rdata, original),
        Type::MX => mx::parsed(r, rdata, original),
        Type::PTR => ptr::parsed(r, rdata, original),
        Type::SOA => soa::parsed(r, rdata, original),
        Type::SRV => srv::parsed(r, rdata, original),
        Type::TXT => txt::parsed(r, rdata),
        _ => r is Ok && r->Ok_0 is Unknown && r->Ok_0->Unknown_0 == typ && r->Ok_0->Unknown_1@
            == rdata,
    }
}

impl RData {
    /// The type of the payload.
    pub open spec fn spec_type(&self) -> Type {
        match self {
            RData::A(..) => Type::A,
            RData::AAAA(..) => Type::AAAA,
            RData::CNAME(..) => Type::CNAME,
            RData::NS(..) => Type::NS,
            RData::MX(..) => Type::MX,
            RData::PTR(..) => Type::PTR,
            RData::SOA(..) => Type::SOA,
            RData::SRV(..) => Type::SRV,
            RData::TXT(..) => Type::TXT,
            RData::Unknown(t, _) => *t,
        }
    }

    /// The payload bytes.
    pub open spec fn wire(&self) -> Seq<u8> {
        match self {
            RData::A(v) => v.wire(),
            RData::AAAA(v) => v.wire(),
            RData::CNAME(v) => v.wire(),
            RData::NS(v) => v.wire(),
            RData::MX(v) => v.wire(),
            RData::PTR(v) => v.wire(),
            RData::SOA(v) => v.wire(),
            RData::SRV(v) => v.wire(),
            RData::TXT(v) => v.wire(),
            RData::Unknown(_, b) => b@,
        }
    }

    /// The payload can be written: its names have short labels and its
    /// length fits 16 bits.
    pub open spec fn encodable(&self) -> bool {
        self.wire().len() <= 0xFFFF && match self {
            RData::CNAME(v) => v.encodable(),
            RData::NS(v) => v.encodable(),
            RData::MX(v) => v.encodable(),
            RData::PTR(v) => v.encodable(),
            RData::SOA(v) => v.encodable(),
            RData::SRV(v) => v.encodable(),
            _ => true,
        }
    }

    /// Decodes a payload of type `typ`; names in it may point anywhere in
    /// `original`, the whole message.
    pub fn parse(typ: Type, rdata: &[u8], original: &[u8]) -> (r: Result<RData, Error>)
        ensures
            parsed(typ, r, rdata@, original@),
    {
        match typ {
            Type::A => A::parse(rdata, original),
            Type::AAAA => Aaaa::parse(rdata, original),
            Type::CNAME => Cname::parse(rdata, original),
            Type::NS => Ns::parse(rdata, original),
            Type::MX => Mx::parse(rdata, original),
            Type::PTR => Ptr::parse(rdata, original),
            Type::SOA => Soa::parse(rdata, original),
            Type::SRV => Srv::parse(rdata, original),
            Type::TXT => Txt::parse(rdata, original),
            _ => Ok(RData::Unknown(typ, vstd::slice::slice_to_vec(rdata))),
        }
    }

    /// The type of the payload; for a passthrough, the type it was decoded
    /// under.
    pub fn type_code(&self) -> (r: Type)
        ensures
            r == self.spec_type(),
    {
        match self {
            RData::A(..) => Type::A,
            RData::AAAA(..) => Type::AAAA,
            RData::CNAME(..) => Type::CNAME,
            RData::NS(..) => Type::NS,
            RData::MX(..) => Type::MX,
            RData::PTR(..) => Type::PTR,
            RData::SOA(..) => Type::SOA,
            RData::SRV(..) => Type::SRV,
            RData::TXT(..) => Type::TXT,
            RData::Unknown(t, _) => *t,
        }
    }

    /// The length of the payload bytes.
    pub fn rdata_length(&self) -> (r: u16)
        requires
            self.encodable(),
        ensures
            r == self.wire().len(),
    {
        match self {
            RData::A(val) => val.length(),
            RData::AAAA(val) => val.length(),
            RData::CNAME(val) => val.length(),
            RData::NS(val) => val.length(),
            RData::MX(val) => val.length(),
            RData::PTR(val) => val.length(),
            RData::SOA(val) => val.length(),
            RData::SRV(val) => val.length(),
            RData::TXT(val) => val.length(),
            RData::Unknown(_, b) => b.len() as u16,
        }
    }

    /// The payload bytes.
    pub fn to_bytes(&self) -> (r: Vec<u8>)
        requires
            self.encodable(),
        ensures
            r@ == self.wire(),
    {
        match self {
            RData::A(val) => val.to_bytes(),
            RData::AAAA(val) => val.to_bytes(),
            RData::CNAME(val) => val.to_bytes(),
            RData::NS(val) => val.to_bytes(),
            RData::MX(val) => val.to_bytes(),
            RData::PTR(val) => val.to_bytes(),
            RData::SOA(val) => val.to_bytes(),
            RData::SRV(val) => val.to_bytes(),
            RData::TXT(val) => val.to_bytes(),
            RData::Unknown(_, b) => vstd::slice::slice_to_vec(b.as_slice()),
        }
    }
}

} // verus!

verus! {

/// A payload decoded under a type without a decoder keeps that type and
/// its bytes, and encodes back to exactly those bytes.
pub proof fn lemma_unknown_round_trip(
    typ: Type,
    rdata: Seq<u8>,
    original: Seq<u8>,
    r: Result<RData, Error>,
)
    requires
        !dispatched(typ),
        parsed(typ, r, rdata, original),
    ensures
        r is Ok,
        r->Ok_0.spec_type() == typ,
        r->Ok_0.wire() == rdata,
{
}

} // verus!
