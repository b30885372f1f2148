//! Assembling a message: header, questions and answers, in order.
use vstd::prelude::*;
use vstd::string::StringSliceAdditionalSpecFns;
use vstd::utf8::encode_utf8;
use crate::enums::{Class, Opcode, QueryClass, QueryType, ResponseCode};
use crate::header::{header_bytes, Header};
use crate::name::{encode, labels_short, write_labels, Name};
use crate::rdata::RData;
use crate::wire::{be16, be32, push_u16, push_u32};

verus! {

/// A question waiting to be written.
#[derive(Debug)]
pub struct Question {
    pub qname: String,
    /// Whether a unicast response is preferred, as multicast resolution asks.
    pub prefer_unicast: bool,
    pub qtype: QueryType,
    pub qclass: QueryClass,
}

/// A resource record waiting to be written.
#[derive(Debug)]
pub struct ResourceRecord {
    pub name: Name,
    pub multicast_unique: bool,
    pub cls: Class,
    pub ttl: u32,
    pub data: RData,
}

/// The class field of a question: the class code, with the high bit set
/// when a unicast response is preferred.
pub open spec fn class_field(q: Question) -> u16 {
    if q.prefer_unicast {
        (q.qclass.spec_code() + 0x8000) as u16
    } else {
        q.qclass.spec_code()
    }
}

/// A question on the wire: name, type, class field.
pub open spec fn question_bytes(q: Question) -> Seq<u8> {
    encode(encode_utf8(q.qname@)) + be16(q.qtype.spec_code()) + be16(class_field(q))
}

/// A resource record on the wire: name, type, class, time to live, payload
/// length and payload.
pub open spec fn record_bytes(rr: ResourceRecord) -> Seq<u8> {
    encode(rr.name.text_bytes()) + be16(rr.data.spec_type().spec_code()) + be16(rr.cls.spec_code())
        + be32(rr.ttl) + be16(rr.data.wire().len() as u16) + rr.data.wire()
}

pub open spec fn questions_bytes(qs: Seq<Question>) -> Seq<u8>
    decreases qs.len(),
{
    if qs.len() == 0 {
        seq![]
    } else {
        questions_bytes(qs.drop_last()) + question_bytes(qs.last())
    }
}

pub open spec fn records_bytes(rs: Seq<ResourceRecord>) -> Seq<u8>
    decreases rs.len(),
{
    if rs.len() == 0 {
        seq![]
    } else {
        records_bytes(rs.drop_last()) + record_bytes(rs.last())
    }
}

/// A question whose name can be written.
pub open spec fn question_ok(q: Question) -> bool {
    labels_short(encode_utf8(q.qname@))
}

/// A record whose name and payload can be written.
pub open spec fn record_ok(rr: ResourceRecord) -> bool {
    labels_short(rr.name.text_bytes()) && rr.data.encodable()
}

/// Builds a message: a query header, then the questions and answers added.
#[derive(Debug)]
pub struct Builder {
    head: Header,
    questions: Vec<Question>,
    answers: Vec<ResourceRecord>,
    nameservers: Vec<ResourceRecord>,
    additional: Vec<ResourceRecord>,
}

impl Builder {
    pub closed spec fn header(&self) -> Header {
        self.head
    }

    pub closed spec fn question_list(&self) -> Seq<Question> {
        self.questions@
    }

    pub closed spec fn answer_list(&self) -> Seq<ResourceRecord> {
        self.answers@
    }

    /// The header counts what was added, and everything added can be written.
    pub open spec fn wf(&self) -> bool {
        &&& self.header().questions == self.question_list().len()
        &&& self.header().answers == self.answer_list().len()
        &&& self.header().nameservers == 0
        &&& self.header().additional == 0
        &&& forall|i: int| 0 <= i < self.question_list().len() ==> question_ok(#[trigger] self.question_list()[i])
        &&& forall|i: int| 0 <= i < self.answer_list().len() ==> record_ok(#[trigger] self.answer_list()[i])
    }

    /// The bytes of the message built so far.
    pub open spec fn message(&self) -> Seq<u8> {
        header_bytes(self.header()) + questions_bytes(self.question_list()) + records_bytes(
            self.answer_list(),
        )
    }

    /// Writes the header, then each question and each answer in the order
    /// they were added.
    pub fn build(&self) -> (r: Result<Vec<u8>, Vec<u8>>)
        requires
            self.wf(),
        ensures
            r is Ok && r->Ok_0@ == self.message(),
    {
        let mut buf: Vec<u8> = Vec::new();
        self.head.write(&mut buf);
        let mut i: usize = 0;
        while i < self.questions.len()
            invariant
                self.wf(),
                i <= self.questions@.len(),
                buf@ == header_bytes(self.head) + questions_bytes(self.questions@.take(i as int)),
            decreases self.questions@.len() - i,
        {
            let question = &self.questions[i];
            assert(question_ok(self.question_list()[i as int]));
            Builder::write_name(&mut buf, question.qname.as_str());
            push_u16(&mut buf, question.qtype.code());
            let prefer_unicast: u16 = if question.prefer_unicast {
                0x8000
            } else {
                0x0000
            };
            let code = question.qclass.code();
            assert(code <= 255);
            assert(code | 0x8000 == code + 0x8000) by (bit_vector)
                requires
                    code <= 255,
            ;
            assert(code | 0 == code) by (bit_vector);
            push_u16(&mut buf, code | prefer_unicast);
            assert(self.questions@.take(i + 1).drop_last() =~= self.questions@.take(i as int));
            assert(buf@ =~= header_bytes(self.head) + questions_bytes(self.questions@.take(i + 1)));
            i = i + 1;
        }
        assert(self.questions@.take(i as int) =~= self.questions@);
        let ghost qpart = buf@;
        let mut j: usize = 0;
        while j < self.answers.len()
            invariant
                self.wf(),
                j <= self.answers@.len(),
                buf@ == qpart + records_bytes(self.answers@.take(j as int)),
            decreases self.answers@.len() - j,
        {
            let answer = &self.answers[j];
            assert(record_ok(self.answer_list()[j as int]));
            Builder::write_name(&mut buf, answer.name.str_val.as_str());
            let type_code = answer.data.type_code();
            push_u16(&mut buf, type_code.code());
            push_u16(&mut buf, answer.cls.code());
            push_u32(&mut buf, answer.ttl);
            push_u16(&mut buf, answer.data.rdata_length());
            let mut data = answer.data.to_bytes();
            buf.append(&mut data);
            assert(self.answers@.take(j + 1).drop_last() =~= self.answers@.take(j as int));
            assert(buf@ =~= qpart + records_bytes(self.answers@.take(j + 1)));
            j = j + 1;
        }
        assert(self.answers@.take(j as int) =~= self.answers@);
        Ok(buf)
    }

    /// Starts a query with identifier `id`, every section empty.
    pub fn new(id: u16, recursion: bool) -> (r: Builder)
        ensures
            r.wf(),
            r.header() == (Header {
                id: id,
                query: true,
                opcode: Opcode::StandardQuery,
                authoritative: false,
                truncated: false,
                recursion_desired: recursion,
                recursion_available: false,
                authenticated_data: false,
                checking_disabled: false,
                response_code: ResponseCode::NoError,
                questions: 0,
                answers: 0,
                nameservers: 0,
                additional: 0,
            }),
            r.question_list().len() == 0,
            r.answer_list().len() == 0,
    {
        let head = Header {
            id: id,
            query: true,
            opcode: Opcode::StandardQuery,
            authoritative: false,
            truncated: false,
            recursion_desired: recursion,
            recursion_available: false,
            authenticated_data: false,
            checking_disabled: false,
            response_code: ResponseCode::NoError,
            questions: 0,
            answers: 0,
            nameservers: 0,
            additional: 0,
        };
        Builder {
            head,
            answers: Vec::new(),
            questions: Vec::new(),
            nameservers: Vec::new(),
            additional: Vec::new(),
        }
    }

    /// Adds a question and counts it in the header.
    pub fn question(
        &mut self,
        qname: &str,
        prefer_unicast: bool,
        qtype: QueryType,
        qclass: QueryClass,
    ) -> (r: &Builder)
        requires
            old(self).wf(),
            old(self).header().questions < 0xFFFF,
            labels_short(qname.spec_bytes()),
        ensures
            final(self).wf(),
            final(self).header() == (Header {
                questions: (old(self).header().questions + 1) as u16,
                ..old(self).header()
            }),
            final(self).answer_list() == old(self).answer_list(),
            final(self).question_list().len() == old(self).question_list().len() + 1,
            final(self).question_list().drop_last() == old(self).question_list(),
            final(self).question_list().last().qname@ == qname@,
            final(self).question_list().last().prefer_unicast == prefer_unicast,
            final(self).question_list().last().qtype == qtype,
            final(self).question_list().last().qclass == qclass,
            *r == *final(self),
    {
        let question = Question { prefer_unicast, qname: qname.to_owned(), qtype, qclass };
        self.questions.push(question);
        self.head.questions = self.head.questions + 1;
        assert(self.question_list().drop_last() =~= old(self).question_list());
        assert(forall|i: int|
            0 <= i < old(self).question_list().len() ==> self.question_list()[i] == old(
                self,
            ).question_list()[i]);
        self
    }

    /// Adds an answer, named by the text `qname`, and counts it in the header.
    pub fn answer(
        &mut self,
        qname: &str,
        cls: Class,
        data: RData,
        multicast_unique: bool,
        ttl: u32,
    ) -> (r: &Builder)
        requires
            old(self).wf(),
            old(self).header().answers < 0xFFFF,
            labels_short(qname.spec_bytes()),
            data.encodable(),
        ensures
            final(self).wf(),
            final(self).header() == (Header {
                answers: (old(self).header().answers + 1) as u16,
                ..old(self).header()
            }),
            final(self).question_list() == old(self).question_list(),
            final(self).answer_list().len() == old(self).answer_list().len() + 1,
            final(self).answer_list().drop_last() == old(self).answer_list(),
            final(self).answer_list().last().name.str_val@ == qname@,
            final(self).answer_list().last().cls == cls,
            final(self).answer_list().last().data == data,
            final(self).answer_list().last().multicast_unique == multicast_unique,
            final(self).answer_list().last().ttl == ttl,
            *r == *final(self),
    {
        let answer = ResourceRecord { name: Name::from_string(qname), cls, data, multicast_unique, ttl };
        self.answers.push(answer);
        self.head.answers = self.head.answers + 1;
        assert(self.answer_list().drop_last() =~= old(self).answer_list());
        assert(forall|i: int|
            0 <= i < old(self).answer_list().len() ==> self.answer_list()[i] == old(
                self,
            ).answer_list()[i]);
        self
    }

    fn write_name(buf: &mut Vec<u8>, name: &str)
        requires
            labels_short(name.spec_bytes()),
        ensures
            final(buf)@ == old(buf)@ + encode(name.spec_bytes()),
    {
        write_labels(buf, name.as_bytes());
    }
}

} // verus!
