//! Domain names: decoding with compression pointers, and literal encoding.
use vstd::prelude::*;
use vstd::utf8::encode_utf8;
use vstd::slice::slice_to_vec;
use crate::error::Error;
use crate::wire::{read16, read_u16};

verus! {

/// A label introducer whose top two bits are set: a compression pointer.
pub open spec fn is_pointer(b: u8) -> bool {
    b >= 0xC0
}

/// A label introducer whose top two bits are clear: a literal label.
pub open spec fn is_literal(b: u8) -> bool {
    b < 0x40
}

pub open spec fn all_ascii(s: Seq<u8>) -> bool {
    forall|i: int| 0 <= i < s.len() ==> s[i] < 128
}

/// The characters of ASCII bytes.
pub open spec fn ascii_chars(s: Seq<u8>) -> Seq<char> {
    s.map_values(|b: u8| b as char)
}

/// The separator written before a label or pointer at `pos`: none at the start.
pub open spec fn sep(pos: int) -> Seq<char> {
    if pos == 0 {
        seq![]
    } else {
        seq!['.']
    }
}

/// The offset named by the pointer at `pos`: its fourteen low bits.
pub open spec fn pointer_target(cur: Seq<u8>, pos: int) -> int {
    (cur[pos] - 0xC0) * 256 + cur[pos + 1]
}

/// Decodes the name that continues at `pos` of `cur`, where pointers index
/// `original` and each one must point strictly below `limit`, then below
/// the target of the one before. Gives the dotted text of what follows.
pub open spec fn walk(cur: Seq<u8>, original: Seq<u8>, pos: int, limit: nat) -> Result<
    Seq<char>,
    Error,
>
    decreases limit, cur.len() - pos,
{
    if pos < 0 || pos >= cur.len() {
        Err(Error::UnexpectedEOF)
    } else {
        let b = cur[pos];
        if b == 0 {
            Ok(seq![])
        } else if is_pointer(b) {
            if cur.len() < pos + 2 {
                Err(Error::UnexpectedEOF)
            } else {
                let off = pointer_target(cur, pos);
                if off >= original.len() {
                    Err(Error::UnexpectedEOF)
                } else if off >= limit {
                    Err(Error::BadPointer)
                } else {
                    match walk(original.subrange(off, original.len() as int), original, 0, off as nat) {
                        Ok(rest) => Ok(sep(pos) + rest),
                        Err(e) => Err(e),
                    }
                }
            }
        } else if is_literal(b) {
            let end = pos + b + 1;
            if cur.len() < end {
                Err(Error::UnexpectedEOF)
            } else if !all_ascii(cur.subrange(pos + 1, end)) {
                Err(Error::LabelIsNotAscii)
            } else {
                match walk(cur, original, end, limit) {
                    Ok(rest) => Ok(sep(pos) + ascii_chars(cur.subrange(pos + 1, end)) + rest),
                    Err(e) => Err(e),
                }
            }
        } else {
            Err(Error::UnknownLabelFormat)
        }
    }
}

/// The result of decoding the name at the start of `data` inside `original`.
pub open spec fn decode(data: Seq<u8>, original: Seq<u8>) -> Result<Seq<char>, Error> {
    walk(data, original, 0, original.len())
}

/// How many bytes the name at the start of `data` occupies there: through
/// its terminator or through its first pointer.
pub open spec fn name_span(data: Seq<u8>, pos: int) -> int
    decreases data.len() - pos,
{
    if pos < 0 || pos >= data.len() {
        0
    } else if data[pos] == 0 {
        pos + 1
    } else if is_pointer(data[pos]) {
        pos + 2
    } else if is_literal(data[pos]) && pos + data[pos] + 1 < data.len() {
        name_span(data, pos + data[pos] + 1)
    } else {
        0
    }
}

pub open spec fn prefixed(acc: Seq<char>, r: Result<Seq<char>, Error>) -> Result<Seq<char>, Error> {
    match r {
        Ok(s) => Ok(acc + s),
        Err(e) => Err(e),
    }
}

/// The labels of `s` between its dots, as splitting at every `.` gives them.
pub open spec fn split_labels(s: Seq<u8>) -> Seq<Seq<u8>>
    decreases s.len(),
{
    if s.len() == 0 {
        seq![seq![]]
    } else {
        let prev = split_labels(s.drop_last());
        if s.last() == 0x2E {
            prev.push(seq![])
        } else {
            prev.update(prev.len() - 1, prev.last().push(s.last()))
        }
    }
}

/// Each label written as its length byte and its content.
pub open spec fn wire_labels(ls: Seq<Seq<u8>>) -> Seq<u8>
    decreases ls.len(),
{
    if ls.len() == 0 {
        seq![]
    } else {
        wire_labels(ls.drop_last()) + seq![ls.last().len() as u8] + ls.last()
    }
}

/// The literal wire form of the dotted name `s`.
pub open spec fn encode(s: Seq<u8>) -> Seq<u8> {
    wire_labels(split_labels(s)) + seq![0u8]
}

pub open spec fn no_dot(s: Seq<u8>) -> bool {
    forall|k: int| 0 <= k < s.len() ==> s[k] != 0x2E
}

/// Every run of `s` without a dot, and so every label, is under 63 bytes.
pub open spec fn labels_short(s: Seq<u8>) -> bool {
    forall|i: int, j: int|
        0 <= i <= j <= s.len() && #[trigger] no_dot(s.subrange(i, j)) ==> j - i < 63
}

pub proof fn lemma_split_nonempty(s: Seq<u8>)
    ensures
        split_labels(s).len() >= 1,
    decreases s.len(),
{
    if s.len() > 0 {
        lemma_split_nonempty(s.drop_last());
    }
}

/// The wire form is two bytes longer than the dotted text.
pub proof fn lemma_encode_len(s: Seq<u8>)
    ensures
        encode(s).len() == s.len() + 2,
    decreases s.len(),
{
    if s.len() == 0 {
        assert(split_labels(s).drop_last() =~= Seq::<Seq<u8>>::empty());
        assert(wire_labels(split_labels(s)) == wire_labels(Seq::<Seq<u8>>::empty()) + seq![0u8]
            + Seq::<u8>::empty());
    } else {
        let t = s.drop_last();
        lemma_encode_len(t);
        lemma_split_nonempty(t);
        let prev = split_labels(t);
        let next = split_labels(s);
        if s.last() == 0x2E {
            assert(next.drop_last() =~= prev);
            assert(wire_labels(next) == wire_labels(prev) + seq![0u8] + Seq::<u8>::empty());
        } else {
            assert(next.drop_last() =~= prev.drop_last());
            assert(wire_labels(next) == wire_labels(prev.drop_last()) + seq![next.last().len() as u8]
                + next.last());
            assert(wire_labels(prev) == wire_labels(prev.drop_last()) + seq![prev.last().len() as u8]
                + prev.last());
        }
    }
}

/// Relies on `String::push`: appends one character.
#[verifier::external_body]
fn push_char(s: &mut String, c: char)
    ensures
        final(s)@ == old(s)@.push(c),
{
    s.push(c)
}

fn ascii_range(s: &[u8], from: usize, to: usize) -> (r: bool)
    requires
        from <= to <= s@.len(),
    ensures
        r == all_ascii(s@.subrange(from as int, to as int)),
{
    let mut i: usize = from;
    while i < to
        invariant
            from <= i <= to <= s@.len(),
            all_ascii(s@.subrange(from as int, i as int)),
        decreases to - i,
    {
        if s[i] >= 128 {
            assert(s@.subrange(from as int, to as int)[i - from] == s@[i as int]);
            return false;
        }
        i = i + 1;
    }
    true
}

/// Appends the literal wire form of the dotted name `bytes` to `buf`.
pub fn write_labels(buf: &mut Vec<u8>, bytes: &[u8])
    requires
        labels_short(bytes@),
    ensures
        final(buf)@ == old(buf)@ + encode(bytes@),
{
    let ghost s = bytes@;
    let ghost base = buf@;
    let mut start: usize = 0;
    let mut i: usize = 0;
    while i < bytes.len()
        invariant
            s == bytes@,
            labels_short(s),
            start <= i <= s.len(),
            split_labels(s.take(i as int)).len() >= 1,
            buf@ == base + wire_labels(split_labels(s.take(i as int)).drop_last()),
            split_labels(s.take(i as int)).last() == s.subrange(start as int, i as int),
            no_dot(s.subrange(start as int, i as int)),
        decreases s.len() - i,
    {
        let ghost prev = split_labels(s.take(i as int));
        assert(s.take(i + 1).drop_last() =~= s.take(i as int));
        if bytes[i] == 0x2E {
            assert(i - start < 63);
            let part = &bytes[start..i];
            buf.push((i - start) as u8);
            buf.extend_from_slice(part);
            assert(split_labels(s.take(i + 1)).drop_last() =~= prev);
            assert(buf@ =~= base + wire_labels(prev));
            start = i + 1;
            assert(s.subrange(start as int, i + 1) =~= seq![]);
        } else {
            let ghost next = split_labels(s.take(i + 1));
            assert(next.drop_last() =~= prev.drop_last());
            assert(s.subrange(start as int, i + 1) =~= s.subrange(start as int, i as int).push(
                s[i as int],
            ));
            assert(no_dot(s.subrange(start as int, i + 1)));
        }
        i = i + 1;
    }
    assert(s.take(s.len() as int) =~= s);
    assert(no_dot(s.subrange(start as int, i as int)));
    assert(i - start < 63);
    buf.push((i - start) as u8);
    buf.extend_from_slice(&bytes[start..i]);
    buf.push(0);
    assert(buf@ =~= base + encode(s));
}

/// A domain name: the bytes it occupies where it was decoded, and its dotted
/// text.
#[derive(Debug, Clone)]
pub struct Name {
    /// The bytes the name occupied where it was decoded; empty for a name
    /// made from text.
    pub labels: Vec<u8>,
    pub str_val: String,
}

impl Name {
    /// The name decoded from the start of `data`, inside `original`.
    pub open spec fn decoded_from(self, data: Seq<u8>, original: Seq<u8>) -> bool {
        decode(data, original) == Ok::<Seq<char>, Error>(self.str_val@) && 0 < name_span(data, 0)
            <= data.len() && self.labels@ == data.subrange(0, name_span(data, 0))
    }

    /// The literal wire form of the dotted text.
    pub open spec fn wire(self) -> Seq<u8> {
        encode(self.text_bytes())
    }

    /// The dotted text can be written as labels, in a form whose length
    /// fits 16 bits.
    pub open spec fn encodable(self) -> bool {
        labels_short(self.text_bytes()) && self.text_bytes().len() + 2 <= 0xFFFF
    }

    /// The UTF-8 bytes of the dotted text.
    pub open spec fn text_bytes(&self) -> Seq<u8> {
        encode_utf8(self.str_val@)
    }

    /// Decodes the name at the start of `data`; pointers are offsets into
    /// `original`, the whole message.
    pub fn scan(data: &[u8], original: &[u8]) -> (r: Result<Name, Error>)
        ensures
            match decode(data@, original@) {
                Ok(s) => r is Ok && r->Ok_0.decoded_from(data@, original@),
                Err(e) => r is Err && r->Err_0 == e,
            },
    {
        if data.len() == 0 {
            return Err(Error::UnexpectedEOF);
        }
        let mut cur: &[u8] = data;
        let mut pos: usize = 0;
        let mut limit: usize = original.len();
        let mut return_pos: Option<usize> = None;
        let mut text = String::new();
        loop
            invariant
                pos < cur@.len(),
                limit <= original@.len(),
                return_pos is None ==> cur@ == data@ && name_span(data@, 0) == name_span(
                    data@,
                    pos as int,
                ),
                return_pos is Some ==> return_pos->0 + 2 == name_span(data@, 0) && return_pos->0
                    + 2 <= data@.len(),
                decode(data@, original@) == prefixed(
                    text@,
                    walk(cur@, original@, pos as int, limit as nat),
                ),
            ensures
                pos < cur@.len(),
                cur@[pos as int] == 0,
                return_pos is None ==> cur@ == data@ && name_span(data@, 0) == pos + 1 && pos + 1
                    <= data@.len(),
                return_pos is Some ==> return_pos->0 + 2 == name_span(data@, 0) && return_pos->0
                    + 2 <= data@.len(),
                decode(data@, original@) == Ok::<Seq<char>, Error>(text@),
            decreases limit, cur@.len() - pos,
        {
            let byte = cur[pos];
            if byte == 0 {
                assert(text@ + seq![] =~= text@);
                assert(return_pos is None ==> name_span(data@, pos as int) == pos + 1);
                break ;
            }
            if byte >= 0xC0 {
                if cur.len() - pos < 2 {
                    return Err(Error::UnexpectedEOF);
                }
                let v = read_u16(&cur[pos..pos + 2]);
                assert(read16(cur@.subrange(pos as int, pos + 2)) == cur@[pos as int] * 256
                    + cur@[pos + 1]);
                assert(v >= 0xC000);
                assert((v & 0x3FFF) == v - 0xC000) by (bit_vector)
                    requires
                        v >= 0xC000,
                ;
                let off = (v & 0x3FFF) as usize;
                assert(off == pointer_target(cur@, pos as int));
                if off >= original.len() {
                    return Err(Error::UnexpectedEOF);
                }
                if return_pos.is_none() {
                    return_pos = Some(pos);
                }
                if off >= limit {
                    return Err(Error::BadPointer);
                }
                let ghost before = text@;
                if pos != 0 {
                    push_char(&mut text, '.');
                }
                assert(text@ =~= before + sep(pos as int));
                let ghost rest = walk(original@.subrange(off as int, original@.len() as int), original@, 0, off as nat);
                proof {
                    if let Ok(s) = rest {
                        assert(before + (sep(pos as int) + s) =~= text@ + s);
                    }
                }
                limit = off;
                pos = 0;
                cur = &original[off..original.len()];
            } else if byte < 0x40 {
                if cur.len() - pos <= byte as usize {
                    return Err(Error::UnexpectedEOF);
                }
                let end = pos + byte as usize + 1;
                if !ascii_range(cur, pos + 1, end) {
                    return Err(Error::LabelIsNotAscii);
                }
                let ghost before = text@;
                if pos != 0 {
                    push_char(&mut text, '.');
                }
                let mut i: usize = pos + 1;
                while i < end
                    invariant
                        pos < i <= end <= cur@.len(),
                        text@ == before + sep(pos as int) + ascii_chars(
                            cur@.subrange(pos + 1, i as int),
                        ),
                    decreases end - i,
                {
                    push_char(&mut text, cur[i] as char);
                    assert(cur@.subrange(pos + 1, i + 1) =~= cur@.subrange(pos + 1, i as int).push(
                        cur@[i as int],
                    ));
                    assert(ascii_chars(cur@.subrange(pos + 1, i + 1)) =~= ascii_chars(
                        cur@.subrange(pos + 1, i as int),
                    ).push(cur@[i as int] as char));
                    i = i + 1;
                }
                let ghost label = ascii_chars(cur@.subrange(pos + 1, end as int));
                let ghost rest = walk(cur@, original@, end as int, limit as nat);
                proof {
                    if let Ok(s) = rest {
                        assert(before + (sep(pos as int) + label + s) =~= text@ + s);
                    }
                }
                pos = end;
                if cur.len() <= pos {
                    return Err(Error::UnexpectedEOF);
                }
                assert(return_pos is None ==> name_span(data@, pos - byte - 1) == name_span(
                    data@,
                    pos as int,
                ));
            } else {
                return Err(Error::UnknownLabelFormat);
            }
        }
        let span = match return_pos {
            Some(p) => p + 2,
            None => pos + 1,
        };
        let labels = slice_to_vec(&data[0..span]);
        assert(labels@ == data@.subrange(0, name_span(data@, 0)));
        Ok(Name { labels, str_val: text })
    }

    /// A name for encoding, from its dotted text.
    pub fn from_string(name: &str) -> (r: Name)
        ensures
            r.str_val@ == name@,
            r.labels@.len() == 0,
    {
        Name { labels: Vec::new(), str_val: name.to_owned() }
    }

    /// The literal wire form of the dotted text: each label as its length
    /// and content, then a zero byte.
    pub fn to_bytes(&self) -> (r: Vec<u8>)
        requires
            labels_short(self.text_bytes()),
        ensures
            r@ == self.wire(),
    {
        let mut buf: Vec<u8> = Vec::new();
        write_labels(&mut buf, self.str_val.as_str().as_bytes());
        assert(buf@ =~= self.wire());
        buf
    }

    /// The length of the literal wire form.
    pub fn octet_length(&self) -> (r: u16)
        requires
            self.text_bytes().len() + 2 <= 0xFFFF,
        ensures
            r == self.wire().len(),
    {
        proof {
            lemma_encode_len(self.text_bytes());
        }
        self.str_val.as_str().len() as u16 + 2
    }

    /// The number of bytes the name occupied where it was decoded.
    pub fn byte_len(&self) -> (r: usize)
        ensures
            r == self.labels@.len(),
    {
        self.labels.len()
    }

    /// The dotted text of the name.
    pub fn to_string(&self) -> (r: String)
        ensures
            r@ == self.str_val@,
    {
        self.str_val.clone()
    }
}

} // verus!

verus! {

/// The text of labels joined by dots.
pub open spec fn dotted(ls: Seq<Seq<u8>>) -> Seq<char>
    decreases ls.len(),
{
    if ls.len() == 0 {
        seq![]
    } else if ls.len() == 1 {
        ascii_chars(ls[0])
    } else {
        dotted(ls.drop_last()) + seq!['.'] + ascii_chars(ls.last())
    }
}

/// The text that decoding gives for labels that start at `pos`.
pub open spec fn dotted_from(ls: Seq<Seq<u8>>, pos: int) -> Seq<char>
    decreases ls.len(),
{
    if ls.len() == 0 {
        seq![]
    } else {
        sep(pos) + ascii_chars(ls[0]) + dotted_from(ls.drop_first(), 1)
    }
}

/// Labels that decoding reads as literal labels: non-empty, ASCII, under 63 bytes.
pub open spec fn literal_labels(ls: Seq<Seq<u8>>) -> bool {
    forall|i: int| 0 <= i < ls.len() ==> 0 < #[trigger] ls[i].len() < 63 && all_ascii(ls[i])
}

/// A dotted name with only literal labels, or the empty name.
pub open spec fn plain_name(s: Seq<u8>) -> bool {
    s.len() == 0 || literal_labels(split_labels(s))
}

proof fn lemma_wire_append(a: Seq<Seq<u8>>, b: Seq<Seq<u8>>)
    ensures
        wire_labels(a + b) == wire_labels(a) + wire_labels(b),
    decreases b.len(),
{
    if b.len() == 0 {
        assert(a + b =~= a);
        assert(wire_labels(a) + wire_labels(b) =~= wire_labels(a));
    } else {
        lemma_wire_append(a, b.drop_last());
        assert((a + b).drop_last() =~= a + b.drop_last());
        assert(wire_labels(a + b) =~= wire_labels(a) + wire_labels(b));
    }
}

proof fn lemma_walk_labels(ls: Seq<Seq<u8>>, cur: Seq<u8>, original: Seq<u8>, pos: int, limit: nat)
    requires
        0 <= pos,
        literal_labels(ls),
        pos + wire_labels(ls).len() + 1 <= cur.len(),
        cur.subrange(pos, pos + wire_labels(ls).len() + 1) == wire_labels(ls) + seq![0u8],
    ensures
        walk(cur, original, pos, limit) == Ok::<Seq<char>, Error>(dotted_from(ls, pos)),
    decreases ls.len(),
{
    let w = wire_labels(ls) + seq![0u8];
    assert(cur[pos] == w[0]);
    if ls.len() == 0 {
        assert(wire_labels(ls) == Seq::<u8>::empty());
    } else {
        let l = ls[0];
        let rest = ls.drop_first();
        assert(ls =~= seq![l] + rest);
        lemma_wire_append(seq![l], rest);
        assert(seq![l].drop_last() =~= Seq::<Seq<u8>>::empty());
        let wl = wire_labels(seq![l]);
        assert(wire_labels(Seq::<Seq<u8>>::empty()) == Seq::<u8>::empty());
        assert(seq![l].last() == l);
        assert(wl =~= seq![l.len() as u8] + l);
        let end = pos + l.len() + 1;
        assert(w =~= seq![l.len() as u8] + l + wire_labels(rest) + seq![0u8]);
        assert(cur[pos] == l.len());
        assert forall|k: int| 0 <= k < l.len() implies cur.subrange(pos + 1, end)[k] == l[k] by {
            assert(cur[pos + 1 + k] == w[1 + k]);
        }
        assert(cur.subrange(pos + 1, end) =~= l);
        assert forall|i: int| 0 <= i < rest.len() implies 0 < #[trigger] rest[i].len() < 63
            && all_ascii(rest[i]) by {
            assert(rest[i] == ls[i + 1]);
        }
        assert(cur.subrange(end, end + wire_labels(rest).len() + 1) =~= wire_labels(rest) + seq![
            0u8,
        ]) by {
            assert forall|k: int| 0 <= k < wire_labels(rest).len() + 1 implies cur.subrange(
                end,
                end + wire_labels(rest).len() + 1,
            )[k] == (wire_labels(rest) + seq![0u8])[k] by {
                assert(cur[end + k] == w[l.len() + 1 + k]);
            }
        }
        lemma_walk_labels(rest, cur, original, end, limit);
        assert(sep(end) == sep(1));
        assert(dotted_from(rest, end) == dotted_from(rest, 1));
        assert(is_literal(cur[pos]) && cur[pos] != 0 && !is_pointer(cur[pos]));
        assert(all_ascii(cur.subrange(pos + 1, end)));
    }
}

proof fn lemma_dotted_front(ls: Seq<Seq<u8>>)
    requires
        ls.len() >= 2,
    ensures
        dotted(ls) == ascii_chars(ls[0]) + seq!['.'] + dotted(ls.drop_first()),
    decreases ls.len(),
{
    if ls.len() > 2 {
        lemma_dotted_front(ls.drop_last());
        assert(ls.drop_last().drop_first() =~= ls.drop_first().drop_last());
        assert(dotted(ls) =~= ascii_chars(ls[0]) + seq!['.'] + dotted(ls.drop_first()));
    } else {
        assert(ls.drop_last() =~= seq![ls[0]]);
        assert(ls.drop_first() =~= seq![ls[1]]);
        assert(dotted(seq![ls[0]]) == ascii_chars(ls[0]));
        assert(dotted(seq![ls[1]]) == ascii_chars(ls[1]));
        assert(dotted(ls) =~= ascii_chars(ls[0]) + seq!['.'] + dotted(ls.drop_first()));
    }
}

proof fn lemma_dotted_from(ls: Seq<Seq<u8>>, pos: int)
    requires
        ls.len() >= 1,
    ensures
        dotted_from(ls, pos) == sep(pos) + dotted(ls),
    decreases ls.len(),
{
    if ls.len() == 1 {
        assert(dotted_from(ls.drop_first(), 1) == Seq::<char>::empty());
        assert(dotted_from(ls, pos) =~= sep(pos) + dotted(ls));
    } else {
        lemma_dotted_from(ls.drop_first(), 1);
        lemma_dotted_front(ls);
        assert(dotted_from(ls, pos) =~= sep(pos) + dotted(ls));
    }
}

proof fn lemma_dotted_split(s: Seq<u8>)
    ensures
        split_labels(s).len() >= 1,
        dotted(split_labels(s)) == ascii_chars(s),
    decreases s.len(),
{
    if s.len() == 0 {
        assert(ascii_chars(s) =~= Seq::<char>::empty());
        assert(ascii_chars(split_labels(s)[0]) =~= Seq::<char>::empty());
    } else {
        let t = s.drop_last();
        lemma_dotted_split(t);
        let prev = split_labels(t);
        let next = split_labels(s);
        assert(ascii_chars(s) =~= ascii_chars(t).push(s.last() as char));
        if s.last() == 0x2E {
            assert(next.drop_last() =~= prev);
            assert(ascii_chars(next.last()) =~= Seq::<char>::empty());
            assert(dotted(next) =~= ascii_chars(s));
        } else {
            assert(ascii_chars(prev.last().push(s.last())) =~= ascii_chars(prev.last()).push(
                s.last() as char,
            ));
            if prev.len() == 1 {
                assert(dotted(next) =~= ascii_chars(s));
            } else {
                assert(next.drop_last() =~= prev.drop_last());
                assert(dotted(next) =~= ascii_chars(s));
            }
        }
    }
}

/// Decoding the literal wire form of a name whose labels are all literal
/// gives back its dotted text, whatever message it stands in.
pub proof fn lemma_name_round_trip(s: Seq<u8>, original: Seq<u8>)
    requires
        plain_name(s),
    ensures
        decode(encode(s), original) == Ok::<Seq<char>, Error>(ascii_chars(s)),
{
    lemma_dotted_split(s);
    let e = encode(s);
    if s.len() == 0 {
        assert(split_labels(s).drop_last() =~= Seq::<Seq<u8>>::empty());
        assert(wire_labels(Seq::<Seq<u8>>::empty()) == Seq::<u8>::empty());
        assert(split_labels(s).last() =~= Seq::<u8>::empty());
        assert(wire_labels(split_labels(s)) =~= seq![0u8]);
        assert(e[0] == 0);
        assert(ascii_chars(s) =~= Seq::<char>::empty());
    } else {
        let ls = split_labels(s);
        assert(e.subrange(0, wire_labels(ls).len() + 1 as int) =~= wire_labels(ls) + seq![0u8]);
        lemma_walk_labels(ls, e, original, 0, original.len());
        lemma_dotted_from(ls, 0);
        assert(sep(0) + dotted(ls) =~= dotted(ls));
    }
}

/// A pointer that points at itself is refused, however the decoding
/// reached it.
pub proof fn lemma_self_pointer_refused(original: Seq<u8>, p: int, limit: nat)
    requires
        0 <= p,
        p + 2 <= original.len(),
        is_pointer(original[p]),
        pointer_target(original, p) == p,
    ensures
        walk(original.subrange(p, original.len() as int), original, 0, limit) == Err::<
            Seq<char>,
            Error,
        >(Error::BadPointer),
{
    let cur = original.subrange(p, original.len() as int);
    assert(cur[0] == original[p] && cur[1] == original[p + 1]);
    assert(walk(cur, original, 0, p as nat) == Err::<Seq<char>, Error>(Error::BadPointer));
}

/// Two pointers that point at each other are refused, however the decoding
/// reached the first.
pub proof fn lemma_pointer_cycle_refused(original: Seq<u8>, a: int, b: int, limit: nat)
    requires
        0 <= a,
        0 <= b,
        a + 2 <= original.len(),
        b + 2 <= original.len(),
        is_pointer(original[a]),
        is_pointer(original[b]),
        pointer_target(original, a) == b,
        pointer_target(original, b) == a,
    ensures
        walk(original.subrange(a, original.len() as int), original, 0, limit) == Err::<
            Seq<char>,
            Error,
        >(Error::BadPointer),
{
    let ca = original.subrange(a, original.len() as int);
    let cb = original.subrange(b, original.len() as int);
    assert(ca[0] == original[a] && ca[1] == original[a + 1]);
    assert(cb[0] == original[b] && cb[1] == original[b + 1]);
    if a < b {
        assert(walk(ca, original, 0, a as nat) == Err::<Seq<char>, Error>(Error::BadPointer));
        assert(walk(cb, original, 0, b as nat) == Err::<Seq<char>, Error>(Error::BadPointer));
    } else {
        assert(walk(cb, original, 0, b as nat) == Err::<Seq<char>, Error>(Error::BadPointer));
    }
}

} // verus!
