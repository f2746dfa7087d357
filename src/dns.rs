//! The fixed header and the question entries of a DNS message.
use vstd::prelude::*;
use vstd::slice::slice_subrange;
use vstd::string::*;
use vstd::utf8::*;
use crate::text::utf8_str;

verus! {

/// Length in bytes of a DNS message header.
pub const DNS_HEADER_LEN: usize = 12;

/// Why a DNS message could not be read.
#[derive(Clone, Copy, Debug, PartialEq, Eq, Structural)]
pub enum ParseError {
    /// The message is shorter than a header.
    InvalidHeader,
    /// A question runs past the end of the message, or a label of its name
    /// is not UTF-8.
    InvalidQuestion,
}

#[derive(Clone, Copy, Debug, Default, PartialEq, Eq, Structural)]
pub struct DnsHeader {
    pub id: u16,
    pub flags: u16,
    pub qdcount: u16,
    pub ancount: u16,
    pub nscount: u16,
    pub arcount: u16,
}

#[derive(Debug)]
pub struct DnsQuestion {
    /// The labels of the name, joined by dots.
    pub name: String,
    pub qtype: u16,
    pub qclass: u16,
}

/// The 16-bit value whose big-endian bytes are `b[at]`, `b[at + 1]`.
pub open spec fn be_u16_at(b: Seq<u8>, at: int) -> u16 {
    (b[at] * 256 + b[at + 1]) as u16
}

/// Relies on byteorder's `BigEndian::read_u16`: the first two bytes of the
/// slice it is given, most significant first.
#[verifier::external_body]
fn read_be_u16(buf: &[u8], at: usize) -> (v: u16)
    requires
        at + 2 <= buf@.len(),
    ensures
        v == be_u16_at(buf@, at as int),
{
    <byteorder::BigEndian as byteorder::ByteOrder>::read_u16(&buf[at..at + 2])
}

/// The header held in the first 12 bytes of `b`.
pub open spec fn spec_dns_header(b: Seq<u8>) -> DnsHeader {
    DnsHeader {
        id: be_u16_at(b, 0),
        flags: be_u16_at(b, 2),
        qdcount: be_u16_at(b, 4),
        ancount: be_u16_at(b, 6),
        nscount: be_u16_at(b, 8),
        arcount: be_u16_at(b, 10),
    }
}

impl DnsHeader {
    /// Reads the header from the start of `buf`, with the number of bytes it
    /// takes. Fails only when `buf` is shorter than 12 bytes.
    pub fn parse(buf: &[u8]) -> (r: Result<(DnsHeader, usize), ParseError>)
        ensures
            buf@.len() < DNS_HEADER_LEN ==> r == Err::<(DnsHeader, usize), ParseError>(
                ParseError::InvalidHeader,
            ),
            buf@.len() >= DNS_HEADER_LEN ==> r == Ok::<(DnsHeader, usize), ParseError>(
                (spec_dns_header(buf@), DNS_HEADER_LEN),
            ),
    {
        if buf.len() < DNS_HEADER_LEN {
            return Err(ParseError::InvalidHeader);
        }
        let hdr = DnsHeader {
            id: read_be_u16(buf, 0),
            flags: read_be_u16(buf, 2),
            qdcount: read_be_u16(buf, 4),
            ancount: read_be_u16(buf, 6),
            nscount: read_be_u16(buf, 8),
            arcount: read_be_u16(buf, 10),
        };
        Ok((hdr, DNS_HEADER_LEN))
    }
}

/// Position just past the zero byte that ends the name starting at `pos`:
/// a run of labels, each a length byte and that many bytes. `None` when the
/// name runs past the end of `b`.
pub open spec fn name_end(b: Seq<u8>, pos: int) -> Option<int>
    decreases b.len() - pos,
{
    if pos < 0 || pos >= b.len() {
        None
    } else if b[pos] == 0 {
        Some(pos + 1)
    } else if pos + 1 + b[pos] > b.len() {
        None
    } else {
        name_end(b, pos + 1 + b[pos])
    }
}

/// The labels of the name starting at `pos`, as far as they lie within `b`.
pub open spec fn labels(b: Seq<u8>, pos: int) -> Seq<Seq<u8>>
    decreases b.len() - pos,
{
    if pos < 0 || pos >= b.len() || b[pos] == 0 || pos + 1 + b[pos] > b.len() {
        Seq::empty()
    } else {
        seq![b.subrange(pos + 1, pos + 1 + b[pos])] + labels(b, pos + 1 + b[pos])
    }
}

/// The parts joined, with a dot between each two.
pub open spec fn join_dotted(parts: Seq<Seq<char>>) -> Seq<char>
    decreases parts.len(),
{
    if parts.len() == 0 {
        Seq::empty()
    } else if parts.len() == 1 {
        parts[0]
    } else {
        join_dotted(parts.drop_last()) + seq!['.'] + parts.last()
    }
}

/// Whether `b` holds a whole question from its start: a name whose labels
/// are UTF-8, then four bytes of type and class.
pub open spec fn question_ok(b: Seq<u8>) -> bool {
    &&& name_end(b, 0) is Some
    &&& name_end(b, 0)->0 + 4 <= b.len()
    &&& forall|i: int| 0 <= i < labels(b, 0).len() ==> valid_utf8(#[trigger] labels(b, 0)[i])
}

/// The name of the question at the start of `b`.
pub open spec fn question_name(b: Seq<u8>) -> Seq<char> {
    join_dotted(labels(b, 0).map_values(|l: Seq<u8>| decode_utf8(l)))
}

proof fn lemma_labels_step(b: Seq<u8>, pos: int)
    requires
        0 <= pos < b.len(),
        b[pos] != 0,
        pos + 1 + b[pos] <= b.len(),
    ensures
        labels(b, pos) == seq![b.subrange(pos + 1, pos + 1 + b[pos])] + labels(
            b,
            pos + 1 + b[pos],
        ),
        name_end(b, pos) == name_end(b, pos + 1 + b[pos]),
{
}

impl DnsQuestion {
    /// Reads the question at the start of `buf`, with the number of bytes it
    /// takes. Fails when the question runs past the end of `buf` or a label is
    /// not UTF-8.
    pub fn parse(buf: &[u8]) -> (r: Result<(DnsQuestion, usize), ParseError>)
        ensures
            r is Ok <==> question_ok(buf@),
            r matches Err(e) ==> e == ParseError::InvalidQuestion,
            r matches Ok((q, n)) ==> {
                let end = name_end(buf@, 0)->0;
                &&& q.name@ == question_name(buf@)
                &&& q.qtype == be_u16_at(buf@, end)
                &&& q.qclass == be_u16_at(buf@, end + 2)
                &&& n == end + 4
            },
    {
        let ghost b = buf@;
        let ghost mut done: Seq<Seq<u8>> = Seq::empty();
        let mut name = String::new();
        let mut pos: usize = 0;
        let mut first: bool = true;
        loop
            invariant
                0 <= pos <= buf@.len(),
                b == buf@,
                first == (done.len() == 0),
                labels(b, 0) == done + labels(b, pos as int),
                name_end(b, 0) == name_end(b, pos as int),
                forall|i: int| 0 <= i < done.len() ==> valid_utf8(#[trigger] done[i]),
                name@ == join_dotted(done.map_values(|l: Seq<u8>| decode_utf8(l))),
            ensures
                pos < buf@.len(),
                buf@[pos as int] == 0,
            decreases buf@.len() - pos,
        {
            if pos >= buf.len() {
                return Err(ParseError::InvalidQuestion);
            }
            let count = buf[pos] as usize;
            if count == 0 {
                break;
            }
            if count > buf.len() - pos - 1 {
                return Err(ParseError::InvalidQuestion);
            }
            let label = slice_subrange(buf, pos + 1, pos + 1 + count);
            proof {
                lemma_labels_step(b, pos as int);
            }
            let text = match utf8_str(label) {
                Some(t) => t,
                None => {
                    proof {
                        assert(labels(b, 0)[done.len() as int] == label@);
                    }
                    return Err(ParseError::InvalidQuestion);
                },
            };
            let ghost old_parts = done.map_values(|l: Seq<u8>| decode_utf8(l));
            if !first {
                proof {
                    reveal_strlit(".");
                }
                name.append(".");
            }
            name.append(text);
            proof {
                let parts = done.push(label@).map_values(|l: Seq<u8>| decode_utf8(l));
                assert(parts.drop_last() =~= old_parts);
                assert(labels(b, 0) =~= done.push(label@) + labels(b, (pos + 1 + count) as int));
                done = done.push(label@);
            }
            first = false;
            pos = pos + 1 + count;
        }
        proof {
            assert(done =~= labels(b, 0));
        }
        if buf.len() - pos < 5 {
            return Err(ParseError::InvalidQuestion);
        }
        let pos = pos + 1;
        let qtype = read_be_u16(buf, pos);
        let qclass = read_be_u16(buf, pos + 2);
        Ok((DnsQuestion { name, qtype, qclass }, pos + 4))
    }
}

} // verus!
