//! The question section: a domain name, a type and a class.
//!
//! A name is a run of labels, each led by its length in one byte, closed by
//! a zero byte. A label holds 1 to 63 bytes of UTF-8 text, and the whole
//! name, length bytes and the closing zero included, at most 255 bytes.

use vstd::prelude::*;
use vstd::slice::{slice_subrange, slice_to_vec};
use vstd::utf8::{
    decode_utf8,
    decode_utf8_encode_utf8,
    encode_utf8,
    encode_utf8_decode_utf8,
    encode_utf8_valid_utf8,
    valid_utf8,
};
use crate::rdns::error::{DnsError, DnsErrorKind};
use crate::rdns::header::HEADER_LEN;
use crate::rdns::types::{QClass, QueryType};
use crate::rdns::wire::{
    append_bytes,
    be16_bytes,
    lemma_be16_round_trip,
    push_u16,
    read_u16,
    spec_u16_at,
};

verus! {

/// The longest label, in bytes.
pub const MAX_LABEL_LEN: usize = 63;

/// The longest encoded name, in bytes.
pub const MAX_NAME_LEN: usize = 255;

/// What a name parser gives: the labels and the offset one past the closing
/// zero byte, or the reason for rejecting the name.
pub type ParsedLabels = Result<(Seq<Seq<char>>, int), DnsError>;

/// The error of the given kind.
pub open spec fn error_of(kind: DnsErrorKind) -> DnsError {
    DnsError { kind }
}

/// The texts of a list of labels.
pub open spec fn label_views(parts: Seq<String>) -> Seq<Seq<char>> {
    Seq::new(parts.len(), |i: int| parts[i]@)
}

/// Puts `front` before the labels of a parse that succeeded.
pub open spec fn prepend_labels(front: Seq<Seq<char>>, r: ParsedLabels) -> ParsedLabels {
    match r {
        Ok((rest, end)) => Ok((front + rest, end)),
        Err(e) => Err(e),
    }
}

/// The labels of the name that began at `start`, read from `pos` on.
///
/// At each step one length byte `n` is read. Zero closes the name. A byte of
/// `0xC0` or more is a compression pointer, any other byte above 63 is
/// reserved. A label that would take the name past 255 bytes, that runs past
/// the end of the buffer or that is not UTF-8 is rejected, in this order.
pub open spec fn spec_parse_labels(bytes: Seq<u8>, start: int, pos: int) -> ParsedLabels
    decreases bytes.len() - pos,
{
    if pos < 0 || pos >= bytes.len() {
        Err(error_of(DnsErrorKind::Truncated))
    } else {
        let n = bytes[pos] as int;
        if n == 0 {
            Ok((Seq::empty(), pos + 1))
        } else if n >= 0xC0 {
            Err(error_of(DnsErrorKind::UnsupportedCompression))
        } else if n > 63 {
            Err(error_of(DnsErrorKind::MalformedLabel))
        } else if pos - start + n + 2 > 255 {
            Err(error_of(DnsErrorKind::NameTooLong))
        } else if pos + 1 + n > bytes.len() {
            Err(error_of(DnsErrorKind::Truncated))
        } else if !valid_utf8(bytes.subrange(pos + 1, pos + 1 + n)) {
            Err(error_of(DnsErrorKind::NonUtf8Label))
        } else {
            prepend_labels(
                seq![decode_utf8(bytes.subrange(pos + 1, pos + 1 + n))],
                spec_parse_labels(bytes, start, pos + 1 + n),
            )
        }
    }
}

/// The wire form of a list of labels: each label after its length byte, and
/// a closing zero.
pub open spec fn spec_encode_labels(labels: Seq<Seq<char>>) -> Seq<u8>
    decreases labels.len(),
{
    if labels.len() == 0 {
        seq![0u8]
    } else {
        seq![encode_utf8(labels[0]).len() as u8] + encode_utf8(labels[0]) + spec_encode_labels(
            labels.drop_first(),
        )
    }
}

/// Every label takes 1 to 63 bytes.
pub open spec fn labels_wf(labels: Seq<Seq<char>>) -> bool {
    forall|i: int| 0 <= i < labels.len() ==> 1 <= #[trigger] encode_utf8(labels[i]).len() <= 63
}

/// The labels can be put on the wire: each takes 1 to 63 bytes and the name
/// at most 255.
pub open spec fn labels_encodable(labels: Seq<Seq<char>>) -> bool {
    labels_wf(labels) && spec_encode_labels(labels).len() <= 255
}

/// A decoded name as a value: its labels, its bytes on the wire and the
/// offset one past its closing zero.
pub struct QNameView {
    pub parts: Seq<Seq<char>>,
    pub raw: Seq<u8>,
    pub last_read: int,
}

/// A decoded question as a value.
pub struct DNSQuestionView {
    pub qname: QNameView,
    pub qtype: QueryType,
    pub qclass: QClass,
    pub end_offset: int,
}

/// The name that follows the header of `bytes`.
pub open spec fn spec_parse_qname(bytes: Seq<u8>) -> Result<QNameView, DnsError> {
    match spec_parse_labels(bytes, 12, 12) {
        Ok((labels, end)) => Ok(
            QNameView { parts: labels, raw: bytes.subrange(12, end), last_read: end },
        ),
        Err(e) => Err(e),
    }
}

/// The query type in the two bytes at `from`.
pub open spec fn spec_parse_qtype(bytes: Seq<u8>, from: int) -> Result<QueryType, DnsError> {
    if from + 2 > bytes.len() {
        Err(error_of(DnsErrorKind::Truncated))
    } else {
        match QueryType::spec_from_code(spec_u16_at(bytes, from)) {
            Some(t) => Ok(t),
            None => Err(error_of(DnsErrorKind::UnknownQueryType)),
        }
    }
}

/// The query class in the two bytes that follow the type at `from`.
pub open spec fn spec_parse_qclass(bytes: Seq<u8>, from: int) -> Result<QClass, DnsError> {
    if from + 4 > bytes.len() {
        Err(error_of(DnsErrorKind::Truncated))
    } else {
        match QClass::spec_from_code(spec_u16_at(bytes, from + 2)) {
            Some(c) => Ok(c),
            None => Err(error_of(DnsErrorKind::UnknownClass)),
        }
    }
}

/// The first question of the datagram `bytes`: the name, then the type, then
/// the class; the first of them that fails gives the error.
pub open spec fn spec_decode_question(bytes: Seq<u8>) -> Result<DNSQuestionView, DnsError> {
    match spec_parse_qname(bytes) {
        Err(e) => Err(e),
        Ok(name) => match spec_parse_qtype(bytes, name.last_read) {
            Err(e) => Err(e),
            Ok(qtype) => match spec_parse_qclass(bytes, name.last_read) {
                Err(e) => Err(e),
                Ok(qclass) => Ok(
                    DNSQuestionView { qname: name, qtype, qclass, end_offset: name.last_read + 4 },
                ),
            },
        },
    }
}

/// The wire form of a question: the name as it came, the type and the class.
pub open spec fn spec_encode_question(q: DNSQuestionView) -> Seq<u8> {
    q.qname.raw + be16_bytes(q.qtype.spec_code()) + be16_bytes(q.qclass.spec_code())
}

/// A name that parses is the wire form of its labels: the bytes from `pos`
/// to the end of the name are exactly the encoding of the labels found, each
/// label takes 1 to 63 bytes, and the name that began at `start` ends within
/// 255 bytes of it.
pub proof fn lemma_parse_labels_sound(bytes: Seq<u8>, start: int, pos: int)
    requires
        spec_parse_labels(bytes, start, pos) is Ok,
        pos - start <= 254,
    ensures
        spec_parse_labels(bytes, start, pos) matches Ok((labels, end)) && {
            &&& 0 <= pos < end <= bytes.len()
            &&& end - start <= 255
            &&& labels_wf(labels)
            &&& bytes.subrange(pos, end) == spec_encode_labels(labels)
        },
    decreases bytes.len() - pos,
{
    let n = bytes[pos] as int;
    if n != 0 {
        let body = bytes.subrange(pos + 1, pos + 1 + n);
        let next = pos + 1 + n;
        lemma_parse_labels_sound(bytes, start, next);
        let (rest, end) = spec_parse_labels(bytes, start, next)->Ok_0;
        let labels = seq![decode_utf8(body)] + rest;
        decode_utf8_encode_utf8(body);
        assert(labels.drop_first() =~= rest);
        assert(labels[0] == decode_utf8(body));
        assert(encode_utf8(labels[0]) == body);
        assert(bytes.subrange(pos, end) =~= seq![n as u8] + body + bytes.subrange(next, end));
        assert forall|i: int| 0 <= i < labels.len() implies 1 <= #[trigger] encode_utf8(
            labels[i],
        ).len() <= 63 by {
            if i > 0 {
                assert(labels[i] == rest[i - 1]);
            }
        }
    } else {
        assert(bytes.subrange(pos, pos + 1) =~= seq![0u8]);
    }
}

/// Encoding then decoding gives the labels back.
///
/// Where the buffer holds, from `pos` on, the wire form of labels that take
/// 1 to 63 bytes each, and the name that began at `start` stays within 255
/// bytes, the parser returns these labels and the offset one past the name.
pub proof fn lemma_labels_round_trip(bytes: Seq<u8>, start: int, pos: int, labels: Seq<Seq<char>>)
    requires
        0 <= start <= pos,
        labels_wf(labels),
        pos - start + spec_encode_labels(labels).len() <= 255,
        pos + spec_encode_labels(labels).len() <= bytes.len(),
        bytes.subrange(pos, pos + spec_encode_labels(labels).len()) == spec_encode_labels(labels),
    ensures
        spec_parse_labels(bytes, start, pos) == Ok::<(Seq<Seq<char>>, int), DnsError>(
            (labels, pos + spec_encode_labels(labels).len()),
        ),
    decreases labels.len(),
{
    let wire = spec_encode_labels(labels);
    let window = bytes.subrange(pos, pos + wire.len());
    if labels.len() == 0 {
        assert(bytes[pos] == window[0]);
        assert(labels =~= Seq::empty());
    } else {
        let body = encode_utf8(labels[0]);
        let rest = labels.drop_first();
        let n = body.len() as int;
        let next = pos + 1 + n;
        let tail = spec_encode_labels(rest);
        assert(wire == seq![n as u8] + body + tail);
        assert(bytes[pos] == window[0]);
        assert(bytes[pos] as int == n);
        assert(bytes.subrange(pos + 1, next) =~= body) by {
            assert forall|i: int| 0 <= i < n implies bytes[pos + 1 + i] == body[i] by {
                assert(bytes[pos + 1 + i] == window[1 + i]);
            }
        }
        assert(bytes.subrange(next, next + tail.len()) =~= tail) by {
            assert forall|i: int| 0 <= i < tail.len() implies bytes[next + i] == tail[i] by {
                assert(bytes[next + i] == window[1 + n + i]);
            }
        }
        encode_utf8_valid_utf8(labels[0]);
        encode_utf8_decode_utf8(labels[0]);
        assert(labels_wf(rest)) by {
            assert forall|i: int| 0 <= i < rest.len() implies 1 <= #[trigger] encode_utf8(
                rest[i],
            ).len() <= 63 by {
                assert(rest[i] == labels[i + 1]);
            }
        }
        lemma_labels_round_trip(bytes, start, next, rest);
        assert(seq![labels[0]] + rest =~= labels);
    }
}

/// Decoding a question, encoding what was decoded behind any twelve header
/// bytes and decoding again gives the same question.
pub proof fn lemma_question_round_trip(request: Seq<u8>, header: Seq<u8>)
    requires
        spec_decode_question(request) is Ok,
        header.len() == 12,
    ensures
        spec_decode_question(request) matches Ok(q) && spec_decode_question(
            header + spec_encode_question(q),
        ) == Ok::<DNSQuestionView, DnsError>(q),
{
    let q = spec_decode_question(request)->Ok_0;
    let labels = q.qname.parts;
    let end = q.qname.last_read;
    lemma_parse_labels_sound(request, 12, 12);
    let wire = spec_encode_labels(labels);
    assert(q.qname.raw == wire);
    let again = header + spec_encode_question(q);
    let tcode = q.qtype.spec_code();
    let ccode = q.qclass.spec_code();
    lemma_be16_round_trip(tcode);
    lemma_be16_round_trip(ccode);
    assert(again.len() == end + 4);
    assert(again.subrange(12, 12 + wire.len() as int) =~= wire);
    lemma_labels_round_trip(again, 12, 12, labels);
    assert(again.subrange(12, end) =~= q.qname.raw);
    assert(again[end] == be16_bytes(tcode)[0]);
    assert(again[end + 1] == be16_bytes(tcode)[1]);
    assert(again[end + 2] == be16_bytes(ccode)[0]);
    assert(again[end + 3] == be16_bytes(ccode)[1]);
    assert(spec_u16_at(again, end) == tcode);
    assert(spec_u16_at(again, end + 2) == ccode);
}

/// Labels that can be put on the wire come back from their wire form, with
/// the offset one past it.
pub proof fn lemma_encode_then_parse(labels: Seq<Seq<char>>)
    requires
        labels_encodable(labels),
    ensures
        spec_parse_labels(spec_encode_labels(labels), 0, 0) == Ok::<
            (Seq<Seq<char>>, int),
            DnsError,
        >((labels, spec_encode_labels(labels).len() as int)),
{
    let wire = spec_encode_labels(labels);
    assert(wire.subrange(0, wire.len() as int) =~= wire);
    lemma_labels_round_trip(wire, 0, 0, labels);
}

/// A question is decoded from its own bytes alone: a datagram that holds
/// the same bytes from the end of the header to the end of the question
/// gives the same question, whatever its header and whatever follows.
pub proof fn lemma_question_reads_its_bytes(a: Seq<u8>, b: Seq<u8>)
    requires
        spec_decode_question(a) matches Ok(q) && b.len() >= q.end_offset && b.subrange(
            12,
            q.end_offset,
        ) == a.subrange(12, q.end_offset),
    ensures
        spec_decode_question(b) == spec_decode_question(a),
{
    let q = spec_decode_question(a)->Ok_0;
    let labels = q.qname.parts;
    let end = q.qname.last_read;
    lemma_parse_labels_sound(a, 12, 12);
    let wire = spec_encode_labels(labels);
    let shared_a = a.subrange(12, end + 4);
    let shared_b = b.subrange(12, end + 4);
    assert(shared_a == shared_b);
    assert forall|i: int| 12 <= i < end + 4 implies a[i] == b[i] by {
        assert(a[i] == shared_a[i - 12]);
        assert(b[i] == shared_b[i - 12]);
    }
    assert(b.subrange(12, end) =~= a.subrange(12, end));
    assert(b.subrange(12, 12 + wire.len() as int) == wire);
    lemma_labels_round_trip(b, 12, 12, labels);
}

/// `String::from_utf8`: `None` exactly when the bytes are not UTF-8;
/// otherwise the string whose UTF-8 encoding is these bytes.
///
/// The body is not verified: the contract restates what the standard
/// library documents of the call.
#[verifier::external_body]
fn string_from_utf8(bytes: Vec<u8>) -> (r: Option<String>)
    ensures
        r is Some <==> valid_utf8(bytes@),
        r matches Some(s) ==> encode_utf8(s@) == bytes@,
{
    match String::from_utf8(bytes) {
        Ok(s) => Some(s),
        Err(_) => None,
    }
}

/// A copy of a list of labels.
fn clone_labels(labels: &Vec<String>) -> (r: Vec<String>)
    ensures
        r@ == labels@,
{
    let mut out: Vec<String> = Vec::new();
    let mut i: usize = 0;
    while i < labels.len()
        invariant
            i <= labels@.len(),
            out@ == labels@.subrange(0, i as int),
        decreases labels@.len() - i,
    {
        out.push(labels[i].clone());
        assert(out@ =~= labels@.subrange(0, i + 1));
        i = i + 1;
    }
    assert(labels@.subrange(0, i as int) =~= labels@);
    out
}

/// A decoded domain name.
#[derive(PartialEq, Debug, Clone)]
pub struct QName {
    /// The labels, in order.
    pub parts: Vec<String>,
    /// The bytes of the name on the wire, length bytes and closing zero
    /// included.
    pub raw: Vec<u8>,
    /// The offset one past the closing zero in the datagram.
    pub last_read: usize,
}

impl View for QName {
    type V = QNameView;

    open spec fn view(&self) -> QNameView {
        QNameView {
            parts: label_views(self.parts@),
            raw: self.raw@,
            last_read: self.last_read as int,
        }
    }
}

/// The first question of a datagram.
#[derive(PartialEq, Debug, Clone)]
pub struct DNSQuestion {
    pub qname: QName,
    pub qtype: QueryType,
    pub qclass: QClass,
    /// The offset one past the last byte of the question in the datagram.
    pub end_offset: usize,
}

impl View for DNSQuestion {
    type V = DNSQuestionView;

    open spec fn view(&self) -> DNSQuestionView {
        DNSQuestionView {
            qname: self.qname@,
            qtype: self.qtype,
            qclass: self.qclass,
            end_offset: self.end_offset as int,
        }
    }
}

impl DNSQuestion {
    /// Decodes the first question of a datagram, which begins behind the
    /// twelve bytes of the header.
    pub fn decode(dns_request: &[u8]) -> (r: Result<DNSQuestion, DnsError>)
        ensures
            r matches Ok(q) ==> spec_decode_question(dns_request@) == Ok::<
                DNSQuestionView,
                DnsError,
            >(q@),
            r matches Err(e) ==> spec_decode_question(dns_request@) == Err::<
                DNSQuestionView,
                DnsError,
            >(e),
    {
        let qname = match DNSQuestion::parse_qname(dns_request) {
            Ok(name) => name,
            Err(e) => {
                return Err(e);
            },
        };
        let last_read: usize = qname.last_read;
        let qtype = match DNSQuestion::parse_qtype(dns_request, &last_read) {
            Ok(t) => t,
            Err(e) => {
                return Err(e);
            },
        };
        let qclass = match DNSQuestion::parse_qclass(dns_request, &last_read) {
            Ok(c) => c,
            Err(e) => {
                return Err(e);
            },
        };
        let total: usize = dns_request.len();
        assert(last_read + 4 <= total);
        let end_offset: usize = last_read + 4;
        Ok(DNSQuestion { qname, qtype, qclass, end_offset })
    }

    /// The query type: the big-endian number in the two bytes at
    /// `read_from`, the offset one past the name.
    ///
    /// `Truncated` when the buffer ends before the second byte,
    /// `UnknownQueryType` when the number names no type.
    pub fn parse_qtype(dns_request: &[u8], read_from: &usize) -> (r: Result<QueryType, DnsError>)
        ensures
            r == spec_parse_qtype(dns_request@, *read_from as int),
    {
        let value = match read_u16(dns_request, *read_from) {
            Ok(v) => v,
            Err(e) => {
                return Err(e);
            },
        };
        match QueryType::from_code(value) {
            Some(t) => Ok(t),
            None => Err(DnsError::new(DnsErrorKind::UnknownQueryType)),
        }
    }

    /// The query class: the big-endian number in the two bytes behind the
    /// type, where `read_from` is the offset one past the name.
    ///
    /// `Truncated` when the buffer ends before the fourth byte behind the
    /// name, `UnknownClass` when the number names no class.
    pub fn parse_qclass(dns_request: &[u8], read_from: &usize) -> (r: Result<QClass, DnsError>)
        ensures
            r == spec_parse_qclass(dns_request@, *read_from as int),
    {
        let from: usize = *read_from;
        if from >= dns_request.len() || dns_request.len() - from < 4 {
            return Err(DnsError::new(DnsErrorKind::Truncated));
        }
        let value = match read_u16(dns_request, from + 2) {
            Ok(v) => v,
            Err(e) => {
                return Err(e);
            },
        };
        match QClass::from_code(value) {
            Some(c) => Ok(c),
            None => Err(DnsError::new(DnsErrorKind::UnknownClass)),
        }
    }

    /// Decodes the name that follows the header: its labels, its bytes as
    /// they stand in the datagram, and the offset one past it.
    pub fn parse_qname(dns_request: &[u8]) -> (r: Result<QName, DnsError>)
        ensures
            r matches Ok(name) ==> spec_parse_qname(dns_request@) == Ok::<QNameView, DnsError>(
                name@,
            ),
            r matches Err(e) ==> spec_parse_qname(dns_request@) == Err::<QNameView, DnsError>(e),
    {
        let mut parts: Vec<String> = Vec::new();
        let (labels, last_read) = match DNSQuestion::parse_qname_parts(
            HEADER_LEN,
            dns_request,
            &mut parts,
        ) {
            Ok(found) => found,
            Err(e) => {
                return Err(e);
            },
        };
        proof {
            lemma_parse_labels_sound(dns_request@, 12, 12);
            assert(label_views(labels@) =~= Seq::<Seq<char>>::empty() + label_views(labels@));
        }
        let raw = slice_to_vec(slice_subrange(dns_request, HEADER_LEN, last_read));
        Ok(QName { parts: labels, raw, last_read })
    }

    /// Reads the labels of the name that begins at `pos` and appends them to
    /// `parts`. Returns the whole list and the offset one past the closing
    /// zero byte of the name.
    ///
    /// On an error `parts` is left as it was.
    pub fn parse_qname_parts(pos: usize, dns_request: &[u8], parts: &mut Vec<String>) -> (r: Result<
        (Vec<String>, usize),
        DnsError,
    >)
        ensures
            r matches Ok((all, end)) ==> {
                &&& spec_parse_labels(dns_request@, pos as int, pos as int) matches Ok(
                    (labels, stop),
                )
                &&& stop == end
                &&& label_views(all@) == label_views(old(parts)@) + labels
                &&& final(parts)@ == all@
            },
            r matches Err(e) ==> {
                &&& spec_parse_labels(dns_request@, pos as int, pos as int) == Err::<
                    (Seq<Seq<char>>, int),
                    DnsError,
                >(e)
                &&& *final(parts) == *old(parts)
            },
    {
        let len = dns_request.len();
        if pos >= len {
            return Err(DnsError::new(DnsErrorKind::Truncated));
        }
        let mut found: Vec<String> = Vec::new();
        let mut cur: usize = pos;
        while cur < len
            invariant
                len == dns_request@.len(),
                pos <= cur <= len,
                cur - pos <= 254,
                *parts == *old(parts),
                spec_parse_labels(dns_request@, pos as int, pos as int) == prepend_labels(
                    label_views(found@),
                    spec_parse_labels(dns_request@, pos as int, cur as int),
                ),
            decreases len - cur,
        {
            let n: u8 = dns_request[cur];
            if n == 0 {
                let ghost before = parts@;
                let mut i: usize = 0;
                while i < found.len()
                    invariant
                        i <= found@.len(),
                        parts@ == before + found@.subrange(0, i as int),
                    decreases found@.len() - i,
                {
                    parts.push(found[i].clone());
                    assert(parts@ =~= before + found@.subrange(0, i + 1));
                    i = i + 1;
                }
                assert(found@.subrange(0, i as int) =~= found@);
                let all = clone_labels(parts);
                assert(label_views(all@) =~= label_views(before) + label_views(found@));
                assert(label_views(found@) + Seq::<Seq<char>>::empty() =~= label_views(found@));
                return Ok((all, cur + 1));
            }
            if n >= 0xC0 {
                return Err(DnsError::new(DnsErrorKind::UnsupportedCompression));
            }
            if n as usize > MAX_LABEL_LEN {
                return Err(DnsError::new(DnsErrorKind::MalformedLabel));
            }
            let size: usize = n as usize;
            if cur - pos + size + 2 > MAX_NAME_LEN {
                return Err(DnsError::new(DnsErrorKind::NameTooLong));
            }
            if len - cur - 1 < size {
                return Err(DnsError::new(DnsErrorKind::Truncated));
            }
            let body = slice_to_vec(slice_subrange(dns_request, cur + 1, cur + 1 + size));
            let text = match string_from_utf8(body) {
                Some(s) => s,
                None => {
                    return Err(DnsError::new(DnsErrorKind::NonUtf8Label));
                },
            };
            proof {
                let label = dns_request@.subrange(cur + 1, cur + 1 + size);
                encode_utf8_decode_utf8(text@);
                assert(decode_utf8(label) == text@);
                let later = spec_parse_labels(dns_request@, pos as int, cur + 1 + size);
                assert(label_views(found@.push(text)) =~= label_views(found@).push(text@));
                if later is Ok {
                    let rest = later->Ok_0.0;
                    assert(label_views(found@) + (seq![text@] + rest) =~= label_views(found@).push(
                        text@,
                    ) + rest);
                }
            }
            found.push(text);
            cur = cur + 1 + size;
        }
        Err(DnsError::new(DnsErrorKind::Truncated))
    }

    /// Puts a list of labels on the wire: each label behind its length
    /// byte, and a closing zero.
    ///
    /// `MalformedLabel` when a label is empty or longer than 63 bytes;
    /// otherwise `NameTooLong` when the encoded name is longer than 255
    /// bytes.
    pub fn encode_labels(parts: &Vec<String>) -> (r: Result<Vec<u8>, DnsError>)
        ensures
            !labels_wf(label_views(parts@)) ==> r == Err::<Vec<u8>, DnsError>(
                error_of(DnsErrorKind::MalformedLabel),
            ),
            labels_wf(label_views(parts@)) && !labels_encodable(label_views(parts@)) ==> r == Err::<
                Vec<u8>,
                DnsError,
            >(error_of(DnsErrorKind::NameTooLong)),
            labels_encodable(label_views(parts@)) ==> r is Ok && r->Ok_0@ == spec_encode_labels(
                label_views(parts@),
            ),
    {
        let ghost labels = label_views(parts@);
        let mut k: usize = 0;
        while k < parts.len()
            invariant
                k <= parts@.len(),
                labels == label_views(parts@),
                forall|i: int| 0 <= i < k ==> 1 <= #[trigger] encode_utf8(labels[i]).len() <= 63,
            decreases parts@.len() - k,
        {
            let size = parts[k].as_str().as_bytes().len();
            if size == 0 || size > MAX_LABEL_LEN {
                assert(!(1 <= encode_utf8(labels[k as int]).len() <= 63));
                return Err(DnsError::new(DnsErrorKind::MalformedLabel));
            }
            k = k + 1;
        }
        let mut out: Vec<u8> = Vec::new();
        let mut i: usize = 0;
        proof {
            assert(labels.subrange(0, labels.len() as int) =~= labels);
        }
        while i < parts.len()
            invariant
                i <= parts@.len(),
                labels == label_views(parts@),
                labels_wf(labels),
                out@.len() <= 254,
                out@ + spec_encode_labels(labels.subrange(i as int, labels.len() as int))
                    == spec_encode_labels(labels),
            decreases parts@.len() - i,
        {
            let body = parts[i].as_str().as_bytes();
            let size = body.len();
            proof {
                let suffix = labels.subrange(i as int, labels.len() as int);
                assert(suffix[0] == labels[i as int]);
                assert(suffix.drop_first() =~= labels.subrange(i + 1, labels.len() as int));
                assert(body@ == encode_utf8(labels[i as int]));
                assert(1 <= encode_utf8(labels[i as int]).len() <= 63);
                assert(out@ + (seq![size as u8] + body@ + spec_encode_labels(
                    suffix.drop_first(),
                )) =~= out@.push(size as u8) + body@ + spec_encode_labels(suffix.drop_first()));
            }
            if out.len() + size + 2 > MAX_NAME_LEN {
                return Err(DnsError::new(DnsErrorKind::NameTooLong));
            }
            out.push(size as u8);
            append_bytes(&mut out, body);
            i = i + 1;
        }
        proof {
            assert(labels.subrange(i as int, labels.len() as int) =~= Seq::empty());
            assert(out@ + seq![0u8] =~= out@.push(0u8));
        }
        out.push(0);
        Ok(out)
    }

    /// The wire form of the question: the name as it came, then the type
    /// and the class as big-endian 16-bit numbers.
    pub fn encode(&self) -> (out: Vec<u8>)
        ensures
            out@ == spec_encode_question(self@),
    {
        let mut out: Vec<u8> = Vec::new();
        append_bytes(&mut out, self.qname.raw.as_slice());
        push_u16(&mut out, self.qtype.code());
        push_u16(&mut out, self.qclass.code());
        out
    }
}

} // verus!
