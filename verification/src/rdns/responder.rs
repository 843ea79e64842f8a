//! The responder: the answer to a question and the reply datagram.
//!
//! A reply is the header of the request, rewritten as a response with one
//! answer, then the question as it came, then one address record for the
//! name that was asked.

use vstd::prelude::*;
use crate::rdns::answer::{spec_record, Answer, AnswerType};
use crate::rdns::error::DnsError;
use crate::rdns::header::{
    spec_bit,
    spec_opcode_bits,
    spec_rcode_bits,
    spec_z_bits,
    DNSHeader,
    ReturnCode,
    HEADER_LEN,
    QR,
};
use crate::rdns::question::{
    lemma_parse_labels_sound,
    lemma_question_reads_its_bytes,
    spec_decode_question,
    spec_encode_labels,
    DNSQuestion,
};
use crate::rdns::types::QClass;
use crate::rdns::wire::{append_bytes, be16, be32_bytes, push_u32};

verus! {

/// What the responder answers with.
#[derive(Debug, Clone, Copy, PartialEq, Eq, Structural)]
pub struct ResponderConfig {
    /// The IPv4 address of every answer; its most significant byte is the
    /// first octet.
    pub answer_address: u32,
    /// The time to live of every answer, in seconds.
    pub ttl: u32,
}

impl Default for ResponderConfig {
    /// The address 127.0.0.1 and a time to live of one minute.
    fn default() -> (c: Self)
        ensures
            c.answer_address == 0x7F00_0001,
            c.ttl == 60,
    {
        ResponderConfig { answer_address: 0x7F00_0001, ttl: 60 }
    }
}

/// The header of the reply to a request: the first twelve bytes of the
/// request with the response bit set, the authoritative-answer and
/// recursion-available bits and the response code cleared, and an answer
/// count of one.
pub open spec fn spec_response_header(request: Seq<u8>) -> Seq<u8> {
    seq![
        request[0],
        request[1],
        (request[2] & 0x7B) | 0x80,
        request[3] & 0x70,
        request[4],
        request[5],
        0u8,
        1u8,
        request[8],
        request[9],
        request[10],
        request[11],
    ]
}

/// The header of the reply, field by field.
pub open spec fn spec_response_to(h: DNSHeader) -> DNSHeader {
    DNSHeader {
        qr: QR::RESPONSE,
        aa: false,
        recursion_available: false,
        return_code: ReturnCode::NoError,
        ancount: 1,
        ..h
    }
}

/// The wire form of the answer to a question for the name `raw`.
pub open spec fn spec_answer_wire(raw: Seq<u8>, config: ResponderConfig) -> Seq<u8> {
    spec_record(
        raw,
        AnswerType::A.spec_code(),
        QClass::IN.spec_code(),
        config.ttl,
        4,
        be32_bytes(config.answer_address),
    )
}

/// The reply to a datagram, or the reason for not replying. The header is
/// decoded first, then the question.
pub open spec fn spec_reply(request: Seq<u8>, config: ResponderConfig) -> Result<Seq<u8>, DnsError> {
    match DNSHeader::spec_decode(request) {
        Err(e) => Err(e),
        Ok(_) => match spec_decode_question(request) {
            Err(e) => Err(e),
            Ok(q) => Ok(
                spec_response_header(request) + request.subrange(12, q.end_offset)
                    + spec_answer_wire(q.qname.raw, config),
            ),
        },
    }
}

/// A header depends on the first twelve bytes alone.
pub proof fn lemma_header_reads_twelve_bytes(a: Seq<u8>, b: Seq<u8>)
    requires
        a.len() >= 12,
        b.len() >= 12,
        a.subrange(0, 12) == b.subrange(0, 12),
    ensures
        DNSHeader::spec_decode(a) == DNSHeader::spec_decode(b),
{
    assert forall|i: int| 0 <= i < 12 implies a[i] == b[i] by {
        assert(a[i] == a.subrange(0, 12)[i]);
        assert(b[i] == b.subrange(0, 12)[i]);
    }
}

/// The rewritten header decodes to the header of the request with the
/// response bit set, no authoritative answer, no recursion available, the
/// response code `NoError` and one answer; every other field is kept.
pub proof fn lemma_response_header(request: Seq<u8>)
    requires
        DNSHeader::spec_decode(request) is Ok,
    ensures
        spec_response_header(request).len() == 12,
        DNSHeader::spec_decode(request) matches Ok(h) && DNSHeader::spec_decode(
            spec_response_header(request),
        ) == Ok::<DNSHeader, DnsError>(spec_response_to(h)),
{
    let b2 = request[2];
    let b3 = request[3];
    let r2 = (b2 & 0x7B) | 0x80;
    let r3 = b3 & 0x70;
    assert(spec_bit(r2, 7)) by (bit_vector)
        requires
            r2 == (b2 & 0x7B) | 0x80,
    ;
    assert(spec_opcode_bits(r2) == spec_opcode_bits(b2)) by (bit_vector)
        requires
            r2 == (b2 & 0x7B) | 0x80,
    ;
    assert(!spec_bit(r2, 2)) by (bit_vector)
        requires
            r2 == (b2 & 0x7B) | 0x80,
    ;
    assert(spec_bit(r2, 1) == spec_bit(b2, 1)) by (bit_vector)
        requires
            r2 == (b2 & 0x7B) | 0x80,
    ;
    assert(spec_bit(r2, 0) == spec_bit(b2, 0)) by (bit_vector)
        requires
            r2 == (b2 & 0x7B) | 0x80,
    ;
    assert(!spec_bit(r3, 7)) by (bit_vector)
        requires
            r3 == b3 & 0x70,
    ;
    assert(spec_z_bits(r3) == spec_z_bits(b3)) by (bit_vector)
        requires
            r3 == b3 & 0x70,
    ;
    assert(spec_rcode_bits(r3) == 0) by (bit_vector)
        requires
            r3 == b3 & 0x70,
    ;
    assert(be16(0, 1) == 1) by (bit_vector);
}

/// The reply carries a header that decodes, with the identifier of the
/// request, the response bit set and an answer count of one.
pub proof fn lemma_reply_header(request: Seq<u8>, config: ResponderConfig)
    requires
        spec_reply(request, config) is Ok,
    ensures
        DNSHeader::spec_decode(request) matches Ok(h) && spec_reply(request, config) matches Ok(
            reply,
        ) && DNSHeader::spec_decode(reply) matches Ok(g) && {
            &&& g == spec_response_to(h)
            &&& g.id == h.id
            &&& g.qr == QR::RESPONSE
            &&& g.ancount == 1
        },
{
    let reply = spec_reply(request, config)->Ok_0;
    lemma_response_header(request);
    let head = spec_response_header(request);
    assert(reply.subrange(0, 12) =~= head.subrange(0, 12));
    lemma_header_reads_twelve_bytes(reply, head);
}

/// The reply holds, behind its header, the question as it stood in the
/// request and then exactly one record: the wire form of the labels that
/// were asked for, type A, class IN, the configured time to live, a data
/// length of four and the configured address. Nothing follows the record,
/// whatever followed the question in the request.
pub proof fn lemma_reply_answer(request: Seq<u8>, config: ResponderConfig)
    requires
        spec_reply(request, config) is Ok,
    ensures
        spec_decode_question(request) matches Ok(q) && spec_reply(request, config) matches Ok(
            reply,
        ) && {
            &&& 12 < q.end_offset <= request.len()
            &&& reply.len() == q.end_offset + q.qname.raw.len() + 14
            &&& reply.subrange(0, 12) == spec_response_header(request)
            &&& reply.subrange(12, q.end_offset) == request.subrange(12, q.end_offset)
            &&& reply.subrange(q.end_offset, q.end_offset + q.qname.raw.len())
                == spec_encode_labels(q.qname.parts)
            &&& reply.subrange(q.end_offset, reply.len() as int) == spec_record(
                spec_encode_labels(q.qname.parts),
                1,
                1,
                config.ttl,
                4,
                be32_bytes(config.answer_address),
            )
        },
{
    let q = spec_decode_question(request)->Ok_0;
    let reply = spec_reply(request, config)->Ok_0;
    lemma_parse_labels_sound(request, 12, 12);
    let head = spec_response_header(request);
    let asked = request.subrange(12, q.end_offset);
    let record = spec_answer_wire(q.qname.raw, config);
    assert(reply == head + asked + record);
    assert(reply.subrange(0, 12) =~= head);
    assert(reply.subrange(12, q.end_offset) =~= asked);
    assert(reply.subrange(q.end_offset, reply.len() as int) =~= record);
    assert(reply.subrange(q.end_offset, q.end_offset + q.qname.raw.len()) =~= q.qname.raw);
}

/// The question of the reply decodes to the question of the request.
pub proof fn lemma_reply_question(request: Seq<u8>, config: ResponderConfig)
    requires
        spec_reply(request, config) is Ok,
    ensures
        spec_reply(request, config) matches Ok(reply) && spec_decode_question(reply)
            == spec_decode_question(request),
{
    let reply = spec_reply(request, config)->Ok_0;
    lemma_reply_answer(request, config);
    lemma_question_reads_its_bytes(request, reply);
}

/// The answer to a question: one address record of class IN for the name
/// that was asked, with the configured address and time to live, whatever
/// the type and the class of the question.
pub fn respond(question: &DNSQuestion, config: &ResponderConfig) -> (a: Answer)
    ensures
        a.name@ == question.qname.raw@,
        a.answertype == AnswerType::A,
        a.class == QClass::IN,
        a.ttl == config.ttl,
        a.rdlength == 4,
        a.rddata@ == be32_bytes(config.answer_address),
        a.wf(),
        a.spec_wire() == spec_answer_wire(question.qname.raw@, *config),
{
    let mut name: Vec<u8> = Vec::new();
    append_bytes(&mut name, question.qname.raw.as_slice());
    let mut rdata: Vec<u8> = Vec::new();
    push_u32(&mut rdata, config.answer_address);
    assert(rdata@ =~= be32_bytes(config.answer_address));
    assert(name@ =~= question.qname.raw@);
    Answer::new(name, AnswerType::A, QClass::IN, config.ttl, rdata)
}

/// The header of the reply to `request`.
pub fn response_header(request: &[u8]) -> (out: Vec<u8>)
    requires
        request@.len() >= 12,
    ensures
        out@ == spec_response_header(request@),
{
    let mut out: Vec<u8> = Vec::new();
    out.push(request[0]);
    out.push(request[1]);
    out.push((request[2] & 0x7B) | 0x80);
    out.push(request[3] & 0x70);
    out.push(request[4]);
    out.push(request[5]);
    out.push(0);
    out.push(1);
    out.push(request[8]);
    out.push(request[9]);
    out.push(request[10]);
    out.push(request[11]);
    assert(out@ =~= spec_response_header(request@));
    out
}

/// Puts a reply together: the rewritten header, the question, which stands
/// in the request from the end of the header to `question_end`, and the
/// answer record. What follows the question in the request is left out.
pub fn create_answer_packet(request: &[u8], question_end: usize, answer_udp_packet: &Vec<u8>) -> (packet:
    Vec<u8>)
    requires
        12 <= question_end <= request@.len(),
    ensures
        packet@ == spec_response_header(request@) + request@.subrange(12, question_end as int)
            + answer_udp_packet@,
{
    let mut packet = response_header(request);
    append_bytes(&mut packet, vstd::slice::slice_subrange(request, HEADER_LEN, question_end));
    append_bytes(&mut packet, answer_udp_packet.as_slice());
    packet
}

/// Handles one datagram: decodes its header and its first question and
/// builds the reply, or says why the datagram gets none.
pub fn reply_to(request: &[u8], config: &ResponderConfig) -> (r: Result<Vec<u8>, DnsError>)
    ensures
        r matches Ok(reply) ==> spec_reply(request@, *config) == Ok::<Seq<u8>, DnsError>(reply@),
        r matches Err(e) ==> spec_reply(request@, *config) == Err::<Seq<u8>, DnsError>(e),
{
    match DNSHeader::decode(request) {
        Ok(_) => {},
        Err(e) => {
            return Err(e);
        },
    }
    let question = match DNSQuestion::decode(request) {
        Ok(q) => q,
        Err(e) => {
            return Err(e);
        },
    };
    let answer = respond(&question, config);
    let record = answer.to_udp_package();
    proof {
        lemma_parse_labels_sound(request@, 12, 12);
    }
    Ok(create_answer_packet(request, question.end_offset, &record))
}

} // verus!
