//! The answer: one resource record.
//!
//! On the wire a record is its name, its type and its class as big-endian
//! 16-bit numbers, its time to live as a big-endian 32-bit number, the length
//! of its data as a big-endian 16-bit number, and its data.

use vstd::prelude::*;
use crate::rdns::types::QClass;
use crate::rdns::wire::{append_bytes, be16_bytes, be32_bytes, push_u16, push_u32};

verus! {

/// The type of a resource record.
#[derive(PartialEq, Eq, Structural, Debug, Clone, Copy)]
pub enum AnswerType {
    /// A host address.
    A,
    /// An authoritative name server.
    NS,
    /// A mail destination.
    MD,
    /// A mail forwarder.
    MF,
    /// The canonical name for an alias.
    CNAME,
    /// The start of a zone of authority.
    SOA,
    /// A mailbox domain name.
    MB,
    /// A mail group member.
    MG,
    /// A mail rename domain name.
    MR,
    /// A null record.
    NULL,
    /// A well known service description.
    WKS,
    /// A domain name pointer.
    PTR,
    /// Host information.
    HINFO,
    /// Mailbox or mail list information.
    MINFO,
    /// A mail exchange.
    MX,
    /// Text strings.
    TXT,
}

impl AnswerType {
    /// The number that stands for this type on the wire.
    pub open spec fn spec_code(self) -> u16 {
        match self {
            AnswerType::A => 1,
            AnswerType::NS => 2,
            AnswerType::MD => 3,
            AnswerType::MF => 4,
            AnswerType::CNAME => 5,
            AnswerType::SOA => 6,
            AnswerType::MB => 7,
            AnswerType::MG => 8,
            AnswerType::MR => 9,
            AnswerType::NULL => 10,
            AnswerType::WKS => 11,
            AnswerType::PTR => 12,
            AnswerType::HINFO => 13,
            AnswerType::MINFO => 14,
            AnswerType::MX => 15,
            AnswerType::TXT => 16,
        }
    }

    /// The number that stands for this type on the wire.
    #[verifier::when_used_as_spec(spec_code)]
    pub fn code(self) -> (c: u16)
        ensures
            c == self.spec_code(),
    {
        match self {
            AnswerType::A => 1,
            AnswerType::NS => 2,
            AnswerType::MD => 3,
            AnswerType::MF => 4,
            AnswerType::CNAME => 5,
            AnswerType::SOA => 6,
            AnswerType::MB => 7,
            AnswerType::MG => 8,
            AnswerType::MR => 9,
            AnswerType::NULL => 10,
            AnswerType::WKS => 11,
            AnswerType::PTR => 12,
            AnswerType::HINFO => 13,
            AnswerType::MINFO => 14,
            AnswerType::MX => 15,
            AnswerType::TXT => 16,
        }
    }
}

/// The wire form of a record with the given fields.
pub open spec fn spec_record(
    name: Seq<u8>,
    rtype: u16,
    rclass: u16,
    ttl: u32,
    rdlength: u16,
    rdata: Seq<u8>,
) -> Seq<u8> {
    name + be16_bytes(rtype) + be16_bytes(rclass) + be32_bytes(ttl) + be16_bytes(rdlength) + rdata
}

/// A resource record.
#[derive(Debug, Clone)]
pub struct Answer {
    /// The name as it stands on the wire.
    pub name: Vec<u8>,
    pub answertype: AnswerType,
    pub class: QClass,
    /// The time to live, in seconds.
    pub ttl: u32,
    /// The number of bytes of `rddata`.
    pub rdlength: u16,
    pub rddata: Vec<u8>,
}

impl Answer {
    /// The length field says how long the data is.
    pub open spec fn wf(&self) -> bool {
        self.rdlength == self.rddata@.len()
    }

    /// The wire form of this record.
    pub open spec fn spec_wire(&self) -> Seq<u8> {
        spec_record(
            self.name@,
            self.answertype.spec_code(),
            self.class.spec_code(),
            self.ttl,
            self.rdlength,
            self.rddata@,
        )
    }

    /// A record with the given fields; its length field is the length of
    /// `rddata`, which has to fit in 16 bits.
    pub fn new(name: Vec<u8>, answertype: AnswerType, class: QClass, ttl: u32, rddata: Vec<u8>) -> (a:
        Self)
        requires
            rddata@.len() <= 0xFFFF,
        ensures
            a.name == name,
            a.answertype == answertype,
            a.class == class,
            a.ttl == ttl,
            a.rddata == rddata,
            a.rdlength == rddata@.len(),
            a.wf(),
    {
        let rdlength: u16 = rddata.len() as u16;
        Answer { name, answertype, class, ttl, rdlength, rddata }
    }

    /// The bytes of this record as they go into a datagram.
    pub fn to_udp_package(&self) -> (packet: Vec<u8>)
        ensures
            packet@ == self.spec_wire(),
            packet@.len() == self.name@.len() + 10 + self.rddata@.len(),
    {
        let mut packet: Vec<u8> = Vec::new();
        append_bytes(&mut packet, self.name.as_slice());
        push_u16(&mut packet, self.answertype.code());
        push_u16(&mut packet, self.class.code());
        push_u32(&mut packet, self.ttl);
        push_u16(&mut packet, self.rdlength);
        append_bytes(&mut packet, self.rddata.as_slice());
        packet
    }
}

} // verus!
