//! The fixed 12-byte header of a DNS message.
//!
//! Layout (bit 7 is the most significant bit of a byte):
//!
//! | bytes  | field                                             |
//! |--------|---------------------------------------------------|
//! | 0..1   | id                                                |
//! | 2      | qr (bit 7), opcode (6..3), aa (2), tc (1), rd (0) |
//! | 3      | ra (bit 7), z (6..4), rcode (3..0)                |
//! | 4..5   | qdcount                                           |
//! | 6..7   | ancount                                           |
//! | 8..9   | nscount                                           |
//! | 10..11 | arcount                                           |
//!
//! All 16-bit fields are big-endian.

use vstd::prelude::*;
use crate::rdns::error::{DnsError, DnsErrorKind};
use crate::rdns::wire::{read_u16, spec_u16_at};

verus! {

/// The number of bytes of a header.
pub const HEADER_LEN: usize = 12;

/// Whether a message is a query or a response.
#[derive(PartialEq, Eq, Structural, Debug, Clone, Copy)]
pub enum QR {
    QUERY,
    RESPONSE,
}

/// The kind of query, four bits on the wire.
#[derive(PartialEq, Eq, Structural, Debug, Clone, Copy)]
pub enum OPCode {
    QUERY,
    IQUERY,
    STATUS,
    NOTIFY,
    UPDATE,
}

impl OPCode {
    /// The number that stands for this opcode on the wire.
    pub open spec fn spec_code(self) -> u8 {
        match self {
            OPCode::QUERY => 0,
            OPCode::IQUERY => 1,
            OPCode::STATUS => 2,
            OPCode::NOTIFY => 4,
            OPCode::UPDATE => 5,
        }
    }

    /// The opcode that a wire number stands for, if any.
    pub open spec fn spec_from_code(value: int) -> Option<OPCode> {
        if value == 0 {
            Some(OPCode::QUERY)
        } else if value == 1 {
            Some(OPCode::IQUERY)
        } else if value == 2 {
            Some(OPCode::STATUS)
        } else if value == 4 {
            Some(OPCode::NOTIFY)
        } else if value == 5 {
            Some(OPCode::UPDATE)
        } else {
            None
        }
    }

    /// Looks a wire number up; `None` for a number that names no opcode.
    pub fn from_code(value: u8) -> (r: Option<OPCode>)
        ensures
            r == OPCode::spec_from_code(value as int),
            r matches Some(op) ==> op.spec_code() == value,
    {
        match value {
            0 => Some(OPCode::QUERY),
            1 => Some(OPCode::IQUERY),
            2 => Some(OPCode::STATUS),
            4 => Some(OPCode::NOTIFY),
            5 => Some(OPCode::UPDATE),
            _ => None,
        }
    }

    /// The opcode that `value` names, or `MalformedHeader` for a value that
    /// names none.
    pub fn from_u32(value: u32) -> (r: Result<OPCode, DnsError>)
        ensures
            r == match OPCode::spec_from_code(value as int) {
                Some(op) => Ok::<OPCode, DnsError>(op),
                None => Err::<OPCode, DnsError>(malformed_header()),
            },
            r matches Ok(op) ==> op.spec_code() == value,
    {
        if value > 15 {
            return Err(DnsError::new(DnsErrorKind::MalformedHeader));
        }
        match OPCode::from_code(value as u8) {
            Some(op) => Ok(op),
            None => Err(DnsError::new(DnsErrorKind::MalformedHeader)),
        }
    }
}

/// The response code, four bits on the wire.
#[derive(PartialEq, Eq, Structural, Debug, Clone, Copy)]
pub enum ReturnCode {
    NoError,
    FormatError,
    ServFail,
    NameError,
    Refused,
    YXDomain,
    YXRRSet,
    NXRRSet,
    NotAuth,
    NotZone,
}

impl ReturnCode {
    /// The number that stands for this response code on the wire.
    pub open spec fn spec_code(self) -> u8 {
        match self {
            ReturnCode::NoError => 0,
            ReturnCode::FormatError => 1,
            ReturnCode::ServFail => 2,
            ReturnCode::NameError => 3,
            ReturnCode::Refused => 5,
            ReturnCode::YXDomain => 6,
            ReturnCode::YXRRSet => 7,
            ReturnCode::NXRRSet => 8,
            ReturnCode::NotAuth => 9,
            ReturnCode::NotZone => 10,
        }
    }

    /// The response code that a wire number stands for, if any.
    pub open spec fn spec_from_code(value: int) -> Option<ReturnCode> {
        if value == 0 {
            Some(ReturnCode::NoError)
        } else if value == 1 {
            Some(ReturnCode::FormatError)
        } else if value == 2 {
            Some(ReturnCode::ServFail)
        } else if value == 3 {
            Some(ReturnCode::NameError)
        } else if value == 5 {
            Some(ReturnCode::Refused)
        } else if value == 6 {
            Some(ReturnCode::YXDomain)
        } else if value == 7 {
            Some(ReturnCode::YXRRSet)
        } else if value == 8 {
            Some(ReturnCode::NXRRSet)
        } else if value == 9 {
            Some(ReturnCode::NotAuth)
        } else if value == 10 {
            Some(ReturnCode::NotZone)
        } else {
            None
        }
    }

    /// Looks a wire number up; `None` for a number that names no response
    /// code.
    pub fn from_code(value: u8) -> (r: Option<ReturnCode>)
        ensures
            r == ReturnCode::spec_from_code(value as int),
            r matches Some(rc) ==> rc.spec_code() == value,
    {
        match value {
            0 => Some(ReturnCode::NoError),
            1 => Some(ReturnCode::FormatError),
            2 => Some(ReturnCode::ServFail),
            3 => Some(ReturnCode::NameError),
            5 => Some(ReturnCode::Refused),
            6 => Some(ReturnCode::YXDomain),
            7 => Some(ReturnCode::YXRRSet),
            8 => Some(ReturnCode::NXRRSet),
            9 => Some(ReturnCode::NotAuth),
            10 => Some(ReturnCode::NotZone),
            _ => None,
        }
    }

    /// The response code that `value` names, or `MalformedHeader` for a
    /// value that names none.
    pub fn from_u8(value: u8) -> (r: Result<ReturnCode, DnsError>)
        ensures
            r == match ReturnCode::spec_from_code(value as int) {
                Some(rc) => Ok::<ReturnCode, DnsError>(rc),
                None => Err::<ReturnCode, DnsError>(malformed_header()),
            },
            r matches Ok(rc) ==> rc.spec_code() == value,
    {
        match ReturnCode::from_code(value) {
            Some(rc) => Ok(rc),
            None => Err(DnsError::new(DnsErrorKind::MalformedHeader)),
        }
    }
}

/// Whether bit `n` of `input` is set; bit 0 is the least significant.
pub open spec fn spec_bit(input: u8, n: u8) -> bool {
    input & (1u8 << n) != 0
}

/// The four opcode bits of the third header byte.
pub open spec fn spec_opcode_bits(b2: u8) -> u8 {
    (b2 >> 3) & 0x0F
}

/// The four response code bits of the fourth header byte.
pub open spec fn spec_rcode_bits(b3: u8) -> u8 {
    b3 & 0x0F
}

/// The three reserved bits of the fourth header byte.
pub open spec fn spec_z_bits(b3: u8) -> u8 {
    (b3 >> 4) & 0x07
}

/// The error that every read past the end of the buffer gives.
pub open spec fn truncated() -> DnsError {
    DnsError { kind: DnsErrorKind::Truncated }
}

/// The error for an opcode or a response code outside the known values.
pub open spec fn malformed_header() -> DnsError {
    DnsError { kind: DnsErrorKind::MalformedHeader }
}

/// A decoded header.
#[derive(PartialEq, Eq, Structural, Debug, Clone, Copy)]
pub struct DNSHeader {
    pub id: u16,
    pub qr: QR,
    pub opcode: OPCode,
    pub aa: bool,
    pub truncated: bool,
    pub recursion_desired: bool,
    pub recursion_available: bool,
    /// The three reserved bits, kept as they came.
    pub z: u8,
    pub return_code: ReturnCode,
    pub qdcount: u16,
    pub ancount: u16,
    pub nscount: u16,
    pub arcount: u16,
}

impl DNSHeader {
    /// What the first twelve bytes of `b` say, field by field.
    pub open spec fn spec_decode(b: Seq<u8>) -> Result<DNSHeader, DnsError> {
        if b.len() < 12 {
            Err(truncated())
        } else if OPCode::spec_from_code(spec_opcode_bits(b[2]) as int) is None {
            Err(malformed_header())
        } else if ReturnCode::spec_from_code(spec_rcode_bits(b[3]) as int) is None {
            Err(malformed_header())
        } else {
            Ok(
                DNSHeader {
                    id: spec_u16_at(b, 0),
                    qr: if spec_bit(b[2], 7) {
                        QR::RESPONSE
                    } else {
                        QR::QUERY
                    },
                    opcode: OPCode::spec_from_code(spec_opcode_bits(b[2]) as int)->0,
                    aa: spec_bit(b[2], 2),
                    truncated: spec_bit(b[2], 1),
                    recursion_desired: spec_bit(b[2], 0),
                    recursion_available: spec_bit(b[3], 7),
                    z: spec_z_bits(b[3]),
                    return_code: ReturnCode::spec_from_code(spec_rcode_bits(b[3]) as int)->0,
                    qdcount: spec_u16_at(b, 4),
                    ancount: spec_u16_at(b, 6),
                    nscount: spec_u16_at(b, 8),
                    arcount: spec_u16_at(b, 10),
                },
            )
        }
    }

    /// Decodes the header at the start of a datagram.
    ///
    /// Fails with `Truncated` on fewer than twelve bytes, and with
    /// `MalformedHeader` when the opcode or the response code is not a known
    /// value. The opcode is looked at first.
    pub fn decode(dns_request: &[u8]) -> (r: Result<DNSHeader, DnsError>)
        ensures
            r == DNSHeader::spec_decode(dns_request@),
    {
        if dns_request.len() < HEADER_LEN {
            return Err(DnsError::new(DnsErrorKind::Truncated));
        }
        let opcode = match DNSHeader::parse_header_opcode(dns_request) {
            Ok(v) => v,
            Err(e) => {
                return Err(e);
            },
        };
        let return_code = match DNSHeader::parse_header_rc(dns_request) {
            Ok(v) => v,
            Err(e) => {
                return Err(e);
            },
        };
        let id = DNSHeader::parse_header_id(dns_request);
        let qr = DNSHeader::parse_header_qr(dns_request);
        let aa = DNSHeader::parse_header_aa(dns_request);
        let tc = DNSHeader::parse_header_tc(dns_request);
        let rd = DNSHeader::parse_header_rd(dns_request);
        let ra = DNSHeader::parse_header_ra(dns_request);
        let qdcount = DNSHeader::parse_header_qdcount(dns_request);
        let ancount = DNSHeader::parse_header_ancount(dns_request);
        let nscount = DNSHeader::parse_header_nscount(dns_request);
        let arcount = DNSHeader::parse_header_arcount(dns_request);
        match (id, qr, aa, tc, rd, ra, qdcount, ancount, nscount, arcount) {
            (
                Ok(id),
                Ok(qr),
                Ok(aa),
                Ok(tc),
                Ok(rd),
                Ok(ra),
                Ok(qdcount),
                Ok(ancount),
                Ok(nscount),
                Ok(arcount),
            ) => Ok(
                DNSHeader {
                    id,
                    qr,
                    opcode,
                    aa,
                    truncated: tc,
                    recursion_desired: rd,
                    recursion_available: ra,
                    z: (dns_request[3] >> 4) & 0x07,
                    return_code,
                    qdcount,
                    ancount,
                    nscount,
                    arcount,
                },
            ),
            _ => Err(DnsError::new(DnsErrorKind::Truncated)),
        }
    }

    /// The number of additional records, bytes 10 and 11.
    pub fn parse_header_arcount(dns_request: &[u8]) -> (r: Result<u16, DnsError>)
        ensures
            dns_request@.len() >= 12 ==> r == Ok::<u16, DnsError>(spec_u16_at(dns_request@, 10)),
            dns_request@.len() < 12 ==> r == Err::<u16, DnsError>(truncated()),
    {
        read_u16(dns_request, 10)
    }

    /// The number of authority records, bytes 8 and 9.
    pub fn parse_header_nscount(dns_request: &[u8]) -> (r: Result<u16, DnsError>)
        ensures
            dns_request@.len() >= 10 ==> r == Ok::<u16, DnsError>(spec_u16_at(dns_request@, 8)),
            dns_request@.len() < 10 ==> r == Err::<u16, DnsError>(truncated()),
    {
        read_u16(dns_request, 8)
    }

    /// The number of answer records, bytes 6 and 7.
    pub fn parse_header_ancount(dns_request: &[u8]) -> (r: Result<u16, DnsError>)
        ensures
            dns_request@.len() >= 8 ==> r == Ok::<u16, DnsError>(spec_u16_at(dns_request@, 6)),
            dns_request@.len() < 8 ==> r == Err::<u16, DnsError>(truncated()),
    {
        read_u16(dns_request, 6)
    }

    /// The number of questions, bytes 4 and 5.
    pub fn parse_header_qdcount(dns_request: &[u8]) -> (r: Result<u16, DnsError>)
        ensures
            dns_request@.len() >= 6 ==> r == Ok::<u16, DnsError>(spec_u16_at(dns_request@, 4)),
            dns_request@.len() < 6 ==> r == Err::<u16, DnsError>(truncated()),
    {
        read_u16(dns_request, 4)
    }

    /// The transaction identifier, bytes 0 and 1.
    pub fn parse_header_id(dns_request: &[u8]) -> (r: Result<u16, DnsError>)
        ensures
            dns_request@.len() >= 2 ==> r == Ok::<u16, DnsError>(spec_u16_at(dns_request@, 0)),
            dns_request@.len() < 2 ==> r == Err::<u16, DnsError>(truncated()),
    {
        read_u16(dns_request, 0)
    }

    /// Query or response: bit 7 of byte 2.
    pub fn parse_header_qr(dns_request: &[u8]) -> (r: Result<QR, DnsError>)
        ensures
            dns_request@.len() >= 3 ==> r == Ok::<QR, DnsError>(
                if spec_bit(dns_request@[2], 7) {
                    QR::RESPONSE
                } else {
                    QR::QUERY
                },
            ),
            dns_request@.len() < 3 ==> r == Err::<QR, DnsError>(truncated()),
    {
        match DNSHeader::flag_at(dns_request, 2, 7) {
            Ok(true) => Ok(QR::RESPONSE),
            Ok(false) => Ok(QR::QUERY),
            Err(e) => Err(e),
        }
    }

    /// The opcode: bits 6 to 3 of byte 2. `MalformedHeader` when the four
    /// bits name no opcode.
    pub fn parse_header_opcode(dns_request: &[u8]) -> (r: Result<OPCode, DnsError>)
        ensures
            dns_request@.len() < 3 ==> r == Err::<OPCode, DnsError>(truncated()),
            dns_request@.len() >= 3 ==> r == match OPCode::spec_from_code(
                spec_opcode_bits(dns_request@[2]) as int,
            ) {
                Some(op) => Ok::<OPCode, DnsError>(op),
                None => Err::<OPCode, DnsError>(malformed_header()),
            },
    {
        if dns_request.len() < 3 {
            return Err(DnsError::new(DnsErrorKind::Truncated));
        }
        let opcode_value: u8 = (dns_request[2] >> 3) & 0x0F;
        OPCode::from_u32(opcode_value as u32)
    }

    /// The authoritative-answer flag: bit 2 of byte 2.
    pub fn parse_header_aa(dns_request: &[u8]) -> (r: Result<bool, DnsError>)
        ensures
            dns_request@.len() >= 3 ==> r == Ok::<bool, DnsError>(spec_bit(dns_request@[2], 2)),
            dns_request@.len() < 3 ==> r == Err::<bool, DnsError>(truncated()),
    {
        DNSHeader::flag_at(dns_request, 2, 2)
    }

    /// The truncation flag: bit 1 of byte 2.
    pub fn parse_header_tc(dns_request: &[u8]) -> (r: Result<bool, DnsError>)
        ensures
            dns_request@.len() >= 3 ==> r == Ok::<bool, DnsError>(spec_bit(dns_request@[2], 1)),
            dns_request@.len() < 3 ==> r == Err::<bool, DnsError>(truncated()),
    {
        DNSHeader::flag_at(dns_request, 2, 1)
    }

    /// The recursion-desired flag: bit 0 of byte 2.
    pub fn parse_header_rd(dns_request: &[u8]) -> (r: Result<bool, DnsError>)
        ensures
            dns_request@.len() >= 3 ==> r == Ok::<bool, DnsError>(spec_bit(dns_request@[2], 0)),
            dns_request@.len() < 3 ==> r == Err::<bool, DnsError>(truncated()),
    {
        DNSHeader::flag_at(dns_request, 2, 0)
    }

    /// The recursion-available flag: bit 7 of byte 3.
    pub fn parse_header_ra(dns_request: &[u8]) -> (r: Result<bool, DnsError>)
        ensures
            dns_request@.len() >= 4 ==> r == Ok::<bool, DnsError>(spec_bit(dns_request@[3], 7)),
            dns_request@.len() < 4 ==> r == Err::<bool, DnsError>(truncated()),
    {
        DNSHeader::flag_at(dns_request, 3, 7)
    }

    /// The response code: bits 3 to 0 of byte 3. `MalformedHeader` when the
    /// four bits name no response code.
    pub fn parse_header_rc(dns_request: &[u8]) -> (r: Result<ReturnCode, DnsError>)
        ensures
            dns_request@.len() < 4 ==> r == Err::<ReturnCode, DnsError>(truncated()),
            dns_request@.len() >= 4 ==> r == match ReturnCode::spec_from_code(
                spec_rcode_bits(dns_request@[3]) as int,
            ) {
                Some(rc) => Ok::<ReturnCode, DnsError>(rc),
                None => Err::<ReturnCode, DnsError>(malformed_header()),
            },
    {
        if dns_request.len() < 4 {
            return Err(DnsError::new(DnsErrorKind::Truncated));
        }
        let rc: u8 = dns_request[3] & 0x0F;
        ReturnCode::from_u8(rc)
    }

    /// Bit `n` of `input`, for `n` below 8; an error for any other `n`.
    pub fn get_bit_at(input: u8, n: u8) -> (r: Result<bool, ()>)
        ensures
            n < 8 ==> r == Ok::<bool, ()>(spec_bit(input, n)),
            n >= 8 ==> r is Err,
    {
        if n < 8 {
            Ok(input & (1u8 << n) != 0)
        } else {
            Err(())
        }
    }

    /// Bit `n` of the byte at `at`, or `Truncated` when the buffer ends
    /// before that byte.
    fn flag_at(dns_request: &[u8], at: usize, n: u8) -> (r: Result<bool, DnsError>)
        requires
            n < 8,
        ensures
            at < dns_request@.len() ==> r == Ok::<bool, DnsError>(
                spec_bit(dns_request@[at as int], n),
            ),
            at >= dns_request@.len() ==> r == Err::<bool, DnsError>(truncated()),
    {
        if at >= dns_request.len() {
            return Err(DnsError::new(DnsErrorKind::Truncated));
        }
        match DNSHeader::get_bit_at(dns_request[at], n) {
            Ok(bit) => Ok(bit),
            Err(_) => Err(DnsError::new(DnsErrorKind::Truncated)),
        }
    }
}

} // verus!
