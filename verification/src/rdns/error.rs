//! Errors reported by the decoder.

use vstd::prelude::*;

verus! {

/// The reason a datagram or a name was rejected.
#[derive(Debug, Clone, Copy, PartialEq, Eq, Structural)]
pub enum DnsErrorKind {
    /// The buffer ends before the field that is being read.
    Truncated,
    /// The opcode or the response code is not one of the known values.
    MalformedHeader,
    /// A label length byte lies in the reserved range `0x40..=0xBF`,
    /// or a label that is to be encoded is empty or longer than 63 bytes.
    MalformedLabel,
    /// A label length byte has its two top bits set: a compression pointer.
    UnsupportedCompression,
    /// The encoded name is longer than 255 bytes.
    NameTooLong,
    /// The bytes of a label are not UTF-8 text.
    NonUtf8Label,
    /// The query type is not one of the known values.
    UnknownQueryType,
    /// The query class is not one of the known values.
    UnknownClass,
}

/// An error of the decoder, carrying its kind.
#[derive(Debug, Clone, Copy, PartialEq, Eq, Structural)]
pub struct DnsError {
    pub kind: DnsErrorKind,
}

/// The text that describes an error of the given kind.
pub open spec fn spec_message(kind: DnsErrorKind) -> Seq<char> {
    match kind {
        DnsErrorKind::Truncated => "the buffer ends before the field"@,
        DnsErrorKind::MalformedHeader => "unknown opcode or response code"@,
        DnsErrorKind::MalformedLabel => "label length out of range"@,
        DnsErrorKind::UnsupportedCompression => "compressed names are not supported"@,
        DnsErrorKind::NameTooLong => "name longer than 255 bytes"@,
        DnsErrorKind::NonUtf8Label => "label is not UTF-8 text"@,
        DnsErrorKind::UnknownQueryType => "unknown query type"@,
        DnsErrorKind::UnknownClass => "unknown query class"@,
    }
}

impl DnsError {
    /// The text that describes this error.
    pub fn message(&self) -> (text: String)
        ensures
            text@ == spec_message(self.kind),
    {
        match self.kind {
            DnsErrorKind::Truncated => "the buffer ends before the field".to_owned(),
            DnsErrorKind::MalformedHeader => "unknown opcode or response code".to_owned(),
            DnsErrorKind::MalformedLabel => "label length out of range".to_owned(),
            DnsErrorKind::UnsupportedCompression => "compressed names are not supported".to_owned(),
            DnsErrorKind::NameTooLong => "name longer than 255 bytes".to_owned(),
            DnsErrorKind::NonUtf8Label => "label is not UTF-8 text".to_owned(),
            DnsErrorKind::UnknownQueryType => "unknown query type".to_owned(),
            DnsErrorKind::UnknownClass => "unknown query class".to_owned(),
        }
    }

    /// Builds the error of the given kind.
    pub fn new(kind: DnsErrorKind) -> (e: DnsError)
        ensures
            e.kind == kind,
    {
        DnsError { kind }
    }
}

} // verus!
