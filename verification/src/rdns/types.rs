//! The class and type of a query.

use vstd::prelude::*;

verus! {

/// The class of a query, a 16-bit field on the wire.
#[derive(PartialEq, Eq, Structural, Debug, Clone, Copy)]
pub enum QClass {
    /// Internet.
    IN,
    /// CSNET.
    CS,
    /// CHAOS.
    CH,
    /// Hesiod.
    HS,
    /// Any class.
    ANY,
}

impl QClass {
    /// The number that stands for this class on the wire.
    pub open spec fn spec_code(self) -> u16 {
        match self {
            QClass::IN => 1,
            QClass::CS => 2,
            QClass::CH => 3,
            QClass::HS => 4,
            QClass::ANY => 255,
        }
    }

    /// The class that a wire number stands for, if any.
    pub open spec fn spec_from_code(value: u16) -> Option<QClass> {
        if value == 1 {
            Some(QClass::IN)
        } else if value == 2 {
            Some(QClass::CS)
        } else if value == 3 {
            Some(QClass::CH)
        } else if value == 4 {
            Some(QClass::HS)
        } else if value == 255 {
            Some(QClass::ANY)
        } else {
            None
        }
    }

    /// The number that stands for this class on the wire.
    #[verifier::when_used_as_spec(spec_code)]
    pub fn code(self) -> (c: u16)
        ensures
            c == self.spec_code(),
            QClass::spec_from_code(c) == Some(self),
    {
        match self {
            QClass::IN => 1,
            QClass::CS => 2,
            QClass::CH => 3,
            QClass::HS => 4,
            QClass::ANY => 255,
        }
    }

    /// Looks a wire number up; `None` for a number that names no class.
    pub fn from_code(value: u16) -> (r: Option<QClass>)
        ensures
            r == QClass::spec_from_code(value),
            r matches Some(c) ==> c.spec_code() == value,
    {
        match value {
            1 => Some(QClass::IN),
            2 => Some(QClass::CS),
            3 => Some(QClass::CH),
            4 => Some(QClass::HS),
            255 => Some(QClass::ANY),
            _ => None,
        }
    }

    /// The class that `value` names. The value has to name one.
    pub fn from_u8(value: u8) -> (r: QClass)
        requires
            QClass::spec_from_code(value as u16) is Some,
        ensures
            Some(r) == QClass::spec_from_code(value as u16),
            r.spec_code() == value,
    {
        match QClass::from_code(value as u16) {
            Some(c) => c,
            None => QClass::IN,
        }
    }
}

/// The type of a query, a 16-bit field on the wire.
#[derive(PartialEq, Eq, Structural, Debug, Clone, Copy)]
pub enum QueryType {
    /// A host address.
    A,
    /// A name server.
    NS,
    /// A canonical name.
    CNAME,
    /// A pointer record.
    PTR,
    /// Host information.
    HINFO,
    /// A mail exchange.
    MX,
    /// A zone transfer.
    AXFR,
    /// All records.
    ANY,
}

impl QueryType {
    /// The number that stands for this type on the wire.
    pub open spec fn spec_code(self) -> u16 {
        match self {
            QueryType::A => 1,
            QueryType::NS => 2,
            QueryType::CNAME => 5,
            QueryType::PTR => 12,
            QueryType::HINFO => 13,
            QueryType::MX => 15,
            QueryType::AXFR => 252,
            QueryType::ANY => 255,
        }
    }

    /// The type that a wire number stands for, if any.
    pub open spec fn spec_from_code(value: u16) -> Option<QueryType> {
        if value == 1 {
            Some(QueryType::A)
        } else if value == 2 {
            Some(QueryType::NS)
        } else if value == 5 {
            Some(QueryType::CNAME)
        } else if value == 12 {
            Some(QueryType::PTR)
        } else if value == 13 {
            Some(QueryType::HINFO)
        } else if value == 15 {
            Some(QueryType::MX)
        } else if value == 252 {
            Some(QueryType::AXFR)
        } else if value == 255 {
            Some(QueryType::ANY)
        } else {
            None
        }
    }

    /// The number that stands for this type on the wire.
    #[verifier::when_used_as_spec(spec_code)]
    pub fn code(self) -> (c: u16)
        ensures
            c == self.spec_code(),
            QueryType::spec_from_code(c) == Some(self),
    {
        match self {
            QueryType::A => 1,
            QueryType::NS => 2,
            QueryType::CNAME => 5,
            QueryType::PTR => 12,
            QueryType::HINFO => 13,
            QueryType::MX => 15,
            QueryType::AXFR => 252,
            QueryType::ANY => 255,
        }
    }

    /// Looks a wire number up; `None` for a number that names no type.
    pub fn from_code(value: u16) -> (r: Option<QueryType>)
        ensures
            r == QueryType::spec_from_code(value),
            r matches Some(t) ==> t.spec_code() == value,
    {
        match value {
            1 => Some(QueryType::A),
            2 => Some(QueryType::NS),
            5 => Some(QueryType::CNAME),
            12 => Some(QueryType::PTR),
            13 => Some(QueryType::HINFO),
            15 => Some(QueryType::MX),
            252 => Some(QueryType::AXFR),
            255 => Some(QueryType::ANY),
            _ => None,
        }
    }

    /// The type that `val` names. The value has to name one.
    pub fn from_u8(val: u8) -> (r: QueryType)
        requires
            QueryType::spec_from_code(val as u16) is Some,
        ensures
            Some(r) == QueryType::spec_from_code(val as u16),
            r.spec_code() == val,
    {
        match QueryType::from_code(val as u16) {
            Some(t) => t,
            None => QueryType::A,
        }
    }
}

} // verus!
