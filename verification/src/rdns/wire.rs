//! Big-endian integers on the wire.

use vstd::prelude::*;
use crate::rdns::error::{DnsError, DnsErrorKind};

verus! {

/// The 16-bit number whose most significant byte is `hi`.
pub open spec fn be16(hi: u8, lo: u8) -> u16 {
    ((hi as u16) << 8) | (lo as u16)
}

/// The 16-bit big-endian number that starts at `at`.
pub open spec fn spec_u16_at(bytes: Seq<u8>, at: int) -> u16 {
    be16(bytes[at], bytes[at + 1])
}

/// The two bytes of `v`, most significant first.
pub open spec fn be16_bytes(v: u16) -> Seq<u8> {
    seq![(v >> 8) as u8, (v & 0xff) as u8]
}

/// The four bytes of `v`, most significant first.
pub open spec fn be32_bytes(v: u32) -> Seq<u8> {
    seq![
        (v >> 24) as u8,
        ((v >> 16) & 0xff) as u8,
        ((v >> 8) & 0xff) as u8,
        (v & 0xff) as u8,
    ]
}

/// Reading back the two bytes of a number gives the number.
pub proof fn lemma_be16_round_trip(v: u16)
    ensures
        be16_bytes(v).len() == 2,
        spec_u16_at(be16_bytes(v), 0) == v,
{
    assert((((v >> 8) as u8) as u16) << 8 | (((v & 0xff) as u8) as u16) == v) by (bit_vector);
}

/// Reads the 16-bit big-endian number at `at`, or reports that the buffer
/// ends before it does.
pub fn read_u16(bytes: &[u8], at: usize) -> (r: Result<u16, DnsError>)
    ensures
        at + 2 <= bytes@.len() ==> r == Ok::<u16, DnsError>(spec_u16_at(bytes@, at as int)),
        at + 2 > bytes@.len() ==> r == Err::<u16, DnsError>(
            DnsError { kind: DnsErrorKind::Truncated },
        ),
{
    if at >= bytes.len() || bytes.len() - at < 2 {
        Err(DnsError::new(DnsErrorKind::Truncated))
    } else {
        Ok(((bytes[at] as u16) << 8) | (bytes[at + 1] as u16))
    }
}

/// Appends a copy of `src`.
pub fn append_bytes(out: &mut Vec<u8>, src: &[u8])
    ensures
        final(out)@ == old(out)@ + src@,
{
    let mut i: usize = 0;
    while i < src.len()
        invariant
            i <= src@.len(),
            out@ == old(out)@ + src@.subrange(0, i as int),
        decreases src@.len() - i,
    {
        out.push(src[i]);
        assert(out@ =~= old(out)@ + src@.subrange(0, i + 1));
        i = i + 1;
    }
    assert(src@.subrange(0, i as int) =~= src@);
}

/// Appends the two bytes of `v`, most significant first.
pub fn push_u16(out: &mut Vec<u8>, v: u16)
    ensures
        final(out)@ == old(out)@ + be16_bytes(v),
{
    assert((v >> 8) <= 0xff) by (bit_vector);
    assert((v & 0xff) <= 0xff) by (bit_vector);
    out.push((v >> 8) as u8);
    out.push((v & 0xff) as u8);
}

/// Appends the four bytes of `v`, most significant first.
pub fn push_u32(out: &mut Vec<u8>, v: u32)
    ensures
        final(out)@ == old(out)@ + be32_bytes(v),
{
    assert((v >> 24) <= 0xff) by (bit_vector);
    assert(((v >> 16) & 0xff) <= 0xff) by (bit_vector);
    assert(((v >> 8) & 0xff) <= 0xff) by (bit_vector);
    assert((v & 0xff) <= 0xff) by (bit_vector);
    out.push((v >> 24) as u8);
    out.push(((v >> 16) & 0xff) as u8);
    out.push(((v >> 8) & 0xff) as u8);
    out.push((v & 0xff) as u8);
}

} // verus!
