//! Big-endian integers and null-terminated strings as they appear on the wire.

use byteorder::{ByteOrder, NetworkEndian};
use vstd::prelude::*;

verus! {

/// The value of the two big-endian bytes at the front of `b`.
pub open spec fn be_u16(b: Seq<u8>) -> int {
    b[0] as int * 256 + b[1] as int
}

/// The value of the four big-endian bytes at the front of `b`.
pub open spec fn be_u32(b: Seq<u8>) -> int {
    b[0] as int * 16777216 + b[1] as int * 65536 + b[2] as int * 256 + b[3] as int
}

/// The two big-endian bytes of `n`.
pub open spec fn u16_bytes(n: u16) -> Seq<u8> {
    seq![(n / 256) as u8, (n % 256) as u8]
}

/// The four big-endian bytes of `n`.
pub open spec fn u32_bytes(n: u32) -> Seq<u8> {
    seq![(n / 16777216) as u8, (n / 65536 % 256) as u8, (n / 256 % 256) as u8, (n % 256) as u8]
}

/// The two big-endian bytes of `n` in two's complement.
pub open spec fn i16_bytes(n: i16) -> Seq<u8> {
    u16_bytes(n as u16)
}

/// The four big-endian bytes of `n` in two's complement.
pub open spec fn i32_bytes(n: i32) -> Seq<u8> {
    u32_bytes(n as u32)
}

/// `s` followed by the null byte that ends a string on the wire.
pub open spec fn cstr_bytes(s: Seq<u8>) -> Seq<u8> {
    s.push(0u8)
}

/// Relies on byteorder's `NetworkEndian::read_u16`: the first two bytes of
/// `b` read as a big-endian integer.
#[verifier::external_body]
pub(crate) fn read_u16(b: &[u8]) -> (r: u16)
    requires
        b@.len() >= 2,
    ensures
        r as int == be_u16(b@),
{
    NetworkEndian::read_u16(b)
}

/// Relies on byteorder's `NetworkEndian::read_u32`: the first four bytes of
/// `b` read as a big-endian integer.
#[verifier::external_body]
pub(crate) fn read_u32(b: &[u8]) -> (r: u32)
    requires
        b@.len() >= 4,
    ensures
        r as int == be_u32(b@),
{
    NetworkEndian::read_u32(b)
}

/// Relies on byteorder's `NetworkEndian::write_u32`: the four bytes of `buf`
/// from `at` on are overwritten with the big-endian bytes of `n`.
#[verifier::external_body]
pub(crate) fn write_u32_at(buf: &mut Vec<u8>, at: usize, n: u32)
    requires
        at + 4 <= old(buf)@.len(),
    ensures
        final(buf)@ == old(buf)@.subrange(0, at as int) + u32_bytes(n) + old(buf)@.subrange(
            at + 4,
            old(buf)@.len() as int,
        ),
{
    NetworkEndian::write_u32(&mut buf[at..at + 4], n)
}

/// Appends the big-endian bytes of `n`.
pub fn put_u16(buf: &mut Vec<u8>, n: u16)
    ensures
        final(buf)@ == old(buf)@ + u16_bytes(n),
{
    buf.push((n / 256) as u8);
    buf.push((n % 256) as u8);
    assert(final(buf)@ =~= old(buf)@ + u16_bytes(n));
}

/// Appends the big-endian bytes of `n`.
pub fn put_u32(buf: &mut Vec<u8>, n: u32)
    ensures
        final(buf)@ == old(buf)@ + u32_bytes(n),
{
    buf.push((n / 16777216) as u8);
    buf.push((n / 65536 % 256) as u8);
    buf.push((n / 256 % 256) as u8);
    buf.push((n % 256) as u8);
    assert(final(buf)@ =~= old(buf)@ + u32_bytes(n));
}

/// Appends the big-endian two's complement bytes of `n`.
pub fn put_i16(buf: &mut Vec<u8>, n: i16)
    ensures
        final(buf)@ == old(buf)@ + i16_bytes(n),
{
    put_u16(buf, n as u16);
}

/// Appends the big-endian two's complement bytes of `n`.
pub fn put_i32(buf: &mut Vec<u8>, n: i32)
    ensures
        final(buf)@ == old(buf)@ + i32_bytes(n),
{
    put_u32(buf, n as u32);
}

/// Appends the bytes of `s`.
pub fn put_bytes(buf: &mut Vec<u8>, s: &[u8])
    ensures
        final(buf)@ == old(buf)@ + s@,
{
    let mut i: usize = 0;
    while i < s.len()
        invariant
            i <= s@.len(),
            buf@ == old(buf)@ + s@.subrange(0, i as int),
        decreases s@.len() - i,
    {
        buf.push(s[i]);
        i = i + 1;
        assert(buf@ =~= old(buf)@ + s@.subrange(0, i as int));
    }
    assert(s@.subrange(0, s@.len() as int) =~= s@);
}

/// Appends `s` and the null byte that ends it.
pub fn put_cstr(buf: &mut Vec<u8>, s: &[u8])
    ensures
        final(buf)@ == old(buf)@ + cstr_bytes(s@),
{
    put_bytes(buf, s);
    buf.push(0u8);
    assert(final(buf)@ =~= old(buf)@ + cstr_bytes(s@));
}

} // verus!
