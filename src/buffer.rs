//! The transport's byte buffer, as the framing layer sees it.

use bytes::BytesMut;
use vstd::prelude::*;

verus! {

#[verifier::external_type_specification]
#[verifier::external_body]
pub struct ExBytesMut(BytesMut);

/// The bytes that a transport buffer holds, front first.
pub uninterp spec fn buffered(b: BytesMut) -> Seq<u8>;

/// Relies on `BytesMut::len`: the number of bytes held.
#[verifier::external_body]
pub(crate) fn buffer_len(b: &BytesMut) -> (r: usize)
    ensures
        r == buffered(*b).len(),
{
    b.len()
}

/// Relies on `BytesMut`'s `Deref` to a byte slice: a copy of the bytes held.
#[verifier::external_body]
pub(crate) fn buffer_bytes(b: &BytesMut) -> (r: Vec<u8>)
    ensures
        r@ == buffered(*b),
{
    b.to_vec()
}

/// Relies on `BytesMut::advance`: the first `n` bytes are dropped. It
/// panics where fewer than `n` are held.
#[verifier::external_body]
pub(crate) fn advance_buffer(b: &mut BytesMut, n: usize)
    requires
        n <= buffered(*old(b)).len(),
    ensures
        buffered(*final(b)) == buffered(*old(b)).skip(n as int),
{
    b.advance(n)
}

/// Relies on `BytesMut::extend_from_slice`: `s` is appended at the end. It
/// panics where the new length would overflow.
#[verifier::external_body]
pub(crate) fn append_buffer(b: &mut BytesMut, s: &[u8])
    requires
        buffered(*old(b)).len() + s@.len() <= usize::MAX,
    ensures
        buffered(*final(b)) == buffered(*old(b)) + s@,
{
    b.extend_from_slice(s)
}

} // verus!
