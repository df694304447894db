//! The transport's byte buffer, `bytes::BytesMut`, seen through its contents.
use vstd::prelude::*;

use bytes::BytesMut;

verus! {

#[verifier::external_type_specification]
#[verifier::external_body]
pub struct ExBytesMut(bytes::BytesMut);

/// The bytes a buffer holds, in order.
pub uninterp spec fn buffer_bytes(b: BytesMut) -> Seq<u8>;

/// Relies on bytes::BytesMut::new: an empty buffer.
#[verifier::external_body]
pub(crate) fn buf_new() -> (r: BytesMut)
    ensures
        buffer_bytes(r) == Seq::<u8>::empty(),
{
    BytesMut::new()
}

/// Relies on bytes::BytesMut::len: the number of bytes held.
#[verifier::external_body]
pub(crate) fn buf_len(b: &BytesMut) -> (r: usize)
    ensures
        r == buffer_bytes(*b).len(),
{
    b.len()
}

/// Relies on BytesMut's `Deref<Target = [u8]>`: the bytes held.
#[verifier::external_body]
pub(crate) fn buf_slice(b: &BytesMut) -> (r: &[u8])
    ensures
        r@ == buffer_bytes(*b),
{
    &b[..]
}

/// Relies on bytes::BytesMut::split_off: keeps `[0, at)` and hands back
/// `[at, len)`; it panics only past the capacity, which is at least `len`.
#[verifier::external_body]
pub(crate) fn buf_split_off(b: &mut BytesMut, at: usize) -> (r: BytesMut)
    requires
        at <= buffer_bytes(*old(b)).len(),
    ensures
        buffer_bytes(*final(b)) == buffer_bytes(*old(b)).subrange(0, at as int),
        buffer_bytes(r) == buffer_bytes(*old(b)).subrange(at as int, buffer_bytes(*old(b)).len() as int),
{
    b.split_off(at)
}

/// Relies on bytes::BytesMut::extend_from_slice: appends, growing as needed.
#[verifier::external_body]
pub(crate) fn buf_extend(b: &mut BytesMut, s: &[u8])
    ensures
        buffer_bytes(*final(b)) == buffer_bytes(*old(b)) + s@,
{
    b.extend_from_slice(s)
}

} // verus!
