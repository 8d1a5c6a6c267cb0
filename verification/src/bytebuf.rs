//! Contracts over the byte buffer of the `bytes` crate, in which serialized
//! messages are handed out.

use vstd::prelude::*;
use crate::util::{u16_be, u32_be};

verus! {

#[verifier::external_type_specification]
#[verifier::external_body]
pub struct ExBytesMut(bytes::BytesMut);

/// The bytes held by a `BytesMut` buffer.
pub uninterp spec fn bytes_mut_view(b: bytes::BytesMut) -> Seq<u8>;

/// Relies on bytes::BytesMut::with_capacity: the new buffer holds no bytes.
#[verifier::external_body]
pub(crate) fn bm_with_capacity(capacity: usize) -> (r: bytes::BytesMut)
    ensures
        bytes_mut_view(r) == Seq::<u8>::empty(),
{
    bytes::BytesMut::with_capacity(capacity)
}

/// Relies on bytes::BufMut::put_u16 for BytesMut: appends the two big-endian
/// bytes of `v`.
#[verifier::external_body]
pub(crate) fn bm_put_u16(b: &mut bytes::BytesMut, v: u16)
    requires
        bytes_mut_view(*old(b)).len() + 2 <= usize::MAX,
    ensures
        bytes_mut_view(*final(b)) == bytes_mut_view(*old(b)) + u16_be(v),
{
    bytes::BufMut::put_u16(b, v)
}

/// Relies on bytes::BufMut::put_u32 for BytesMut: appends the four big-endian
/// bytes of `v`.
#[verifier::external_body]
pub(crate) fn bm_put_u32(b: &mut bytes::BytesMut, v: u32)
    requires
        bytes_mut_view(*old(b)).len() + 4 <= usize::MAX,
    ensures
        bytes_mut_view(*final(b)) == bytes_mut_view(*old(b)) + u32_be(v),
{
    bytes::BufMut::put_u32(b, v)
}

/// Relies on bytes::BufMut::put_slice for BytesMut: appends the bytes of `s`.
#[verifier::external_body]
pub(crate) fn bm_put_slice(b: &mut bytes::BytesMut, s: &[u8])
    requires
        bytes_mut_view(*old(b)).len() + s@.len() <= usize::MAX,
    ensures
        bytes_mut_view(*final(b)) == bytes_mut_view(*old(b)) + s@,
{
    bytes::BufMut::put_slice(b, s)
}

/// Relies on the Deref of BytesMut to a byte slice: the buffer's bytes,
/// copied out.
#[verifier::external_body]
pub(crate) fn bm_to_vec(b: &bytes::BytesMut) -> (r: Vec<u8>)
    ensures
        r@ == bytes_mut_view(*b),
{
    let s: &[u8] = b;
    s.to_vec()
}

} // verus!
