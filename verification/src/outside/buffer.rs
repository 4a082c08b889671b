//! Byte buffers of the `bytes` crate, in which messages to the viewer are put together.

use crate::wire;
use bytes::BufMut;
use vstd::prelude::*;

verus! {

/// `bytes::BytesMut`, a buffer that bytes are appended to.
#[verifier::external_type_specification]
#[verifier::external_body]
pub struct ExBytesMut(bytes::BytesMut);

/// `bytes::Bytes`, a finished buffer.
#[verifier::external_type_specification]
#[verifier::external_body]
pub struct ExBytes(bytes::Bytes);

/// The bytes that a `BytesMut` holds.
pub uninterp spec fn pending(buf: bytes::BytesMut) -> Seq<u8>;

/// The bytes that a `Bytes` holds.
pub uninterp spec fn contents(buf: bytes::Bytes) -> Seq<u8>;

/// `BytesMut::with_capacity`: the new buffer is empty. The call panics where the capacity is more
/// than an allocation can have.
#[verifier::external_body]
pub(crate) fn with_capacity(capacity: usize) -> (buf: bytes::BytesMut)
    requires
        capacity <= isize::MAX,
    ensures
        pending(buf) == Seq::<u8>::empty(),
{
    bytes::BytesMut::with_capacity(capacity)
}

/// `BufMut::put_u8` of `BytesMut`: appends the byte. The call panics where the buffer would grow
/// beyond what an allocation can have.
#[verifier::external_body]
pub(crate) fn put_u8(buf: &mut bytes::BytesMut, v: u8)
    requires
        pending(*old(buf)).len() + 1 <= isize::MAX,
    ensures
        pending(*final(buf)) == pending(*old(buf)).push(v),
{
    buf.put_u8(v)
}

/// `BufMut::put_u32` of `BytesMut`: appends the four bytes of the number, most significant first.
/// The call panics where the buffer would grow beyond what an allocation can have.
#[verifier::external_body]
pub(crate) fn put_u32(buf: &mut bytes::BytesMut, v: u32)
    requires
        pending(*old(buf)).len() + 4 <= isize::MAX,
    ensures
        pending(*final(buf)) == pending(*old(buf)) + wire::be32(v as int),
{
    buf.put_u32(v)
}

/// `BytesMut::extend_from_slice`: appends the bytes. The call panics where the buffer would grow
/// beyond what an allocation can have.
#[verifier::external_body]
pub(crate) fn extend_from_slice(buf: &mut bytes::BytesMut, data: &[u8])
    requires
        pending(*old(buf)).len() + data@.len() <= isize::MAX,
    ensures
        pending(*final(buf)) == pending(*old(buf)) + data@,
{
    buf.extend_from_slice(data)
}

/// `BytesMut::freeze`: the finished buffer holds the bytes that were appended.
#[verifier::external_body]
pub(crate) fn freeze(buf: bytes::BytesMut) -> (b: bytes::Bytes)
    ensures
        contents(b) == pending(buf),
{
    buf.freeze()
}

/// `Bytes::from` of a vector: the finished buffer holds the vector's bytes.
#[verifier::external_body]
pub(crate) fn from_vec(data: Vec<u8>) -> (b: bytes::Bytes)
    ensures
        contents(b) == data@,
{
    bytes::Bytes::from(data)
}

} // verus!
