//! Shared byte buffers of the `bytes` crate.

use bytes::{Buf, Bytes, BytesMut};
use vstd::prelude::*;

verus! {

/// `bytes::Bytes`, a shared run of bytes that never changes.
#[verifier::external_type_specification]
#[verifier::external_body]
pub struct ExBytes(bytes::Bytes);

/// The bytes that a shared buffer holds.
pub uninterp spec fn octets(bytes: Bytes) -> Seq<u8>;

/// `Bytes::from` on a vector: the buffer holds the bytes of the vector.
#[verifier::external_body]
pub(crate) fn from_vec(bytes: Vec<u8>) -> (result: Bytes)
    ensures
        octets(result) == bytes@,
{
    Bytes::from(bytes)
}

/// `<Bytes as AsRef<[u8]>>::as_ref`: a view of the bytes that the buffer holds.
#[verifier::external_body]
pub(crate) fn as_slice(bytes: &Bytes) -> (result: &[u8])
    ensures
        result@ == octets(*bytes),
{
    bytes.as_ref()
}

/// `Bytes::slice`: a buffer that shares the bytes from `start` up to `end`. The
/// call panics on a range that is reversed or reaches past the end.
#[verifier::external_body]
pub(crate) fn slice(bytes: &Bytes, start: usize, end: usize) -> (result: Bytes)
    requires
        start <= end <= octets(*bytes).len(),
    ensures
        octets(result) == octets(*bytes).subrange(start as int, end as int),
{
    bytes.slice(start..end)
}

/// `<Bytes as Clone>::clone`: another handle on the same bytes.
#[verifier::external_body]
pub(crate) fn share(bytes: &Bytes) -> (result: Bytes)
    ensures
        octets(result) == octets(*bytes),
{
    bytes.clone()
}

/// `Bytes::copy_from_slice`: a buffer with bytes of its own.
#[verifier::external_body]
pub(crate) fn copy(bytes: &[u8]) -> (result: Bytes)
    ensures
        octets(result) == bytes@,
{
    Bytes::copy_from_slice(bytes)
}

/// `bytes::BytesMut`, a run of bytes that grows at its end and can be split.
#[verifier::external_type_specification]
#[verifier::external_body]
pub struct ExBytesMut(bytes::BytesMut);

/// The bytes that a growing buffer holds.
pub uninterp spec fn held(bytes: BytesMut) -> Seq<u8>;

/// `BytesMut::with_capacity`: a buffer without bytes. The call panics on a
/// capacity that no allocation can have.
#[verifier::external_body]
pub(crate) fn with_capacity(capacity: usize) -> (result: BytesMut)
    requires
        capacity <= isize::MAX,
    ensures
        held(result) == Seq::<u8>::empty(),
{
    BytesMut::with_capacity(capacity)
}

/// `BytesMut::new`: a buffer without bytes.
#[verifier::external_body]
pub(crate) fn none() -> (result: BytesMut)
    ensures
        held(result) == Seq::<u8>::empty(),
{
    BytesMut::new()
}

/// `<BytesMut as From<&[u8]>>::from`: a buffer with a copy of the bytes.
#[verifier::external_body]
pub(crate) fn growing(bytes: &[u8]) -> (result: BytesMut)
    ensures
        held(result) == bytes@,
{
    BytesMut::from(bytes)
}

/// `<BytesMut as AsRef<[u8]>>::as_ref`: a view of the bytes that the buffer
/// holds.
#[verifier::external_body]
pub(crate) fn held_slice(bytes: &BytesMut) -> (result: &[u8])
    ensures
        result@ == held(*bytes),
{
    bytes.as_ref()
}

/// `<BytesMut as Buf>::advance`: the buffer without its first bytes. The call
/// panics where it holds fewer.
#[verifier::external_body]
pub(crate) fn advance(bytes: &mut BytesMut, count: usize)
    requires
        count <= held(*old(bytes)).len(),
    ensures
        held(*final(bytes)) == held(*old(bytes)).subrange(
            count as int,
            held(*old(bytes)).len() as int,
        ),
{
    bytes.advance(count)
}

/// `BytesMut::split_to`: a buffer with the first bytes, which the other one
/// gives up. The call panics where there are fewer.
#[verifier::external_body]
pub(crate) fn split_to(bytes: &mut BytesMut, at: usize) -> (result: BytesMut)
    requires
        at <= held(*old(bytes)).len(),
    ensures
        held(result) == held(*old(bytes)).subrange(0, at as int),
        held(*final(bytes)) == held(*old(bytes)).subrange(
            at as int,
            held(*old(bytes)).len() as int,
        ),
{
    bytes.split_to(at)
}

/// `BytesMut::freeze`: the same bytes in a buffer that never changes.
#[verifier::external_body]
pub(crate) fn freeze(bytes: BytesMut) -> (result: Bytes)
    ensures
        octets(result) == held(bytes),
{
    bytes.freeze()
}

/// `BytesMut::capacity`: how many bytes the buffer can hold without another
/// allocation, which is up to the allocator.
#[verifier::external_body]
pub(crate) fn capacity(bytes: &BytesMut) -> (result: usize)
    ensures
        result >= held(*bytes).len(),
{
    bytes.capacity()
}

} // verus!
