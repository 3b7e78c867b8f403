//! The byte buffers that bodies travel in.

use bytes::{Buf, Bytes, BytesMut};
use std::ops::DerefMut;
use vstd::prelude::*;

verus! {

/// `bytes::Bytes`
#[verifier::external_type_specification]
#[verifier::external_body]
pub struct ExBytes(Bytes);

/// `bytes::BytesMut`
#[verifier::external_type_specification]
#[verifier::external_body]
pub struct ExBytesMut(BytesMut);

/// The bytes that `buffer` holds.
pub uninterp spec fn bytes_content(buffer: Bytes) -> Seq<u8>;

/// The bytes that `buffer` holds.
pub uninterp spec fn bytes_mut_content(buffer: BytesMut) -> Seq<u8>;

/// Calls the `AsRef<[u8]>` of `Bytes`. Claimed of it: the slice holds the bytes of the buffer.
#[verifier::external_body]
pub(crate) fn bytes_as_slice(buffer: &Bytes) -> (slice: &[u8])
    ensures
        slice@ == bytes_content(*buffer),
{
    buffer.as_ref()
}

/// Calls `Buf::advance` of `Bytes`. Claimed of it: the first `count` bytes are dropped. It panics
/// where the buffer is shorter.
#[verifier::external_body]
pub(crate) fn bytes_advance(buffer: &mut Bytes, count: usize)
    requires
        count <= bytes_content(*old(buffer)).len(),
    ensures
        bytes_content(*final(buffer)) == bytes_content(*old(buffer)).skip(count as int),
{
    buffer.advance(count)
}

/// Calls `BytesMut::zeroed`. Claimed of it: the buffer holds `len` zero bytes.
#[verifier::external_body]
pub(crate) fn bytes_mut_zeroed(len: usize) -> (buffer: BytesMut)
    requires
        len <= 0x7fff_ffff,
    ensures
        bytes_mut_content(buffer) == Seq::new(len as nat, |i: int| 0u8),
{
    BytesMut::zeroed(len)
}

/// Calls the `DerefMut` of `BytesMut`. Claimed of it: the slice holds the bytes of the buffer,
/// what is written to it is written to the buffer, and it cannot change its length.
#[verifier::external_body]
pub(crate) fn bytes_mut_as_mut_slice(buffer: &mut BytesMut) -> (slice: &mut [u8])
    ensures
        slice@ == bytes_mut_content(*old(buffer)),
        bytes_mut_content(*final(buffer)) == final(slice)@,
        final(slice)@.len() == slice@.len(),
{
    buffer.deref_mut()
}

/// Calls `BytesMut::truncate`. Claimed of it: the first `len` bytes stay.
#[verifier::external_body]
pub(crate) fn bytes_mut_truncate(buffer: &mut BytesMut, len: usize)
    requires
        len <= bytes_mut_content(*old(buffer)).len(),
    ensures
        bytes_mut_content(*final(buffer)) == bytes_mut_content(*old(buffer)).take(len as int),
{
    buffer.truncate(len)
}

/// Calls `BytesMut::freeze`. Claimed of it: the bytes are the same.
#[verifier::external_body]
pub(crate) fn bytes_mut_freeze(buffer: BytesMut) -> (frozen: Bytes)
    ensures
        bytes_content(frozen) == bytes_mut_content(buffer),
{
    buffer.freeze()
}

} // verus!
