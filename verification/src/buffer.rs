//! Byte buffers of the `bytes` crate, as the transport uses them.
//!
//! Nothing in this file is proved: each function states what the method of
//! `bytes::BytesMut` that it calls does to the bytes held.

use bytes::BufMut;
use bytes::BytesMut;
use vstd::prelude::*;

verus! {

/// `bytes::BytesMut`, a buffer of bytes that can grow. Nothing of its inside
/// is known here but the bytes that [`held`] names.
#[verifier::external_type_specification]
#[verifier::external_body]
pub struct ExBytesMut(bytes::BytesMut);

/// `bytes::Bytes`, a buffer of bytes that cannot change. The transport hands
/// such a value on as it got it and never looks inside.
#[verifier::external_type_specification]
#[verifier::external_body]
pub struct ExBytes(bytes::Bytes);

/// The bytes that a `BytesMut` holds, first to last.
pub uninterp spec fn held(buffer: BytesMut) -> Seq<u8>;

/// What `BytesMut::resize` leaves of `bytes`: the first `len` of them, or all
/// of them followed by `value` up to the length `len`.
pub open spec fn resized(bytes: Seq<u8>, len: nat, value: u8) -> Seq<u8> {
    Seq::new(len, |i: int| if i < bytes.len() { bytes[i] } else { value })
}

/// What `BytesMut::truncate` leaves of `bytes`: the first `len` of them, or
/// all of them where there are no more than `len`.
pub open spec fn truncated(bytes: Seq<u8>, len: nat) -> Seq<u8> {
    if len <= bytes.len() {
        bytes.take(len as int)
    } else {
        bytes
    }
}

/// `BytesMut::with_capacity`: a buffer that holds no byte. The call panics
/// where the capacity is above `isize::MAX`, which `requires` leaves out.
#[verifier::external_body]
pub(crate) fn with_capacity(capacity: usize) -> (buffer: BytesMut)
    requires
        capacity <= isize::MAX,
    ensures
        held(buffer) == Seq::<u8>::empty(),
{
    BytesMut::with_capacity(capacity)
}

/// `BytesMut::len`: the number of bytes held.
#[verifier::external_body]
pub(crate) fn len(buffer: &BytesMut) -> (n: usize)
    ensures
        n == held(*buffer).len(),
{
    buffer.len()
}

/// Indexing a `BytesMut` as the slice it dereferences to: the byte held at
/// `index`. It panics past the end, which `requires` leaves out.
#[verifier::external_body]
pub(crate) fn byte_at(buffer: &BytesMut, index: usize) -> (byte: u8)
    requires
        index < held(*buffer).len(),
    ensures
        byte == held(*buffer)[index as int],
{
    buffer[index]
}

/// `BufMut::put_u8` on a `BytesMut`: the byte is appended, the buffer growing
/// as needed. It panics where the length would pass `isize::MAX`.
#[verifier::external_body]
pub(crate) fn put_u8(buffer: &mut BytesMut, byte: u8)
    requires
        held(*old(buffer)).len() < isize::MAX,
    ensures
        held(*final(buffer)) == held(*old(buffer)).push(byte),
{
    buffer.put_u8(byte)
}

/// `BytesMut::resize`: the buffer is cut or filled with `value` to the length
/// `len`. Growing panics where `len` is above `isize::MAX`.
#[verifier::external_body]
pub(crate) fn resize(buffer: &mut BytesMut, len: usize, value: u8)
    requires
        len <= isize::MAX,
    ensures
        held(*final(buffer)) == resized(held(*old(buffer)), len as nat, value),
{
    buffer.resize(len, value)
}

/// `BytesMut::split_to`: the first `at` bytes leave the buffer and are
/// returned; the rest stay. It panics where `at` is past the end.
#[verifier::external_body]
pub(crate) fn split_to(buffer: &mut BytesMut, at: usize) -> (head: BytesMut)
    requires
        at <= held(*old(buffer)).len(),
    ensures
        held(head) == held(*old(buffer)).take(at as int),
        held(*final(buffer)) == held(*old(buffer)).skip(at as int),
{
    buffer.split_to(at)
}

/// `BytesMut::truncate`: the first `len` bytes stay; a buffer no longer than
/// `len` is left as it is.
#[verifier::external_body]
pub(crate) fn truncate(buffer: &mut BytesMut, len: usize)
    ensures
        held(*final(buffer)) == truncated(held(*old(buffer)), len as nat),
{
    buffer.truncate(len)
}

/// `BytesMut::clone`: a buffer of its own that holds the same bytes.
#[verifier::external_body]
pub(crate) fn duplicate(buffer: &BytesMut) -> (copy: BytesMut)
    ensures
        held(copy) == held(*buffer),
{
    buffer.clone()
}

} // verus!
