//! The byte buffers of the `bytes` crate: what they hold, and what the
//! operations that the codecs use do to it

use bytes::{Buf, BufMut};
use vstd::prelude::*;

use crate::wire::{be16, be16_bytes};

verus! {

/// `bytes::BytesMut`: a growable buffer of bytes
#[verifier::external_type_specification]
#[verifier::external_body]
pub struct ExBytesMut(bytes::BytesMut);

/// `bytes::Bytes`: an immutable buffer of bytes
#[verifier::external_type_specification]
#[verifier::external_body]
pub struct ExBytes(bytes::Bytes);

/// The bytes that a growable buffer holds, in order
pub uninterp spec fn buffered(buffer: bytes::BytesMut) -> Seq<u8>;

/// The bytes that an immutable buffer holds, in order
pub uninterp spec fn contents(bytes: bytes::Bytes) -> Seq<u8>;

/// `BytesMut::len`: how many bytes the buffer holds
#[verifier::external_body]
pub(crate) fn buffer_len(buffer: &bytes::BytesMut) -> (len: usize)
    ensures
        len == buffered(*buffer).len(),
{
    buffer.len()
}

/// `Buf::get_u8` on `BytesMut`: takes the first byte off the buffer. Panics on
/// an empty buffer.
#[verifier::external_body]
pub(crate) fn take_u8(buffer: &mut bytes::BytesMut) -> (value: u8)
    requires
        buffered(*old(buffer)).len() >= 1,
    ensures
        value == buffered(*old(buffer))[0],
        buffered(*final(buffer)) == buffered(*old(buffer)).skip(1),
{
    buffer.get_u8()
}

/// `Buf::get_u16` on `BytesMut`: takes a big-endian 16 bit integer off the
/// front of the buffer. Panics when fewer than two bytes are left.
#[verifier::external_body]
pub(crate) fn take_u16(buffer: &mut bytes::BytesMut) -> (value: u16)
    requires
        buffered(*old(buffer)).len() >= 2,
    ensures
        value == be16(buffered(*old(buffer))[0], buffered(*old(buffer))[1]),
        buffered(*final(buffer)) == buffered(*old(buffer)).skip(2),
{
    buffer.get_u16()
}

/// `BytesMut::split_to`: takes the first `at` bytes off the buffer. Panics
/// when the buffer holds fewer.
#[verifier::external_body]
pub(crate) fn split_to(buffer: &mut bytes::BytesMut, at: usize) -> (front: bytes::BytesMut)
    requires
        at <= buffered(*old(buffer)).len(),
    ensures
        buffered(front) == buffered(*old(buffer)).take(at as int),
        buffered(*final(buffer)) == buffered(*old(buffer)).skip(at as int),
{
    buffer.split_to(at)
}

/// `BytesMut::freeze`: the same bytes as an immutable buffer
#[verifier::external_body]
pub(crate) fn freeze(buffer: bytes::BytesMut) -> (bytes: bytes::Bytes)
    ensures
        contents(bytes) == buffered(buffer),
{
    buffer.freeze()
}

/// `BufMut::put_u8` on `BytesMut`: appends one byte. A buffer cannot grow past
/// `isize::MAX` bytes.
#[verifier::external_body]
pub(crate) fn put_u8(buffer: &mut bytes::BytesMut, value: u8)
    requires
        buffered(*old(buffer)).len() + 1 <= isize::MAX,
    ensures
        buffered(*final(buffer)) == buffered(*old(buffer)).push(value),
{
    buffer.put_u8(value)
}

/// `BufMut::put_u16` on `BytesMut`: appends the two big-endian bytes of
/// `value`. A buffer cannot grow past `isize::MAX` bytes.
#[verifier::external_body]
pub(crate) fn put_u16(buffer: &mut bytes::BytesMut, value: u16)
    requires
        buffered(*old(buffer)).len() + 2 <= isize::MAX,
    ensures
        buffered(*final(buffer)) == buffered(*old(buffer)) + be16_bytes(value),
{
    buffer.put_u16(value)
}

/// `BytesMut::extend_from_slice`: appends all bytes of `bytes`. A buffer
/// cannot grow past `isize::MAX` bytes.
#[verifier::external_body]
pub(crate) fn extend_from_bytes(buffer: &mut bytes::BytesMut, bytes: &bytes::Bytes)
    requires
        buffered(*old(buffer)).len() + contents(*bytes).len() <= isize::MAX,
    ensures
        buffered(*final(buffer)) == buffered(*old(buffer)) + contents(*bytes),
{
    buffer.extend_from_slice(bytes)
}

/// `Bytes::len`: how many bytes the buffer holds
#[verifier::external_body]
pub(crate) fn bytes_len(bytes: &bytes::Bytes) -> (len: usize)
    ensures
        len == contents(*bytes).len(),
{
    bytes.len()
}

/// `Bytes::new`: a buffer that holds no bytes
#[verifier::external_body]
pub(crate) fn bytes_new() -> (bytes: bytes::Bytes)
    ensures
        contents(bytes) == Seq::<u8>::empty(),
{
    bytes::Bytes::new()
}

/// `Bytes::from` on a `Vec<u8>`: the bytes of the vector
#[verifier::external_body]
pub(crate) fn bytes_from_vec(vec: Vec<u8>) -> (bytes: bytes::Bytes)
    ensures
        contents(bytes) == vec@,
{
    bytes::Bytes::from(vec)
}

/// `Bytes::copy_from_slice`: a copy of the bytes of the slice
#[verifier::external_body]
pub(crate) fn bytes_copy(slice: &[u8]) -> (bytes: bytes::Bytes)
    ensures
        contents(bytes) == slice@,
{
    bytes::Bytes::copy_from_slice(slice)
}

/// `Bytes::slice` on an open range: the bytes from `start` on. Panics when
/// there are fewer than `start`.
#[verifier::external_body]
pub(crate) fn bytes_from(bytes: &bytes::Bytes, start: usize) -> (tail: bytes::Bytes)
    requires
        start <= contents(*bytes).len(),
    ensures
        contents(tail) == contents(*bytes).skip(start as int),
{
    bytes.slice(start..)
}

/// Whether a buffer can take a number of bytes more
pub open spec fn has_room(buffer: bytes::BytesMut, count: nat) -> bool {
    buffered(buffer).len() + count <= isize::MAX
}

/// Provides whether a buffer can take the bytes of another one and `extra`
/// bytes more
pub(crate) fn can_take(buffer: &bytes::BytesMut, extra: usize, bytes: &bytes::Bytes) -> (result:
    bool)
    ensures
        result == has_room(*buffer, (extra + contents(*bytes).len()) as nat),
{
    let most: usize = isize::MAX as usize;
    let used: usize = buffer_len(buffer);
    let count: usize = bytes_len(bytes);
    used <= most && extra <= most - used && count <= most - used - extra
}

/// A buffer has room for every number of bytes with which it holds no more than
/// `isize::MAX`
pub proof fn law_room(buffer: bytes::BytesMut, count: nat)
    ensures
        has_room(buffer, count) <==> buffered(buffer).len() + count <= isize::MAX,
{
}

} // verus!
