//! Byte buffers: what the library relies on of the `bytes` crate.

use bytes::Bytes;
use vstd::prelude::*;

verus! {

/// A cheaply cloneable, immutable buffer.
#[verifier::external_type_specification]
#[verifier::external_body]
pub struct ExBytes(bytes::Bytes);

/// The bytes that a buffer holds.
pub uninterp spec fn payload(buffer: bytes::Bytes) -> Seq<u8>;

/// `Bytes::new` makes a buffer without bytes.
pub assume_specification[ Bytes::new ]() -> (buffer: Bytes)
    ensures
        payload(buffer) == Seq::<u8>::empty(),
;

/// `Bytes::len` is the number of bytes in the buffer.
pub assume_specification[ Bytes::len ](buffer: &Bytes) -> (len: usize)
    ensures
        len == payload(*buffer).len(),
;

/// `Bytes::copy_from_slice` makes a buffer of its own with the slice's bytes.
pub assume_specification[ Bytes::copy_from_slice ](data: &[u8]) -> (buffer: Bytes)
    ensures
        payload(buffer) == data@,
;

/// `Bytes::split_to` hands out the first `at` bytes and keeps the rest; it panics past
/// the end.
pub assume_specification[ Bytes::split_to ](buffer: &mut Bytes, at: usize) -> (head: Bytes)
    requires
        at <= payload(*old(buffer)).len(),
    ensures
        payload(head) == payload(*old(buffer)).take(at as int),
        payload(*final(buffer)) == payload(*old(buffer)).skip(at as int),
;

/// `Bytes::split_off` keeps the first `at` bytes and hands out the rest; it panics past
/// the end.
pub assume_specification[ Bytes::split_off ](buffer: &mut Bytes, at: usize) -> (tail: Bytes)
    requires
        at <= payload(*old(buffer)).len(),
    ensures
        payload(*final(buffer)) == payload(*old(buffer)).take(at as int),
        payload(tail) == payload(*old(buffer)).skip(at as int),
;

/// `Bytes::from` takes a vector over with the bytes that it holds.
#[verifier::external_body]
pub(crate) fn from_vec(data: Vec<u8>) -> (buffer: Bytes)
    ensures
        payload(buffer) == data@,
{
    Bytes::from(data)
}

/// `Bytes` as a slice (its `AsRef`) has the bytes that the buffer holds.
#[verifier::external_body]
pub(crate) fn as_slice(buffer: &Bytes) -> (data: &[u8])
    ensures
        data@ == payload(*buffer),
{
    buffer.as_ref()
}

} // verus!
