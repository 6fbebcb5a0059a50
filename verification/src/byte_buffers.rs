//! The byte buffers of the `bytes` crate, seen as sequences of bytes.

use vstd::prelude::*;

verus! {

/// A shared, immutable run of bytes.
#[verifier::external_type_specification]
#[verifier::external_body]
pub struct ExBytes(bytes::Bytes);

/// The bytes that a `bytes::Bytes` holds.
pub uninterp spec fn held(b: bytes::Bytes) -> Seq<u8>;

/// The number of bytes (`Bytes::len`).
///
/// Trusted: it is the length of what the buffer holds.
#[verifier::external_body]
pub(crate) fn bytes_len(b: &bytes::Bytes) -> (r: usize)
    ensures
        r == held(*b).len(),
{
    b.len()
}

/// The first `end` bytes (`Bytes::slice`, which panics where the range is not within the buffer).
///
/// Trusted: the slice holds exactly those bytes.
#[verifier::external_body]
pub(crate) fn bytes_take(b: &bytes::Bytes, end: usize) -> (r: bytes::Bytes)
    requires
        end <= held(*b).len(),
    ensures
        held(r) == held(*b).take(end as int),
{
    b.slice(0..end)
}

/// A copy of bytes (`Bytes::copy_from_slice`).
///
/// Trusted: the copy holds the same bytes.
#[verifier::external_body]
pub(crate) fn bytes_copy(data: &[u8]) -> (r: bytes::Bytes)
    ensures
        held(r) == data@,
{
    bytes::Bytes::copy_from_slice(data)
}

/// A growable run of bytes.
#[verifier::external_type_specification]
#[verifier::external_body]
pub struct ExBytesMut(bytes::BytesMut);

/// The bytes that a `bytes::BytesMut` holds.
pub uninterp spec fn held_mut(b: bytes::BytesMut) -> Seq<u8>;

/// An empty buffer (`BytesMut::new`).
///
/// Trusted: it holds nothing.
#[verifier::external_body]
pub(crate) fn buffer_new() -> (r: bytes::BytesMut)
    ensures
        held_mut(r) == Seq::<u8>::empty(),
{
    bytes::BytesMut::new()
}

/// The number of bytes (`BytesMut::len`).
///
/// Trusted: it is the length of what the buffer holds.
#[verifier::external_body]
pub(crate) fn buffer_len(b: &bytes::BytesMut) -> (r: usize)
    ensures
        r == held_mut(*b).len(),
{
    b.len()
}

/// Appends bytes (`BytesMut::extend_from_slice`).
///
/// Trusted: the buffer afterwards holds what it held before, followed by `data`.
#[verifier::external_body]
pub(crate) fn buffer_extend(b: &mut bytes::BytesMut, data: &[u8])
    ensures
        held_mut(*final(b)) == held_mut(*old(b)) + data@,
{
    b.extend_from_slice(data)
}

/// Splits the first `at` bytes off (`BytesMut::split_to`, which panics where the buffer holds
/// fewer).
///
/// Trusted: they are handed out, and the buffer keeps the rest.
#[verifier::external_body]
pub(crate) fn buffer_split_to(b: &mut bytes::BytesMut, at: usize) -> (r: bytes::BytesMut)
    requires
        at <= held_mut(*old(b)).len(),
    ensures
        held_mut(r) == held_mut(*old(b)).take(at as int),
        held_mut(*final(b)) == held_mut(*old(b)).skip(at as int),
{
    b.split_to(at)
}

/// Splits everything off (`BytesMut::split`).
///
/// Trusted: all bytes are handed out, and the buffer keeps none.
#[verifier::external_body]
pub(crate) fn buffer_split(b: &mut bytes::BytesMut) -> (r: bytes::BytesMut)
    ensures
        held_mut(r) == held_mut(*old(b)),
        held_mut(*final(b)) == Seq::<u8>::empty(),
{
    b.split()
}

/// Empties a buffer (`BytesMut::clear`).
///
/// Trusted: it holds nothing afterwards.
#[verifier::external_body]
pub(crate) fn buffer_clear(b: &mut bytes::BytesMut)
    ensures
        held_mut(*final(b)) == Seq::<u8>::empty(),
{
    b.clear()
}

/// Makes a buffer immutable (`BytesMut::freeze`).
///
/// Trusted: the bytes stay the same.
#[verifier::external_body]
pub(crate) fn buffer_freeze(b: bytes::BytesMut) -> (r: bytes::Bytes)
    ensures
        held(r) == held_mut(b),
{
    b.freeze()
}

/// A copy of the bytes of a buffer (`to_vec` on the slice that a `BytesMut` stands for).
///
/// Trusted: the copy holds the same bytes.
#[verifier::external_body]
pub(crate) fn buffer_to_vec(b: &bytes::BytesMut) -> (r: Vec<u8>)
    ensures
        r@ == held_mut(*b),
{
    b.to_vec()
}

/// A copy of the bytes of an immutable run (`to_vec` on the slice that a `Bytes` stands for).
///
/// Trusted: the copy holds the same bytes.
#[verifier::external_body]
pub(crate) fn bytes_to_vec(b: &bytes::Bytes) -> (r: Vec<u8>)
    ensures
        r@ == held(*b),
{
    b.to_vec()
}

} // verus!
