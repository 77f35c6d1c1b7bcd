//! Byte chunks from the `bytes` crate, as the appenders use them.
use bytes::{Bytes, BytesMut};
use vstd::prelude::*;

verus! {

#[verifier::external_type_specification]
#[verifier::external_body]
pub struct ExBytes(Bytes);

#[verifier::external_type_specification]
#[verifier::external_body]
pub struct ExBytesMut(BytesMut);

/// The bytes that an immutable chunk holds.
pub uninterp spec fn bytes_content(b: Bytes) -> Seq<u8>;

/// The bytes that a growable buffer holds.
pub uninterp spec fn bytes_mut_content(b: BytesMut) -> Seq<u8>;

/// The contents of a sequence of chunks, chunk by chunk.
pub open spec fn chunk_contents(v: Seq<Bytes>) -> Seq<Seq<u8>> {
    v.map_values(|b: Bytes| bytes_content(b))
}

/// An empty buffer.
///
/// Wraps `BytesMut::new`, documented to create a new `BytesMut` with length 0.
#[verifier::external_body]
pub(crate) fn bytes_mut_new() -> (b: BytesMut)
    ensures
        bytes_mut_content(b) == Seq::<u8>::empty(),
{
    BytesMut::new()
}

/// The number of bytes in a buffer.
///
/// Wraps `BytesMut::len`, documented to return the number of bytes contained.
#[verifier::external_body]
pub(crate) fn bytes_mut_len(b: &BytesMut) -> (n: usize)
    ensures
        n == bytes_mut_content(*b).len(),
{
    b.len()
}

/// Appends bytes to a buffer.
///
/// Wraps `BytesMut::extend_from_slice`, documented to append the given bytes, resizing
/// first when the capacity is too small. Growing past `isize::MAX` bytes makes the
/// allocation fail, so such calls are left out.
#[verifier::external_body]
pub(crate) fn bytes_mut_extend(b: &mut BytesMut, s: &[u8])
    requires
        bytes_mut_content(*old(b)).len() + s@.len() <= isize::MAX,
    ensures
        bytes_mut_content(*final(b)) == bytes_mut_content(*old(b)) + s@,
{
    b.extend_from_slice(s)
}

/// Removes all bytes from a buffer and returns them in a new buffer.
///
/// Wraps `BytesMut::split`, documented to return the bytes of the current view in a new
/// handle and to leave `self` empty.
#[verifier::external_body]
pub(crate) fn bytes_mut_split(b: &mut BytesMut) -> (r: BytesMut)
    ensures
        bytes_mut_content(r) == bytes_mut_content(*old(b)),
        bytes_mut_content(*final(b)) == Seq::<u8>::empty(),
{
    b.split()
}

/// Converts a buffer into an immutable chunk with the same bytes.
///
/// Wraps `BytesMut::freeze`, documented as a zero-cost conversion of the same slice.
#[verifier::external_body]
pub(crate) fn bytes_mut_freeze(b: BytesMut) -> (r: Bytes)
    ensures
        bytes_content(r) == bytes_mut_content(b),
{
    b.freeze()
}

/// The number of bytes in a chunk.
///
/// Wraps `Bytes::len`, documented to return the number of bytes contained. A chunk is an
/// object in memory, so its length never exceeds `isize::MAX`.
#[verifier::external_body]
pub(crate) fn bytes_len(b: &Bytes) -> (n: usize)
    ensures
        n == bytes_content(*b).len(),
        n <= isize::MAX,
{
    b.len()
}

/// The bytes of a chunk, as a slice.
///
/// Wraps the `Deref` of `Bytes` to `[u8]`, which exposes exactly the chunk's bytes.
#[verifier::external_body]
pub(crate) fn bytes_as_slice(b: &Bytes) -> (s: &[u8])
    ensures
        s@ == bytes_content(*b),
{
    b
}

/// Whether a chunk holds no bytes.
pub fn bytes_is_empty(b: &Bytes) -> (r: bool)
    ensures
        r == (bytes_content(*b).len() == 0),
{
    bytes_len(b) == 0
}

} // verus!
