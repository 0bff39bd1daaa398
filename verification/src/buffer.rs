//! Byte buffers of the `bytes` crate, sizes of the `bytesize` crate and the encoding of the
//! `base64` crate.

use bytes::BufMut;
use bytes::BytesMut;
use vstd::prelude::*;

use crate::base64_format::base64_len;
use crate::base64_format::base64_text;

verus! {

/// A growing buffer of bytes. What it holds is its [`buffer_bytes`].
#[verifier::external_type_specification]
#[verifier::external_body]
pub struct ExBytesMut(BytesMut);

/// The bytes that a buffer holds.
pub uninterp spec fn buffer_bytes(buffer: BytesMut) -> Seq<u8>;

/// The number of bytes that a buffer was made to hold.
pub uninterp spec fn buffer_limit(buffer: BytesMut) -> nat;

/// `BytesMut::with_capacity`: an empty buffer that takes `capacity` bytes.
///
/// What the buffer has allocated beyond that is left unsaid. More than `isize::MAX` bytes cannot be
/// allocated.
#[verifier::external_body]
pub(crate) fn buffer_with_capacity(capacity: usize) -> (r: BytesMut)
    requires
        capacity <= isize::MAX,
    ensures
        buffer_bytes(r) == Seq::<u8>::empty(),
        buffer_limit(r) == capacity,
{
    BytesMut::with_capacity(capacity)
}

/// `BufMut::put` of a slice on a [`BytesMut`]: the buffer then ends in `bytes`.
///
/// The call panics where the buffer has no room for them, and never grows the buffer.
#[verifier::external_body]
pub(crate) fn buffer_put(buffer: &mut BytesMut, bytes: &[u8])
    requires
        buffer_bytes(*old(buffer)).len() + bytes@.len() <= buffer_limit(*old(buffer)),
    ensures
        buffer_bytes(*final(buffer)) == buffer_bytes(*old(buffer)) + bytes@,
        buffer_limit(*final(buffer)) == buffer_limit(*old(buffer)),
{
    buffer.put(bytes)
}

/// `BytesMut::into_iter`, collected: the bytes that the buffer holds.
#[verifier::external_body]
pub(crate) fn buffer_into_vec(buffer: BytesMut) -> (r: Vec<u8>)
    ensures
        r@ == buffer_bytes(buffer),
{
    buffer.into_iter().collect()
}

/// `bytesize::mib`: the number of bytes in `size` mebibytes. It multiplies, and so overflows
/// above `u64::MAX`.
#[verifier::external_body]
pub(crate) fn mebibytes(size: u64) -> (r: u64)
    requires
        size * 1_048_576 <= u64::MAX,
    ensures
        r == size * 1_048_576,
{
    bytesize::mib(size)
}

/// `base64::encode`: the standard base64 encoding of `bytes`, with padding.
///
/// An encoding of more than `isize::MAX` characters cannot be allocated.
#[verifier::external_body]
pub(crate) fn base64_encode(bytes: &[u8]) -> (r: String)
    requires
        base64_len(bytes@.len()) <= isize::MAX,
    ensures
        r@ == base64_text(bytes@),
{
    base64::encode(bytes)
}

} // verus!
