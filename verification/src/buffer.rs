//! The buffer of bytes that have been received and not yet been read.

use bytes::BytesMut;
use vstd::prelude::*;

verus! {

/// A growable buffer of bytes, from the crate `bytes`.
#[verifier::external_type_specification]
#[verifier::external_body]
pub struct ExBytesMut(bytes::BytesMut);

/// The bytes that a buffer holds, in order.
pub uninterp spec fn bytes_in(buffer: bytes::BytesMut) -> Seq<u8>;

/// `BytesMut::new`: the buffer is empty.
#[verifier::external_body]
pub(crate) fn new_buffer() -> (buffer: BytesMut)
    ensures
        bytes_in(buffer) == Seq::<u8>::empty(),
{
    BytesMut::new()
}

/// `BytesMut::len`: how many bytes the buffer holds.
#[verifier::external_body]
pub(crate) fn buffer_len(buffer: &BytesMut) -> (len: usize)
    ensures
        len == bytes_in(*buffer).len(),
{
    buffer.len()
}

/// `BytesMut::split_to`: the first `at` bytes leave the buffer and are handed
/// out; the others stay, in order.  It panics where there are fewer than `at`.
#[verifier::external_body]
pub(crate) fn buffer_split_to(buffer: &mut BytesMut, at: usize) -> (head: Vec<u8>)
    requires
        at <= bytes_in(*old(buffer)).len(),
    ensures
        head@ == bytes_in(*old(buffer)).take(at as int),
        bytes_in(*final(buffer)) == bytes_in(*old(buffer)).skip(at as int),
{
    buffer.split_to(at).to_vec()
}

/// `BytesMut::extend_from_slice`: the bytes of `more` join the buffer at its
/// end.  It panics where the whole would be longer than any allocation can be,
/// which a slice on its own never is.
#[verifier::external_body]
pub(crate) fn buffer_extend(buffer: &mut BytesMut, more: &[u8])
    requires
        bytes_in(*old(buffer)).len() == 0 || bytes_in(*old(buffer)).len() + more@.len()
            <= isize::MAX,
    ensures
        bytes_in(*final(buffer)) == bytes_in(*old(buffer)) + more@,
{
    buffer.extend_from_slice(more)
}

} // verus!
