//! Byte buffers of the `bytes` crate, and the slices that requests carry.
use tokio_util::bytes::{Bytes, BytesMut};
use vstd::prelude::*;

verus! {

/// A growable byte buffer.
#[verifier::external_type_specification]
#[verifier::external_body]
pub struct ExBytesMut(BytesMut);

/// Shared bytes that do not change.
#[verifier::external_type_specification]
#[verifier::external_body]
pub struct ExBytes(Bytes);

/// The bytes in a buffer.
pub uninterp spec fn buffer_bytes(buf: BytesMut) -> Seq<u8>;

/// The buffer was only ever appended to: it was never split, advanced or
/// frozen, so its bytes start where its allocation starts.
pub uninterp spec fn append_only(buf: BytesMut) -> bool;

/// The bytes that are shared.
pub uninterp spec fn shared_bytes(bytes: Bytes) -> Seq<u8>;

/// `BytesMut::new`: an empty buffer, not yet appended to.
#[verifier::external_body]
pub(crate) fn buffer_new() -> (r: BytesMut)
    ensures
        buffer_bytes(r) == Seq::<u8>::empty(),
        append_only(r),
{
    BytesMut::new()
}

/// `BytesMut::len`: how many bytes the buffer holds.
#[verifier::external_body]
pub(crate) fn buffer_len(buf: &BytesMut) -> (r: usize)
    ensures
        r == buffer_bytes(*buf).len(),
{
    buf.len()
}

/// `BytesMut::extend_from_slice`: the given bytes behind those of the buffer.
/// It panics where the bytes would not fit an allocation.
#[verifier::external_body]
pub(crate) fn buffer_append(buf: &mut BytesMut, data: &[u8])
    requires
        append_only(*old(buf)),
        buffer_bytes(*old(buf)).len() + data@.len() <= isize::MAX,
    ensures
        buffer_bytes(*final(buf)) == buffer_bytes(*old(buf)) + data@,
        append_only(*final(buf)),
{
    buf.extend_from_slice(data)
}

/// `BytesMut::as_ref`: the bytes of the buffer as a slice.
#[verifier::external_body]
pub(crate) fn buffer_slice(buf: &BytesMut) -> (r: &[u8])
    ensures
        r@ == buffer_bytes(*buf),
{
    buf.as_ref()
}

/// `Bytes::copy_from_slice`: shared bytes with a copy of the slice.
#[verifier::external_body]
pub(crate) fn bytes_copy(data: &[u8]) -> (r: Bytes)
    ensures
        shared_bytes(r) == data@,
{
    Bytes::copy_from_slice(data)
}

/// `Bytes::as_ref`: the shared bytes as a slice.
#[verifier::external_body]
pub(crate) fn bytes_slice(bytes: &Bytes) -> (r: &[u8])
    ensures
        r@ == shared_bytes(*bytes),
{
    bytes.as_ref()
}

/// The data of one request.
pub struct DataSlice {
    bytes: Bytes,
}

impl View for DataSlice {
    type V = Seq<u8>;

    closed spec fn view(&self) -> Seq<u8> {
        shared_bytes(self.bytes)
    }
}

impl DataSlice {
    /// Data that shares some bytes.
    pub fn bytes(bytes: Bytes) -> (r: Self)
        ensures
            r@ == shared_bytes(bytes),
    {
        DataSlice { bytes }
    }

    /// Data with a copy of some bytes.
    pub fn copy_of(data: &[u8]) -> (r: Self)
        ensures
            r@ == data@,
    {
        DataSlice { bytes: bytes_copy(data) }
    }

    /// The bytes of the data.
    pub fn as_slice(&self) -> (r: &[u8])
        ensures
            r@ == self@,
    {
        bytes_slice(&self.bytes)
    }

    /// How many bytes there are.
    pub fn len(&self) -> (r: usize)
        ensures
            r == self@.len(),
    {
        self.as_slice().len()
    }

    /// Whether there are no bytes.
    pub fn is_empty(&self) -> (r: bool)
        ensures
            r == (self@.len() == 0),
    {
        self.len() == 0
    }
}

} // verus!
