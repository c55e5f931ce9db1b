//! Buffered bodies: the bytes of a request read to the end once, then shared
//! by every copy of the request.

use bytes::Bytes;
use std::sync::Arc;
use vstd::prelude::*;

verus! {

/// `bytes::Bytes`, taken as it is; what it holds is `bytes_content`.
#[verifier::external_type_specification]
#[verifier::external_body]
pub struct ExBytes(Bytes);

/// The bytes that a `Bytes` buffer holds, first to last.
pub uninterp spec fn bytes_content(buffer: Bytes) -> Seq<u8>;

/// `Vec::<u8>::from(Bytes)`: moves the bytes of the buffer into a vector,
/// same bytes in the same order.
#[verifier::external_body]
fn bytes_into_vec(buffer: Bytes) -> (data: Vec<u8>)
    ensures
        data@ == bytes_content(buffer),
{
    Vec::from(buffer)
}

/// `Bytes::copy_from_slice`: a new buffer holding a copy of the slice.
#[verifier::external_body]
fn bytes_from_slice(data: &[u8]) -> (buffer: Bytes)
    ensures
        bytes_content(buffer) == data@,
{
    Bytes::copy_from_slice(data)
}

/// `Arc::clone`: another handle on the same allocation, hence on the same
/// value.
#[verifier::external_body]
fn share(data: &Arc<Vec<u8>>) -> (shared: Arc<Vec<u8>>)
    ensures
        shared == *data,
{
    Arc::clone(data)
}

/// A fully read body. It never changes, and a copy shares the bytes
/// instead of reading or copying them again.
pub struct ByteBody {
    data: Arc<Vec<u8>>,
}

impl View for ByteBody {
    type V = Seq<u8>;

    closed spec fn view(&self) -> Seq<u8> {
        (*self.data)@
    }
}

impl ByteBody {
    /// A body made of `data`.
    pub fn new(data: Vec<u8>) -> (body: ByteBody)
        ensures
            body@ == data@,
    {
        ByteBody { data: Arc::new(data) }
    }

    /// A body made of what a stream delivered into `buffer`.
    pub fn from_bytes(buffer: Bytes) -> (body: ByteBody)
        ensures
            body@ == bytes_content(buffer),
    {
        ByteBody::new(bytes_into_vec(buffer))
    }

    /// The bytes of the body.
    pub fn as_slice(&self) -> (data: &[u8])
        ensures
            data@ == self@,
    {
        self.data.as_slice()
    }

    /// The whole body as one frame for the transport.
    pub fn frame(&self) -> (buffer: Bytes)
        ensures
            bytes_content(buffer) == self@,
    {
        bytes_from_slice(self.data.as_slice())
    }

    /// The exact number of bytes in the body.
    pub fn size(&self) -> (n: u64)
        ensures
            n == self@.len(),
    {
        self.data.len() as u64
    }
}

impl Clone for ByteBody {
    /// A copy that shares the bytes of `self`: the same bytes, without
    /// touching the stream they once came from.
    fn clone(&self) -> (copy: ByteBody)
        ensures
            copy@ == self@,
    {
        ByteBody { data: share(&self.data) }
    }
}

} // verus!
