//! The byte buffer that datagrams are collected in and messages are encoded into
//! (`bytes::BytesMut`), with what its methods do to its contents.
use vstd::prelude::*;

verus! {

#[verifier::external_type_specification]
#[verifier::external_body]
pub struct ExBytesMut(bytes::BytesMut);

/// The bytes held by a `BytesMut`.
pub uninterp spec fn buffer_contents(b: bytes::BytesMut) -> Seq<u8>;

/// `BytesMut::new` makes an empty buffer.
pub assume_specification[ bytes::BytesMut::new ]() -> (r: bytes::BytesMut)
    ensures
        buffer_contents(r) == Seq::<u8>::empty(),
;

/// `BytesMut::len` is the number of bytes held.
pub assume_specification[ bytes::BytesMut::len ](b: &bytes::BytesMut) -> (r: usize)
    ensures
        r == buffer_contents(*b).len(),
;

/// `BytesMut::is_empty` tells whether no byte is held.
pub assume_specification[ bytes::BytesMut::is_empty ](b: &bytes::BytesMut) -> (r: bool)
    ensures
        r == (buffer_contents(*b).len() == 0),
;

/// `BytesMut::extend_from_slice` appends the bytes of the slice.
pub assume_specification[ bytes::BytesMut::extend_from_slice ](
    b: &mut bytes::BytesMut,
    extend: &[u8],
)
    ensures
        buffer_contents(*final(b)) == buffer_contents(*old(b)) + extend@,
;

/// `BytesMut::split` hands out everything held and leaves the buffer empty.
pub assume_specification[ bytes::BytesMut::split ](b: &mut bytes::BytesMut) -> (r:
    bytes::BytesMut)
    ensures
        buffer_contents(r) == buffer_contents(*old(b)),
        buffer_contents(*final(b)) == Seq::<u8>::empty(),
;

/// Calls `Buf::advance` on a `BytesMut`: the first `count` bytes are dropped.
/// It panics when `count` exceeds the length, which `requires` rules out.
#[verifier::external_body]
pub(crate) fn buffer_advance(b: &mut bytes::BytesMut, count: usize)
    requires
        count <= buffer_contents(*old(b)).len(),
    ensures
        buffer_contents(*final(b)) == buffer_contents(*old(b)).skip(count as int),
{
    bytes::Buf::advance(b, count)
}

/// Calls `Deref::deref` on a `BytesMut`: the bytes held, as a slice.
#[verifier::external_body]
pub(crate) fn buffer_bytes(b: &bytes::BytesMut) -> (r: &[u8])
    ensures
        r@ == buffer_contents(*b),
{
    &**b
}

} // verus!
