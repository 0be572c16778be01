//! The byte buffer that frames are written to and read from.
//!
//! The buffer is `bytes::BytesMut`. Its inside is not modelled: what a buffer
//! holds is named `buffered`, and each operation the crate uses is given here
//! with what the `bytes` crate documents of it. Nothing in this module is
//! proved; every proof about frames rests on it.

use vstd::prelude::*;
use bytes::{Buf, BufMut, BytesMut};

verus! {

/// `bytes::BytesMut`, as an opaque type.
#[verifier::external_type_specification]
#[verifier::external_body]
pub struct ExBytesMut(bytes::BytesMut);

/// The bytes a buffer holds, from its read position to its end.
pub uninterp spec fn buffered(buf: BytesMut) -> Seq<u8>;

/// The four bytes of `value`, most significant first.
pub open spec fn be_u32(value: u32) -> Seq<u8> {
    seq![
        (value / 16777216) as u8,
        ((value / 65536) % 256) as u8,
        ((value / 256) % 256) as u8,
        (value % 256) as u8,
    ]
}

/// The number whose big-endian bytes are `b0 b1 b2 b3`.
pub open spec fn be_u32_value(b0: u8, b1: u8, b2: u8, b3: u8) -> int {
    b0 * 16777216 + b1 * 65536 + b2 * 256 + b3
}

/// `bytes::BytesMut::new`: the new buffer holds nothing.
pub assume_specification[ bytes::BytesMut::new ]() -> (buf: BytesMut)
    ensures
        buffered(buf) == Seq::<u8>::empty(),
;

/// `bytes::BytesMut::len`: the number of bytes the buffer holds.
pub assume_specification[ bytes::BytesMut::len ](buf: &BytesMut) -> (len: usize)
    ensures
        len == buffered(*buf).len(),
;

/// `bytes::BytesMut::clear`: afterwards the buffer holds nothing.
pub assume_specification[ bytes::BytesMut::clear ](buf: &mut BytesMut)
    ensures
        buffered(*final(buf)) == Seq::<u8>::empty(),
;

/// `bytes::BytesMut::reserve`: makes room for `additional` more bytes and
/// leaves the contents as they are. The call panics where the new capacity
/// overflows, which the precondition rules out.
pub assume_specification[ bytes::BytesMut::reserve ](buf: &mut BytesMut, additional: usize)
    requires
        buffered(*old(buf)).len() + additional <= isize::MAX,
    ensures
        buffered(*final(buf)) == buffered(*old(buf)),
;

/// `BufMut::put_u8` on a `BytesMut`: appends one byte. The buffer grows as
/// needed; the call panics only where no capacity can remain.
#[verifier::external_body]
pub(crate) fn put_u8(buf: &mut BytesMut, value: u8)
    requires
        buffered(*old(buf)).len() + 1 <= isize::MAX,
    ensures
        buffered(*final(buf)) == buffered(*old(buf)).push(value),
{
    buf.put_u8(value)
}

/// `BufMut::put_u32` on a `BytesMut`: appends the four bytes of `value` in
/// big-endian order.
#[verifier::external_body]
pub(crate) fn put_u32(buf: &mut BytesMut, value: u32)
    requires
        buffered(*old(buf)).len() + 4 <= isize::MAX,
    ensures
        buffered(*final(buf)) == buffered(*old(buf)) + be_u32(value),
{
    buf.put_u32(value)
}

/// `BufMut::put_slice` on a `BytesMut`: appends the bytes of `src`.
#[verifier::external_body]
pub(crate) fn put_slice(buf: &mut BytesMut, src: &[u8])
    requires
        buffered(*old(buf)).len() + src@.len() <= isize::MAX,
    ensures
        buffered(*final(buf)) == buffered(*old(buf)) + src@,
{
    buf.put_slice(src)
}

/// `Buf::advance` on a `BytesMut`: drops the first `count` bytes. The call
/// panics where the buffer holds fewer.
#[verifier::external_body]
pub(crate) fn advance(buf: &mut BytesMut, count: usize)
    requires
        count <= buffered(*old(buf)).len(),
    ensures
        buffered(*final(buf)) == buffered(*old(buf)).skip(count as int),
{
    buf.advance(count)
}

/// `Deref` of a `BytesMut`: the bytes it holds, as a slice.
#[verifier::external_body]
pub(crate) fn contents(buf: &BytesMut) -> (bytes: &[u8])
    ensures
        bytes@ == buffered(*buf),
{
    std::ops::Deref::deref(buf)
}

/// Reading back the big-endian bytes of a number gives the number.
pub proof fn lemma_be_u32_round_trip(value: u32)
    ensures
        be_u32(value).len() == 4,
        be_u32_value(be_u32(value)[0], be_u32(value)[1], be_u32(value)[2], be_u32(value)[3])
            == value,
{
}

} // verus!
