//! The growable byte buffer of the `bytes` crate, as the packet codec uses it.

use bytes::{Buf, BufMut, BytesMut};
use vstd::prelude::*;

verus! {

#[verifier::external_type_specification]
#[verifier::external_body]
pub struct ExBytesMut(BytesMut);

/// The bytes that a `BytesMut` holds, in order.
pub uninterp spec fn bytes_mut_view(b: BytesMut) -> Seq<u8>;

/// The largest length a `BytesMut` can reach (`isize::MAX`).
pub open spec fn bytes_mut_limit() -> nat {
    isize::MAX as nat
}

/// The largest length a `BytesMut` can reach.
pub fn bytes_mut_limit_usize() -> (n: usize)
    ensures
        n == bytes_mut_limit(),
{
    isize::MAX as usize
}

/// The number of bytes a `BytesMut` holds.
pub fn bytes_mut_len(b: &BytesMut) -> (n: usize)
    ensures
        n == bytes_mut_view(*b).len(),
{
    bytes_mut_as_slice(b).len()
}

/// `<BytesMut as AsRef<[u8]>>::as_ref`: the held bytes as a slice.
#[verifier::external_body]
pub(crate) fn bytes_mut_as_slice(b: &BytesMut) -> (r: &[u8])
    ensures
        r@ == bytes_mut_view(*b),
{
    b.as_ref()
}

/// `Buf::advance` on a `BytesMut`: drops the first `cnt` bytes. The crate
/// panics when `cnt` exceeds the length, which `requires` rules out.
#[verifier::external_body]
pub(crate) fn bytes_mut_advance(b: &mut BytesMut, cnt: usize)
    requires
        cnt <= bytes_mut_view(*old(b)).len(),
    ensures
        bytes_mut_view(*final(b)) == bytes_mut_view(*old(b)).skip(cnt as int),
{
    b.advance(cnt)
}

/// `BytesMut::reserve`: makes room for `additional` more bytes and leaves the
/// contents alone. It panics when the capacity would overflow, which
/// `requires` rules out.
#[verifier::external_body]
pub(crate) fn bytes_mut_reserve(b: &mut BytesMut, additional: usize)
    requires
        bytes_mut_view(*old(b)).len() + additional <= bytes_mut_limit(),
    ensures
        bytes_mut_view(*final(b)) == bytes_mut_view(*old(b)),
{
    b.reserve(additional)
}

/// `BufMut::put_u8` on a `BytesMut`: appends one byte.
#[verifier::external_body]
pub(crate) fn bytes_mut_put_u8(b: &mut BytesMut, n: u8)
    requires
        bytes_mut_view(*old(b)).len() + 1 <= bytes_mut_limit(),
    ensures
        bytes_mut_view(*final(b)) == bytes_mut_view(*old(b)).push(n),
{
    b.put_u8(n)
}

/// `BufMut::put_u16` on a `BytesMut`: appends the two bytes of `n`, most
/// significant first.
#[verifier::external_body]
pub(crate) fn bytes_mut_put_u16(b: &mut BytesMut, n: u16)
    requires
        bytes_mut_view(*old(b)).len() + 2 <= bytes_mut_limit(),
    ensures
        bytes_mut_view(*final(b)) == bytes_mut_view(*old(b)) + seq![(n >> 8u16) as u8, n as u8],
{
    b.put_u16(n)
}

/// `BufMut::put_u32` on a `BytesMut`: appends the four bytes of `n`, most
/// significant first.
#[verifier::external_body]
pub(crate) fn bytes_mut_put_u32(b: &mut BytesMut, n: u32)
    requires
        bytes_mut_view(*old(b)).len() + 4 <= bytes_mut_limit(),
    ensures
        bytes_mut_view(*final(b)) == bytes_mut_view(*old(b)) + seq![
            (n >> 24u32) as u8,
            (n >> 16u32) as u8,
            (n >> 8u32) as u8,
            n as u8,
        ],
{
    b.put_u32(n)
}

/// `BufMut::put_slice` on a `BytesMut`: appends all of `src`.
#[verifier::external_body]
pub(crate) fn bytes_mut_put_slice(b: &mut BytesMut, src: &[u8])
    requires
        bytes_mut_view(*old(b)).len() + src@.len() <= bytes_mut_limit(),
    ensures
        bytes_mut_view(*final(b)) == bytes_mut_view(*old(b)) + src@,
{
    b.put_slice(src)
}

} // verus!
