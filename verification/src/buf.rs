//! The byte buffers of the `bytes` crate, as the library sees them: what a
//! buffer holds, and what each method used here does to that.
use vstd::prelude::*;
use vstd::utf8::*;
use bytes::{Buf, Bytes, BytesMut};

verus! {

/// `bytes::Bytes`, a handle to a run of bytes that is cheap to clone. The
/// library sees what it holds through [`bytes_view`] and nothing else of it.
#[verifier::external_type_specification]
#[verifier::external_body]
pub struct ExBytes(bytes::Bytes);

/// The bytes that a `Bytes` handle gives access to, in order.
pub uninterp spec fn bytes_view(b: Bytes) -> Seq<u8>;

/// `Bytes::copy_from_slice` copies the slice into a buffer of its own.
pub assume_specification[ Bytes::copy_from_slice ](data: &[u8]) -> (b: Bytes)
    ensures
        bytes_view(b) == data@,
;

/// `Bytes::len` is the number of bytes held.
pub assume_specification[ Bytes::len ](b: &Bytes) -> (n: usize)
    ensures
        n == bytes_view(*b).len(),
;

/// `Clone` for `Bytes` hands out a second handle to the same bytes.
pub assume_specification[ <Bytes as Clone>::clone ](b: &Bytes) -> (c: Bytes)
    ensures
        bytes_view(c) == bytes_view(*b),
;

/// `Deref` for `Bytes` lends the held bytes as a slice.
pub assume_specification<'a>[ <Bytes as core::ops::Deref>::deref ](b: &'a Bytes) -> (s: &'a [u8])
    ensures
        s@ == bytes_view(*b),
;

/// Calls `Bytes::from` on a `String`, which takes over the string's UTF-8
/// bytes without copying them.
#[verifier::external_body]
pub(crate) fn bytes_from_string(s: String) -> (b: Bytes)
    ensures
        bytes_view(b) == encode_utf8(s@),
{
    Bytes::from(s)
}

/// Calls `Bytes::from` on a string literal, which points the handle at the
/// literal's UTF-8 bytes.
#[verifier::external_body]
pub(crate) fn bytes_from_static(s: &'static str) -> (b: Bytes)
    ensures
        bytes_view(b) == encode_utf8(s@),
{
    Bytes::from(s)
}

/// The text that the `bytes` crate shows bytes as when they are formatted
/// for debugging: a byte string literal, with the bytes that do not print
/// written as escapes.
pub uninterp spec fn bytes_debug(data: Seq<u8>) -> Seq<char>;

/// Formats a `Bytes` with `{:?}`. The crate's `Debug` goes byte by byte
/// through what the handle holds and looks at nothing else, so the text is
/// the same for the same bytes.
#[verifier::external_body]
pub(crate) fn debug_bytes(data: &Bytes) -> (text: String)
    ensures
        text@ == bytes_debug(bytes_view(*data)),
{
    format!("{data:?}")
}

/// `bytes::BytesMut`, a buffer of bytes that grows at its end and is
/// consumed from its start. The library sees what it holds through
/// [`bytes_mut_view`] and nothing else of it.
#[verifier::external_type_specification]
#[verifier::external_body]
pub struct ExBytesMut(bytes::BytesMut);

/// The bytes that a `BytesMut` buffer holds, in order.
pub uninterp spec fn bytes_mut_view(b: BytesMut) -> Seq<u8>;

/// `BytesMut::with_capacity` makes an empty buffer. It hands the capacity
/// to `Vec::with_capacity`, which panics on more than `isize::MAX` bytes.
pub assume_specification[ BytesMut::with_capacity ](capacity: usize) -> (b: BytesMut)
    requires
        capacity <= isize::MAX,
    ensures
        bytes_mut_view(b) == Seq::<u8>::empty(),
;

/// `BytesMut::is_empty` tells whether no byte is held.
pub assume_specification[ BytesMut::is_empty ](b: &BytesMut) -> (r: bool)
    ensures
        r == (bytes_mut_view(*b).len() == 0),
;

/// `Deref` for `BytesMut` lends the held bytes as a slice.
pub assume_specification<'a>[ <BytesMut as core::ops::Deref>::deref ](
    b: &'a BytesMut,
) -> (s: &'a [u8])
    ensures
        s@ == bytes_mut_view(*b),
;

/// Calls `Buf::advance` on a `BytesMut`, which drops the first `cnt` bytes
/// and keeps the rest. The crate panics where `cnt` is more than the buffer
/// holds.
#[verifier::external_body]
pub(crate) fn bytes_mut_advance(buf: &mut BytesMut, cnt: usize)
    requires
        cnt <= bytes_mut_view(*old(buf)).len(),
    ensures
        bytes_mut_view(*final(buf)) == bytes_mut_view(*old(buf)).skip(cnt as int),
{
    buf.advance(cnt)
}

} // verus!
