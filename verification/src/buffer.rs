//! Contracts for the byte buffers of the `bytes` crate.
//!
//! Nothing here is proved: each contract restates what the crate's source
//! shows of the function it is given to.

use bytes::{Bytes, BytesMut};
use vstd::prelude::*;

verus! {

/// `bytes::BytesMut`, a growable byte buffer. Verus sees nothing inside it.
#[verifier::external_type_specification]
#[verifier::external_body]
pub struct ExBytesMut(bytes::BytesMut);

/// `bytes::Bytes`, a byte buffer that is no longer changed.
#[verifier::external_type_specification]
#[verifier::external_body]
pub struct ExBytes(bytes::Bytes);

/// The bytes that a `BytesMut` holds, first to last.
pub uninterp spec fn buffer_bytes(buffer: BytesMut) -> Seq<u8>;

/// The bytes that a `Bytes` holds, first to last.
pub uninterp spec fn frozen_bytes(bytes: Bytes) -> Seq<u8>;

/// `BytesMut::new` gives a buffer of length 0.
pub assume_specification[ BytesMut::new ]() -> (buffer: BytesMut)
    ensures
        buffer_bytes(buffer) == Seq::<u8>::empty(),
;

/// `BytesMut::len` is the number of bytes held.
pub assume_specification[ BytesMut::len ](buffer: &BytesMut) -> (len: usize)
    ensures
        len == buffer_bytes(*buffer).len(),
;

/// `BytesMut::is_empty` tells whether the length is 0.
pub assume_specification[ BytesMut::is_empty ](buffer: &BytesMut) -> (empty: bool)
    ensures
        empty == (buffer_bytes(*buffer).len() == 0),
;

/// `BytesMut::extend_from_slice` copies the slice behind what is held. It
/// reserves room first, which panics where the new length is more than an
/// allocation can have: only lengths up to `isize::MAX` are admitted. As for
/// a `Vec`, running out of memory is not modelled.
pub assume_specification[ BytesMut::extend_from_slice ](buffer: &mut BytesMut, extend: &[u8])
    requires
        buffer_bytes(*old(buffer)).len() + extend@.len() <= isize::MAX,
    ensures
        buffer_bytes(*final(buffer)) == buffer_bytes(*old(buffer)) + extend@,
;

/// `BytesMut::clear` sets the length to 0.
pub assume_specification[ BytesMut::clear ](buffer: &mut BytesMut)
    ensures
        buffer_bytes(*final(buffer)) == Seq::<u8>::empty(),
;

/// `BytesMut::freeze` turns the buffer into a `Bytes` over the same bytes.
pub assume_specification[ BytesMut::freeze ](buffer: BytesMut) -> (bytes: Bytes)
    ensures
        frozen_bytes(bytes) == buffer_bytes(buffer),
;

/// `BytesMut::clone` builds a new buffer from a copy of the bytes held.
pub assume_specification[ <BytesMut as Clone>::clone ](buffer: &BytesMut) -> (copy: BytesMut)
    ensures
        buffer_bytes(copy) == buffer_bytes(*buffer),
;

/// `Bytes::len` is the number of bytes held.
pub assume_specification[ Bytes::len ](bytes: &Bytes) -> (len: usize)
    ensures
        len == frozen_bytes(*bytes).len(),
;

/// `Bytes::as_ref` is the slice of the bytes held.
pub assume_specification<'a>[ <Bytes as AsRef<[u8]>>::as_ref ](bytes: &'a Bytes) -> (slice: &'a [u8])
    ensures
        slice@ == frozen_bytes(*bytes),
;

} // verus!
