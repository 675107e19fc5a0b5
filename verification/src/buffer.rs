//! Reusable event buffers.
//!
//! A drain task owns a small pool of byte buffers, made once and filled anew
//! on every wake-up, so that no event costs an allocation. The buffers are
//! `bytes::BytesMut`; what this library relies on of that type is stated
//! here and nowhere else.

use vstd::prelude::*;
use bytes::BytesMut;

verus! {

/// Number of buffers in a drain task's pool, and so the most records one
/// wake-up can hand over.
pub const POOL_SIZE: usize = 10;

/// Capacity each buffer of the pool is made with.
pub const BUFFER_CAPACITY: usize = 1024;

/// `bytes::BytesMut`, carried through verified code as an opaque value.
#[verifier::external_type_specification]
#[verifier::external_body]
pub struct ExBytesMut(BytesMut);

/// The bytes a buffer holds, first to last: what `BytesMut` exposes as its
/// slice.
pub uninterp spec fn buffer_bytes(buffer: BytesMut) -> Seq<u8>;

/// `BytesMut::with_capacity`: the new buffer holds no bytes. The call rests
/// on `Vec::with_capacity`, which refuses more than `isize::MAX` bytes.
pub assume_specification[ BytesMut::with_capacity ](capacity: usize) -> (buffer: BytesMut)
    requires
        capacity <= isize::MAX,
    ensures
        buffer_bytes(buffer) == Seq::<u8>::empty(),
;

/// `BytesMut::clear`: afterwards the buffer holds no bytes.
pub assume_specification[ BytesMut::clear ](buffer: &mut BytesMut)
    ensures
        buffer_bytes(*final(buffer)) == Seq::<u8>::empty(),
;

/// `BytesMut::extend_from_slice`: the given bytes are appended to those the
/// buffer held. The call grows the buffer where it must, which fails once
/// the total would exceed `isize::MAX`.
pub assume_specification[ BytesMut::extend_from_slice ](buffer: &mut BytesMut, extend: &[u8])
    requires
        buffer_bytes(*old(buffer)).len() + extend@.len() <= isize::MAX,
    ensures
        buffer_bytes(*final(buffer)) == buffer_bytes(*old(buffer)) + extend@,
;

/// `AsRef<[u8]>::as_ref` on a `BytesMut`: the slice of the bytes it holds.
pub assume_specification<'a>[ <BytesMut as AsRef<[u8]>>::as_ref ](buffer: &'a BytesMut) -> (bytes: &'a [u8])
    ensures
        bytes@ == buffer_bytes(*buffer),
;

/// Makes the pool of a drain task: `POOL_SIZE` empty buffers of
/// `BUFFER_CAPACITY` bytes each.
pub fn new_buffer_pool() -> (pool: Vec<BytesMut>)
    ensures
        pool@.len() == POOL_SIZE,
        forall|i: int| 0 <= i < pool@.len() ==> buffer_bytes(#[trigger] pool@[i]) == Seq::<u8>::empty(),
{
    let mut pool: Vec<BytesMut> = Vec::with_capacity(POOL_SIZE);
    while pool.len() < POOL_SIZE
        invariant
            pool@.len() <= POOL_SIZE,
            forall|i: int| 0 <= i < pool@.len() ==> buffer_bytes(#[trigger] pool@[i]) == Seq::<u8>::empty(),
        decreases POOL_SIZE - pool@.len(),
    {
        pool.push(BytesMut::with_capacity(BUFFER_CAPACITY));
    }
    pool
}

} // verus!
