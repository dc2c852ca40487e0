//! Fixed-capacity byte buffers.
//!
//! The parser stages at most one status byte and two data bytes, and a
//! finished message carries at most three bytes. All three buffers are
//! `heapless::Vec<u8, N>`, whose code is not verified here: this module
//! declares the type, names what a buffer of each capacity holds, and states
//! what the few `heapless` operations used by the parser do to those contents.
//! Everything else in the crate is proved against these statements.

use vstd::prelude::*;

verus! {

/// `heapless::Vec`, a vector with inline storage for at most `N` items.
/// Its fields are not looked into.
#[verifier::external_type_specification]
#[verifier::external_body]
#[verifier::reject_recursive_types(T)]
pub struct ExHeaplessVec<T, const N: usize>(heapless::Vec<T, N>);

/// The bytes held by a one-byte status buffer, oldest first.
pub uninterp spec fn status_bytes(v: heapless::Vec<u8, 1>) -> Seq<u8>;

/// The bytes held by a two-byte data buffer, oldest first.
pub uninterp spec fn data_bytes(v: heapless::Vec<u8, 2>) -> Seq<u8>;

/// The bytes held by a three-byte message buffer, oldest first.
pub uninterp spec fn message_bytes(v: heapless::Vec<u8, 3>) -> Seq<u8>;

/// `heapless::Vec::new` at capacity 1: the new buffer holds nothing.
#[verifier::external_body]
pub(crate) fn status_new() -> (v: heapless::Vec<u8, 1>)
    ensures
        status_bytes(v) == Seq::<u8>::empty(),
{
    heapless::Vec::new()
}

/// `heapless::Vec::push` at capacity 1: an empty buffer takes the byte; a
/// full one is left as it was and the byte is handed back.
#[verifier::external_body]
pub(crate) fn status_push(v: &mut heapless::Vec<u8, 1>, byte: u8) -> (r: Result<(), u8>)
    ensures
        status_bytes(*old(v)).len() < 1 ==> r is Ok && status_bytes(*final(v)) == status_bytes(
            *old(v),
        ).push(byte),
        status_bytes(*old(v)).len() >= 1 ==> r is Err && r->Err_0 == byte && status_bytes(
            *final(v),
        ) == status_bytes(*old(v)),
{
    v.push(byte)
}

/// `heapless::Vec::as_slice` at capacity 1: the slice is the contents, which
/// never exceed the capacity.
#[verifier::external_body]
pub(crate) fn status_slice(v: &heapless::Vec<u8, 1>) -> (s: &[u8])
    ensures
        s@ == status_bytes(*v),
        s@.len() <= 1,
{
    v.as_slice()
}

/// `heapless::Vec::new` at capacity 2: the new buffer holds nothing.
#[verifier::external_body]
pub(crate) fn data_new() -> (v: heapless::Vec<u8, 2>)
    ensures
        data_bytes(v) == Seq::<u8>::empty(),
{
    heapless::Vec::new()
}

/// `heapless::Vec::push` at capacity 2: a buffer with room takes the byte at
/// its end; a full one is left as it was and the byte is handed back.
#[verifier::external_body]
pub(crate) fn data_push(v: &mut heapless::Vec<u8, 2>, byte: u8) -> (r: Result<(), u8>)
    ensures
        data_bytes(*old(v)).len() < 2 ==> r is Ok && data_bytes(*final(v)) == data_bytes(
            *old(v),
        ).push(byte),
        data_bytes(*old(v)).len() >= 2 ==> r is Err && r->Err_0 == byte && data_bytes(*final(v))
            == data_bytes(*old(v)),
{
    v.push(byte)
}

/// `heapless::Vec::as_slice` at capacity 2: the slice is the contents, which
/// never exceed the capacity.
#[verifier::external_body]
pub(crate) fn data_slice(v: &heapless::Vec<u8, 2>) -> (s: &[u8])
    ensures
        s@ == data_bytes(*v),
        s@.len() <= 2,
{
    v.as_slice()
}

/// `heapless::Vec::from_slice` at capacity 3: a slice that fits is copied
/// into a new buffer; a longer one is refused.
#[verifier::external_body]
pub(crate) fn message_from_slice(bytes: &[u8]) -> (r: Result<heapless::Vec<u8, 3>, ()>)
    ensures
        bytes@.len() <= 3 ==> r is Ok && message_bytes(r->Ok_0) == bytes@,
        bytes@.len() > 3 ==> r is Err,
{
    heapless::Vec::from_slice(bytes)
}

/// `heapless::Vec::extend_from_slice` at capacity 3: if the slice fits in the
/// room that is left it is appended in order; otherwise nothing changes and
/// the call fails.
#[verifier::external_body]
pub(crate) fn message_extend(v: &mut heapless::Vec<u8, 3>, bytes: &[u8]) -> (r: Result<(), ()>)
    ensures
        message_bytes(*old(v)).len() + bytes@.len() <= 3 ==> r is Ok && message_bytes(*final(v))
            == message_bytes(*old(v)) + bytes@,
        message_bytes(*old(v)).len() + bytes@.len() > 3 ==> r is Err && message_bytes(*final(v))
            == message_bytes(*old(v)),
{
    v.extend_from_slice(bytes)
}

/// `heapless::Vec::as_slice` at capacity 3: the slice is the contents, which
/// never exceed the capacity.
#[verifier::external_body]
pub(crate) fn message_slice(v: &heapless::Vec<u8, 3>) -> (s: &[u8])
    ensures
        s@ == message_bytes(*v),
        s@.len() <= 3,
{
    v.as_slice()
}

} // verus!
