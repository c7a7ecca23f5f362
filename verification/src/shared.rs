//! The shared, reference-counted handle behind every view.
//!
//! The buffer lives in an `Arc<Vec<T>>`. What the verifier is told about
//! `Arc` here is taken on trust from the documentation of the standard
//! library; each function says what it assumes.

use std::sync::Arc;
use vstd::prelude::*;

verus! {

/// The address of the allocation behind `buf`, from `Arc::as_ptr`.
///
/// Nothing is assumed about the number that comes back: where the
/// allocator puts a buffer is not for this library to know.
#[verifier::external_body]
pub(crate) fn address_of<T>(buf: &Arc<Vec<T>>) -> (address: usize) {
    Arc::as_ptr(buf) as usize
}

/// Mutable access to the buffer through `Arc::get_mut`, as a slice.
///
/// `Arc::get_mut` hands out the contents only while no other handle to the
/// allocation exists, and `None` otherwise. Assumed: the slice starts out
/// as the buffer, the buffer ends up as the slice does, a refusal leaves the
/// buffer alone, and, a slice being unable to grow or shrink, the length
/// of the buffer stays what it was.
#[verifier::external_body]
pub(crate) fn unique_slice<T>(buf: &mut Arc<Vec<T>>) -> (slice: Option<&mut [T]>)
    ensures
        final(buf)@.len() == old(buf)@.len(),
        match slice {
            Some(s) => s@ == old(buf)@ && final(buf)@ == final(s)@,
            None => *final(buf) == *old(buf),
        },
    no_unwind
{
    match Arc::get_mut(buf) {
        Some(vec) => Some(vec),
        None => None,
    }
}

/// Takes the buffer back out of its handle with `Arc::try_unwrap`.
///
/// `Arc::try_unwrap` gives the inner value if this handle is the only
/// strong one, and the same handle back if it is not. Assumed: either
/// way what comes back holds what went in. Which of the two happens
/// depends on how many handles are alive, which no value here records.
#[verifier::external_body]
pub(crate) fn reclaim<T>(buf: Arc<Vec<T>>) -> (outcome: Result<Vec<T>, Arc<Vec<T>>>)
    ensures
        match outcome {
            Ok(vec) => vec == *buf,
            Err(handle) => handle == buf,
        },
{
    Arc::try_unwrap(buf)
}

} // verus!
