//! The memory the two endpoints share: the slots and the published positions.
//!
//! Nothing here is decided; these are the reads and writes that the
//! endpoints issue once they have decided.  What a read returns depends on
//! what the other thread has done, so none of these functions promises
//! anything about its result.

use vstd::prelude::*;
use std::sync::atomic::fence;
use std::sync::atomic::AtomicUsize;
use std::sync::atomic::Ordering;
use std::sync::Arc;
use std::sync::Mutex;

verus! {

/// `std::sync::Mutex`, carried through as an opaque value.
#[verifier::external_type_specification]
#[verifier::external_body]
#[verifier::reject_recursive_types(T)]
pub struct ExMutex<T: ?Sized>(Mutex<T>);

/// One place on the ring, holding a value or nothing.
///
/// The positions published by the endpoints decide who may touch a slot, so
/// its lock is never contended; it is there to hand the value from one
/// thread to the other with the necessary ordering.
#[verifier::reject_recursive_types(T)]
pub struct Slot<T> {
    cell: Mutex<Option<T>>,
}

impl<T> Slot<T> {
    /// Calls `Mutex::new` on `None`.  Nothing is claimed of the result.
    #[verifier::external_body]
    pub(crate) fn vacant() -> (slot: Slot<T>) {
        Slot { cell: Mutex::new(None) }
    }

    /// Calls `Mutex::lock` and, through the guard, swaps `content` for what
    /// the slot held (`std::mem::replace`), whether or not an earlier holder
    /// of the lock panicked.  Nothing is claimed of the result: it is
    /// whatever the other thread left there.
    #[verifier::external_body]
    pub(crate) fn exchange(&self, content: Option<T>) -> (previous: Option<T>) {
        let mut guard = match self.cell.lock() {
            Ok(guard) => guard,
            Err(poisoned) => poisoned.into_inner(),
        };
        std::mem::replace(&mut *guard, content)
    }
}

/// The memory a pair of endpoints shares.  Each endpoint holds its own
/// handles to it, and the memory is freed when the last handle goes.
#[verifier::reject_recursive_types(T)]
pub struct Memory<T> {
    /// The ring of slots.
    pub slots: Arc<Vec<Slot<T>>>,
    /// The position of the next slot to be filled, published by the producer.
    pub write: Arc<AtomicUsize>,
    /// The position of the next slot to be drained, published by the consumer.
    pub read: Arc<AtomicUsize>,
}

impl<T> Memory<T> {
    /// Another set of handles to the same memory.
    pub(crate) fn share(&self) -> (other: Memory<T>)
        ensures
            other == *self,
    {
        Memory { slots: self.slots.clone(), write: self.write.clone(), read: self.read.clone() }
    }
}

/// Calls `Arc::strong_count`: how many handles to the position exist at the
/// moment.  Nothing is claimed of the result.
#[verifier::external_body]
pub(crate) fn holders(handle: &Arc<AtomicUsize>) -> (count: usize) {
    Arc::strong_count(handle)
}

/// Calls `std::sync::atomic::fence` with acquire ordering, so that whatever
/// the peer wrote before it let go of its handles is visible afterwards.
#[verifier::external_body]
pub(crate) fn acquire_fence() {
    fence(Ordering::Acquire)
}

/// Reads a published position without ordering anything around the read.
pub(crate) fn load_relaxed(position: &AtomicUsize) -> usize {
    position.load(Ordering::Relaxed)
}

/// Reads a published position; later reads are ordered after it.
pub(crate) fn load_acquire(position: &AtomicUsize) -> usize {
    position.load(Ordering::Acquire)
}

/// Publishes a position; earlier writes are ordered before it.
pub(crate) fn store_release(position: &AtomicUsize, value: usize) {
    position.store(value, Ordering::Release)
}

} // verus!
