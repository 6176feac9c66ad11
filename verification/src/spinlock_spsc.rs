//! The two endpoints of the channel.
//!
//! A channel is a ring of slots, a write position published by the producer
//! and a read position published by the consumer.  One slot always stays
//! unused, so that equal positions mean "empty" and never "full".  Each
//! endpoint keeps a private [`Cursor`]: its own position, and the peer's
//! position as it last saw it.  Shared memory is read only when that
//! remembered position says the endpoint would have to wait.
//!
//! The endpoints never wait themselves.  [`Sender::try_send`] and
//! [`Receiver::try_recv`] do one round of the protocol and report whether
//! the caller should come back; a caller that wants to block calls them in
//! a loop.

use vstd::prelude::*;
use std::sync::atomic::AtomicUsize;
use std::sync::Arc;
use crate::cursor::Cursor;
use crate::index::max_capacity;
use crate::index::round_up;
use crate::index::rounded;
use crate::shared::acquire_fence;
use crate::shared::holders;
use crate::shared::load_acquire;
use crate::shared::load_relaxed;
use crate::shared::store_release;
use crate::shared::Memory;
use crate::shared::Slot;

verus! {

/// Why a value could not be sent.  The value comes back in either case.
#[derive(Debug, PartialEq, Eq)]
pub enum TrySendError<T> {
    /// Every usable slot holds a value the consumer has not taken yet.
    Full(T),
    /// Every usable slot is taken and the consumer is gone: the value can
    /// never be delivered.
    Disconnected(T),
}

/// Why no value could be received.
#[derive(Clone, Copy, Debug, PartialEq, Eq)]
pub enum TryRecvError {
    /// Nothing is buffered at the moment.
    Empty,
    /// Nothing is buffered and the producer is gone: the stream has ended.
    Disconnected,
}

/// Why no channel could be created.
#[derive(Clone, Copy, Debug, PartialEq, Eq)]
pub enum CapacityError {
    /// A channel needs at least one slot.
    Zero,
    /// The capacity cannot be rounded up to a power of two that fits the
    /// machine word.
    TooLarge,
}

/// The producing endpoint.
#[verifier::reject_recursive_types(T)]
pub struct Sender<T> {
    cursor: Cursor,
    alone: bool,
    memory: Memory<T>,
}

/// The consuming endpoint.
#[verifier::reject_recursive_types(T)]
pub struct Receiver<T> {
    cursor: Cursor,
    alone: bool,
    memory: Memory<T>,
}

/// Whether the other endpoint has let go of the position it shares.
fn peer_gone(handle: &Arc<AtomicUsize>) -> bool {
    is_alone(holders(handle))
}

/// Whether a count of handles to a shared position says that the peer is
/// gone.  Each endpoint holds one handle to every shared position from
/// the start, so a count below two leaves only the asker's own.
pub fn is_alone(count: usize) -> (gone: bool)
    ensures
        gone == (count < 2),
{
    count < 2
}

/// The error for a value that found no room: the value waits while the
/// consumer lives, and is undeliverable once the consumer is gone.
pub open spec fn refused<T>(val: T, alone: bool) -> TrySendError<T> {
    if alone {
        TrySendError::Disconnected(val)
    } else {
        TrySendError::Full(val)
    }
}

/// The error for a receive that found nothing: more may come while the
/// producer lives, and the stream has ended once the producer is gone.
pub open spec fn starved(alone: bool) -> TryRecvError {
    if alone {
        TryRecvError::Disconnected
    } else {
        TryRecvError::Empty
    }
}

/// Says why `val` could not be sent, given whether the producer found
/// itself alone after its last look at the ring.
pub fn refusal<T>(val: T, alone: bool) -> (err: TrySendError<T>)
    ensures
        err == refused(val, alone),
{
    if alone {
        TrySendError::Disconnected(val)
    } else {
        TrySendError::Full(val)
    }
}

/// Says why nothing could be received, given whether the consumer found
/// itself alone after its last look at the ring.
pub fn starvation(alone: bool) -> (err: TryRecvError)
    ensures
        err == starved(alone),
{
    if alone {
        TryRecvError::Disconnected
    } else {
        TryRecvError::Empty
    }
}

impl<T> Sender<T> {
    #[verifier::type_invariant]
    spec fn inv(&self) -> bool {
        self.cursor.wf() && self.memory.slots@.len() == self.cursor.mask + 1
    }

    /// The producer's private view: `offset` is the slot the next value goes
    /// to, `peer` the read position as last seen.
    pub closed spec fn cursor(&self) -> Cursor {
        self.cursor
    }

    /// The memory this endpoint works on.
    pub closed spec fn memory(&self) -> Memory<T> {
        self.memory
    }

    /// Whether the consumer was gone when the producer last asked.
    pub closed spec fn alone(&self) -> bool {
        self.alone
    }

    /// Sends `val` if a slot is free, without waiting.
    ///
    /// When the remembered read position already shows a free slot, the
    /// value is stored and published and shared memory is not read at all.
    /// Otherwise the read position is loaded afresh, and if that shows no
    /// room either, the producer asks whether the consumer is still there.
    /// A consumer that lives may yet make room: the value comes back as
    /// `Full`.  A consumer that is gone may have made room just before it
    /// left, so the producer looks once more; if there is still none, the
    /// value comes back as `Disconnected`.  What was seen is left in
    /// `cursor().peer` and `alone()`.
    pub fn try_send(&mut self, val: T) -> (res: Result<(), TrySendError<T>>)
        ensures
            final(self).cursor().wf(),
            final(self).memory() == old(self).memory(),
            !old(self).cursor().sees_full() ==> {
                &&& res is Ok
                &&& final(self).cursor().peer == old(self).cursor().peer
                &&& final(self).alone() == old(self).alone()
            },
            match res {
                Ok(_) => old(self).cursor().sends(final(self).cursor()),
                Err(err) => {
                    &&& old(self).cursor().blocks(final(self).cursor())
                    &&& err == refused(val, final(self).alone())
                },
            },
    {
        proof {
            use_type_invariant(&*self);
        }
        let mut cursor = self.cursor;
        if cursor.is_full() {
            cursor.observe(load_relaxed(&self.memory.read));
            if cursor.is_full() {
                let alone: bool = peer_gone(&self.memory.read);
                if alone {
                    // The consumer may have drained a slot just before it left.
                    acquire_fence();
                    cursor.observe(load_acquire(&self.memory.read));
                }
                self.alone = alone;
                if cursor.is_full() {
                    self.cursor = cursor;
                    return Err(refusal(val, alone));
                }
            }
        }
        let _ = self.memory.slots[cursor.offset].exchange(Some(val));
        let published: usize = cursor.advance();
        self.cursor = cursor;
        store_release(&self.memory.write, published);
        Ok(())
    }
}

impl<T> Receiver<T> {
    #[verifier::type_invariant]
    spec fn inv(&self) -> bool {
        self.cursor.wf() && self.memory.slots@.len() == self.cursor.mask + 1
    }

    /// The consumer's private view: `offset` is the slot the next value
    /// comes from, `peer` the write position as last seen.
    pub closed spec fn cursor(&self) -> Cursor {
        self.cursor
    }

    /// The memory this endpoint works on.
    pub closed spec fn memory(&self) -> Memory<T> {
        self.memory
    }

    /// Whether the producer was gone when the consumer last asked.
    pub closed spec fn alone(&self) -> bool {
        self.alone
    }

    /// Receives the oldest buffered value if there is one, without waiting.
    ///
    /// The write position is loaded afresh only when the remembered one
    /// shows nothing to take.  If that shows nothing either, the consumer
    /// asks whether the producer is still there.  A producer that lives may
    /// yet send: the answer is `Empty`.  A producer that is gone may have
    /// published a value just before it left, so the consumer looks once
    /// more; if there is still nothing, the answer is `Disconnected`, and
    /// it is final.
    ///
    /// A slot that holds nothing although the view showed a value is
    /// treated as nothing to take: the view is dropped, the consumer asks
    /// after the producer, and the answer is `Empty` or `Disconnected` as
    /// above.  What was seen is left in `cursor().peer` and `alone()`.
    pub fn try_recv(&mut self) -> (res: Result<T, TryRecvError>)
        ensures
            final(self).cursor().wf(),
            final(self).memory() == old(self).memory(),
            !old(self).cursor().sees_empty() && res is Ok ==> {
                &&& final(self).cursor().peer == old(self).cursor().peer
                &&& final(self).alone() == old(self).alone()
            },
            match res {
                Ok(_) => old(self).cursor().receives(final(self).cursor()),
                Err(err) => {
                    &&& old(self).cursor().starves(final(self).cursor())
                    &&& err == starved(final(self).alone())
                },
            },
    {
        proof {
            use_type_invariant(&*self);
        }
        let mut cursor = self.cursor;
        if cursor.is_empty() {
            cursor.observe(load_relaxed(&self.memory.write));
            if cursor.is_empty() {
                let alone: bool = peer_gone(&self.memory.write);
                if alone {
                    // The producer may have published a value just before it left.
                    acquire_fence();
                    cursor.observe(load_acquire(&self.memory.write));
                }
                self.alone = alone;
                if cursor.is_empty() {
                    self.cursor = cursor;
                    return Err(starvation(alone));
                }
            }
        }
        let found = self.memory.slots[cursor.offset].exchange(None);
        match cursor.settle(found) {
            Some((val, published)) => {
                self.cursor = cursor;
                store_release(&self.memory.read, published);
                Ok(val)
            },
            None => {
                let alone: bool = peer_gone(&self.memory.write);
                self.cursor = cursor;
                self.alone = alone;
                Err(starvation(alone))
            },
        }
    }
}

/// What [`bounded`] hands out for a capacity: two endpoints on the same
/// memory, with as many slots as the capacity rounded up to a power of two,
/// both starting at position zero and neither having seen the other gone.
pub open spec fn connected<T>(ends: (Sender<T>, Receiver<T>), capacity: usize) -> bool {
    &&& ends.0.cursor() == Cursor::start((rounded(capacity as nat) - 1) as usize)
    &&& ends.1.cursor() == Cursor::start((rounded(capacity as nat) - 1) as usize)
    &&& ends.0.cursor().wf()
    &&& ends.0.memory() == ends.1.memory()
    &&& ends.0.memory().slots@.len() == rounded(capacity as nat)
    &&& !ends.0.alone()
    &&& !ends.1.alone()
}

/// Creates a channel with room for `capacity` slots, rounded up to a power
/// of two.  One slot stays unused, so the channel buffers one value less
/// than the rounded number.
pub fn bounded<T>(capacity: usize) -> (ends: (Sender<T>, Receiver<T>))
    requires
        0 < capacity <= max_capacity(),
    ensures
        connected(ends, capacity),
{
    let count: usize = round_up(capacity);
    let mask: usize = count - 1;
    let mut slots: Vec<Slot<T>> = Vec::with_capacity(count);
    while slots.len() < count
        invariant
            slots@.len() <= count,
        decreases count - slots@.len(),
    {
        slots.push(Slot::vacant());
    }
    let memory = Memory {
        slots: Arc::new(slots),
        write: Arc::new(AtomicUsize::new(0)),
        read: Arc::new(AtomicUsize::new(0)),
    };
    let sender = Sender { cursor: Cursor::new(mask), alone: false, memory: memory.share() };
    let receiver = Receiver { cursor: Cursor::new(mask), alone: false, memory };
    (sender, receiver)
}

/// Creates a channel as [`bounded`] does, or says why the capacity will
/// not do.
pub fn try_bounded<T>(capacity: usize) -> (res: Result<(Sender<T>, Receiver<T>), CapacityError>)
    ensures
        match res {
            Ok(ends) => 0 < capacity <= max_capacity() && connected(ends, capacity),
            Err(CapacityError::Zero) => capacity == 0,
            Err(CapacityError::TooLarge) => capacity > max_capacity(),
        },
{
    if capacity == 0 {
        Err(CapacityError::Zero)
    } else if capacity > usize::MAX / 2 + 1 {
        Err(CapacityError::TooLarge)
    } else {
        Ok(bounded(capacity))
    }
}

} // verus!
