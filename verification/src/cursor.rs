//! What one endpoint of the channel knows without touching shared memory.
//!
//! Each endpoint owns one position on the ring and remembers the last
//! position at which it saw its peer.  The producer's own position is the
//! next slot to fill; the consumer's is the next slot to drain.  Whether an
//! endpoint may go ahead is decided from these two numbers alone; shared
//! memory is consulted only to refresh the remembered peer position.

use vstd::prelude::*;
use crate::index::is_mask;
use crate::index::next_index;
use crate::index::successor;

verus! {

/// An endpoint's private view of the ring.
#[derive(Clone, Copy, Debug, PartialEq, Eq, Structural)]
pub struct Cursor {
    /// Number of slots minus one.
    pub mask: usize,
    /// The endpoint's own position.
    pub offset: usize,
    /// The peer's position when it was last observed.
    pub peer: usize,
}

impl Cursor {
    /// The ring has a power-of-two number of slots and the endpoint's own
    /// position lies on it.  Nothing is asked of the remembered peer position.
    pub open spec fn wf(self) -> bool {
        is_mask(self.mask) && self.offset <= self.mask
    }

    /// The view both endpoints start from.
    pub open spec fn start(mask: usize) -> Cursor {
        Cursor { mask, offset: 0, peer: 0 }
    }

    /// The position after the endpoint's own.
    pub open spec fn successor(self) -> usize {
        successor(self.offset, self.mask)
    }

    /// To a producer with this view the ring looks full: one more value would
    /// close the gap that tells a full ring from an empty one.
    pub open spec fn sees_full(self) -> bool {
        self.successor() == self.peer
    }

    /// To a consumer with this view the ring looks empty.
    pub open spec fn sees_empty(self) -> bool {
        self.offset == self.peer
    }

    /// The view after the peer has been observed at `seen`.
    pub open spec fn observing(self, seen: usize) -> Cursor {
        Cursor { peer: seen, ..self }
    }

    /// The view after the endpoint has moved one slot on.
    pub open spec fn advanced(self) -> Cursor {
        Cursor { offset: self.successor(), ..self }
    }

    /// `next` is this view after a look, at most, at the peer's position:
    /// the endpoint itself has not moved.
    pub open spec fn stays(self, next: Cursor) -> bool {
        next == self.observing(next.peer)
    }

    /// `next` is this view after the endpoint has gone ahead by one slot,
    /// having looked, at most, at the peer's position before.
    pub open spec fn moves(self, next: Cursor) -> bool {
        next == self.observing(next.peer).advanced()
    }

    /// A producer with this view stored a value and came out with `next`:
    /// what it last saw of the consumer showed room.
    pub open spec fn sends(self, next: Cursor) -> bool {
        self.moves(next) && !self.observing(next.peer).sees_full()
    }

    /// A producer with this view could not store and came out with `next`:
    /// what it last saw of the consumer showed no room.
    pub open spec fn blocks(self, next: Cursor) -> bool {
        self.stays(next) && next.sees_full()
    }

    /// A consumer with this view went for a value and came out past it with
    /// `next`: what it last saw of the producer showed one.
    pub open spec fn receives(self, next: Cursor) -> bool {
        self.moves(next) && !self.observing(next.peer).sees_empty()
    }

    /// A consumer with this view found nothing and came out with `next`:
    /// what it last saw of the producer showed nothing buffered.
    pub open spec fn starves(self, next: Cursor) -> bool {
        self.stays(next) && next.sees_empty()
    }

    /// The starting view on a ring with the given mask.
    pub fn new(mask: usize) -> (cursor: Cursor)
        requires
            is_mask(mask),
        ensures
            cursor == Cursor::start(mask),
            cursor.wf(),
    {
        Cursor { mask, offset: 0, peer: 0 }
    }

    /// Whether a producer with this view must wait.
    pub fn is_full(&self) -> (full: bool)
        requires
            self.wf(),
        ensures
            full == self.sees_full(),
    {
        next_index(self.offset, self.mask) == self.peer
    }

    /// Whether a consumer with this view must wait.
    pub fn is_empty(&self) -> (empty: bool)
        ensures
            empty == self.sees_empty(),
    {
        self.offset == self.peer
    }

    /// Records a fresh observation of the peer's position.
    pub fn observe(&mut self, seen: usize)
        ensures
            *final(self) == old(self).observing(seen),
    {
        self.peer = seen;
    }

    /// A consumer with this view went for the slot at its own position and
    /// found `found` there.
    ///
    /// A value is handed on together with the position to publish, and the
    /// consumer moves past it.  An empty slot shows the view to be wrong:
    /// the consumer stays where it is and no longer trusts what it
    /// remembered of the producer's position, so that its next round looks
    /// at shared memory again.
    pub open spec fn settled<T>(self, found: Option<T>) -> (Cursor, Option<(T, usize)>) {
        match found {
            Some(value) => (self.advanced(), Some((value, self.successor()))),
            None => (self.observing(self.offset), None),
        }
    }

    /// Acts on what the slot at the consumer's position held: see
    /// [`Cursor::settled`].
    pub fn settle<T>(&mut self, found: Option<T>) -> (taken: Option<(T, usize)>)
        requires
            old(self).wf(),
        ensures
            final(self).wf(),
            (*final(self), taken) == old(self).settled(found),
            taken is None ==> final(self).sees_empty(),
    {
        match found {
            Some(value) => {
                let published: usize = self.advance();
                Some((value, published))
            },
            None => {
                self.observe(self.offset);
                None
            },
        }
    }

    /// Moves the endpoint one slot on and returns the position to publish.
    pub fn advance(&mut self) -> (published: usize)
        requires
            old(self).wf(),
        ensures
            *final(self) == old(self).advanced(),
            final(self).wf(),
            published == final(self).offset,
    {
        self.offset = next_index(self.offset, self.mask);
        self.offset
    }
}

} // verus!
