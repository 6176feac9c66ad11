//! The channel as a whole, in ghost code.
//!
//! The endpoints cannot see each other's state, and the verifier cannot see
//! what lies behind a lock or an atomic.  This module writes down what is
//! behind them: the slots, the two published positions, and the private
//! [`Cursor`] of each endpoint.  A [`Step`] is one access to that memory by
//! one endpoint.  The endpoints take a step only when their cursor allows
//! it, by the same tests the executable code makes, and steps of the two
//! endpoints may come in any order.
//!
//! An endpoint that reads its peer's position may see an old value, but
//! never one older than the one it saw before.  That is all the model
//! assumes of a load.

use vstd::prelude::*;
use crate::cursor::Cursor;
use crate::index::gap;
use crate::index::is_mask;
use crate::index::rounded;

verus! {

/// The state of a channel: shared memory, both private views, and a record
/// of what has gone in and come out.
pub struct Channel<T> {
    /// What each slot holds.
    pub slots: Seq<Option<T>>,
    /// The write position as published by the producer.
    pub write: usize,
    /// The read position as published by the consumer.
    pub read: usize,
    /// The producer's private view.
    pub producer: Cursor,
    /// The consumer's private view.
    pub consumer: Cursor,
    /// A value the producer has stored but not yet published.
    pub staged: Option<T>,
    /// A value the consumer has taken out of its slot but whose slot it has
    /// not yet released.
    pub taken: Option<T>,
    /// The producer has not been dropped.
    pub producer_alive: bool,
    /// The consumer has not been dropped.
    pub consumer_alive: bool,
    /// Every value published so far, oldest first.
    pub sent: Seq<T>,
    /// Every value handed to the consumer's caller so far, oldest first.
    pub received: Seq<T>,
}

/// One access to the channel by one endpoint.
pub enum Step<T> {
    /// The producer loads the read position and sees `seen`.
    ProducerObserve { seen: usize },
    /// The producer writes `value` into the slot at its own position.
    ProducerStore { value: T },
    /// The producer moves on and publishes its new position.
    ProducerPublish,
    /// The producer is dropped.
    ProducerDrop,
    /// The consumer loads the write position and sees `seen`.
    ConsumerObserve { seen: usize },
    /// The consumer empties the slot at its own position.
    ConsumerTake,
    /// The consumer moves on, publishes its new position and returns the
    /// value it took.
    ConsumerPublish,
    /// The consumer is dropped.
    ConsumerDrop,
}

impl<T> Channel<T> {
    /// A new channel on a ring with the given mask.
    pub open spec fn fresh(mask: usize) -> Channel<T> {
        Channel {
            slots: Seq::new((mask + 1) as nat, |i: int| None),
            write: 0,
            read: 0,
            producer: Cursor::start(mask),
            consumer: Cursor::start(mask),
            staged: None,
            taken: None,
            producer_alive: true,
            consumer_alive: true,
            sent: Seq::empty(),
            received: Seq::empty(),
        }
    }

    /// Number of slots minus one.
    pub open spec fn mask(self) -> usize {
        self.producer.mask
    }

    /// How many values are published and not yet released by the consumer.
    pub open spec fn buffered(self) -> int {
        gap(self.read, self.write, self.mask())
    }

    /// A load of the read position by the producer may return `seen`: a
    /// value the read position has had since the producer last looked.
    pub open spec fn producer_may_see(self, seen: usize) -> bool {
        &&& seen <= self.mask()
        &&& gap(self.producer.peer, seen, self.mask()) <= gap(
            self.producer.peer,
            self.read,
            self.mask(),
        )
    }

    /// A load of the write position by the consumer may return `seen`: a
    /// value the write position has had since the consumer last looked.
    pub open spec fn consumer_may_see(self, seen: usize) -> bool {
        &&& seen <= self.mask()
        &&& gap(self.consumer.peer, seen, self.mask()) <= gap(
            self.consumer.peer,
            self.write,
            self.mask(),
        )
    }

    /// Whether an endpoint can take `step` now.
    pub open spec fn enabled(self, step: Step<T>) -> bool {
        match step {
            Step::ProducerObserve { seen } => self.producer_alive && self.producer_may_see(seen),
            Step::ProducerStore { value } => {
                &&& self.producer_alive
                &&& self.staged is None
                &&& !self.producer.sees_full()
            },
            Step::ProducerPublish => self.staged is Some,
            Step::ProducerDrop => self.producer_alive && self.staged is None,
            Step::ConsumerObserve { seen } => self.consumer_alive && self.consumer_may_see(seen),
            Step::ConsumerTake => {
                &&& self.consumer_alive
                &&& self.taken is None
                &&& !self.consumer.sees_empty()
            },
            Step::ConsumerPublish => self.taken is Some,
            Step::ConsumerDrop => self.consumer_alive && self.taken is None,
        }
    }

    /// The state after `step`, which must be enabled.
    pub open spec fn after(self, step: Step<T>) -> Channel<T> {
        match step {
            Step::ProducerObserve { seen } => Channel {
                producer: self.producer.observing(seen),
                ..self
            },
            Step::ProducerStore { value } => Channel {
                slots: self.slots.update(self.write as int, Some(value)),
                staged: Some(value),
                ..self
            },
            Step::ProducerPublish => Channel {
                write: self.producer.successor(),
                producer: self.producer.advanced(),
                staged: None,
                sent: self.sent.push(self.staged->0),
                ..self
            },
            Step::ProducerDrop => Channel { producer_alive: false, ..self },
            Step::ConsumerObserve { seen } => Channel {
                consumer: self.consumer.observing(seen),
                ..self
            },
            Step::ConsumerTake => Channel {
                slots: self.slots.update(self.read as int, None),
                taken: self.slots[self.read as int],
                ..self
            },
            Step::ConsumerPublish => Channel {
                read: self.consumer.successor(),
                consumer: self.consumer.advanced(),
                taken: None,
                received: self.received.push(self.taken->0),
                ..self
            },
            Step::ConsumerDrop => Channel { consumer_alive: false, ..self },
        }
    }

    /// The state after `step` if it is enabled, the same state if it is not.
    pub open spec fn next(self, step: Step<T>) -> Channel<T> {
        if self.enabled(step) {
            self.after(step)
        } else {
            self
        }
    }

    /// The state after attempting `steps` in order.
    pub open spec fn run(self, steps: Seq<Step<T>>) -> Channel<T>
        decreases steps.len(),
    {
        if steps.len() == 0 {
            self
        } else {
            self.run(steps.drop_last()).next(steps.last())
        }
    }

    /// The channel that `bounded(capacity)` creates.
    pub open spec fn bounded(capacity: usize) -> Channel<T> {
        Channel::fresh((rounded(capacity as nat) - 1) as usize)
    }

    /// Neither endpoint is in the middle of a call.
    pub open spec fn idle(self) -> bool {
        self.staged is None && self.taken is None
    }

    /// One call of `try_send` while the consumer stands still: the producer
    /// looks at the read position if its own view shows no room, then
    /// stores and publishes if it may.
    pub open spec fn send(self, value: T) -> Channel<T> {
        let looked = if self.producer.sees_full() {
            self.next(Step::ProducerObserve { seen: self.read })
        } else {
            self
        };
        looked.next(Step::ProducerStore { value }).next(Step::ProducerPublish)
    }

    /// One call of `try_recv` while the producer stands still: the consumer
    /// looks at the write position if its own view shows nothing, then
    /// takes and returns the oldest value if there is one.
    pub open spec fn recv(self) -> Channel<T> {
        let looked = if self.consumer.sees_empty() {
            self.next(Step::ConsumerObserve { seen: self.write })
        } else {
            self
        };
        looked.next(Step::ConsumerTake).next(Step::ConsumerPublish)
    }

    /// `k` calls of `try_recv` in a row.
    pub open spec fn recv_times(self, k: nat) -> Channel<T>
        decreases k,
    {
        if k == 0 {
            self
        } else {
            self.recv_times((k - 1) as nat).recv()
        }
    }

    /// The consumer is told that the stream has ended: the producer is gone
    /// and a look at the write position shows nothing left to take.
    pub open spec fn ends_stream(self) -> bool {
        &&& !self.producer_alive
        &&& self.taken is None
        &&& self.consumer.observing(self.write).sees_empty()
    }

    /// The producer is told that the consumer has hung up on a full ring:
    /// the consumer is gone and a look at the read position shows no room.
    pub open spec fn refuses_send(self) -> bool {
        &&& !self.consumer_alive
        &&& self.staged is None
        &&& self.producer.observing(self.read).sees_full()
    }

    /// The values of `values` sent one after the other while the consumer
    /// stands still.
    pub open spec fn send_all(self, values: Seq<T>) -> Channel<T>
        decreases values.len(),
    {
        if values.len() == 0 {
            self
        } else {
            self.send_all(values.drop_last()).send(values.last())
        }
    }

    /// Each of `values` sent and then received before the next is sent.
    pub open spec fn relay(self, values: Seq<T>) -> Channel<T>
        decreases values.len(),
    {
        if values.len() == 0 {
            self
        } else {
            self.relay(values.drop_last()).send(values.last()).recv()
        }
    }

    /// One turn of a producer that still has `pending` to send: it tries
    /// to send the first of them and keeps it if there is no room; with
    /// nothing left to send it goes away.  The result is the channel and
    /// what is still to be sent.
    pub open spec fn producer_turn(self, pending: Seq<T>) -> (Channel<T>, Seq<T>) {
        if pending.len() > 0 {
            let tried = self.send(pending.first());
            if tried.sent.len() > self.sent.len() {
                (tried, pending.drop_first())
            } else {
                (tried, pending)
            }
        } else {
            (self.next(Step::ProducerDrop), pending)
        }
    }

    /// One turn of a consumer: it tries to receive.
    pub open spec fn consumer_turn(self) -> Channel<T> {
        self.recv()
    }

    /// How much is left to do before everything in `pending` has been sent
    /// and received and the producer has gone: two for each value still to
    /// be sent, one for each value buffered, one for the producer's going.
    pub open spec fn work_left(self, pending: Seq<T>) -> int {
        2 * pending.len() + (self.sent.len() - self.received.len()) + if self.producer_alive {
            1int
        } else {
            0int
        }
    }

    /// A producer with `pending` to send and a consumer, between calls, on
    /// a ring with at least one usable slot.
    pub open spec fn at_work(self, pending: Seq<T>) -> bool {
        &&& self.inv()
        &&& self.idle()
        &&& self.consumer_alive
        &&& self.mask() >= 1
        &&& pending.len() > 0 ==> self.producer_alive
    }

    /// `n` rounds, each a turn of the producer and then one of the consumer.
    pub open spec fn after_rounds(self, pending: Seq<T>, n: nat) -> (Channel<T>, Seq<T>)
        decreases n,
    {
        if n == 0 {
            (self, pending)
        } else {
            let (before, left) = self.after_rounds(pending, (n - 1) as nat);
            let (sent, rest) = before.producer_turn(left);
            (sent.consumer_turn(), rest)
        }
    }

    /// How many values the consumer could take without looking at shared
    /// memory again, plus how many more have been published since it looked.
    pub open spec fn in_flight(self) -> int {
        gap(self.read, self.consumer.peer, self.mask()) + gap(
            self.consumer.peer,
            self.write,
            self.mask(),
        )
    }

    /// The value that the consumer will return `k` receives from now.
    pub open spec fn pending(self, k: int) -> T {
        self.sent[self.received.len() + k]
    }

    /// Every published value that has not been returned yet sits in its
    /// slot, in order, starting at the read position.  The one exception is
    /// a value the consumer has just taken out and not yet returned.
    pub open spec fn intact(self) -> bool {
        forall|i: usize|
            i <= self.mask() && gap(self.read, i, self.mask()) < self.in_flight() ==> #[trigger] self.slots[i as int]
                == (if i == self.read && self.taken is Some {
                None
            } else {
                Some(self.pending(gap(self.read, i, self.mask())))
            })
    }

    /// What holds of every state a channel can reach.
    pub open spec fn inv(self) -> bool {
        let mask = self.mask();
        &&& is_mask(mask)
        &&& self.consumer.mask == mask
        &&& self.slots.len() == mask + 1
        &&& self.write <= mask
        &&& self.read <= mask
        &&& self.producer.peer <= mask
        &&& self.consumer.peer <= mask
        &&& self.producer.offset == self.write
        &&& self.consumer.offset == self.read
        &&& gap(self.producer.peer, self.read, mask) + self.in_flight() <= mask
        &&& self.sent.len() == self.received.len() + self.in_flight()
        &&& self.received =~= self.sent.subrange(0, self.received.len() as int)
        &&& self.intact()
        &&& (self.staged matches Some(value) ==> {
            &&& self.producer_alive
            &&& self.slots[self.write as int] == Some(value)
            &&& gap(self.producer.peer, self.read, mask) + self.in_flight() < mask
        })
        &&& (self.taken matches Some(value) ==> {
            &&& self.consumer_alive
            &&& self.read != self.consumer.peer
            &&& value == self.pending(0)
        })
    }
}

/// A new channel satisfies the invariant.
pub proof fn lemma_fresh_inv<T>(mask: usize)
    requires
        is_mask(mask),
    ensures
        Channel::<T>::fresh(mask).inv(),
{
}

/// While the consumer holds no value, the slot at the read position holds
/// the oldest pending value whenever the consumer's view shows one.
pub proof fn lemma_take_finds_value<T>(c: Channel<T>)
    requires
        c.inv(),
        c.taken is None,
        !c.consumer.sees_empty(),
    ensures
        c.slots[c.read as int] == Some(c.pending(0)),
{
    assert(gap(c.read, c.read, c.mask()) == 0);
}

/// Every enabled step keeps the invariant.
pub proof fn lemma_step_inv<T>(c: Channel<T>, step: Step<T>)
    requires
        c.inv(),
        c.enabled(step),
    ensures
        c.after(step).inv(),
{
    if step is ConsumerTake {
        lemma_take_finds_value(c);
    }
    assert(c.after(step).intact());
}

/// Attempting any steps from a state that satisfies the invariant leads to
/// one that satisfies it.
pub proof fn lemma_run_inv<T>(c: Channel<T>, steps: Seq<Step<T>>)
    requires
        c.inv(),
    ensures
        c.run(steps).inv(),
    decreases steps.len(),
{
    if steps.len() > 0 {
        lemma_run_inv(c, steps.drop_last());
        let before = c.run(steps.drop_last());
        if before.enabled(steps.last()) {
            lemma_step_inv(before, steps.last());
        }
    }
}

} // verus!
