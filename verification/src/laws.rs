//! What the channel guarantees, proved of the model in [`crate::model`].
//!
//! The first group of laws holds however the steps of the two endpoints
//! interleave.  The second group follows one endpoint through whole calls
//! while the other stands still, which is how a single-threaded caller sees
//! the channel.  The third lets the endpoints call in turns and shows that
//! the work gets done.  The fourth reads what `try_send` and `try_recv`
//! promise of their own view as steps of the model.

use vstd::prelude::*;
use crate::cursor::Cursor;
use crate::index::is_mask;
use crate::index::is_power_of_two;
use crate::index::lemma_gap_is_modular;
use crate::index::lemma_rounded_bounds;
use crate::index::lemma_rounded_is_least;
use crate::index::lemma_rounded_is_power_of_two;
use crate::index::max_capacity;
use crate::index::rounded;
use crate::model::lemma_fresh_inv;
use crate::model::lemma_run_inv;
use crate::model::lemma_step_inv;
use crate::model::lemma_take_finds_value;
use crate::model::Channel;
use crate::model::Step;
use crate::spinlock_spsc::refused;
use crate::spinlock_spsc::starved;
use crate::spinlock_spsc::TryRecvError;
use crate::spinlock_spsc::TrySendError;

verus! {

// Laws that hold however the steps of the two endpoints interleave.

/// Values come out in the order they went in.
///
/// Whatever the capacity and however the steps of the two endpoints
/// interleave, for however long, the values received so far are exactly the
/// first of the values sent so far.
pub proof fn law_fifo<T>(capacity: usize, steps: Seq<Step<T>>)
    requires
        0 < capacity <= max_capacity(),
    ensures
        ({
            let c = Channel::<T>::bounded(capacity).run(steps);
            &&& c.received.len() <= c.sent.len()
            &&& c.received == c.sent.subrange(0, c.received.len() as int)
        }),
{
    lemma_bounded_inv::<T>(capacity);
    lemma_run_inv(Channel::<T>::bounded(capacity), steps);
}

/// The ring never holds more than all but one of its slots, a full ring
/// stops the producer, and no buffered value is ever overwritten.
///
/// In every state the channel can reach: the values sent and not yet
/// received number at most the mask; each of them sits untouched in its
/// slot; and when they number exactly the mask, nothing the producer can
/// see of the read position lets it store another value.
pub proof fn law_capacity_bound<T>(capacity: usize, steps: Seq<Step<T>>)
    requires
        0 < capacity <= max_capacity(),
    ensures
        ({
            let c = Channel::<T>::bounded(capacity).run(steps);
            &&& c.sent.len() - c.received.len() <= c.mask()
            &&& c.mask() + 1 == rounded(capacity as nat)
            &&& c.intact()
            &&& c.sent.len() - c.received.len() == c.mask() ==> forall|seen: usize|
                c.producer_may_see(seen) ==> #[trigger] c.producer.observing(seen).sees_full()
        }),
{
    lemma_bounded_inv::<T>(capacity);
    let start = Channel::<T>::bounded(capacity);
    lemma_run_inv(start, steps);
    lemma_run_keeps_mask(start, steps);
}

/// The number of values sent and not yet received is the distance from the
/// read position to the write position, counted modulo the number of slots.
pub proof fn law_buffered_count<T>(capacity: usize, steps: Seq<Step<T>>)
    requires
        0 < capacity <= max_capacity(),
    ensures
        ({
            let c = Channel::<T>::bounded(capacity).run(steps);
            &&& c.sent.len() - c.received.len() == c.buffered()
            &&& c.buffered() == (c.write - c.read) % (c.mask() + 1)
        }),
{
    lemma_bounded_inv::<T>(capacity);
    let c = Channel::<T>::bounded(capacity).run(steps);
    lemma_run_inv(Channel::<T>::bounded(capacity), steps);
    lemma_gap_is_modular(c.read, c.write, c.mask());
}

/// The two endpoints never work on the same slot at the same time: while
/// the producer has a value stored but unpublished and the consumer has one
/// taken but unreleased, their positions differ.
pub proof fn law_slots_are_exclusive<T>(capacity: usize, steps: Seq<Step<T>>)
    requires
        0 < capacity <= max_capacity(),
    ensures
        ({
            let c = Channel::<T>::bounded(capacity).run(steps);
            c.staged is Some && c.taken is Some ==> c.write != c.read
        }),
{
    lemma_bounded_inv::<T>(capacity);
    lemma_run_inv(Channel::<T>::bounded(capacity), steps);
}

/// A producer that finds room has room, and one that looks at the read
/// position itself finds room whenever there is any.
pub proof fn law_room_is_seen<T>(c: Channel<T>)
    requires
        c.inv(),
        c.staged is None,
    ensures
        !c.producer.sees_full() ==> c.sent.len() - c.received.len() < c.mask(),
        c.producer.observing(c.read).sees_full() <==> c.sent.len() - c.received.len() == c.mask(),
        c.producer_may_see(c.read),
{
}

/// The end of the stream is reported only when every value sent has been
/// received.
pub proof fn law_no_loss<T>(c: Channel<T>)
    requires
        c.inv(),
        c.ends_stream(),
    ensures
        c.received == c.sent,
{
    assert(c.received =~= c.sent);
}

/// Once the producer is gone nothing is sent any more.
pub proof fn law_nothing_follows_a_drop<T>(c: Channel<T>, step: Step<T>)
    requires
        c.inv(),
        !c.producer_alive,
    ensures
        c.next(step).sent == c.sent,
        !c.next(step).producer_alive,
{
}

/// A send refused because the consumer is gone can never succeed later:
/// the ring is full and stays full whatever happens next.
pub proof fn law_hangup_is_final<T>(c: Channel<T>, step: Step<T>)
    requires
        c.inv(),
        c.refuses_send(),
    ensures
        c.sent.len() - c.received.len() == c.mask(),
        c.next(step).refuses_send(),
        c.next(step).sent == c.sent,
        c.next(step).received == c.received,
{
}

/// The endpoints never wait for each other: unless the ring has a single
/// slot, a ring that is full is not empty, so whenever the producer finds no
/// room at the read position as it stands, the consumer finds a value at
/// the write position as it stands.
pub proof fn law_no_deadlock<T>(c: Channel<T>)
    requires
        c.inv(),
        c.idle(),
        c.mask() >= 1,
    ensures
        c.producer.observing(c.read).sees_full() ==> !c.consumer.observing(c.write).sees_empty(),
        c.consumer.observing(c.write).sees_empty() ==> !c.producer.observing(c.read).sees_full(),
{
}

/// A ring of one slot has no usable slot: nothing is ever sent through it.
pub proof fn law_single_slot_buffers_nothing<T>(steps: Seq<Step<T>>)
    ensures
        Channel::<T>::bounded(1).run(steps).sent.len() == 0,
        Channel::<T>::bounded(1).run(steps).producer.sees_full(),
{
    lemma_single_slot_run::<T>(steps);
}

// Laws about whole calls by one endpoint while the other stands still.

/// A value sent into an empty channel is the value received next.
///
/// The channel must have room for one value, which takes at least two
/// slots, and must hold nothing, or an older value would come out first.
pub proof fn law_round_trip<T>(c: Channel<T>, value: T)
    requires
        c.inv(),
        c.idle(),
        c.producer_alive,
        c.consumer_alive,
        c.mask() >= 1,
        c.sent.len() == c.received.len(),
    ensures
        c.send(value).recv().received == c.received.push(value),
        c.send(value).recv().sent == c.send(value).recv().received,
{
    lemma_send_appends(c, value);
    lemma_recv_delivers(c.send(value));
}

/// Any number of values passed through one at a time arrive unchanged and
/// in order, however many times the positions wrap round the ring.
///
/// The ring needs a usable slot, which takes a capacity of at least two.
pub proof fn law_relay<T>(capacity: usize, values: Seq<T>)
    requires
        2 <= capacity <= max_capacity(),
    ensures
        Channel::<T>::bounded(capacity).relay(values).sent == values,
        Channel::<T>::bounded(capacity).relay(values).received == values,
{
    lemma_bounded_inv::<T>(capacity);
    lemma_rounded_bounds(capacity as nat);
    lemma_relay(Channel::<T>::bounded(capacity), values);
}

/// Values relayed one at a time all arrive, and once the producer is
/// dropped the next receive is told that the stream has ended.
pub proof fn law_relay_then_close<T>(capacity: usize, values: Seq<T>)
    requires
        2 <= capacity <= max_capacity(),
    ensures
        ({
            let closed = Channel::<T>::bounded(capacity).relay(values).next(Step::ProducerDrop);
            &&& closed.received == values
            &&& closed.ends_stream()
            &&& closed.recv().received == values
        }),
{
    let start = Channel::<T>::bounded(capacity);
    lemma_bounded_inv::<T>(capacity);
    lemma_rounded_bounds(capacity as nat);
    lemma_relay(start, values);
    let relayed = start.relay(values);
    assert(relayed.enabled(Step::ProducerDrop));
    lemma_step_inv(relayed, Step::ProducerDrop);
}

/// Of a producer and a consumer that both want to go on, one can: a send
/// or a receive gets through, whatever the state of the ring.
pub proof fn law_some_call_gets_through<T>(c: Channel<T>, val: T)
    requires
        c.inv(),
        c.idle(),
        c.producer_alive,
        c.consumer_alive,
        c.mask() >= 1,
    ensures
        c.send(val).sent == c.sent.push(val) || c.recv().received == c.received.push(
            c.sent[c.received.len() as int],
        ),
{
    if c.sent.len() - c.received.len() < c.mask() {
        lemma_send_appends(c, val);
    } else {
        lemma_recv_delivers(c);
    }
}

/// A send into a full ring changes nothing but what the producer remembers.
pub proof fn law_full_ring_refuses<T>(c: Channel<T>, value: T)
    requires
        c.inv(),
        c.staged is None,
        c.producer_alive,
        c.sent.len() - c.received.len() == c.mask(),
    ensures
        c.send(value).sent == c.sent,
        c.send(value).slots == c.slots,
        c.send(value).write == c.write,
        c.send(value).inv(),
{
    let look = Step::<T>::ProducerObserve { seen: c.read };
    if c.producer.sees_full() {
        assert(c.enabled(look));
        lemma_step_inv(c, look);
    }
}

/// After the producer is gone the consumer receives what is left, in order,
/// and then the end of the stream.
///
/// If `k` values were sent and not yet received when the producer was
/// dropped, then each of the next `k` receives returns the next of them,
/// none is told that the stream has ended, and the receive after them is.
pub proof fn law_disconnect_then_drain<T>(c: Channel<T>, k: nat)
    requires
        c.inv(),
        !c.producer_alive,
        c.consumer_alive,
        c.taken is None,
        k <= c.sent.len() - c.received.len(),
    ensures
        c.recv_times(k).inv(),
        c.recv_times(k).sent == c.sent,
        c.recv_times(k).received == c.sent.subrange(0, (c.received.len() + k) as int),
        c.recv_times(k).ends_stream() <==> k == c.sent.len() - c.received.len(),
    decreases k,
{
    if k == 0 {
        assert(c.received =~= c.sent.subrange(0, c.received.len() as int));
    } else {
        let before = c.recv_times((k - 1) as nat);
        law_disconnect_then_drain(c, (k - 1) as nat);
        lemma_recv_stays_drainable(c, (k - 1) as nat);
        lemma_recv_delivers(before);
        assert(before.received.push(c.sent[before.received.len() as int]) =~= c.sent.subrange(
            0,
            (c.received.len() + k) as int,
        ));
    }
}

/// A producer sends some values and is dropped; the consumer then receives
/// exactly those values, in order, and after them the end of the stream.
///
/// The values must fit the ring, since nothing is received while they are
/// sent.  Receive number `j` returns `values[j]`; the end of the stream is
/// reported after the last of them and not before.
pub proof fn law_sends_then_drain<T>(capacity: usize, values: Seq<T>, j: nat)
    requires
        0 < capacity <= max_capacity(),
        values.len() < rounded(capacity as nat),
        j <= values.len(),
    ensures
        ({
            let filled = Channel::<T>::bounded(capacity).send_all(values);
            let gone = filled.next(Step::ProducerDrop);
            &&& filled.sent == values
            &&& !gone.producer_alive
            &&& gone.recv_times(j).received == values.subrange(0, j as int)
            &&& gone.recv_times(j).ends_stream() <==> j == values.len()
            &&& gone.recv_times(values.len()).received == values
        }),
{
    let start = Channel::<T>::bounded(capacity);
    lemma_bounded_inv::<T>(capacity);
    lemma_send_all_appends(start, values);
    let filled = start.send_all(values);
    assert(filled.sent =~= values);
    assert(filled.enabled(Step::ProducerDrop));
    lemma_step_inv(filled, Step::ProducerDrop);
    let gone = filled.next(Step::ProducerDrop);
    law_disconnect_then_drain(gone, j);
    law_disconnect_then_drain(gone, values.len());
    assert(values.subrange(0, values.len() as int) =~= values);
}

/// A consumer whose producer was dropped before it sent anything is told at
/// once that the stream has ended.
pub proof fn law_immediate_close<T>(capacity: usize)
    requires
        0 < capacity <= max_capacity(),
    ensures
        Channel::<T>::bounded(capacity).enabled(Step::ProducerDrop),
        Channel::<T>::bounded(capacity).next(Step::ProducerDrop).ends_stream(),
        Channel::<T>::bounded(capacity).next(Step::ProducerDrop).consumer.sees_empty(),
{
    lemma_bounded_inv::<T>(capacity);
}

// Laws about turns: the two endpoints call in any order, one call at a
// time, until everything has been sent and received.

/// No turn loses, adds or reorders a value, and no turn adds to the work
/// that is left.
pub proof fn law_turns_keep_the_values<T>(c: Channel<T>, pending: Seq<T>)
    requires
        c.at_work(pending),
    ensures
        ({
            let (d, rest) = c.producer_turn(pending);
            &&& d.at_work(rest)
            &&& d.sent + rest == c.sent + pending
            &&& d.received == c.received
            &&& d.work_left(rest) <= c.work_left(pending)
        }),
        ({
            let d = c.consumer_turn();
            &&& d.at_work(pending)
            &&& d.sent == c.sent
            &&& c.received.len() <= d.received.len() <= c.received.len() + 1
            &&& d.received == c.sent.subrange(0, d.received.len() as int)
            &&& d.work_left(pending) <= c.work_left(pending)
        }),
{
    lemma_producer_turn(c, pending);
    lemma_consumer_turn(c, pending);
}

/// A turn of each endpoint, in either order, gets something done unless
/// everything is done.
///
/// So however the turns fall, as long as neither endpoint is kept from its
/// turn for ever, the work that is left reaches zero: no send waits for
/// ever on a consumer that keeps receiving, and no receive waits for ever
/// on a producer that keeps sending or goes away.
pub proof fn law_turns_make_progress<T>(c: Channel<T>, pending: Seq<T>)
    requires
        c.at_work(pending),
        c.work_left(pending) > 0,
    ensures
        ({
            let (d, rest) = c.producer_turn(pending);
            d.consumer_turn().work_left(rest) < c.work_left(pending)
        }),
        ({
            let (d, rest) = c.consumer_turn().producer_turn(pending);
            d.work_left(rest) < c.work_left(pending)
        }),
{
    lemma_producer_turn(c, pending);
    lemma_consumer_turn(c, pending);
    let (d, rest) = c.producer_turn(pending);
    lemma_consumer_turn(d, rest);
    lemma_producer_turn(c.consumer_turn(), pending);
}

/// When no work is left, every value has been received and the consumer's
/// next receive is told that the stream has ended.
pub proof fn law_no_work_left_is_the_end<T>(c: Channel<T>, pending: Seq<T>)
    requires
        c.at_work(pending),
        c.work_left(pending) == 0,
    ensures
        pending.len() == 0,
        c.received == c.sent,
        c.ends_stream(),
{
    assert(c.received =~= c.sent);
}

/// A producer with any number of values to send and a consumer, taking
/// turns, get every value across in order and come to the end of the
/// stream, within two rounds for each value and one more.
pub proof fn law_taking_turns_ends<T>(capacity: usize, values: Seq<T>)
    requires
        2 <= capacity <= max_capacity(),
    ensures
        ({
            let (end, rest) = Channel::<T>::bounded(capacity).after_rounds(
                values,
                2 * values.len() + 1,
            );
            &&& rest.len() == 0
            &&& end.sent == values
            &&& end.received == values
            &&& end.ends_stream()
        }),
{
    let start = Channel::<T>::bounded(capacity);
    lemma_bounded_inv::<T>(capacity);
    lemma_rounded_bounds(capacity as nat);
    let n = 2 * values.len() + 1;
    lemma_rounds(start, values, n);
    let (end, rest) = start.after_rounds(values, n);
    law_no_work_left_is_the_end(end, rest);
    assert(end.sent + rest =~= end.sent);
    assert(start.sent + values =~= values);
}

// What the endpoints promise of their own view, read on the model.

/// A successful `try_send` is three steps of the model.
///
/// If the producer's view went from `before` to `after` as `try_send`
/// promises when it returns `Ok`, and what it saw of the read position is
/// something a load could have returned, then looking, storing and
/// publishing were each allowed, they leave the producer's view at `after`,
/// and the value has joined those sent.
pub proof fn law_send_is_modelled<T>(c: Channel<T>, after: Cursor, value: T)
    requires
        c.inv(),
        c.staged is None,
        c.producer_alive,
        c.producer.sends(after),
        c.producer_may_see(after.peer),
    ensures
        ({
            let looked = c.after(Step::ProducerObserve { seen: after.peer });
            let stored = looked.after(Step::ProducerStore { value });
            let published = stored.after(Step::ProducerPublish);
            &&& c.enabled(Step::ProducerObserve { seen: after.peer })
            &&& looked.enabled(Step::ProducerStore { value })
            &&& stored.enabled(Step::ProducerPublish)
            &&& published.inv()
            &&& published.producer == after
            &&& published.write == after.offset
            &&& published.sent == c.sent.push(value)
            &&& published.received == c.received
        }),
{
    let look = Step::<T>::ProducerObserve { seen: after.peer };
    lemma_step_inv(c, look);
    let looked = c.after(look);
    let store = Step::ProducerStore { value };
    lemma_step_inv(looked, store);
    lemma_step_inv(looked.after(store), Step::ProducerPublish);
}

/// A successful `try_recv` is three steps of the model, and the value it
/// finds in the slot is the oldest one not yet received.
///
/// If the consumer's view went from `before` to `after` as `try_recv`
/// promises when it returns `Ok`, and what it saw of the write position is
/// something a load could have returned, then the slot it went for held a
/// value, and looking, taking and publishing leave the consumer's view at
/// `after` with that value received.
pub proof fn law_recv_is_modelled<T>(c: Channel<T>, after: Cursor)
    requires
        c.inv(),
        c.taken is None,
        c.consumer_alive,
        c.consumer.receives(after),
        c.consumer_may_see(after.peer),
    ensures
        ({
            let looked = c.after(Step::ConsumerObserve { seen: after.peer });
            let took = looked.after(Step::ConsumerTake);
            let published = took.after(Step::ConsumerPublish);
            &&& c.enabled(Step::ConsumerObserve { seen: after.peer })
            &&& looked.enabled(Step::ConsumerTake)
            &&& took.enabled(Step::ConsumerPublish)
            &&& published.inv()
            &&& published.consumer == after
            &&& published.read == after.offset
            &&& published.received == c.received.push(c.sent[c.received.len() as int])
            &&& published.sent == c.sent
        }),
{
    let look = Step::<T>::ConsumerObserve { seen: after.peer };
    lemma_step_inv(c, look);
    let looked = c.after(look);
    lemma_take_finds_value(looked);
    lemma_step_inv(looked, Step::ConsumerTake);
    lemma_step_inv(looked.after(Step::ConsumerTake), Step::ConsumerPublish);
}

/// A `try_send` that gives the value back has seen a ring that was full
/// at some time since the producer last looked; if what it saw is the read
/// position as it stands, the ring is full now.
pub proof fn law_block_is_modelled<T>(c: Channel<T>, after: Cursor, value: T)
    requires
        c.inv(),
        c.staged is None,
        c.producer_alive,
        c.producer.blocks(after),
        c.producer_may_see(after.peer),
    ensures
        c.enabled(Step::ProducerObserve { seen: after.peer }),
        c.after(Step::ProducerObserve { seen: after.peer }).producer == after,
        !c.after(Step::ProducerObserve { seen: after.peer }).enabled(
            Step::ProducerStore { value },
        ),
        after.peer == c.read ==> c.sent.len() - c.received.len() == c.mask(),
{
}

/// A `try_recv` that reports the end of the stream, having seen the write
/// position as it stands, leaves nothing behind.
pub proof fn law_starve_is_modelled<T>(c: Channel<T>, after: Cursor)
    requires
        c.inv(),
        c.taken is None,
        c.consumer_alive,
        c.consumer.starves(after),
        after.peer == c.write,
    ensures
        c.enabled(Step::ConsumerObserve { seen: after.peer }),
        c.after(Step::ConsumerObserve { seen: after.peer }).consumer == after,
        c.received == c.sent,
        !c.producer_alive ==> c.ends_stream(),
{
    assert(c.received =~= c.sent);
}

/// A send into a full ring whose consumer is gone is refused as
/// `Disconnected`.
///
/// Whatever the producer sees of the read position, its view cannot come
/// out as `try_send` promises for `Ok`; so `try_send` returns an error, and
/// with a count of handles that tells of the consumer's going, that error
/// is `Disconnected` with the value in it.
pub proof fn law_send_after_hangup_is_refused<T>(c: Channel<T>, after: Cursor, val: T)
    requires
        c.inv(),
        c.producer_alive,
        c.refuses_send(),
        c.producer_may_see(after.peer),
    ensures
        !c.producer.sends(after),
        refused(val, !c.consumer_alive) == TrySendError::Disconnected(val),
{
}

/// While the consumer lives, a value that finds no room is refused as
/// `Full`, and the consumer's next receive makes room for it.
pub proof fn law_full_is_not_final<T>(c: Channel<T>, val: T)
    requires
        c.inv(),
        c.idle(),
        c.producer_alive,
        c.consumer_alive,
        c.mask() >= 1,
        c.sent.len() - c.received.len() == c.mask(),
    ensures
        refused(val, !c.consumer_alive) == TrySendError::Full(val),
        c.send(val).sent == c.sent,
        c.recv().send(val).sent == c.sent.push(val),
{
    law_full_ring_refuses(c, val);
    lemma_recv_delivers(c);
    lemma_send_appends(c.recv(), val);
}

/// A receive from an empty ring whose producer is gone is answered with
/// `Disconnected`.
///
/// Whatever the consumer sees of the write position, its view cannot come
/// out as `try_recv` promises for `Ok`; so `try_recv` returns an error, and
/// with a count of handles that tells of the producer's going, that error
/// is `Disconnected`.
pub proof fn law_recv_after_drop_ends<T>(c: Channel<T>, after: Cursor)
    requires
        c.inv(),
        c.consumer_alive,
        c.ends_stream(),
        c.consumer_may_see(after.peer),
    ensures
        !c.consumer.receives(after),
        starved(!c.producer_alive) == TryRecvError::Disconnected,
        c.received == c.sent,
{
    assert(c.received =~= c.sent);
}

/// While the producer lives, a receive that finds nothing is answered with
/// `Empty`, and the producer's next send gives it a value.
pub proof fn law_empty_is_not_final<T>(c: Channel<T>, val: T)
    requires
        c.inv(),
        c.idle(),
        c.producer_alive,
        c.consumer_alive,
        c.mask() >= 1,
        c.sent.len() == c.received.len(),
    ensures
        starved(!c.producer_alive) == TryRecvError::Empty,
        c.recv().received == c.received,
        c.send(val).recv().received == c.received.push(val),
{
    law_round_trip(c, val);
}

/// The slot a consumer goes for is never found empty: when its view, after
/// a look at most, shows a value, the slot at its position holds the oldest
/// value not yet received, and settling on it hands that value on with the
/// next position.
pub proof fn law_settle_finds_the_oldest<T>(c: Channel<T>, seen: usize)
    requires
        c.inv(),
        c.taken is None,
        c.consumer_alive,
        c.consumer_may_see(seen),
        !c.consumer.observing(seen).sees_empty(),
    ensures
        c.consumer.observing(seen).settled(c.slots[c.read as int]) == (
            c.consumer.observing(seen).advanced(),
            Some((c.sent[c.received.len() as int], c.consumer.successor())),
        ),
{
    let look = Step::<T>::ConsumerObserve { seen };
    lemma_step_inv(c, look);
    lemma_take_finds_value(c.after(look));
}

// Rounding of the requested capacity.

/// The number of slots made for a requested capacity is the least power of
/// two that is no smaller.
pub proof fn law_rounding_is_least(capacity: usize, p: usize)
    requires
        0 < capacity <= max_capacity(),
        is_power_of_two(p),
        capacity <= p,
    ensures
        is_power_of_two(rounded(capacity as nat) as usize),
        capacity <= rounded(capacity as nat) <= p,
{
    lemma_rounded_bounds(capacity as nat);
    lemma_rounded_is_power_of_two(capacity as nat);
    lemma_rounded_is_least(capacity as nat, p);
}

// Steps towards the laws above.

/// The channel made for a requested capacity starts out well formed.
proof fn lemma_bounded_inv<T>(capacity: usize)
    requires
        0 < capacity <= max_capacity(),
    ensures
        is_mask((rounded(capacity as nat) - 1) as usize),
        Channel::<T>::bounded(capacity).inv(),
        Channel::<T>::bounded(capacity).mask() + 1 == rounded(capacity as nat),
{
    lemma_rounded_bounds(capacity as nat);
    lemma_rounded_is_power_of_two(capacity as nat);
    lemma_fresh_inv::<T>((rounded(capacity as nat) - 1) as usize);
}

/// On a ring of one slot the producer never gets to store.
proof fn lemma_single_slot_run<T>(steps: Seq<Step<T>>)
    ensures
        Channel::<T>::bounded(1).run(steps).inv(),
        Channel::<T>::bounded(1).run(steps).mask() == 0,
        Channel::<T>::bounded(1).run(steps).staged is None,
        Channel::<T>::bounded(1).run(steps).sent.len() == 0,
        Channel::<T>::bounded(1).run(steps).producer.sees_full(),
    decreases steps.len(),
{
    let start = Channel::<T>::bounded(1);
    lemma_bounded_inv::<T>(1);
    if steps.len() > 0 {
        lemma_single_slot_run::<T>(steps.drop_last());
        let before = start.run(steps.drop_last());
        if before.enabled(steps.last()) {
            lemma_step_inv(before, steps.last());
        }
    }
}

/// Each round takes at least one from the work that is left, until none
/// is left.
proof fn lemma_rounds<T>(c: Channel<T>, pending: Seq<T>, n: nat)
    requires
        c.at_work(pending),
    ensures
        ({
            let (d, rest) = c.after_rounds(pending, n);
            &&& d.at_work(rest)
            &&& d.sent + rest == c.sent + pending
            &&& 0 <= d.work_left(rest)
            &&& d.work_left(rest) <= c.work_left(pending) - n || d.work_left(rest) == 0
        }),
    decreases n,
{
    if n > 0 {
        lemma_rounds(c, pending, (n - 1) as nat);
        let (before, left) = c.after_rounds(pending, (n - 1) as nat);
        law_turns_keep_the_values(before, left);
        let (sent, rest) = before.producer_turn(left);
        law_turns_keep_the_values(sent, rest);
        if before.work_left(left) > 0 {
            law_turns_make_progress(before, left);
        }
    }
}

/// What a producer's turn does: with room it sends the first value still
/// pending, without room it changes nothing that counts, and with nothing
/// pending it goes away.
proof fn lemma_producer_turn<T>(c: Channel<T>, pending: Seq<T>)
    requires
        c.at_work(pending),
    ensures
        ({
            let (d, rest) = c.producer_turn(pending);
            let room = c.sent.len() - c.received.len() < c.mask();
            &&& d.at_work(rest)
            &&& d.received == c.received
            &&& d.sent + rest == c.sent + pending
            &&& pending.len() > 0 && room ==> d.work_left(rest) == c.work_left(pending) - 1
            &&& pending.len() > 0 && !room ==> d.work_left(rest) == c.work_left(pending)
            &&& pending.len() == 0 && c.producer_alive ==> d.work_left(rest) == c.work_left(
                pending,
            ) - 1
            &&& pending.len() == 0 && !c.producer_alive ==> d.work_left(rest) == c.work_left(
                pending,
            )
        }),
{
    if pending.len() > 0 {
        let value = pending.first();
        if c.sent.len() - c.received.len() < c.mask() {
            lemma_send_appends(c, value);
            assert(c.sent.push(value) + pending.drop_first() =~= c.sent + pending);
        } else {
            law_full_ring_refuses(c, value);
            lemma_send_keeps_the_rest(c, value);
        }
    } else if c.producer_alive {
        assert(c.enabled(Step::ProducerDrop));
        lemma_step_inv(c, Step::ProducerDrop);
    }
}

/// A send, whether or not it gets through, leaves the consumer's side and
/// the size of the ring alone and the producer between calls.
proof fn lemma_send_keeps_the_rest<T>(c: Channel<T>, value: T)
    requires
        c.inv(),
        c.staged is None,
        c.producer_alive,
        c.sent.len() - c.received.len() == c.mask(),
    ensures
        c.send(value).received == c.received,
        c.send(value).staged is None,
        c.send(value).taken == c.taken,
        c.send(value).producer_alive,
        c.send(value).consumer_alive == c.consumer_alive,
        c.send(value).mask() == c.mask(),
{
    let look = Step::<T>::ProducerObserve { seen: c.read };
    if c.producer.sees_full() {
        assert(c.enabled(look));
        lemma_step_inv(c, look);
    }
}

/// What a consumer's turn does: from a ring that holds a value it receives
/// the oldest, from an empty ring it changes nothing that counts.
proof fn lemma_consumer_turn<T>(c: Channel<T>, pending: Seq<T>)
    requires
        c.at_work(pending),
    ensures
        ({
            let d = c.consumer_turn();
            let held = c.received.len() < c.sent.len();
            &&& d.at_work(pending)
            &&& d.sent == c.sent
            &&& d.producer_alive == c.producer_alive
            &&& d.received == c.sent.subrange(0, d.received.len() as int)
            &&& held ==> d.received.len() == c.received.len() + 1
            &&& !held ==> d.received == c.received
        }),
{
    if c.received.len() < c.sent.len() {
        lemma_recv_delivers(c);
    } else {
        let look = Step::<T>::ConsumerObserve { seen: c.write };
        if c.consumer.sees_empty() {
            assert(c.enabled(look));
            lemma_step_inv(c, look);
        }
    }
}

/// No step changes the size of the ring.
proof fn lemma_run_keeps_mask<T>(c: Channel<T>, steps: Seq<Step<T>>)
    ensures
        c.run(steps).mask() == c.mask(),
    decreases steps.len(),
{
    if steps.len() > 0 {
        lemma_run_keeps_mask(c, steps.drop_last());
    }
}

/// One send into a ring with room appends the value to what was sent.
proof fn lemma_send_appends<T>(c: Channel<T>, value: T)
    requires
        c.inv(),
        c.staged is None,
        c.producer_alive,
        c.sent.len() - c.received.len() < c.mask(),
    ensures
        c.send(value).inv(),
        c.send(value).sent == c.sent.push(value),
        c.send(value).received == c.received,
        c.send(value).staged is None,
        c.send(value).taken == c.taken,
        c.send(value).producer_alive,
        c.send(value).consumer_alive == c.consumer_alive,
        c.send(value).mask() == c.mask(),
{
    let look = Step::<T>::ProducerObserve { seen: c.read };
    let looked = if c.producer.sees_full() {
        c.next(look)
    } else {
        c
    };
    if c.producer.sees_full() {
        assert(c.enabled(look));
        lemma_step_inv(c, look);
    }
    let store = Step::ProducerStore { value };
    assert(looked.enabled(store));
    lemma_step_inv(looked, store);
    let stored = looked.next(store);
    assert(stored.enabled(Step::ProducerPublish));
    lemma_step_inv(stored, Step::ProducerPublish);
}

/// Sending values one after the other into a ring with room for all of them
/// appends them, in order, to what was sent.
proof fn lemma_send_all_appends<T>(c: Channel<T>, values: Seq<T>)
    requires
        c.inv(),
        c.staged is None,
        c.producer_alive,
        c.sent.len() - c.received.len() + values.len() <= c.mask(),
    ensures
        c.send_all(values).inv(),
        c.send_all(values).sent == c.sent + values,
        c.send_all(values).received == c.received,
        c.send_all(values).staged is None,
        c.send_all(values).taken == c.taken,
        c.send_all(values).producer_alive,
        c.send_all(values).consumer_alive == c.consumer_alive,
        c.send_all(values).mask() == c.mask(),
    decreases values.len(),
{
    if values.len() == 0 {
        assert(c.sent + values =~= c.sent);
    } else {
        lemma_send_all_appends(c, values.drop_last());
        let before = c.send_all(values.drop_last());
        lemma_send_appends(before, values.last());
        assert((c.sent + values.drop_last()).push(values.last()) =~= c.sent + values);
    }
}

/// Relaying values through a new channel leaves it well formed, idle and
/// empty, with the values both sent and received.
proof fn lemma_relay<T>(c: Channel<T>, values: Seq<T>)
    requires
        c.inv(),
        c.idle(),
        c.producer_alive,
        c.consumer_alive,
        c.mask() >= 1,
        c.sent.len() == 0,
        c.received.len() == 0,
    ensures
        c.relay(values).inv(),
        c.relay(values).idle(),
        c.relay(values).producer_alive,
        c.relay(values).consumer_alive,
        c.relay(values).mask() == c.mask(),
        c.relay(values).sent == values,
        c.relay(values).received == values,
    decreases values.len(),
{
    if values.len() == 0 {
        assert(c.sent =~= values);
        assert(c.received =~= values);
    } else {
        lemma_relay(c, values.drop_last());
        let before = c.relay(values.drop_last());
        lemma_send_appends(before, values.last());
        lemma_recv_delivers(before.send(values.last()));
        assert(values.drop_last().push(values.last()) =~= values);
    }
}

/// One successful receive returns the oldest value not yet received.
proof fn lemma_recv_delivers<T>(c: Channel<T>)
    requires
        c.inv(),
        c.taken is None,
        c.consumer_alive,
        c.received.len() < c.sent.len(),
    ensures
        c.recv().inv(),
        c.recv().received == c.received.push(c.sent[c.received.len() as int]),
        c.recv().sent == c.sent,
        c.recv().taken is None,
        c.recv().consumer_alive,
        c.recv().producer_alive == c.producer_alive,
        c.recv().staged == c.staged,
        c.recv().mask() == c.mask(),
{
    let look = Step::<T>::ConsumerObserve { seen: c.write };
    let looked = if c.consumer.sees_empty() {
        c.next(look)
    } else {
        c
    };
    if c.consumer.sees_empty() {
        assert(c.enabled(look));
        lemma_step_inv(c, look);
    }
    lemma_take_finds_value(looked);
    assert(looked.enabled(Step::ConsumerTake));
    lemma_step_inv(looked, Step::ConsumerTake);
    let took = looked.next(Step::ConsumerTake);
    assert(took.enabled(Step::ConsumerPublish));
    lemma_step_inv(took, Step::ConsumerPublish);
}

/// Receiving does not revive the producer, drop the consumer or leave a
/// value half taken.
proof fn lemma_recv_stays_drainable<T>(c: Channel<T>, k: nat)
    requires
        c.inv(),
        !c.producer_alive,
        c.consumer_alive,
        c.taken is None,
        k <= c.sent.len() - c.received.len(),
    ensures
        !c.recv_times(k).producer_alive,
        c.recv_times(k).consumer_alive,
        c.recv_times(k).taken is None,
    decreases k,
{
    if k > 0 {
        lemma_recv_stays_drainable(c, (k - 1) as nat);
        law_disconnect_then_drain(c, (k - 1) as nat);
        lemma_recv_delivers(c.recv_times((k - 1) as nat));
    }
}

} // verus!
