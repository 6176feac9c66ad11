use spsc_benches::spinlock_spsc::bounded;
use spsc_benches::spinlock_spsc::is_alone;
use spsc_benches::spinlock_spsc::refusal;
use spsc_benches::spinlock_spsc::starvation;
use spsc_benches::spinlock_spsc::try_bounded;
use spsc_benches::spinlock_spsc::CapacityError;
use spsc_benches::spinlock_spsc::Receiver;
use spsc_benches::spinlock_spsc::Sender;
use spsc_benches::spinlock_spsc::TryRecvError;
use spsc_benches::spinlock_spsc::TrySendError;

fn assert_send<T: Send>(_value: &T) {}

/// Pushes `count` numbers through the channel, sending in bursts of
/// `burst` and draining after each, and checks that they come out in order.
fn pump(snd: &mut Sender<u64>, recv: &mut Receiver<u64>, count: u64, burst: u64) {
    let mut next_in: u64 = 0;
    let mut next_out: u64 = 0;
    while next_out < count {
        let mut sent_now: u64 = 0;
        while next_in < count && sent_now < burst {
            match snd.try_send(next_in) {
                Ok(()) => {
                    next_in += 1;
                    sent_now += 1;
                }
                Err(TrySendError::Full(back)) => {
                    assert_eq!(back, next_in);
                    break;
                }
                Err(TrySendError::Disconnected(_)) => panic!("receiver is alive"),
            }
        }
        loop {
            match recv.try_recv() {
                Ok(value) => {
                    assert_eq!(value, next_out);
                    next_out += 1;
                }
                Err(TryRecvError::Empty) => break,
                Err(TryRecvError::Disconnected) => panic!("sender is alive"),
            }
        }
    }
    assert_eq!(next_in, count);
    assert_eq!(next_out, count);
    assert_eq!(recv.try_recv(), Err(TryRecvError::Empty));
}

#[test]
fn simple_send() {
    let (mut snd, mut recv) = bounded(4);
    snd.try_send(15u32).unwrap();
    assert_eq!(recv.try_recv().unwrap(), 15u32);
    snd.try_send(5u32).unwrap();
    snd.try_send(7u32).unwrap();

    assert_eq!(recv.try_recv().unwrap(), 5u32);
    assert_eq!(recv.try_recv().unwrap(), 7u32);

    snd.try_send(1u32).unwrap();
    snd.try_send(1u32).unwrap();

    assert_eq!(recv.try_recv().unwrap(), 1u32);
    assert_eq!(recv.try_recv().unwrap(), 1u32);
    snd.try_send(1u32).unwrap();
}

#[test]
fn hangup() {
    let (mut snd, mut recv) = bounded::<isize>(2);
    snd.try_send(10).unwrap();
    drop(snd);
    assert_eq!(recv.try_recv().unwrap(), 10);
    assert_eq!(recv.try_recv(), Err(TryRecvError::Disconnected));
}

#[test]
fn three_requested_gives_three_usable_slots() {
    let (mut snd, mut recv) = bounded::<u32>(3);
    assert_eq!(snd.try_send(1), Ok(()));
    assert_eq!(snd.try_send(2), Ok(()));
    assert_eq!(snd.try_send(3), Ok(()));
    assert_eq!(snd.try_send(4), Err(TrySendError::Full(4)));
    assert_eq!(recv.try_recv(), Ok(1));
    assert_eq!(snd.try_send(4), Ok(()));
    assert_eq!(recv.try_recv(), Ok(2));
    assert_eq!(recv.try_recv(), Ok(3));
    assert_eq!(recv.try_recv(), Ok(4));
    drop(snd);
    assert_eq!(recv.try_recv(), Err(TryRecvError::Disconnected));
}

#[test]
fn round_trip_returns_the_value_sent() {
    let (mut snd, mut recv) = bounded::<i64>(2);
    assert_eq!(snd.try_send(-42), Ok(()));
    assert_eq!(recv.try_recv(), Ok(-42));
    assert_eq!(recv.try_recv(), Err(TryRecvError::Empty));
}

#[test]
fn round_trip_moves_owned_values() {
    let (mut snd, mut recv) = bounded::<String>(4);
    assert_eq!(snd.try_send(String::from("first")), Ok(()));
    assert_eq!(snd.try_send(String::from("second")), Ok(()));
    assert_eq!(recv.try_recv(), Ok(String::from("first")));
    assert_eq!(recv.try_recv(), Ok(String::from("second")));
}

#[test]
fn order_is_kept_across_many_wraps() {
    let (mut snd, mut recv) = bounded::<u64>(4);
    pump(&mut snd, &mut recv, 1000, 1);
    pump(&mut snd, &mut recv, 1000, 2);
    pump(&mut snd, &mut recv, 1000, 3);
    pump(&mut snd, &mut recv, 1000, 100);
}

#[test]
fn four_slots_buffer_three_values() {
    let (mut snd, mut recv) = bounded::<u8>(4);
    assert_eq!(snd.try_send(10), Ok(()));
    assert_eq!(snd.try_send(11), Ok(()));
    assert_eq!(snd.try_send(12), Ok(()));
    assert_eq!(snd.try_send(13), Err(TrySendError::Full(13)));
    assert_eq!(snd.try_send(13), Err(TrySendError::Full(13)));
    assert_eq!(recv.try_recv(), Ok(10));
    assert_eq!(recv.try_recv(), Ok(11));
    assert_eq!(recv.try_recv(), Ok(12));
    assert_eq!(recv.try_recv(), Err(TryRecvError::Empty));
}

#[test]
fn a_refused_value_overwrites_nothing() {
    let (mut snd, mut recv) = bounded::<u32>(2);
    assert_eq!(snd.try_send(1), Ok(()));
    assert_eq!(snd.try_send(2), Err(TrySendError::Full(2)));
    assert_eq!(snd.try_send(3), Err(TrySendError::Full(3)));
    assert_eq!(recv.try_recv(), Ok(1));
    assert_eq!(recv.try_recv(), Err(TryRecvError::Empty));
    assert_eq!(snd.try_send(4), Ok(()));
    assert_eq!(recv.try_recv(), Ok(4));
}

#[test]
fn capacity_rounds_up_to_a_power_of_two() {
    let (mut snd, mut recv) = bounded::<usize>(5);
    for i in 0..7 {
        assert_eq!(snd.try_send(i), Ok(()));
    }
    assert_eq!(snd.try_send(7), Err(TrySendError::Full(7)));
    for i in 0..7 {
        assert_eq!(recv.try_recv(), Ok(i));
    }
    assert_eq!(recv.try_recv(), Err(TryRecvError::Empty));
}

#[test]
fn one_slot_buffers_nothing() {
    let (mut snd, mut recv) = bounded::<u32>(1);
    assert_eq!(snd.try_send(1), Err(TrySendError::Full(1)));
    assert_eq!(recv.try_recv(), Err(TryRecvError::Empty));
    drop(recv);
    assert_eq!(snd.try_send(1), Err(TrySendError::Disconnected(1)));
}

#[test]
fn zero_capacity_is_refused() {
    assert_eq!(try_bounded::<u32>(0).err(), Some(CapacityError::Zero));
}

#[test]
fn a_capacity_that_cannot_be_rounded_is_refused() {
    let largest = usize::MAX / 2 + 1;
    assert_eq!(try_bounded::<u32>(largest + 1).err(), Some(CapacityError::TooLarge));
    assert_eq!(try_bounded::<u32>(usize::MAX).err(), Some(CapacityError::TooLarge));
}

#[test]
fn a_checked_channel_works_like_any_other() {
    let (mut snd, mut recv) = try_bounded::<u32>(3).ok().unwrap();
    assert_eq!(snd.try_send(1), Ok(()));
    assert_eq!(snd.try_send(2), Ok(()));
    assert_eq!(snd.try_send(3), Ok(()));
    assert_eq!(snd.try_send(4), Err(TrySendError::Full(4)));
    assert_eq!(recv.try_recv(), Ok(1));
}

#[test]
fn drain_after_the_sender_is_gone() {
    let (mut snd, mut recv) = bounded::<u32>(8);
    for i in 0..5 {
        assert_eq!(snd.try_send(100 + i), Ok(()));
    }
    drop(snd);
    for i in 0..5 {
        assert_eq!(recv.try_recv(), Ok(100 + i));
    }
    assert_eq!(recv.try_recv(), Err(TryRecvError::Disconnected));
    assert_eq!(recv.try_recv(), Err(TryRecvError::Disconnected));
}

#[test]
fn drain_after_the_sender_is_gone_with_a_stale_view() {
    let (mut snd, mut recv) = bounded::<u32>(4);
    assert_eq!(snd.try_send(1), Ok(()));
    assert_eq!(recv.try_recv(), Ok(1));
    assert_eq!(recv.try_recv(), Err(TryRecvError::Empty));
    assert_eq!(snd.try_send(2), Ok(()));
    assert_eq!(snd.try_send(3), Ok(()));
    drop(snd);
    assert_eq!(recv.try_recv(), Ok(2));
    assert_eq!(recv.try_recv(), Ok(3));
    assert_eq!(recv.try_recv(), Err(TryRecvError::Disconnected));
}

#[test]
fn a_single_handle_means_the_peer_is_gone() {
    assert!(is_alone(0));
    assert!(is_alone(1));
    assert!(!is_alone(2));
    assert!(!is_alone(3));
}

#[test]
fn a_refusal_is_full_while_the_consumer_lives() {
    assert_eq!(refusal(7u32, false), TrySendError::Full(7));
    assert_eq!(refusal(String::from("kept"), false), TrySendError::Full(String::from("kept")));
}

#[test]
fn a_refusal_is_disconnected_once_the_consumer_is_gone() {
    assert_eq!(refusal(7u32, true), TrySendError::Disconnected(7));
    assert_eq!(
        refusal(String::from("kept"), true),
        TrySendError::Disconnected(String::from("kept"))
    );
}

#[test]
fn starvation_is_empty_while_the_producer_lives() {
    assert_eq!(starvation(false), TryRecvError::Empty);
}

#[test]
fn starvation_is_disconnected_once_the_producer_is_gone() {
    assert_eq!(starvation(true), TryRecvError::Disconnected);
}

#[test]
fn send_into_a_full_ring_after_hangup_is_disconnected() {
    let (mut snd, recv) = bounded::<u32>(2);
    assert_eq!(snd.try_send(1), Ok(()));
    drop(recv);
    assert_eq!(snd.try_send(2), Err(TrySendError::Disconnected(2)));
    assert_eq!(snd.try_send(2), Err(TrySendError::Disconnected(2)));
}

#[test]
fn send_into_a_full_ring_is_full_until_hangup() {
    let (mut snd, recv) = bounded::<u32>(2);
    assert_eq!(snd.try_send(1), Ok(()));
    assert_eq!(snd.try_send(2), Err(TrySendError::Full(2)));
    drop(recv);
    assert_eq!(snd.try_send(2), Err(TrySendError::Disconnected(2)));
}

#[test]
fn recv_is_empty_until_the_sender_is_dropped() {
    let (snd, mut recv) = bounded::<u32>(2);
    assert_eq!(recv.try_recv(), Err(TryRecvError::Empty));
    drop(snd);
    assert_eq!(recv.try_recv(), Err(TryRecvError::Disconnected));
}

#[test]
fn immediate_close() {
    let (snd, mut recv) = bounded::<u32>(16);
    drop(snd);
    assert_eq!(recv.try_recv(), Err(TryRecvError::Disconnected));
}

#[test]
fn empty_is_not_closed_while_the_sender_lives() {
    let (mut snd, mut recv) = bounded::<u32>(2);
    assert_eq!(recv.try_recv(), Err(TryRecvError::Empty));
    assert_eq!(recv.try_recv(), Err(TryRecvError::Empty));
    assert_eq!(snd.try_send(9), Ok(()));
    assert_eq!(recv.try_recv(), Ok(9));
}

#[test]
fn send_succeeds_after_hangup_while_there_is_room() {
    let (mut snd, recv) = bounded::<u32>(4);
    drop(recv);
    assert_eq!(snd.try_send(1), Ok(()));
    assert_eq!(snd.try_send(2), Ok(()));
    assert_eq!(snd.try_send(3), Ok(()));
    assert_eq!(snd.try_send(4), Err(TrySendError::Disconnected(4)));
}

#[test]
fn send_sees_slots_drained_before_hangup() {
    let (mut snd, mut recv) = bounded::<u32>(2);
    assert_eq!(snd.try_send(1), Ok(()));
    assert_eq!(snd.try_send(2), Err(TrySendError::Full(2)));
    assert_eq!(recv.try_recv(), Ok(1));
    drop(recv);
    assert_eq!(snd.try_send(2), Ok(()));
    assert_eq!(snd.try_send(3), Err(TrySendError::Disconnected(3)));
}

#[test]
fn values_left_behind_are_dropped_with_the_channel() {
    let marker = std::sync::Arc::new(0u8);
    let (mut snd, recv) = bounded::<std::sync::Arc<u8>>(4);
    assert!(snd.try_send(marker.clone()).is_ok());
    assert!(snd.try_send(marker.clone()).is_ok());
    assert_eq!(std::sync::Arc::strong_count(&marker), 3);
    drop(snd);
    assert_eq!(std::sync::Arc::strong_count(&marker), 3);
    drop(recv);
    assert_eq!(std::sync::Arc::strong_count(&marker), 1);
}

#[test]
fn endpoints_can_move_to_other_threads() {
    let (snd, recv) = bounded::<std::cell::Cell<u32>>(2);
    assert_send(&snd);
    assert_send(&recv);
}

#[test]
fn order_is_kept_under_an_irregular_schedule() {
    let (mut snd, mut recv) = bounded::<u64>(16);
    let mut state: u64 = 0x2545_f491_4f6c_dd1d;
    let mut next_in: u64 = 0;
    let mut next_out: u64 = 0;
    while next_out < 100_000 {
        state = state.wrapping_mul(6364136223846793005).wrapping_add(1442695040888963407);
        if (state >> 33) % 2 == 0 {
            match snd.try_send(next_in) {
                Ok(()) => next_in += 1,
                Err(TrySendError::Full(back)) => {
                    assert_eq!(back, next_in);
                    assert_eq!(next_in - next_out, 15);
                }
                Err(TrySendError::Disconnected(_)) => panic!("receiver is alive"),
            }
        } else {
            match recv.try_recv() {
                Ok(value) => {
                    assert_eq!(value, next_out);
                    next_out += 1;
                }
                Err(TryRecvError::Empty) => assert_eq!(next_in, next_out),
                Err(TryRecvError::Disconnected) => panic!("sender is alive"),
            }
        }
        assert!(next_in - next_out <= 15);
    }
}

#[test]
fn stress_one_value() {
    for capacity in [2usize, 4, 16, 1024] {
        let (mut snd, mut recv) = bounded::<u64>(capacity);
        pump(&mut snd, &mut recv, 1, 1);
    }
}

#[test]
fn stress_a_thousand_values() {
    for capacity in [2usize, 4, 16, 1024] {
        let (mut snd, mut recv) = bounded::<u64>(capacity);
        pump(&mut snd, &mut recv, 1000, 7);
    }
}

#[test]
fn stress_a_million_values() {
    for capacity in [2usize, 4, 16, 1024] {
        let (mut snd, mut recv) = bounded::<u64>(capacity);
        pump(&mut snd, &mut recv, 1_000_000, 1500);
    }
}
