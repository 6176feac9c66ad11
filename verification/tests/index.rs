use spsc_benches::index::next_index;
use spsc_benches::index::round_up;

#[test]
fn round_up_keeps_powers_of_two() {
    assert_eq!(round_up(1), 1);
    assert_eq!(round_up(2), 2);
    assert_eq!(round_up(4), 4);
    assert_eq!(round_up(1024), 1024);
}

#[test]
fn round_up_goes_to_the_next_power_of_two() {
    assert_eq!(round_up(3), 4);
    assert_eq!(round_up(5), 8);
    assert_eq!(round_up(7), 8);
    assert_eq!(round_up(9), 16);
    assert_eq!(round_up(1000), 1024);
    assert_eq!(round_up(1025), 2048);
}

#[test]
fn round_up_reaches_the_largest_power_of_two() {
    let largest = usize::MAX / 2 + 1;
    assert_eq!(round_up(largest), largest);
    assert_eq!(round_up(largest - 1), largest);
    assert_eq!(round_up(largest / 2 + 1), largest);
}

#[test]
fn next_index_steps_and_wraps() {
    assert_eq!(next_index(0, 3), 1);
    assert_eq!(next_index(1, 3), 2);
    assert_eq!(next_index(2, 3), 3);
    assert_eq!(next_index(3, 3), 0);
    assert_eq!(next_index(0, 0), 0);
    assert_eq!(next_index(1022, 1023), 1023);
    assert_eq!(next_index(1023, 1023), 0);
}
