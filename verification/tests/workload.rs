use spsc_benches::consume_value;
use spsc_benches::produce_value;

#[test]
fn an_empty_product_is_one() {
    assert_eq!(produce_value(0), 1);
    assert_eq!(produce_value(1), 1);
    assert_eq!(consume_value(0), 1);
    assert_eq!(consume_value(1), 1);
}

#[test]
fn small_products_are_factorials() {
    assert_eq!(produce_value(2), 1);
    assert_eq!(produce_value(3), 2);
    assert_eq!(produce_value(4), 6);
    assert_eq!(produce_value(5), 24);
    assert_eq!(produce_value(11), 3628800);
    assert_eq!(consume_value(5), 24);
    assert_eq!(consume_value(11), 3628800);
}

#[test]
fn the_largest_product_that_fits_is_exact() {
    assert_eq!(produce_value(21) as u64, 2432902008176640000u64);
    assert_eq!(consume_value(21) as u64, 2432902008176640000u64);
}

#[test]
fn the_first_product_that_does_not_fit_wraps() {
    assert_eq!(produce_value(22) as u64, 14197454024290336768u64);
    assert_eq!(consume_value(22) as u64, 14197454024290336768u64);
}

#[test]
fn large_products_wrap() {
    let mut expected: usize = 1;
    for factor in 1..40usize {
        expected = expected.wrapping_mul(factor);
    }
    assert_eq!(produce_value(40), expected);
    assert_eq!(consume_value(40), expected);
}

#[test]
fn products_with_enough_even_factors_vanish() {
    assert_eq!(produce_value(100), 0);
    assert_eq!(consume_value(100), 0);
    assert_eq!(produce_value(1000), 0);
}

#[test]
fn produce_and_consume_agree() {
    for difficulty in 0..70usize {
        assert_eq!(produce_value(difficulty), consume_value(difficulty));
    }
}
