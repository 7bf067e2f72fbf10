use molecular_lod::wide::{product_le, wide_product};

#[test]
fn product_of_small_numbers_has_no_high_half() {
    let p = wide_product(6, 7);
    assert_eq!(p.high, 0);
    assert_eq!(p.low, 42);
}

#[test]
fn product_of_largest_numbers_fills_both_halves() {
    let p = wide_product(u128::MAX, u128::MAX);
    assert_eq!(p.high, 340282366920938463463374607431768211454);
    assert_eq!(p.low, 1);
}

#[test]
fn product_crossing_the_low_half() {
    let p = wide_product(1u128 << 64, 1u128 << 64);
    assert_eq!(p.high, 1);
    assert_eq!(p.low, 0);
    let q = wide_product((1u128 << 64) + 3, (1u128 << 64) + 5);
    assert_eq!(q.high, 1);
    assert_eq!(q.low, (8u128 << 64) + 15);
}

#[test]
fn product_with_zero_is_zero() {
    let p = wide_product(0, u128::MAX);
    assert_eq!(p.high, 0);
    assert_eq!(p.low, 0);
}

#[test]
fn products_compare_exactly() {
    assert!(product_le(3, 4, 2, 6));
    assert!(product_le(3, 4, 12, 1));
    assert!(!product_le(3, 4, 2, 5));
    assert!(product_le(0, u128::MAX, 0, 0));
    assert!(!product_le(1, 1, 0, u128::MAX));
}

#[test]
fn products_beyond_128_bits_compare_exactly() {
    let big = u128::MAX;
    assert!(product_le(big - 1, big, big, big - 1));
    assert!(product_le(big, big - 1, big - 1, big));
    assert!(product_le(big, big - 2, big - 1, big - 1));
    assert!(!product_le(big - 1, big - 1, big, big - 2));
    assert!(!product_le(big, big, big, big - 1));
    assert!(product_le(1u128 << 100, 1u128 << 100, 1u128 << 73, 1u128 << 127));
    assert!(!product_le((1u128 << 100) + 1, 1u128 << 100, 1u128 << 73, 1u128 << 127));
}
