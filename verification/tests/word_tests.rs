use ef_testing::U256;

fn w(lo: u128, hi: u128) -> U256 {
    U256::new(lo, hi)
}

#[test]
fn split_and_join_recover_zero() {
    let v = U256::zero();
    let (lo, hi) = v.split_u256();
    assert_eq!(U256::from_halves(lo, hi), v);
}

#[test]
fn split_and_join_recover_max() {
    let v = w(u128::MAX, u128::MAX);
    let (lo, hi) = v.split_u256();
    assert_eq!(lo, u128::MAX);
    assert_eq!(hi, u128::MAX);
    assert_eq!(U256::from_halves(lo, hi), v);
}

#[test]
fn split_and_join_recover_mixed() {
    let v = w(0xdead_beef, 0x1234_5678);
    let (lo, hi) = v.split_u256();
    assert_eq!(U256::from_halves(lo, hi), v);
}

#[test]
fn checked_add_small() {
    let a = w(40, 0);
    let b = w(2, 0);
    assert_eq!(a.checked_add(&b), Some(w(42, 0)));
}

#[test]
fn checked_add_carries_between_halves() {
    let a = w(u128::MAX, 0);
    let b = w(1, 0);
    assert_eq!(a.checked_add(&b), Some(w(0, 1)));
}

#[test]
fn checked_add_overflow_is_none() {
    let a = w(u128::MAX, u128::MAX);
    let b = w(1, 0);
    assert_eq!(a.checked_add(&b), None);
}

#[test]
fn checked_sub_borrows_between_halves() {
    let a = w(0, 1);
    let b = w(1, 0);
    assert_eq!(a.checked_sub(&b), Some(w(u128::MAX, 0)));
}

#[test]
fn checked_sub_underflow_is_none() {
    let a = w(0, 0);
    let b = w(1, 0);
    assert_eq!(a.checked_sub(&b), None);
}

#[test]
fn checked_mul_small() {
    let a = w(6, 0);
    let b = w(7, 0);
    assert_eq!(a.checked_mul(&b), Some(w(42, 0)));
}

#[test]
fn checked_mul_crosses_halves() {
    // (2^127) * 2 == 2^128
    let a = w(1u128 << 127, 0);
    let b = w(2, 0);
    assert_eq!(a.checked_mul(&b), Some(w(0, 1)));
}

#[test]
fn checked_mul_wide_exact() {
    // (2^64 + 3) * (2^64 + 5) == 2^128 + 8 * 2^64 + 15
    let a = w((1u128 << 64) + 3, 0);
    let b = w((1u128 << 64) + 5, 0);
    let expected = w((8u128 << 64) + 15, 1);
    assert_eq!(a.checked_mul(&b), Some(expected));
}

#[test]
fn checked_mul_overflow_is_none() {
    let a = w(0, 1);
    let b = w(0, 1);
    assert_eq!(a.checked_mul(&b), None);
}

#[test]
fn checked_mul_by_zero() {
    let a = w(u128::MAX, u128::MAX);
    assert_eq!(a.checked_mul(&U256::zero()), Some(U256::zero()));
}

#[test]
fn min_word_picks_smaller() {
    assert_eq!(U256::min_word(w(3, 0), w(2, 0)), w(2, 0));
    assert_eq!(U256::min_word(w(1, 0), w(0, 1)), w(1, 0));
}

#[test]
fn bit_or_with_zero_is_identity() {
    let v = w(0x55, 0xaa);
    assert_eq!(U256::bit_or(U256::zero(), v), v);
    assert_eq!(U256::bit_or(v, U256::zero()), v);
}

#[test]
fn le_compares_across_halves() {
    assert!(w(u128::MAX, 0).le(&w(0, 1)));
    assert!(!w(0, 1).le(&w(u128::MAX, 0)));
}
