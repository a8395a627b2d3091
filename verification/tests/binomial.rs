use trident_bot::math::{binomial_coefficient, checked_binomial_coefficient};

#[test]
fn binomial_small_values() {
    assert_eq!(binomial_coefficient(0, 0), 1);
    assert_eq!(binomial_coefficient(10, 0), 1);
    assert_eq!(binomial_coefficient(10, 10), 1);
    assert_eq!(binomial_coefficient(10, 1), 10);
    assert_eq!(binomial_coefficient(5, 2), 10);
    assert_eq!(binomial_coefficient(5, 3), 10);
    assert_eq!(binomial_coefficient(6, 3), 20);
}

#[test]
fn binomial_more_chosen_than_available() {
    assert_eq!(binomial_coefficient(7, 9), 0);
    assert_eq!(binomial_coefficient(0, 1), 0);
}

#[test]
fn binomial_known_values() {
    // Poker hands and lottery draws.
    assert_eq!(binomial_coefficient(52, 5), 2_598_960);
    assert_eq!(binomial_coefficient(49, 6), 13_983_816);
    assert_eq!(binomial_coefficient(100, 3), 161_700);
}

#[test]
fn binomial_row_symmetry() {
    for k in 0..=12u128 {
        assert_eq!(binomial_coefficient(12, k), binomial_coefficient(12, 12 - k));
    }
}

#[test]
fn checked_binomial_detects_overflow() {
    // The middle of row 1000 is far beyond u128.
    assert_eq!(checked_binomial_coefficient(1_000, 500), None);
    // One-step rows never overflow.
    assert_eq!(checked_binomial_coefficient(u128::MAX, 1), Some(u128::MAX));
    assert_eq!(checked_binomial_coefficient(u128::MAX, u128::MAX - 1), Some(u128::MAX));
    assert_eq!(checked_binomial_coefficient(u128::MAX, 2), None);
    assert_eq!(checked_binomial_coefficient(200, 5), Some(2_535_650_040));
}
