//! The checked fee-split arithmetic on its own.

use escrow::errors::ErrorCode;
use escrow::payment::compute_payment;

#[test]
fn payment_split_exact_values() {
    let split = compute_payment(100, 10, 250).unwrap();
    assert_eq!(split.gross, 1000);
    assert_eq!(split.platform_fee, 25);
    assert_eq!(split.seller_payment, 975);
}

#[test]
fn payment_split_rounds_down() {
    // 999 * 250 / 10000 = 24.975, so the fee floors to 24 and the seller
    // keeps the fraction.
    let split = compute_payment(1, 999, 250).unwrap();
    assert_eq!(split.gross, 999);
    assert_eq!(split.platform_fee, 24);
    assert_eq!(split.seller_payment, 975);
}

#[test]
fn payment_split_boundary_rates() {
    let none = compute_payment(100, 10, 0).unwrap();
    assert_eq!(none.platform_fee, 0);
    assert_eq!(none.seller_payment, 1000);
    let all = compute_payment(100, 10, 10_000).unwrap();
    assert_eq!(all.platform_fee, 1000);
    assert_eq!(all.seller_payment, 0);
}

#[test]
fn payment_overflow_detected() {
    assert_eq!(compute_payment(u64::MAX, 2, 0), Err(ErrorCode::MathOverflow));
    // The gross fits, but scaling it by the fee rate does not.
    assert_eq!(compute_payment(u64::MAX, 1, 2), Err(ErrorCode::MathOverflow));
}

#[test]
fn fee_plus_seller_equals_gross() {
    let cases = [
        (1u64, 1u64, 1u16),
        (3, 7, 333),
        (1000, 999, 9_999),
        (123_456, 789, 1),
        (1, u64::MAX / 20_000, 10_000),
    ];
    for (amount, price, bps) in cases {
        let split = compute_payment(amount, price, bps).unwrap();
        assert_eq!(split.platform_fee + split.seller_payment, split.gross);
        assert!(split.platform_fee <= split.gross);
        assert_eq!(split.gross, amount * price);
    }
}
