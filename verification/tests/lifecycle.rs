//! Sale lifecycle: creation, registration, cancellation, pausing.

use escrow::engine::EscrowEngine;
use escrow::errors::ErrorCode;

const SELLER: u64 = 10;
const INTRUDER: u64 = 11;
const BUYER: u64 = 20;
const FEE_RECIPIENT: u64 = 99;
const TOKEN_MINT: u64 = 1;
const OTHER_MINT: u64 = 3;
const PAYMENT_MINT: u64 = 2;

fn engine_with_sale() -> (EscrowEngine, usize) {
    let mut e = EscrowEngine::new();
    e.deposit(SELLER, TOKEN_MINT, 1000).unwrap();
    let sale_id = e
        .initialize_sale(SELLER, TOKEN_MINT, PAYMENT_MINT, 10, 1000, 100, 200, 0, 250, FEE_RECIPIENT, 50)
        .unwrap();
    (e, sale_id)
}

#[test]
fn create_sale_validation_errors() {
    let mut e = EscrowEngine::new();
    e.deposit(SELLER, TOKEN_MINT, 1000).unwrap();
    assert_eq!(
        e.initialize_sale(SELLER, TOKEN_MINT, PAYMENT_MINT, 0, 1000, 100, 200, 0, 250, FEE_RECIPIENT, 50),
        Err(ErrorCode::InvalidPrice)
    );
    assert_eq!(
        e.initialize_sale(SELLER, TOKEN_MINT, PAYMENT_MINT, 10, 0, 100, 200, 0, 250, FEE_RECIPIENT, 50),
        Err(ErrorCode::InvalidTokenAmount)
    );
    assert_eq!(
        e.initialize_sale(SELLER, TOKEN_MINT, PAYMENT_MINT, 10, 1000, 0, 200, 0, 250, FEE_RECIPIENT, 50),
        Err(ErrorCode::InvalidStartTime)
    );
    assert_eq!(
        e.initialize_sale(SELLER, TOKEN_MINT, PAYMENT_MINT, 10, 1000, 100, 100, 0, 250, FEE_RECIPIENT, 50),
        Err(ErrorCode::InvalidEndTime)
    );
    assert_eq!(
        e.initialize_sale(SELLER, TOKEN_MINT, PAYMENT_MINT, 10, 1000, 100, 200, 0, 10_001, FEE_RECIPIENT, 50),
        Err(ErrorCode::InvalidPlatformFee)
    );
    assert_eq!(
        e.initialize_sale(SELLER, TOKEN_MINT, PAYMENT_MINT, 10, 1000, 100, 200, 0, 250, FEE_RECIPIENT, 200),
        Err(ErrorCode::SaleEndTimeInPast)
    );
    assert_eq!(e.sale_count(), 0);
    assert_eq!(e.balance_of(SELLER, TOKEN_MINT), 1000);
}

#[test]
fn create_sale_requires_seller_balance() {
    let mut e = EscrowEngine::new();
    assert_eq!(
        e.initialize_sale(SELLER, TOKEN_MINT, PAYMENT_MINT, 10, 1000, 100, 200, 0, 250, FEE_RECIPIENT, 50),
        Err(ErrorCode::InsufficientBalance)
    );
    e.deposit(SELLER, TOKEN_MINT, 999).unwrap();
    assert_eq!(
        e.initialize_sale(SELLER, TOKEN_MINT, PAYMENT_MINT, 10, 1000, 100, 200, 0, 250, FEE_RECIPIENT, 50),
        Err(ErrorCode::InsufficientBalance)
    );
    assert_eq!(e.sale_count(), 0);
    assert_eq!(e.balance_of(SELLER, TOKEN_MINT), 999);
}

#[test]
fn create_sale_moves_supply_to_vault() {
    let (e, sale_id) = engine_with_sale();
    assert_eq!(sale_id, 0);
    assert_eq!(e.sale_count(), 1);
    assert_eq!(e.balance_of(SELLER, TOKEN_MINT), 0);
    assert_eq!(e.vault_balance(sale_id).unwrap(), 1000);
    let s = e.get_sale(sale_id).unwrap();
    assert_eq!(s.seller, SELLER);
    assert_eq!(s.token_mint, TOKEN_MINT);
    assert_eq!(s.payment_mint, PAYMENT_MINT);
    assert_eq!(s.price_per_token, 10);
    assert_eq!(s.total_tokens, 1000);
    assert_eq!(s.tokens_available, 1000);
    assert_eq!(s.sale_start_time, 100);
    assert_eq!(s.sale_end_time, 200);
    assert_eq!(s.max_tokens_per_buyer, 0);
    assert_eq!(s.platform_fee_bps, 250);
    assert_eq!(s.platform_fee_recipient, FEE_RECIPIENT);
    assert!(s.is_active);
    assert!(!s.is_paused);
}

#[test]
fn duplicate_sale_rejected() {
    let (mut e, _) = engine_with_sale();
    e.deposit(SELLER, TOKEN_MINT, 500).unwrap();
    assert_eq!(
        e.initialize_sale(SELLER, TOKEN_MINT, PAYMENT_MINT, 5, 500, 300, 400, 0, 0, FEE_RECIPIENT, 50),
        Err(ErrorCode::DuplicateSale)
    );
    assert_eq!(e.sale_count(), 1);
    // A different asset under the same seller is a new sale.
    e.deposit(SELLER, OTHER_MINT, 500).unwrap();
    let second = e
        .initialize_sale(SELLER, OTHER_MINT, PAYMENT_MINT, 5, 500, 300, 400, 0, 0, FEE_RECIPIENT, 50)
        .unwrap();
    assert_eq!(second, 1);
    assert_eq!(e.sale_count(), 2);
}

#[test]
fn register_buyer_duplicate_rejected() {
    let (mut e, sale_id) = engine_with_sale();
    assert_eq!(e.create_buyer_account(BUYER, sale_id), Ok(()));
    assert_eq!(
        e.create_buyer_account(BUYER, sale_id),
        Err(ErrorCode::DuplicateBuyerAccount)
    );
    assert_eq!(e.create_buyer_account(BUYER, 5), Err(ErrorCode::SaleNotFound));
    let rec = e.buyer_record(BUYER, sale_id).unwrap();
    assert_eq!(rec.buyer, BUYER);
    assert_eq!(rec.token_sale, sale_id);
    assert_eq!(rec.tokens_purchased, 0);
}

#[test]
fn cancel_refunds_and_retires() {
    let (mut e, sale_id) = engine_with_sale();
    e.deposit(BUYER, PAYMENT_MINT, 10_000).unwrap();
    e.create_buyer_account(BUYER, sale_id).unwrap();
    e.buy_tokens(BUYER, sale_id, 100, 150).unwrap();

    assert_eq!(e.cancel_sale(SELLER, sale_id), Ok(()));
    let s = e.get_sale(sale_id).unwrap();
    assert!(!s.is_active);
    assert_eq!(s.tokens_available, 0);
    assert_eq!(e.vault_balance(sale_id).unwrap(), 0);
    assert_eq!(e.balance_of(SELLER, TOKEN_MINT), 900);
    // The buyer keeps what was already bought and paid for.
    assert_eq!(e.balance_of(BUYER, TOKEN_MINT), 100);
    assert_eq!(e.balance_of(SELLER, PAYMENT_MINT), 975);
}

#[test]
fn cancel_requires_seller() {
    let (mut e, sale_id) = engine_with_sale();
    assert_eq!(e.cancel_sale(INTRUDER, sale_id), Err(ErrorCode::Unauthorized));
    assert_eq!(e.cancel_sale(SELLER, 3), Err(ErrorCode::SaleNotFound));
    assert_eq!(e.cancel_sale(SELLER, sale_id), Ok(()));
    assert_eq!(e.cancel_sale(SELLER, sale_id), Err(ErrorCode::SaleNotActive));
}

#[test]
fn cancelled_sale_rejects_everything() {
    let (mut e, sale_id) = engine_with_sale();
    e.deposit(BUYER, PAYMENT_MINT, 10_000).unwrap();
    e.create_buyer_account(BUYER, sale_id).unwrap();
    e.cancel_sale(SELLER, sale_id).unwrap();

    assert_eq!(e.buy_tokens(BUYER, sale_id, 10, 150), Err(ErrorCode::SaleNotActive));
    assert_eq!(e.toggle_pause(SELLER, sale_id), Err(ErrorCode::SaleNotActive));
    assert_eq!(
        e.update_sale_params(SELLER, sale_id, Some(20), None, None, None, 50),
        Err(ErrorCode::SaleNotActive)
    );
}

#[test]
fn toggle_pause_flips_and_checks_caller() {
    let (mut e, sale_id) = engine_with_sale();
    assert_eq!(e.toggle_pause(INTRUDER, sale_id), Err(ErrorCode::Unauthorized));
    assert_eq!(e.toggle_pause(SELLER, 9), Err(ErrorCode::SaleNotFound));
    assert_eq!(e.toggle_pause(SELLER, sale_id), Ok(()));
    assert!(e.get_sale(sale_id).unwrap().is_paused);
    assert_eq!(e.toggle_pause(SELLER, sale_id), Ok(()));
    assert!(!e.get_sale(sale_id).unwrap().is_paused);
    // Pausing blocks purchases but not cancellation.
    e.toggle_pause(SELLER, sale_id).unwrap();
    assert_eq!(e.cancel_sale(SELLER, sale_id), Ok(()));
}

#[test]
fn getters_on_missing_entries() {
    let e = EscrowEngine::new();
    assert!(e.get_sale(0).is_none());
    assert!(e.vault_balance(0).is_none());
    assert!(e.buyer_record(BUYER, 0).is_none());
    assert_eq!(e.sale_count(), 0);
    assert_eq!(e.balance_of(BUYER, TOKEN_MINT), 0);
}

#[test]
fn error_messages_are_stable() {
    assert_eq!(ErrorCode::SaleNotActive.message(), "Sale is not active");
    assert_eq!(ErrorCode::MathOverflow.message(), "Math overflow");
    assert_eq!(
        ErrorCode::ExceedsPurchaseLimit.message(),
        "Purchase exceeds per-buyer limit"
    );
}
