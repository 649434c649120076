//! Parameter updates: seller-only, before the window opens, validated.

use escrow::engine::EscrowEngine;
use escrow::errors::ErrorCode;

const SELLER: u64 = 10;
const INTRUDER: u64 = 11;
const BUYER: u64 = 20;
const FEE_RECIPIENT: u64 = 99;
const TOKEN_MINT: u64 = 1;
const PAYMENT_MINT: u64 = 2;

fn engine_with_sale() -> (EscrowEngine, usize) {
    let mut e = EscrowEngine::new();
    e.deposit(SELLER, TOKEN_MINT, 1000).unwrap();
    let sale_id = e
        .initialize_sale(SELLER, TOKEN_MINT, PAYMENT_MINT, 10, 1000, 100, 200, 0, 250, FEE_RECIPIENT, 50)
        .unwrap();
    (e, sale_id)
}

#[test]
fn update_only_before_start() {
    let (mut e, sale_id) = engine_with_sale();
    assert_eq!(
        e.update_sale_params(SELLER, sale_id, Some(20), None, None, None, 100),
        Err(ErrorCode::SaleAlreadyStarted)
    );
    assert_eq!(
        e.update_sale_params(SELLER, sale_id, Some(20), None, None, None, 150),
        Err(ErrorCode::SaleAlreadyStarted)
    );
    assert_eq!(e.get_sale(sale_id).unwrap().price_per_token, 10);
}

#[test]
fn update_requires_seller() {
    let (mut e, sale_id) = engine_with_sale();
    assert_eq!(
        e.update_sale_params(INTRUDER, sale_id, Some(20), None, None, None, 50),
        Err(ErrorCode::Unauthorized)
    );
    assert_eq!(
        e.update_sale_params(SELLER, 9, Some(20), None, None, None, 50),
        Err(ErrorCode::SaleNotFound)
    );
}

#[test]
fn update_price() {
    let (mut e, sale_id) = engine_with_sale();
    assert_eq!(
        e.update_sale_params(SELLER, sale_id, Some(0), None, None, None, 50),
        Err(ErrorCode::InvalidPrice)
    );
    assert_eq!(
        e.update_sale_params(SELLER, sale_id, Some(25), None, None, None, 50),
        Ok(())
    );
    let s = e.get_sale(sale_id).unwrap();
    assert_eq!(s.price_per_token, 25);
    assert_eq!(s.sale_start_time, 100);
    assert_eq!(s.sale_end_time, 200);
    assert_eq!(s.max_tokens_per_buyer, 0);
}

#[test]
fn update_start_time() {
    let (mut e, sale_id) = engine_with_sale();
    assert_eq!(
        e.update_sale_params(SELLER, sale_id, None, Some(50), None, None, 50),
        Err(ErrorCode::InvalidStartTime)
    );
    assert_eq!(
        e.update_sale_params(SELLER, sale_id, None, Some(120), None, None, 50),
        Ok(())
    );
    assert_eq!(e.get_sale(sale_id).unwrap().sale_start_time, 120);
}

#[test]
fn update_end_validated_against_new_start() {
    let (mut e, sale_id) = engine_with_sale();
    assert_eq!(
        e.update_sale_params(SELLER, sale_id, None, Some(300), Some(300), None, 50),
        Err(ErrorCode::InvalidEndTime)
    );
    assert_eq!(
        e.update_sale_params(SELLER, sale_id, None, Some(300), Some(400), None, 50),
        Ok(())
    );
    let s = e.get_sale(sale_id).unwrap();
    assert_eq!(s.sale_start_time, 300);
    assert_eq!(s.sale_end_time, 400);
}

#[test]
fn update_start_beyond_end_rejected() {
    let (mut e, sale_id) = engine_with_sale();
    // Moving the start past the unchanged end would leave an empty window.
    assert_eq!(
        e.update_sale_params(SELLER, sale_id, None, Some(250), None, None, 50),
        Err(ErrorCode::InvalidStartTime)
    );
    let s = e.get_sale(sale_id).unwrap();
    assert_eq!(s.sale_start_time, 100);
    assert_eq!(s.sale_end_time, 200);
}

#[test]
fn update_cap_and_noop() {
    let (mut e, sale_id) = engine_with_sale();
    assert_eq!(
        e.update_sale_params(SELLER, sale_id, None, None, None, Some(7), 50),
        Ok(())
    );
    assert_eq!(e.get_sale(sale_id).unwrap().max_tokens_per_buyer, 7);
    let before = e.get_sale(sale_id).unwrap();
    assert_eq!(
        e.update_sale_params(SELLER, sale_id, None, None, None, None, 50),
        Ok(())
    );
    assert_eq!(e.get_sale(sale_id).unwrap(), before);
}

#[test]
fn updated_window_enforced_on_purchase() {
    let (mut e, sale_id) = engine_with_sale();
    e.deposit(BUYER, PAYMENT_MINT, 10_000).unwrap();
    e.create_buyer_account(BUYER, sale_id).unwrap();
    e.update_sale_params(SELLER, sale_id, None, Some(300), Some(400), None, 50)
        .unwrap();
    assert_eq!(e.buy_tokens(BUYER, sale_id, 10, 150), Err(ErrorCode::SaleNotStarted));
    assert_eq!(e.buy_tokens(BUYER, sale_id, 10, 300), Ok(()));
}
