//! The ledger model: authorization, custody, and transfer semantics.

use escrow::ledger::AccountKey;
use escrow::ledger::Ledger;
use escrow::errors::ErrorCode;

const MINT: u64 = 1;

#[test]
fn transfer_requires_owner_authorization() {
    let mut l = Ledger::new();
    l.credit(MINT, AccountKey::User(1), 100).unwrap();
    assert_eq!(
        l.transfer(MINT, AccountKey::User(1), AccountKey::User(2), AccountKey::User(2), 50),
        Err(ErrorCode::Unauthorized)
    );
    assert_eq!(l.balance(MINT, AccountKey::User(1)), 100);
    assert_eq!(l.balance(MINT, AccountKey::User(2)), 0);
}

#[test]
fn vault_funds_need_the_custody_authority() {
    // No external identity can authorize a transfer out of a vault: only
    // the vault key itself can, and the engine never hands that key out.
    let mut l = Ledger::new();
    l.credit(MINT, AccountKey::Vault(0), 500).unwrap();
    assert_eq!(
        l.transfer(MINT, AccountKey::Vault(0), AccountKey::User(1), AccountKey::User(1), 500),
        Err(ErrorCode::Unauthorized)
    );
    assert_eq!(l.balance(MINT, AccountKey::Vault(0)), 500);
}

#[test]
fn transfer_fails_on_insufficient_balance() {
    let mut l = Ledger::new();
    l.credit(MINT, AccountKey::User(1), 50).unwrap();
    assert_eq!(
        l.transfer(MINT, AccountKey::User(1), AccountKey::User(2), AccountKey::User(1), 100),
        Err(ErrorCode::InsufficientBalance)
    );
    assert_eq!(l.balance(MINT, AccountKey::User(1)), 50);
    assert_eq!(l.balance(MINT, AccountKey::User(2)), 0);
}

#[test]
fn transfer_moves_exactly_the_amount() {
    let mut l = Ledger::new();
    l.credit(MINT, AccountKey::User(1), 100).unwrap();
    l.credit(2, AccountKey::User(1), 7).unwrap();
    assert_eq!(
        l.transfer(MINT, AccountKey::User(1), AccountKey::User(2), AccountKey::User(1), 30),
        Ok(())
    );
    assert_eq!(l.balance(MINT, AccountKey::User(1)), 70);
    assert_eq!(l.balance(MINT, AccountKey::User(2)), 30);
    // Balances under other assets are untouched.
    assert_eq!(l.balance(2, AccountKey::User(1)), 7);
}

#[test]
fn transfer_to_self_changes_nothing() {
    let mut l = Ledger::new();
    l.credit(MINT, AccountKey::User(1), 100).unwrap();
    assert_eq!(
        l.transfer(MINT, AccountKey::User(1), AccountKey::User(1), AccountKey::User(1), 60),
        Ok(())
    );
    assert_eq!(l.balance(MINT, AccountKey::User(1)), 100);
    // Even a self-transfer must be covered.
    assert_eq!(
        l.transfer(MINT, AccountKey::User(1), AccountKey::User(1), AccountKey::User(1), 101),
        Err(ErrorCode::InsufficientBalance)
    );
}

#[test]
fn transfer_overflow_on_destination() {
    let mut l = Ledger::new();
    l.credit(MINT, AccountKey::User(1), 100).unwrap();
    l.credit(MINT, AccountKey::User(2), u64::MAX).unwrap();
    assert_eq!(
        l.transfer(MINT, AccountKey::User(1), AccountKey::User(2), AccountKey::User(1), 1),
        Err(ErrorCode::MathOverflow)
    );
    assert_eq!(l.balance(MINT, AccountKey::User(1)), 100);
    assert_eq!(l.balance(MINT, AccountKey::User(2)), u64::MAX);
}

#[test]
fn credit_overflow_rejected() {
    let mut l = Ledger::new();
    l.credit(MINT, AccountKey::User(1), u64::MAX).unwrap();
    assert_eq!(l.credit(MINT, AccountKey::User(1), 1), Err(ErrorCode::MathOverflow));
    assert_eq!(l.balance(MINT, AccountKey::User(1)), u64::MAX);
}
