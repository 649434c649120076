//! Checked fee-split arithmetic for a purchase.
//!
//! The buyer pays exactly the gross (amount times unit price); the split
//! happens on the receiving side: the platform takes its basis-point cut of
//! the gross, rounded down, and the seller receives the rest.

use vstd::prelude::*;

use crate::errors::ErrorCode;

verus! {

/// The platform's cut of `gross` at `bps` basis points of the whole
/// (10000 basis points = 100%), rounded down.
pub open spec fn platform_fee_of(gross: int, bps: u16) -> int {
    if bps > 0 {
        (gross * bps) / 10000
    } else {
        0
    }
}

/// How a purchase's gross payment splits between seller and platform.
#[derive(Clone, Copy, Debug, PartialEq, Eq, Structural)]
pub struct PaymentSplit {
    /// What the buyer pays in total: token amount times unit price.
    pub gross: u64,
    /// The platform's cut of the gross.
    pub platform_fee: u64,
    /// What is left of the gross for the seller.
    pub seller_payment: u64,
}

/// The fee is never negative, never exceeds the gross it is taken from, and
/// fee plus seller payment give back the gross exactly: no rounding leakage.
pub proof fn lemma_fee_split(gross: u64, bps: u16)
    requires
        bps <= 10000,
    ensures
        0 <= platform_fee_of(gross as int, bps) <= gross,
        platform_fee_of(gross as int, bps) + (gross - platform_fee_of(gross as int, bps)) == gross,
{
    if bps > 0 {
        assert((gross * bps) / 10000 <= gross) by (nonlinear_arith)
            requires
                bps <= 10000,
                gross >= 0,
        ;
        assert((gross * bps) / 10000 >= 0) by (nonlinear_arith)
            requires
                gross >= 0,
                bps >= 0,
        ;
    }
}

/// Compute the gross payment and its fee split for a purchase of
/// `token_amount` units at `price_per_token`, with every step checked: any
/// overflow is reported instead of wrapping.
pub fn compute_payment(token_amount: u64, price_per_token: u64, platform_fee_bps: u16) -> (r:
    Result<PaymentSplit, ErrorCode>)
    requires
        platform_fee_bps <= 10000,
    ensures
        token_amount * price_per_token > u64::MAX ==> r == Err::<PaymentSplit, ErrorCode>(
            ErrorCode::MathOverflow,
        ),
        token_amount * price_per_token <= u64::MAX && platform_fee_bps > 0 && (token_amount
            * price_per_token) * platform_fee_bps > u64::MAX ==> r == Err::<
            PaymentSplit,
            ErrorCode,
        >(ErrorCode::MathOverflow),
        token_amount * price_per_token <= u64::MAX && (platform_fee_bps == 0 || (token_amount
            * price_per_token) * platform_fee_bps <= u64::MAX) ==> ({
            let gross = token_amount * price_per_token;
            let fee = platform_fee_of(gross, platform_fee_bps);
            r == Ok::<PaymentSplit, ErrorCode>(
                (PaymentSplit {
                    gross: gross as u64,
                    platform_fee: fee as u64,
                    seller_payment: (gross - fee) as u64,
                }),
            )
        }),
{
    let gross = match token_amount.checked_mul(price_per_token) {
        Some(g) => g,
        None => {
            return Err(ErrorCode::MathOverflow);
        },
    };
    let platform_fee: u64 = if platform_fee_bps > 0 {
        let scaled = match gross.checked_mul(platform_fee_bps as u64) {
            Some(s) => s,
            None => {
                return Err(ErrorCode::MathOverflow);
            },
        };
        scaled / 10000
    } else {
        0
    };
    proof {
        lemma_fee_split(gross, platform_fee_bps);
    }
    let seller_payment = gross - platform_fee;
    Ok(PaymentSplit { gross, platform_fee, seller_payment })
}

} // verus!
