//! The sale and buyer-record data model.

use vstd::prelude::*;

verus! {

/// One seller's listing of a fixed supply of an asset at a fixed unit price.
#[derive(Clone, Copy, Debug, PartialEq, Eq, Structural)]
pub struct TokenSale {
    /// The identity that created the sale; sole authority for cancelling,
    /// pausing and updating it.
    pub seller: u64,
    /// The asset being sold.
    pub token_mint: u64,
    /// The asset buyers pay with.
    pub payment_mint: u64,
    /// Units of the payment asset per unit of the sold asset.
    pub price_per_token: u64,
    /// The supply the sale was created with.
    pub total_tokens: u64,
    /// The supply still held in escrow and open for purchase.
    pub tokens_available: u64,
    /// The first timestamp at which purchases are admitted.
    pub sale_start_time: i64,
    /// The last timestamp at which purchases are admitted.
    pub sale_end_time: i64,
    /// The most one buyer may purchase in total; zero means no limit.
    pub max_tokens_per_buyer: u64,
    /// The platform's cut of every payment, in basis points of the gross.
    pub platform_fee_bps: u16,
    /// The identity the fee leg of every purchase goes to.
    pub platform_fee_recipient: u64,
    /// False once the sale is cancelled; cancellation is permanent.
    pub is_active: bool,
    /// True while the seller has purchases suspended.
    pub is_paused: bool,
}

impl TokenSale {
    /// What holds of every sale the engine ever stores.
    pub open spec fn wf(self) -> bool {
        &&& self.price_per_token > 0
        &&& self.total_tokens > 0
        &&& self.tokens_available <= self.total_tokens
        &&& self.platform_fee_bps <= 10000
        &&& self.sale_end_time > self.sale_start_time
        &&& !self.is_active ==> self.tokens_available == 0
    }
}

/// The cumulative purchases of one buyer against one sale.
#[derive(Clone, Copy, Debug, PartialEq, Eq, Structural)]
pub struct BuyerAccount {
    /// The buyer this record belongs to.
    pub buyer: u64,
    /// The sale this record counts purchases against.
    pub token_sale: usize,
    /// How many units this buyer has purchased so far; never decreases.
    pub tokens_purchased: u64,
}

} // verus!
