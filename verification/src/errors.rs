//! The failure reasons surfaced by the escrow engine.

use vstd::prelude::*;

verus! {

/// Every way an engine operation can fail. Each reason is distinct so a
/// caller can branch on it; no operation ever leaves a partial effect behind
/// when it reports one of these.
#[derive(Clone, Copy, Debug, PartialEq, Eq, Structural)]
pub enum ErrorCode {
    /// The sale has been cancelled (or the operation needs an active sale).
    SaleNotActive,
    /// The purchase asks for more than the remaining supply.
    InsufficientTokens,
    /// A checked computation would overflow.
    MathOverflow,
    /// The unit price must be greater than zero.
    InvalidPrice,
    /// The token amount must be greater than zero.
    InvalidTokenAmount,
    /// The window start must be a positive timestamp in the future.
    InvalidStartTime,
    /// The window end must lie after the window start.
    InvalidEndTime,
    /// The window end must not lie in the past.
    SaleEndTimeInPast,
    /// The purchase comes before the sale window opens.
    SaleNotStarted,
    /// The purchase comes after the sale window closed.
    SaleEnded,
    /// The sale is paused by its seller.
    SalePaused,
    /// The purchase would push the buyer past the per-buyer cap.
    ExceedsPurchaseLimit,
    /// The platform fee must be at most 10000 basis points.
    InvalidPlatformFee,
    /// Parameters can only change before the sale window opens.
    SaleAlreadyStarted,
    /// The caller is not the seller of the sale.
    Unauthorized,
    /// No sale exists under the given identifier.
    SaleNotFound,
    /// The buyer has no record for this sale yet.
    BuyerAccountNotFound,
    /// A sale for this (seller, asset) pair already exists.
    DuplicateSale,
    /// A record for this (buyer, sale) pair already exists.
    DuplicateBuyerAccount,
    /// A transfer leg was declined: the source balance is too small.
    InsufficientBalance,
}

impl ErrorCode {
    /// A short human-readable description of the failure reason.
    pub fn message(&self) -> (r: &'static str)
        ensures
            self is SaleNotActive ==> r@ == "Sale is not active"@,
            self is InsufficientTokens ==> r@ == "Insufficient tokens available"@,
            self is MathOverflow ==> r@ == "Math overflow"@,
            self is InvalidPrice ==> r@ == "Invalid price: must be greater than zero"@,
            self is InvalidTokenAmount ==> r@ == "Invalid token amount: must be greater than zero"@,
            self is InvalidStartTime ==> r@ == "Invalid start time: must be greater than zero"@,
            self is InvalidEndTime ==> r@ == "Invalid end time: must be after start time"@,
            self is SaleEndTimeInPast ==> r@ == "Sale end time cannot be in the past"@,
            self is SaleNotStarted ==> r@ == "Sale has not started yet"@,
            self is SaleEnded ==> r@ == "Sale has ended"@,
            self is SalePaused ==> r@ == "Sale is currently paused"@,
            self is ExceedsPurchaseLimit ==> r@ == "Purchase exceeds per-buyer limit"@,
            self is InvalidPlatformFee ==> r@ == "Invalid platform fee: must be 10000 basis points or less"@,
            self is SaleAlreadyStarted ==> r@ == "Sale has already started, cannot modify parameters"@,
            self is Unauthorized ==> r@ == "Caller is not authorized for this operation"@,
            self is SaleNotFound ==> r@ == "No sale exists under this identifier"@,
            self is BuyerAccountNotFound ==> r@ == "No buyer record exists for this sale"@,
            self is DuplicateSale ==> r@ == "A sale for this seller and asset already exists"@,
            self is DuplicateBuyerAccount ==> r@ == "A buyer record for this sale already exists"@,
            self is InsufficientBalance ==> r@ == "Transfer declined: insufficient balance"@,
    {
        match self {
            ErrorCode::SaleNotActive => "Sale is not active",
            ErrorCode::InsufficientTokens => "Insufficient tokens available",
            ErrorCode::MathOverflow => "Math overflow",
            ErrorCode::InvalidPrice => "Invalid price: must be greater than zero",
            ErrorCode::InvalidTokenAmount => "Invalid token amount: must be greater than zero",
            ErrorCode::InvalidStartTime => "Invalid start time: must be greater than zero",
            ErrorCode::InvalidEndTime => "Invalid end time: must be after start time",
            ErrorCode::SaleEndTimeInPast => "Sale end time cannot be in the past",
            ErrorCode::SaleNotStarted => "Sale has not started yet",
            ErrorCode::SaleEnded => "Sale has ended",
            ErrorCode::SalePaused => "Sale is currently paused",
            ErrorCode::ExceedsPurchaseLimit => "Purchase exceeds per-buyer limit",
            ErrorCode::InvalidPlatformFee => "Invalid platform fee: must be 10000 basis points or less",
            ErrorCode::SaleAlreadyStarted => "Sale has already started, cannot modify parameters",
            ErrorCode::Unauthorized => "Caller is not authorized for this operation",
            ErrorCode::SaleNotFound => "No sale exists under this identifier",
            ErrorCode::BuyerAccountNotFound => "No buyer record exists for this sale",
            ErrorCode::DuplicateSale => "A sale for this seller and asset already exists",
            ErrorCode::DuplicateBuyerAccount => "A buyer record for this sale already exists",
            ErrorCode::InsufficientBalance => "Transfer declined: insufficient balance",
        }
    }
}

} // verus!
