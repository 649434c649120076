//! The escrow engine: sale lifecycle, custody of the escrowed supply,
//! fee-split settlement, per-buyer limits, and all-or-nothing execution.
//!
//! The engine owns the sale registry, the buyer records and the ledger.
//! Holding the engine by `&mut` serializes operations, so the invariants
//! below hold before and after every call: the vault of every sale holds
//! exactly its remaining supply, and, while a sale is active, remaining
//! supply plus everything its buyers purchased equals the original supply.

use vstd::prelude::*;

use crate::errors::ErrorCode;
use crate::ledger::AccountKey;
use crate::ledger::Ledger;
use crate::payment::compute_payment;
use crate::payment::lemma_fee_split;
use crate::payment::platform_fee_of;
use crate::sale::BuyerAccount;
use crate::sale::TokenSale;

verus! {

/// The sum of all recorded purchases against the sale with index `sale_id`.
pub open spec fn sum_purchased(buyers: Seq<BuyerAccount>, sale_id: int) -> int
    decreases buyers.len(),
{
    if buyers.len() == 0 {
        0
    } else {
        sum_purchased(buyers.drop_last(), sale_id) + (if buyers.last().token_sale == sale_id {
            buyers.last().tokens_purchased as int
        } else {
            0
        })
    }
}

/// No two sales share a (seller, token mint) key.
pub open spec fn sales_unique(s: Seq<TokenSale>) -> bool {
    forall|i: int, j: int|
        0 <= i < j < s.len() ==> !(s[i].seller == s[j].seller && s[i].token_mint
            == s[j].token_mint)
}

/// No two buyer records share a (buyer, sale) key.
pub open spec fn buyers_unique(s: Seq<BuyerAccount>) -> bool {
    forall|i: int, j: int|
        0 <= i < j < s.len() ==> !(s[i].buyer == s[j].buyer && s[i].token_sale
            == s[j].token_sale)
}

proof fn lemma_sum_purchased_push(buyers: Seq<BuyerAccount>, b: BuyerAccount, sale_id: int)
    ensures
        sum_purchased(buyers.push(b), sale_id) == sum_purchased(buyers, sale_id) + (
        if b.token_sale == sale_id {
            b.tokens_purchased as int
        } else {
            0
        }),
{
    assert(buyers.push(b).drop_last() =~= buyers);
    assert(buyers.push(b).last() == b);
}

proof fn lemma_sum_purchased_update(
    buyers: Seq<BuyerAccount>,
    i: int,
    b: BuyerAccount,
    sale_id: int,
)
    requires
        0 <= i < buyers.len(),
    ensures
        sum_purchased(buyers.update(i, b), sale_id) == sum_purchased(buyers, sale_id) - (
        if buyers[i].token_sale == sale_id {
            buyers[i].tokens_purchased as int
        } else {
            0
        }) + (if b.token_sale == sale_id {
            b.tokens_purchased as int
        } else {
            0
        }),
    decreases buyers.len(),
{
    let u = buyers.update(i, b);
    if i == buyers.len() - 1 {
        assert(u.drop_last() =~= buyers.drop_last());
        assert(u.last() == b);
    } else {
        assert(u.drop_last() =~= buyers.drop_last().update(i, b));
        lemma_sum_purchased_update(buyers.drop_last(), i, b, sale_id);
        assert(u.last() == buyers.last());
    }
}

proof fn lemma_sum_purchased_nonneg(buyers: Seq<BuyerAccount>, sale_id: int)
    ensures
        sum_purchased(buyers, sale_id) >= 0,
    decreases buyers.len(),
{
    if buyers.len() > 0 {
        lemma_sum_purchased_nonneg(buyers.drop_last(), sale_id);
    }
}

proof fn lemma_sum_purchased_at_least(buyers: Seq<BuyerAccount>, i: int, sale_id: int)
    requires
        0 <= i < buyers.len(),
        buyers[i].token_sale == sale_id,
    ensures
        buyers[i].tokens_purchased <= sum_purchased(buyers, sale_id),
    decreases buyers.len(),
{
    if i == buyers.len() - 1 {
        lemma_sum_purchased_nonneg(buyers.drop_last(), sale_id);
    } else {
        assert(buyers.drop_last()[i] == buyers[i]);
        lemma_sum_purchased_at_least(buyers.drop_last(), i, sale_id);
    }
}

proof fn lemma_sum_purchased_absent(buyers: Seq<BuyerAccount>, sale_id: int)
    requires
        forall|j: int| 0 <= j < buyers.len() ==> buyers[j].token_sale != sale_id,
    ensures
        sum_purchased(buyers, sale_id) == 0,
    decreases buyers.len(),
{
    if buyers.len() > 0 {
        lemma_sum_purchased_absent(buyers.drop_last(), sale_id);
    }
}

proof fn lemma_buyers_unique_match(s: Seq<BuyerAccount>, i: int, j: int)
    requires
        buyers_unique(s),
        0 <= i < s.len(),
        0 <= j < s.len(),
        s[i].buyer == s[j].buyer,
        s[i].token_sale == s[j].token_sale,
    ensures
        i == j,
{
}

/// The first reason the three transfer legs of a purchase fail on this
/// ledger, if any: buyer pays the seller, buyer pays the platform, vault
/// releases the tokens, in that order.
pub open spec fn settlement_error(
    l: Ledger,
    payment_mint: u64,
    token_mint: u64,
    buyer: u64,
    seller: u64,
    fee_recipient: u64,
    sale_id: usize,
    seller_payment: int,
    platform_fee: int,
    token_amount: int,
) -> Option<ErrorCode> {
    let b = AccountKey::User(buyer);
    let sl = AccountKey::User(seller);
    let fr = AccountKey::User(fee_recipient);
    let v = AccountKey::Vault(sale_id);
    if seller_payment > 0 && !l.can_transfer(payment_mint, b, sl, seller_payment) {
        Some(l.transfer_refusal(payment_mint, b, seller_payment))
    } else {
        let pay_b_1 = l.bal(payment_mint, b) + (if seller_payment > 0 && b == sl {
            seller_payment
        } else {
            0
        }) - (if seller_payment > 0 {
            seller_payment
        } else {
            0
        });
        let pay_fr_1 = l.bal(payment_mint, fr) + (if seller_payment > 0 && fr == sl {
            seller_payment
        } else {
            0
        }) - (if seller_payment > 0 && fr == b {
            seller_payment
        } else {
            0
        });
        if platform_fee > 0 && pay_b_1 < platform_fee {
            Some(ErrorCode::InsufficientBalance)
        } else if platform_fee > 0 && b != fr && pay_fr_1 + platform_fee > u64::MAX {
            Some(ErrorCode::MathOverflow)
        } else {
            let tok_b_2 = l.bal(token_mint, b) + (if seller_payment > 0 && payment_mint
                == token_mint && b == sl {
                seller_payment
            } else {
                0
            }) - (if seller_payment > 0 && payment_mint == token_mint {
                seller_payment
            } else {
                0
            }) + (if platform_fee > 0 && payment_mint == token_mint && b == fr {
                platform_fee
            } else {
                0
            }) - (if platform_fee > 0 && payment_mint == token_mint {
                platform_fee
            } else {
                0
            });
            if l.bal(token_mint, v) < token_amount {
                Some(ErrorCode::InsufficientBalance)
            } else if tok_b_2 + token_amount > u64::MAX {
                Some(ErrorCode::MathOverflow)
            } else {
                None
            }
        }
    }
}

/// `post` is `pre` after all three legs of a purchase settled: the buyer
/// paid seller payment plus platform fee, the seller and the fee recipient
/// each received their share, and the vault released the tokens.
pub open spec fn settlement_applied(
    pre: Ledger,
    post: Ledger,
    payment_mint: u64,
    token_mint: u64,
    buyer: u64,
    seller: u64,
    fee_recipient: u64,
    sale_id: usize,
    seller_payment: int,
    platform_fee: int,
    token_amount: int,
) -> bool {
    forall|m: u64, o: AccountKey|
        post.bal(m, o) == pre.bal(m, o) + (if m == payment_mint && o == AccountKey::User(seller) {
            seller_payment
        } else {
            0
        }) + (if m == payment_mint && o == AccountKey::User(fee_recipient) {
            platform_fee
        } else {
            0
        }) - (if m == payment_mint && o == AccountKey::User(buyer) {
            seller_payment + platform_fee
        } else {
            0
        }) + (if m == token_mint && o == AccountKey::User(buyer) {
            token_amount
        } else {
            0
        }) - (if m == token_mint && o == AccountKey::Vault(sale_id) {
            token_amount
        } else {
            0
        })
}

/// Run the three transfer legs of a purchase as one atomic unit. Legs
/// already performed are reversed before a failure is reported, so a failed
/// settlement leaves every balance as it was.
#[verifier::rlimit(100)]
fn settle_purchase(
    l: &mut Ledger,
    payment_mint: u64,
    token_mint: u64,
    buyer: u64,
    seller: u64,
    fee_recipient: u64,
    sale_id: usize,
    seller_payment: u64,
    platform_fee: u64,
    token_amount: u64,
) -> (r: Result<(), ErrorCode>)
    requires
        old(l).wf(),
    ensures
        final(l).wf(),
        match settlement_error(
            *old(l),
            payment_mint,
            token_mint,
            buyer,
            seller,
            fee_recipient,
            sale_id,
            seller_payment as int,
            platform_fee as int,
            token_amount as int,
        ) {
            Some(e) => r == Err::<(), ErrorCode>(e) && final(l).same_balances(*old(l)),
            None => r == Ok::<(), ErrorCode>(()) && settlement_applied(
                *old(l),
                *final(l),
                payment_mint,
                token_mint,
                buyer,
                seller,
                fee_recipient,
                sale_id,
                seller_payment as int,
                platform_fee as int,
                token_amount as int,
            ),
        },
{
    let b = AccountKey::User(buyer);
    let sl = AccountKey::User(seller);
    let fr = AccountKey::User(fee_recipient);
    let v = AccountKey::Vault(sale_id);
    proof {
        old(l).lemma_bal_bounds(payment_mint, b);
        old(l).lemma_bal_bounds(payment_mint, sl);
        old(l).lemma_bal_bounds(payment_mint, fr);
        old(l).lemma_bal_bounds(token_mint, b);
        old(l).lemma_bal_bounds(token_mint, v);
    }
    if seller_payment > 0 {
        match l.transfer(payment_mint, b, sl, b, seller_payment) {
            Ok(()) => {},
            Err(e) => {
                return Err(e);
            },
        }
    }
    if platform_fee > 0 {
        match l.transfer(payment_mint, b, fr, b, platform_fee) {
            Ok(()) => {},
            Err(e) => {
                if seller_payment > 0 {
                    proof {
                        assert(l.can_transfer(payment_mint, sl, b, seller_payment as int));
                    }
                    match l.transfer(payment_mint, sl, b, sl, seller_payment) {
                        Ok(()) => {},
                        Err(_) => {
                            proof {
                                assert(false);
                            }
                        },
                    }
                }
                return Err(e);
            },
        }
    }
    match l.transfer(token_mint, v, b, v, token_amount) {
        Ok(()) => {},
        Err(e) => {
            if platform_fee > 0 {
                proof {
                    assert(l.can_transfer(payment_mint, fr, b, platform_fee as int));
                }
                match l.transfer(payment_mint, fr, b, fr, platform_fee) {
                    Ok(()) => {},
                    Err(_) => {
                        proof {
                            assert(false);
                        }
                    },
                }
            }
            if seller_payment > 0 {
                proof {
                    assert(l.can_transfer(payment_mint, sl, b, seller_payment as int));
                }
                match l.transfer(payment_mint, sl, b, sl, seller_payment) {
                    Ok(()) => {},
                    Err(_) => {
                        proof {
                            assert(false);
                        }
                    },
                }
            }
            return Err(e);
        },
    }
    Ok(())
}

/// The escrow engine: the sale registry, the buyer ledger, and the balance
/// ledger holding every vault and every external balance the engine knows.
pub struct EscrowEngine {
    sales: Vec<TokenSale>,
    buyers: Vec<BuyerAccount>,
    ledger: Ledger,
}

impl EscrowEngine {
    /// The sales the engine has created, indexed by sale identifier.
    pub closed spec fn spec_sales(self) -> Seq<TokenSale> {
        self.sales@
    }

    /// Every buyer record the engine has created.
    pub closed spec fn spec_buyers(self) -> Seq<BuyerAccount> {
        self.buyers@
    }

    /// The balance ledger the engine settles against.
    pub closed spec fn spec_ledger(self) -> Ledger {
        self.ledger
    }

    /// A sale exists under this identifier.
    pub open spec fn has_sale(self, sale_id: int) -> bool {
        0 <= sale_id < self.spec_sales().len()
    }

    /// The sale stored under this identifier.
    pub open spec fn sale_at(self, sale_id: int) -> TokenSale {
        self.spec_sales()[sale_id]
    }

    /// Some sale already carries this (seller, token mint) key.
    pub open spec fn is_duplicate_sale(self, seller: u64, token_mint: u64) -> bool {
        exists|j: int|
            0 <= j < self.spec_sales().len() && self.spec_sales()[j].seller == seller
                && self.spec_sales()[j].token_mint == token_mint
    }

    /// A record exists for this (buyer, sale) pair.
    pub open spec fn has_buyer_record(self, buyer: u64, sale_id: int) -> bool {
        exists|i: int|
            0 <= i < self.spec_buyers().len() && self.spec_buyers()[i].buyer == buyer
                && self.spec_buyers()[i].token_sale == sale_id
    }

    /// The record for this (buyer, sale) pair; meaningful when one exists.
    pub open spec fn buyer_record_at(self, buyer: u64, sale_id: int) -> BuyerAccount {
        self.spec_buyers()[choose|i: int|
            0 <= i < self.spec_buyers().len() && self.spec_buyers()[i].buyer == buyer
                && self.spec_buyers()[i].token_sale == sale_id]
    }

    /// What this buyer has purchased against this sale so far.
    pub open spec fn tokens_purchased_by(self, buyer: u64, sale_id: int) -> int {
        if self.has_buyer_record(buyer, sale_id) {
            self.buyer_record_at(buyer, sale_id).tokens_purchased as int
        } else {
            0
        }
    }

    /// The engine's invariant, held before and after every operation:
    /// well-formed ledger and sales, unique sale and record keys, records
    /// pointing at existing sales, every vault holding exactly its sale's
    /// remaining supply (custody), every active sale's remaining supply plus
    /// its buyers' recorded purchases equalling its original supply
    /// (conservation), and no funds under a vault key without a sale.
    pub open spec fn inv(self) -> bool {
        &&& self.spec_ledger().wf()
        &&& sales_unique(self.spec_sales())
        &&& buyers_unique(self.spec_buyers())
        &&& forall|i: int|
            0 <= i < self.spec_buyers().len() ==> (#[trigger] self.spec_buyers()[i]).token_sale
                < self.spec_sales().len()
        &&& forall|i: int|
            0 <= i < self.spec_sales().len() ==> (#[trigger] self.spec_sales()[i]).wf()
        &&& forall|i: int|
            0 <= i < self.spec_sales().len() ==> self.spec_ledger().bal(
                (#[trigger] self.spec_sales()[i]).token_mint,
                AccountKey::Vault(i as usize),
            ) == self.spec_sales()[i].tokens_available
        &&& forall|i: int|
            0 <= i < self.spec_sales().len() && (#[trigger] self.spec_sales()[i]).is_active
                ==> self.spec_sales()[i].tokens_available + sum_purchased(
                self.spec_buyers(),
                i,
            ) == self.spec_sales()[i].total_tokens
        &&& forall|m: u64, j: usize|
            j >= self.spec_sales().len() ==> #[trigger] self.spec_ledger().bal(
                m,
                AccountKey::Vault(j),
            ) == 0
    }

    /// Nothing observable distinguishes the two engine states.
    pub open spec fn same_state(self, other: EscrowEngine) -> bool {
        &&& self.spec_sales() == other.spec_sales()
        &&& self.spec_buyers() == other.spec_buyers()
        &&& self.spec_ledger().same_balances(other.spec_ledger())
    }

    /// An engine with no sales, no buyer records and an empty ledger.
    pub fn new() -> (r: EscrowEngine)
        ensures
            r.inv(),
            r.spec_sales().len() == 0,
            r.spec_buyers().len() == 0,
            forall|m: u64, o: AccountKey| r.spec_ledger().bal(m, o) == 0,
    {
        EscrowEngine { sales: Vec::new(), buyers: Vec::new(), ledger: Ledger::new() }
    }

    /// How many sales the engine has created.
    pub fn sale_count(&self) -> (r: usize)
        ensures
            r == self.spec_sales().len(),
    {
        self.sales.len()
    }

    /// The sale stored under `sale_id`, if any.
    pub fn get_sale(&self, sale_id: usize) -> (r: Option<TokenSale>)
        ensures
            r is Some <==> self.has_sale(sale_id as int),
            r matches Some(s) ==> s == self.sale_at(sale_id as int),
    {
        if sale_id < self.sales.len() {
            Some(self.sales[sale_id])
        } else {
            None
        }
    }

    /// The record for this (buyer, sale) pair, if any.
    pub fn buyer_record(&self, buyer: u64, sale_id: usize) -> (r: Option<BuyerAccount>)
        requires
            self.inv(),
        ensures
            r is Some <==> self.has_buyer_record(buyer, sale_id as int),
            r matches Some(rec) ==> rec.buyer == buyer && rec.token_sale == sale_id
                && rec.tokens_purchased == self.tokens_purchased_by(buyer, sale_id as int),
    {
        match self.find_buyer_index(buyer, sale_id) {
            Some(i) => {
                proof {
                    self.lemma_record_at_index(buyer, sale_id as int, i as int);
                }
                Some(self.buyers[i])
            },
            None => None,
        }
    }

    /// The balance the ledger gives an external identity in asset `mint`.
    pub fn balance_of(&self, holder: u64, mint: u64) -> (r: u64)
        requires
            self.inv(),
        ensures
            r as int == self.spec_ledger().bal(mint, AccountKey::User(holder)),
    {
        self.ledger.balance(mint, AccountKey::User(holder))
    }

    /// The balance held in the vault of the sale under `sale_id`, in that
    /// sale's own token mint.
    pub fn vault_balance(&self, sale_id: usize) -> (r: Option<u64>)
        requires
            self.inv(),
        ensures
            r is Some <==> self.has_sale(sale_id as int),
            r matches Some(v) ==> v as int == self.spec_ledger().bal(
                self.sale_at(sale_id as int).token_mint,
                AccountKey::Vault(sale_id),
            ),
    {
        if sale_id < self.sales.len() {
            Some(self.ledger.balance(self.sales[sale_id].token_mint, AccountKey::Vault(sale_id)))
        } else {
            None
        }
    }

    /// Endow an external identity with `amount` of asset `mint`. This stands
    /// for funds arriving from outside the engine; it cannot touch a vault.
    pub fn deposit(&mut self, holder: u64, mint: u64, amount: u64) -> (r: Result<(), ErrorCode>)
        requires
            old(self).inv(),
        ensures
            final(self).inv(),
            final(self).spec_sales() == old(self).spec_sales(),
            final(self).spec_buyers() == old(self).spec_buyers(),
            old(self).spec_ledger().bal(mint, AccountKey::User(holder)) + amount > u64::MAX ==> r
                == Err::<(), ErrorCode>(ErrorCode::MathOverflow) && final(self).same_state(
                *old(self),
            ),
            old(self).spec_ledger().bal(mint, AccountKey::User(holder)) + amount <= u64::MAX ==> r
                == Ok::<(), ErrorCode>(()) && final(self).spec_ledger().bal(
                mint,
                AccountKey::User(holder),
            ) == old(self).spec_ledger().bal(mint, AccountKey::User(holder)) + amount && forall|
                m: u64,
                o: AccountKey,
            |
                !(m == mint && o == AccountKey::User(holder)) ==> final(self).spec_ledger().bal(
                    m,
                    o,
                ) == old(self).spec_ledger().bal(m, o),
    {
        let r = self.ledger.credit(mint, AccountKey::User(holder), amount);
        r
    }

    /// The index of the record for this (buyer, sale) pair, if one exists.
    fn find_buyer_index(&self, buyer: u64, sale_id: usize) -> (r: Option<usize>)
        ensures
            match r {
                Some(i) => i < self.spec_buyers().len() && self.spec_buyers()[i as int].buyer
                    == buyer && self.spec_buyers()[i as int].token_sale == sale_id,
                None => !self.has_buyer_record(buyer, sale_id as int),
            },
    {
        let mut i: usize = 0;
        while i < self.buyers.len()
            invariant
                i <= self.buyers@.len(),
                forall|j: int|
                    0 <= j < i ==> !(self.buyers@[j].buyer == buyer && self.buyers@[j].token_sale
                        == sale_id),
            decreases self.buyers@.len() - i,
        {
            if self.buyers[i].buyer == buyer && self.buyers[i].token_sale == sale_id {
                return Some(i);
            }
            i = i + 1;
        }
        None
    }

    /// Some sale already carries this (seller, token mint) key.
    fn sale_key_exists(&self, seller: u64, token_mint: u64) -> (r: bool)
        ensures
            r == self.is_duplicate_sale(seller, token_mint),
    {
        let mut i: usize = 0;
        while i < self.sales.len()
            invariant
                i <= self.sales@.len(),
                forall|j: int|
                    0 <= j < i ==> !(self.sales@[j].seller == seller && self.sales@[j].token_mint
                        == token_mint),
            decreases self.sales@.len() - i,
        {
            if self.sales[i].seller == seller && self.sales[i].token_mint == token_mint {
                proof {
                    assert(self.spec_sales()[i as int].seller == seller && self.spec_sales()[
                        i as int
                    ].token_mint == token_mint);
                }
                return true;
            }
            i = i + 1;
        }
        false
    }

    /// An index holding this (buyer, sale) key holds the record
    /// `buyer_record_at` speaks of: record keys are unique.
    proof fn lemma_record_at_index(self, buyer: u64, sale_id: int, i: int)
        requires
            buyers_unique(self.spec_buyers()),
            0 <= i < self.spec_buyers().len(),
            self.spec_buyers()[i].buyer == buyer,
            self.spec_buyers()[i].token_sale == sale_id,
        ensures
            self.has_buyer_record(buyer, sale_id),
            self.buyer_record_at(buyer, sale_id) == self.spec_buyers()[i],
    {
        assert(self.has_buyer_record(buyer, sale_id));
        let c = choose|c: int|
            0 <= c < self.spec_buyers().len() && self.spec_buyers()[c].buyer == buyer
                && self.spec_buyers()[c].token_sale == sale_id;
        lemma_buyers_unique_match(self.spec_buyers(), i, c);
    }

    /// The first reason creating this sale is refused, if any: a duplicate
    /// (seller, asset) key, an invalid parameter, a window already over, or
    /// a seller balance too small for the deposit into custody.
    pub open spec fn create_sale_error(
        self,
        seller: u64,
        token_mint: u64,
        price_per_token: u64,
        total_tokens: u64,
        sale_start_time: i64,
        sale_end_time: i64,
        platform_fee_bps: u16,
        now: i64,
    ) -> Option<ErrorCode> {
        if self.is_duplicate_sale(seller, token_mint) {
            Some(ErrorCode::DuplicateSale)
        } else if price_per_token == 0 {
            Some(ErrorCode::InvalidPrice)
        } else if total_tokens == 0 {
            Some(ErrorCode::InvalidTokenAmount)
        } else if sale_start_time <= 0 {
            Some(ErrorCode::InvalidStartTime)
        } else if sale_end_time <= sale_start_time {
            Some(ErrorCode::InvalidEndTime)
        } else if platform_fee_bps > 10000 {
            Some(ErrorCode::InvalidPlatformFee)
        } else if sale_end_time <= now {
            Some(ErrorCode::SaleEndTimeInPast)
        } else if self.spec_ledger().bal(token_mint, AccountKey::User(seller)) < total_tokens {
            Some(ErrorCode::InsufficientBalance)
        } else {
            None
        }
    }

    /// The sale record a successful creation stores: full supply available,
    /// active, not paused.
    pub open spec fn new_sale(
        seller: u64,
        token_mint: u64,
        payment_mint: u64,
        price_per_token: u64,
        total_tokens: u64,
        sale_start_time: i64,
        sale_end_time: i64,
        max_tokens_per_buyer: u64,
        platform_fee_bps: u16,
        platform_fee_recipient: u64,
    ) -> TokenSale {
        TokenSale {
            seller,
            token_mint,
            payment_mint,
            price_per_token,
            total_tokens,
            tokens_available: total_tokens,
            sale_start_time,
            sale_end_time,
            max_tokens_per_buyer,
            platform_fee_bps,
            platform_fee_recipient,
            is_active: true,
            is_paused: false,
        }
    }

    /// Create a sale and deposit its whole supply into the sale's vault, as
    /// one atomic unit: when any check or the deposit fails, nothing
    /// changes. On success the new sale's identifier is returned.
    pub fn initialize_sale(
        &mut self,
        seller: u64,
        token_mint: u64,
        payment_mint: u64,
        price_per_token: u64,
        total_tokens: u64,
        sale_start_time: i64,
        sale_end_time: i64,
        max_tokens_per_buyer: u64,
        platform_fee_bps: u16,
        platform_fee_recipient: u64,
        now: i64,
    ) -> (r: Result<usize, ErrorCode>)
        requires
            old(self).inv(),
        ensures
            final(self).inv(),
            match old(self).create_sale_error(
                seller,
                token_mint,
                price_per_token,
                total_tokens,
                sale_start_time,
                sale_end_time,
                platform_fee_bps,
                now,
            ) {
                Some(e) => r == Err::<usize, ErrorCode>(e) && final(self).same_state(*old(self)),
                None => {
                    &&& r == Ok::<usize, ErrorCode>((old(self).spec_sales().len() as usize))
                    &&& final(self).spec_sales() == old(self).spec_sales().push(
                        Self::new_sale(
                            seller,
                            token_mint,
                            payment_mint,
                            price_per_token,
                            total_tokens,
                            sale_start_time,
                            sale_end_time,
                            max_tokens_per_buyer,
                            platform_fee_bps,
                            platform_fee_recipient,
                        ),
                    )
                    &&& final(self).spec_buyers() == old(self).spec_buyers()
                    &&& forall|m: u64, o: AccountKey|
                        final(self).spec_ledger().bal(m, o) == old(self).spec_ledger().bal(m, o)
                            + (if m == token_mint && o == AccountKey::Vault(
                            (old(self).spec_sales().len() as usize),
                        ) {
                            total_tokens as int
                        } else {
                            0
                        }) - (if m == token_mint && o == AccountKey::User(seller) {
                            total_tokens as int
                        } else {
                            0
                        })
                },
            },
    {
        if self.sale_key_exists(seller, token_mint) {
            return Err(ErrorCode::DuplicateSale);
        }
        if price_per_token == 0 {
            return Err(ErrorCode::InvalidPrice);
        }
        if total_tokens == 0 {
            return Err(ErrorCode::InvalidTokenAmount);
        }
        if sale_start_time <= 0 {
            return Err(ErrorCode::InvalidStartTime);
        }
        if sale_end_time <= sale_start_time {
            return Err(ErrorCode::InvalidEndTime);
        }
        if platform_fee_bps > 10000 {
            return Err(ErrorCode::InvalidPlatformFee);
        }
        if sale_end_time <= now {
            return Err(ErrorCode::SaleEndTimeInPast);
        }
        let sale_id = self.sales.len();
        let vault = AccountKey::Vault(sale_id);
        proof {
            assert(old(self).spec_ledger().bal(token_mint, vault) == 0);
        }
        match self.ledger.transfer(
            token_mint,
            AccountKey::User(seller),
            vault,
            AccountKey::User(seller),
            total_tokens,
        ) {
            Err(e) => {
                return Err(e);
            },
            Ok(()) => {},
        }
        let sale = TokenSale {
            seller,
            token_mint,
            payment_mint,
            price_per_token,
            total_tokens,
            tokens_available: total_tokens,
            sale_start_time,
            sale_end_time,
            max_tokens_per_buyer,
            platform_fee_bps,
            platform_fee_recipient,
            is_active: true,
            is_paused: false,
        };
        self.sales.push(sale);
        proof {
            let pre = *old(self);
            let post = *self;
            let n = pre.spec_sales().len() as int;
            assert(post.spec_sales().len() == n + 1);
            assert forall|i: int, j: int|
                0 <= i < j < post.spec_sales().len() implies !(post.spec_sales()[i].seller
                == post.spec_sales()[j].seller && post.spec_sales()[i].token_mint
                == post.spec_sales()[j].token_mint) by {
                if j < n {
                    assert(post.spec_sales()[i] == pre.spec_sales()[i]);
                    assert(post.spec_sales()[j] == pre.spec_sales()[j]);
                } else {
                    assert(post.spec_sales()[i] == pre.spec_sales()[i]);
                    assert(post.spec_sales()[j] == sale);
                }
            }
            assert forall|i: int| 0 <= i < post.spec_sales().len() implies (
            #[trigger] post.spec_sales()[i]).wf() by {
                if i < n {
                    assert(post.spec_sales()[i] == pre.spec_sales()[i]);
                } else {
                    assert(post.spec_sales()[i] == sale);
                }
            }
            assert forall|i: int|
                0 <= i < post.spec_sales().len() implies post.spec_ledger().bal(
                (#[trigger] post.spec_sales()[i]).token_mint,
                AccountKey::Vault(i as usize),
            ) == post.spec_sales()[i].tokens_available by {
                if i < n {
                    assert(post.spec_sales()[i] == pre.spec_sales()[i]);
                    assert(AccountKey::Vault(i as usize) != vault);
                    assert(AccountKey::Vault(i as usize) != AccountKey::User(seller));
                } else {
                    assert(post.spec_sales()[i] == sale);
                    assert(pre.spec_ledger().bal(token_mint, vault) == 0);
                }
            }
            assert forall|i: int|
                0 <= i < post.spec_sales().len()
                    && (#[trigger] post.spec_sales()[i]).is_active implies post.spec_sales()[i].tokens_available
                + sum_purchased(post.spec_buyers(), i) == post.spec_sales()[i].total_tokens by {
                if i < n {
                    assert(post.spec_sales()[i] == pre.spec_sales()[i]);
                } else {
                    assert(post.spec_sales()[i] == sale);
                    assert forall|j: int|
                        0 <= j < post.spec_buyers().len() implies post.spec_buyers()[j].token_sale
                        != i by {
                        assert((#[trigger] post.spec_buyers()[j]).token_sale
                            < pre.spec_sales().len());
                    }
                    lemma_sum_purchased_absent(post.spec_buyers(), i);
                }
            }
            assert forall|m: u64, j: usize|
                j >= post.spec_sales().len() implies #[trigger] post.spec_ledger().bal(
                m,
                AccountKey::Vault(j),
            ) == 0 by {
                assert(pre.spec_ledger().bal(m, AccountKey::Vault(j)) == 0);
                assert(AccountKey::Vault(j) != vault);
                assert(AccountKey::Vault(j) != AccountKey::User(seller));
            }
        }
        Ok(sale_id)
    }

    /// Create the zero-valued purchase record for (buyer, sale). A second
    /// creation for the same pair is refused as a duplicate, not absorbed.
    pub fn create_buyer_account(&mut self, buyer: u64, sale_id: usize) -> (r: Result<
        (),
        ErrorCode,
    >)
        requires
            old(self).inv(),
        ensures
            final(self).inv(),
            !old(self).has_sale(sale_id as int) ==> r == Err::<(), ErrorCode>(
                ErrorCode::SaleNotFound,
            ) && final(self).same_state(*old(self)),
            old(self).has_sale(sale_id as int) && old(self).has_buyer_record(
                buyer,
                sale_id as int,
            ) ==> r == Err::<(), ErrorCode>(ErrorCode::DuplicateBuyerAccount) && final(self).same_state(*old(self)),
            old(self).has_sale(sale_id as int) && !old(self).has_buyer_record(
                buyer,
                sale_id as int,
            ) ==> r == Ok::<(), ErrorCode>(()) && final(self).spec_buyers() == old(self).spec_buyers().push(
                (BuyerAccount { buyer, token_sale: sale_id, tokens_purchased: 0 }),
            ) && final(self).spec_sales() == old(self).spec_sales() && final(self).spec_ledger().same_balances(old(self).spec_ledger()) && final(self).has_buyer_record(
                buyer,
                sale_id as int,
            ),
    {
        if sale_id >= self.sales.len() {
            return Err(ErrorCode::SaleNotFound);
        }
        match self.find_buyer_index(buyer, sale_id) {
            Some(_) => Err(ErrorCode::DuplicateBuyerAccount),
            None => {
                let rec = BuyerAccount { buyer, token_sale: sale_id, tokens_purchased: 0 };
                self.buyers.push(rec);
                proof {
                    let pre = old(self).spec_buyers();
                    let post = self.spec_buyers();
                    assert(post[pre.len() as int] == rec);
                    assert forall|i: int, j: int|
                        0 <= i < j < post.len() implies !(post[i].buyer == post[j].buyer
                        && post[i].token_sale == post[j].token_sale) by {
                        if j < pre.len() {
                            assert(post[i] == pre[i]);
                            assert(post[j] == pre[j]);
                        } else {
                            assert(post[i] == pre[i]);
                            assert(post[j] == rec);
                        }
                    }
                    assert forall|i: int|
                        0 <= i < self.spec_sales().len()
                            && (#[trigger] self.spec_sales()[i]).is_active implies self.spec_sales()[i].tokens_available
                        + sum_purchased(post, i) == self.spec_sales()[i].total_tokens by {
                        lemma_sum_purchased_push(pre, rec, i);
                    }
                    assert(self.has_buyer_record(buyer, sale_id as int));
                }
                Ok(())
            },
        }
    }

    /// Flip the paused flag of an active sale; only its seller may. No funds
    /// move.
    pub fn toggle_pause(&mut self, caller: u64, sale_id: usize) -> (r: Result<(), ErrorCode>)
        requires
            old(self).inv(),
        ensures
            final(self).inv(),
            !old(self).has_sale(sale_id as int) ==> r == Err::<(), ErrorCode>(
                ErrorCode::SaleNotFound,
            ) && final(self).same_state(*old(self)),
            old(self).has_sale(sale_id as int) && caller != old(self).sale_at(
                sale_id as int,
            ).seller ==> r == Err::<(), ErrorCode>(ErrorCode::Unauthorized) && final(self).same_state(*old(self)),
            old(self).has_sale(sale_id as int) && caller == old(self).sale_at(sale_id as int).seller
                && !old(self).sale_at(sale_id as int).is_active ==> r == Err::<(), ErrorCode>(
                ErrorCode::SaleNotActive,
            ) && final(self).same_state(*old(self)),
            old(self).has_sale(sale_id as int) && caller == old(self).sale_at(sale_id as int).seller
                && old(self).sale_at(sale_id as int).is_active ==> r == Ok::<(), ErrorCode>(())
                && final(self).spec_sales() == old(self).spec_sales().update(
                sale_id as int,
                (TokenSale {
                    is_paused: !old(self).sale_at(sale_id as int).is_paused,
                    ..old(self).sale_at(sale_id as int)
                }),
            ) && final(self).spec_buyers() == old(self).spec_buyers() && final(self).spec_ledger().same_balances(old(self).spec_ledger()),
    {
        if sale_id >= self.sales.len() {
            return Err(ErrorCode::SaleNotFound);
        }
        let s = self.sales[sale_id];
        if caller != s.seller {
            return Err(ErrorCode::Unauthorized);
        }
        if !s.is_active {
            return Err(ErrorCode::SaleNotActive);
        }
        let updated = TokenSale { is_paused: !s.is_paused, ..s };
        self.sales.set(sale_id, updated);
        proof {
            self.lemma_sale_field_update_preserves_inv(*old(self), sale_id as int);
        }
        Ok(())
    }

    /// What the buyer owes in total for this purchase.
    pub open spec fn purchase_gross(s: TokenSale, token_amount: u64) -> int {
        token_amount * s.price_per_token
    }

    /// The platform's cut of this purchase's gross.
    pub open spec fn purchase_fee(s: TokenSale, token_amount: u64) -> int {
        platform_fee_of(Self::purchase_gross(s, token_amount), s.platform_fee_bps)
    }

    /// What the seller receives of this purchase's gross.
    pub open spec fn purchase_seller_payment(s: TokenSale, token_amount: u64) -> int {
        Self::purchase_gross(s, token_amount) - Self::purchase_fee(s, token_amount)
    }

    /// The first reason this purchase is turned away before any transfer
    /// leg runs, if any: the admission checks in the order they are made,
    /// then the checked payment computation.
    pub open spec fn purchase_precheck(
        self,
        buyer: u64,
        sale_id: usize,
        token_amount: u64,
        now: i64,
    ) -> Option<ErrorCode> {
        if !self.has_sale(sale_id as int) {
            Some(ErrorCode::SaleNotFound)
        } else if !self.has_buyer_record(buyer, sale_id as int) {
            Some(ErrorCode::BuyerAccountNotFound)
        } else {
            let s = self.sale_at(sale_id as int);
            if !s.is_active {
                Some(ErrorCode::SaleNotActive)
            } else if s.is_paused {
                Some(ErrorCode::SalePaused)
            } else if token_amount == 0 {
                Some(ErrorCode::InvalidTokenAmount)
            } else if token_amount > s.tokens_available {
                Some(ErrorCode::InsufficientTokens)
            } else if now < s.sale_start_time {
                Some(ErrorCode::SaleNotStarted)
            } else if now > s.sale_end_time {
                Some(ErrorCode::SaleEnded)
            } else if s.max_tokens_per_buyer > 0 && self.tokens_purchased_by(buyer, sale_id as int)
                + token_amount > s.max_tokens_per_buyer {
                Some(ErrorCode::ExceedsPurchaseLimit)
            } else if Self::purchase_gross(s, token_amount) > u64::MAX {
                Some(ErrorCode::MathOverflow)
            } else if s.platform_fee_bps > 0 && Self::purchase_gross(s, token_amount)
                * s.platform_fee_bps > u64::MAX {
                Some(ErrorCode::MathOverflow)
            } else {
                None
            }
        }
    }

    /// The first reason the transfer legs of this purchase fail, if any,
    /// judged against the engine's current balances.
    pub open spec fn purchase_legs_error(self, buyer: u64, sale_id: usize, token_amount: u64) -> Option<
        ErrorCode,
    > {
        let s = self.sale_at(sale_id as int);
        settlement_error(
            self.spec_ledger(),
            s.payment_mint,
            s.token_mint,
            buyer,
            s.seller,
            s.platform_fee_recipient,
            sale_id,
            Self::purchase_seller_payment(s, token_amount),
            Self::purchase_fee(s, token_amount),
            token_amount as int,
        )
    }

    /// `post` is `pre` after this purchase settled in full: supply moved
    /// from the vault to the buyer, payment split between seller and fee
    /// recipient, and both counters advanced by the amount.
    pub open spec fn purchase_applied(
        pre: EscrowEngine,
        post: EscrowEngine,
        buyer: u64,
        sale_id: usize,
        token_amount: u64,
    ) -> bool {
        let s = pre.sale_at(sale_id as int);
        &&& post.spec_sales() == pre.spec_sales().update(
            sale_id as int,
            (TokenSale { tokens_available: (s.tokens_available - token_amount) as u64, ..s }),
        )
        &&& (exists|i: int|
            0 <= i < pre.spec_buyers().len() && (#[trigger] pre.spec_buyers()[i]).buyer == buyer
                && pre.spec_buyers()[i].token_sale == sale_id && post.spec_buyers()
                == pre.spec_buyers().update(
                i,
                (BuyerAccount {
                    tokens_purchased: (pre.spec_buyers()[i].tokens_purchased + token_amount) as u64,
                    ..pre.spec_buyers()[i]
                }),
            ))
        &&& settlement_applied(
            pre.spec_ledger(),
            post.spec_ledger(),
            s.payment_mint,
            s.token_mint,
            buyer,
            s.seller,
            s.platform_fee_recipient,
            sale_id,
            Self::purchase_seller_payment(s, token_amount),
            Self::purchase_fee(s, token_amount),
            token_amount as int,
        )
    }

    /// Purchase `token_amount` units from a sale: after the admission
    /// checks, the buyer pays the seller and the platform and the vault
    /// releases the tokens, all as one atomic unit — when any leg fails,
    /// every balance and both counters stay exactly as they were.
    pub fn buy_tokens(&mut self, buyer: u64, sale_id: usize, token_amount: u64, now: i64) -> (r:
        Result<(), ErrorCode>)
        requires
            old(self).inv(),
        ensures
            final(self).inv(),
            match old(self).purchase_precheck(buyer, sale_id, token_amount, now) {
                Some(e) => r == Err::<(), ErrorCode>(e) && final(self).same_state(*old(self)),
                None => match old(self).purchase_legs_error(buyer, sale_id, token_amount) {
                    Some(e) => r == Err::<(), ErrorCode>(e) && final(self).same_state(*old(self)),
                    None => r == Ok::<(), ErrorCode>(()) && Self::purchase_applied(
                        *old(self),
                        *final(self),
                        buyer,
                        sale_id,
                        token_amount,
                    ),
                },
            },
    {
        if sale_id >= self.sales.len() {
            return Err(ErrorCode::SaleNotFound);
        }
        let s = self.sales[sale_id];
        let rec_idx = match self.find_buyer_index(buyer, sale_id) {
            Some(i) => i,
            None => {
                return Err(ErrorCode::BuyerAccountNotFound);
            },
        };
        proof {
            self.lemma_record_at_index(buyer, sale_id as int, rec_idx as int);
        }
        let rec = self.buyers[rec_idx];
        if !s.is_active {
            return Err(ErrorCode::SaleNotActive);
        }
        if s.is_paused {
            return Err(ErrorCode::SalePaused);
        }
        if token_amount == 0 {
            return Err(ErrorCode::InvalidTokenAmount);
        }
        if token_amount > s.tokens_available {
            return Err(ErrorCode::InsufficientTokens);
        }
        if now < s.sale_start_time {
            return Err(ErrorCode::SaleNotStarted);
        }
        if now > s.sale_end_time {
            return Err(ErrorCode::SaleEnded);
        }
        proof {
            lemma_sum_purchased_at_least(self.spec_buyers(), rec_idx as int, sale_id as int);
            assert(rec.tokens_purchased + token_amount <= s.total_tokens);
        }
        if s.max_tokens_per_buyer > 0 {
            if rec.tokens_purchased + token_amount > s.max_tokens_per_buyer {
                return Err(ErrorCode::ExceedsPurchaseLimit);
            }
        }
        let split = match compute_payment(token_amount, s.price_per_token, s.platform_fee_bps) {
            Ok(split) => split,
            Err(e) => {
                return Err(e);
            },
        };
        proof {
            lemma_fee_split((Self::purchase_gross(s, token_amount)) as u64, s.platform_fee_bps);
            assert(split.gross == Self::purchase_gross(s, token_amount));
            assert(split.platform_fee == Self::purchase_fee(s, token_amount));
            assert(split.seller_payment == Self::purchase_seller_payment(s, token_amount));
        }
        let settled = settle_purchase(
            &mut self.ledger,
            s.payment_mint,
            s.token_mint,
            buyer,
            s.seller,
            s.platform_fee_recipient,
            sale_id,
            split.seller_payment,
            split.platform_fee,
            token_amount,
        );
        match settled {
            Ok(()) => {},
            Err(e) => {
                return Err(e);
            },
        }
        let new_sale = TokenSale { tokens_available: s.tokens_available - token_amount, ..s };
        self.sales.set(sale_id, new_sale);
        let new_rec = BuyerAccount { tokens_purchased: rec.tokens_purchased + token_amount, ..rec };
        self.buyers.set(rec_idx, new_rec);
        proof {
            let pre = *old(self);
            let post = *self;
            let k = sale_id as int;
            let ri = rec_idx as int;
            assert(post.spec_buyers() == pre.spec_buyers().update(ri, new_rec));
            assert(pre.spec_buyers()[ri].buyer == buyer && pre.spec_buyers()[ri].token_sale
                == sale_id);
            assert(new_rec == (BuyerAccount {
                tokens_purchased: (pre.spec_buyers()[ri].tokens_purchased + token_amount) as u64,
                ..pre.spec_buyers()[ri]
            }));
            assert forall|i: int, j: int|
                0 <= i < j < post.spec_sales().len() implies !(post.spec_sales()[i].seller
                == post.spec_sales()[j].seller && post.spec_sales()[i].token_mint
                == post.spec_sales()[j].token_mint) by {
                assert(post.spec_sales()[i].seller == pre.spec_sales()[i].seller
                    && post.spec_sales()[i].token_mint == pre.spec_sales()[i].token_mint);
                assert(post.spec_sales()[j].seller == pre.spec_sales()[j].seller
                    && post.spec_sales()[j].token_mint == pre.spec_sales()[j].token_mint);
            }
            assert forall|i: int, j: int|
                0 <= i < j < post.spec_buyers().len() implies !(post.spec_buyers()[i].buyer
                == post.spec_buyers()[j].buyer && post.spec_buyers()[i].token_sale
                == post.spec_buyers()[j].token_sale) by {
                assert(post.spec_buyers()[i].buyer == pre.spec_buyers()[i].buyer
                    && post.spec_buyers()[i].token_sale == pre.spec_buyers()[i].token_sale);
                assert(post.spec_buyers()[j].buyer == pre.spec_buyers()[j].buyer
                    && post.spec_buyers()[j].token_sale == pre.spec_buyers()[j].token_sale);
            }
            assert forall|i: int|
                0 <= i < post.spec_buyers().len() implies (
            #[trigger] post.spec_buyers()[i]).token_sale < post.spec_sales().len() by {
                assert(post.spec_buyers()[i].token_sale == pre.spec_buyers()[i].token_sale);
            }
            assert forall|i: int| 0 <= i < post.spec_sales().len() implies (
            #[trigger] post.spec_sales()[i]).wf() by {
                if i != k {
                    assert(post.spec_sales()[i] == pre.spec_sales()[i]);
                }
            }
            assert forall|i: int|
                0 <= i < post.spec_sales().len() implies post.spec_ledger().bal(
                (#[trigger] post.spec_sales()[i]).token_mint,
                AccountKey::Vault(i as usize),
            ) == post.spec_sales()[i].tokens_available by {
                if i != k {
                    assert(post.spec_sales()[i] == pre.spec_sales()[i]);
                    assert(AccountKey::Vault(i as usize) != AccountKey::Vault(sale_id));
                }
            }
            assert forall|i: int|
                0 <= i < post.spec_sales().len()
                    && (#[trigger] post.spec_sales()[i]).is_active implies post.spec_sales()[i].tokens_available
                + sum_purchased(post.spec_buyers(), i) == post.spec_sales()[i].total_tokens by {
                lemma_sum_purchased_update(pre.spec_buyers(), ri, new_rec, i);
                if i != k {
                    assert(post.spec_sales()[i] == pre.spec_sales()[i]);
                }
            }
            assert forall|m: u64, j: usize|
                j >= post.spec_sales().len() implies #[trigger] post.spec_ledger().bal(
                m,
                AccountKey::Vault(j),
            ) == 0 by {
                assert(pre.spec_ledger().bal(m, AccountKey::Vault(j)) == 0);
                assert(AccountKey::Vault(j) != AccountKey::Vault(sale_id));
            }
        }
        Ok(())
    }

    /// Cancel an active sale: refund the whole remaining supply from the
    /// vault to the seller and retire the sale for good, as one atomic unit.
    /// Only the seller may cancel. Cancellation is permanent.
    pub fn cancel_sale(&mut self, caller: u64, sale_id: usize) -> (r: Result<(), ErrorCode>)
        requires
            old(self).inv(),
        ensures
            final(self).inv(),
            !old(self).has_sale(sale_id as int) ==> r == Err::<(), ErrorCode>(
                ErrorCode::SaleNotFound,
            ) && final(self).same_state(*old(self)),
            old(self).has_sale(sale_id as int) && caller != old(self).sale_at(
                sale_id as int,
            ).seller ==> r == Err::<(), ErrorCode>(ErrorCode::Unauthorized) && final(self).same_state(*old(self)),
            old(self).has_sale(sale_id as int) && caller == old(self).sale_at(sale_id as int).seller
                && !old(self).sale_at(sale_id as int).is_active ==> r == Err::<(), ErrorCode>(
                ErrorCode::SaleNotActive,
            ) && final(self).same_state(*old(self)),
            old(self).has_sale(sale_id as int) && caller == old(self).sale_at(sale_id as int).seller
                && old(self).sale_at(sale_id as int).is_active && old(self).spec_ledger().bal(
                old(self).sale_at(sale_id as int).token_mint,
                AccountKey::User(caller),
            ) + old(self).sale_at(sale_id as int).tokens_available > u64::MAX ==> r == Err::<
                (),
                ErrorCode,
            >(ErrorCode::MathOverflow) && final(self).same_state(*old(self)),
            old(self).has_sale(sale_id as int) && caller == old(self).sale_at(sale_id as int).seller
                && old(self).sale_at(sale_id as int).is_active && old(self).spec_ledger().bal(
                old(self).sale_at(sale_id as int).token_mint,
                AccountKey::User(caller),
            ) + old(self).sale_at(sale_id as int).tokens_available <= u64::MAX ==> ({
                let s = old(self).sale_at(sale_id as int);
                &&& r == Ok::<(), ErrorCode>(())
                &&& final(self).spec_sales() == old(self).spec_sales().update(
                    sale_id as int,
                    (TokenSale { tokens_available: 0, is_active: false, ..s }),
                )
                &&& final(self).spec_buyers() == old(self).spec_buyers()
                &&& forall|m: u64, o: AccountKey|
                    final(self).spec_ledger().bal(m, o) == old(self).spec_ledger().bal(m, o) + (
                    if m == s.token_mint && o == AccountKey::User(s.seller) {
                        s.tokens_available as int
                    } else {
                        0
                    }) - (if m == s.token_mint && o == AccountKey::Vault(sale_id) {
                        s.tokens_available as int
                    } else {
                        0
                    })
            }),
    {
        if sale_id >= self.sales.len() {
            return Err(ErrorCode::SaleNotFound);
        }
        let s = self.sales[sale_id];
        if caller != s.seller {
            return Err(ErrorCode::Unauthorized);
        }
        if !s.is_active {
            return Err(ErrorCode::SaleNotActive);
        }
        proof {
            old(self).spec_ledger().lemma_bal_bounds(s.token_mint, AccountKey::User(s.seller));
        }
        let vault = AccountKey::Vault(sale_id);
        if s.tokens_available > 0 {
            proof {
                assert(old(self).spec_ledger().bal(s.token_mint, vault) == s.tokens_available);
            }
            match self.ledger.transfer(
                s.token_mint,
                vault,
                AccountKey::User(s.seller),
                vault,
                s.tokens_available,
            ) {
                Err(e) => {
                    return Err(e);
                },
                Ok(()) => {},
            }
        }
        let updated = TokenSale { tokens_available: 0, is_active: false, ..s };
        self.sales.set(sale_id, updated);
        proof {
            let pre = *old(self);
            let post = *self;
            let n = pre.spec_sales().len() as int;
            let k = sale_id as int;
            assert forall|i: int, j: int|
                0 <= i < j < post.spec_sales().len() implies !(post.spec_sales()[i].seller
                == post.spec_sales()[j].seller && post.spec_sales()[i].token_mint
                == post.spec_sales()[j].token_mint) by {
                assert(post.spec_sales()[i].seller == pre.spec_sales()[i].seller
                    && post.spec_sales()[i].token_mint == pre.spec_sales()[i].token_mint);
                assert(post.spec_sales()[j].seller == pre.spec_sales()[j].seller
                    && post.spec_sales()[j].token_mint == pre.spec_sales()[j].token_mint);
            }
            assert forall|i: int| 0 <= i < post.spec_sales().len() implies (
            #[trigger] post.spec_sales()[i]).wf() by {
                if i != k {
                    assert(post.spec_sales()[i] == pre.spec_sales()[i]);
                }
            }
            assert forall|i: int|
                0 <= i < post.spec_sales().len() implies post.spec_ledger().bal(
                (#[trigger] post.spec_sales()[i]).token_mint,
                AccountKey::Vault(i as usize),
            ) == post.spec_sales()[i].tokens_available by {
                if i != k {
                    assert(post.spec_sales()[i] == pre.spec_sales()[i]);
                    assert(AccountKey::Vault(i as usize) != vault);
                    assert(AccountKey::Vault(i as usize) != AccountKey::User(s.seller));
                } else {
                    assert(post.spec_sales()[i] == updated);
                    assert(vault != AccountKey::User(s.seller));
                }
            }
            assert forall|i: int|
                0 <= i < post.spec_sales().len()
                    && (#[trigger] post.spec_sales()[i]).is_active implies post.spec_sales()[i].tokens_available
                + sum_purchased(post.spec_buyers(), i) == post.spec_sales()[i].total_tokens by {
                assert(i != k);
                assert(post.spec_sales()[i] == pre.spec_sales()[i]);
            }
            assert forall|m: u64, j: usize|
                j >= post.spec_sales().len() implies #[trigger] post.spec_ledger().bal(
                m,
                AccountKey::Vault(j),
            ) == 0 by {
                assert(pre.spec_ledger().bal(m, AccountKey::Vault(j)) == 0);
                assert(AccountKey::Vault(j) != vault);
                assert(AccountKey::Vault(j) != AccountKey::User(s.seller));
            }
        }
        Ok(())
    }

    /// The first reason this parameter update is refused, if any. Updates
    /// are allowed only to the seller, only while the sale is active, and
    /// only before its window opens; every supplied value is held to the
    /// same constraints as at creation, a new window end being measured
    /// against the window start as just updated.
    pub open spec fn update_params_error(
        self,
        caller: u64,
        sale_id: usize,
        new_price: Option<u64>,
        new_start: Option<i64>,
        new_end: Option<i64>,
        now: i64,
    ) -> Option<ErrorCode> {
        if !self.has_sale(sale_id as int) {
            Some(ErrorCode::SaleNotFound)
        } else {
            let s = self.sale_at(sale_id as int);
            if caller != s.seller {
                Some(ErrorCode::Unauthorized)
            } else if !s.is_active {
                Some(ErrorCode::SaleNotActive)
            } else if now >= s.sale_start_time {
                Some(ErrorCode::SaleAlreadyStarted)
            } else {
                let price_bad = match new_price {
                    Some(p) => p == 0,
                    None => false,
                };
                let eff_start = match new_start {
                    Some(st) => st,
                    None => s.sale_start_time,
                };
                let start_bad = match new_start {
                    Some(st) => st <= now || st <= 0,
                    None => false,
                };
                let end_bad = match new_end {
                    Some(en) => en <= eff_start,
                    None => false,
                };
                let window_bad = match new_end {
                    Some(_) => false,
                    None => s.sale_end_time <= eff_start,
                };
                if price_bad {
                    Some(ErrorCode::InvalidPrice)
                } else if start_bad {
                    Some(ErrorCode::InvalidStartTime)
                } else if end_bad {
                    Some(ErrorCode::InvalidEndTime)
                } else if window_bad {
                    Some(ErrorCode::InvalidStartTime)
                } else {
                    None
                }
            }
        }
    }

    /// The sale as a successful parameter update leaves it: each supplied
    /// value replaces its field, everything else is untouched.
    pub open spec fn updated_sale(
        s: TokenSale,
        new_price: Option<u64>,
        new_start: Option<i64>,
        new_end: Option<i64>,
        new_cap: Option<u64>,
    ) -> TokenSale {
        TokenSale {
            price_per_token: match new_price {
                Some(p) => p,
                None => s.price_per_token,
            },
            sale_start_time: match new_start {
                Some(st) => st,
                None => s.sale_start_time,
            },
            sale_end_time: match new_end {
                Some(en) => en,
                None => s.sale_end_time,
            },
            max_tokens_per_buyer: match new_cap {
                Some(c) => c,
                None => s.max_tokens_per_buyer,
            },
            ..s
        }
    }

    /// Update an active, not-yet-started sale's parameters; only the seller
    /// may, and each supplied value is validated before anything changes.
    pub fn update_sale_params(
        &mut self,
        caller: u64,
        sale_id: usize,
        new_price_per_token: Option<u64>,
        new_sale_start_time: Option<i64>,
        new_sale_end_time: Option<i64>,
        new_max_tokens_per_buyer: Option<u64>,
        now: i64,
    ) -> (r: Result<(), ErrorCode>)
        requires
            old(self).inv(),
        ensures
            final(self).inv(),
            match old(self).update_params_error(
                caller,
                sale_id,
                new_price_per_token,
                new_sale_start_time,
                new_sale_end_time,
                now,
            ) {
                Some(e) => r == Err::<(), ErrorCode>(e) && final(self).same_state(*old(self)),
                None => r == Ok::<(), ErrorCode>(()) && final(self).spec_sales() == old(self).spec_sales().update(
                    sale_id as int,
                    Self::updated_sale(
                        old(self).sale_at(sale_id as int),
                        new_price_per_token,
                        new_sale_start_time,
                        new_sale_end_time,
                        new_max_tokens_per_buyer,
                    ),
                ) && final(self).spec_buyers() == old(self).spec_buyers() && final(self).spec_ledger().same_balances(old(self).spec_ledger()),
            },
    {
        if sale_id >= self.sales.len() {
            return Err(ErrorCode::SaleNotFound);
        }
        let s = self.sales[sale_id];
        if caller != s.seller {
            return Err(ErrorCode::Unauthorized);
        }
        if !s.is_active {
            return Err(ErrorCode::SaleNotActive);
        }
        if now >= s.sale_start_time {
            return Err(ErrorCode::SaleAlreadyStarted);
        }
        let mut u = s;
        match new_price_per_token {
            Some(p) => {
                if p == 0 {
                    return Err(ErrorCode::InvalidPrice);
                }
                u.price_per_token = p;
            },
            None => {},
        }
        match new_sale_start_time {
            Some(st) => {
                if st <= now || st <= 0 {
                    return Err(ErrorCode::InvalidStartTime);
                }
                u.sale_start_time = st;
            },
            None => {},
        }
        match new_sale_end_time {
            Some(en) => {
                if en <= u.sale_start_time {
                    return Err(ErrorCode::InvalidEndTime);
                }
                u.sale_end_time = en;
            },
            None => {},
        }
        if u.sale_end_time <= u.sale_start_time {
            return Err(ErrorCode::InvalidStartTime);
        }
        match new_max_tokens_per_buyer {
            Some(c) => {
                u.max_tokens_per_buyer = c;
            },
            None => {},
        }
        self.sales.set(sale_id, u);
        proof {
            self.lemma_sale_field_update_preserves_inv(*old(self), sale_id as int);
        }
        Ok(())
    }

    /// Conservation: while a sale is active, its remaining supply plus
    /// every purchase recorded against it equals the supply it was created
    /// with. (Cancellation refunds the remainder and retires the sale, so
    /// the equality is stated of active sales.)
    pub proof fn lemma_conservation(self, sale_id: int)
        requires
            self.inv(),
            self.has_sale(sale_id),
            self.sale_at(sale_id).is_active,
        ensures
            self.sale_at(sale_id).tokens_available + sum_purchased(self.spec_buyers(), sale_id)
                == self.sale_at(sale_id).total_tokens,
    {
    }

    /// Custody: the vault of every sale holds exactly the sale's remaining
    /// supply; escrowed funds can never be released behind the engine's
    /// back.
    pub proof fn lemma_custody(self, sale_id: int)
        requires
            self.inv(),
            self.has_sale(sale_id),
        ensures
            self.spec_ledger().bal(
                self.sale_at(sale_id).token_mint,
                AccountKey::Vault(sale_id as usize),
            ) == self.sale_at(sale_id).tokens_available,
    {
    }

    /// No over-purchase: a purchase that passes admission asks for no more
    /// than the remaining supply and respects a positive per-buyer cap.
    pub proof fn lemma_no_over_purchase(
        self,
        buyer: u64,
        sale_id: usize,
        token_amount: u64,
        now: i64,
    )
        requires
            self.purchase_precheck(buyer, sale_id, token_amount, now) is None,
        ensures
            token_amount <= self.sale_at(sale_id as int).tokens_available,
            self.sale_at(sale_id as int).max_tokens_per_buyer > 0 ==> self.tokens_purchased_by(
                buyer,
                sale_id as int,
            ) + token_amount <= self.sale_at(sale_id as int).max_tokens_per_buyer,
    {
    }

    /// Window enforcement: with every other admission condition met, a
    /// purchase is admitted exactly within the sale window, both boundary
    /// timestamps included, and refused outside it with the window's own
    /// failure reasons.
    pub proof fn lemma_window_enforcement(
        self,
        buyer: u64,
        sale_id: usize,
        token_amount: u64,
        now: i64,
    )
        requires
            self.has_sale(sale_id as int),
            self.sale_at(sale_id as int).wf(),
            self.has_buyer_record(buyer, sale_id as int),
            self.sale_at(sale_id as int).is_active,
            !self.sale_at(sale_id as int).is_paused,
            0 < token_amount <= self.sale_at(sale_id as int).tokens_available,
            self.sale_at(sale_id as int).max_tokens_per_buyer > 0 ==> self.tokens_purchased_by(
                buyer,
                sale_id as int,
            ) + token_amount <= self.sale_at(sale_id as int).max_tokens_per_buyer,
            Self::purchase_gross(self.sale_at(sale_id as int), token_amount) <= u64::MAX,
            self.sale_at(sale_id as int).platform_fee_bps > 0 ==> Self::purchase_gross(
                self.sale_at(sale_id as int),
                token_amount,
            ) * self.sale_at(sale_id as int).platform_fee_bps <= u64::MAX,
        ensures
            self.purchase_precheck(buyer, sale_id, token_amount, now) is None <==> self.sale_at(
                sale_id as int,
            ).sale_start_time <= now <= self.sale_at(sale_id as int).sale_end_time,
            now < self.sale_at(sale_id as int).sale_start_time ==> self.purchase_precheck(
                buyer,
                sale_id,
                token_amount,
                now,
            ) == Some(ErrorCode::SaleNotStarted),
            now > self.sale_at(sale_id as int).sale_end_time ==> self.purchase_precheck(
                buyer,
                sale_id,
                token_amount,
                now,
            ) == Some(ErrorCode::SaleEnded),
    {
    }

    /// Cancellation finality: a sale that is no longer active admits no
    /// purchase, whatever the amount or the time.
    pub proof fn lemma_inactive_sale_rejects_purchase(
        self,
        buyer: u64,
        sale_id: usize,
        token_amount: u64,
        now: i64,
    )
        requires
            self.has_sale(sale_id as int),
            !self.sale_at(sale_id as int).is_active,
        ensures
            self.purchase_precheck(buyer, sale_id, token_amount, now) is Some,
            self.has_buyer_record(buyer, sale_id as int) ==> self.purchase_precheck(
                buyer,
                sale_id,
                token_amount,
                now,
            ) == Some(ErrorCode::SaleNotActive),
    {
    }

    /// Updating one sale in place preserves the invariant as long as its
    /// key, supply, mint and activity-relevant fields are untouched.
    proof fn lemma_sale_field_update_preserves_inv(self, pre: EscrowEngine, k: int)
        requires
            pre.inv(),
            0 <= k < pre.spec_sales().len(),
            self.spec_buyers() == pre.spec_buyers(),
            self.spec_ledger() == pre.spec_ledger(),
            self.spec_sales().len() == pre.spec_sales().len(),
            forall|i: int|
                0 <= i < pre.spec_sales().len() && i != k ==> self.spec_sales()[i]
                    == pre.spec_sales()[i],
            self.spec_sales()[k].seller == pre.spec_sales()[k].seller,
            self.spec_sales()[k].token_mint == pre.spec_sales()[k].token_mint,
            self.spec_sales()[k].tokens_available == pre.spec_sales()[k].tokens_available,
            self.spec_sales()[k].total_tokens == pre.spec_sales()[k].total_tokens,
            self.spec_sales()[k].is_active == pre.spec_sales()[k].is_active,
            self.spec_sales()[k].wf(),
        ensures
            self.inv(),
    {
        assert forall|i: int, j: int|
            0 <= i < j < self.spec_sales().len() implies !(self.spec_sales()[i].seller
            == self.spec_sales()[j].seller && self.spec_sales()[i].token_mint
            == self.spec_sales()[j].token_mint) by {
            assert(self.spec_sales()[i].seller == pre.spec_sales()[i].seller
                && self.spec_sales()[i].token_mint == pre.spec_sales()[i].token_mint);
            assert(self.spec_sales()[j].seller == pre.spec_sales()[j].seller
                && self.spec_sales()[j].token_mint == pre.spec_sales()[j].token_mint);
        }
        assert forall|i: int| 0 <= i < self.spec_sales().len() implies (
        #[trigger] self.spec_sales()[i]).wf() by {
            if i != k {
                assert(self.spec_sales()[i] == pre.spec_sales()[i]);
            }
        }
        assert forall|i: int| 0 <= i < self.spec_sales().len() implies self.spec_ledger().bal(
            (#[trigger] self.spec_sales()[i]).token_mint,
            AccountKey::Vault(i as usize),
        ) == self.spec_sales()[i].tokens_available by {
            if i != k {
                assert(self.spec_sales()[i] == pre.spec_sales()[i]);
            }
        }
        assert forall|i: int|
            0 <= i < self.spec_sales().len()
                && (#[trigger] self.spec_sales()[i]).is_active implies self.spec_sales()[i].tokens_available
            + sum_purchased(self.spec_buyers(), i) == self.spec_sales()[i].total_tokens by {
            if i != k {
                assert(self.spec_sales()[i] == pre.spec_sales()[i]);
            }
        }
    }
}

} // verus!
