//! The balance ledger: the engine's model of the asset-transfer service.
//!
//! Balances are keyed by an asset identifier (the mint) together with an
//! account key. An account key is either an externally held identity or the
//! keyless custody authority of one sale's vault. A transfer moves funds only
//! when it is authorized by the owner of the source account, so vault funds
//! can move only when the engine itself acts as that vault's authority.

use vstd::prelude::*;

use crate::errors::ErrorCode;

verus! {

/// Who holds a balance.
#[derive(Clone, Copy, Debug, PartialEq, Eq, Structural)]
pub enum AccountKey {
    /// An externally held identity.
    User(u64),
    /// The keyless custody authority of the sale with this identifier.
    Vault(usize),
}

/// One balance: `owner` holds `amount` units of the asset `mint`.
#[derive(Clone, Copy)]
struct Entry {
    mint: u64,
    owner: AccountKey,
    amount: u64,
}

/// What `e` adds to the balance of `owner` in asset `mint`.
spec fn amount_for(e: Entry, mint: u64, owner: AccountKey) -> int {
    if e.mint == mint && e.owner == owner {
        e.amount as int
    } else {
        0
    }
}

/// The total amount the entries give `owner` in asset `mint`.
spec fn bal_of(s: Seq<Entry>, mint: u64, owner: AccountKey) -> int
    decreases s.len(),
{
    if s.len() == 0 {
        0
    } else {
        bal_of(s.drop_last(), mint, owner) + amount_for(s.last(), mint, owner)
    }
}

/// No two entries share a (mint, owner) key.
spec fn entries_unique(s: Seq<Entry>) -> bool {
    forall|i: int, j: int|
        0 <= i < j < s.len() ==> !(s[i].mint == s[j].mint && s[i].owner == s[j].owner)
}

proof fn lemma_bal_of_absent(s: Seq<Entry>, mint: u64, owner: AccountKey)
    requires
        forall|j: int| 0 <= j < s.len() ==> !(s[j].mint == mint && s[j].owner == owner),
    ensures
        bal_of(s, mint, owner) == 0,
    decreases s.len(),
{
    if s.len() > 0 {
        lemma_bal_of_absent(s.drop_last(), mint, owner);
    }
}

proof fn lemma_bal_of_found(s: Seq<Entry>, mint: u64, owner: AccountKey, i: int)
    requires
        entries_unique(s),
        0 <= i < s.len(),
        s[i].mint == mint,
        s[i].owner == owner,
    ensures
        bal_of(s, mint, owner) == s[i].amount as int,
    decreases s.len(),
{
    if i == s.len() - 1 {
        assert forall|j: int| 0 <= j < s.drop_last().len() implies !(s.drop_last()[j].mint
            == mint && s.drop_last()[j].owner == owner) by {
            assert(s.drop_last()[j] == s[j]);
        }
        lemma_bal_of_absent(s.drop_last(), mint, owner);
    } else {
        assert(s.drop_last()[i] == s[i]);
        lemma_bal_of_found(s.drop_last(), mint, owner, i);
    }
}

proof fn lemma_bal_of_update(s: Seq<Entry>, i: int, e: Entry, mint: u64, owner: AccountKey)
    requires
        0 <= i < s.len(),
    ensures
        bal_of(s.update(i, e), mint, owner) == bal_of(s, mint, owner) - amount_for(s[i], mint, owner)
            + amount_for(e, mint, owner),
    decreases s.len(),
{
    let u = s.update(i, e);
    if i == s.len() - 1 {
        assert(u.drop_last() =~= s.drop_last());
        assert(u.last() == e);
    } else {
        assert(u.drop_last() =~= s.drop_last().update(i, e));
        lemma_bal_of_update(s.drop_last(), i, e, mint, owner);
        assert(u.last() == s.last());
    }
}

proof fn lemma_bal_of_push(s: Seq<Entry>, e: Entry, mint: u64, owner: AccountKey)
    ensures
        bal_of(s.push(e), mint, owner) == bal_of(s, mint, owner) + amount_for(e, mint, owner),
{
    assert(s.push(e).drop_last() =~= s);
    assert(s.push(e).last() == e);
}

/// The ledger of all balances.
pub struct Ledger {
    entries: Vec<Entry>,
}

impl Ledger {
    /// The entries carry one balance per (mint, owner) key.
    pub closed spec fn wf(self) -> bool {
        entries_unique(self.entries@)
    }

    /// The balance `owner` holds in asset `mint`; zero when no entry exists.
    pub closed spec fn bal(self, mint: u64, owner: AccountKey) -> int {
        bal_of(self.entries@, mint, owner)
    }

    /// Both ledgers agree on every balance.
    pub open spec fn same_balances(self, other: Ledger) -> bool {
        forall|m: u64, o: AccountKey| self.bal(m, o) == other.bal(m, o)
    }

    /// A transfer of `amount` from `from` to `to` in asset `mint` goes
    /// through: the source covers it and the destination does not overflow.
    pub open spec fn can_transfer(self, mint: u64, from: AccountKey, to: AccountKey, amount: int) -> bool {
        &&& self.bal(mint, from) >= amount
        &&& from == to || self.bal(mint, to) + amount <= u64::MAX
    }

    /// The reason an authorized transfer is declined.
    pub open spec fn transfer_refusal(self, mint: u64, from: AccountKey, amount: int) -> ErrorCode {
        if self.bal(mint, from) < amount {
            ErrorCode::InsufficientBalance
        } else {
            ErrorCode::MathOverflow
        }
    }

    /// `post` is `pre` after moving `amount` of `mint` from `from` to `to`.
    pub open spec fn transferred(
        pre: Ledger,
        post: Ledger,
        mint: u64,
        from: AccountKey,
        to: AccountKey,
        amount: int,
    ) -> bool {
        forall|m: u64, o: AccountKey|
            post.bal(m, o) == pre.bal(m, o) + (if m == mint && o == to {
                amount
            } else {
                0
            }) - (if m == mint && o == from {
                amount
            } else {
                0
            })
    }

    /// Every balance lies in the range of one entry's amount.
    pub proof fn lemma_bal_bounds(self, mint: u64, owner: AccountKey)
        requires
            self.wf(),
        ensures
            0 <= self.bal(mint, owner) <= u64::MAX,
    {
        if exists|i: int|
            0 <= i < self.entries@.len() && self.entries@[i].mint == mint && self.entries@[i].owner
                == owner {
            let i = choose|i: int|
                0 <= i < self.entries@.len() && self.entries@[i].mint == mint
                    && self.entries@[i].owner == owner;
            lemma_bal_of_found(self.entries@, mint, owner, i);
        } else {
            lemma_bal_of_absent(self.entries@, mint, owner);
        }
    }

    /// An empty ledger: every balance is zero.
    pub fn new() -> (r: Ledger)
        ensures
            r.wf(),
            forall|m: u64, o: AccountKey| r.bal(m, o) == 0,
    {
        Ledger { entries: Vec::new() }
    }

    /// The index of the entry for (mint, owner), if one exists.
    fn lookup(&self, mint: u64, owner: AccountKey) -> (r: Option<usize>)
        ensures
            match r {
                Some(i) => i < self.entries@.len() && self.entries@[i as int].mint == mint
                    && self.entries@[i as int].owner == owner,
                None => forall|j: int|
                    0 <= j < self.entries@.len() ==> !(self.entries@[j].mint == mint
                        && self.entries@[j].owner == owner),
            },
    {
        let mut i: usize = 0;
        while i < self.entries.len()
            invariant
                i <= self.entries@.len(),
                forall|j: int|
                    0 <= j < i ==> !(self.entries@[j].mint == mint && self.entries@[j].owner
                        == owner),
            decreases self.entries@.len() - i,
        {
            if self.entries[i].mint == mint && self.entries[i].owner == owner {
                return Some(i);
            }
            i = i + 1;
        }
        None
    }

    /// The balance `owner` holds in asset `mint`.
    pub fn balance(&self, mint: u64, owner: AccountKey) -> (r: u64)
        requires
            self.wf(),
        ensures
            r as int == self.bal(mint, owner),
    {
        match self.lookup(mint, owner) {
            Some(i) => {
                proof {
                    lemma_bal_of_found(self.entries@, mint, owner, i as int);
                }
                self.entries[i].amount
            },
            None => {
                proof {
                    lemma_bal_of_absent(self.entries@, mint, owner);
                }
                0
            },
        }
    }

    /// Overwrite the balance of (mint, owner) with `value`.
    fn set_balance(&mut self, mint: u64, owner: AccountKey, value: u64)
        requires
            old(self).wf(),
        ensures
            final(self).wf(),
            final(self).bal(mint, owner) == value as int,
            forall|m: u64, o: AccountKey|
                !(m == mint && o == owner) ==> final(self).bal(m, o) == old(self).bal(m, o),
    {
        let e = Entry { mint, owner, amount: value };
        match self.lookup(mint, owner) {
            Some(i) => {
                self.entries.set(i, e);
                proof {
                    let pre = old(self).entries@;
                    assert forall|i2: int, j2: int|
                        0 <= i2 < j2 < self.entries@.len() implies !(self.entries@[i2].mint
                        == self.entries@[j2].mint && self.entries@[i2].owner
                        == self.entries@[j2].owner) by {
                        assert(self.entries@[i2].mint == pre[i2].mint && self.entries@[i2].owner
                            == pre[i2].owner);
                        assert(self.entries@[j2].mint == pre[j2].mint && self.entries@[j2].owner
                            == pre[j2].owner);
                    }
                    lemma_bal_of_found(pre, mint, owner, i as int);
                    lemma_bal_of_update(pre, i as int, e, mint, owner);
                    assert forall|m: u64, o: AccountKey| !(m == mint && o == owner) implies self.bal(
                        m,
                        o,
                    ) == old(self).bal(m, o) by {
                        lemma_bal_of_update(pre, i as int, e, m, o);
                    }
                }
            },
            None => {
                self.entries.push(e);
                proof {
                    let pre = old(self).entries@;
                    assert forall|i2: int, j2: int|
                        0 <= i2 < j2 < self.entries@.len() implies !(self.entries@[i2].mint
                        == self.entries@[j2].mint && self.entries@[i2].owner
                        == self.entries@[j2].owner) by {
                        if j2 < pre.len() {
                            assert(self.entries@[i2] == pre[i2]);
                            assert(self.entries@[j2] == pre[j2]);
                        } else {
                            assert(self.entries@[i2] == pre[i2]);
                            assert(self.entries@[j2] == e);
                        }
                    }
                    lemma_bal_of_absent(pre, mint, owner);
                    lemma_bal_of_push(pre, e, mint, owner);
                    assert forall|m: u64, o: AccountKey| !(m == mint && o == owner) implies self.bal(
                        m,
                        o,
                    ) == old(self).bal(m, o) by {
                        lemma_bal_of_push(pre, e, m, o);
                    }
                }
            },
        }
    }

    /// Move `amount` of asset `mint` from `from` to `to`, authorized by
    /// `auth`. Refused when `auth` does not own the source account, when the
    /// source balance is too small, or when the destination would overflow;
    /// a refused transfer changes nothing.
    pub fn transfer(
        &mut self,
        mint: u64,
        from: AccountKey,
        to: AccountKey,
        auth: AccountKey,
        amount: u64,
    ) -> (r: Result<(), ErrorCode>)
        requires
            old(self).wf(),
        ensures
            final(self).wf(),
            auth != from ==> r == Err::<(), ErrorCode>(ErrorCode::Unauthorized)
                && final(self).same_balances(*old(self)),
            auth == from && !old(self).can_transfer(mint, from, to, amount as int) ==> r == Err::<
                (),
                ErrorCode,
            >(old(self).transfer_refusal(mint, from, amount as int)) && final(self).same_balances(
                *old(self),
            ),
            auth == from && old(self).can_transfer(mint, from, to, amount as int) ==> r == Ok::<
                (),
                ErrorCode,
            >(()) && Ledger::transferred(*old(self), *final(self), mint, from, to, amount as int),
    {
        if !(auth == from) {
            return Err(ErrorCode::Unauthorized);
        }
        let from_bal = self.balance(mint, from);
        if from_bal < amount {
            return Err(ErrorCode::InsufficientBalance);
        }
        if from == to {
            return Ok(());
        }
        let to_bal = self.balance(mint, to);
        if to_bal > u64::MAX - amount {
            return Err(ErrorCode::MathOverflow);
        }
        self.set_balance(mint, from, from_bal - amount);
        self.set_balance(mint, to, to_bal + amount);
        Ok(())
    }

    /// Add `amount` of asset `mint` to the balance of `owner`. Refused, with
    /// nothing changed, when the balance would overflow.
    pub fn credit(&mut self, mint: u64, owner: AccountKey, amount: u64) -> (r: Result<
        (),
        ErrorCode,
    >)
        requires
            old(self).wf(),
        ensures
            final(self).wf(),
            old(self).bal(mint, owner) + amount > u64::MAX ==> r == Err::<(), ErrorCode>(
                ErrorCode::MathOverflow,
            ) && final(self).same_balances(*old(self)),
            old(self).bal(mint, owner) + amount <= u64::MAX ==> r == Ok::<(), ErrorCode>(())
                && final(self).bal(mint, owner) == old(self).bal(mint, owner) + amount && forall|
                m: u64,
                o: AccountKey,
            |
                !(m == mint && o == owner) ==> final(self).bal(m, o) == old(self).bal(m, o),
    {
        let b = self.balance(mint, owner);
        if b > u64::MAX - amount {
            return Err(ErrorCode::MathOverflow);
        }
        self.set_balance(mint, owner, b + amount);
        Ok(())
    }
}

} // verus!
