//! The asset ledger model: per-asset account balances and total issuance.
//!
//! The orchestrator delegates custody mutation to this ledger: a move between
//! accounts for the lock/unlock discipline (supply-neutral) and issue/destroy
//! for the burn/mint discipline (supply-changing).  Every operation checks
//! all of its preconditions before mutating anything, so a failing call
//! leaves the ledger exactly as it found it.

use vstd::prelude::*;

use crate::types::{AccountId, AssetId, Balance, Error};

verus! {

/// The usable balance one account holds of one asset.
#[derive(Clone, Copy, Debug)]
pub struct BalanceEntry {
    pub asset_id: AssetId,
    pub account: AccountId,
    pub balance: Balance,
}

/// The total issuance of one asset.
#[derive(Clone, Copy, Debug)]
pub struct IssuanceEntry {
    pub asset_id: AssetId,
    pub total: Balance,
}

pub open spec fn has_balance_entry(
    s: Seq<BalanceEntry>,
    asset_id: AssetId,
    account: AccountId,
) -> bool {
    exists|i: int| 0 <= i < s.len() && s[i].asset_id == asset_id && s[i].account == account
}

/// The balance an account holds of an asset; accounts without an entry hold
/// zero.
pub open spec fn spec_balance(s: Seq<BalanceEntry>, asset_id: AssetId, account: AccountId) -> Balance {
    if has_balance_entry(s, asset_id, account) {
        let i = choose|i: int|
            0 <= i < s.len() && s[i].asset_id == asset_id && s[i].account == account;
        s[i].balance
    } else {
        0
    }
}

pub open spec fn has_issuance_entry(s: Seq<IssuanceEntry>, asset_id: AssetId) -> bool {
    exists|i: int| 0 <= i < s.len() && s[i].asset_id == asset_id
}

/// The total issuance of an asset; assets without an entry have zero.
pub open spec fn spec_issuance(s: Seq<IssuanceEntry>, asset_id: AssetId) -> Balance {
    if has_issuance_entry(s, asset_id) {
        let i = choose|i: int| 0 <= i < s.len() && s[i].asset_id == asset_id;
        s[i].total
    } else {
        0
    }
}

pub open spec fn balances_wf(s: Seq<BalanceEntry>) -> bool {
    forall|i: int, j: int|
        0 <= i < j < s.len() ==> !(s[i].asset_id == s[j].asset_id && s[i].account == s[j].account)
}

pub open spec fn issuances_wf(s: Seq<IssuanceEntry>) -> bool {
    forall|i: int, j: int| 0 <= i < j < s.len() ==> s[i].asset_id != s[j].asset_id
}

/// How a supply-neutral move of `amount` from `from` to `to` relates the
/// balances after (`post`) to the balances before (`pre`): the two accounts
/// exchange exactly `amount` of `asset_id` and every other balance is
/// untouched.  A move from an account to itself changes nothing.
pub open spec fn balances_moved(
    pre: Seq<BalanceEntry>,
    post: Seq<BalanceEntry>,
    asset_id: AssetId,
    from: AccountId,
    to: AccountId,
    amount: Balance,
) -> bool {
    &&& forall|a2: AssetId, c2: AccountId|
        !(a2 == asset_id && (c2 == from || c2 == to)) ==> spec_balance(post, a2, c2)
            == spec_balance(pre, a2, c2)
    &&& from != to ==> spec_balance(post, asset_id, from) == spec_balance(pre, asset_id, from)
        - amount
    &&& from != to ==> spec_balance(post, asset_id, to) == spec_balance(pre, asset_id, to) + amount
    &&& from == to ==> spec_balance(post, asset_id, from) == spec_balance(pre, asset_id, from)
}

/// Law (supply-neutral custody is reversible): moving `amount` from `sender`
/// to `custody` and later moving the same `amount` from `custody` back to
/// `sender` returns every account balance of every asset to its starting
/// value.  The outbound lock and the corresponding inbound unlock of an
/// origin-local asset relate the ledger states exactly this way, so the
/// round trip restores all balances, and neither step touches any total
/// issuance.
pub proof fn lemma_lock_unlock_conservation(
    pre: Seq<BalanceEntry>,
    mid: Seq<BalanceEntry>,
    post: Seq<BalanceEntry>,
    asset_id: AssetId,
    sender: AccountId,
    custody: AccountId,
    amount: Balance,
)
    requires
        balances_moved(pre, mid, asset_id, sender, custody, amount),
        balances_moved(mid, post, asset_id, custody, sender, amount),
    ensures
        forall|a2: AssetId, c2: AccountId|
            spec_balance(post, a2, c2) == spec_balance(pre, a2, c2),
{
}

/// Balances and issuance, both duplicate-free association lists.
pub struct Ledger {
    pub balances: Vec<BalanceEntry>,
    pub issuances: Vec<IssuanceEntry>,
}

impl Ledger {
    pub open spec fn wf(&self) -> bool {
        balances_wf(self.balances@) && issuances_wf(self.issuances@)
    }

    pub fn new() -> (r: Ledger)
        ensures
            r.wf(),
            r.balances@ == Seq::<BalanceEntry>::empty(),
            r.issuances@ == Seq::<IssuanceEntry>::empty(),
    {
        Ledger { balances: Vec::new(), issuances: Vec::new() }
    }

    fn find_balance(&self, asset_id: AssetId, account: AccountId) -> (r: Option<usize>)
        ensures
            match r {
                Some(i) => i < self.balances@.len() && self.balances@[i as int].asset_id == asset_id
                    && self.balances@[i as int].account == account,
                None => !has_balance_entry(self.balances@, asset_id, account),
            },
    {
        let mut i: usize = 0;
        while i < self.balances.len()
            invariant
                i <= self.balances@.len(),
                forall|j: int|
                    0 <= j < i ==> !(self.balances@[j].asset_id == asset_id
                        && self.balances@[j].account == account),
            decreases self.balances@.len() - i,
        {
            if self.balances[i].asset_id == asset_id && self.balances[i].account == account {
                return Some(i);
            }
            i += 1;
        }
        None
    }

    fn find_issuance(&self, asset_id: AssetId) -> (r: Option<usize>)
        ensures
            match r {
                Some(i) => i < self.issuances@.len() && self.issuances@[i as int].asset_id
                    == asset_id,
                None => !has_issuance_entry(self.issuances@, asset_id),
            },
    {
        let mut i: usize = 0;
        while i < self.issuances.len()
            invariant
                i <= self.issuances@.len(),
                forall|j: int| 0 <= j < i ==> self.issuances@[j].asset_id != asset_id,
            decreases self.issuances@.len() - i,
        {
            if self.issuances[i].asset_id == asset_id {
                return Some(i);
            }
            i += 1;
        }
        None
    }

    /// The usable balance `account` holds of `asset_id`.
    pub fn free_balance(&self, asset_id: AssetId, account: AccountId) -> (r: Balance)
        requires
            self.wf(),
        ensures
            r == spec_balance(self.balances@, asset_id, account),
    {
        match self.find_balance(asset_id, account) {
            Some(i) => {
                proof {
                    lemma_balance_at(self.balances@, i as int);
                }
                self.balances[i].balance
            },
            None => 0,
        }
    }

    /// The total issuance of `asset_id`.
    pub fn total_issuance(&self, asset_id: AssetId) -> (r: Balance)
        requires
            self.wf(),
        ensures
            r == spec_issuance(self.issuances@, asset_id),
    {
        match self.find_issuance(asset_id) {
            Some(i) => {
                proof {
                    lemma_issuance_at(self.issuances@, i as int);
                }
                self.issuances[i].total
            },
            None => 0,
        }
    }

    /// Set one balance, leaving every other balance and all issuance alone.
    fn set_balance(&mut self, asset_id: AssetId, account: AccountId, value: Balance)
        requires
            old(self).wf(),
        ensures
            final(self).wf(),
            final(self).issuances@ == old(self).issuances@,
            spec_balance(final(self).balances@, asset_id, account) == value,
            forall|a2: AssetId, c2: AccountId|
                !(a2 == asset_id && c2 == account) ==> spec_balance(final(self).balances@, a2, c2)
                    == spec_balance(old(self).balances@, a2, c2),
    {
        let entry = BalanceEntry { asset_id, account, balance: value };
        match self.find_balance(asset_id, account) {
            Some(i) => {
                let ghost pre = self.balances@;
                self.balances[i] = entry;
                proof {
                    lemma_balance_update(pre, i as int, entry);
                }
            },
            None => {
                let ghost pre = self.balances@;
                self.balances.push(entry);
                proof {
                    lemma_balance_push(pre, entry);
                }
            },
        }
    }

    /// Set one total issuance, leaving every other issuance and all balances
    /// alone.
    fn set_issuance(&mut self, asset_id: AssetId, value: Balance)
        requires
            old(self).wf(),
        ensures
            final(self).wf(),
            final(self).balances@ == old(self).balances@,
            spec_issuance(final(self).issuances@, asset_id) == value,
            forall|a2: AssetId|
                a2 != asset_id ==> spec_issuance(final(self).issuances@, a2) == spec_issuance(
                    old(self).issuances@,
                    a2,
                ),
    {
        let entry = IssuanceEntry { asset_id, total: value };
        match self.find_issuance(asset_id) {
            Some(i) => {
                let ghost pre = self.issuances@;
                self.issuances[i] = entry;
                proof {
                    lemma_issuance_update(pre, i as int, entry);
                }
            },
            None => {
                let ghost pre = self.issuances@;
                self.issuances.push(entry);
                proof {
                    lemma_issuance_push(pre, entry);
                }
            },
        }
    }

    /// Mint `amount` of `asset_id` into `account`: the balance and the total
    /// issuance both grow by `amount`.  Fails, changing nothing, only if
    /// either sum would overflow.
    pub fn issue(&mut self, asset_id: AssetId, account: AccountId, amount: Balance) -> (r: Result<
        (),
        Error,
    >)
        requires
            old(self).wf(),
        ensures
            final(self).wf(),
            r is Ok <==> spec_balance(old(self).balances@, asset_id, account) + amount
                <= u128::MAX && spec_issuance(old(self).issuances@, asset_id) + amount <= u128::MAX,
            r is Err ==> r == Err::<(), Error>(Error::BalanceOverflow) && *final(self) == *old(
                self,
            ),
            r is Ok ==> spec_balance(final(self).balances@, asset_id, account) == spec_balance(
                old(self).balances@,
                asset_id,
                account,
            ) + amount,
            r is Ok ==> spec_issuance(final(self).issuances@, asset_id) == spec_issuance(
                old(self).issuances@,
                asset_id,
            ) + amount,
            forall|a2: AssetId, c2: AccountId|
                !(a2 == asset_id && c2 == account) ==> spec_balance(final(self).balances@, a2, c2)
                    == spec_balance(old(self).balances@, a2, c2),
            forall|a2: AssetId|
                a2 != asset_id ==> spec_issuance(final(self).issuances@, a2) == spec_issuance(
                    old(self).issuances@,
                    a2,
                ),
    {
        let bal = self.free_balance(asset_id, account);
        let iss = self.total_issuance(asset_id);
        if amount > u128::MAX - bal || amount > u128::MAX - iss {
            return Err(Error::BalanceOverflow);
        }
        self.set_balance(asset_id, account, bal + amount);
        self.set_issuance(asset_id, iss + amount);
        Ok(())
    }

    /// Burn `amount` of `asset_id` from `account`'s usable balance: the
    /// balance and the total issuance both shrink by `amount`.  Fails,
    /// changing nothing, if the account (or the recorded issuance) holds less
    /// than `amount`.
    pub fn destroy_usable(
        &mut self,
        asset_id: AssetId,
        account: AccountId,
        amount: Balance,
    ) -> (r: Result<(), Error>)
        requires
            old(self).wf(),
        ensures
            final(self).wf(),
            r is Ok <==> spec_balance(old(self).balances@, asset_id, account) >= amount
                && spec_issuance(old(self).issuances@, asset_id) >= amount,
            r is Err ==> r == Err::<(), Error>(Error::InsufficientUsableBalance) && *final(self)
                == *old(self),
            r is Ok ==> spec_balance(final(self).balances@, asset_id, account) == spec_balance(
                old(self).balances@,
                asset_id,
                account,
            ) - amount,
            r is Ok ==> spec_issuance(final(self).issuances@, asset_id) == spec_issuance(
                old(self).issuances@,
                asset_id,
            ) - amount,
            forall|a2: AssetId, c2: AccountId|
                !(a2 == asset_id && c2 == account) ==> spec_balance(final(self).balances@, a2, c2)
                    == spec_balance(old(self).balances@, a2, c2),
            forall|a2: AssetId|
                a2 != asset_id ==> spec_issuance(final(self).issuances@, a2) == spec_issuance(
                    old(self).issuances@,
                    a2,
                ),
    {
        let bal = self.free_balance(asset_id, account);
        let iss = self.total_issuance(asset_id);
        if bal < amount || iss < amount {
            return Err(Error::InsufficientUsableBalance);
        }
        self.set_balance(asset_id, account, bal - amount);
        self.set_issuance(asset_id, iss - amount);
        Ok(())
    }

    /// Move `amount` of `asset_id` from `from`'s usable balance to `to`,
    /// leaving the total issuance untouched (the supply-neutral custody
    /// step).  Fails, changing nothing, if `from` holds less than `amount`
    /// or crediting `to` would overflow.
    pub fn move_usable(
        &mut self,
        asset_id: AssetId,
        from: AccountId,
        to: AccountId,
        amount: Balance,
    ) -> (r: Result<(), Error>)
        requires
            old(self).wf(),
        ensures
            final(self).wf(),
            final(self).issuances@ == old(self).issuances@,
            r is Ok <==> spec_balance(old(self).balances@, asset_id, from) >= amount && (from == to
                || spec_balance(old(self).balances@, asset_id, to) + amount <= u128::MAX),
            spec_balance(old(self).balances@, asset_id, from) < amount ==> r == Err::<(), Error>(
                Error::InsufficientUsableBalance,
            ),
            spec_balance(old(self).balances@, asset_id, from) >= amount && from != to
                && spec_balance(old(self).balances@, asset_id, to) + amount > u128::MAX ==> r
                == Err::<(), Error>(Error::BalanceOverflow),
            r is Err ==> (r == Err::<(), Error>(Error::InsufficientUsableBalance) || r == Err::<
                (),
                Error,
            >(Error::BalanceOverflow)) && *final(self) == *old(self),
            r is Ok ==> balances_moved(
                old(self).balances@,
                final(self).balances@,
                asset_id,
                from,
                to,
                amount,
            ),
    {
        let from_bal = self.free_balance(asset_id, from);
        if from_bal < amount {
            return Err(Error::InsufficientUsableBalance);
        }
        if from == to {
            return Ok(());
        }
        let to_bal = self.free_balance(asset_id, to);
        if amount > u128::MAX - to_bal {
            return Err(Error::BalanceOverflow);
        }
        self.set_balance(asset_id, from, from_bal - amount);
        self.set_balance(asset_id, to, to_bal + amount);
        Ok(())
    }
}

proof fn lemma_balance_at(s: Seq<BalanceEntry>, i: int)
    requires
        balances_wf(s),
        0 <= i < s.len(),
    ensures
        spec_balance(s, s[i].asset_id, s[i].account) == s[i].balance,
{
    assert(has_balance_entry(s, s[i].asset_id, s[i].account));
    let j = choose|j: int|
        0 <= j < s.len() && s[j].asset_id == s[i].asset_id && s[j].account == s[i].account;
    assert(j == i);
}

proof fn lemma_issuance_at(s: Seq<IssuanceEntry>, i: int)
    requires
        issuances_wf(s),
        0 <= i < s.len(),
    ensures
        spec_issuance(s, s[i].asset_id) == s[i].total,
{
    assert(has_issuance_entry(s, s[i].asset_id));
    let j = choose|j: int| 0 <= j < s.len() && s[j].asset_id == s[i].asset_id;
    assert(j == i);
}

proof fn lemma_balance_update(s: Seq<BalanceEntry>, i: int, e: BalanceEntry)
    requires
        balances_wf(s),
        0 <= i < s.len(),
        s[i].asset_id == e.asset_id,
        s[i].account == e.account,
    ensures
        balances_wf(s.update(i, e)),
        spec_balance(s.update(i, e), e.asset_id, e.account) == e.balance,
        forall|a2: AssetId, c2: AccountId|
            !(a2 == e.asset_id && c2 == e.account) ==> spec_balance(s.update(i, e), a2, c2)
                == spec_balance(s, a2, c2),
{
    let t = s.update(i, e);
    assert(balances_wf(t));
    lemma_balance_at(t, i);
    assert forall|a2: AssetId, c2: AccountId| !(a2 == e.asset_id && c2 == e.account) implies
        spec_balance(t, a2, c2) == spec_balance(s, a2, c2) by {
        if has_balance_entry(s, a2, c2) {
            let j = choose|j: int| 0 <= j < s.len() && s[j].asset_id == a2 && s[j].account == c2;
            assert(j != i);
            assert(t[j] == s[j]);
            lemma_balance_at(s, j);
            lemma_balance_at(t, j);
        } else {
            assert(!has_balance_entry(t, a2, c2)) by {
                if has_balance_entry(t, a2, c2) {
                    let j = choose|j: int|
                        0 <= j < t.len() && t[j].asset_id == a2 && t[j].account == c2;
                    assert(j != i);
                    assert(t[j] == s[j]);
                }
            }
        }
    }
}

proof fn lemma_balance_push(s: Seq<BalanceEntry>, e: BalanceEntry)
    requires
        balances_wf(s),
        !has_balance_entry(s, e.asset_id, e.account),
    ensures
        balances_wf(s.push(e)),
        spec_balance(s.push(e), e.asset_id, e.account) == e.balance,
        forall|a2: AssetId, c2: AccountId|
            !(a2 == e.asset_id && c2 == e.account) ==> spec_balance(s.push(e), a2, c2)
                == spec_balance(s, a2, c2),
{
    let t = s.push(e);
    assert(balances_wf(t)) by {
        assert forall|p: int, q: int| 0 <= p < q < t.len() implies !(t[p].asset_id == t[q].asset_id
            && t[p].account == t[q].account) by {
            if q < s.len() {
            } else {
                assert(t[p] == s[p]);
                assert(t[q] == e);
                if s[p].asset_id == e.asset_id && s[p].account == e.account {
                    assert(has_balance_entry(s, e.asset_id, e.account));
                }
            }
        }
    }
    lemma_balance_at(t, s.len() as int);
    assert forall|a2: AssetId, c2: AccountId| !(a2 == e.asset_id && c2 == e.account) implies
        spec_balance(t, a2, c2) == spec_balance(s, a2, c2) by {
        if has_balance_entry(s, a2, c2) {
            let j = choose|j: int| 0 <= j < s.len() && s[j].asset_id == a2 && s[j].account == c2;
            assert(t[j] == s[j]);
            lemma_balance_at(s, j);
            lemma_balance_at(t, j);
        } else {
            assert(!has_balance_entry(t, a2, c2)) by {
                if has_balance_entry(t, a2, c2) {
                    let j = choose|j: int|
                        0 <= j < t.len() && t[j].asset_id == a2 && t[j].account == c2;
                    assert(j < s.len());
                    assert(t[j] == s[j]);
                }
            }
        }
    }
}

proof fn lemma_issuance_update(s: Seq<IssuanceEntry>, i: int, e: IssuanceEntry)
    requires
        issuances_wf(s),
        0 <= i < s.len(),
        s[i].asset_id == e.asset_id,
    ensures
        issuances_wf(s.update(i, e)),
        spec_issuance(s.update(i, e), e.asset_id) == e.total,
        forall|a2: AssetId|
            a2 != e.asset_id ==> spec_issuance(s.update(i, e), a2) == spec_issuance(s, a2),
{
    let t = s.update(i, e);
    assert(issuances_wf(t));
    lemma_issuance_at(t, i);
    assert forall|a2: AssetId| a2 != e.asset_id implies spec_issuance(t, a2) == spec_issuance(
        s,
        a2,
    ) by {
        if has_issuance_entry(s, a2) {
            let j = choose|j: int| 0 <= j < s.len() && s[j].asset_id == a2;
            assert(j != i);
            assert(t[j] == s[j]);
            lemma_issuance_at(s, j);
            lemma_issuance_at(t, j);
        } else {
            assert(!has_issuance_entry(t, a2)) by {
                if has_issuance_entry(t, a2) {
                    let j = choose|j: int| 0 <= j < t.len() && t[j].asset_id == a2;
                    assert(j != i);
                    assert(t[j] == s[j]);
                }
            }
        }
    }
}

proof fn lemma_issuance_push(s: Seq<IssuanceEntry>, e: IssuanceEntry)
    requires
        issuances_wf(s),
        !has_issuance_entry(s, e.asset_id),
    ensures
        issuances_wf(s.push(e)),
        spec_issuance(s.push(e), e.asset_id) == e.total,
        forall|a2: AssetId| a2 != e.asset_id ==> spec_issuance(s.push(e), a2) == spec_issuance(s, a2),
{
    let t = s.push(e);
    assert(issuances_wf(t)) by {
        assert forall|p: int, q: int| 0 <= p < q < t.len() implies t[p].asset_id
            != t[q].asset_id by {
            if q < s.len() {
            } else {
                assert(t[p] == s[p]);
                assert(t[q] == e);
                if s[p].asset_id == e.asset_id {
                    assert(has_issuance_entry(s, e.asset_id));
                }
            }
        }
    }
    lemma_issuance_at(t, s.len() as int);
    assert forall|a2: AssetId| a2 != e.asset_id implies spec_issuance(t, a2) == spec_issuance(
        s,
        a2,
    ) by {
        if has_issuance_entry(s, a2) {
            let j = choose|j: int| 0 <= j < s.len() && s[j].asset_id == a2;
            assert(t[j] == s[j]);
            lemma_issuance_at(s, j);
            lemma_issuance_at(t, j);
        } else {
            assert(!has_issuance_entry(t, a2)) by {
                if has_issuance_entry(t, a2) {
                    let j = choose|j: int| 0 <= j < t.len() && t[j].asset_id == a2;
                    assert(j < s.len());
                    assert(t[j] == s[j]);
                }
            }
        }
    }
}

} // verus!
