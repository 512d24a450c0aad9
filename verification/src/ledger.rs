//! The custody ledger: per-account balances plus one holding balance in which
//! escrowed funds sit between deposit and payout or refund.  The escrow state
//! machine decides when and how much to move; the ledger only moves it, and
//! reports failure distinctly so a caller can abort before touching any record.

use vstd::prelude::*;

use crate::errors::EscrowError;

verus! {

/// One account and its balance, in minor currency units.
#[derive(Clone, Copy, Debug, PartialEq, Eq, Structural)]
pub struct LedgerAccount {
    pub id: u64,
    pub balance: u64,
}

/// All account balances together with the custody holding balance.
pub struct CustodyLedger {
    pub accounts: Vec<LedgerAccount>,
    pub custody: u64,
}

impl CustodyLedger {
    /// Whether an account with identifier `id` exists.
    pub open spec fn has_account(self, id: u64) -> bool {
        exists|i: int| 0 <= i < self.accounts@.len() && self.accounts@[i].id == id
    }

    /// The position of the account with identifier `id` (meaningful only
    /// when `has_account(id)` holds and the identifiers are unique).
    pub open spec fn account_index(self, id: u64) -> int {
        choose|i: int| 0 <= i < self.accounts@.len() && self.accounts@[i].id == id
    }

    /// The balance of `id`; an account that was never funded holds nothing.
    pub open spec fn balance_of(self, id: u64) -> u64 {
        if self.has_account(id) {
            self.accounts@[self.account_index(id)].balance
        } else {
            0
        }
    }

    /// No two accounts share an identifier.
    pub open spec fn wf(self) -> bool {
        forall|i: int, j: int|
            0 <= i < j < self.accounts@.len()
                ==> self.accounts@[i].id != self.accounts@[j].id
    }

    /// An empty ledger: nothing is held anywhere.
    pub fn new() -> (l: Self)
        ensures
            l.wf(),
            l.custody == 0,
            l.accounts@.len() == 0,
            forall|a: u64| l.balance_of(a) == 0,
    {
        let l = CustodyLedger { accounts: Vec::new(), custody: 0 };
        proof {
            assert forall|a: u64| l.balance_of(a) == 0 by {
                assert(!l.has_account(a));
            }
        }
        l
    }

    /// The position of the account with identifier `id`, if any.
    fn find_account(&self, id: u64) -> (r: Option<usize>)
        ensures
            match r {
                Some(i) => i < self.accounts@.len() && self.accounts@[i as int].id == id,
                None => forall|j: int|
                    0 <= j < self.accounts@.len() ==> self.accounts@[j].id != id,
            },
    {
        let mut i: usize = 0;
        while i < self.accounts.len()
            invariant
                i <= self.accounts@.len(),
                forall|j: int| 0 <= j < i ==> self.accounts@[j].id != id,
            decreases self.accounts@.len() - i,
        {
            if self.accounts[i].id == id {
                return Some(i);
            }
            i = i + 1;
        }
        None
    }

    /// The balance of `id`.
    pub fn balance(&self, id: u64) -> (r: u64)
        requires
            self.wf(),
        ensures
            r == self.balance_of(id),
    {
        match self.find_account(id) {
            Some(i) => {
                proof {
                    lemma_account_index_is(*self, i as int, id);
                }
                self.accounts[i].balance
            }
            None => 0,
        }
    }

    /// Puts `amount` fresh units into the account `id`, creating it if it
    /// does not exist.  Fails with `TransferFailed` exactly when the balance
    /// would overflow, and then changes nothing.
    pub fn fund(&mut self, id: u64, amount: u64) -> (r: Result<(), EscrowError>)
        requires
            old(self).wf(),
        ensures
            final(self).wf(),
            final(self).custody == old(self).custody,
            r.is_ok() <==> old(self).balance_of(id) + amount <= u64::MAX,
            r.is_err() ==> r == Err::<(), EscrowError>(EscrowError::TransferFailed)
                && *final(self) == *old(self),
            r.is_ok() ==> final(self).balance_of(id) == old(self).balance_of(id) + amount,
            forall|a: u64| a != id ==> final(self).balance_of(a) == old(self).balance_of(a),
    {
        match self.find_account(id) {
            Some(i) => {
                proof {
                    lemma_account_index_is(*self, i as int, id);
                }
                let bal = self.accounts[i].balance;
                if amount > u64::MAX - bal {
                    return Err(EscrowError::TransferFailed);
                }
                self.accounts[i] = LedgerAccount { id, balance: bal + amount };
                proof {
                    lemma_balances_after_update(*old(self), *self, i as int);
                }
                Ok(())
            }
            None => {
                proof {
                    assert(!old(self).has_account(id));
                }
                self.accounts.push(LedgerAccount { id, balance: amount });
                proof {
                    lemma_balances_after_push(*old(self), *self);
                }
                Ok(())
            }
        }
    }

    /// Moves `amount` from the account of `payer` into custody.  Fails with
    /// `InsufficientFunds` when the payer's balance does not cover it, and
    /// with `TransferFailed` when custody would overflow; either failure
    /// changes nothing.
    pub fn deposit(&mut self, payer: u64, amount: u64) -> (r: Result<(), EscrowError>)
        requires
            old(self).wf(),
        ensures
            final(self).wf(),
            r == Err::<(), EscrowError>(EscrowError::InsufficientFunds)
                <==> old(self).balance_of(payer) < amount,
            r == Err::<(), EscrowError>(EscrowError::TransferFailed)
                <==> (old(self).balance_of(payer) >= amount
                    && old(self).custody + amount > u64::MAX),
            r.is_ok() <==> (old(self).balance_of(payer) >= amount
                && old(self).custody + amount <= u64::MAX),
            r.is_err() ==> *final(self) == *old(self),
            r.is_ok() ==> {
                &&& final(self).custody == old(self).custody + amount
                &&& final(self).balance_of(payer) == old(self).balance_of(payer) - amount
                &&& forall|a: u64| a != payer
                    ==> final(self).balance_of(a) == old(self).balance_of(a)
            },
    {
        match self.find_account(payer) {
            Some(i) => {
                proof {
                    lemma_account_index_is(*self, i as int, payer);
                }
                let bal = self.accounts[i].balance;
                if bal < amount {
                    return Err(EscrowError::InsufficientFunds);
                }
                if amount > u64::MAX - self.custody {
                    return Err(EscrowError::TransferFailed);
                }
                self.accounts[i] = LedgerAccount { id: payer, balance: bal - amount };
                self.custody = self.custody + amount;
                proof {
                    lemma_balances_after_update(*old(self), *self, i as int);
                }
                Ok(())
            }
            None => {
                proof {
                    assert(!old(self).has_account(payer));
                }
                if amount > 0 {
                    return Err(EscrowError::InsufficientFunds);
                }
                // an account that was never funded holds nothing, so only a
                // zero deposit reaches this point, and custody cannot overflow
                self.custody = self.custody + amount;
                Ok(())
            }
        }
    }

    /// Moves `amount` out of custody into the account of `recipient`,
    /// creating that account if it does not exist.  Fails with
    /// `TransferFailed` exactly when the recipient's balance would overflow,
    /// and then changes nothing.
    pub fn payout(&mut self, recipient: u64, amount: u64) -> (r: Result<(), EscrowError>)
        requires
            old(self).wf(),
            amount <= old(self).custody,
        ensures
            final(self).wf(),
            r.is_ok() <==> old(self).balance_of(recipient) + amount <= u64::MAX,
            r.is_err() ==> r == Err::<(), EscrowError>(EscrowError::TransferFailed)
                && *final(self) == *old(self),
            r.is_ok() ==> {
                &&& final(self).custody == old(self).custody - amount
                &&& final(self).balance_of(recipient)
                    == old(self).balance_of(recipient) + amount
                &&& forall|a: u64| a != recipient
                    ==> final(self).balance_of(a) == old(self).balance_of(a)
            },
    {
        match self.find_account(recipient) {
            Some(i) => {
                proof {
                    lemma_account_index_is(*self, i as int, recipient);
                }
                let bal = self.accounts[i].balance;
                if amount > u64::MAX - bal {
                    return Err(EscrowError::TransferFailed);
                }
                self.accounts[i] = LedgerAccount { id: recipient, balance: bal + amount };
                self.custody = self.custody - amount;
                proof {
                    lemma_balances_after_update(*old(self), *self, i as int);
                }
                Ok(())
            }
            None => {
                proof {
                    assert(!old(self).has_account(recipient));
                }
                self.accounts.push(LedgerAccount { id: recipient, balance: amount });
                self.custody = self.custody - amount;
                proof {
                    lemma_balances_after_push(*old(self), *self);
                }
                Ok(())
            }
        }
    }

    /// Moves `amount` out of custody back into the account of `recipient`;
    /// the movement is the same as a payout, only its occasion differs.
    pub fn refund(&mut self, recipient: u64, amount: u64) -> (r: Result<(), EscrowError>)
        requires
            old(self).wf(),
            amount <= old(self).custody,
        ensures
            final(self).wf(),
            r.is_ok() <==> old(self).balance_of(recipient) + amount <= u64::MAX,
            r.is_err() ==> r == Err::<(), EscrowError>(EscrowError::TransferFailed)
                && *final(self) == *old(self),
            r.is_ok() ==> {
                &&& final(self).custody == old(self).custody - amount
                &&& final(self).balance_of(recipient)
                    == old(self).balance_of(recipient) + amount
                &&& forall|a: u64| a != recipient
                    ==> final(self).balance_of(a) == old(self).balance_of(a)
            },
    {
        self.payout(recipient, amount)
    }
}

/// A position whose account carries `id` is the position `account_index`
/// picks, once identifiers are unique.
pub proof fn lemma_account_index_is(l: CustodyLedger, i: int, id: u64)
    requires
        l.wf(),
        0 <= i < l.accounts@.len(),
        l.accounts@[i].id == id,
    ensures
        l.has_account(id),
        l.account_index(id) == i,
        l.balance_of(id) == l.accounts@[i].balance,
{
    assert(l.has_account(id));
    let j = l.account_index(id);
    assert(0 <= j < l.accounts@.len() && l.accounts@[j].id == id);
    if i < j {
        assert(l.accounts@[i].id != l.accounts@[j].id);
    } else if j < i {
        assert(l.accounts@[j].id != l.accounts@[i].id);
    }
}

/// Replacing the account at one position, keeping its identifier, changes
/// that account's balance alone.
pub proof fn lemma_balances_after_update(pre: CustodyLedger, post: CustodyLedger, i: int)
    requires
        pre.wf(),
        0 <= i < pre.accounts@.len(),
        post.accounts@.len() == pre.accounts@.len(),
        post.accounts@[i].id == pre.accounts@[i].id,
        forall|j: int| 0 <= j < pre.accounts@.len() && j != i
            ==> post.accounts@[j] == pre.accounts@[j],
    ensures
        post.wf(),
        post.balance_of(pre.accounts@[i].id) == post.accounts@[i].balance,
        forall|a: u64| a != pre.accounts@[i].id
            ==> post.balance_of(a) == pre.balance_of(a),
{
    let id = pre.accounts@[i].id;
    assert forall|p: int, q: int| 0 <= p < q < post.accounts@.len() implies
        post.accounts@[p].id != post.accounts@[q].id by {
        assert(pre.accounts@[p].id != pre.accounts@[q].id);
    }
    lemma_account_index_is(post, i, id);
    assert forall|a: u64| a != id implies post.balance_of(a) == pre.balance_of(a) by {
        if pre.has_account(a) {
            let j = pre.account_index(a);
            assert(0 <= j < pre.accounts@.len() && pre.accounts@[j].id == a);
            assert(j != i);
            assert(post.accounts@[j].id == a);
            lemma_account_index_is(post, j, a);
        }
        if post.has_account(a) {
            let j = post.account_index(a);
            assert(0 <= j < post.accounts@.len() && post.accounts@[j].id == a);
            assert(j != i);
            assert(pre.accounts@[j].id == a);
            lemma_account_index_is(pre, j, a);
        }
    }
}

/// Appending an account with a fresh identifier gives that identifier its
/// balance and leaves every other balance as it was.
pub proof fn lemma_balances_after_push(pre: CustodyLedger, post: CustodyLedger)
    requires
        pre.wf(),
        post.accounts@.len() == pre.accounts@.len() + 1,
        forall|j: int| 0 <= j < pre.accounts@.len()
            ==> post.accounts@[j] == pre.accounts@[j],
        !pre.has_account(post.accounts@[pre.accounts@.len() as int].id),
    ensures
        post.wf(),
        post.balance_of(post.accounts@[pre.accounts@.len() as int].id)
            == post.accounts@[pre.accounts@.len() as int].balance,
        forall|a: u64| a != post.accounts@[pre.accounts@.len() as int].id
            ==> post.balance_of(a) == pre.balance_of(a),
{
    let n = pre.accounts@.len() as int;
    let id = post.accounts@[n].id;
    assert forall|p: int, q: int| 0 <= p < q < post.accounts@.len() implies
        post.accounts@[p].id != post.accounts@[q].id by {
        if q < n {
            assert(pre.accounts@[p].id != pre.accounts@[q].id);
        } else {
            assert(post.accounts@[p] == pre.accounts@[p]);
            if pre.accounts@[p].id == id {
                assert(pre.has_account(id));
            }
        }
    }
    lemma_account_index_is(post, n, id);
    assert forall|a: u64| a != id implies post.balance_of(a) == pre.balance_of(a) by {
        if pre.has_account(a) {
            let j = pre.account_index(a);
            assert(0 <= j < pre.accounts@.len() && pre.accounts@[j].id == a);
            assert(post.accounts@[j].id == a);
            lemma_account_index_is(post, j, a);
        }
        if post.has_account(a) {
            let j = post.account_index(a);
            assert(0 <= j < post.accounts@.len() && post.accounts@[j].id == a);
            assert(j != n);
            assert(pre.accounts@[j].id == a);
            lemma_account_index_is(pre, j, a);
        }
    }
}

} // verus!
