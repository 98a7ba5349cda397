//! A model of the external fungible-asset ledger the lending pool lends
//! from. The real ledger is an external collaborator; the pool only ever
//! asks it to move an amount between two principals or to report a balance,
//! and this model states exactly what those two operations do.

use vstd::prelude::*;
use crate::auth::Principal;

verus! {

/// One row of the asset ledger: a principal and the amount it holds.
#[derive(Clone, Copy, PartialEq, Eq, Structural, Debug)]
pub struct Account {
    pub owner: Principal,
    pub balance: i128,
}

/// Why the asset ledger refused a transfer.
#[derive(Clone, Copy, PartialEq, Eq, Structural, Debug)]
pub enum TokenError {
    /// The amount to move was negative.
    NegativeAmount,
    /// The sender holds less than the amount to move.
    InsufficientBalance,
    /// Crediting the recipient would exceed the representable balance.
    BalanceOverflow,
}

/// The balance of `p` in a row sequence: the balance of the first row owned
/// by `p`, or 0 when no row names `p`.
spec fn balance_in(s: Seq<Account>, p: Principal) -> int
    decreases s.len(),
{
    if s.len() == 0 {
        0
    } else if s[0].owner == p {
        s[0].balance as int
    } else {
        balance_in(s.drop_first(), p)
    }
}

/// No two rows name the same principal.
spec fn distinct_owners(s: Seq<Account>) -> bool {
    forall|i: int, j: int| 0 <= i < j < s.len() ==> s[i].owner != s[j].owner
}

proof fn lemma_balance_in_absent(s: Seq<Account>, p: Principal)
    requires
        forall|i: int| 0 <= i < s.len() ==> s[i].owner != p,
    ensures
        balance_in(s, p) == 0,
    decreases s.len(),
{
    if s.len() > 0 {
        assert(forall|i: int| 0 <= i < s.drop_first().len() ==> s.drop_first()[i] == s[i + 1]);
        lemma_balance_in_absent(s.drop_first(), p);
    }
}

proof fn lemma_balance_in_found(s: Seq<Account>, p: Principal, i: int)
    requires
        distinct_owners(s),
        0 <= i < s.len(),
        s[i].owner == p,
    ensures
        balance_in(s, p) == s[i].balance as int,
    decreases s.len(),
{
    if i > 0 {
        assert(s[0].owner != p);
        assert(forall|k: int| 0 <= k < s.drop_first().len() ==> s.drop_first()[k] == s[k + 1]);
        lemma_balance_in_found(s.drop_first(), p, i - 1);
    }
}

proof fn lemma_balance_in_update(s: Seq<Account>, i: int, a: Account, p: Principal)
    requires
        distinct_owners(s),
        0 <= i < s.len(),
        s[i].owner == a.owner,
    ensures
        balance_in(s.update(i, a), p) == if p == a.owner {
            a.balance as int
        } else {
            balance_in(s, p)
        },
    decreases s.len(),
{
    let t = s.update(i, a);
    if i == 0 {
        assert(t[0] == a);
        assert(t.drop_first() =~= s.drop_first());
        if p != a.owner {
            assert(balance_in(t, p) == balance_in(t.drop_first(), p));
            assert(balance_in(s, p) == balance_in(s.drop_first(), p));
        }
    } else {
        assert(t[0] == s[0]);
        assert(t.drop_first() =~= s.drop_first().update(i - 1, a));
        assert(forall|k: int| 0 <= k < s.drop_first().len() ==> s.drop_first()[k] == s[k + 1]);
        assert(s[0].owner != a.owner);
        lemma_balance_in_update(s.drop_first(), i - 1, a, p);
    }
}

proof fn lemma_balance_in_push(s: Seq<Account>, a: Account, p: Principal)
    requires
        forall|i: int| 0 <= i < s.len() ==> s[i].owner != a.owner,
    ensures
        balance_in(s.push(a), p) == if p == a.owner {
            a.balance as int
        } else {
            balance_in(s, p)
        },
    decreases s.len(),
{
    let t = s.push(a);
    if s.len() == 0 {
        assert(t[0] == a);
        assert(t.drop_first() =~= Seq::<Account>::empty());
        if p != a.owner {
            assert(balance_in(t, p) == balance_in(t.drop_first(), p));
        }
    } else {
        assert(t[0] == s[0]);
        assert(t.drop_first() =~= s.drop_first().push(a));
        assert(forall|k: int| 0 <= k < s.drop_first().len() ==> s.drop_first()[k] == s[k + 1]);
        lemma_balance_in_push(s.drop_first(), a, p);
    }
}

/// The external asset ledger, as far as the pool consumes it: per-principal
/// balances, a `transfer` that moves an amount, and a `balance` query.
pub struct TokenLedger {
    accounts: Vec<Account>,
}

impl TokenLedger {
    /// One row per principal.
    pub closed spec fn wf(self) -> bool {
        distinct_owners(self.accounts@)
    }

    /// The balance the ledger holds for `p`; 0 for a principal it has never
    /// seen.
    pub closed spec fn spec_balance(self, p: Principal) -> int {
        balance_in(self.accounts@, p)
    }

    /// Whether the ledger accepts moving `amount` from `from` to `to`: the
    /// amount is not negative, the sender holds at least that much, and the
    /// recipient's balance stays representable.
    pub open spec fn spec_can_transfer(self, from: Principal, to: Principal, amount: int) -> bool {
        &&& 0 <= amount
        &&& amount <= self.spec_balance(from)
        &&& (from == to || self.spec_balance(to) + amount <= i128::MAX)
    }

    /// The error a refused transfer reports, checked in this order: sign,
    /// then the sender's funds, then the recipient's headroom.
    pub open spec fn spec_transfer_error(self, from: Principal, to: Principal, amount: int) -> TokenError {
        if amount < 0 {
            TokenError::NegativeAmount
        } else if self.spec_balance(from) < amount {
            TokenError::InsufficientBalance
        } else {
            TokenError::BalanceOverflow
        }
    }

    /// The balance of `q` after `amount` moved from `from` to `to`.
    pub open spec fn spec_balance_after(self, from: Principal, to: Principal, q: Principal, amount: int) -> int {
        if from == to || (q != from && q != to) {
            self.spec_balance(q)
        } else if q == from {
            self.spec_balance(q) - amount
        } else {
            self.spec_balance(q) + amount
        }
    }

    /// A ledger on which every principal holds 0.
    pub fn new() -> (t: TokenLedger)
        ensures
            t.wf(),
            forall|p: Principal| t.spec_balance(p) == 0,
    {
        let t = TokenLedger { accounts: Vec::new() };
        proof {
            assert forall|p: Principal| t.spec_balance(p) == 0 by {
                lemma_balance_in_absent(t.accounts@, p);
            }
        }
        t
    }

    /// The row owned by `p`, if any.
    fn find_index(&self, p: Principal) -> (r: Option<usize>)
        ensures
            match r {
                Some(i) => i < self.accounts@.len() && self.accounts@[i as int].owner == p,
                None => forall|j: int| 0 <= j < self.accounts@.len() ==> self.accounts@[j].owner != p,
            },
    {
        let mut i: usize = 0;
        while i < self.accounts.len()
            invariant
                i <= self.accounts.len(),
                forall|j: int| 0 <= j < i ==> self.accounts@[j].owner != p,
            decreases self.accounts.len() - i,
        {
            if self.accounts[i].owner == p {
                return Some(i);
            }
            i = i + 1;
        }
        None
    }

    /// Reports the balance the ledger holds for `p`.
    pub fn balance(&self, p: Principal) -> (b: i128)
        requires
            self.wf(),
        ensures
            b as int == self.spec_balance(p),
    {
        match self.find_index(p) {
            Some(i) => {
                proof {
                    lemma_balance_in_found(self.accounts@, p, i as int);
                }
                self.accounts[i].balance
            }
            None => {
                proof {
                    lemma_balance_in_absent(self.accounts@, p);
                }
                0
            }
        }
    }

    /// Overwrites the balance held for `p`. Balances originate outside this
    /// system — the asset's issuer mints them — so the model exposes the
    /// external mint as a plain write that touches no other account.
    pub fn set_balance(&mut self, p: Principal, b: i128)
        requires
            old(self).wf(),
        ensures
            final(self).wf(),
            final(self).spec_balance(p) == b as int,
            forall|q: Principal| q != p ==> final(self).spec_balance(q) == old(self).spec_balance(q),
    {
        let row = Account { owner: p, balance: b };
        match self.find_index(p) {
            Some(i) => {
                self.accounts.set(i, row);
                proof {
                    assert forall|q: Principal| final(self).spec_balance(q) == if q == p {
                        b as int
                    } else {
                        old(self).spec_balance(q)
                    } by {
                        lemma_balance_in_update(old(self).accounts@, i as int, row, q);
                    }
                }
            }
            None => {
                self.accounts.push(row);
                proof {
                    assert forall|q: Principal| final(self).spec_balance(q) == if q == p {
                        b as int
                    } else {
                        old(self).spec_balance(q)
                    } by {
                        lemma_balance_in_push(old(self).accounts@, row, q);
                    }
                }
            }
        }
    }

    /// Moves `amount` from `from` to `to`, or refuses and changes nothing.
    /// Succeeds exactly when [`Self::spec_can_transfer`] holds; a refusal
    /// reports [`Self::spec_transfer_error`].
    pub fn transfer(&mut self, from: Principal, to: Principal, amount: i128) -> (r: Result<(), TokenError>)
        requires
            old(self).wf(),
        ensures
            final(self).wf(),
            r is Ok <==> old(self).spec_can_transfer(from, to, amount as int),
            r is Err ==> *final(self) == *old(self) && r->Err_0 == old(self).spec_transfer_error(
                from,
                to,
                amount as int,
            ),
            r is Ok ==> forall|q: Principal|
                final(self).spec_balance(q) == old(self).spec_balance_after(from, to, q, amount as int),
    {
        if amount < 0 {
            return Err(TokenError::NegativeAmount);
        }
        let from_balance = self.balance(from);
        if from_balance < amount {
            return Err(TokenError::InsufficientBalance);
        }
        if from == to {
            return Ok(());
        }
        let to_balance = self.balance(to);
        if to_balance > i128::MAX - amount {
            return Err(TokenError::BalanceOverflow);
        }
        self.set_balance(from, from_balance - amount);
        self.set_balance(to, to_balance + amount);
        Ok(())
    }
}

} // verus!
