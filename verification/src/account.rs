//! Per-client account state and the five transaction effects.
//!
//! Each effect is a total function on the account: business-rule violations
//! (overdraft, a deposit or withdrawal on a locked account, releasing funds
//! when nothing is held) silently leave the account unchanged, as does the
//! rare step whose arithmetic would leave the `i64` grid. The exact
//! transition of every method is pinned down by a specification function,
//! and the `total == available + held` balance invariant is proved to be
//! preserved by all of them.

use crate::amount::fits_i64;
use vstd::prelude::*;

verus! {

/// One client's balances. All monetary fields count ten-thousandths of the
/// currency unit (see [`crate::amount`]).
#[derive(Clone, Copy, Debug, PartialEq, Eq, Structural)]
pub struct Account {
    pub client: u16,
    pub available: i64,
    pub held: i64,
    pub total: i64,
    pub locked: bool,
}

impl Account {
    /// The balance invariant: held plus available funds make up the total.
    pub open spec fn balanced(self) -> bool {
        self.total == self.available + self.held
    }

    /// The state of an account the first time its client id is seen:
    /// all balances zero, not locked.
    pub open spec fn spec_initial(client: u16) -> Account {
        Account { client, available: 0, held: 0, total: 0, locked: false }
    }

    /// A fresh zero-balance, unlocked account.
    pub fn new(client: u16) -> (a: Account)
        ensures
            a == Account::spec_initial(client),
    {
        Account { client, available: 0, held: 0, total: 0, locked: false }
    }

    /// Effect of a deposit: credit available and total funds, unless the
    /// account is locked (or the sums would leave the grid).
    pub open spec fn spec_deposit(self, amount: i64) -> Account {
        if !self.locked && fits_i64(self.total + amount) && fits_i64(self.available + amount) {
            Account {
                available: (self.available + amount) as i64,
                total: (self.total + amount) as i64,
                ..self
            }
        } else {
            self
        }
    }

    /// Effect of a withdrawal: debit available and total funds, but only if
    /// the account is not locked and the amount is strictly below the
    /// available balance — taking out the full balance counts as an
    /// overdraft and is rejected.
    pub open spec fn spec_withdraw(self, amount: i64) -> Account {
        if amount < self.available && !self.locked && fits_i64(self.total - amount) && fits_i64(
            self.available - amount,
        ) {
            Account {
                available: (self.available - amount) as i64,
                total: (self.total - amount) as i64,
                ..self
            }
        } else {
            self
        }
    }

    /// Effect of a dispute: hold the referenced amount, recomputing the
    /// available funds as whatever of the total is not held. Unconditional —
    /// not gated by the lock and with no guard against repeated disputes.
    pub open spec fn spec_dispute(self, amount: i64) -> Account {
        if fits_i64(self.held + amount) && fits_i64(self.total - (self.held + amount)) {
            Account {
                held: (self.held + amount) as i64,
                available: (self.total - (self.held + amount)) as i64,
                ..self
            }
        } else {
            self
        }
    }

    /// Effect of a resolve: release the referenced amount from hold, but
    /// only if some funds are currently held at all.
    pub open spec fn spec_resolve(self, amount: i64) -> Account {
        if self.held > 0 && fits_i64(self.held - amount) && fits_i64(
            self.total - (self.held - amount),
        ) {
            Account {
                held: (self.held - amount) as i64,
                available: (self.total - (self.held - amount)) as i64,
                ..self
            }
        } else {
            self
        }
    }

    /// Effect of a chargeback: withdraw the referenced amount from both held
    /// and total funds and lock the account for good, but only if some funds
    /// are currently held at all.
    pub open spec fn spec_chargeback(self, amount: i64) -> Account {
        if self.held > 0 && fits_i64(self.held - amount) && fits_i64(self.total - amount) {
            Account {
                held: (self.held - amount) as i64,
                total: (self.total - amount) as i64,
                locked: true,
                ..self
            }
        } else {
            self
        }
    }

    pub fn deposit(&mut self, deposit_amount: i64)
        ensures
            *final(self) == old(self).spec_deposit(deposit_amount),
    {
        if !self.locked {
            let new_total = self.total.checked_add(deposit_amount);
            let new_available = self.available.checked_add(deposit_amount);
            if let (Some(t), Some(av)) = (new_total, new_available) {
                self.total = t;
                self.available = av;
            }
        }
    }

    pub fn withdraw(&mut self, withdraw_amount: i64)
        ensures
            *final(self) == old(self).spec_withdraw(withdraw_amount),
    {
        if withdraw_amount < self.available && !self.locked {
            let new_total = self.total.checked_sub(withdraw_amount);
            let new_available = self.available.checked_sub(withdraw_amount);
            if let (Some(t), Some(av)) = (new_total, new_available) {
                self.total = t;
                self.available = av;
            }
        }
    }

    pub fn dispute(&mut self, amount: i64)
        ensures
            *final(self) == old(self).spec_dispute(amount),
    {
        if let Some(h) = self.held.checked_add(amount) {
            if let Some(av) = self.total.checked_sub(h) {
                self.held = h;
                self.available = av;
            }
        }
    }

    pub fn resolve(&mut self, amount: i64)
        ensures
            *final(self) == old(self).spec_resolve(amount),
    {
        if self.held > 0 {
            if let Some(h) = self.held.checked_sub(amount) {
                if let Some(av) = self.total.checked_sub(h) {
                    self.held = h;
                    self.available = av;
                }
            }
        }
    }

    pub fn chargeback(&mut self, amount: i64)
        ensures
            *final(self) == old(self).spec_chargeback(amount),
    {
        if self.held > 0 {
            if let Some(h) = self.held.checked_sub(amount) {
                if let Some(t) = self.total.checked_sub(amount) {
                    self.held = h;
                    self.total = t;
                    self.locked = true;
                }
            }
        }
    }
}

/// Every one of the five effects preserves the balance invariant
/// `total == available + held`: deposits, withdrawals and chargebacks move
/// available (or held) and total in lockstep, while disputes and resolves
/// recompute the available funds as total minus held outright.
pub proof fn lemma_effects_preserve_balance(a: Account, amount: i64)
    requires
        a.balanced(),
    ensures
        a.spec_deposit(amount).balanced(),
        a.spec_withdraw(amount).balanced(),
        a.spec_dispute(amount).balanced(),
        a.spec_resolve(amount).balanced(),
        a.spec_chargeback(amount).balanced(),
{
}

/// A deposit followed by a withdrawal of the same amount puts the available
/// and total balances back where they started (the withdrawal cannot be
/// refused as an overdraft, because the deposit left strictly more available
/// than the amount whenever something was available before it).
pub proof fn lemma_deposit_withdraw_round_trip(a: Account, amount: i64)
    requires
        a.available > 0,
        fits_i64(a.total + amount),
        fits_i64(a.available + amount),
    ensures
        a.spec_deposit(amount).spec_withdraw(amount).available == a.available,
        a.spec_deposit(amount).spec_withdraw(amount).total == a.total,
{
}

/// Withdrawing exactly the full available balance is an overdraft and is
/// rejected: the guard is the strict `amount < available`.
pub proof fn lemma_withdraw_exact_available_rejected(a: Account)
    ensures
        a.spec_withdraw(a.available) == a,
{
}

/// A chargeback with funds on hold locks the account and leaves exactly the
/// balances it produced: available untouched, held and total both debited by
/// the referenced amount.
pub proof fn lemma_chargeback_locks(a: Account, amount: i64)
    requires
        a.held > 0,
        fits_i64(a.held - amount),
        fits_i64(a.total - amount),
    ensures
        a.spec_chargeback(amount).locked,
        a.spec_chargeback(amount).available == a.available,
        a.spec_chargeback(amount).held == a.held - amount,
        a.spec_chargeback(amount).total == a.total - amount,
{
}

/// A locked account suppresses deposits and withdrawals entirely: both are
/// no-ops, so the balances stay exactly as the lock (a chargeback) left
/// them.
pub proof fn lemma_locked_account_rejects(a: Account, amount: i64)
    requires
        a.locked,
    ensures
        a.spec_deposit(amount) == a,
        a.spec_withdraw(amount) == a,
{
}

} // verus!
