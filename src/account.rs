//! The per-client account and its balance operations.
//!
//! Amounts are signed fixed-point integers (see `crate::amount`). The
//! operations are passive arithmetic: whether an operation is allowed on a
//! locked account is decided by the engine.

use vstd::prelude::*;
use crate::rejection::RejectionReason;

verus! {

/// Whether `x` is a value of `i64`.
pub open spec fn fits_i64(x: int) -> bool {
    i64::MIN <= x <= i64::MAX
}

/// One client's balances.
#[derive(Debug, Clone, Copy, PartialEq, Eq, Structural)]
pub struct Acct {
    /// Funds the client may withdraw.
    pub available: i64,
    /// Funds frozen by open disputes.
    pub held: i64,
    /// `available + held`.
    pub total: i64,
    /// Set for good by a chargeback.
    pub locked: bool,
}

impl Acct {
    /// A fresh account: all balances zero, not locked.
    pub open spec fn empty() -> Acct {
        Acct { available: 0, held: 0, total: 0, locked: false }
    }

    /// The balance invariant.
    pub open spec fn is_balanced(self) -> bool {
        self.total == self.available + self.held
    }

    /// The outcome of depositing `amt`: the new account, or why it is refused.
    pub open spec fn after_deposit(self, amt: i64) -> Result<Acct, RejectionReason> {
        if amt <= 0 {
            Err(RejectionReason::InvalidAmount)
        } else if !fits_i64(self.available + amt) || !fits_i64(self.total + amt) {
            Err(RejectionReason::BalanceOverflow)
        } else {
            Ok(Acct {
                available: (self.available + amt) as i64,
                total: (self.total + amt) as i64,
                ..self
            })
        }
    }

    /// Relates the result of an operation and the account after it to the
    /// operation's outcome: applied in full on `Ok`, not at all on `Err`.
    pub open spec fn outcome_is(
        self,
        after: Acct,
        r: Result<(), RejectionReason>,
        outcome: Result<Acct, RejectionReason>,
    ) -> bool {
        match outcome {
            Ok(a) => r == Ok::<(), RejectionReason>(()) && after == a,
            Err(e) => r == Err::<(), RejectionReason>(e) && after == self,
        }
    }

    /// The outcome of withdrawing `amt`. Funds are checked before the sign
    /// of the amount.
    pub open spec fn after_withdrawal(self, amt: i64) -> Result<Acct, RejectionReason> {
        if self.available < amt {
            Err(RejectionReason::InsufficientFunds)
        } else if amt <= 0 {
            Err(RejectionReason::InvalidAmount)
        } else if !fits_i64(self.total - amt) {
            Err(RejectionReason::BalanceOverflow)
        } else {
            Ok(Acct {
                available: (self.available - amt) as i64,
                total: (self.total - amt) as i64,
                ..self
            })
        }
    }

    /// Whether holding `amt` keeps every balance within `i64`.
    pub open spec fn hold_fits(self, amt: i64) -> bool {
        fits_i64(self.available - amt) && fits_i64(self.held + amt)
    }

    /// The account after `amt` moves from `available` to `held`.
    pub open spec fn after_hold(self, amt: i64) -> Acct {
        Acct {
            available: (self.available - amt) as i64,
            held: (self.held + amt) as i64,
            ..self
        }
    }

    /// Whether releasing `amt` keeps every balance within `i64`.
    pub open spec fn release_fits(self, amt: i64) -> bool {
        fits_i64(self.available + amt) && fits_i64(self.held - amt)
    }

    /// The account after `amt` moves from `held` back to `available`.
    pub open spec fn after_release(self, amt: i64) -> Acct {
        Acct {
            available: (self.available + amt) as i64,
            held: (self.held - amt) as i64,
            ..self
        }
    }

    /// Whether forfeiting `amt` keeps every balance within `i64`.
    pub open spec fn forfeit_fits(self, amt: i64) -> bool {
        fits_i64(self.held - amt) && fits_i64(self.total - amt)
    }

    /// The account after `amt` leaves `held` and `total` for good, locked.
    pub open spec fn after_forfeit(self, amt: i64) -> Acct {
        Acct {
            held: (self.held - amt) as i64,
            total: (self.total - amt) as i64,
            locked: true,
            ..self
        }
    }

    /// Adds `amt` to `available` and `total`; refuses an amount that is not
    /// positive.
    pub fn deposit(&mut self, amt: i64) -> (r: Result<(), RejectionReason>)
        ensures
            old(self).outcome_is(*final(self), r, old(self).after_deposit(amt)),
            old(self).is_balanced() ==> final(self).is_balanced(),
    {
        if amt <= 0 {
            return Err(RejectionReason::InvalidAmount);
        }
        if self.available > i64::MAX - amt || self.total > i64::MAX - amt {
            return Err(RejectionReason::BalanceOverflow);
        }
        self.available = self.available + amt;
        self.total = self.total + amt;
        Ok(())
    }

    /// Takes `amt` from `available` and `total`; refuses a withdrawal beyond
    /// the available funds, then an amount that is not positive.
    pub fn withdrawal(&mut self, amt: i64) -> (r: Result<(), RejectionReason>)
        ensures
            old(self).outcome_is(*final(self), r, old(self).after_withdrawal(amt)),
            old(self).is_balanced() ==> final(self).is_balanced(),
    {
        if self.available < amt {
            return Err(RejectionReason::InsufficientFunds);
        }
        if amt <= 0 {
            return Err(RejectionReason::InvalidAmount);
        }
        if self.total < i64::MIN + amt {
            return Err(RejectionReason::BalanceOverflow);
        }
        self.available = self.available - amt;
        self.total = self.total - amt;
        Ok(())
    }

    /// Whether `dispute(amt)` keeps every balance within `i64`.
    pub fn can_hold(&self, amt: i64) -> (r: bool)
        ensures
            r == self.hold_fits(amt),
    {
        self.available.checked_sub(amt).is_some() && self.held.checked_add(amt).is_some()
    }

    /// Whether `resolve(amt)` keeps every balance within `i64`.
    pub fn can_release(&self, amt: i64) -> (r: bool)
        ensures
            r == self.release_fits(amt),
    {
        self.available.checked_add(amt).is_some() && self.held.checked_sub(amt).is_some()
    }

    /// Whether `chargeback(amt)` keeps every balance within `i64`.
    pub fn can_forfeit(&self, amt: i64) -> (r: bool)
        ensures
            r == self.forfeit_fits(amt),
    {
        self.held.checked_sub(amt).is_some() && self.total.checked_sub(amt).is_some()
    }

    /// Moves `amt` from `available` to `held`. The amount is signed: a
    /// disputed withdrawal holds a negative amount.
    pub fn dispute(&mut self, amt: i64)
        requires
            old(self).hold_fits(amt),
        ensures
            *final(self) == old(self).after_hold(amt),
            old(self).is_balanced() ==> final(self).is_balanced(),
    {
        self.available = self.available - amt;
        self.held = self.held + amt;
    }

    /// Moves `amt` from `held` back to `available`.
    pub fn resolve(&mut self, amt: i64)
        requires
            old(self).release_fits(amt),
        ensures
            *final(self) == old(self).after_release(amt),
            old(self).is_balanced() ==> final(self).is_balanced(),
    {
        self.available = self.available + amt;
        self.held = self.held - amt;
    }

    /// Removes `amt` from `held` and `total` and locks the account.
    pub fn chargeback(&mut self, amt: i64)
        requires
            old(self).forfeit_fits(amt),
        ensures
            *final(self) == old(self).after_forfeit(amt),
            old(self).is_balanced() ==> final(self).is_balanced(),
    {
        self.held = self.held - amt;
        self.total = self.total - amt;
        self.locked = true;
    }
}

impl Default for Acct {
    fn default() -> (r: Acct)
        ensures
            r == Acct::empty(),
    {
        Acct { available: 0, held: 0, total: 0, locked: false }
    }
}

} // verus!
