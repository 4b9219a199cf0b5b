//! Why the engine turned down a record.

use vstd::prelude::*;

verus! {

/// The reason a record was rejected. Every rejection leaves the balances
/// and the recorded transactions as they were.
#[derive(Debug, Clone, Copy, PartialEq, Eq, Structural)]
pub enum RejectionReason {
    /// The record targets an account frozen by a chargeback.
    AccountLocked,
    /// A deposit or withdrawal reuses a transaction id already recorded.
    DuplicateTransaction,
    /// A deposit or withdrawal carries no amount.
    MissingAmount,
    /// A deposit or withdrawal amount is zero or negative.
    InvalidAmount,
    /// A withdrawal exceeds the available funds.
    InsufficientFunds,
    /// A dispute, resolve or chargeback names no recorded deposit or withdrawal.
    UnknownTransaction,
    /// A dispute, resolve or chargeback is not allowed in the transaction's state.
    InvalidStateTransition,
    /// Under strict client checking, a dispute, resolve or chargeback comes
    /// from a client other than the one that owns the transaction.
    ClientMismatch,
    /// Applying the record would take a balance out of the range of `i64`.
    BalanceOverflow,
}

} // verus!
