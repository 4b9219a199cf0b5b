//! The transaction engine: it owns the accounts and the recorded
//! transactions, and applies one incoming record at a time.
//!
//! A recorded transaction keeps a signed amount: positive for a deposit,
//! negative for a withdrawal. Dispute, resolve and chargeback then use the
//! same hold / release / forfeit arithmetic whatever the direction of the
//! original transaction, so a disputed withdrawal holds a negative amount.

use std::collections::BTreeMap;
use vstd::prelude::*;
use crate::account::Acct;
use crate::record::{Tx, TxType};
use crate::rejection::RejectionReason;

verus! {

/// Where a recorded transaction stands in the dispute protocol.
#[derive(Debug, Clone, Copy, PartialEq, Eq, Structural)]
pub enum TxState {
    /// The transaction is in force.
    Undisputed,
    /// The transaction is disputed and its amount held.
    Disputed,
    /// The dispute ended in a chargeback; nothing further can happen to it.
    Chargebacked,
}

/// An accepted deposit or withdrawal, kept so that later records can
/// dispute it.
#[derive(Debug, Clone, Copy, PartialEq, Eq, Structural)]
pub struct RecTx {
    /// The client whose deposit or withdrawal this was.
    pub client_id: u16,
    /// The signed amount: positive for a deposit, negative for a withdrawal.
    pub amount: i64,
    pub state: TxState,
}

/// The signed amount recorded for an accepted deposit or withdrawal of `amt`.
pub open spec fn signed_amount(kind: TxType, amt: i64) -> int {
    if kind is Withdrawal {
        -amt
    } else {
        amt as int
    }
}

impl RecTx {
    /// The record kept for an accepted deposit or withdrawal.
    pub open spec fn recorded(tx: Tx) -> RecTx {
        RecTx {
            client_id: tx.client_id,
            amount: signed_amount(tx.tx_type, tx.amount->Some_0) as i64,
            state: TxState::Undisputed,
        }
    }

    /// Builds the record kept for an accepted deposit or withdrawal.
    pub fn from_tx(tx: &Tx) -> (r: RecTx)
        requires
            tx.tx_type.moves_funds(),
            tx.amount matches Some(a) && a > i64::MIN,
        ensures
            r == RecTx::recorded(*tx),
            r.amount == signed_amount(tx.tx_type, tx.amount->Some_0),
    {
        let amt = match tx.amount {
            Some(a) => a,
            None => 0,
        };
        let amount = match tx.tx_type {
            TxType::Withdrawal => -amt,
            _ => amt,
        };
        RecTx { client_id: tx.client_id, amount, state: TxState::Undisputed }
    }
}

/// The account of client `c`: the one in `accts`, or a fresh one.
pub open spec fn account_of(accts: Map<u16, Acct>, c: u16) -> Acct {
    if accts.contains_key(c) {
        accts[c]
    } else {
        Acct::empty()
    }
}

/// Whether every account satisfies `total == available + held`.
pub open spec fn all_balanced(accts: Map<u16, Acct>) -> bool {
    forall|c: u16| #[trigger] accts.contains_key(c) ==> accts[c].is_balanced()
}

/// What a dispute, resolve or chargeback does to a recorded transaction
/// `rec` and the account `acct`: its new state and the new account, or why
/// it is refused.
pub open spec fn protocol_outcome(kind: TxType, rec: RecTx, acct: Acct) -> Result<
    (TxState, Acct),
    RejectionReason,
> {
    match kind {
        TxType::Dispute => if !(rec.state is Undisputed) {
            Err(RejectionReason::InvalidStateTransition)
        } else if !acct.hold_fits(rec.amount) {
            Err(RejectionReason::BalanceOverflow)
        } else {
            Ok((TxState::Disputed, acct.after_hold(rec.amount)))
        },
        TxType::Resolve => if !(rec.state is Disputed) {
            Err(RejectionReason::InvalidStateTransition)
        } else if !acct.release_fits(rec.amount) {
            Err(RejectionReason::BalanceOverflow)
        } else {
            Ok((TxState::Undisputed, acct.after_release(rec.amount)))
        },
        TxType::Chargeback => if !(rec.state is Disputed) {
            Err(RejectionReason::InvalidStateTransition)
        } else if !acct.forfeit_fits(rec.amount) {
            Err(RejectionReason::BalanceOverflow)
        } else {
            Ok((TxState::Chargebacked, acct.after_forfeit(rec.amount)))
        },
        _ => Err(RejectionReason::InvalidStateTransition),
    }
}

/// The effect of one record on the accounts and the recorded transactions,
/// and the result reported for it. `strict` asks that a dispute, resolve or
/// chargeback come from the client that owns the transaction.
///
/// The record's client gets an account even when the record is rejected;
/// apart from that a rejected record changes nothing.
pub open spec fn step(strict: bool, accts: Map<u16, Acct>, txs: Map<u32, RecTx>, tx: Tx) -> (
    Map<u16, Acct>,
    Map<u32, RecTx>,
    Result<(), RejectionReason>,
) {
    let c = tx.client_id;
    let acct = account_of(accts, c);
    let touched = accts.insert(c, acct);
    if acct.locked {
        (touched, txs, Err(RejectionReason::AccountLocked))
    } else if tx.tx_type.moves_funds() {
        if txs.contains_key(tx.tx_id) {
            (touched, txs, Err(RejectionReason::DuplicateTransaction))
        } else if tx.amount is None {
            (touched, txs, Err(RejectionReason::MissingAmount))
        } else {
            let amt = tx.amount->Some_0;
            let outcome = if tx.tx_type is Deposit {
                acct.after_deposit(amt)
            } else {
                acct.after_withdrawal(amt)
            };
            match outcome {
                Ok(a) => (accts.insert(c, a), txs.insert(tx.tx_id, RecTx::recorded(tx)), Ok(())),
                Err(e) => (touched, txs, Err(e)),
            }
        }
    } else if !txs.contains_key(tx.tx_id) {
        (touched, txs, Err(RejectionReason::UnknownTransaction))
    } else {
        let rec = txs[tx.tx_id];
        if strict && rec.client_id != c {
            (touched, txs, Err(RejectionReason::ClientMismatch))
        } else {
            match protocol_outcome(tx.tx_type, rec, acct) {
                Ok((state, a)) => (
                    accts.insert(c, a),
                    txs.insert(tx.tx_id, RecTx { state, ..rec }),
                    Ok(()),
                ),
                Err(e) => (touched, txs, Err(e)),
            }
        }
    }
}

/// The engine: every account it has seen and every deposit or withdrawal
/// it has accepted.
pub struct Engine {
    /// Accepted deposits and withdrawals, by transaction id.
    pub tx_map: BTreeMap<u32, RecTx>,
    /// Accounts, by client id.
    pub acct_map: BTreeMap<u16, Acct>,
    /// Whether a dispute, resolve or chargeback must come from the client
    /// that owns the transaction. Off by default: then the record's own
    /// client account is the one that holds, releases or forfeits.
    pub strict_clients: bool,
}

impl Engine {
    /// The engine's invariant: every account is balanced.
    pub open spec fn well_formed(&self) -> bool {
        all_balanced(self.acct_map@)
    }

    /// An empty engine, with strict client checking on or off.
    pub fn with_strict_clients(strict: bool) -> (r: Engine)
        ensures
            r.tx_map@ == Map::<u32, RecTx>::empty(),
            r.acct_map@ == Map::<u16, Acct>::empty(),
            r.strict_clients == strict,
            r.well_formed(),
    {
        Engine { tx_map: BTreeMap::new(), acct_map: BTreeMap::new(), strict_clients: strict }
    }

    /// Applies one record: returns `Ok` if it was accepted, or the reason it
    /// was rejected. A rejected record changes nothing but the creation of
    /// its client's account.
    pub fn process_tx(&mut self, tx: Tx) -> (r: Result<(), RejectionReason>)
        ensures
            (final(self).acct_map@, final(self).tx_map@, r) == step(
                old(self).strict_clients,
                old(self).acct_map@,
                old(self).tx_map@,
                tx,
            ),
            final(self).strict_clients == old(self).strict_clients,
            old(self).well_formed() ==> final(self).well_formed(),
    {
        let c = tx.client_id;
        let acct: Acct = match self.acct_map.get(&c) {
            Some(a) => *a,
            None => Acct::default(),
        };
        self.acct_map.insert(c, acct);
        if acct.locked {
            return Err(RejectionReason::AccountLocked);
        }
        match tx.tx_type {
            TxType::Deposit | TxType::Withdrawal => {
                if self.tx_map.contains_key(&tx.tx_id) {
                    return Err(RejectionReason::DuplicateTransaction);
                }
                let amt = match tx.amount {
                    Some(a) => a,
                    None => return Err(RejectionReason::MissingAmount),
                };
                let mut a = acct;
                let applied = match tx.tx_type {
                    TxType::Deposit => a.deposit(amt),
                    _ => a.withdrawal(amt),
                };
                if let Err(e) = applied {
                    return Err(e);
                }
                self.acct_map.insert(c, a);
                self.tx_map.insert(tx.tx_id, RecTx::from_tx(&tx));
                Ok(())
            },
            _ => {
                let rec: RecTx = match self.tx_map.get(&tx.tx_id) {
                    Some(t) => *t,
                    None => return Err(RejectionReason::UnknownTransaction),
                };
                if self.strict_clients && rec.client_id != c {
                    return Err(RejectionReason::ClientMismatch);
                }
                let mut a = acct;
                let state = match tx.tx_type {
                    TxType::Dispute => {
                        if rec.state != TxState::Undisputed {
                            return Err(RejectionReason::InvalidStateTransition);
                        }
                        if !a.can_hold(rec.amount) {
                            return Err(RejectionReason::BalanceOverflow);
                        }
                        a.dispute(rec.amount);
                        TxState::Disputed
                    },
                    TxType::Resolve => {
                        if rec.state != TxState::Disputed {
                            return Err(RejectionReason::InvalidStateTransition);
                        }
                        if !a.can_release(rec.amount) {
                            return Err(RejectionReason::BalanceOverflow);
                        }
                        a.resolve(rec.amount);
                        TxState::Undisputed
                    },
                    _ => {
                        if rec.state != TxState::Disputed {
                            return Err(RejectionReason::InvalidStateTransition);
                        }
                        if !a.can_forfeit(rec.amount) {
                            return Err(RejectionReason::BalanceOverflow);
                        }
                        a.chargeback(rec.amount);
                        TxState::Chargebacked
                    },
                };
                self.acct_map.insert(c, a);
                self.tx_map.insert(tx.tx_id, RecTx { state, ..rec });
                Ok(())
            },
        }
    }
}

impl Default for Engine {
    fn default() -> (r: Engine)
        ensures
            r.tx_map@ == Map::<u32, RecTx>::empty(),
            r.acct_map@ == Map::<u16, Acct>::empty(),
            !r.strict_clients,
            r.well_formed(),
    {
        Engine::with_strict_clients(false)
    }
}

} // verus!
