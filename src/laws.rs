//! Properties of the engine over runs of records, stated over `step`, the
//! function that `Engine::process_tx` is specified by.

use vstd::prelude::*;
use crate::account::Acct;
use crate::engine::{account_of, all_balanced, step, RecTx, TxState};
use crate::record::{Tx, TxType};
use crate::rejection::RejectionReason;

verus! {

/// The accounts, the recorded transactions and the result of each record
/// after processing `records` in order, starting from `accts` and `txs`.
pub open spec fn run(
    strict: bool,
    accts: Map<u16, Acct>,
    txs: Map<u32, RecTx>,
    records: Seq<Tx>,
) -> (Map<u16, Acct>, Map<u32, RecTx>, Seq<Result<(), RejectionReason>>)
    decreases records.len(),
{
    if records.len() == 0 {
        (accts, txs, Seq::empty())
    } else {
        let before = run(strict, accts, txs, records.drop_last());
        let s = step(strict, before.0, before.1, records.last());
        (s.0, s.1, before.2.push(s.2))
    }
}

/// A run reports one result per record.
proof fn lemma_run_reports_each(
    strict: bool,
    accts: Map<u16, Acct>,
    txs: Map<u32, RecTx>,
    records: Seq<Tx>,
)
    ensures
        run(strict, accts, txs, records).2.len() == records.len(),
    decreases records.len(),
{
    if records.len() > 0 {
        lemma_run_reports_each(strict, accts, txs, records.drop_last());
    }
}

/// Whether every client's account is the same in `a` and `b`, a client
/// without an account counting as one with a fresh account.
pub open spec fn same_balances(a: Map<u16, Acct>, b: Map<u16, Acct>) -> bool {
    forall|k: u16| #[trigger] account_of(a, k) == account_of(b, k)
}

/// Every record keeps `total == available + held` in every account.
pub proof fn lemma_step_keeps_balance(
    strict: bool,
    accts: Map<u16, Acct>,
    txs: Map<u32, RecTx>,
    tx: Tx,
)
    requires
        all_balanced(accts),
    ensures
        all_balanced(step(strict, accts, txs, tx).0),
{
}

/// After any run of records, every account still has
/// `total == available + held`.
pub proof fn lemma_run_keeps_balance(
    strict: bool,
    accts: Map<u16, Acct>,
    txs: Map<u32, RecTx>,
    records: Seq<Tx>,
)
    requires
        all_balanced(accts),
    ensures
        all_balanced(run(strict, accts, txs, records).0),
    decreases records.len(),
{
    if records.len() > 0 {
        lemma_run_keeps_balance(strict, accts, txs, records.drop_last());
        let before = run(strict, accts, txs, records.drop_last());
        lemma_step_keeps_balance(strict, before.0, before.1, records.last());
    }
}

/// A deposit or withdrawal that reuses a recorded transaction id, on an
/// account that is not locked, is rejected as a duplicate and changes no
/// balance and no recorded transaction.
pub proof fn lemma_duplicate_rejected(
    strict: bool,
    accts: Map<u16, Acct>,
    txs: Map<u32, RecTx>,
    tx: Tx,
)
    requires
        tx.tx_type.moves_funds(),
        txs.contains_key(tx.tx_id),
        !account_of(accts, tx.client_id).locked,
    ensures
        step(strict, accts, txs, tx).2 == Err::<(), RejectionReason>(
            RejectionReason::DuplicateTransaction,
        ),
        same_balances(step(strict, accts, txs, tx).0, accts),
        step(strict, accts, txs, tx).1 == txs,
{
}

/// Any record for a client whose account is locked is rejected as such,
/// and changes no balance and no recorded transaction.
pub proof fn lemma_locked_rejects(
    strict: bool,
    accts: Map<u16, Acct>,
    txs: Map<u32, RecTx>,
    tx: Tx,
)
    requires
        account_of(accts, tx.client_id).locked,
    ensures
        step(strict, accts, txs, tx).2 == Err::<(), RejectionReason>(
            RejectionReason::AccountLocked,
        ),
        same_balances(step(strict, accts, txs, tx).0, accts),
        step(strict, accts, txs, tx).1 == txs,
{
}

/// Once client `c`'s account is locked, it stays locked and unchanged
/// through any later run of records, and every record of that run for `c`,
/// of whatever kind, is rejected because the account is locked.
pub proof fn lemma_lock_is_permanent(
    strict: bool,
    accts: Map<u16, Acct>,
    txs: Map<u32, RecTx>,
    records: Seq<Tx>,
    c: u16,
)
    requires
        account_of(accts, c).locked,
    ensures
        account_of(run(strict, accts, txs, records).0, c) == account_of(accts, c),
        forall|i: int|
            0 <= i < records.len() && (#[trigger] records[i]).client_id == c ==> run(
                strict,
                accts,
                txs,
                records,
            ).2[i] == Err::<(), RejectionReason>(RejectionReason::AccountLocked),
    decreases records.len(),
{
    if records.len() > 0 {
        let prefix = records.drop_last();
        lemma_lock_is_permanent(strict, accts, txs, prefix, c);
        lemma_run_reports_each(strict, accts, txs, prefix);
        let before = run(strict, accts, txs, prefix);
        let last = records.last();
        let s = step(strict, before.0, before.1, last);
        if last.client_id == c {
            lemma_locked_rejects(strict, before.0, before.1, last);
        }
        assert forall|i: int|
            0 <= i < records.len() && (#[trigger] records[i]).client_id == c implies run(
                strict,
                accts,
                txs,
                records,
            ).2[i] == Err::<(), RejectionReason>(RejectionReason::AccountLocked) by {
            if i < prefix.len() {
                assert(records[i] == prefix[i]);
                assert(run(strict, accts, txs, records).2[i] == before.2[i]);
            }
        }
    }
}

/// A dispute followed by a resolve of the same undisputed transaction, from
/// the same client, leaves every account and every recorded transaction as
/// it was before the dispute.
pub proof fn lemma_dispute_round_trip(
    strict: bool,
    accts: Map<u16, Acct>,
    txs: Map<u32, RecTx>,
    dispute: Tx,
    resolve: Tx,
)
    requires
        dispute.tx_type is Dispute,
        resolve.tx_type is Resolve,
        dispute.client_id == resolve.client_id,
        dispute.tx_id == resolve.tx_id,
        txs.contains_key(dispute.tx_id),
        txs[dispute.tx_id].state is Undisputed,
    ensures
        ({
            let after = step(strict, accts, txs, dispute);
            let back = step(strict, after.0, after.1, resolve);
            &&& same_balances(back.0, accts)
            &&& back.1 == txs
        }),
{
    let after = step(strict, accts, txs, dispute);
    let back = step(strict, after.0, after.1, resolve);
    let rec = txs[dispute.tx_id];
    if after.2 is Ok {
        assert(after.1[dispute.tx_id] == RecTx { state: TxState::Disputed, ..rec });
        assert(back.1 =~= txs);
    }
    assert(back.0.contains_key(dispute.client_id));
}

/// A withdrawal of more than the available funds, on an account that is
/// not locked and with a new transaction id, is rejected for insufficient
/// funds and changes no balance and no recorded transaction.
pub proof fn lemma_withdrawal_beyond_available(
    strict: bool,
    accts: Map<u16, Acct>,
    txs: Map<u32, RecTx>,
    tx: Tx,
)
    requires
        tx.tx_type is Withdrawal,
        tx.amount matches Some(amt) && amt > account_of(accts, tx.client_id).available,
        !account_of(accts, tx.client_id).locked,
        !txs.contains_key(tx.tx_id),
    ensures
        step(strict, accts, txs, tx).2 == Err::<(), RejectionReason>(
            RejectionReason::InsufficientFunds,
        ),
        same_balances(step(strict, accts, txs, tx).0, accts),
        step(strict, accts, txs, tx).1 == txs,
{
}

} // verus!
