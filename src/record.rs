//! Incoming transaction records.

use vstd::prelude::*;
use crate::amount::{amount_of, numeral, parse_amount, parse_numeral};

verus! {

/// The kind of an incoming record.
#[derive(Debug, Clone, Copy, PartialEq, Eq, Structural)]
pub enum TxType {
    Deposit,
    Withdrawal,
    Dispute,
    Resolve,
    Chargeback,
}

impl TxType {
    /// Deposits and withdrawals move funds and are recorded; the other kinds
    /// refer to a recorded transaction.
    pub open spec fn moves_funds(self) -> bool {
        self is Deposit || self is Withdrawal
    }
}

/// One incoming record. `amount` is present for deposits and withdrawals,
/// in fixed-point units (see `crate::amount`).
#[derive(Debug, Clone, Copy, PartialEq, Eq, Structural)]
pub struct Tx {
    pub tx_type: TxType,
    pub client_id: u16,
    pub tx_id: u32,
    pub amount: Option<i64>,
}

/// Why a record's fields could not be read.
#[derive(Debug, Clone, Copy, PartialEq, Eq, Structural)]
pub enum RecordError {
    /// The type is none of deposit, withdrawal, dispute, resolve, chargeback.
    BadType,
    /// The client id is not a decimal `u16`.
    BadClient,
    /// The transaction id is not a decimal `u32`.
    BadTxId,
    /// The amount is neither blank nor a decimal amount (see `crate::amount`).
    BadAmount,
}

/// Whether `c` is the lower-case ASCII letter `lower`, in either case.
pub open spec fn same_letter(c: char, lower: char) -> bool {
    c == lower || ('A' <= c <= 'Z' && c as int + 32 == lower as int)
}

/// Whether `s` spells the lower-case `word`, ignoring ASCII case.
pub open spec fn spells(s: Seq<char>, word: Seq<char>) -> bool {
    &&& s.len() == word.len()
    &&& forall|i: int| 0 <= i < s.len() ==> same_letter(#[trigger] s[i], word[i])
}

/// The record type that `s` names, ignoring ASCII case.
pub open spec fn tx_type_of(s: Seq<char>) -> Option<TxType> {
    if spells(s, "deposit"@) {
        Some(TxType::Deposit)
    } else if spells(s, "withdrawal"@) {
        Some(TxType::Withdrawal)
    } else if spells(s, "dispute"@) {
        Some(TxType::Dispute)
    } else if spells(s, "resolve"@) {
        Some(TxType::Resolve)
    } else if spells(s, "chargeback"@) {
        Some(TxType::Chargeback)
    } else {
        None
    }
}

/// The record that the four fields read as, or the first field, in order,
/// that cannot be read. A blank amount is an absent one.
pub open spec fn record_of(
    kind: Seq<char>,
    client: Seq<char>,
    tx: Seq<char>,
    amount: Seq<char>,
) -> Result<Tx, RecordError> {
    if tx_type_of(kind) is None {
        Err(RecordError::BadType)
    } else if numeral(client, u16::MAX as int) is None {
        Err(RecordError::BadClient)
    } else if numeral(tx, u32::MAX as int) is None {
        Err(RecordError::BadTxId)
    } else if amount.len() > 0 && amount_of(amount) is None {
        Err(RecordError::BadAmount)
    } else {
        Ok(
            Tx {
                tx_type: tx_type_of(kind)->Some_0,
                client_id: numeral(client, u16::MAX as int)->Some_0 as u16,
                tx_id: numeral(tx, u32::MAX as int)->Some_0 as u32,
                amount: if amount.len() == 0 {
                    None
                } else {
                    amount_of(amount)
                },
            },
        )
    }
}

/// Whether `s` spells the lower-case `word`, ignoring ASCII case.
fn spells_word(s: &str, word: &str) -> (r: bool)
    ensures
        r == spells(s@, word@),
{
    let n = s.unicode_len();
    if n != word.unicode_len() {
        return false;
    }
    let mut i: usize = 0;
    while i < n
        invariant
            n == s@.len() == word@.len(),
            i <= n,
            forall|j: int| 0 <= j < i ==> same_letter(#[trigger] s@[j], word@[j]),
        decreases n - i,
    {
        let c = s.get_char(i);
        let w = word.get_char(i);
        if !(c == w || ('A' <= c && c <= 'Z' && c as u32 + 32 == w as u32)) {
            return false;
        }
        i = i + 1;
    }
    true
}

impl TxType {
    /// Reads a record type, ignoring ASCII case: `deposit`, `withdrawal`,
    /// `dispute`, `resolve` or `chargeback`.
    pub fn parse(s: &str) -> (r: Option<TxType>)
        ensures
            r == tx_type_of(s@),
    {
        if spells_word(s, "deposit") {
            Some(TxType::Deposit)
        } else if spells_word(s, "withdrawal") {
            Some(TxType::Withdrawal)
        } else if spells_word(s, "dispute") {
            Some(TxType::Dispute)
        } else if spells_word(s, "resolve") {
            Some(TxType::Resolve)
        } else if spells_word(s, "chargeback") {
            Some(TxType::Chargeback)
        } else {
            None
        }
    }
}

impl Tx {
    /// Reads a record from its four fields, already stripped of surrounding
    /// whitespace: type, client id, transaction id and amount. A blank
    /// amount is an absent one.
    pub fn from_fields(kind: &str, client: &str, tx: &str, amount: &str) -> (r: Result<
        Tx,
        RecordError,
    >)
        ensures
            r == record_of(kind@, client@, tx@, amount@),
    {
        let tx_type = match TxType::parse(kind) {
            Some(t) => t,
            None => return Err(RecordError::BadType),
        };
        let client_id = match parse_numeral(client, u16::MAX as u64) {
            Some(c) => c as u16,
            None => return Err(RecordError::BadClient),
        };
        let tx_id = match parse_numeral(tx, u32::MAX as u64) {
            Some(t) => t as u32,
            None => return Err(RecordError::BadTxId),
        };
        let amount = if amount.unicode_len() == 0 {
            None
        } else {
            match parse_amount(amount) {
                Some(a) => Some(a),
                None => return Err(RecordError::BadAmount),
            }
        };
        Ok(Tx { tx_type, client_id, tx_id, amount })
    }
}

} // verus!
